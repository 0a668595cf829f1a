use crate::layout::{
    branch_glyph, child_prefix, child_prefix_of, glyph_of, item_prefix, item_prefix_of,
};
use crate::order::{keys_of, sort_order, sorted_indices};
use crate::style::{emphasize, emphasized, Emphasis};
use crate::text::{available_width, join, joined, text_width, textwrap_lines, views_of, wrapped};
use vstd::prelude::*;

verus! {

broadcast use vstd::std_specs::vec::group_vec_axioms;

/// A short decoration shown after an entry's label.
pub struct Badge {
    pub text: String,
    pub emphasis: Emphasis,
}

/// Extra information shown below an entry in detailed reports.
pub enum DetailBlock {
    /// `"<title>: item, item, …"`, wrapped.
    InlineList { title: String, items: Vec<String> },
    /// The items joined by commas, wrapped and de-emphasized.
    TagList { items: Vec<String> },
    /// A single line `"<key>: <value>"`.
    KeyValue { key: String, value: String },
    /// A title line, then each item as its own wrapped, bulleted paragraph.
    BulletedList { title: String, items: Vec<String> },
    /// The items joined by commas, wrapped, without decoration.
    PlainList { items: Vec<String> },
}

/// A terminal entry of the tree.
pub struct LeafRecord {
    pub label: String,
    pub label_emphasis: Emphasis,
    pub badges: Vec<Badge>,
    pub description: Option<String>,
    pub detail_blocks: Vec<DetailBlock>,
}

/// What a detail block holds.
pub enum BlockView {
    InlineList { title: Seq<char>, items: Seq<Seq<char>> },
    TagList { items: Seq<Seq<char>> },
    KeyValue { key: Seq<char>, value: Seq<char> },
    BulletedList { title: Seq<char>, items: Seq<Seq<char>> },
    PlainList { items: Seq<Seq<char>> },
}

/// What a leaf holds.
pub struct LeafView {
    pub label: Seq<char>,
    pub label_emphasis: Emphasis,
    pub badges: Seq<(Seq<char>, Emphasis)>,
    pub description: Option<Seq<char>>,
    pub blocks: Seq<BlockView>,
}

impl View for Badge {
    type V = (Seq<char>, Emphasis);

    open spec fn view(&self) -> (Seq<char>, Emphasis) {
        (self.text@, self.emphasis)
    }
}

impl View for DetailBlock {
    type V = BlockView;

    open spec fn view(&self) -> BlockView {
        match self {
            DetailBlock::InlineList { title, items } => BlockView::InlineList {
                title: title@,
                items: views_of(items@),
            },
            DetailBlock::TagList { items } => BlockView::TagList { items: views_of(items@) },
            DetailBlock::KeyValue { key, value } => BlockView::KeyValue { key: key@, value: value@ },
            DetailBlock::BulletedList { title, items } => BlockView::BulletedList {
                title: title@,
                items: views_of(items@),
            },
            DetailBlock::PlainList { items } => BlockView::PlainList { items: views_of(items@) },
        }
    }
}

impl View for LeafRecord {
    type V = LeafView;

    open spec fn view(&self) -> LeafView {
        LeafView {
            label: self.label@,
            label_emphasis: self.label_emphasis,
            badges: self.badges@.map_values(|b: Badge| b@),
            description: match self.description {
                Some(d) => Some(d@),
                None => None,
            },
            blocks: self.detail_blocks@.map_values(|b: DetailBlock| b@),
        }
    }
}

/// A node of the metadata tree: an entry, or a named group of nodes.
pub enum MetadataNode {
    Leaf(LeafRecord),
    Branch(Vec<(String, MetadataNode)>),
}

/// What a report shows and how wide it may be.
#[derive(Clone, Copy, Debug, PartialEq, Eq, Structural)]
pub struct RenderOptions {
    pub detailed: bool,
    pub show_descriptions: bool,
    pub terminal_width: usize,
}

/// The part of a node's output that a line belongs to.
#[derive(Clone, Copy, Debug, PartialEq, Eq, Structural)]
pub enum LineKind {
    Header,
    Description,
    Detail,
}

/// Whether lines of kind `k` appear under options `o`.
pub open spec fn kind_shown(k: LineKind, o: RenderOptions) -> bool {
    match k {
        LineKind::Header => true,
        LineKind::Description => o.show_descriptions,
        LineKind::Detail => o.detailed,
    }
}

/// The text of the lines that options `o` let through, in order.
pub open spec fn shown(lines: Seq<(LineKind, Seq<char>)>, o: RenderOptions) -> Seq<Seq<char>>
    decreases lines.len(),
{
    if lines.len() == 0 {
        seq![]
    } else {
        shown(lines.drop_last(), o) + if kind_shown(lines.last().0, o) {
            seq![lines.last().1]
        } else {
            seq![]
        }
    }
}

/// Every line marked with kind `k`.
pub open spec fn tagged(k: LineKind, lines: Seq<Seq<char>>) -> Seq<(LineKind, Seq<char>)> {
    lines.map_values(|l: Seq<char>| (k, l))
}

/// The badges as they follow the label, each after one space.
pub open spec fn badges_text(bs: Seq<(Seq<char>, Emphasis)>) -> Seq<char>
    decreases bs.len(),
{
    if bs.len() == 0 {
        seq![]
    } else {
        badges_text(bs.drop_last()) + seq![' '] + emphasized(bs.last().0, bs.last().1)
    }
}

/// The header line of a leaf.
pub open spec fn leaf_header(prefix: Seq<char>, is_last: bool, leaf: LeafView) -> Seq<char> {
    prefix + seq![' '] + glyph_of(is_last) + seq![' '] + emphasized(leaf.label, leaf.label_emphasis)
        + badges_text(leaf.badges)
}

/// Each segment after `prefix`, with emphasis `e`.
pub open spec fn styled(prefix: Seq<char>, segs: Seq<Seq<char>>, e: Emphasis) -> Seq<Seq<char>> {
    segs.map_values(|s: Seq<char>| prefix + emphasized(s, e))
}

/// `text` wrapped below `prefix`, each line with emphasis `e`.
pub open spec fn paragraph(text: Seq<char>, prefix: Seq<char>, tw: nat, e: Emphasis) -> Seq<Seq<char>> {
    styled(prefix, wrapped(text, available_width(prefix, tw)), e)
}

/// Prefix of the continuation lines of a bulleted item.
pub open spec fn bullet_prefix_of(ip: Seq<char>) -> Seq<char> {
    ip + seq![' ', ' ', ' ']
}

/// One bulleted item: the bullet on the first line, later lines aligned
/// under the text rather than under the bullet.
pub open spec fn bullet_lines(item: Seq<char>, ip: Seq<char>, tw: nat) -> Seq<Seq<char>> {
    let bp = bullet_prefix_of(ip);
    let segs = wrapped(item, available_width(bp, tw));
    seq![ip + seq![' '] + emphasized(seq!['•'], Emphasis::Accent) + seq![' '] + segs[0]]
        + styled(bp, segs.skip(1), Emphasis::Plain)
}

/// All bulleted items in order.
pub open spec fn bullets_lines(items: Seq<Seq<char>>, ip: Seq<char>, tw: nat) -> Seq<Seq<char>>
    decreases items.len(),
{
    if items.len() == 0 {
        seq![]
    } else {
        bullets_lines(items.drop_last(), ip, tw) + bullet_lines(items.last(), ip, tw)
    }
}

/// The lines of one detail block below item prefix `ip`.
pub open spec fn block_lines(b: BlockView, ip: Seq<char>, tw: nat) -> Seq<Seq<char>> {
    match b {
        BlockView::InlineList { title, items } => paragraph(
            title + seq![':', ' '] + joined(items, seq![',', ' ']),
            ip,
            tw,
            Emphasis::Plain,
        ),
        BlockView::TagList { items } => paragraph(
            joined(items, seq![',', ' ']),
            ip,
            tw,
            Emphasis::Muted,
        ),
        BlockView::KeyValue { key, value } => seq![
            ip + key + seq![':', ' '] + emphasized(value, Emphasis::Slanted),
        ],
        BlockView::BulletedList { title, items } => seq![ip + title + seq![':']] + bullets_lines(
            items,
            ip,
            tw,
        ),
        BlockView::PlainList { items } => paragraph(
            joined(items, seq![',', ' ']),
            ip,
            tw,
            Emphasis::Plain,
        ),
    }
}

/// The lines of all detail blocks in order.
pub open spec fn blocks_lines(bs: Seq<BlockView>, ip: Seq<char>, tw: nat) -> Seq<Seq<char>>
    decreases bs.len(),
{
    if bs.len() == 0 {
        seq![]
    } else {
        blocks_lines(bs.drop_last(), ip, tw) + block_lines(bs.last(), ip, tw)
    }
}

/// Every line a leaf can write, each marked with its kind.
pub open spec fn leaf_tagged(prefix: Seq<char>, is_last: bool, leaf: LeafView, tw: nat) -> Seq<
    (LineKind, Seq<char>),
> {
    let ip = item_prefix_of(prefix, is_last);
    seq![(LineKind::Header, leaf_header(prefix, is_last, leaf))] + description_tagged(leaf, ip, tw)
        + tagged(LineKind::Detail, blocks_lines(leaf.blocks, ip, tw))
}

/// The description lines of a leaf, if it has a description.
pub open spec fn description_tagged(leaf: LeafView, ip: Seq<char>, tw: nat) -> Seq<(LineKind, Seq<char>)> {
    match leaf.description {
        Some(d) => tagged(LineKind::Description, paragraph(d, ip, tw, Emphasis::Strong)),
        None => seq![],
    }
}

/// The header line of a group.
pub open spec fn group_header(prefix: Seq<char>, is_last: bool, name: Seq<char>) -> Seq<char> {
    prefix + seq![' '] + glyph_of(is_last) + seq!['┓', ' '] + emphasized(name, Emphasis::Slanted)
}

/// A node that writes anything: a leaf, or a group with at least one entry.
pub open spec fn visible(node: MetadataNode) -> bool {
    match node {
        MetadataNode::Leaf(_) => true,
        MetadataNode::Branch(v) => v@.len() > 0,
    }
}

/// Which entries are visible.
pub open spec fn visibility(entries: Seq<(String, MetadataNode)>) -> Seq<bool> {
    entries.map_values(|e: (String, MetadataNode)| visible(e.1))
}

/// The visible entries' indices in the order they are shown.
pub open spec fn order_of(entries: Seq<(String, MetadataNode)>) -> Seq<int> {
    sort_order(keys_of(entries), visibility(entries), entries.len() as int)
}

/// Every line a node named `name` can write below `prefix`.
pub open spec fn node_tagged(
    name: Seq<char>,
    node: MetadataNode,
    prefix: Seq<char>,
    is_last: bool,
    tw: nat,
) -> Seq<(LineKind, Seq<char>)>
    decreases node, 0int,
{
    match node {
        MetadataNode::Leaf(leaf) => leaf_tagged(prefix, is_last, leaf@, tw),
        MetadataNode::Branch(v) => if v@.len() == 0 {
            seq![]
        } else {
            seq![(LineKind::Header, group_header(prefix, is_last, name))] + entries_from(
                v,
                0,
                child_prefix_of(prefix, is_last),
                tw,
            )
        },
    }
}

/// Every line the visible entries from the `k`-th in order on can write.
pub open spec fn entries_from(v: Vec<(String, MetadataNode)>, k: int, prefix: Seq<char>, tw: nat) -> Seq<
    (LineKind, Seq<char>),
>
    decreases v, order_of(v@).len() - k,
{
    let o = order_of(v@);
    if k < 0 || k >= o.len() {
        seq![]
    } else {
        let j = o[k];
        let here = if 0 <= j < v@.len() {
            node_tagged(v[j].0@, v[j].1, prefix, k == o.len() - 1, tw)
        } else {
            seq![]
        };
        here + entries_from(v, k + 1, prefix, tw)
    }
}

/// Every line of a whole tree, rendered from an empty prefix.
pub open spec fn tree_tagged(tree: MetadataNode, tw: nat) -> Seq<(LineKind, Seq<char>)> {
    match tree {
        MetadataNode::Branch(v) => entries_from(v, 0, seq![], tw),
        MetadataNode::Leaf(leaf) => leaf_tagged(seq![], true, leaf@, tw),
    }
}

/// The lines of a tree under options `o`.
pub open spec fn report_lines(tree: MetadataNode, o: RenderOptions) -> Seq<Seq<char>> {
    shown(tree_tagged(tree, o.terminal_width as nat), o)
}

/// Each line followed by a newline.
pub open spec fn buffer_of(lines: Seq<Seq<char>>) -> Seq<char>
    decreases lines.len(),
{
    if lines.len() == 0 {
        seq![]
    } else {
        buffer_of(lines.drop_last()) + lines.last() + seq!['\n']
    }
}

/// Filtering a listing distributes over concatenation.
pub proof fn lemma_shown_concat(a: Seq<(LineKind, Seq<char>)>, b: Seq<(LineKind, Seq<char>)>, o: RenderOptions)
    ensures
        shown(a + b, o) == shown(a, o) + shown(b, o),
    decreases b.len(),
{
    if b.len() == 0 {
        assert(a + b =~= a);
        assert(shown(b, o) =~= seq![]);
        assert(shown(a, o) + shown(b, o) =~= shown(a, o));
    } else {
        lemma_shown_concat(a, b.drop_last(), o);
        assert((a + b).drop_last() =~= a + b.drop_last());
        assert((a + b).last() == b.last());
        assert(shown(a + b, o) =~= shown(a, o) + shown(b, o));
    }
}

/// A single line is shown exactly when its kind is.
pub proof fn lemma_shown_one(x: (LineKind, Seq<char>), o: RenderOptions)
    ensures
        shown(seq![x], o) == if kind_shown(x.0, o) {
            seq![x.1]
        } else {
            seq![]
        },
{
    let s = seq![x];
    assert(s.drop_last() =~= Seq::<(LineKind, Seq<char>)>::empty());
    assert(shown(s.drop_last(), o) =~= seq![]);
    assert(s.last() == x);
    if kind_shown(x.0, o) {
        assert(shown(s, o) =~= seq![x.1]);
    } else {
        assert(shown(s, o) =~= seq![]);
    }
}

/// Lines of one kind are all shown or all hidden.
pub proof fn lemma_shown_tagged(k: LineKind, lines: Seq<Seq<char>>, o: RenderOptions)
    ensures
        shown(tagged(k, lines), o) == if kind_shown(k, o) {
            lines
        } else {
            seq![]
        },
    decreases lines.len(),
{
    if lines.len() > 0 {
        lemma_shown_tagged(k, lines.drop_last(), o);
        assert(tagged(k, lines).drop_last() =~= tagged(k, lines.drop_last()));
        if kind_shown(k, o) {
            assert(shown(tagged(k, lines), o) =~= lines);
        } else {
            assert(shown(tagged(k, lines), o) =~= seq![]);
        }
    } else {
        assert(tagged(k, lines) =~= seq![]);
    }
}

/// Appends each segment after `prefix`, with emphasis `e`.
pub fn push_styled(out: &mut Vec<String>, prefix: &str, segs: &Vec<String>, e: Emphasis)
    ensures
        views_of(final(out)@) == views_of(old(out)@) + styled(prefix@, views_of(segs@), e),
{
    let ghost start = views_of(out@);
    let ghost want = styled(prefix@, views_of(segs@), e);
    let mut i: usize = 0;
    while i < segs.len()
        invariant
            i <= segs@.len(),
            want == styled(prefix@, views_of(segs@), e),
            views_of(out@) == start + want.subrange(0, i as int),
        decreases segs@.len() - i,
    {
        let mut line = prefix.to_owned();
        let body = emphasize(segs[i].as_str(), e);
        line.append(body.as_str());
        let ghost prev = views_of(out@);
        out.push(line);
        proof {
            assert(views_of(segs@)[i as int] == segs@[i as int]@);
            assert(want[i as int] == line@);
            assert(views_of(out@) =~= prev + seq![line@]);
            assert(want.subrange(0, i + 1) =~= want.subrange(0, i as int) + seq![line@]);
            assert(views_of(out@) =~= start + want.subrange(0, i + 1));
        }
        i = i + 1;
    }
    proof {
        assert(want.subrange(0, segs@.len() as int) =~= want);
    }
}

/// Appends the wrapped `text` below `prefix`, each line with emphasis `e`.
fn push_paragraph(out: &mut Vec<String>, text: &str, prefix: &str, tw: usize, e: Emphasis)
    ensures
        views_of(final(out)@) == views_of(old(out)@) + paragraph(text@, prefix@, tw as nat, e),
{
    let width = text_width(prefix, tw);
    let segs = textwrap_lines(text, width);
    push_styled(out, prefix, &segs, e);
}

/// Appends one bulleted item.
fn push_bullet(out: &mut Vec<String>, item: &str, ip: &str, tw: usize)
    ensures
        views_of(final(out)@) == views_of(old(out)@) + bullet_lines(item@, ip@, tw as nat),
{
    let mut bp = ip.to_owned();
    bp.append("   ");
    proof {
        reveal_strlit("   ");
        assert(bp@ =~= bullet_prefix_of(ip@));
    }
    let width = text_width(bp.as_str(), tw);
    let segs = textwrap_lines(item, width);
    let ghost start = views_of(out@);
    let ghost rest = styled(bp@, views_of(segs@).skip(1), Emphasis::Plain);
    let mut first = ip.to_owned();
    first.append(" ");
    let dot = emphasize("•", Emphasis::Accent);
    first.append(dot.as_str());
    first.append(" ");
    first.append(segs[0].as_str());
    proof {
        reveal_strlit(" ");
        reveal_strlit("•");
        assert("•"@ =~= seq!['•']);
        assert(" "@ =~= seq![' ']);
        assert(views_of(segs@)[0] == segs@[0]@);
        assert(first@ =~= ip@ + seq![' '] + emphasized(seq!['•'], Emphasis::Accent) + seq![' ']
            + views_of(segs@)[0]);
    }
    let ghost prev0 = views_of(out@);
    out.push(first);
    proof {
        assert(views_of(out@) =~= prev0 + seq![first@]);
        assert(rest.subrange(0, 0) =~= seq![]);
    }
    let mut i: usize = 1;
    while i < segs.len()
        invariant
            1 <= i <= segs@.len(),
            rest == styled(bp@, views_of(segs@).skip(1), Emphasis::Plain),
            views_of(out@) == start + seq![first@] + rest.subrange(0, i - 1),
        decreases segs@.len() - i,
    {
        let mut line = bp.clone();
        line.append(segs[i].as_str());
        let ghost prev = views_of(out@);
        out.push(line);
        proof {
            assert(views_of(segs@).skip(1)[i - 1] == segs@[i as int]@);
            assert(rest[i - 1] =~= line@);
            assert(views_of(out@) =~= prev + seq![line@]);
            assert(rest.subrange(0, i as int) =~= rest.subrange(0, i - 1) + seq![line@]);
            assert(views_of(out@) =~= start + seq![first@] + rest.subrange(0, i as int));
        }
        i = i + 1;
    }
    proof {
        assert(rest.subrange(0, segs@.len() - 1) =~= rest);
        assert(bullet_lines(item@, ip@, tw as nat) =~= seq![first@] + rest);
        assert(views_of(out@) =~= start + bullet_lines(item@, ip@, tw as nat));
    }
}

/// Appends the lines of one detail block.
fn push_block(out: &mut Vec<String>, block: &DetailBlock, ip: &str, tw: usize)
    ensures
        views_of(final(out)@) == views_of(old(out)@) + block_lines(block@, ip@, tw as nat),
{
    proof {
        reveal_strlit(", ");
        reveal_strlit(": ");
        reveal_strlit(":");
        assert(", "@ =~= seq![',', ' ']);
        assert(": "@ =~= seq![':', ' ']);
        assert(":"@ =~= seq![':']);
    }
    let ghost start = views_of(out@);
    match block {
        DetailBlock::InlineList { title, items } => {
            let mut text = title.clone();
            text.append(": ");
            let list = join(items, ", ");
            text.append(list.as_str());
            push_paragraph(out, text.as_str(), ip, tw, Emphasis::Plain);
        },
        DetailBlock::TagList { items } => {
            let list = join(items, ", ");
            push_paragraph(out, list.as_str(), ip, tw, Emphasis::Muted);
        },
        DetailBlock::PlainList { items } => {
            let list = join(items, ", ");
            push_paragraph(out, list.as_str(), ip, tw, Emphasis::Plain);
        },
        DetailBlock::KeyValue { key, value } => {
            let mut line = ip.to_owned();
            line.append(key.as_str());
            line.append(": ");
            let v = emphasize(value.as_str(), Emphasis::Slanted);
            line.append(v.as_str());
            out.push(line);
            proof {
                assert(views_of(out@) =~= start + block_lines(block@, ip@, tw as nat));
            }
        },
        DetailBlock::BulletedList { title, items } => {
            let mut line = ip.to_owned();
            line.append(title.as_str());
            line.append(":");
            out.push(line);
            let ghost head = views_of(out@);
            proof {
                assert(head =~= start + seq![line@]);
            }
            let ghost views = views_of(items@);
            let mut i: usize = 0;
            while i < items.len()
                invariant
                    i <= items@.len(),
                    views == views_of(items@),
                    views_of(out@) == head + bullets_lines(views.subrange(0, i as int), ip@, tw as nat),
                decreases items@.len() - i,
            {
                push_bullet(out, items[i].as_str(), ip, tw);
                proof {
                    let next = views.subrange(0, i + 1);
                    assert(next.drop_last() =~= views.subrange(0, i as int));
                    assert(next.last() == items@[i as int]@);
                    assert(views_of(out@) =~= head + bullets_lines(next, ip@, tw as nat));
                }
                i = i + 1;
            }
            proof {
                assert(views.subrange(0, items@.len() as int) =~= views);
                assert(views_of(out@) =~= start + block_lines(block@, ip@, tw as nat));
            }
        },
    }
}

/// Builds a leaf's header line.
fn leaf_header_line(prefix: &str, is_last: bool, leaf: &LeafRecord) -> (r: String)
    ensures
        r@ == leaf_header(prefix@, is_last, leaf@),
{
    let mut s = prefix.to_owned();
    s.append(" ");
    s.append(branch_glyph(is_last));
    s.append(" ");
    let label = emphasize(leaf.label.as_str(), leaf.label_emphasis);
    s.append(label.as_str());
    proof {
        reveal_strlit(" ");
        assert(" "@ =~= seq![' ']);
        assert(leaf@.badges.subrange(0, 0) =~= seq![]);
    }
    let ghost head = s@;
    let mut i: usize = 0;
    while i < leaf.badges.len()
        invariant
            i <= leaf.badges@.len(),
            s@ == head + badges_text(leaf@.badges.subrange(0, i as int)),
        decreases leaf.badges@.len() - i,
    {
        s.append(" ");
        let b = emphasize(leaf.badges[i].text.as_str(), leaf.badges[i].emphasis);
        s.append(b.as_str());
        proof {
            reveal_strlit(" ");
            assert(" "@ =~= seq![' ']);
            let next = leaf@.badges.subrange(0, i + 1);
            assert(next.drop_last() =~= leaf@.badges.subrange(0, i as int));
            assert(next.last() == leaf.badges@[i as int]@);
            assert(s@ =~= head + badges_text(next));
        }
        i = i + 1;
    }
    proof {
        assert(leaf@.badges.subrange(0, leaf.badges@.len() as int) =~= leaf@.badges);
    }
    s
}

/// Appends the lines of a leaf that `opts` lets through.
pub(crate) fn render_leaf(out: &mut Vec<String>, leaf: &LeafRecord, prefix: &str, is_last: bool, opts: &RenderOptions)
    ensures
        views_of(final(out)@) == views_of(old(out)@) + shown(
            leaf_tagged(prefix@, is_last, leaf@, opts.terminal_width as nat),
            *opts,
        ),
{
    let tw = opts.terminal_width;
    let ghost start = views_of(out@);
    let header = leaf_header_line(prefix, is_last, leaf);
    out.push(header);
    let ghost after_header = views_of(out@);
    let ip = item_prefix(prefix, is_last);
    let ghost desc = description_tagged(leaf@, ip@, tw as nat);
    if opts.show_descriptions {
        if let Some(d) = &leaf.description {
            push_paragraph(out, d.as_str(), ip.as_str(), tw, Emphasis::Strong);
        }
    }
    let ghost after_desc = views_of(out@);
    proof {
        if leaf.description is Some {
            lemma_shown_tagged(
                LineKind::Description,
                paragraph(leaf@.description->0, ip@, tw as nat, Emphasis::Strong),
                *opts,
            );
        } else {
            assert(desc =~= seq![]);
        }
        assert(after_desc == after_header + shown(desc, *opts));
    }
    let ghost blocks = blocks_lines(leaf@.blocks, ip@, tw as nat);
    if opts.detailed {
        let mut i: usize = 0;
        while i < leaf.detail_blocks.len()
            invariant
                i <= leaf.detail_blocks@.len(),
                views_of(out@) == after_desc + blocks_lines(
                    leaf@.blocks.subrange(0, i as int),
                    ip@,
                    tw as nat,
                ),
            decreases leaf.detail_blocks@.len() - i,
        {
            push_block(out, &leaf.detail_blocks[i], ip.as_str(), tw);
            proof {
                let next = leaf@.blocks.subrange(0, i + 1);
                assert(next.drop_last() =~= leaf@.blocks.subrange(0, i as int));
                assert(next.last() == leaf.detail_blocks@[i as int]@);
            }
            i = i + 1;
        }
        proof {
            assert(leaf@.blocks.subrange(0, leaf.detail_blocks@.len() as int) =~= leaf@.blocks);
        }
    } else {
        proof {
            assert(views_of(out@) =~= after_desc + seq![]);
        }
    }
    proof {
        let h = seq![(LineKind::Header, leaf_header(prefix@, is_last, leaf@))];
        let d = tagged(LineKind::Detail, blocks);
        lemma_shown_tagged(LineKind::Detail, blocks, *opts);
        lemma_shown_concat(h, desc, *opts);
        lemma_shown_concat(h + desc, d, *opts);
        lemma_shown_one((LineKind::Header, leaf_header(prefix@, is_last, leaf@)), *opts);
        assert(after_header =~= start + shown(h, *opts));
        assert(leaf_tagged(prefix@, is_last, leaf@, tw as nat) == h + desc + d);
    }
}

/// Appends the lines of a node that `opts` lets through.
fn render_node(
    out: &mut Vec<String>,
    name: &str,
    node: &MetadataNode,
    prefix: &str,
    is_last: bool,
    opts: &RenderOptions,
)
    ensures
        views_of(final(out)@) == views_of(old(out)@) + shown(
            node_tagged(name@, *node, prefix@, is_last, opts.terminal_width as nat),
            *opts,
        ),
    decreases node,
{
    match node {
        MetadataNode::Leaf(leaf) => render_leaf(out, leaf, prefix, is_last, opts),
        MetadataNode::Branch(v) => {
            if v.len() == 0 {
                proof {
                    assert(views_of(out@) =~= views_of(out@) + seq![]);
                }
                return ;
            }
            let ghost start = views_of(out@);
            let mut line = prefix.to_owned();
            line.append(" ");
            line.append(branch_glyph(is_last));
            line.append("┓ ");
            let label = emphasize(name, Emphasis::Slanted);
            line.append(label.as_str());
            proof {
                reveal_strlit(" ");
                reveal_strlit("┓ ");
            }
            out.push(line);
            let cp = child_prefix(prefix, is_last);
            render_entries(out, v, cp.as_str(), opts);
            proof {
                let h = seq![(LineKind::Header, group_header(prefix@, is_last, name@))];
                let rest = entries_from(*v, 0, cp@, opts.terminal_width as nat);
                lemma_shown_concat(h, rest, *opts);
                lemma_shown_one((LineKind::Header, group_header(prefix@, is_last, name@)), *opts);
                assert(" "@ =~= seq![' ']);
                assert("┓ "@ =~= seq!['┓', ' ']);
                assert(line@ =~= group_header(prefix@, is_last, name@));
            }
        },
    }
}

/// Appends the lines of the visible entries, in order of their keys.
pub(crate) fn render_entries(out: &mut Vec<String>, entries: &Vec<(String, MetadataNode)>, prefix: &str, opts: &RenderOptions)
    ensures
        views_of(final(out)@) == views_of(old(out)@) + shown(
            entries_from(*entries, 0, prefix@, opts.terminal_width as nat),
            *opts,
        ),
    decreases entries,
{
    let tw = opts.terminal_width;
    let mut keep: Vec<bool> = Vec::new();
    let mut i: usize = 0;
    while i < entries.len()
        invariant
            i <= entries@.len(),
            keep@ == visibility(entries@).subrange(0, i as int),
        decreases entries@.len() - i,
    {
        let vis = match &entries[i].1 {
            MetadataNode::Leaf(_) => true,
            MetadataNode::Branch(c) => c.len() > 0,
        };
        keep.push(vis);
        proof {
            assert(keep@ =~= visibility(entries@).subrange(0, i + 1));
        }
        i = i + 1;
    }
    proof {
        assert(keep@ =~= visibility(entries@));
    }
    let order = sorted_indices(entries, &keep);
    let ghost o = order_of(entries@);
    proof {
        assert(order@.len() == o.len());
        assert forall|k: int| 0 <= k < order@.len() implies #[trigger] order@[k] as int == o[k] by {
            assert(order@.map_values(|x: usize| x as int)[k] == o[k]);
        }
    }
    let ghost start = views_of(out@);
    let ghost all = entries_from(*entries, 0, prefix@, tw as nat);
    let mut k: usize = 0;
    while k < order.len()
        invariant
            k <= order@.len(),
            tw == opts.terminal_width,
            order@.len() == o.len(),
            o == order_of(entries@),
            forall|x: int| 0 <= x < order@.len() ==> #[trigger] order@[x] as int == o[x],
            all == entries_from(*entries, 0, prefix@, tw as nat),
            start + shown(all, *opts) == views_of(out@) + shown(
                entries_from(*entries, k as int, prefix@, tw as nat),
                *opts,
            ),
        decreases order@.len() - k,
    {
        let j = order[k];
        let ghost before = views_of(out@);
        let last = k + 1 == order.len();
        proof {
            crate::order::lemma_sort_order(keys_of(entries@), visibility(entries@), entries@.len() as int);
            assert(0 <= o[k as int] < entries@.len());
        }
        let entry = &entries[j];
        let name = entry.0.as_str();
        let child = &entry.1;
        render_node(out, name, child, prefix, last, opts);
        proof {
            let here = node_tagged(name@, *child, prefix@, last, tw as nat);
            let next = entries_from(*entries, k + 1, prefix@, tw as nat);
            assert(entries_from(*entries, k as int, prefix@, tw as nat) == here + next);
            lemma_shown_concat(here, next, *opts);
            assert(views_of(out@) + shown(next, *opts) =~= before + shown(here + next, *opts));
        }
        k = k + 1;
    }
    proof {
        assert(entries_from(*entries, k as int, prefix@, tw as nat) == Seq::<(LineKind, Seq<char>)>::empty());
        assert(shown(Seq::<(LineKind, Seq<char>)>::empty(), *opts) =~= seq![]);
        assert(views_of(out@) + seq![] =~= views_of(out@));
    }
}

/// Renders a whole tree into its lines.
pub fn render_lines(tree: &MetadataNode, opts: &RenderOptions) -> (r: Vec<String>)
    ensures
        views_of(r@) == report_lines(*tree, *opts),
{
    let mut out: Vec<String> = Vec::new();
    proof {
        assert(views_of(out@) =~= seq![]);
    }
    match tree {
        MetadataNode::Branch(v) => {
            render_entries(&mut out, v, "", opts);
        },
        MetadataNode::Leaf(leaf) => {
            render_leaf(&mut out, leaf, "", true, opts);
        },
    }
    proof {
        reveal_strlit("");
        assert(""@ =~= Seq::<char>::empty());
        assert(views_of(out@) =~= report_lines(*tree, *opts));
    }
    out
}

/// Concatenates the lines, each followed by a newline.
pub fn to_buffer(lines: &Vec<String>) -> (r: String)
    ensures
        r@ == buffer_of(views_of(lines@)),
{
    let ghost views = views_of(lines@);
    let mut out = String::new();
    let mut i: usize = 0;
    while i < lines.len()
        invariant
            i <= lines@.len(),
            views == views_of(lines@),
            out@ == buffer_of(views.subrange(0, i as int)),
        decreases lines@.len() - i,
    {
        out.append(lines[i].as_str());
        out.append("\n");
        proof {
            reveal_strlit("\n");
            let next = views.subrange(0, i + 1);
            assert(next.drop_last() =~= views.subrange(0, i as int));
        }
        i = i + 1;
    }
    proof {
        assert(views.subrange(0, lines@.len() as int) =~= views);
    }
    out
}

/// Renders a whole tree into one text buffer, one line per row.
pub fn render(tree: &MetadataNode, opts: &RenderOptions) -> (r: String)
    ensures
        r@ == buffer_of(report_lines(*tree, *opts)),
{
    let lines = render_lines(tree, opts);
    to_buffer(&lines)
}

} // verus!
