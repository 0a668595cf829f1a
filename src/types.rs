use crate::order::{keys_of, same_text, sort_order, sorted_indices};
use crate::style::Emphasis;
use crate::text::views_of;
use crate::tree::{Badge, BlockView, DetailBlock, LeafRecord, LeafView};
use vstd::prelude::*;

verus! {

/// Metadata of one riglet.
pub struct RigletMeta {
    pub description: String,
    pub keywords: Vec<String>,
    pub intent: String,
    pub status: String,
    pub disclosure: String,
    pub broken: bool,
    pub version: String,
    pub when_to_use: Vec<String>,
    pub command_names: Vec<String>,
    pub entrypoint: Option<String>,
}

/// Metadata of one rig: the riglets it combines and its entrypoint, if any.
pub struct RigMeta {
    pub riglets: Vec<(String, RigletMeta)>,
    pub entrypoint: Option<String>,
}

/// What one flake input provides.
pub struct InputData {
    pub riglets: Vec<(String, RigletMeta)>,
    pub rigs: Vec<(String, RigMeta)>,
}

/// The badge that a lifecycle status earns, if any.
pub open spec fn status_badges(status: Seq<char>) -> Seq<(Seq<char>, Emphasis)> {
    if status == "experimental"@ {
        seq![(status, Emphasis::Warning)]
    } else if status == "deprecated"@ || status == "draft"@ {
        seq![(status, Emphasis::Error)]
    } else if status == "example"@ {
        seq![(status, Emphasis::Highlight)]
    } else {
        seq![]
    }
}

/// The badge that a disclosure mode earns, if any: lazy disclosure is the
/// default and shows nothing, and base riglets are never disclosed, so they
/// are not marked either.
pub open spec fn disclosure_badges(disclosure: Seq<char>, intent: Seq<char>) -> Seq<(Seq<char>, Emphasis)> {
    if disclosure == "lazy"@ {
        seq![]
    } else if disclosure == "none"@ {
        if intent == "base"@ {
            seq![]
        } else {
            seq![("undisclosed"@, Emphasis::Positive)]
        }
    } else {
        seq![(disclosure, Emphasis::Positive)]
    }
}

/// The badges of a riglet, in the order they follow its name.
pub open spec fn riglet_badges(m: RigletMeta) -> Seq<(Seq<char>, Emphasis)> {
    seq![(seq!['('] + m.version@ + seq![')'], Emphasis::Plain), (m.intent@, Emphasis::Info)]
        + (if m.entrypoint is Some {
        seq![("entrypoint"@, Emphasis::Accent)]
    } else {
        seq![]
    }) + status_badges(m.status@) + disclosure_badges(m.disclosure@, m.intent@) + (if m.broken {
        seq![("BROKEN"@, Emphasis::Alert)]
    } else {
        seq![]
    })
}

/// The detail blocks of a riglet; empty lists and a missing entrypoint give
/// no block.
pub open spec fn riglet_blocks(m: RigletMeta) -> Seq<BlockView> {
    (if m.keywords@.len() > 0 {
        seq![BlockView::TagList { items: views_of(m.keywords@) }]
    } else {
        seq![]
    }) + (if m.command_names@.len() > 0 {
        seq![BlockView::InlineList { title: "Provides"@, items: views_of(m.command_names@) }]
    } else {
        seq![]
    }) + (match m.entrypoint {
        Some(p) => seq![BlockView::KeyValue { key: "Entrypoint"@, value: p@ }],
        None => seq![],
    }) + (if m.when_to_use@.len() > 0 {
        seq![BlockView::BulletedList { title: "When to use"@, items: views_of(m.when_to_use@) }]
    } else {
        seq![]
    })
}

/// How a riglet named `name` is shown.
pub open spec fn riglet_view(name: Seq<char>, m: RigletMeta) -> LeafView {
    LeafView {
        label: name,
        label_emphasis: Emphasis::Highlight,
        badges: riglet_badges(m),
        description: if m.description@.len() == 0 {
            None
        } else {
            Some(m.description@)
        },
        blocks: riglet_blocks(m),
    }
}

/// Every flag set.
pub open spec fn all_kept(n: nat) -> Seq<bool> {
    Seq::new(n, |i: int| true)
}

/// The names of entries in order of their keys.
pub open spec fn sorted_names<T>(entries: Seq<(String, T)>) -> Seq<Seq<char>> {
    let keys = keys_of(entries);
    sort_order(keys, all_kept(entries.len()), entries.len() as int).map_values(|i: int| keys[i])
}

/// How a rig named `name` is shown: its entrypoint after the name, and the
/// names of its riglets as a detail.
pub open spec fn rig_view(name: Seq<char>, r: RigMeta) -> LeafView {
    LeafView {
        label: name,
        label_emphasis: Emphasis::Positive,
        badges: match r.entrypoint {
            Some(p) => seq![("entrypoint:"@, Emphasis::Plain), (p@, Emphasis::Accent)],
            None => seq![],
        },
        description: None,
        blocks: if r.riglets@.len() > 0 {
            seq![BlockView::TagList { items: sorted_names(r.riglets@) }]
        } else {
            seq![]
        },
    }
}

/// Copies a list of texts.
pub fn copy_texts(v: &Vec<String>) -> (r: Vec<String>)
    ensures
        views_of(r@) == views_of(v@),
{
    let mut out: Vec<String> = Vec::new();
    let mut i: usize = 0;
    while i < v.len()
        invariant
            i <= v@.len(),
            views_of(out@) == views_of(v@).subrange(0, i as int),
        decreases v@.len() - i,
    {
        let c = v[i].clone();
        let ghost prev = views_of(out@);
        out.push(c);
        proof {
            assert(c@ == v@[i as int]@);
            assert(views_of(out@) =~= prev + seq![c@]);
            assert(views_of(out@) =~= views_of(v@).subrange(0, i + 1));
        }
        i = i + 1;
    }
    proof {
        assert(views_of(v@).subrange(0, v@.len() as int) =~= views_of(v@));
    }
    out
}

fn badge(text: &str, emphasis: Emphasis) -> (r: Badge)
    ensures
        r@ == (text@, emphasis),
{
    Badge { text: text.to_owned(), emphasis }
}

/// Builds the badges of a riglet.
pub fn riglet_badge_list(meta: &RigletMeta) -> (r: Vec<Badge>)
    ensures
        r@.map_values(|b: Badge| b@) == riglet_badges(*meta),
{
    let mut out: Vec<Badge> = Vec::new();
    let mut version = String::from_str("(");
    version.append(meta.version.as_str());
    version.append(")");
    proof {
        reveal_strlit("(");
        reveal_strlit(")");
        assert("("@ =~= seq!['(']);
        assert(")"@ =~= seq![')']);
        assert(version@ =~= seq!['('] + meta.version@ + seq![')']);
    }
    out.push(Badge { text: version, emphasis: Emphasis::Plain });
    out.push(badge(meta.intent.as_str(), Emphasis::Info));
    let ghost head = out@.map_values(|b: Badge| b@);
    proof {
        assert(head =~= seq![(seq!['('] + meta.version@ + seq![')'], Emphasis::Plain), (meta.intent@, Emphasis::Info)]);
    }
    if meta.entrypoint.is_some() {
        out.push(badge("entrypoint", Emphasis::Accent));
    }
    let ghost with_entry = out@.map_values(|b: Badge| b@);
    let status = meta.status.as_str();
    if same_text(status, "experimental") {
        out.push(badge(status, Emphasis::Warning));
    } else if same_text(status, "deprecated") || same_text(status, "draft") {
        out.push(badge(status, Emphasis::Error));
    } else if same_text(status, "example") {
        out.push(badge(status, Emphasis::Highlight));
    }
    let ghost with_status = out@.map_values(|b: Badge| b@);
    let disclosure = meta.disclosure.as_str();
    if same_text(disclosure, "lazy") {
    } else if same_text(disclosure, "none") {
        if !same_text(meta.intent.as_str(), "base") {
            out.push(badge("undisclosed", Emphasis::Positive));
        }
    } else {
        out.push(badge(disclosure, Emphasis::Positive));
    }
    let ghost with_disclosure = out@.map_values(|b: Badge| b@);
    if meta.broken {
        out.push(badge("BROKEN", Emphasis::Alert));
    }
    proof {
        let e = if meta.entrypoint is Some {
            seq![("entrypoint"@, Emphasis::Accent)]
        } else {
            seq![]
        };
        assert(with_entry =~= head + e);
        assert(with_status =~= with_entry + status_badges(meta.status@));
        assert(with_disclosure =~= with_status + disclosure_badges(meta.disclosure@, meta.intent@));
        assert(out@.map_values(|b: Badge| b@) =~= riglet_badges(*meta));
    }
    out
}

/// Builds the detail blocks of a riglet.
pub fn riglet_block_list(meta: &RigletMeta) -> (r: Vec<DetailBlock>)
    ensures
        r@.map_values(|b: DetailBlock| b@) == riglet_blocks(*meta),
{
    let mut out: Vec<DetailBlock> = Vec::new();
    if meta.keywords.len() > 0 {
        out.push(DetailBlock::TagList { items: copy_texts(&meta.keywords) });
    }
    let ghost a = out@.map_values(|b: DetailBlock| b@);
    if meta.command_names.len() > 0 {
        out.push(
            DetailBlock::InlineList {
                title: String::from_str("Provides"),
                items: copy_texts(&meta.command_names),
            },
        );
    }
    let ghost b = out@.map_values(|b: DetailBlock| b@);
    if let Some(p) = &meta.entrypoint {
        out.push(DetailBlock::KeyValue { key: String::from_str("Entrypoint"), value: p.clone() });
    }
    let ghost c = out@.map_values(|b: DetailBlock| b@);
    if meta.when_to_use.len() > 0 {
        out.push(
            DetailBlock::BulletedList {
                title: String::from_str("When to use"),
                items: copy_texts(&meta.when_to_use),
            },
        );
    }
    proof {
        assert(out@.map_values(|b: DetailBlock| b@) =~= riglet_blocks(*meta));
    }
    out
}

/// Builds the leaf that shows a riglet named `name`.
pub fn riglet_leaf(name: &str, meta: &RigletMeta) -> (r: LeafRecord)
    ensures
        r@ == riglet_view(name@, *meta),
{
    let description = if meta.description.as_str().is_empty() {
        None
    } else {
        Some(meta.description.clone())
    };
    let r = LeafRecord {
        label: name.to_owned(),
        label_emphasis: Emphasis::Highlight,
        badges: riglet_badge_list(meta),
        description,
        detail_blocks: riglet_block_list(meta),
    };
    proof {
        assert(r@ =~= riglet_view(name@, *meta));
    }
    r
}

/// Returns `n` set flags.
pub fn all_true(n: usize) -> (r: Vec<bool>)
    ensures
        r@ == all_kept(n as nat),
{
    let mut keep: Vec<bool> = Vec::new();
    let mut i: usize = 0;
    while i < n
        invariant
            i <= n,
            keep@ == all_kept(n as nat).subrange(0, i as int),
        decreases n - i,
    {
        keep.push(true);
        proof {
            assert(keep@ =~= all_kept(n as nat).subrange(0, i + 1));
        }
        i = i + 1;
    }
    proof {
        assert(keep@ =~= all_kept(n as nat));
    }
    keep
}

/// Returns the names of the entries in order of their keys.
pub fn sorted_name_list<T>(entries: &Vec<(String, T)>) -> (r: Vec<String>)
    ensures
        views_of(r@) == sorted_names(entries@),
{
    let keep = all_true(entries.len());
    let order = sorted_indices(entries, &keep);
    let ghost keys = keys_of(entries@);
    let ghost o = sort_order(keys, keep@, entries@.len() as int);
    proof {
        crate::order::lemma_sort_order(keys, keep@, entries@.len() as int);
        assert(order@.len() == o.len());
        assert forall|k: int| 0 <= k < order@.len() implies #[trigger] order@[k] as int == o[k] by {
            assert(order@.map_values(|x: usize| x as int)[k] == o[k]);
        }
    }
    let mut out: Vec<String> = Vec::new();
    let mut k: usize = 0;
    while k < order.len()
        invariant
            k <= order@.len(),
            order@.len() == o.len(),
            keys == keys_of(entries@),
            o == sort_order(keys, all_kept(entries@.len()), entries@.len() as int),
            forall|x: int| 0 <= x < order@.len() ==> #[trigger] order@[x] as int == o[x],
            forall|x: int| 0 <= x < o.len() ==> 0 <= #[trigger] o[x] < entries@.len(),
            views_of(out@) == o.map_values(|i: int| keys[i]).subrange(0, k as int),
        decreases order@.len() - k,
    {
        let j = order[k];
        assert(0 <= o[k as int] < entries@.len());
        let c = entries[j].0.clone();
        let ghost prev = views_of(out@);
        out.push(c);
        proof {
            assert(c@ == keys[j as int]);
            assert(views_of(out@) =~= prev + seq![c@]);
            assert(views_of(out@) =~= o.map_values(|i: int| keys[i]).subrange(0, k + 1));
        }
        k = k + 1;
    }
    proof {
        assert(o.map_values(|i: int| keys[i]).subrange(0, o.len() as int) =~= o.map_values(|i: int| keys[i]));
    }
    out
}

/// Builds the leaf that shows a rig named `name`.
pub fn rig_leaf(name: &str, rig: &RigMeta) -> (r: LeafRecord)
    ensures
        r@ == rig_view(name@, *rig),
{
    let mut badges: Vec<Badge> = Vec::new();
    if let Some(p) = &rig.entrypoint {
        badges.push(badge("entrypoint:", Emphasis::Plain));
        badges.push(badge(p.as_str(), Emphasis::Accent));
    }
    let mut blocks: Vec<DetailBlock> = Vec::new();
    if rig.riglets.len() > 0 {
        blocks.push(DetailBlock::TagList { items: sorted_name_list(&rig.riglets) });
    }
    let r = LeafRecord {
        label: name.to_owned(),
        label_emphasis: Emphasis::Positive,
        badges,
        description: None,
        detail_blocks: blocks,
    };
    proof {
        assert(r@.badges =~= rig_view(name@, *rig).badges);
        assert(r@.blocks =~= rig_view(name@, *rig).blocks);
        assert(r@ =~= rig_view(name@, *rig));
    }
    r
}

} // verus!
