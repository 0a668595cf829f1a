use crate::order::{
    is_selection, keys_of, keys_unique, lemma_less_irreflexive, lemma_less_transitive,
    lemma_sort_order, key_less,
};
use crate::tree::{
    entries_from, kind_shown, node_tagged, order_of, report_lines, shown, tree_tagged, visibility,
    visible, LineKind, MetadataNode, RenderOptions,
};
use crate::report::{input_tagged, rig_views, section_tagged};
use vstd::prelude::*;

verus! {

/// The lines of the entries `es[k..]`, each below `prefix`, the last with
/// the corner connector.
pub open spec fn walk(es: Seq<(String, MetadataNode)>, k: int, prefix: Seq<char>, tw: nat) -> Seq<
    (LineKind, Seq<char>),
>
    decreases es.len() - k,
{
    if k < 0 || k >= es.len() {
        seq![]
    } else {
        node_tagged(es[k].0@, es[k].1, prefix, k == es.len() - 1, tw) + walk(es, k + 1, prefix, tw)
    }
}

/// The visible entries of a group in the order they are shown.
pub open spec fn shown_entries(v: Seq<(String, MetadataNode)>) -> Seq<(String, MetadataNode)> {
    order_of(v).map_values(|j: int| v[j])
}

proof fn lemma_entries_walk(v: Vec<(String, MetadataNode)>, k: int, prefix: Seq<char>, tw: nat)
    requires
        0 <= k,
        is_selection(visibility(v@), v@.len() as int, order_of(v@)),
    ensures
        entries_from(v, k, prefix, tw) == walk(shown_entries(v@), k, prefix, tw),
    decreases order_of(v@).len() - k,
{
    let o = order_of(v@);
    if k < o.len() {
        lemma_entries_walk(v, k + 1, prefix, tw);
        assert(0 <= o[k] < v@.len());
    }
}

/// Two sequences whose keys strictly increase and that hold the same
/// elements are equal.
proof fn lemma_sorted_unique(s: Seq<(String, MetadataNode)>, t: Seq<(String, MetadataNode)>)
    requires
        forall|x: int, y: int| 0 <= x < y < s.len() ==> key_less(#[trigger] s[x].0@, #[trigger] s[y].0@),
        forall|x: int, y: int| 0 <= x < y < t.len() ==> key_less(#[trigger] t[x].0@, #[trigger] t[y].0@),
        forall|e: (String, MetadataNode)| s.contains(e) <==> t.contains(e),
    ensures
        s == t,
    decreases s.len(),
{
    if s.len() == 0 {
        if t.len() > 0 {
            assert(t.contains(t[0]));
        }
        assert(s =~= t);
    } else if t.len() == 0 {
        assert(s.contains(s[0]));
    } else {
        assert(s.contains(s[0]));
        let j = choose|j: int| 0 <= j < t.len() && t[j] == s[0];
        assert(t.contains(t[0]));
        let i = choose|i: int| 0 <= i < s.len() && s[i] == t[0];
        if j > 0 {
            if i > 0 {
                lemma_less_transitive(s[0].0@, s[i].0@, s[0].0@, 0);
                lemma_less_irreflexive(s[0].0@, 0);
            } else {
                lemma_less_irreflexive(t[0].0@, 0);
            }
        }
        assert(s[0] == t[0]);
        let s1 = s.drop_first();
        let t1 = t.drop_first();
        assert forall|e: (String, MetadataNode)| s1.contains(e) <==> t1.contains(e) by {
            if s1.contains(e) {
                let x = choose|x: int| 0 <= x < s1.len() && s1[x] == e;
                assert(s[x + 1] == e);
                assert(s.contains(e));
                let y = choose|y: int| 0 <= y < t.len() && t[y] == e;
                if y == 0 {
                    lemma_less_irreflexive(s[0].0@, 0);
                }
                assert(t1[y - 1] == e);
            }
            if t1.contains(e) {
                let x = choose|x: int| 0 <= x < t1.len() && t1[x] == e;
                assert(t[x + 1] == e);
                assert(t.contains(e));
                let y = choose|y: int| 0 <= y < s.len() && s[y] == e;
                if y == 0 {
                    lemma_less_irreflexive(t[0].0@, 0);
                }
                assert(s1[y - 1] == e);
            }
        }
        lemma_sorted_unique(s1, t1);
        assert(s =~= seq![s[0]] + s1);
        assert(t =~= seq![t[0]] + t1);
    }
}

proof fn lemma_shown_entries_facts(v: Seq<(String, MetadataNode)>)
    requires
        keys_unique(keys_of(v)),
    ensures
        forall|x: int, y: int|
            0 <= x < y < shown_entries(v).len() ==> key_less(
                #[trigger] shown_entries(v)[x].0@,
                #[trigger] shown_entries(v)[y].0@,
            ),
        forall|e: (String, MetadataNode)|
            shown_entries(v).contains(e) <==> (v.contains(e) && visible(e.1)),
{
    let o = order_of(v);
    lemma_sort_order(keys_of(v), visibility(v), v.len() as int);
    let s = shown_entries(v);
    assert forall|x: int, y: int| 0 <= x < y < s.len() implies key_less(
        #[trigger] s[x].0@,
        #[trigger] s[y].0@,
    ) by {
        assert(key_less(keys_of(v)[o[x]], keys_of(v)[o[y]]));
    }
    assert forall|e: (String, MetadataNode)| s.contains(e) <==> (v.contains(e) && visible(e.1)) by {
        if s.contains(e) {
            let x = choose|x: int| 0 <= x < s.len() && s[x] == e;
            assert(0 <= o[x] < v.len() && visibility(v)[o[x]]);
            assert(v[o[x]] == e);
        }
        if v.contains(e) && visible(e.1) {
            let j = choose|j: int| 0 <= j < v.len() && v[j] == e;
            assert(visibility(v)[j]);
            assert(o.contains(j));
            let x = choose|x: int| 0 <= x < o.len() && o[x] == j;
            assert(s[x] == e);
        }
    }
}

/// Rendering depends on a group's entries, not on the order in which they
/// were stored: two groups that hold the same entries (each with unique
/// keys) write the same lines. Rendering is a function of the tree and the
/// options, so it also gives the same output every time.
pub proof fn lemma_insertion_order_irrelevant(
    v1: Vec<(String, MetadataNode)>,
    v2: Vec<(String, MetadataNode)>,
    prefix: Seq<char>,
    o: RenderOptions,
)
    requires
        v1@.to_multiset() == v2@.to_multiset(),
        keys_unique(keys_of(v1@)),
        keys_unique(keys_of(v2@)),
    ensures
        entries_from(v1, 0, prefix, o.terminal_width as nat) == entries_from(
            v2,
            0,
            prefix,
            o.terminal_width as nat,
        ),
        report_lines(MetadataNode::Branch(v1), o) == report_lines(MetadataNode::Branch(v2), o),
{
    let tw = o.terminal_width as nat;
    lemma_sort_order(keys_of(v1@), visibility(v1@), v1@.len() as int);
    lemma_sort_order(keys_of(v2@), visibility(v2@), v2@.len() as int);
    lemma_entries_walk(v1, 0, prefix, tw);
    lemma_entries_walk(v2, 0, prefix, tw);
    lemma_shown_entries_facts(v1@);
    lemma_shown_entries_facts(v2@);
    v1@.to_multiset_ensures();
    v2@.to_multiset_ensures();
    assert forall|e: (String, MetadataNode)| #[trigger] v1@.contains(e) <==> v2@.contains(e) by {
        assert(v1@.contains(e) <==> v1@.to_multiset().count(e) > 0);
        assert(v2@.contains(e) <==> v2@.to_multiset().count(e) > 0);
    }
    assert forall|e: (String, MetadataNode)|
        shown_entries(v1@).contains(e) <==> #[trigger] shown_entries(v2@).contains(e) by {
        assert(v1@.contains(e) <==> v2@.contains(e));
    }
    lemma_sorted_unique(shown_entries(v1@), shown_entries(v2@));
    lemma_entries_walk(v1, 0, seq![], tw);
    lemma_entries_walk(v2, 0, seq![], tw);
}

/// Siblings are shown in strictly increasing order of their keys: the
/// lines of a group are those of its visible entries, each exactly once, in
/// that order.
pub proof fn lemma_siblings_sorted(v: Vec<(String, MetadataNode)>, prefix: Seq<char>, tw: nat)
    requires
        keys_unique(keys_of(v@)),
    ensures
        forall|x: int, y: int|
            0 <= x < y < shown_entries(v@).len() ==> key_less(
                #[trigger] shown_entries(v@)[x].0@,
                #[trigger] shown_entries(v@)[y].0@,
            ),
        forall|e: (String, MetadataNode)|
            shown_entries(v@).contains(e) <==> (v@.contains(e) && visible(e.1)),
        entries_from(v, 0, prefix, tw) == walk(shown_entries(v@), 0, prefix, tw),
{
    lemma_sort_order(keys_of(v@), visibility(v@), v@.len() as int);
    lemma_shown_entries_facts(v@);
    lemma_entries_walk(v, 0, prefix, tw);
}

/// A group with no entries writes nothing, not even its header; nor does a
/// tree that is an empty group.
pub proof fn lemma_empty_group_silent(
    name: Seq<char>,
    v: Vec<(String, MetadataNode)>,
    prefix: Seq<char>,
    is_last: bool,
    o: RenderOptions,
)
    requires
        v@.len() == 0,
    ensures
        node_tagged(name, MetadataNode::Branch(v), prefix, is_last, o.terminal_width as nat) == Seq::<
            (LineKind, Seq<char>),
        >::empty(),
        report_lines(MetadataNode::Branch(v), o) == Seq::<Seq<char>>::empty(),
{
    lemma_sort_order(keys_of(v@), visibility(v@), 0);
    assert(order_of(v@) =~= seq![]);
}

/// An input section with no entries writes nothing, not even its header:
/// an input without riglets shows only its rigs, and one that provides
/// nothing writes no line at all.
pub proof fn lemma_empty_sections_silent(
    name: Seq<char>,
    d: crate::types::InputData,
    tw: nat,
)
    ensures
        d.riglets@.len() == 0 && d.rigs@.len() == 0 ==> input_tagged(name, d, tw) == Seq::<
            (LineKind, Seq<char>),
        >::empty(),
        d.riglets@.len() == 0 && d.rigs@.len() > 0 ==> input_tagged(name, d, tw) == seq![
            (LineKind::Header, "📦 "@ + crate::style::emphasized(name, crate::style::Emphasis::Title)),
        ] + section_tagged(true, "📟"@, "Rigs"@, rig_views(d.rigs@), tw) + seq![
            (LineKind::Header, Seq::<char>::empty()),
        ],
{
    if d.riglets@.len() == 0 && d.rigs@.len() > 0 {
        let h = seq![
            (LineKind::Header, "📦 "@ + crate::style::emphasized(name, crate::style::Emphasis::Title)),
        ];
        assert(h + Seq::<(LineKind, Seq<char>)>::empty() =~= h);
    }
}

/// The lines of a listing that are not of kind `k`.
pub open spec fn without_kind(s: Seq<(LineKind, Seq<char>)>, k: LineKind) -> Seq<(LineKind, Seq<char>)>
    decreases s.len(),
{
    if s.len() == 0 {
        s
    } else if s.last().0 != k {
        without_kind(s.drop_last(), k).push(s.last())
    } else {
        without_kind(s.drop_last(), k)
    }
}

/// Lines of kind `k` dropped from a listing are exactly what options that
/// hide `k`, and agree on every other kind, leave out.
proof fn lemma_hide_kind(s: Seq<(LineKind, Seq<char>)>, k: LineKind, off: RenderOptions, on: RenderOptions)
    requires
        !kind_shown(k, off),
        forall|j: LineKind| j != k ==> kind_shown(j, off) == kind_shown(j, on),
    ensures
        shown(s, off) == shown(without_kind(s, k), on),
    decreases s.len(),
{
    if s.len() > 0 {
        lemma_hide_kind(s.drop_last(), k, off, on);
        let f = without_kind(s.drop_last(), k);
        if s.last().0 != k {
            assert(f.push(s.last()).drop_last() =~= f);
            assert(f.push(s.last()).last() == s.last());
        }
    } else {
        assert(without_kind(s, k) =~= s);
    }
}

/// Turning descriptions off removes exactly the description lines: the
/// report is the one with descriptions on, less those lines.
pub proof fn lemma_descriptions_toggle(tree: MetadataNode, o: RenderOptions)
    ensures
        report_lines(tree, RenderOptions { show_descriptions: false, ..o }) == shown(
            without_kind(tree_tagged(tree, o.terminal_width as nat), LineKind::Description),
            RenderOptions { show_descriptions: true, ..o },
        ),
{
    let off = RenderOptions { show_descriptions: false, ..o };
    let on = RenderOptions { show_descriptions: true, ..o };
    assert forall|j: LineKind| j != LineKind::Description implies kind_shown(j, off) == kind_shown(j, on) by {}
    lemma_hide_kind(tree_tagged(tree, o.terminal_width as nat), LineKind::Description, off, on);
}

/// Turning details off removes exactly the detail lines: the report is the
/// one with details on, less those lines.
pub proof fn lemma_details_toggle(tree: MetadataNode, o: RenderOptions)
    ensures
        report_lines(tree, RenderOptions { detailed: false, ..o }) == shown(
            without_kind(tree_tagged(tree, o.terminal_width as nat), LineKind::Detail),
            RenderOptions { detailed: true, ..o },
        ),
{
    let off = RenderOptions { detailed: false, ..o };
    let on = RenderOptions { detailed: true, ..o };
    assert forall|j: LineKind| j != LineKind::Detail implies kind_shown(j, off) == kind_shown(j, on) by {}
    lemma_hide_kind(tree_tagged(tree, o.terminal_width as nat), LineKind::Detail, off, on);
}

} // verus!
