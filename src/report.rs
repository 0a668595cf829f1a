use crate::layout::{branch_glyph, continuation, continuation_of, glyph_of};
use crate::order::{keys_of, lemma_sort_order, sort_order, sorted_indices};
use crate::style::{emphasize, emphasized, Emphasis};
use crate::text::views_of;
use crate::tree::{
    buffer_of, entries_from, leaf_tagged, lemma_shown_concat, lemma_shown_one, render_entries,
    render_leaf, shown, to_buffer, LeafRecord, LeafView, LineKind, MetadataNode, RenderOptions,
};
use crate::types::{all_kept, all_true, rig_leaf, rig_view, riglet_leaf, riglet_view, InputData, RigMeta, RigletMeta};
use vstd::prelude::*;

verus! {

/// The lines of the leaves from the `k`-th on, below `prefix`; the last
/// leaf gets the corner connector.
pub open spec fn leaves_from(leaves: Seq<LeafView>, k: int, prefix: Seq<char>, tw: nat) -> Seq<
    (LineKind, Seq<char>),
>
    decreases leaves.len() - k,
{
    if k < 0 || k >= leaves.len() {
        seq![]
    } else {
        leaf_tagged(prefix, k == leaves.len() - 1, leaves[k], tw) + leaves_from(
            leaves,
            k + 1,
            prefix,
            tw,
        )
    }
}

/// The riglets as shown, in order of their names.
pub open spec fn riglet_views(v: Seq<(String, RigletMeta)>) -> Seq<LeafView> {
    sort_order(keys_of(v), all_kept(v.len()), v.len() as int).map_values(
        |i: int| riglet_view(v[i].0@, v[i].1),
    )
}

/// The rigs as shown, in order of their names.
pub open spec fn rig_views(v: Seq<(String, RigMeta)>) -> Seq<LeafView> {
    sort_order(keys_of(v), all_kept(v.len()), v.len() as int).map_values(
        |i: int| rig_view(v[i].0@, v[i].1),
    )
}

/// The header line of a section.
pub open spec fn section_header(is_last: bool, icon: Seq<char>, title: Seq<char>) -> Seq<char> {
    seq![' '] + glyph_of(is_last) + icon + seq![' '] + emphasized(title, Emphasis::Strong)
}

/// The lines of a section: its header, then its entries.
pub open spec fn section_tagged(
    is_last: bool,
    icon: Seq<char>,
    title: Seq<char>,
    leaves: Seq<LeafView>,
    tw: nat,
) -> Seq<(LineKind, Seq<char>)> {
    seq![(LineKind::Header, section_header(is_last, icon, title))] + leaves_from(
        leaves,
        0,
        continuation_of(is_last),
        tw,
    )
}

/// The lines of one input: nothing when it provides nothing; else its name,
/// its non-empty sections (the last of them with the corner), and a blank
/// line.
pub open spec fn input_tagged(name: Seq<char>, d: InputData, tw: nat) -> Seq<(LineKind, Seq<char>)> {
    let has_riglets = d.riglets@.len() > 0;
    let has_rigs = d.rigs@.len() > 0;
    if !has_riglets && !has_rigs {
        seq![]
    } else {
        seq![(LineKind::Header, "📦 "@ + emphasized(name, Emphasis::Title))] + (if has_riglets {
            section_tagged(!has_rigs, "🧩"@, "Riglets"@, riglet_views(d.riglets@), tw)
        } else {
            seq![]
        }) + (if has_rigs {
            section_tagged(true, "📟"@, "Rigs"@, rig_views(d.rigs@), tw)
        } else {
            seq![]
        }) + seq![(LineKind::Header, seq![])]
    }
}

/// The lines of the inputs at positions `o[k..]`.
pub open spec fn inputs_from(inputs: Seq<(String, InputData)>, o: Seq<int>, k: int, tw: nat) -> Seq<
    (LineKind, Seq<char>),
>
    decreases o.len() - k,
{
    if k < 0 || k >= o.len() {
        seq![]
    } else {
        (if 0 <= o[k] < inputs.len() {
            input_tagged(inputs[o[k]].0@, inputs[o[k]].1, tw)
        } else {
            seq![]
        }) + inputs_from(inputs, o, k + 1, tw)
    }
}

/// The order in which inputs are shown.
pub open spec fn input_order(inputs: Seq<(String, InputData)>) -> Seq<int> {
    sort_order(keys_of(inputs), all_kept(inputs.len()), inputs.len() as int)
}

/// Every line of a report on several inputs, in order of their names.
pub open spec fn report_tagged(inputs: Seq<(String, InputData)>, tw: nat) -> Seq<(LineKind, Seq<char>)> {
    inputs_from(inputs, input_order(inputs), 0, tw)
}

/// The lines of a report on several inputs under options `o`.
pub open spec fn inputs_report(inputs: Seq<(String, InputData)>, o: RenderOptions) -> Seq<Seq<char>> {
    shown(report_tagged(inputs, o.terminal_width as nat), o)
}

/// Appends the lines of the leaves, the last one with the corner.
fn render_leaves(out: &mut Vec<String>, leaves: &Vec<LeafRecord>, prefix: &str, opts: &RenderOptions)
    ensures
        views_of(final(out)@) == views_of(old(out)@) + shown(
            leaves_from(leaves@.map_values(|l: LeafRecord| l@), 0, prefix@, opts.terminal_width as nat),
            *opts,
        ),
{
    let ghost lv = leaves@.map_values(|l: LeafRecord| l@);
    let ghost tw = opts.terminal_width as nat;
    let ghost start = views_of(out@);
    let mut k: usize = 0;
    while k < leaves.len()
        invariant
            k <= leaves@.len(),
            lv == leaves@.map_values(|l: LeafRecord| l@),
            tw == opts.terminal_width as nat,
            start + shown(leaves_from(lv, 0, prefix@, tw), *opts) == views_of(out@) + shown(
                leaves_from(lv, k as int, prefix@, tw),
                *opts,
            ),
        decreases leaves@.len() - k,
    {
        let ghost before = views_of(out@);
        let last = k + 1 == leaves.len();
        render_leaf(out, &leaves[k], prefix, last, opts);
        proof {
            let here = leaf_tagged(prefix@, last, lv[k as int], tw);
            let next = leaves_from(lv, k + 1, prefix@, tw);
            assert(leaves_from(lv, k as int, prefix@, tw) == here + next);
            lemma_shown_concat(here, next, *opts);
            assert(views_of(out@) + shown(next, *opts) =~= before + shown(here + next, *opts));
        }
        k = k + 1;
    }
    proof {
        assert(shown(Seq::<(LineKind, Seq<char>)>::empty(), *opts) =~= seq![]);
        assert(views_of(out@) + seq![] =~= views_of(out@));
    }
}

/// Appends the lines of one riglet below `prefix`, as reports show it.
pub fn display_riglet(
    out: &mut Vec<String>,
    name: &str,
    meta: &RigletMeta,
    prefix: &str,
    is_last: bool,
    opts: &RenderOptions,
)
    ensures
        views_of(final(out)@) == views_of(old(out)@) + shown(
            leaf_tagged(prefix@, is_last, riglet_view(name@, *meta), opts.terminal_width as nat),
            *opts,
        ),
{
    let leaf = riglet_leaf(name, meta);
    render_leaf(out, &leaf, prefix, is_last, opts);
}

/// Builds the leaves of the riglets in order of their names.
pub fn riglet_leaves(v: &Vec<(String, RigletMeta)>) -> (r: Vec<LeafRecord>)
    ensures
        r@.map_values(|l: LeafRecord| l@) == riglet_views(v@),
{
    let keep = all_true(v.len());
    let order = sorted_indices(v, &keep);
    let ghost o = sort_order(keys_of(v@), all_kept(v@.len()), v@.len() as int);
    proof {
        lemma_sort_order(keys_of(v@), keep@, v@.len() as int);
        assert(order@.len() == o.len());
        assert forall|k: int| 0 <= k < order@.len() implies #[trigger] order@[k] as int == o[k] by {
            assert(order@.map_values(|x: usize| x as int)[k] == o[k]);
        }
    }
    let ghost want = riglet_views(v@);
    let mut out: Vec<LeafRecord> = Vec::new();
    let mut k: usize = 0;
    while k < order.len()
        invariant
            k <= order@.len(),
            order@.len() == o.len(),
            o == sort_order(keys_of(v@), all_kept(v@.len()), v@.len() as int),
            want == riglet_views(v@),
            forall|x: int| 0 <= x < order@.len() ==> #[trigger] order@[x] as int == o[x],
            forall|x: int| 0 <= x < o.len() ==> 0 <= #[trigger] o[x] < v@.len(),
            out@.map_values(|l: LeafRecord| l@) == want.subrange(0, k as int),
        decreases order@.len() - k,
    {
        let j = order[k];
        assert(0 <= o[k as int] < v@.len());
        let leaf = riglet_leaf(v[j].0.as_str(), &v[j].1);
        let ghost prev = out@.map_values(|l: LeafRecord| l@);
        out.push(leaf);
        proof {
            assert(want[k as int] == leaf@);
            assert(out@.map_values(|l: LeafRecord| l@) =~= prev + seq![leaf@]);
            assert(want.subrange(0, k + 1) =~= want.subrange(0, k as int) + seq![leaf@]);
        }
        k = k + 1;
    }
    proof {
        assert(want.subrange(0, o.len() as int) =~= want);
    }
    out
}

/// Builds the leaves of the rigs in order of their names.
pub fn rig_leaves(v: &Vec<(String, RigMeta)>) -> (r: Vec<LeafRecord>)
    ensures
        r@.map_values(|l: LeafRecord| l@) == rig_views(v@),
{
    let keep = all_true(v.len());
    let order = sorted_indices(v, &keep);
    let ghost o = sort_order(keys_of(v@), all_kept(v@.len()), v@.len() as int);
    proof {
        lemma_sort_order(keys_of(v@), keep@, v@.len() as int);
        assert(order@.len() == o.len());
        assert forall|k: int| 0 <= k < order@.len() implies #[trigger] order@[k] as int == o[k] by {
            assert(order@.map_values(|x: usize| x as int)[k] == o[k]);
        }
    }
    let ghost want = rig_views(v@);
    let mut out: Vec<LeafRecord> = Vec::new();
    let mut k: usize = 0;
    while k < order.len()
        invariant
            k <= order@.len(),
            order@.len() == o.len(),
            o == sort_order(keys_of(v@), all_kept(v@.len()), v@.len() as int),
            want == rig_views(v@),
            forall|x: int| 0 <= x < order@.len() ==> #[trigger] order@[x] as int == o[x],
            forall|x: int| 0 <= x < o.len() ==> 0 <= #[trigger] o[x] < v@.len(),
            out@.map_values(|l: LeafRecord| l@) == want.subrange(0, k as int),
        decreases order@.len() - k,
    {
        let j = order[k];
        assert(0 <= o[k as int] < v@.len());
        let leaf = rig_leaf(v[j].0.as_str(), &v[j].1);
        let ghost prev = out@.map_values(|l: LeafRecord| l@);
        out.push(leaf);
        proof {
            assert(want[k as int] == leaf@);
            assert(out@.map_values(|l: LeafRecord| l@) =~= prev + seq![leaf@]);
            assert(want.subrange(0, k + 1) =~= want.subrange(0, k as int) + seq![leaf@]);
        }
        k = k + 1;
    }
    proof {
        assert(want.subrange(0, o.len() as int) =~= want);
    }
    out
}

/// Appends a section: its header line, then its leaves.
fn render_section(
    out: &mut Vec<String>,
    is_last: bool,
    icon: &str,
    title: &str,
    leaves: &Vec<LeafRecord>,
    opts: &RenderOptions,
)
    ensures
        views_of(final(out)@) == views_of(old(out)@) + shown(
            section_tagged(
                is_last,
                icon@,
                title@,
                leaves@.map_values(|l: LeafRecord| l@),
                opts.terminal_width as nat,
            ),
            *opts,
        ),
{
    let ghost start = views_of(out@);
    let mut line = String::from_str(" ");
    line.append(branch_glyph(is_last));
    line.append(icon);
    line.append(" ");
    let t = emphasize(title, Emphasis::Strong);
    line.append(t.as_str());
    proof {
        reveal_strlit(" ");
        assert(" "@ =~= seq![' ']);
        assert(line@ =~= section_header(is_last, icon@, title@));
    }
    out.push(line);
    let sp = continuation(is_last);
    render_leaves(out, leaves, sp, opts);
    proof {
        let h = seq![(LineKind::Header, section_header(is_last, icon@, title@))];
        let rest = leaves_from(leaves@.map_values(|l: LeafRecord| l@), 0, sp@, opts.terminal_width as nat);
        lemma_shown_one((LineKind::Header, section_header(is_last, icon@, title@)), *opts);
        lemma_shown_concat(h, rest, *opts);
    }
}

/// Appends the lines of one input.
fn render_input(out: &mut Vec<String>, name: &str, d: &InputData, opts: &RenderOptions)
    ensures
        views_of(final(out)@) == views_of(old(out)@) + shown(
            input_tagged(name@, *d, opts.terminal_width as nat),
            *opts,
        ),
{
    let ghost tw = opts.terminal_width as nat;
    let has_riglets = d.riglets.len() > 0;
    let has_rigs = d.rigs.len() > 0;
    if !has_riglets && !has_rigs {
        proof {
            assert(shown(Seq::<(LineKind, Seq<char>)>::empty(), *opts) =~= seq![]);
            assert(views_of(out@) + seq![] =~= views_of(out@));
        }
        return ;
    }
    let ghost start = views_of(out@);
    let mut head = String::from_str("📦 ");
    let n = emphasize(name, Emphasis::Title);
    head.append(n.as_str());
    let ghost h = seq![(LineKind::Header, "📦 "@ + emphasized(name@, Emphasis::Title))];
    out.push(head);
    proof {
        lemma_shown_one(h[0], *opts);
        assert(views_of(out@) =~= start + shown(h, *opts));
    }
    let ghost after_head = views_of(out@);
    let ghost sec1 = if has_riglets {
        section_tagged(!has_rigs, "🧩"@, "Riglets"@, riglet_views(d.riglets@), tw)
    } else {
        seq![]
    };
    if has_riglets {
        let leaves = riglet_leaves(&d.riglets);
        render_section(out, !has_rigs, "🧩", "Riglets", &leaves, opts);
    } else {
        proof {
            assert(shown(sec1, *opts) =~= seq![]);
            assert(views_of(out@) =~= after_head + shown(sec1, *opts));
        }
    }
    let ghost after_sec1 = views_of(out@);
    let ghost sec2 = if has_rigs {
        section_tagged(true, "📟"@, "Rigs"@, rig_views(d.rigs@), tw)
    } else {
        seq![]
    };
    if has_rigs {
        let leaves = rig_leaves(&d.rigs);
        render_section(out, true, "📟", "Rigs", &leaves, opts);
    } else {
        proof {
            assert(shown(sec2, *opts) =~= seq![]);
            assert(views_of(out@) =~= after_sec1 + shown(sec2, *opts));
        }
    }
    let ghost after_sec2 = views_of(out@);
    let blank = String::new();
    out.push(blank);
    proof {
        let tail = seq![(LineKind::Header, Seq::<char>::empty())];
        lemma_shown_one(tail[0], *opts);
        assert(views_of(out@) =~= after_sec2 + shown(tail, *opts));
        lemma_shown_concat(h, sec1, *opts);
        lemma_shown_concat(h + sec1, sec2, *opts);
        lemma_shown_concat(h + sec1 + sec2, tail, *opts);
        assert(input_tagged(name@, *d, tw) == h + sec1 + sec2 + tail);
        assert(views_of(out@) =~= start + shown(h + sec1 + sec2 + tail, *opts));
    }
}

/// Renders the report on several inputs into its lines, inputs in order of
/// their names.
pub fn render_inputs(inputs: &Vec<(String, InputData)>, opts: &RenderOptions) -> (r: Vec<String>)
    ensures
        views_of(r@) == inputs_report(inputs@, *opts),
{
    let keep = all_true(inputs.len());
    let order = sorted_indices(inputs, &keep);
    let ghost o = input_order(inputs@);
    proof {
        lemma_sort_order(keys_of(inputs@), keep@, inputs@.len() as int);
        assert(order@.len() == o.len());
        assert forall|k: int| 0 <= k < order@.len() implies #[trigger] order@[k] as int == o[k] by {
            assert(order@.map_values(|x: usize| x as int)[k] == o[k]);
        }
    }
    let ghost tw = opts.terminal_width as nat;
    let ghost all = report_tagged(inputs@, tw);
    let mut out: Vec<String> = Vec::new();
    proof {
        assert(views_of(out@) =~= seq![]);
        assert(seq![] + shown(all, *opts) =~= shown(all, *opts));
    }
    let mut k: usize = 0;
    while k < order.len()
        invariant
            k <= order@.len(),
            order@.len() == o.len(),
            o == input_order(inputs@),
            tw == opts.terminal_width as nat,
            all == report_tagged(inputs@, tw),
            forall|x: int| 0 <= x < order@.len() ==> #[trigger] order@[x] as int == o[x],
            forall|x: int| 0 <= x < o.len() ==> 0 <= #[trigger] o[x] < inputs@.len(),
            shown(all, *opts) == views_of(out@) + shown(inputs_from(inputs@, o, k as int, tw), *opts),
        decreases order@.len() - k,
    {
        let j = order[k];
        assert(0 <= o[k as int] < inputs@.len());
        let ghost before = views_of(out@);
        render_input(&mut out, inputs[j].0.as_str(), &inputs[j].1, opts);
        proof {
            let here = input_tagged(inputs@[j as int].0@, inputs@[j as int].1, tw);
            let next = inputs_from(inputs@, o, k + 1, tw);
            assert(inputs_from(inputs@, o, k as int, tw) == here + next);
            lemma_shown_concat(here, next, *opts);
            assert(views_of(out@) + shown(next, *opts) =~= before + shown(here + next, *opts));
        }
        k = k + 1;
    }
    proof {
        assert(shown(Seq::<(LineKind, Seq<char>)>::empty(), *opts) =~= seq![]);
        assert(views_of(out@) + seq![] =~= views_of(out@));
    }
    out
}

/// The title line of a rig inspection: the rig's name, then its entrypoint
/// if it has one.
pub open spec fn inspection_title(name: Seq<char>, entrypoint: Option<String>) -> Seq<char> {
    "📟 "@ + emphasized(name, Emphasis::Title) + seq![' '] + match entrypoint {
        Some(p) => "(entrypoint: "@ + emphasized(p@, Emphasis::Accent) + seq![')'],
        None => seq![],
    }
}

/// Every line of a rig inspection: the title, the riglets if any, then the
/// configuration options if any (the last section gets the corner).
pub open spec fn inspection_tagged(
    name: Seq<char>,
    entrypoint: Option<String>,
    riglets: Seq<(String, RigletMeta)>,
    options: Vec<(String, MetadataNode)>,
    tw: nat,
) -> Seq<(LineKind, Seq<char>)> {
    let has_riglets = riglets.len() > 0;
    let has_options = options@.len() > 0;
    seq![(LineKind::Header, inspection_title(name, entrypoint))] + (if has_riglets {
        section_tagged(!has_options, "🧩"@, "Riglets"@, riglet_views(riglets), tw)
    } else {
        seq![]
    }) + (if has_options {
        seq![(LineKind::Header, section_header(true, "⚙️ "@, "Configuration"@))] + entries_from(
            options,
            0,
            continuation_of(true),
            tw,
        )
    } else {
        seq![]
    })
}

/// Renders the inspection of one rig into its lines: its riglets in order
/// of their names, then its configuration options as a tree.
pub fn render_inspection(
    name: &str,
    entrypoint: &Option<String>,
    riglets: &Vec<(String, RigletMeta)>,
    options: &Vec<(String, MetadataNode)>,
    opts: &RenderOptions,
) -> (r: Vec<String>)
    ensures
        views_of(r@) == shown(
            inspection_tagged(name@, *entrypoint, riglets@, *options, opts.terminal_width as nat),
            *opts,
        ),
{
    let ghost tw = opts.terminal_width as nat;
    let mut out: Vec<String> = Vec::new();
    let mut title = String::from_str("📟 ");
    let n = emphasize(name, Emphasis::Title);
    title.append(n.as_str());
    title.append(" ");
    if let Some(p) = entrypoint {
        title.append("(entrypoint: ");
        let e = emphasize(p.as_str(), Emphasis::Accent);
        title.append(e.as_str());
        title.append(")");
    }
    proof {
        reveal_strlit(" ");
        reveal_strlit(")");
        assert(" "@ =~= seq![' ']);
        assert(")"@ =~= seq![')']);
        assert(title@ =~= inspection_title(name@, *entrypoint));
    }
    let ghost h = seq![(LineKind::Header, inspection_title(name@, *entrypoint))];
    out.push(title);
    proof {
        lemma_shown_one(h[0], *opts);
        assert(views_of(out@) =~= shown(h, *opts));
    }
    let has_options = options.len() > 0;
    let ghost after_head = views_of(out@);
    let ghost sec1 = if riglets@.len() > 0 {
        section_tagged(!has_options, "🧩"@, "Riglets"@, riglet_views(riglets@), tw)
    } else {
        seq![]
    };
    if riglets.len() > 0 {
        let leaves = riglet_leaves(riglets);
        render_section(&mut out, !has_options, "🧩", "Riglets", &leaves, opts);
    } else {
        proof {
            assert(shown(sec1, *opts) =~= seq![]);
            assert(views_of(out@) =~= after_head + shown(sec1, *opts));
        }
    }
    let ghost after_sec1 = views_of(out@);
    let ghost head2 = seq![(LineKind::Header, section_header(true, "⚙️ "@, "Configuration"@))];
    let ghost sec2 = if has_options {
        head2 + entries_from(*options, 0, continuation_of(true), tw)
    } else {
        seq![]
    };
    if has_options {
        let mut line = String::from_str(" ");
        line.append(branch_glyph(true));
        line.append("⚙️ ");
        line.append(" ");
        let t = emphasize("Configuration", Emphasis::Strong);
        line.append(t.as_str());
        proof {
            assert(line@ =~= section_header(true, "⚙️ "@, "Configuration"@));
        }
        out.push(line);
        proof {
            lemma_shown_one(head2[0], *opts);
        }
        let sp = continuation(true);
        render_entries(&mut out, options, sp, opts);
        proof {
            lemma_shown_concat(head2, entries_from(*options, 0, continuation_of(true), tw), *opts);
            assert(views_of(out@) =~= after_sec1 + shown(sec2, *opts));
        }
    } else {
        proof {
            assert(shown(sec2, *opts) =~= seq![]);
            assert(views_of(out@) =~= after_sec1 + shown(sec2, *opts));
        }
    }
    proof {
        lemma_shown_concat(h, sec1, *opts);
        lemma_shown_concat(h + sec1, sec2, *opts);
        assert(inspection_tagged(name@, *entrypoint, riglets@, *options, tw) == h + sec1 + sec2);
        assert(views_of(out@) =~= shown(h + sec1 + sec2, *opts));
    }
    out
}

/// Renders the report on several inputs into one text buffer.
pub fn render_report(inputs: &Vec<(String, InputData)>, opts: &RenderOptions) -> (r: String)
    ensures
        r@ == buffer_of(inputs_report(inputs@, *opts)),
{
    let lines = render_inputs(inputs, opts);
    to_buffer(&lines)
}

} // verus!
