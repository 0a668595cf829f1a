use vstd::prelude::*;

verus! {

/// Connector drawn before a node: a corner for the last sibling, a tee otherwise.
pub open spec fn glyph_of(is_last: bool) -> Seq<char> {
    if is_last {
        seq!['└', '─']
    } else {
        seq!['├', '─']
    }
}

/// Spacer under a leaf's connector: blank after the last sibling, a vertical
/// bar while more siblings follow.
pub open spec fn continuation_of(is_last: bool) -> Seq<char> {
    if is_last {
        seq![' ', ' ', ' ']
    } else {
        seq![' ', '│', ' ']
    }
}

/// Spacer under a group's connector, two columns wide so that the children's
/// connectors stand under the group's corner mark.
pub open spec fn group_continuation_of(is_last: bool) -> Seq<char> {
    if is_last {
        seq![' ', ' ']
    } else {
        seq![' ', '│']
    }
}

/// Extra indentation of a leaf's own text below its header.
pub open spec fn extra_indent() -> Seq<char> {
    seq![' ', ' ']
}

/// Prefix of the lines a leaf writes below its header line.
pub open spec fn item_prefix_of(prefix: Seq<char>, is_last: bool) -> Seq<char> {
    prefix + continuation_of(is_last) + extra_indent()
}

/// Prefix handed to the children of a group.
pub open spec fn child_prefix_of(prefix: Seq<char>, is_last: bool) -> Seq<char> {
    prefix + group_continuation_of(is_last)
}

/// Returns the connector for a node.
pub fn branch_glyph(is_last: bool) -> (r: &'static str)
    ensures
        r@ == glyph_of(is_last),
{
    proof {
        reveal_strlit("└─");
        reveal_strlit("├─");
    }
    if is_last {
        "└─"
    } else {
        "├─"
    }
}

/// Returns the spacer that continues a leaf's column below its header.
pub fn continuation(is_last: bool) -> (r: &'static str)
    ensures
        r@ == continuation_of(is_last),
{
    proof {
        reveal_strlit("   ");
        reveal_strlit(" │ ");
    }
    if is_last {
        "   "
    } else {
        " │ "
    }
}

/// Returns the spacer that continues a group's column below its header.
pub fn group_continuation(is_last: bool) -> (r: &'static str)
    ensures
        r@ == group_continuation_of(is_last),
{
    proof {
        reveal_strlit("  ");
        reveal_strlit(" │");
    }
    if is_last {
        "  "
    } else {
        " │"
    }
}

/// Returns the prefix of the lines below a leaf's header.
pub fn item_prefix(prefix: &str, is_last: bool) -> (r: String)
    ensures
        r@ == item_prefix_of(prefix@, is_last),
{
    let mut s = prefix.to_owned();
    s.append(continuation(is_last));
    s.append("  ");
    proof {
        reveal_strlit("  ");
    }
    s
}

/// Returns the prefix handed to a group's children.
pub fn child_prefix(prefix: &str, is_last: bool) -> (r: String)
    ensures
        r@ == child_prefix_of(prefix@, is_last),
{
    let mut s = prefix.to_owned();
    s.append(group_continuation(is_last));
    s
}

} // verus!
