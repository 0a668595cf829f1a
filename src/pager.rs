use vstd::prelude::*;

verus! {

/// Where a finished report goes.
#[derive(Clone, Copy, Debug, PartialEq, Eq, Structural)]
pub enum Delivery {
    /// Through an interactive pager.
    Pager,
    /// Straight to standard output.
    Direct,
}

/// Decides where a report goes: through the pager only when the output is
/// an interactive terminal and paging is wanted.
pub fn choose_delivery(is_terminal: bool, use_pager: bool) -> (d: Delivery)
    ensures
        d == (if is_terminal && use_pager {
            Delivery::Pager
        } else {
            Delivery::Direct
        }),
{
    if is_terminal && use_pager {
        Delivery::Pager
    } else {
        Delivery::Direct
    }
}

/// The pager program.
pub open spec fn pager_program() -> Seq<char> {
    seq!['l', 'e', 's', 's']
}

/// The pager's arguments: keep color escapes (`R`), quit at once when the
/// text fits on one screen (`F`), leave the screen as it is on exit (`X`),
/// and scroll with the mouse wheel.
pub open spec fn pager_args() -> Seq<Seq<char>> {
    seq![
        seq!['-', 'R', 'F', 'X'],
        seq!['-', '-', 'm', 'o', 'u', 's', 'e'],
        seq!['-', '-', 'w', 'h', 'e', 'e', 'l', '-', 'l', 'i', 'n', 'e', 's', '=', '3'],
    ]
}

/// Returns the pager program and its arguments.
pub fn pager_command() -> (r: (String, Vec<String>))
    ensures
        r.0@ == pager_program(),
        r.1@.map_values(|a: String| a@) == pager_args(),
{
    proof {
        reveal_strlit("less");
        reveal_strlit("-RFX");
        reveal_strlit("--mouse");
        reveal_strlit("--wheel-lines=3");
    }
    let program = String::from_str("less");
    let mut args: Vec<String> = Vec::new();
    args.push(String::from_str("-RFX"));
    args.push(String::from_str("--mouse"));
    args.push(String::from_str("--wheel-lines=3"));
    proof {
        assert(program@ =~= pager_program());
        assert("-RFX"@ =~= pager_args()[0]);
        assert("--mouse"@ =~= pager_args()[1]);
        assert("--wheel-lines=3"@ =~= pager_args()[2]);
        assert(args@.map_values(|a: String| a@) =~= pager_args());
    }
    (program, args)
}

} // verus!
