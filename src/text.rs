use textwrap::{Options, WordSeparator, WordSplitter, WrapAlgorithm};
use vstd::prelude::*;
use vstd::utf8::encode_utf8;

verus! {

/// The narrowest width that text is ever wrapped to.
pub const MIN_TEXT_WIDTH: usize = 40;

/// The segments that textwrap cuts `text` into for a width of `width`
/// columns, breaking only at spaces and never inside a word.
pub uninterp spec fn wrapped(text: Seq<char>, width: nat) -> Seq<Seq<char>>;

/// Text made of printable ASCII characters only, where a character is one
/// column wide.
pub open spec fn is_plain(s: Seq<char>) -> bool {
    forall|i: int| 0 <= i < s.len() ==> ' ' <= #[trigger] s[i] <= '~'
}

/// A segment respects a width when it fits, or when it is a single word too
/// long to fit anywhere.
pub open spec fn fits_or_single_word(seg: Seq<char>, width: nat) -> bool {
    seg.len() <= width || !seg.contains(' ')
}

/// Relies on textwrap::wrap with first-fit wrapping, words separated by ASCII
/// spaces, no hyphenation and no breaking of long words: the lines depend on
/// the text and width alone; there is always at least one (an empty text gives
/// one empty line); on printable ASCII, where a character is one column, first
/// fit starts a new line whenever the next word would overflow, so only a line
/// holding one word is wider than `width`.
#[verifier::external_body]
pub(crate) fn textwrap_lines(text: &str, width: usize) -> (r: Vec<String>)
    ensures
        views_of(r@) == wrapped(text@, width as nat),
        r@.len() >= 1,
        text@.len() == 0 ==> r@.len() == 1 && r@[0]@.len() == 0,
        is_plain(text@) ==> forall|i: int|
            0 <= i < r@.len() ==> fits_or_single_word(#[trigger] r@[i]@, width as nat),
{
    let options = Options::new(width)
        .break_words(false)
        .word_separator(WordSeparator::AsciiSpace)
        .word_splitter(WordSplitter::NoHyphenation)
        .wrap_algorithm(WrapAlgorithm::FirstFit);
    textwrap::wrap(text, options).into_iter().map(|l| l.into_owned()).collect()
}

/// The text of each string.
pub open spec fn views_of(v: Seq<String>) -> Seq<Seq<char>> {
    v.map_values(|s: String| s@)
}

/// Width left for text after `prefix` (measured in UTF-8 bytes) on a terminal
/// of `terminal_width` columns, never below the floor.
pub open spec fn available_width(prefix: Seq<char>, terminal_width: nat) -> nat {
    let rest = terminal_width - encode_utf8(prefix).len();
    if rest < MIN_TEXT_WIDTH as int {
        MIN_TEXT_WIDTH as nat
    } else {
        rest as nat
    }
}

/// Prepends `prefix` to every segment.
pub open spec fn prefixed(prefix: Seq<char>, segs: Seq<Seq<char>>) -> Seq<Seq<char>> {
    segs.map_values(|s: Seq<char>| prefix + s)
}

/// The lines of `text` wrapped below `prefix`.
pub open spec fn wrap_lines_of(text: Seq<char>, prefix: Seq<char>, terminal_width: nat) -> Seq<Seq<char>> {
    prefixed(prefix, wrapped(text, available_width(prefix, terminal_width)))
}

/// `parts` joined with `sep` between neighbours.
pub open spec fn joined(parts: Seq<Seq<char>>, sep: Seq<char>) -> Seq<char>
    decreases parts.len(),
{
    if parts.len() == 0 {
        seq![]
    } else if parts.len() == 1 {
        parts[0]
    } else {
        joined(parts.drop_last(), sep) + sep + parts.last()
    }
}

/// Computes the width left for text after `prefix`.
pub fn text_width(prefix: &str, terminal_width: usize) -> (w: usize)
    ensures
        w == available_width(prefix@, terminal_width as nat),
{
    let used = prefix.as_bytes().len();
    let rest = terminal_width.saturating_sub(used);
    if rest < MIN_TEXT_WIDTH {
        MIN_TEXT_WIDTH
    } else {
        rest
    }
}

/// Puts `prefix` before every segment.
pub fn prefix_segments(prefix: &str, segs: &Vec<String>) -> (r: Vec<String>)
    ensures
        views_of(r@) == prefixed(prefix@, views_of(segs@)),
{
    let ghost want = prefixed(prefix@, views_of(segs@));
    let mut out: Vec<String> = Vec::new();
    let mut i: usize = 0;
    while i < segs.len()
        invariant
            i <= segs@.len(),
            want == prefixed(prefix@, views_of(segs@)),
            views_of(out@) == want.subrange(0, i as int),
        decreases segs@.len() - i,
    {
        let mut line = prefix.to_owned();
        line.append(segs[i].as_str());
        let ghost prev = views_of(out@);
        out.push(line);
        proof {
            assert(views_of(out@) =~= prev + seq![line@]);
            assert(want.subrange(0, i + 1) =~= want.subrange(0, i as int) + seq![line@]);
        }
        i = i + 1;
    }
    proof {
        assert(want.subrange(0, segs@.len() as int) =~= want);
    }
    out
}

/// Wraps `text` to the width left after `prefix` and puts `prefix` before
/// every line.
pub fn wrap_lines(text: &str, prefix: &str, terminal_width: usize) -> (r: Vec<String>)
    ensures
        views_of(r@) == wrap_lines_of(text@, prefix@, terminal_width as nat),
        r@.len() >= 1,
        text@.len() == 0 ==> r@.len() == 1 && r@[0]@ == prefix@,
        is_plain(text@) ==> forall|i: int|
            0 <= i < r@.len() ==> {
                &&& (#[trigger] r@[i])@.subrange(0, prefix@.len() as int) == prefix@
                &&& fits_or_single_word(
                    r@[i]@.subrange(prefix@.len() as int, r@[i]@.len() as int),
                    available_width(prefix@, terminal_width as nat),
                )
            },
{
    let width = text_width(prefix, terminal_width);
    let segs = textwrap_lines(text, width);
    let out = prefix_segments(prefix, &segs);
    proof {
        assert(views_of(out@).len() == out@.len());
        assert forall|k: int| 0 <= k < out@.len() implies (#[trigger] out@[k])@ == prefix@ + segs@[k]@ by {
            assert(views_of(out@)[k] == out@[k]@);
        }
        if text@.len() == 0 {
            assert(segs@[0]@ =~= Seq::<char>::empty());
            assert(out@[0]@ =~= prefix@);
        }
        if is_plain(text@) {
            assert forall|k: int| 0 <= k < out@.len() implies {
                &&& (#[trigger] out@[k])@.subrange(0, prefix@.len() as int) == prefix@
                &&& fits_or_single_word(
                    out@[k]@.subrange(prefix@.len() as int, out@[k]@.len() as int),
                    available_width(prefix@, terminal_width as nat),
                )
            } by {
                assert(out@[k]@.subrange(0, prefix@.len() as int) =~= prefix@);
                assert(out@[k]@.subrange(prefix@.len() as int, out@[k]@.len() as int)
                    =~= segs@[k]@);
            }
        }
    }
    out
}

/// Joins `parts` with `sep` between neighbours.
pub fn join(parts: &Vec<String>, sep: &str) -> (r: String)
    ensures
        r@ == joined(views_of(parts@), sep@),
{
    let ghost views = views_of(parts@);
    let mut out = String::new();
    let mut i: usize = 0;
    while i < parts.len()
        invariant
            i <= parts@.len(),
            views == views_of(parts@),
            out@ == joined(views.subrange(0, i as int), sep@),
        decreases parts@.len() - i,
    {
        if i > 0 {
            out.append(sep);
        }
        out.append(parts[i].as_str());
        proof {
            let next = views.subrange(0, i + 1);
            assert(next.drop_last() =~= views.subrange(0, i as int));
            if i == 0 {
                assert(next.len() == 1);
            }
        }
        i = i + 1;
    }
    proof {
        assert(views.subrange(0, parts@.len() as int) =~= views);
    }
    out
}

/// Wraps `text` to the terminal width with `prefix` before every line and
/// returns the lines joined by newlines.
pub fn wrap_with_prefix(text: &str, prefix: &str, terminal_width: usize) -> (r: String)
    ensures
        r@ == joined(wrap_lines_of(text@, prefix@, terminal_width as nat), seq!['\n']),
{
    let lines = wrap_lines(text, prefix, terminal_width);
    proof {
        reveal_strlit("\n");
        assert("\n"@ =~= seq!['\n']);
    }
    join(&lines, "\n")
}

} // verus!
