use owo_colors::{AnsiColors, OwoColorize};
use vstd::prelude::*;

verus! {

/// A terminal foreground color.
#[derive(Clone, Copy, Debug, PartialEq, Eq, Structural)]
pub enum Ink {
    Red,
    Green,
    Yellow,
    Blue,
    Magenta,
    Cyan,
    BrightBlack,
    BrightBlue,
}

/// The SGR parameter that selects `ink` as foreground color.
pub open spec fn ink_code(ink: Ink) -> Seq<char> {
    match ink {
        Ink::Red => seq!['3', '1'],
        Ink::Green => seq!['3', '2'],
        Ink::Yellow => seq!['3', '3'],
        Ink::Blue => seq!['3', '4'],
        Ink::Magenta => seq!['3', '5'],
        Ink::Cyan => seq!['3', '6'],
        Ink::BrightBlack => seq!['9', '0'],
        Ink::BrightBlue => seq!['9', '4'],
    }
}

/// `text` in color `ink`, followed by a reset to the default foreground.
pub open spec fn painted(text: Seq<char>, ink: Ink) -> Seq<char> {
    seq!['\x1b', '['] + ink_code(ink) + seq!['m'] + text + seq!['\x1b', '[', '3', '9', 'm']
}

/// `text` in bold, followed by a reset of all attributes.
pub open spec fn bolded(text: Seq<char>) -> Seq<char> {
    seq!['\x1b', '[', '1', 'm'] + text + seq!['\x1b', '[', '0', 'm']
}

/// `text` in italics, followed by a reset of all attributes.
pub open spec fn slanted(text: Seq<char>) -> Seq<char> {
    seq!['\x1b', '[', '3', 'm'] + text + seq!['\x1b', '[', '0', 'm']
}

/// Relies on owo_colors' `color` with an `AnsiColors` value, whose `Display`
/// writes ESC `[` code `m`, the text, then ESC `[39m`.
#[verifier::external_body]
fn paint(text: &str, ink: Ink) -> (r: String)
    ensures
        r@ == painted(text@, ink),
{
    let color = match ink {
        Ink::Red => AnsiColors::Red,
        Ink::Green => AnsiColors::Green,
        Ink::Yellow => AnsiColors::Yellow,
        Ink::Blue => AnsiColors::Blue,
        Ink::Magenta => AnsiColors::Magenta,
        Ink::Cyan => AnsiColors::Cyan,
        Ink::BrightBlack => AnsiColors::BrightBlack,
        Ink::BrightBlue => AnsiColors::BrightBlue,
    };
    text.color(color).to_string()
}

/// Relies on owo_colors' `bold`, whose `Display` writes ESC `[1m`, the text,
/// then ESC `[0m`.
#[verifier::external_body]
fn embolden(text: &str) -> (r: String)
    ensures
        r@ == bolded(text@),
{
    text.bold().to_string()
}

/// Relies on owo_colors' `italic`, whose `Display` writes ESC `[3m`, the
/// text, then ESC `[0m`.
#[verifier::external_body]
fn italicize(text: &str) -> (r: String)
    ensures
        r@ == slanted(text@),
{
    text.italic().to_string()
}

/// How a piece of report text is set off from the rest.
#[derive(Clone, Copy, Debug, PartialEq, Eq, Structural)]
pub enum Emphasis {
    /// No decoration.
    Plain,
    /// Informational (blue).
    Info,
    /// A marker that draws the eye (magenta).
    Accent,
    /// A name or notable state (cyan).
    Highlight,
    /// A favourable state (green).
    Positive,
    /// A warning (yellow).
    Warning,
    /// An error state (red).
    Error,
    /// A severe error (bold red).
    Alert,
    /// Strong text (bold).
    Strong,
    /// De-emphasized text (italic grey).
    Muted,
    /// Italic text.
    Slanted,
    /// A top-level title (bold bright blue).
    Title,
    /// Secondary text (grey).
    Faint,
    /// An unset value that is as expected (italic blue).
    Unset,
    /// An unset value that differs from what is expected (italic yellow).
    Missing,
}

/// The text as it is written out with emphasis `e`.
pub open spec fn emphasized(text: Seq<char>, e: Emphasis) -> Seq<char> {
    match e {
        Emphasis::Plain => text,
        Emphasis::Info => painted(text, Ink::Blue),
        Emphasis::Accent => painted(text, Ink::Magenta),
        Emphasis::Highlight => painted(text, Ink::Cyan),
        Emphasis::Positive => painted(text, Ink::Green),
        Emphasis::Warning => painted(text, Ink::Yellow),
        Emphasis::Error => painted(text, Ink::Red),
        Emphasis::Alert => bolded(painted(text, Ink::Red)),
        Emphasis::Strong => bolded(text),
        Emphasis::Muted => slanted(painted(text, Ink::BrightBlack)),
        Emphasis::Slanted => slanted(text),
        Emphasis::Title => bolded(painted(text, Ink::BrightBlue)),
        Emphasis::Faint => painted(text, Ink::BrightBlack),
        Emphasis::Unset => slanted(painted(text, Ink::Blue)),
        Emphasis::Missing => slanted(painted(text, Ink::Yellow)),
    }
}

/// Writes `text` with emphasis `e` as terminal escape sequences.
pub fn emphasize(text: &str, e: Emphasis) -> (r: String)
    ensures
        r@ == emphasized(text@, e),
{
    match e {
        Emphasis::Plain => text.to_owned(),
        Emphasis::Info => paint(text, Ink::Blue),
        Emphasis::Accent => paint(text, Ink::Magenta),
        Emphasis::Highlight => paint(text, Ink::Cyan),
        Emphasis::Positive => paint(text, Ink::Green),
        Emphasis::Warning => paint(text, Ink::Yellow),
        Emphasis::Error => paint(text, Ink::Red),
        Emphasis::Alert => {
            let red = paint(text, Ink::Red);
            embolden(red.as_str())
        },
        Emphasis::Strong => embolden(text),
        Emphasis::Muted => {
            let grey = paint(text, Ink::BrightBlack);
            italicize(grey.as_str())
        },
        Emphasis::Slanted => italicize(text),
        Emphasis::Title => {
            let blue = paint(text, Ink::BrightBlue);
            embolden(blue.as_str())
        },
        Emphasis::Faint => paint(text, Ink::BrightBlack),
        Emphasis::Unset => {
            let blue = paint(text, Ink::Blue);
            italicize(blue.as_str())
        },
        Emphasis::Missing => {
            let yellow = paint(text, Ink::Yellow);
            italicize(yellow.as_str())
        },
    }
}

} // verus!
