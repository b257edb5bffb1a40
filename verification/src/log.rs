//! Message formatting for the console: every line of a message is prefixed
//! with a marker that tells the kind of the message.

use crate::text::push_char;
use colored::{Color, Colorize};
use vstd::prelude::*;
use vstd::std_specs::iter::IteratorSpec;
use vstd::string::*;

verus! {

/// The kind of a console message.
#[derive(Clone, Copy, Debug, PartialEq, Eq, Structural)]
pub enum LogKind {
    Info,
    Success,
    Error,
}

/// The colours that messages are marked with.
#[derive(Clone, Copy, Debug, PartialEq, Eq, Structural)]
pub enum Tint {
    Black,
    White,
    BrightGreen,
    BrightRed,
}

/// `text` with `line_start` and a space inserted after every line feed.
pub open spec fn spec_continue_lines(text: Seq<char>, line_start: Seq<char>) -> Seq<char>
    decreases text.len(),
{
    if text.len() == 0 {
        Seq::empty()
    } else {
        let head = spec_continue_lines(text.drop_last(), line_start);
        if text.last() == '\n' {
            head.push('\n') + line_start.push(' ')
        } else {
            head.push(text.last())
        }
    }
}

/// `text` with `line_start` and a space in front of each of its lines.
pub open spec fn spec_with_start_line(text: Seq<char>, line_start: Seq<char>) -> Seq<char> {
    line_start.push(' ') + spec_continue_lines(text, line_start)
}

/// The background that marks messages of the given kind.
pub open spec fn spec_background(kind: LogKind) -> Tint {
    match kind {
        LogKind::Info => Tint::White,
        LogKind::Success => Tint::BrightGreen,
        LogKind::Error => Tint::BrightRed,
    }
}

/// The ANSI code that selects a colour for the text.
pub open spec fn spec_foreground_code(tint: Tint) -> Seq<char> {
    match tint {
        Tint::Black => "30"@,
        Tint::White => "37"@,
        Tint::BrightGreen => "92"@,
        Tint::BrightRed => "91"@,
    }
}

/// The ANSI code that selects a colour for what is behind the text.
pub open spec fn spec_background_code(tint: Tint) -> Seq<char> {
    match tint {
        Tint::Black => "40"@,
        Tint::White => "47"@,
        Tint::BrightGreen => "102"@,
        Tint::BrightRed => "101"@,
    }
}

/// The ANSI sequence that resets the colours.
pub open spec fn spec_reset() -> Seq<char> {
    "\x1B[0m"@
}

/// `text` holds the sequence that resets the colours.
pub open spec fn spec_has_reset(text: Seq<char>) -> bool {
    exists|i: int|
        0 <= i && i + spec_reset().len() <= text.len() && #[trigger] text.subrange(
            i,
            i + spec_reset().len(),
        ) == spec_reset()
}

/// `text` in colours: the ANSI sequence that selects the two colours, the
/// text, and the sequence that resets them.
pub open spec fn spec_painted(text: Seq<char>, foreground: Tint, background: Tint) -> Seq<char> {
    "\x1B["@ + spec_background_code(background) + ";"@ + spec_foreground_code(foreground) + "m"@
        + text + spec_reset()
}

/// The text of a marker: a single space.
pub open spec fn plain_marker() -> Seq<char> {
    " "@
}

/// The marker when colours are on: a black space on `background`.
pub open spec fn ansi_marker(background: Tint) -> Seq<char> {
    spec_painted(plain_marker(), Tint::Black, background)
}

/// The two forms of a message of kind `kind`: with the plain marker, and
/// with the coloured one.
pub open spec fn spec_format_message(message: Seq<char>, kind: LogKind) -> Set<Seq<char>> {
    set![
        spec_with_start_line(message, plain_marker()),
        spec_with_start_line(message, ansi_marker(spec_background(kind)))
    ]
}

/// Renders `text` in the two colours with `colored`'s `Colorize::color`,
/// `Colorize::on_color` and `to_string`. Whether `colored` emits colours
/// depends on the terminal and the environment, so the result is one of
/// two strings: the text as it is, or the text between the ANSI sequence
/// of the two colours and the one that resets them. Of a text that itself
/// holds the resetting sequence no more is said.
#[verifier::external_body]
fn paint(text: &str, foreground: Tint, background: Tint) -> (painted: String)
    ensures
        painted@ == text@ || painted@ == spec_painted(text@, foreground, background)
            || spec_has_reset(text@),
{
    let fg = match foreground {
        Tint::Black => Color::Black,
        Tint::White => Color::White,
        Tint::BrightGreen => Color::BrightGreen,
        Tint::BrightRed => Color::BrightRed,
    };
    let bg = match background {
        Tint::Black => Color::Black,
        Tint::White => Color::White,
        Tint::BrightGreen => Color::BrightGreen,
        Tint::BrightRed => Color::BrightRed,
    };
    text.color(fg).on_color(bg).to_string()
}

/// Adds a "start line pattern" at the start of every line in the given text.
pub fn with_start_line(text: &str, line_start: &str) -> (out: String)
    ensures
        out@ == spec_with_start_line(text@, line_start@),
{
    broadcast use {axiom_spec_iter, next_postcondition};

    let mut out = String::from_str(line_start);
    push_char(&mut out, ' ');
    let mut it = text.chars();
    let ghost mut done: Seq<char> = Seq::empty();
    loop
        invariant
            it.obeys_prophetic_iter_laws(),
            it.decrease() is Some,
            done + it.remaining() == text@,
            out@ == line_start@.push(' ') + spec_continue_lines(done, line_start@),
        ensures
            out@ == spec_with_start_line(text@, line_start@),
        decreases it.decrease()->0,
    {
        let ghost before = it.remaining();
        match it.next() {
            None => {
                assert(done == text@);
                break ;
            },
            Some(c) => {
                push_char(&mut out, c);
                if c == '\n' {
                    out.append(line_start);
                    push_char(&mut out, ' ');
                }
                proof {
                    let grown = done.push(c);
                    assert(grown.drop_last() == done);
                    assert(grown + it.remaining() == done + before);
                    done = grown;
                }
            },
        }
    }
    out
}

/// The background that marks messages of the given kind.
pub fn background_of(kind: LogKind) -> (background: Tint)
    ensures
        background == spec_background(kind),
{
    match kind {
        LogKind::Info => Tint::White,
        LogKind::Success => Tint::BrightGreen,
        LogKind::Error => Tint::BrightRed,
    }
}

/// The marker of messages of the given kind: a black space on the
/// background of the kind, in colours where the terminal takes them.
pub fn marker(kind: LogKind) -> (marker: String)
    ensures
        marker@ == plain_marker() || marker@ == ansi_marker(spec_background(kind)),
{
    proof {
        reveal_strlit(" ");
        reveal_strlit("\x1B[0m");
        assert(!spec_has_reset(" "@));
    }
    paint(" ", Tint::Black, background_of(kind))
}

/// Formats `message` as a message of the given kind: each line starts with
/// the marker of that kind and a space.
pub fn format_message(message: &str, kind: LogKind) -> (out: String)
    ensures
        spec_format_message(message@, kind).contains(out@),
{
    let line_start = marker(kind);
    with_start_line(message, line_start.as_str())
}

/// Formats `message` as an information.
pub fn format_info(message: &str) -> (out: String)
    ensures
        spec_format_message(message@, LogKind::Info).contains(out@),
{
    format_message(message, LogKind::Info)
}

/// Formats `message` as the message of a success.
pub fn format_success(message: &str) -> (out: String)
    ensures
        spec_format_message(message@, LogKind::Success).contains(out@),
{
    format_message(message, LogKind::Success)
}

/// Formats `message` as the message of an error.
pub fn format_error(message: &str) -> (out: String)
    ensures
        spec_format_message(message@, LogKind::Error).contains(out@),
{
    format_message(message, LogKind::Error)
}

} // verus!
