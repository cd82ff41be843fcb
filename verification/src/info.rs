//! How the content of a control file is shown: what is printed before its
//! lines, for each line, and after them.

use vstd::prelude::*;
use vstd::utf8::*;
use crate::plan::Layout;
use crate::text::{holds_byte, push_text, text_from};

verus! {

/// Whether a line of the power profile table marks the profile that is
/// selected: such a line holds an asterisk.
pub open spec fn is_selected(line: Seq<u8>) -> bool {
    line.contains(0x2au8)
}

/// What is printed before the lines of a file: a heading for the power
/// profiles, an empty line where the layout asks for one, else nothing.
pub open spec fn heading_spec(layout: Layout) -> Seq<u8> {
    match layout {
        Layout::Starred => encode_utf8("POWER_PROFILE_INDEX\n"@),
        Layout::PlainAfterBlank => encode_utf8("\n"@),
        _ => Seq::empty(),
    }
}

/// What is printed for one line of a file. The performance level comes
/// after its label and before an empty line. Of the power profiles only the
/// selected one is printed, before an empty line. The power cap comes under
/// its label with its value in watts, which the caller supplies as `watts`.
/// Any other line is printed as it is.
pub open spec fn line_spec(layout: Layout, line: Seq<u8>, watts: Seq<u8>) -> Seq<u8> {
    match layout {
        Layout::Labelled => encode_utf8("PERFORMANCE_LEVEL: "@) + line + encode_utf8("\n\n"@),
        Layout::Starred => if is_selected(line) {
            line + encode_utf8("\n\n"@)
        } else {
            Seq::empty()
        },
        Layout::Watts => encode_utf8("POWER_CAP:\n"@) + line + encode_utf8(" ("@) + watts
            + encode_utf8(" W)\n"@),
        _ => line + encode_utf8("\n"@),
    }
}

/// What is printed after the lines of a file: an empty line after the power
/// cap, else nothing.
pub open spec fn trailer_spec(layout: Layout) -> Seq<u8> {
    match layout {
        Layout::Watts => encode_utf8("\n"@),
        _ => Seq::empty(),
    }
}

fn empty_text() -> (r: String)
    ensures
        encode_utf8(r@) == Seq::<u8>::empty(),
{
    String::new()
}

/// Whether a line of the power profile table marks the selected profile.
pub fn marks_selected(line: &str) -> (r: bool)
    ensures
        r == is_selected(encode_utf8(line@)),
{
    holds_byte(line, 0x2a)
}

/// What is printed before the lines of a file.
pub fn heading(layout: Layout) -> (r: String)
    ensures
        encode_utf8(r@) == heading_spec(layout),
{
    match layout {
        Layout::Starred => text_from("POWER_PROFILE_INDEX\n"),
        Layout::PlainAfterBlank => text_from("\n"),
        _ => empty_text(),
    }
}

/// What is printed for one line of a file. `watts` is the line's value in
/// watts as it is to be shown; only the layout of the power cap uses it.
pub fn shown_line(layout: Layout, line: &str, watts: &str) -> (r: String)
    ensures
        encode_utf8(r@) == line_spec(layout, encode_utf8(line@), encode_utf8(watts@)),
{
    match layout {
        Layout::Labelled => {
            let mut out = text_from("PERFORMANCE_LEVEL: ");
            push_text(&mut out, line);
            push_text(&mut out, "\n\n");
            out
        },
        Layout::Starred => {
            if marks_selected(line) {
                let mut out = text_from(line);
                push_text(&mut out, "\n\n");
                out
            } else {
                empty_text()
            }
        },
        Layout::Watts => {
            let mut out = text_from("POWER_CAP:\n");
            push_text(&mut out, line);
            push_text(&mut out, " (");
            push_text(&mut out, watts);
            push_text(&mut out, " W)\n");
            out
        },
        _ => {
            let mut out = text_from(line);
            push_text(&mut out, "\n");
            out
        },
    }
}

/// What is printed after the lines of a file.
pub fn trailer(layout: Layout) -> (r: String)
    ensures
        encode_utf8(r@) == trailer_spec(layout),
{
    match layout {
        Layout::Watts => text_from("\n"),
        _ => empty_text(),
    }
}

} // verus!
