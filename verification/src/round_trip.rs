//! Reading back a profile that was written out: the proof that nothing is
//! lost on the way.

use vstd::prelude::*;
use vstd::utf8::*;
use crate::decimal::{
    decimal_digits, decimal_text, is_digit, lemma_decimal_digits, lemma_parse_signed_of_decimal,
    lemma_parse_unsigned_of_decimal,
};
use crate::profile::{
    block_line, block_number, device_index_of, directive_of, keyword, parse_lines_spec,
    parse_spec, read_block, read_directive, read_scalar, scan, store_scalar, BlockLine,
};
use crate::render::{
    block_entries, block_entry, block_section, device_line, from_i32, from_u32, from_u64, from_u8,
    number_text, profile_lines, profile_text, scalar_section, voltage_text,
};
use crate::settings::{Directive, FormatError, Settings};
use crate::text::{
    before_marker, is_plain_line, leading_space_len, lemma_marker_position, lemma_split_join,
    marker_position, split_lines, trailing_space_len, trim, trim_end, trim_start,
};

verus! {

/// The bytes of a directive's keyword line, written out.
pub open spec fn keyword_bytes(d: Directive) -> Seq<u8> {
    match d {
        Directive::PerformanceLevel => seq![
            0x50u8, 0x45, 0x52, 0x46, 0x4f, 0x52, 0x4d, 0x41, 0x4e, 0x43, 0x45, 0x5f, 0x4c,
            0x45, 0x56, 0x45, 0x4c, 0x3a,
        ],
        Directive::PowerProfileIndex => seq![
            0x50u8, 0x4f, 0x57, 0x45, 0x52, 0x5f, 0x50, 0x52, 0x4f, 0x46, 0x49, 0x4c, 0x45,
            0x5f, 0x49, 0x4e, 0x44, 0x45, 0x58, 0x3a,
        ],
        Directive::SclkOffset => seq![
            0x4fu8, 0x44, 0x5f, 0x53, 0x43, 0x4c, 0x4b, 0x5f, 0x4f, 0x46, 0x46, 0x53, 0x45,
            0x54, 0x3a,
        ],
        Directive::Sclk => seq![
            0x4fu8, 0x44, 0x5f, 0x53, 0x43, 0x4c, 0x4b, 0x3a,
        ],
        Directive::Mclk => seq![
            0x4fu8, 0x44, 0x5f, 0x4d, 0x43, 0x4c, 0x4b, 0x3a,
        ],
        Directive::VddgfxOffset => seq![
            0x4fu8, 0x44, 0x5f, 0x56, 0x44, 0x44, 0x47, 0x46, 0x58, 0x5f, 0x4f, 0x46, 0x46,
            0x53, 0x45, 0x54, 0x3a,
        ],
        Directive::PowerCap => seq![
            0x50u8, 0x4f, 0x57, 0x45, 0x52, 0x5f, 0x43, 0x41, 0x50, 0x3a,
        ],
        Directive::FanTargetTemperature => seq![
            0x46u8, 0x41, 0x4e, 0x5f, 0x54, 0x41, 0x52, 0x47, 0x45, 0x54, 0x5f, 0x54, 0x45,
            0x4d, 0x50, 0x45, 0x52, 0x41, 0x54, 0x55, 0x52, 0x45, 0x3a,
        ],
        Directive::FanZeroRpmEnable => seq![
            0x46u8, 0x41, 0x4e, 0x5f, 0x5a, 0x45, 0x52, 0x4f, 0x5f, 0x52, 0x50, 0x4d, 0x5f,
            0x45, 0x4e, 0x41, 0x42, 0x4c, 0x45, 0x3a,
        ],
        Directive::FanZeroRpmStopTemperature => seq![
            0x46u8, 0x41, 0x4e, 0x5f, 0x5a, 0x45, 0x52, 0x4f, 0x5f, 0x52, 0x50, 0x4d, 0x5f,
            0x53, 0x54, 0x4f, 0x50, 0x5f, 0x54, 0x45, 0x4d, 0x50, 0x45, 0x52, 0x41, 0x54, 0x55,
            0x52, 0x45, 0x3a,
        ],
    }
}

/// The keyword of a directive is the bytes of its text.
pub proof fn lemma_keyword_bytes(d: Directive)
    ensures
        keyword(d) == keyword_bytes(d),
{
    match d {
        Directive::PerformanceLevel => {
            reveal_strlit("PERFORMANCE_LEVEL:");
            is_ascii_chars_encode_utf8("PERFORMANCE_LEVEL:"@);
            assert(encode_utf8("PERFORMANCE_LEVEL:"@) =~= keyword_bytes(d));
        },
        Directive::PowerProfileIndex => {
            reveal_strlit("POWER_PROFILE_INDEX:");
            is_ascii_chars_encode_utf8("POWER_PROFILE_INDEX:"@);
            assert(encode_utf8("POWER_PROFILE_INDEX:"@) =~= keyword_bytes(d));
        },
        Directive::SclkOffset => {
            reveal_strlit("OD_SCLK_OFFSET:");
            is_ascii_chars_encode_utf8("OD_SCLK_OFFSET:"@);
            assert(encode_utf8("OD_SCLK_OFFSET:"@) =~= keyword_bytes(d));
        },
        Directive::Sclk => {
            reveal_strlit("OD_SCLK:");
            is_ascii_chars_encode_utf8("OD_SCLK:"@);
            assert(encode_utf8("OD_SCLK:"@) =~= keyword_bytes(d));
        },
        Directive::Mclk => {
            reveal_strlit("OD_MCLK:");
            is_ascii_chars_encode_utf8("OD_MCLK:"@);
            assert(encode_utf8("OD_MCLK:"@) =~= keyword_bytes(d));
        },
        Directive::VddgfxOffset => {
            reveal_strlit("OD_VDDGFX_OFFSET:");
            is_ascii_chars_encode_utf8("OD_VDDGFX_OFFSET:"@);
            assert(encode_utf8("OD_VDDGFX_OFFSET:"@) =~= keyword_bytes(d));
        },
        Directive::PowerCap => {
            reveal_strlit("POWER_CAP:");
            is_ascii_chars_encode_utf8("POWER_CAP:"@);
            assert(encode_utf8("POWER_CAP:"@) =~= keyword_bytes(d));
        },
        Directive::FanTargetTemperature => {
            reveal_strlit("FAN_TARGET_TEMPERATURE:");
            is_ascii_chars_encode_utf8("FAN_TARGET_TEMPERATURE:"@);
            assert(encode_utf8("FAN_TARGET_TEMPERATURE:"@) =~= keyword_bytes(d));
        },
        Directive::FanZeroRpmEnable => {
            reveal_strlit("FAN_ZERO_RPM_ENABLE:");
            is_ascii_chars_encode_utf8("FAN_ZERO_RPM_ENABLE:"@);
            assert(encode_utf8("FAN_ZERO_RPM_ENABLE:"@) =~= keyword_bytes(d));
        },
        Directive::FanZeroRpmStopTemperature => {
            reveal_strlit("FAN_ZERO_RPM_STOP_TEMPERATURE:");
            is_ascii_chars_encode_utf8("FAN_ZERO_RPM_STOP_TEMPERATURE:"@);
            assert(encode_utf8("FAN_ZERO_RPM_STOP_TEMPERATURE:"@) =~= keyword_bytes(d));
        },
    }
}

/// A visible ASCII character: neither a blank nor a control character.
pub open spec fn is_visible(b: u8) -> bool {
    0x21 <= b <= 0x7e
}

/// A line with a visible character at either end, or an empty line, has
/// nothing to trim.
pub proof fn lemma_trim_keeps(line: Seq<u8>)
    requires
        line.len() > 0 ==> is_visible(line[0]) && is_visible(line.last()),
    ensures
        trim(line) == line,
{
    assert(leading_space_len(line) == 0);
    assert(trim_start(line) == line);
    assert(trailing_space_len(line) == 0);
    assert(trim_end(line) == line);
}

/// What the keywords look like: they begin with `F`, `O` or `P`, end with a
/// colon, and hold capital letters, underscores and the colon only.
pub proof fn lemma_keyword_shape(d: Directive)
    ensures
        keyword(d).len() >= 8,
        keyword(d)[0] == 0x46 || keyword(d)[0] == 0x4f || keyword(d)[0] == 0x50,
        keyword(d).last() == 0x3a,
        forall|i: int| 0 <= i < keyword(d).len() ==> 0x3a <= #[trigger] keyword(d)[i] <= 0x5f,
        is_plain_line(keyword(d)),
        trim(keyword(d)) == keyword(d),
{
    lemma_keyword_bytes(d);
    lemma_trim_keeps(keyword(d));
}

/// A keyword line opens its own directive and no other.
pub proof fn lemma_keyword_recognised(d: Directive)
    ensures
        directive_of(keyword(d)) == Some(d),
{
    lemma_keyword_shape(d);
    lemma_keyword_bytes(Directive::PerformanceLevel);
    lemma_keyword_bytes(Directive::PowerProfileIndex);
    lemma_keyword_bytes(Directive::SclkOffset);
    lemma_keyword_bytes(Directive::Sclk);
    lemma_keyword_bytes(Directive::Mclk);
    lemma_keyword_bytes(Directive::VddgfxOffset);
    lemma_keyword_bytes(Directive::PowerCap);
    lemma_keyword_bytes(Directive::FanTargetTemperature);
    lemma_keyword_bytes(Directive::FanZeroRpmEnable);
    lemma_keyword_bytes(Directive::FanZeroRpmStopTemperature);
    assert(keyword_bytes(Directive::Sclk)[3] != keyword_bytes(Directive::Mclk)[3]);
    assert(keyword_bytes(Directive::PowerProfileIndex)[0] != keyword_bytes(
        Directive::FanZeroRpmEnable,
    )[0]);
}

/// An empty line, and a line that has a visible character at either end and
/// begins with none of `F`, `O` and `P`, is no keyword line.
pub proof fn lemma_not_keyword(line: Seq<u8>)
    requires
        line.len() > 0 ==> is_visible(line[0]) && is_visible(line.last()) && line[0] != 0x46
            && line[0] != 0x4f && line[0] != 0x50,
    ensures
        directive_of(line) is None,
{
    lemma_trim_keeps(line);
    lemma_keyword_shape(Directive::PerformanceLevel);
    lemma_keyword_shape(Directive::PowerProfileIndex);
    lemma_keyword_shape(Directive::SclkOffset);
    lemma_keyword_shape(Directive::Sclk);
    lemma_keyword_shape(Directive::Mclk);
    lemma_keyword_shape(Directive::VddgfxOffset);
    lemma_keyword_shape(Directive::PowerCap);
    lemma_keyword_shape(Directive::FanTargetTemperature);
    lemma_keyword_shape(Directive::FanZeroRpmEnable);
    lemma_keyword_shape(Directive::FanZeroRpmStopTemperature);
}

/// What a number looks like written out: digits after an optional minus
/// sign, so that it begins with a digit or the sign, ends with a digit, and
/// holds no letter.
pub proof fn lemma_decimal_shape(v: int)
    ensures
        decimal_text(v).len() > 0,
        is_digit(decimal_text(v)[0]) || decimal_text(v)[0] == 0x2d,
        is_digit(decimal_text(v).last()),
        forall|i: int|
            0 <= i < decimal_text(v).len() ==> is_digit(#[trigger] decimal_text(v)[i])
                || decimal_text(v)[i] == 0x2d,
        is_plain_line(decimal_text(v)),
        directive_of(decimal_text(v)) is None,
{
    let text = decimal_text(v);
    if v < 0 {
        let digits = decimal_digits((-v) as nat);
        lemma_decimal_digits((-v) as nat);
        assert(text.last() == digits.last());
        assert forall|i: int| 0 <= i < text.len() implies is_digit(#[trigger] text[i]) || text[i]
            == 0x2d by {
            if i > 0 {
                assert(text[i] == digits[i - 1]);
            }
        }
    } else {
        lemma_decimal_digits(v as nat);
    }
    lemma_not_keyword(text);
}

/// Scanning from line `i` on looks at nothing before line `i`.
pub proof fn lemma_scan_skip(lines: Seq<Seq<u8>>, i: int, acc: Settings)
    requires
        0 <= i <= lines.len(),
    ensures
        scan(lines, i, acc) == scan(lines.skip(i), 0, acc),
    decreases lines.len() - i,
{
    let tail = lines.skip(i);
    if i < lines.len() {
        assert(tail.skip(0) =~= tail);
        match read_directive(tail, acc) {
            Ok(next) => {
                lemma_scan_skip(lines, i + 1, next);
                lemma_scan_skip(tail, 1, next);
                assert(tail.skip(1) =~= lines.skip(i + 1));
            },
            Err(_) => {},
        }
    }
}

/// A first line that is no keyword is passed over.
pub proof fn lemma_scan_passes(line: Seq<u8>, rest: Seq<Seq<u8>>, acc: Settings)
    requires
        directive_of(line) is None,
    ensures
        scan(seq![line] + rest, 0, acc) == scan(rest, 0, acc),
{
    let lines = seq![line] + rest;
    assert(lines.skip(0) =~= lines);
    assert(lines[0] == line);
    assert(read_directive(lines, acc) == Ok::<Settings, FormatError>(acc));
    lemma_scan_skip(lines, 1, acc);
    assert(lines.skip(1) =~= rest);
}

/// A one-line directive at the front is read and its two lines are done
/// with, provided that the data line is no keyword line itself.
pub proof fn lemma_scan_scalar(
    d: Directive,
    data: Seq<u8>,
    rest: Seq<Seq<u8>>,
    acc: Settings,
    next: Settings,
)
    requires
        !d.is_block(),
        store_scalar(d, data, acc) == Some(next),
        directive_of(data) is None,
    ensures
        scan(seq![keyword(d), data] + rest, 0, acc) == scan(rest, 0, next),
{
    let lines = seq![keyword(d), data] + rest;
    lemma_keyword_recognised(d);
    assert(lines.skip(0) =~= lines);
    assert(lines[0] == keyword(d));
    assert(lines[1] == data);
    assert(read_scalar(d, lines, acc) == Ok::<Settings, FormatError>(next));
    assert(read_directive(lines, acc) == Ok::<Settings, FormatError>(next));
    assert(scan(lines, 0, acc) == scan(lines, 1, next));
    lemma_scan_skip(lines, 1, next);
    assert(lines.skip(1) =~= seq![data] + rest);
    lemma_scan_passes(data, rest, next);
}

/// A block of one line at the front is read and its three lines are done
/// with.
pub proof fn lemma_scan_block_of_one(
    d: Directive,
    entry: Seq<u8>,
    rest: Seq<Seq<u8>>,
    acc: Settings,
    next: Settings,
)
    requires
        d.is_block(),
        entry.len() > 0,
        block_line(d, entry, acc) == BlockLine::Stored(next),
        directive_of(entry) is None,
    ensures
        scan(seq![keyword(d), entry, Seq::<u8>::empty()] + rest, 0, acc) == scan(rest, 0, next),
{
    let blank = Seq::<u8>::empty();
    let lines = seq![keyword(d), entry, blank] + rest;
    lemma_keyword_recognised(d);
    assert(lines.skip(0) =~= lines);
    assert(lines[0] == keyword(d));
    assert(lines[1] == entry);
    assert(lines[2] == blank);
    assert(read_block(d, lines, 2, next) == (next, Ok::<(), FormatError>(())));
    assert(read_block(d, lines, 1, acc) == read_block(d, lines, 2, next));
    assert(read_directive(lines, acc) == Ok::<Settings, FormatError>(next));
    assert(scan(lines, 0, acc) == scan(lines, 1, next));
    lemma_scan_skip(lines, 1, next);
    assert(lines.skip(1) =~= seq![entry] + (seq![blank] + rest));
    lemma_scan_passes(entry, seq![blank] + rest, next);
    lemma_not_keyword(blank);
    lemma_scan_passes(blank, rest, next);
}

/// A block of two lines at the front is read and its four lines are done
/// with.
pub proof fn lemma_scan_block_of_two(
    d: Directive,
    first: Seq<u8>,
    second: Seq<u8>,
    rest: Seq<Seq<u8>>,
    acc: Settings,
    middle: Settings,
    next: Settings,
)
    requires
        d.is_block(),
        first.len() > 0,
        second.len() > 0,
        block_line(d, first, acc) == BlockLine::Stored(middle),
        block_line(d, second, middle) == BlockLine::Stored(next),
        directive_of(first) is None,
        directive_of(second) is None,
    ensures
        scan(seq![keyword(d), first, second, Seq::<u8>::empty()] + rest, 0, acc) == scan(
            rest,
            0,
            next,
        ),
{
    let blank = Seq::<u8>::empty();
    let lines = seq![keyword(d), first, second, blank] + rest;
    lemma_keyword_recognised(d);
    assert(lines.skip(0) =~= lines);
    assert(lines[0] == keyword(d));
    assert(lines[1] == first);
    assert(lines[2] == second);
    assert(lines[3] == blank);
    assert(read_block(d, lines, 3, next) == (next, Ok::<(), FormatError>(())));
    assert(read_block(d, lines, 2, middle) == read_block(d, lines, 3, next));
    assert(read_block(d, lines, 1, acc) == read_block(d, lines, 2, middle));
    assert(read_directive(lines, acc) == Ok::<Settings, FormatError>(next));
    assert(scan(lines, 0, acc) == scan(lines, 1, next));
    lemma_scan_skip(lines, 1, next);
    assert(lines.skip(1) =~= seq![first] + (seq![second] + (seq![blank] + rest)));
    lemma_scan_passes(first, seq![second] + (seq![blank] + rest), next);
    lemma_scan_passes(second, seq![blank] + rest, next);
    lemma_not_keyword(blank);
    lemma_scan_passes(blank, rest, next);
}

/// The section of `PowerProfileIndex` at the front is read as the field it was written
/// from.
proof fn lemma_section_power_profile_index(value: Option<u8>, rest: Seq<Seq<u8>>, acc: Settings)
    ensures
        scan(scalar_section(Directive::PowerProfileIndex, number_text(from_u8(value))) + rest, 0, acc) == scan(
            rest,
            0,
            match value {
                Some(v) => Settings { power_profile_index: Some(v), ..acc },
                None => acc,
            },
        ),
{
    match value {
        Some(v) => {
            let data = decimal_text(v as int);
            lemma_decimal_shape(v as int);
            lemma_parse_unsigned_of_decimal(v as nat, 0xff);
            lemma_scan_scalar(
                Directive::PowerProfileIndex,
                data,
                rest,
                acc,
                Settings { power_profile_index: Some(v), ..acc },
            );
        },
        None => {
            assert(Seq::<Seq<u8>>::empty() + rest =~= rest);
        },
    }
}

/// The section of `PowerCap` at the front is read as the field it was written
/// from.
proof fn lemma_section_power_cap(value: Option<u64>, rest: Seq<Seq<u8>>, acc: Settings)
    ensures
        scan(scalar_section(Directive::PowerCap, number_text(from_u64(value))) + rest, 0, acc) == scan(
            rest,
            0,
            match value {
                Some(v) => Settings { power_cap: Some(v), ..acc },
                None => acc,
            },
        ),
{
    match value {
        Some(v) => {
            let data = decimal_text(v as int);
            lemma_decimal_shape(v as int);
            lemma_parse_unsigned_of_decimal(v as nat, 0xffff_ffff_ffff_ffff);
            lemma_scan_scalar(
                Directive::PowerCap,
                data,
                rest,
                acc,
                Settings { power_cap: Some(v), ..acc },
            );
        },
        None => {
            assert(Seq::<Seq<u8>>::empty() + rest =~= rest);
        },
    }
}

/// The section of `FanTargetTemperature` at the front is read as the field it was written
/// from.
proof fn lemma_section_fan_target(value: Option<u32>, rest: Seq<Seq<u8>>, acc: Settings)
    ensures
        scan(scalar_section(Directive::FanTargetTemperature, number_text(from_u32(value))) + rest, 0, acc) == scan(
            rest,
            0,
            match value {
                Some(v) => Settings { fan_target_temperature: Some(v), ..acc },
                None => acc,
            },
        ),
{
    match value {
        Some(v) => {
            let data = decimal_text(v as int);
            lemma_decimal_shape(v as int);
            lemma_parse_unsigned_of_decimal(v as nat, 0xffff_ffff);
            lemma_scan_scalar(
                Directive::FanTargetTemperature,
                data,
                rest,
                acc,
                Settings { fan_target_temperature: Some(v), ..acc },
            );
        },
        None => {
            assert(Seq::<Seq<u8>>::empty() + rest =~= rest);
        },
    }
}

/// The section of `FanZeroRpmEnable` at the front is read as the field it was written
/// from.
proof fn lemma_section_fan_zero_rpm(value: Option<u8>, rest: Seq<Seq<u8>>, acc: Settings)
    ensures
        scan(scalar_section(Directive::FanZeroRpmEnable, number_text(from_u8(value))) + rest, 0, acc) == scan(
            rest,
            0,
            match value {
                Some(v) => Settings { fan_zero_rpm_enabled: Some(v), ..acc },
                None => acc,
            },
        ),
{
    match value {
        Some(v) => {
            let data = decimal_text(v as int);
            lemma_decimal_shape(v as int);
            lemma_parse_unsigned_of_decimal(v as nat, 0xff);
            lemma_scan_scalar(
                Directive::FanZeroRpmEnable,
                data,
                rest,
                acc,
                Settings { fan_zero_rpm_enabled: Some(v), ..acc },
            );
        },
        None => {
            assert(Seq::<Seq<u8>>::empty() + rest =~= rest);
        },
    }
}

/// The section of `FanZeroRpmStopTemperature` at the front is read as the field it was written
/// from.
proof fn lemma_section_fan_stop(value: Option<u32>, rest: Seq<Seq<u8>>, acc: Settings)
    ensures
        scan(scalar_section(Directive::FanZeroRpmStopTemperature, number_text(from_u32(value))) + rest, 0, acc) == scan(
            rest,
            0,
            match value {
                Some(v) => Settings { fan_zero_rpm_stop_temperature: Some(v), ..acc },
                None => acc,
            },
        ),
{
    match value {
        Some(v) => {
            let data = decimal_text(v as int);
            lemma_decimal_shape(v as int);
            lemma_parse_unsigned_of_decimal(v as nat, 0xffff_ffff);
            lemma_scan_scalar(
                Directive::FanZeroRpmStopTemperature,
                data,
                rest,
                acc,
                Settings { fan_zero_rpm_stop_temperature: Some(v), ..acc },
            );
        },
        None => {
            assert(Seq::<Seq<u8>>::empty() + rest =~= rest);
        },
    }
}

/// What a voltage offset looks like written out, and that the number is
/// read back from before the unit.
pub proof fn lemma_voltage_shape(v: i32)
    ensures
        voltage_text(Some(v)) == Some(decimal_text(v as int) + seq![0x6du8, 0x56u8]),
        before_marker(voltage_text(Some(v))->0, 0x6d) == decimal_text(v as int),
        is_plain_line(voltage_text(Some(v))->0),
        directive_of(voltage_text(Some(v))->0) is None,
{
    reveal_strlit("mV");
    is_ascii_chars_encode_utf8("mV"@);
    assert(encode_utf8("mV"@) =~= seq![0x6du8, 0x56u8]);
    let number = decimal_text(v as int);
    let data = number + seq![0x6du8, 0x56u8];
    lemma_decimal_shape(v as int);
    assert forall|j: int| 0 <= j < number.len() implies data[j] != 0x6d by {
        assert(data[j] == number[j]);
    }
    assert(data[number.len() as int] == 0x6d);
    lemma_marker_position(data, 0x6d, number.len() as int);
    assert(data.take(number.len() as int) =~= number);
    assert(data[0] == number[0]);
    assert(data.last() == 0x56);
    assert forall|i: int| 0 <= i < data.len() implies data[i] != 0x0a by {
        if i < number.len() {
            assert(data[i] == number[i]);
        }
    }
    lemma_not_keyword(data);
}

/// The section of the voltage offset at the front is read as the field it
/// was written from.
proof fn lemma_section_voltage(value: Option<i32>, rest: Seq<Seq<u8>>, acc: Settings)
    ensures
        scan(scalar_section(Directive::VddgfxOffset, voltage_text(value)) + rest, 0, acc) == scan(
            rest,
            0,
            match value {
                Some(v) => Settings { voltage_offset: Some(v), ..acc },
                None => acc,
            },
        ),
{
    match value {
        Some(v) => {
            lemma_voltage_shape(v);
            lemma_parse_signed_of_decimal(v as int, -0x8000_0000, 0x7fff_ffff);
            lemma_scan_scalar(
                Directive::VddgfxOffset,
                voltage_text(Some(v))->0,
                rest,
                acc,
                Settings { voltage_offset: Some(v), ..acc },
            );
        },
        None => {
            assert(Seq::<Seq<u8>>::empty() + rest =~= rest);
        },
    }
}

/// What a line of a block looks like written out, and that its number is
/// read back from between the separator and the unit.
pub proof fn lemma_block_entry_shape(selector: u8, v: int)
    requires
        selector == 0x30 || selector == 0x31,
    ensures
        block_entry(selector, decimal_text(v)).len() >= 7,
        block_entry(selector, decimal_text(v))[0] == selector,
        block_number(block_entry(selector, decimal_text(v))) == decimal_text(v),
        is_plain_line(block_entry(selector, decimal_text(v))),
        directive_of(block_entry(selector, decimal_text(v))) is None,
{
    reveal_strlit(": ");
    is_ascii_chars_encode_utf8(": "@);
    assert(encode_utf8(": "@) =~= seq![0x3au8, 0x20u8]);
    reveal_strlit("Mhz");
    is_ascii_chars_encode_utf8("Mhz"@);
    assert(encode_utf8("Mhz"@) =~= seq![0x4du8, 0x68u8, 0x7au8]);
    let number = decimal_text(v);
    let line = block_entry(selector, number);
    lemma_decimal_shape(v);
    assert(line =~= seq![selector, 0x3au8, 0x20u8] + number + seq![0x4du8, 0x68u8, 0x7au8]);
    let tail = line.skip(3);
    assert(tail =~= number + seq![0x4du8, 0x68u8, 0x7au8]);
    assert forall|j: int| 0 <= j < number.len() implies tail[j] != 0x4d by {
        assert(tail[j] == number[j]);
    }
    assert(tail[number.len() as int] == 0x4d);
    lemma_marker_position(tail, 0x4d, number.len() as int);
    assert(tail.take(number.len() as int) =~= number);
    assert(line.last() == 0x7a);
    assert forall|i: int| 0 <= i < line.len() implies line[i] != 0x0a by {
        if 3 <= i < 3 + number.len() {
            assert(line[i] == number[i - 3]);
        }
    }
    lemma_not_keyword(line);
}

/// The section of the single clock offset at the front is read as the field
/// it was written from.
proof fn lemma_section_single(value: Option<i32>, rest: Seq<Seq<u8>>, acc: Settings)
    ensures
        scan(
            block_section(Directive::SclkOffset, None, number_text(from_i32(value))) + rest,
            0,
            acc,
        ) == scan(
            rest,
            0,
            match value {
                Some(v) => Settings { clock_offset_single: Some(v), ..acc },
                None => acc,
            },
        ),
{
    match value {
        Some(v) => {
            let entry = block_entry(0x31, decimal_text(v as int));
            lemma_block_entry_shape(0x31, v as int);
            lemma_parse_signed_of_decimal(v as int, -0x8000_0000, 0x7fff_ffff);
            let next = Settings { clock_offset_single: Some(v), ..acc };
            assert(block_line(Directive::SclkOffset, entry, acc) == BlockLine::Stored(next));
            lemma_scan_block_of_one(Directive::SclkOffset, entry, rest, acc, next);
            assert(block_section(Directive::SclkOffset, None, number_text(from_i32(value)))
                =~= seq![keyword(Directive::SclkOffset), entry, Seq::<u8>::empty()]);
        },
        None => {
            assert(Seq::<Seq<u8>>::empty() + rest =~= rest);
        },
    }
}

/// The settings with the lower number of a two-point block stored.
pub open spec fn with_low(d: Directive, value: Option<u32>, acc: Settings) -> Settings {
    match value {
        Some(v) => if d == Directive::Sclk {
            Settings { clock_offset_min: Some(v), ..acc }
        } else {
            Settings { memory_clock_min: Some(v), ..acc }
        },
        None => acc,
    }
}

/// The settings with the upper number of a two-point block stored.
pub open spec fn with_high(d: Directive, value: Option<u32>, acc: Settings) -> Settings {
    match value {
        Some(v) => if d == Directive::Sclk {
            Settings { clock_offset_max: Some(v), ..acc }
        } else {
            Settings { memory_clock_max: Some(v), ..acc }
        },
        None => acc,
    }
}

/// A line of a two-point block that was written out stores its number.
proof fn lemma_low_entry_stored(d: Directive, v: u32, acc: Settings)
    requires
        d == Directive::Sclk || d == Directive::Mclk,
    ensures
        block_line(d, block_entry(0x30, decimal_text(v as int)), acc) == BlockLine::Stored(
            with_low(d, Some(v), acc),
        ),
{
    lemma_block_entry_shape(0x30, v as int);
    lemma_parse_unsigned_of_decimal(v as nat, 0xffff_ffff);
}

/// A line of a two-point block that was written out stores its number.
proof fn lemma_high_entry_stored(d: Directive, v: u32, acc: Settings)
    requires
        d == Directive::Sclk || d == Directive::Mclk,
    ensures
        block_line(d, block_entry(0x31, decimal_text(v as int)), acc) == BlockLine::Stored(
            with_high(d, Some(v), acc),
        ),
{
    lemma_block_entry_shape(0x31, v as int);
    lemma_parse_unsigned_of_decimal(v as nat, 0xffff_ffff);
}

proof fn lemma_section_pair_both(d: Directive, a: u32, b: u32, rest: Seq<Seq<u8>>, acc: Settings)
    requires
        d == Directive::Sclk || d == Directive::Mclk,
    ensures
        scan(
            block_section(
                d,
                number_text(from_u32(Some(a))),
                number_text(from_u32(Some(b))),
            ) + rest,
            0,
            acc,
        ) == scan(rest, 0, with_high(d, Some(b), with_low(d, Some(a), acc))),
{
    let first = block_entry(0x30, decimal_text(a as int));
    let second = block_entry(0x31, decimal_text(b as int));
    let middle = with_low(d, Some(a), acc);
    let next = with_high(d, Some(b), middle);
    lemma_block_entry_shape(0x30, a as int);
    lemma_block_entry_shape(0x31, b as int);
    lemma_low_entry_stored(d, a, acc);
    lemma_high_entry_stored(d, b, middle);
    lemma_scan_block_of_two(d, first, second, rest, acc, middle, next);
    assert(block_section(d, number_text(from_u32(Some(a))), number_text(from_u32(Some(b))))
        =~= seq![keyword(d), first, second, Seq::<u8>::empty()]);
}

proof fn lemma_section_pair_low(d: Directive, a: u32, rest: Seq<Seq<u8>>, acc: Settings)
    requires
        d == Directive::Sclk || d == Directive::Mclk,
    ensures
        scan(
            block_section(d, number_text(from_u32(Some(a))), number_text(from_u32(None))) + rest,
            0,
            acc,
        ) == scan(rest, 0, with_low(d, Some(a), acc)),
{
    let first = block_entry(0x30, decimal_text(a as int));
    let next = with_low(d, Some(a), acc);
    lemma_block_entry_shape(0x30, a as int);
    lemma_low_entry_stored(d, a, acc);
    lemma_scan_block_of_one(d, first, rest, acc, next);
    assert(block_section(d, number_text(from_u32(Some(a))), number_text(from_u32(None)))
        =~= seq![keyword(d), first, Seq::<u8>::empty()]);
}

proof fn lemma_section_pair_high(d: Directive, b: u32, rest: Seq<Seq<u8>>, acc: Settings)
    requires
        d == Directive::Sclk || d == Directive::Mclk,
    ensures
        scan(
            block_section(d, number_text(from_u32(None)), number_text(from_u32(Some(b)))) + rest,
            0,
            acc,
        ) == scan(rest, 0, with_high(d, Some(b), acc)),
{
    let second = block_entry(0x31, decimal_text(b as int));
    let next = with_high(d, Some(b), acc);
    lemma_block_entry_shape(0x31, b as int);
    lemma_high_entry_stored(d, b, acc);
    lemma_scan_block_of_one(d, second, rest, acc, next);
    assert(block_section(d, number_text(from_u32(None)), number_text(from_u32(Some(b))))
        =~= seq![keyword(d), second, Seq::<u8>::empty()]);
}

/// The section of a two-point block at the front is read as the fields it
/// was written from.
proof fn lemma_section_pair(
    d: Directive,
    low: Option<u32>,
    high: Option<u32>,
    rest: Seq<Seq<u8>>,
    acc: Settings,
)
    requires
        d == Directive::Sclk || d == Directive::Mclk,
    ensures
        scan(
            block_section(d, number_text(from_u32(low)), number_text(from_u32(high))) + rest,
            0,
            acc,
        ) == scan(rest, 0, with_high(d, high, with_low(d, low, acc))),
{
    match (low, high) {
        (Some(a), Some(b)) => {
            lemma_section_pair_both(d, a, b, rest, acc);
        },
        (Some(a), None) => {
            lemma_section_pair_low(d, a, rest, acc);
        },
        (None, Some(b)) => {
            lemma_section_pair_high(d, b, rest, acc);
        },
        (None, None) => {
            assert(Seq::<Seq<u8>>::empty() + rest =~= rest);
        },
    }
}

/// A performance level that comes back as it was written: it holds no line
/// feed, does not end with a carriage return, and is not the keyword of a
/// one-line directive, white space apart.
pub open spec fn level_survives(level: Seq<u8>) -> bool {
    &&& is_plain_line(level)
    &&& match directive_of(level) {
        Some(d) => d.is_block(),
        None => true,
    }
}

/// Settings whose performance level, where present, comes back as it was
/// written.
pub open spec fn survives(s: Settings) -> bool {
    match s.performance_level {
        Some(level) => level_survives(level),
        None => true,
    }
}

/// The section of the performance level, the last of a profile, is read as
/// the field it was written from.
proof fn lemma_section_level(level: Option<Seq<u8>>, acc: Settings)
    requires
        match level {
            Some(text) => match directive_of(text) {
                Some(d) => d.is_block(),
                None => true,
            },
            None => true,
        },
    ensures
        scan(scalar_section(Directive::PerformanceLevel, level), 0, acc) == Ok::<
            Settings,
            FormatError,
        >(
            match level {
                Some(text) => Settings { performance_level: Some(text), ..acc },
                None => acc,
            },
        ),
{
    match level {
        Some(text) => {
            let d = Directive::PerformanceLevel;
            let next = Settings { performance_level: Some(text), ..acc };
            let lines = seq![keyword(d), text];
            lemma_keyword_recognised(d);
            assert(lines.skip(0) =~= lines);
            assert(lines[0] == keyword(d));
            assert(lines[1] == text);
            assert(read_scalar(d, lines, acc) == Ok::<Settings, FormatError>(next));
            assert(read_directive(lines, acc) == Ok::<Settings, FormatError>(next));
            assert(scan(lines, 0, acc) == scan(lines, 1, next));
            let tail = lines.skip(1);
            assert(tail[0] == text);
            assert(tail.len() == 1);
            match directive_of(text) {
                Some(other) => {
                    assert(read_block(other, tail, 1, next) == (
                        next,
                        Ok::<(), FormatError>(()),
                    ));
                },
                None => {},
            }
            assert(read_directive(tail, next) == Ok::<Settings, FormatError>(next));
            assert(scan(lines, 1, next) == scan(lines, 2, next));
        },
        None => {},
    }
}

/// What the device line looks like, and that the index is read back from
/// it.
pub proof fn lemma_device_line(index: u8)
    ensures
        device_index_of(seq![device_line(index)]) == Ok::<u8, FormatError>(index),
        is_plain_line(device_line(index)),
        directive_of(device_line(index)) is None,
{
    reveal_strlit("GPU#: ");
    is_ascii_chars_encode_utf8("GPU#: "@);
    assert(encode_utf8("GPU#: "@) =~= seq![0x47u8, 0x50u8, 0x55u8, 0x23u8, 0x3au8, 0x20u8]);
    let digits = decimal_digits(index as nat);
    let line = device_line(index);
    lemma_decimal_digits(index as nat);
    lemma_parse_unsigned_of_decimal(index as nat, 0xff);
    assert(line.skip(6) =~= digits);
    assert(line[4] == 0x3a);
    assert(line[0] == 0x47);
    assert(line.last() == digits.last());
    assert forall|i: int| 0 <= i < line.len() implies line[i] != 0x0a by {
        if i >= 6 {
            assert(line[i] == digits[i - 6]);
        }
    }
    lemma_not_keyword(line);
}

/// The lines of a profile after the device line, grouped from the end: each
/// directive's lines before all that follow them.
pub open spec fn profile_body(s: Settings) -> Seq<Seq<u8>> {
    scalar_section(Directive::PowerProfileIndex, number_text(from_u8(s.power_profile_index))) + (
    block_section(Directive::SclkOffset, None, number_text(from_i32(s.clock_offset_single))) + (
    block_section(
        Directive::Sclk,
        number_text(from_u32(s.clock_offset_min)),
        number_text(from_u32(s.clock_offset_max)),
    ) + (block_section(
        Directive::Mclk,
        number_text(from_u32(s.memory_clock_min)),
        number_text(from_u32(s.memory_clock_max)),
    ) + (scalar_section(Directive::VddgfxOffset, voltage_text(s.voltage_offset)) + (scalar_section(
        Directive::PowerCap,
        number_text(from_u64(s.power_cap)),
    ) + (scalar_section(
        Directive::FanTargetTemperature,
        number_text(from_u32(s.fan_target_temperature)),
    ) + (scalar_section(
        Directive::FanZeroRpmEnable,
        number_text(from_u8(s.fan_zero_rpm_enabled)),
    ) + (scalar_section(
        Directive::FanZeroRpmStopTemperature,
        number_text(from_u32(s.fan_zero_rpm_stop_temperature)),
    ) + scalar_section(Directive::PerformanceLevel, s.performance_level)))))))))
}

/// Concatenation may be grouped from either end.
proof fn lemma_regroup(
    l0: Seq<Seq<u8>>,
    s1: Seq<Seq<u8>>,
    s2: Seq<Seq<u8>>,
    s3: Seq<Seq<u8>>,
    s4: Seq<Seq<u8>>,
    s5: Seq<Seq<u8>>,
    s6: Seq<Seq<u8>>,
    s7: Seq<Seq<u8>>,
    s8: Seq<Seq<u8>>,
    s9: Seq<Seq<u8>>,
    s10: Seq<Seq<u8>>,
)
    ensures
        l0 + s1 + s2 + s3 + s4 + s5 + s6 + s7 + s8 + s9 + s10 == l0 + (s1 + (s2 + (s3 + (s4 + (s5
            + (s6 + (s7 + (s8 + (s9 + s10))))))))),
{
    let t10 = s10;
    let t9 = s9 + t10;
    let t8 = s8 + t9;
    let t7 = s7 + t8;
    let t6 = s6 + t7;
    let t5 = s5 + t6;
    let t4 = s4 + t5;
    let t3 = s3 + t4;
    let t2 = s2 + t3;
    let t1 = s1 + t2;
    let l1 = l0 + s1;
    let l2 = l1 + s2;
    let l3 = l2 + s3;
    let l4 = l3 + s4;
    let l5 = l4 + s5;
    let l6 = l5 + s6;
    let l7 = l6 + s7;
    let l8 = l7 + s8;
    let l9 = l8 + s9;
    assert(l9 + t10 =~= l8 + t9);
    assert(l8 + t9 =~= l7 + t8);
    assert(l7 + t8 =~= l6 + t7);
    assert(l6 + t7 =~= l5 + t6);
    assert(l5 + t6 =~= l4 + t5);
    assert(l4 + t5 =~= l3 + t4);
    assert(l3 + t4 =~= l2 + t3);
    assert(l2 + t3 =~= l1 + t2);
    assert(l1 + t2 =~= l0 + t1);
}

/// The lines of a profile are the device line and the body.
proof fn lemma_profile_lines_body(s: Settings)
    ensures
        profile_lines(s) == seq![device_line(s.device_index)] + profile_body(s),
{
    let s1 = scalar_section(
        Directive::PowerProfileIndex,
        number_text(from_u8(s.power_profile_index)),
    );
    let s2 = block_section(
        Directive::SclkOffset,
        None,
        number_text(from_i32(s.clock_offset_single)),
    );
    let s3 = block_section(
        Directive::Sclk,
        number_text(from_u32(s.clock_offset_min)),
        number_text(from_u32(s.clock_offset_max)),
    );
    let s4 = block_section(
        Directive::Mclk,
        number_text(from_u32(s.memory_clock_min)),
        number_text(from_u32(s.memory_clock_max)),
    );
    let s5 = scalar_section(Directive::VddgfxOffset, voltage_text(s.voltage_offset));
    let s6 = scalar_section(Directive::PowerCap, number_text(from_u64(s.power_cap)));
    let s7 = scalar_section(
        Directive::FanTargetTemperature,
        number_text(from_u32(s.fan_target_temperature)),
    );
    let s8 = scalar_section(
        Directive::FanZeroRpmEnable,
        number_text(from_u8(s.fan_zero_rpm_enabled)),
    );
    let s9 = scalar_section(
        Directive::FanZeroRpmStopTemperature,
        number_text(from_u32(s.fan_zero_rpm_stop_temperature)),
    );
    let s10 = scalar_section(Directive::PerformanceLevel, s.performance_level);
    lemma_regroup(seq![device_line(s.device_index)], s1, s2, s3, s4, s5, s6, s7, s8, s9, s10);
}

/// Reading the body of a profile that was written from `s`, from settings
/// that hold the device index alone, gives `s`.
proof fn lemma_scan_body(s: Settings)
    requires
        survives(s),
    ensures
        scan(profile_body(s), 0, Settings::unset(s.device_index)) == Ok::<Settings, FormatError>(
            s,
        ),
{
    let s1 = scalar_section(
        Directive::PowerProfileIndex,
        number_text(from_u8(s.power_profile_index)),
    );
    let s2 = block_section(
        Directive::SclkOffset,
        None,
        number_text(from_i32(s.clock_offset_single)),
    );
    let s3 = block_section(
        Directive::Sclk,
        number_text(from_u32(s.clock_offset_min)),
        number_text(from_u32(s.clock_offset_max)),
    );
    let s4 = block_section(
        Directive::Mclk,
        number_text(from_u32(s.memory_clock_min)),
        number_text(from_u32(s.memory_clock_max)),
    );
    let s5 = scalar_section(Directive::VddgfxOffset, voltage_text(s.voltage_offset));
    let s6 = scalar_section(Directive::PowerCap, number_text(from_u64(s.power_cap)));
    let s7 = scalar_section(
        Directive::FanTargetTemperature,
        number_text(from_u32(s.fan_target_temperature)),
    );
    let s8 = scalar_section(
        Directive::FanZeroRpmEnable,
        number_text(from_u8(s.fan_zero_rpm_enabled)),
    );
    let s9 = scalar_section(
        Directive::FanZeroRpmStopTemperature,
        number_text(from_u32(s.fan_zero_rpm_stop_temperature)),
    );
    let s10 = scalar_section(Directive::PerformanceLevel, s.performance_level);
    let t10 = s10;
    let t9 = s9 + t10;
    let t8 = s8 + t9;
    let t7 = s7 + t8;
    let t6 = s6 + t7;
    let t5 = s5 + t6;
    let t4 = s4 + t5;
    let t3 = s3 + t4;
    let t2 = s2 + t3;
    let t1 = s1 + t2;
    let a0 = Settings::unset(s.device_index);
    let a1 = Settings { power_profile_index: s.power_profile_index, ..a0 };
    let a2 = Settings { clock_offset_single: s.clock_offset_single, ..a1 };
    let a3 = Settings {
        clock_offset_min: s.clock_offset_min,
        clock_offset_max: s.clock_offset_max,
        ..a2
    };
    let a4 = Settings {
        memory_clock_min: s.memory_clock_min,
        memory_clock_max: s.memory_clock_max,
        ..a3
    };
    let a5 = Settings { voltage_offset: s.voltage_offset, ..a4 };
    let a6 = Settings { power_cap: s.power_cap, ..a5 };
    let a7 = Settings { fan_target_temperature: s.fan_target_temperature, ..a6 };
    let a8 = Settings { fan_zero_rpm_enabled: s.fan_zero_rpm_enabled, ..a7 };
    let a9 = Settings { fan_zero_rpm_stop_temperature: s.fan_zero_rpm_stop_temperature, ..a8 };
    let a10 = Settings { performance_level: s.performance_level, ..a9 };
    assert(a10 == s);
    assert(t1 == profile_body(s));
    assert(scan(t1, 0, a0) == scan(t2, 0, a1)) by {
        lemma_section_power_profile_index(s.power_profile_index, t2, a0);
    }
    assert(scan(t2, 0, a1) == scan(t3, 0, a2)) by {
        lemma_section_single(s.clock_offset_single, t3, a1);
    }
    assert(scan(t3, 0, a2) == scan(t4, 0, a3)) by {
        lemma_section_pair(Directive::Sclk, s.clock_offset_min, s.clock_offset_max, t4, a2);
        assert(with_high(
            Directive::Sclk,
            s.clock_offset_max,
            with_low(Directive::Sclk, s.clock_offset_min, a2),
        ) == a3);
    }
    assert(scan(t4, 0, a3) == scan(t5, 0, a4)) by {
        lemma_section_pair(Directive::Mclk, s.memory_clock_min, s.memory_clock_max, t5, a3);
        assert(with_high(
            Directive::Mclk,
            s.memory_clock_max,
            with_low(Directive::Mclk, s.memory_clock_min, a3),
        ) == a4);
    }
    assert(scan(t5, 0, a4) == scan(t6, 0, a5)) by {
        lemma_section_voltage(s.voltage_offset, t6, a4);
    }
    assert(scan(t6, 0, a5) == scan(t7, 0, a6)) by {
        lemma_section_power_cap(s.power_cap, t7, a5);
    }
    assert(scan(t7, 0, a6) == scan(t8, 0, a7)) by {
        lemma_section_fan_target(s.fan_target_temperature, t8, a6);
    }
    assert(scan(t8, 0, a7) == scan(t9, 0, a8)) by {
        lemma_section_fan_zero_rpm(s.fan_zero_rpm_enabled, t9, a7);
    }
    assert(scan(t9, 0, a8) == scan(t10, 0, a9)) by {
        lemma_section_fan_stop(s.fan_zero_rpm_stop_temperature, t10, a8);
    }
    assert(scan(t10, 0, a9) == Ok::<Settings, FormatError>(a10)) by {
        lemma_section_level(s.performance_level, a9);
    }
}

/// Reading the lines of a profile that was written from `s` gives `s` back.
pub proof fn lemma_parse_lines_of_profile(s: Settings)
    requires
        survives(s),
    ensures
        parse_lines_spec(profile_lines(s)) == Ok::<Settings, FormatError>(s),
{
    let first = device_line(s.device_index);
    let body = profile_body(s);
    let lines = profile_lines(s);
    let start = Settings::unset(s.device_index);
    lemma_profile_lines_body(s);
    lemma_device_line(s.device_index);
    assert(lines[0] == first);
    assert(device_index_of(lines) == device_index_of(seq![first]));
    lemma_scan_passes(first, body, start);
    lemma_scan_body(s);
}

/// Lines that each survive being written out and split again.
pub open spec fn all_plain(lines: Seq<Seq<u8>>) -> bool {
    forall|i: int| 0 <= i < lines.len() ==> is_plain_line(#[trigger] lines[i])
}

proof fn lemma_plain_concat(a: Seq<Seq<u8>>, b: Seq<Seq<u8>>)
    requires
        all_plain(a),
        all_plain(b),
    ensures
        all_plain(a + b),
{
    assert forall|i: int| 0 <= i < (a + b).len() implies is_plain_line(#[trigger] (a + b)[i]) by {
        if i < a.len() {
            assert((a + b)[i] == a[i]);
        } else {
            assert((a + b)[i] == b[i - a.len()]);
        }
    }
}

proof fn lemma_plain_scalar(d: Directive, data: Option<Seq<u8>>)
    requires
        match data {
            Some(text) => is_plain_line(text),
            None => true,
        },
    ensures
        all_plain(scalar_section(d, data)),
{
    lemma_keyword_shape(d);
}

proof fn lemma_plain_number(value: Option<int>)
    ensures
        match number_text(value) {
            Some(text) => is_plain_line(text),
            None => true,
        },
{
    match value {
        Some(v) => {
            lemma_decimal_shape(v);
        },
        None => {},
    }
}

proof fn lemma_plain_block(d: Directive, low: Option<int>, high: Option<int>)
    ensures
        all_plain(block_section(d, number_text(low), number_text(high))),
{
    lemma_keyword_shape(d);
    let head = seq![keyword(d)];
    let first = block_entries(0x30, number_text(low));
    let second = block_entries(0x31, number_text(high));
    let blank = seq![Seq::<u8>::empty()];
    match low {
        Some(v) => {
            lemma_block_entry_shape(0x30, v);
        },
        None => {},
    }
    match high {
        Some(v) => {
            lemma_block_entry_shape(0x31, v);
        },
        None => {},
    }
    assert(all_plain(head));
    assert(all_plain(first));
    assert(all_plain(second));
    assert(all_plain(blank));
    lemma_plain_concat(head, first);
    lemma_plain_concat(head + first, second);
    lemma_plain_concat(head + first + second, blank);
}

/// Every line of a profile that was written from settings that survive is a
/// line that survives being split.
pub proof fn lemma_profile_lines_plain(s: Settings)
    requires
        survives(s),
    ensures
        all_plain(profile_lines(s)),
{
    let s1 = scalar_section(
        Directive::PowerProfileIndex,
        number_text(from_u8(s.power_profile_index)),
    );
    let s2 = block_section(
        Directive::SclkOffset,
        None,
        number_text(from_i32(s.clock_offset_single)),
    );
    let s3 = block_section(
        Directive::Sclk,
        number_text(from_u32(s.clock_offset_min)),
        number_text(from_u32(s.clock_offset_max)),
    );
    let s4 = block_section(
        Directive::Mclk,
        number_text(from_u32(s.memory_clock_min)),
        number_text(from_u32(s.memory_clock_max)),
    );
    let s5 = scalar_section(Directive::VddgfxOffset, voltage_text(s.voltage_offset));
    let s6 = scalar_section(Directive::PowerCap, number_text(from_u64(s.power_cap)));
    let s7 = scalar_section(
        Directive::FanTargetTemperature,
        number_text(from_u32(s.fan_target_temperature)),
    );
    let s8 = scalar_section(
        Directive::FanZeroRpmEnable,
        number_text(from_u8(s.fan_zero_rpm_enabled)),
    );
    let s9 = scalar_section(
        Directive::FanZeroRpmStopTemperature,
        number_text(from_u32(s.fan_zero_rpm_stop_temperature)),
    );
    let s10 = scalar_section(Directive::PerformanceLevel, s.performance_level);
    let l0 = seq![device_line(s.device_index)];
    lemma_device_line(s.device_index);
    assert(all_plain(l0));
    lemma_plain_number(from_u8(s.power_profile_index));
    lemma_plain_scalar(Directive::PowerProfileIndex, number_text(from_u8(s.power_profile_index)));
    lemma_plain_concat(l0, s1);
    assert(number_text(None) == None::<Seq<u8>>);
    lemma_plain_block(Directive::SclkOffset, None, from_i32(s.clock_offset_single));
    lemma_plain_concat(l0 + s1, s2);
    lemma_plain_block(Directive::Sclk, from_u32(s.clock_offset_min), from_u32(s.clock_offset_max));
    lemma_plain_concat(l0 + s1 + s2, s3);
    lemma_plain_block(Directive::Mclk, from_u32(s.memory_clock_min), from_u32(s.memory_clock_max));
    lemma_plain_concat(l0 + s1 + s2 + s3, s4);
    match s.voltage_offset {
        Some(v) => {
            lemma_voltage_shape(v);
        },
        None => {},
    }
    lemma_plain_scalar(Directive::VddgfxOffset, voltage_text(s.voltage_offset));
    lemma_plain_concat(l0 + s1 + s2 + s3 + s4, s5);
    lemma_plain_number(from_u64(s.power_cap));
    lemma_plain_scalar(Directive::PowerCap, number_text(from_u64(s.power_cap)));
    lemma_plain_concat(l0 + s1 + s2 + s3 + s4 + s5, s6);
    lemma_plain_number(from_u32(s.fan_target_temperature));
    lemma_plain_scalar(
        Directive::FanTargetTemperature,
        number_text(from_u32(s.fan_target_temperature)),
    );
    lemma_plain_concat(l0 + s1 + s2 + s3 + s4 + s5 + s6, s7);
    lemma_plain_number(from_u8(s.fan_zero_rpm_enabled));
    lemma_plain_scalar(Directive::FanZeroRpmEnable, number_text(from_u8(s.fan_zero_rpm_enabled)));
    lemma_plain_concat(l0 + s1 + s2 + s3 + s4 + s5 + s6 + s7, s8);
    lemma_plain_number(from_u32(s.fan_zero_rpm_stop_temperature));
    lemma_plain_scalar(
        Directive::FanZeroRpmStopTemperature,
        number_text(from_u32(s.fan_zero_rpm_stop_temperature)),
    );
    lemma_plain_concat(l0 + s1 + s2 + s3 + s4 + s5 + s6 + s7 + s8, s9);
    lemma_plain_scalar(Directive::PerformanceLevel, s.performance_level);
    lemma_plain_concat(l0 + s1 + s2 + s3 + s4 + s5 + s6 + s7 + s8 + s9, s10);
}

/// Writing settings out and reading the text back loses nothing: every
/// field that was present comes back with its value, and every absent field
/// comes back absent. This holds of all settings whose performance level,
/// where present, survives: one that holds a line feed, ends with a carriage
/// return or is the keyword of a one-line directive does not come back.
pub proof fn lemma_round_trip(s: Settings)
    requires
        survives(s),
    ensures
        parse_spec(profile_text(s)) == Ok::<Settings, FormatError>(s),
{
    lemma_profile_lines_plain(s);
    lemma_split_join(profile_lines(s));
    lemma_parse_lines_of_profile(s);
}

/// A line that holds no line feed.
pub open spec fn has_no_feed(line: Seq<u8>) -> bool {
    forall|j: int| 0 <= j < line.len() ==> line[j] != 0x0a
}

/// A performance level that is absent or holds no line feed.
pub open spec fn level_has_no_feed(s: Settings) -> bool {
    match s.performance_level {
        Some(level) => has_no_feed(level),
        None => true,
    }
}

/// The first marker lies within the sequence and nothing before it is the
/// marker.
pub proof fn lemma_marker_first(s: Seq<u8>, marker: u8)
    ensures
        0 <= marker_position(s, marker) <= s.len(),
        forall|j: int| 0 <= j < marker_position(s, marker) ==> s[j] != marker,
    decreases s.len(),
{
    if s.len() > 0 && s[0] != marker {
        let rest = s.drop_first();
        lemma_marker_first(rest, marker);
        assert forall|j: int| 0 <= j < marker_position(s, marker) implies s[j] != marker by {
            if j > 0 {
                assert(s[j] == rest[j - 1]);
            }
        }
    }
}

/// No line of a text holds a line feed.
pub proof fn lemma_split_lines_no_feed(t: Seq<u8>)
    ensures
        forall|i: int| 0 <= i < split_lines(t).len() ==> has_no_feed(#[trigger] split_lines(t)[i]),
    decreases t.len(),
{
    let n = marker_position(t, 0x0a);
    lemma_marker_first(t, 0x0a);
    if t.len() > 0 {
        if n < t.len() {
            let head = t.take(n);
            let line = if head.len() > 0 && head.last() == 0x0d {
                head.drop_last()
            } else {
                head
            };
            let rest = split_lines(t.skip(n + 1));
            lemma_split_lines_no_feed(t.skip(n + 1));
            assert forall|j: int| 0 <= j < line.len() implies line[j] != 0x0a by {
                assert(line[j] == t[j]);
            }
            assert(has_no_feed(line));
            assert forall|i: int| 0 <= i < split_lines(t).len() implies has_no_feed(
                #[trigger] split_lines(t)[i],
            ) by {
                if i > 0 {
                    assert(split_lines(t)[i] == rest[i - 1]);
                }
            }
        } else {
            assert(has_no_feed(t));
        }
    }
}

/// A block leaves the performance level as it is.
pub proof fn lemma_block_keeps_level(d: Directive, tail: Seq<Seq<u8>>, i: int, acc: Settings)
    ensures
        read_block(d, tail, i, acc).0.performance_level == acc.performance_level,
    decreases tail.len() - i,
{
    if !(i < 0 || i >= tail.len() || tail[i].len() == 0) {
        match block_line(d, tail[i], acc) {
            BlockLine::Stored(next) => {
                lemma_block_keeps_level(d, tail, i + 1, next);
            },
            _ => {},
        }
    }
}

/// A performance level that was read from lines without a line feed holds
/// none.
pub proof fn lemma_scan_level_has_no_feed(lines: Seq<Seq<u8>>, i: int, acc: Settings)
    requires
        forall|k: int| 0 <= k < lines.len() ==> has_no_feed(#[trigger] lines[k]),
        level_has_no_feed(acc),
    ensures
        match scan(lines, i, acc) {
            Ok(r) => level_has_no_feed(r),
            Err(_) => true,
        },
    decreases lines.len() - i,
{
    if 0 <= i < lines.len() {
        let tail = lines.skip(i);
        match read_directive(tail, acc) {
            Ok(next) => {
                match directive_of(tail[0]) {
                    Some(d) => {
                        if d.is_block() {
                            lemma_block_keeps_level(d, tail, 1, acc);
                        } else if tail.len() >= 2 {
                            assert(tail[1] == lines[i + 1]);
                        }
                    },
                    None => {},
                }
                assert(level_has_no_feed(next));
                lemma_scan_level_has_no_feed(lines, i + 1, next);
            },
            Err(_) => {},
        }
    }
}

/// A performance level that does not come back from a profile as it was
/// read from one: it ends with a carriage return, or it is the keyword of a
/// one-line directive, white space apart.
pub open spec fn level_is_lost(level: Seq<u8>) -> bool {
    ||| level.len() > 0 && level.last() == 0x0d
    ||| match directive_of(level) {
        Some(d) => !d.is_block(),
        None => false,
    }
}

/// Parsing a profile, writing the settings out and parsing them again gives
/// the same settings: every field that the profile set comes back with its
/// value and no other field is set. This holds of every profile that parses,
/// but for those whose performance level is lost on the way.
pub proof fn lemma_profile_round_trip(text: Seq<u8>, s: Settings)
    requires
        parse_spec(text) == Ok::<Settings, FormatError>(s),
        match s.performance_level {
            Some(level) => !level_is_lost(level),
            None => true,
        },
    ensures
        parse_spec(profile_text(s)) == parse_spec(text),
{
    let lines = split_lines(text);
    lemma_split_lines_no_feed(text);
    match device_index_of(lines) {
        Ok(index) => {
            lemma_scan_level_has_no_feed(lines, 0, Settings::unset(index));
        },
        Err(_) => {},
    }
    assert(level_has_no_feed(s));
    assert(survives(s));
    lemma_round_trip(s);
}

} // verus!
