//! The profile format: a first line that names the device, then keyword
//! lines, each followed by its data.
//!
//! Every line is looked at as a possible keyword, data lines included; a
//! line that is no keyword is passed over. A keyword is recognised with the
//! white space around it removed; data is taken as it stands.

use vstd::prelude::*;
use vstd::slice::slice_subrange;
use vstd::utf8::*;
use crate::decimal::{
    parse_i32, parse_i32_spec, parse_u32, parse_u32_spec, parse_u64, parse_u64_spec, parse_u8,
    parse_u8_spec,
};
use crate::settings::{DeviceSettings, Directive, FormatError, Settings};
use crate::text::{
    before_marker, bytes_equal, find_marker, lines_bytes, lines_of, split_lines, trim, trim_bounds,
};

verus! {

/// The keyword line of a directive.
pub open spec fn keyword(d: Directive) -> Seq<u8> {
    match d {
        Directive::PerformanceLevel => encode_utf8("PERFORMANCE_LEVEL:"@),
        Directive::PowerProfileIndex => encode_utf8("POWER_PROFILE_INDEX:"@),
        Directive::SclkOffset => encode_utf8("OD_SCLK_OFFSET:"@),
        Directive::Sclk => encode_utf8("OD_SCLK:"@),
        Directive::Mclk => encode_utf8("OD_MCLK:"@),
        Directive::VddgfxOffset => encode_utf8("OD_VDDGFX_OFFSET:"@),
        Directive::PowerCap => encode_utf8("POWER_CAP:"@),
        Directive::FanTargetTemperature => encode_utf8("FAN_TARGET_TEMPERATURE:"@),
        Directive::FanZeroRpmEnable => encode_utf8("FAN_ZERO_RPM_ENABLE:"@),
        Directive::FanZeroRpmStopTemperature => encode_utf8("FAN_ZERO_RPM_STOP_TEMPERATURE:"@),
    }
}

/// The directive that `line` opens, if it is a keyword line.
pub open spec fn directive_of(line: Seq<u8>) -> Option<Directive> {
    let word = trim(line);
    if word == keyword(Directive::PerformanceLevel) {
        Some(Directive::PerformanceLevel)
    } else if word == keyword(Directive::PowerProfileIndex) {
        Some(Directive::PowerProfileIndex)
    } else if word == keyword(Directive::SclkOffset) {
        Some(Directive::SclkOffset)
    } else if word == keyword(Directive::Sclk) {
        Some(Directive::Sclk)
    } else if word == keyword(Directive::Mclk) {
        Some(Directive::Mclk)
    } else if word == keyword(Directive::VddgfxOffset) {
        Some(Directive::VddgfxOffset)
    } else if word == keyword(Directive::PowerCap) {
        Some(Directive::PowerCap)
    } else if word == keyword(Directive::FanTargetTemperature) {
        Some(Directive::FanTargetTemperature)
    } else if word == keyword(Directive::FanZeroRpmEnable) {
        Some(Directive::FanZeroRpmEnable)
    } else if word == keyword(Directive::FanZeroRpmStopTemperature) {
        Some(Directive::FanZeroRpmStopTemperature)
    } else {
        None
    }
}

/// The device index that the first line names: the line's first four bytes
/// are a token that ends on a character boundary, two more bytes separate,
/// and the rest is the index.
pub open spec fn device_index_of(lines: Seq<Seq<u8>>) -> Result<u8, FormatError> {
    if lines.len() == 0 {
        Err(FormatError::MissingDeviceLine)
    } else if lines[0].len() < 6 || is_continuation_byte(lines[0][4]) {
        Err(FormatError::InvalidDeviceLine)
    } else {
        match parse_u8_spec(lines[0].skip(6)) {
            Some(index) => Ok(index),
            None => Err(FormatError::InvalidDeviceLine),
        }
    }
}

/// The settings `s` with the data line of the one-line directive `d` stored,
/// or `None` when `data` is no value of the directive's type. The voltage
/// offset is read up to the first `m`, so that a unit may follow it; every
/// other number takes the whole line.
pub open spec fn store_scalar(d: Directive, data: Seq<u8>, s: Settings) -> Option<Settings> {
    match d {
        Directive::PerformanceLevel => Some(Settings { performance_level: Some(data), ..s }),
        Directive::PowerProfileIndex => match parse_u8_spec(data) {
            Some(v) => Some(Settings { power_profile_index: Some(v), ..s }),
            None => None,
        },
        Directive::VddgfxOffset => match parse_i32_spec(before_marker(data, 0x6d)) {
            Some(v) => Some(Settings { voltage_offset: Some(v), ..s }),
            None => None,
        },
        Directive::PowerCap => match parse_u64_spec(data) {
            Some(v) => Some(Settings { power_cap: Some(v), ..s }),
            None => None,
        },
        Directive::FanTargetTemperature => match parse_u32_spec(data) {
            Some(v) => Some(Settings { fan_target_temperature: Some(v), ..s }),
            None => None,
        },
        Directive::FanZeroRpmEnable => match parse_u8_spec(data) {
            Some(v) => Some(Settings { fan_zero_rpm_enabled: Some(v), ..s }),
            None => None,
        },
        Directive::FanZeroRpmStopTemperature => match parse_u32_spec(data) {
            Some(v) => Some(Settings { fan_zero_rpm_stop_temperature: Some(v), ..s }),
            None => None,
        },
        _ => None,
    }
}

/// A one-line directive read from `tail`, whose first line is the keyword
/// and whose second is the data.
pub open spec fn read_scalar(d: Directive, tail: Seq<Seq<u8>>, s: Settings) -> Result<
    Settings,
    FormatError,
> {
    if tail.len() < 2 {
        Err(FormatError::MissingValue(d))
    } else {
        match store_scalar(d, tail[1], s) {
            Some(next) => Ok(next),
            None => Err(FormatError::InvalidValue(d)),
        }
    }
}

/// What a function that reads a one-line directive into `&mut` settings
/// leaves: the settings with the value stored, or the error and the
/// settings as they were.
pub open spec fn scalar_outcome(
    d: Directive,
    tail: Seq<Seq<u8>>,
    before: Settings,
    after: Settings,
    r: Result<(), FormatError>,
) -> bool {
    match read_scalar(d, tail, before) {
        Ok(next) => r is Ok && after == next,
        Err(e) => r == Err::<(), FormatError>(e) && after == before,
    }
}

/// What one line of a block does.
pub enum BlockLine {
    /// The line's number is stored.
    Stored(Settings),
    /// The number is well formed and the selector is unknown.
    UnknownSelector,
    /// The line is shorter than three bytes or its number is malformed.
    Malformed,
}

/// The text of a block line's number: from offset 3 to the first `M`.
pub open spec fn block_number(line: Seq<u8>) -> Seq<u8>
    recommends
        line.len() >= 3,
{
    before_marker(line.skip(3), 0x4d)
}

/// One line of the block of `d`. The number is read before the selector is
/// looked at, so a malformed number counts whatever the selector is. The
/// selector `0` stores a minimum and `1` a maximum; the single clock offset
/// knows `1` alone.
pub open spec fn block_line(d: Directive, line: Seq<u8>, s: Settings) -> BlockLine
    recommends
        line.len() > 0,
{
    if line.len() < 3 {
        BlockLine::Malformed
    } else if d == Directive::SclkOffset {
        match parse_i32_spec(block_number(line)) {
            None => BlockLine::Malformed,
            Some(v) => if line[0] == 0x31 {
                BlockLine::Stored(Settings { clock_offset_single: Some(v), ..s })
            } else {
                BlockLine::UnknownSelector
            },
        }
    } else {
        match parse_u32_spec(block_number(line)) {
            None => BlockLine::Malformed,
            Some(v) => if line[0] == 0x30 && d == Directive::Sclk {
                BlockLine::Stored(Settings { clock_offset_min: Some(v), ..s })
            } else if line[0] == 0x31 && d == Directive::Sclk {
                BlockLine::Stored(Settings { clock_offset_max: Some(v), ..s })
            } else if line[0] == 0x30 && d == Directive::Mclk {
                BlockLine::Stored(Settings { memory_clock_min: Some(v), ..s })
            } else if line[0] == 0x31 && d == Directive::Mclk {
                BlockLine::Stored(Settings { memory_clock_max: Some(v), ..s })
            } else {
                BlockLine::UnknownSelector
            },
        }
    }
}

/// The block of `d` read from line `i` of `tail` on: the settings it leaves
/// and how it ended. A block ends well at the first empty line or with the
/// profile. A line with an unknown selector ends it with `InvalidSelector`
/// and a malformed line with `InvalidValue`; either way the lines before
/// count, and the rest of the block is not read.
pub open spec fn read_block(d: Directive, tail: Seq<Seq<u8>>, i: int, s: Settings) -> (
    Settings,
    Result<(), FormatError>,
)
    decreases tail.len() - i,
{
    if i < 0 || i >= tail.len() || tail[i].len() == 0 {
        (s, Ok(()))
    } else {
        match block_line(d, tail[i], s) {
            BlockLine::Stored(next) => read_block(d, tail, i + 1, next),
            BlockLine::UnknownSelector => (s, Err(FormatError::InvalidSelector(d))),
            BlockLine::Malformed => (s, Err(FormatError::InvalidValue(d))),
        }
    }
}

/// The directive that the first line of `tail` opens, read into `s`. A line
/// that is no keyword changes nothing. A block that ends at an unknown
/// selector is taken as far as it was read, without an error.
pub open spec fn read_directive(tail: Seq<Seq<u8>>, s: Settings) -> Result<Settings, FormatError>
    recommends
        tail.len() > 0,
{
    match directive_of(tail[0]) {
        None => Ok(s),
        Some(d) => if d.is_block() {
            match read_block(d, tail, 1, s).1 {
                Err(e) => if e.is_fatal() {
                    Err(e)
                } else {
                    Ok(read_block(d, tail, 1, s).0)
                },
                Ok(_) => Ok(read_block(d, tail, 1, s).0),
            }
        } else {
            read_scalar(d, tail, s)
        },
    }
}

/// The settings after every line from `i` on has been looked at as a
/// keyword, in order, starting from `s`.
pub open spec fn scan(lines: Seq<Seq<u8>>, i: int, s: Settings) -> Result<Settings, FormatError>
    decreases lines.len() - i,
{
    if i < 0 || i >= lines.len() {
        Ok(s)
    } else {
        match read_directive(lines.skip(i), s) {
            Ok(next) => scan(lines, i + 1, next),
            Err(e) => Err(e),
        }
    }
}

/// The settings that the lines of a profile denote.
pub open spec fn parse_lines_spec(lines: Seq<Seq<u8>>) -> Result<Settings, FormatError> {
    match device_index_of(lines) {
        Ok(index) => scan(lines, 0, Settings::unset(index)),
        Err(e) => Err(e),
    }
}

/// The settings that the text of a profile denotes.
pub open spec fn parse_spec(text: Seq<u8>) -> Result<Settings, FormatError> {
    parse_lines_spec(split_lines(text))
}

/// Whether the result `r` of a parser is what `expected` says.
pub open spec fn parsed_as(
    r: Result<DeviceSettings, FormatError>,
    expected: Result<Settings, FormatError>,
) -> bool {
    match expected {
        Ok(s) => r matches Ok(config) && config@ == s,
        Err(e) => r matches Err(f) && f == e,
    }
}

/// The text of a directive's keyword line.
pub fn keyword_text(d: Directive) -> (r: &'static str)
    ensures
        encode_utf8(r@) == keyword(d),
{
    match d {
        Directive::PerformanceLevel => "PERFORMANCE_LEVEL:",
        Directive::PowerProfileIndex => "POWER_PROFILE_INDEX:",
        Directive::SclkOffset => "OD_SCLK_OFFSET:",
        Directive::Sclk => "OD_SCLK:",
        Directive::Mclk => "OD_MCLK:",
        Directive::VddgfxOffset => "OD_VDDGFX_OFFSET:",
        Directive::PowerCap => "POWER_CAP:",
        Directive::FanTargetTemperature => "FAN_TARGET_TEMPERATURE:",
        Directive::FanZeroRpmEnable => "FAN_ZERO_RPM_ENABLE:",
        Directive::FanZeroRpmStopTemperature => "FAN_ZERO_RPM_STOP_TEMPERATURE:",
    }
}

fn is_keyword(word: &[u8], d: Directive) -> (r: bool)
    ensures
        r == (word@ == keyword(d)),
{
    bytes_equal(word, keyword_text(d).as_bytes())
}

/// The directive that `line` opens, if it is a keyword line.
pub fn directive_at(line: &str) -> (r: Option<Directive>)
    ensures
        r == directive_of(encode_utf8(line@)),
{
    let bytes = line.as_bytes();
    let (start, end) = trim_bounds(bytes);
    let word = slice_subrange(bytes, start, end);
    if is_keyword(word, Directive::PerformanceLevel) {
        Some(Directive::PerformanceLevel)
    } else if is_keyword(word, Directive::PowerProfileIndex) {
        Some(Directive::PowerProfileIndex)
    } else if is_keyword(word, Directive::SclkOffset) {
        Some(Directive::SclkOffset)
    } else if is_keyword(word, Directive::Sclk) {
        Some(Directive::Sclk)
    } else if is_keyword(word, Directive::Mclk) {
        Some(Directive::Mclk)
    } else if is_keyword(word, Directive::VddgfxOffset) {
        Some(Directive::VddgfxOffset)
    } else if is_keyword(word, Directive::PowerCap) {
        Some(Directive::PowerCap)
    } else if is_keyword(word, Directive::FanTargetTemperature) {
        Some(Directive::FanTargetTemperature)
    } else if is_keyword(word, Directive::FanZeroRpmEnable) {
        Some(Directive::FanZeroRpmEnable)
    } else if is_keyword(word, Directive::FanZeroRpmStopTemperature) {
        Some(Directive::FanZeroRpmStopTemperature)
    } else {
        None
    }
}

/// Reads the device index from the first line of a profile.
pub fn parse_device_index(lines: &[String]) -> (r: Result<u8, FormatError>)
    ensures
        r == device_index_of(lines_bytes(lines@)),
{
    if lines.len() == 0 {
        return Err(FormatError::MissingDeviceLine);
    }
    let bytes = lines[0].as_str().as_bytes();
    if bytes.len() < 6 || (0x80 <= bytes[4] && bytes[4] <= 0xbf) {
        return Err(FormatError::InvalidDeviceLine);
    }
    assert(bytes@.subrange(6, bytes@.len() as int) =~= bytes@.skip(6));
    match parse_u8(slice_subrange(bytes, 6, bytes.len())) {
        Some(index) => Ok(index),
        None => Err(FormatError::InvalidDeviceLine),
    }
}

/// Reads the performance level: the line after the keyword, as it stands.
pub fn parse_performance_level(config: &mut DeviceSettings, lines: &[String]) -> (r: Result<
    (),
    FormatError,
>)
    ensures
        scalar_outcome(
            Directive::PerformanceLevel,
            lines_bytes(lines@),
            old(config)@,
            final(config)@,
            r,
        ),
{
    if lines.len() < 2 {
        return Err(FormatError::MissingValue(Directive::PerformanceLevel));
    }
    config.performance_level = Some(lines[1].clone());
    Ok(())
}

/// Reads the power profile index: the line after the keyword, a `u8`.
pub fn parse_power_profile_index(config: &mut DeviceSettings, lines: &[String]) -> (r: Result<
    (),
    FormatError,
>)
    ensures
        scalar_outcome(
            Directive::PowerProfileIndex,
            lines_bytes(lines@),
            old(config)@,
            final(config)@,
            r,
        ),
{
    if lines.len() < 2 {
        return Err(FormatError::MissingValue(Directive::PowerProfileIndex));
    }
    match parse_u8(lines[1].as_str().as_bytes()) {
        Some(v) => {
            config.power_profile_index = Some(v);
            Ok(())
        },
        None => Err(FormatError::InvalidValue(Directive::PowerProfileIndex)),
    }
}

/// Reads the voltage offset: the line after the keyword up to its first
/// `m`, an `i32`.
pub fn parse_od_vddgfx_offset(config: &mut DeviceSettings, lines: &[String]) -> (r: Result<
    (),
    FormatError,
>)
    ensures
        scalar_outcome(
            Directive::VddgfxOffset,
            lines_bytes(lines@),
            old(config)@,
            final(config)@,
            r,
        ),
{
    if lines.len() < 2 {
        return Err(FormatError::MissingValue(Directive::VddgfxOffset));
    }
    let bytes = lines[1].as_str().as_bytes();
    let end: usize = find_marker(bytes, 0, 0x6d);
    assert(bytes@.skip(0) =~= bytes@);
    assert(bytes@.subrange(0, end as int) =~= before_marker(bytes@, 0x6d));
    match parse_i32(slice_subrange(bytes, 0, end)) {
        Some(v) => {
            config.voltage_offset = Some(v);
            Ok(())
        },
        None => Err(FormatError::InvalidValue(Directive::VddgfxOffset)),
    }
}

/// Reads the power cap: the line after the keyword, a `u64`.
pub fn parse_power_cap(config: &mut DeviceSettings, lines: &[String]) -> (r: Result<
    (),
    FormatError,
>)
    ensures
        scalar_outcome(Directive::PowerCap, lines_bytes(lines@), old(config)@, final(config)@, r),
{
    if lines.len() < 2 {
        return Err(FormatError::MissingValue(Directive::PowerCap));
    }
    match parse_u64(lines[1].as_str().as_bytes()) {
        Some(v) => {
            config.power_cap = Some(v);
            Ok(())
        },
        None => Err(FormatError::InvalidValue(Directive::PowerCap)),
    }
}

/// Reads the fan's target temperature: the line after the keyword, a `u32`.
pub fn parse_fan_target_temp(config: &mut DeviceSettings, lines: &[String]) -> (r: Result<
    (),
    FormatError,
>)
    ensures
        scalar_outcome(
            Directive::FanTargetTemperature,
            lines_bytes(lines@),
            old(config)@,
            final(config)@,
            r,
        ),
{
    if lines.len() < 2 {
        return Err(FormatError::MissingValue(Directive::FanTargetTemperature));
    }
    match parse_u32(lines[1].as_str().as_bytes()) {
        Some(v) => {
            config.fan_target_temperature = Some(v);
            Ok(())
        },
        None => Err(FormatError::InvalidValue(Directive::FanTargetTemperature)),
    }
}

/// Reads the zero-RPM flag: the line after the keyword, a `u8`.
pub fn parse_fan_zero_rpm(config: &mut DeviceSettings, lines: &[String]) -> (r: Result<
    (),
    FormatError,
>)
    ensures
        scalar_outcome(
            Directive::FanZeroRpmEnable,
            lines_bytes(lines@),
            old(config)@,
            final(config)@,
            r,
        ),
{
    if lines.len() < 2 {
        return Err(FormatError::MissingValue(Directive::FanZeroRpmEnable));
    }
    match parse_u8(lines[1].as_str().as_bytes()) {
        Some(v) => {
            config.fan_zero_rpm_enabled = Some(v);
            Ok(())
        },
        None => Err(FormatError::InvalidValue(Directive::FanZeroRpmEnable)),
    }
}

/// Reads the zero-RPM stop temperature: the line after the keyword, a `u32`.
pub fn parse_fan_zero_rpm_stop_temp(config: &mut DeviceSettings, lines: &[String]) -> (r: Result<
    (),
    FormatError,
>)
    ensures
        scalar_outcome(
            Directive::FanZeroRpmStopTemperature,
            lines_bytes(lines@),
            old(config)@,
            final(config)@,
            r,
        ),
{
    if lines.len() < 2 {
        return Err(FormatError::MissingValue(Directive::FanZeroRpmStopTemperature));
    }
    match parse_u32(lines[1].as_str().as_bytes()) {
        Some(v) => {
            config.fan_zero_rpm_stop_temperature = Some(v);
            Ok(())
        },
        None => Err(FormatError::InvalidValue(Directive::FanZeroRpmStopTemperature)),
    }
}

/// Reads the block of `d`: the lines after the keyword, up to the first
/// empty one.
fn parse_block(config: &mut DeviceSettings, lines: &[String], d: Directive) -> (r: Result<
    (),
    FormatError,
>)
    requires
        d.is_block(),
    ensures
        (final(config)@, r) == read_block(d, lines_bytes(lines@), 1, old(config)@),
{
    let ghost tail = lines_bytes(lines@);
    let ghost start = config@;
    let mut i: usize = 1;
    while i < lines.len()
        invariant
            1 <= i,
            d.is_block(),
            tail == lines_bytes(lines@),
            start == old(config)@,
            read_block(d, tail, 1, start) == read_block(d, tail, i as int, config@),
        decreases lines.len() - i,
    {
        let bytes = lines[i].as_str().as_bytes();
        assert(bytes@ == tail[i as int]);
        if bytes.len() == 0 {
            return Ok(());
        }
        if bytes.len() < 3 {
            return Err(FormatError::InvalidValue(d));
        }
        let end: usize = find_marker(bytes, 3, 0x4d);
        assert(bytes@.subrange(3, end as int) =~= block_number(bytes@));
        let number = slice_subrange(bytes, 3, end);
        let selector: u8 = bytes[0];
        match d {
            Directive::SclkOffset => {
                match parse_i32(number) {
                    None => {
                        return Err(FormatError::InvalidValue(d));
                    },
                    Some(v) => {
                        if selector == 0x31 {
                            config.clock_offset_single = Some(v);
                        } else {
                            return Err(FormatError::InvalidSelector(d));
                        }
                    },
                }
            },
            _ => {
                match parse_u32(number) {
                    None => {
                        return Err(FormatError::InvalidValue(d));
                    },
                    Some(v) => {
                        if selector == 0x30 && d == Directive::Sclk {
                            config.clock_offset_min = Some(v);
                        } else if selector == 0x31 && d == Directive::Sclk {
                            config.clock_offset_max = Some(v);
                        } else if selector == 0x30 && d == Directive::Mclk {
                            config.memory_clock_min = Some(v);
                        } else if selector == 0x31 && d == Directive::Mclk {
                            config.memory_clock_max = Some(v);
                        } else {
                            return Err(FormatError::InvalidSelector(d));
                        }
                    },
                }
            },
        }
        i = i + 1;
    }
    Ok(())
}

/// Reads the single core clock offset from the lines after the keyword. Of
/// the selectors it knows `1` alone. After an error the settings hold what
/// the lines before the offending one gave.
pub fn parse_od_sclk_offset(config: &mut DeviceSettings, lines: &[String]) -> (r: Result<
    (),
    FormatError,
>)
    ensures
        (final(config)@, r) == read_block(
            Directive::SclkOffset,
            lines_bytes(lines@),
            1,
            old(config)@,
        ),
{
    parse_block(config, lines, Directive::SclkOffset)
}

/// Reads the two-point core clock override from the lines after the
/// keyword: selector `0` is the minimum, `1` the maximum. After an error the
/// settings hold what the lines before the offending one gave.
pub fn parse_od_sclk(config: &mut DeviceSettings, lines: &[String]) -> (r: Result<
    (),
    FormatError,
>)
    ensures
        (final(config)@, r) == read_block(Directive::Sclk, lines_bytes(lines@), 1, old(config)@),
{
    parse_block(config, lines, Directive::Sclk)
}

/// Reads the memory clock bounds from the lines after the keyword: selector
/// `0` is the minimum, `1` the maximum. After an error the settings hold what
/// the lines before the offending one gave.
pub fn parse_od_mclk(config: &mut DeviceSettings, lines: &[String]) -> (r: Result<
    (),
    FormatError,
>)
    ensures
        (final(config)@, r) == read_block(Directive::Mclk, lines_bytes(lines@), 1, old(config)@),
{
    parse_block(config, lines, Directive::Mclk)
}

/// Reads into `config` the directive that the first line of `lines` opens.
/// After an error `config` holds what was read before it.
fn parse_directive(config: &mut DeviceSettings, lines: &[String]) -> (r: Result<(), FormatError>)
    requires
        lines@.len() > 0,
    ensures
        match read_directive(lines_bytes(lines@), old(config)@) {
            Ok(next) => r is Ok && final(config)@ == next,
            Err(e) => r == Err::<(), FormatError>(e),
        },
{
    assert(lines_bytes(lines@)[0] == encode_utf8(lines@[0]@));
    match directive_at(lines[0].as_str()) {
        None => Ok(()),
        Some(Directive::PerformanceLevel) => parse_performance_level(config, lines),
        Some(Directive::PowerProfileIndex) => parse_power_profile_index(config, lines),
        Some(Directive::VddgfxOffset) => parse_od_vddgfx_offset(config, lines),
        Some(Directive::PowerCap) => parse_power_cap(config, lines),
        Some(Directive::FanTargetTemperature) => parse_fan_target_temp(config, lines),
        Some(Directive::FanZeroRpmEnable) => parse_fan_zero_rpm(config, lines),
        Some(Directive::FanZeroRpmStopTemperature) => parse_fan_zero_rpm_stop_temp(config, lines),
        Some(d) => {
            match parse_block(config, lines, d) {
                Err(FormatError::InvalidSelector(_)) => Ok(()),
                other => other,
            }
        },
    }
}

/// Parses a profile given as its lines.
///
/// The first line names the device. Then every line, the first included, is
/// looked at as a keyword; a directive's data lines are looked at again
/// after it. The first malformed directive ends the parse with its error. A
/// block that stops at an unknown selector does not: what it read before
/// counts, and the parse goes on.
pub fn parse_lines(lines: &[String]) -> (r: Result<DeviceSettings, FormatError>)
    ensures
        parsed_as(r, parse_lines_spec(lines_bytes(lines@))),
{
    let ghost all = lines_bytes(lines@);
    let index: u8 = match parse_device_index(lines) {
        Ok(index) => index,
        Err(e) => {
            return Err(e);
        },
    };
    let mut config = DeviceSettings::new(index);
    let mut i: usize = 0;
    while i < lines.len()
        invariant
            i <= lines.len(),
            all == lines_bytes(lines@),
            parse_lines_spec(all) == scan(all, i as int, config@),
        decreases lines.len() - i,
    {
        let tail = slice_subrange(lines, i, lines.len());
        assert(lines_bytes(tail@) =~= all.skip(i as int));
        match parse_directive(&mut config, tail) {
            Ok(()) => {},
            Err(e) => {
                return Err(e);
            },
        }
        i = i + 1;
    }
    Ok(config)
}

/// Parses the text of a profile.
pub fn parse_profile(text: &str) -> (r: Result<DeviceSettings, FormatError>)
    ensures
        parsed_as(r, parse_spec(encode_utf8(text@))),
{
    let lines = lines_of(text);
    parse_lines(lines.as_slice())
}

/// Scanning never fails on an unknown selector.
pub proof fn lemma_scan_errors_are_fatal(lines: Seq<Seq<u8>>, i: int, s: Settings)
    ensures
        match scan(lines, i, s) {
            Ok(_) => true,
            Err(e) => e.is_fatal(),
        },
    decreases lines.len() - i,
{
    if 0 <= i < lines.len() {
        match read_directive(lines.skip(i), s) {
            Ok(next) => {
                lemma_scan_errors_are_fatal(lines, i + 1, next);
            },
            Err(_) => {},
        }
    }
}

/// No profile is refused for an unknown selector: the error of a profile
/// that does not parse is never `InvalidSelector`. Such a selector ends its
/// block, and the rest of the profile is read.
pub proof fn lemma_unknown_selector_is_not_fatal(text: Seq<u8>)
    ensures
        match parse_spec(text) {
            Ok(_) => true,
            Err(e) => e.is_fatal(),
        },
{
    let lines = split_lines(text);
    match device_index_of(lines) {
        Ok(index) => {
            lemma_scan_errors_are_fatal(lines, 0, Settings::unset(index));
        },
        Err(_) => {},
    }
}

} // verus!
