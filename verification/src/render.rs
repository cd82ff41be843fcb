//! Writing settings out as a profile, in the format that the parser reads.

use vstd::prelude::*;
use vstd::utf8::*;
use crate::decimal::{decimal_digits, decimal_text, push_signed, push_unsigned};
use crate::profile::{keyword, keyword_text};
use crate::settings::{DeviceSettings, Directive, Settings};
use crate::text::{join_lines, push_text, text_from};

verus! {

/// The first line of a profile: `GPU#: ` and the device index.
pub open spec fn device_line(index: u8) -> Seq<u8> {
    encode_utf8("GPU#: "@) + decimal_digits(index as nat)
}

/// The decimal text of a number that may be absent.
pub open spec fn number_text(value: Option<int>) -> Option<Seq<u8>> {
    match value {
        Some(v) => Some(decimal_text(v)),
        None => None,
    }
}

/// The text of a voltage offset that may be absent: the number and `mV`.
pub open spec fn voltage_text(value: Option<i32>) -> Option<Seq<u8>> {
    match value {
        Some(v) => Some(decimal_text(v as int) + encode_utf8("mV"@)),
        None => None,
    }
}

pub open spec fn from_u8(value: Option<u8>) -> Option<int> {
    match value {
        Some(v) => Some(v as int),
        None => None,
    }
}

pub open spec fn from_u32(value: Option<u32>) -> Option<int> {
    match value {
        Some(v) => Some(v as int),
        None => None,
    }
}

pub open spec fn from_i32(value: Option<i32>) -> Option<int> {
    match value {
        Some(v) => Some(v as int),
        None => None,
    }
}

pub open spec fn from_u64(value: Option<u64>) -> Option<int> {
    match value {
        Some(v) => Some(v as int),
        None => None,
    }
}

/// The lines of a one-line directive: the keyword and the data, or nothing
/// where the data is absent.
pub open spec fn scalar_section(d: Directive, data: Option<Seq<u8>>) -> Seq<Seq<u8>> {
    match data {
        Some(text) => seq![keyword(d), text],
        None => Seq::empty(),
    }
}

/// A line of a block: the selector, `: `, the number and `Mhz`.
pub open spec fn block_entry(selector: u8, number: Seq<u8>) -> Seq<u8> {
    seq![selector] + encode_utf8(": "@) + number + encode_utf8("Mhz"@)
}

/// The line of a block for one selector, or nothing where the number is
/// absent.
pub open spec fn block_entries(selector: u8, number: Option<Seq<u8>>) -> Seq<Seq<u8>> {
    match number {
        Some(text) => seq![block_entry(selector, text)],
        None => Seq::empty(),
    }
}

/// The lines of a block directive: the keyword, the line of selector `0`,
/// the line of selector `1`, and an empty line that ends the block; nothing
/// where both numbers are absent.
pub open spec fn block_section(d: Directive, low: Option<Seq<u8>>, high: Option<Seq<u8>>) -> Seq<
    Seq<u8>,
> {
    if low is None && high is None {
        Seq::empty()
    } else {
        seq![keyword(d)] + block_entries(0x30, low) + block_entries(0x31, high) + seq![
            Seq::<u8>::empty(),
        ]
    }
}

/// The lines of the profile that holds `s`: the device line, then a
/// directive for each field that is present. The performance level comes
/// last: its data is free text, and the parser looks at every line as a
/// keyword, so a level that reads like a keyword must have nothing after it
/// that could be taken for its data.
pub open spec fn profile_lines(s: Settings) -> Seq<Seq<u8>> {
    seq![device_line(s.device_index)] + scalar_section(
        Directive::PowerProfileIndex,
        number_text(from_u8(s.power_profile_index)),
    ) + block_section(Directive::SclkOffset, None, number_text(from_i32(s.clock_offset_single)))
        + block_section(
        Directive::Sclk,
        number_text(from_u32(s.clock_offset_min)),
        number_text(from_u32(s.clock_offset_max)),
    ) + block_section(
        Directive::Mclk,
        number_text(from_u32(s.memory_clock_min)),
        number_text(from_u32(s.memory_clock_max)),
    ) + scalar_section(Directive::VddgfxOffset, voltage_text(s.voltage_offset)) + scalar_section(
        Directive::PowerCap,
        number_text(from_u64(s.power_cap)),
    ) + scalar_section(
        Directive::FanTargetTemperature,
        number_text(from_u32(s.fan_target_temperature)),
    ) + scalar_section(Directive::FanZeroRpmEnable, number_text(from_u8(s.fan_zero_rpm_enabled)))
        + scalar_section(
        Directive::FanZeroRpmStopTemperature,
        number_text(from_u32(s.fan_zero_rpm_stop_temperature)),
    ) + scalar_section(Directive::PerformanceLevel, s.performance_level)
}

/// The text of the profile that holds `s`: its lines, each ended by a line
/// feed.
pub open spec fn profile_text(s: Settings) -> Seq<u8> {
    join_lines(profile_lines(s))
}

/// Joining lines one after another is joining them all.
pub proof fn lemma_join_concat(a: Seq<Seq<u8>>, b: Seq<Seq<u8>>)
    ensures
        join_lines(a + b) == join_lines(a) + join_lines(b),
    decreases a.len(),
{
    if a.len() == 0 {
        assert(a + b =~= b);
        assert(join_lines(a) + join_lines(b) =~= join_lines(b));
    } else {
        lemma_join_concat(a.drop_first(), b);
        assert((a + b).drop_first() =~= a.drop_first() + b);
        assert((a + b)[0] == a[0]);
        assert(join_lines(a + b) =~= join_lines(a) + join_lines(b));
    }
}

/// The text of one line and of two.
pub proof fn lemma_join_short(first: Seq<u8>, second: Seq<u8>)
    ensures
        join_lines(Seq::<Seq<u8>>::empty()) == Seq::<u8>::empty(),
        join_lines(seq![first]) == first + seq![0x0au8],
        join_lines(seq![first, second]) == first + seq![0x0au8] + second + seq![0x0au8],
{
    let none = Seq::<Seq<u8>>::empty();
    assert(join_lines(none) =~= Seq::<u8>::empty());
    let one = seq![first];
    assert(one.drop_first() =~= none);
    assert(one[0] == first);
    assert(join_lines(one) == one[0] + seq![0x0au8] + join_lines(one.drop_first()));
    assert(join_lines(one) =~= first + seq![0x0au8]);
    let last = seq![second];
    assert(last.drop_first() =~= none);
    assert(last[0] == second);
    assert(join_lines(last) == last[0] + seq![0x0au8] + join_lines(last.drop_first()));
    assert(join_lines(last) =~= second + seq![0x0au8]);
    let two = seq![first, second];
    assert(two.drop_first() =~= last);
    assert(two[0] == first);
    assert(join_lines(two) == two[0] + seq![0x0au8] + join_lines(two.drop_first()));
    assert(join_lines(two) =~= first + seq![0x0au8] + second + seq![0x0au8]);
}

fn end_line(out: &mut String)
    ensures
        encode_utf8(final(out)@) == encode_utf8(old(out)@) + seq![0x0au8],
{
    push_text(out, "\n");
    proof {
        reveal_strlit("\n");
        is_ascii_chars_encode_utf8("\n"@);
        assert(encode_utf8("\n"@) =~= seq![0x0au8]);
    }
}

fn emit_keyword(out: &mut String, d: Directive)
    ensures
        encode_utf8(final(out)@) == encode_utf8(old(out)@) + join_lines(seq![keyword(d)]),
{
    push_text(out, keyword_text(d));
    end_line(out);
    proof {
        lemma_join_short(keyword(d), keyword(d));
        assert(encode_utf8(old(out)@) + keyword(d) + seq![0x0au8] =~= encode_utf8(old(out)@) + (
        keyword(d) + seq![0x0au8]));
    }
}

fn emit_unsigned(out: &mut String, d: Directive, value: Option<u64>)
    ensures
        encode_utf8(final(out)@) == encode_utf8(old(out)@) + join_lines(
            scalar_section(d, number_text(from_u64(value))),
        ),
{
    let ghost before = encode_utf8(out@);
    match value {
        Some(v) => {
            emit_keyword(out, d);
            push_unsigned(out, v);
            end_line(out);
            proof {
                let text = decimal_text(v as int);
                lemma_join_short(keyword(d), text);
                assert(before + join_lines(seq![keyword(d)]) + text + seq![0x0au8] =~= before
                    + join_lines(seq![keyword(d), text]));
            }
        },
        None => {
            proof {
                lemma_join_short(before, before);
                assert(before + Seq::<u8>::empty() =~= before);
            }
        },
    }
}

fn emit_voltage(out: &mut String, value: Option<i32>)
    ensures
        encode_utf8(final(out)@) == encode_utf8(old(out)@) + join_lines(
            scalar_section(Directive::VddgfxOffset, voltage_text(value)),
        ),
{
    let ghost before = encode_utf8(out@);
    match value {
        Some(v) => {
            emit_keyword(out, Directive::VddgfxOffset);
            push_signed(out, v as i64);
            push_text(out, "mV");
            end_line(out);
            proof {
                let text = decimal_text(v as int) + encode_utf8("mV"@);
                let key = keyword(Directive::VddgfxOffset);
                lemma_join_short(key, text);
                assert(before + join_lines(seq![key]) + decimal_text(v as int) + encode_utf8(
                    "mV"@,
                ) + seq![0x0au8] =~= before + join_lines(seq![key, text]));
            }
        },
        None => {
            proof {
                lemma_join_short(before, before);
                assert(before + Seq::<u8>::empty() =~= before);
            }
        },
    }
}

fn emit_entry(out: &mut String, selector: u8, value: Option<i64>)
    requires
        selector == 0x30 || selector == 0x31,
    ensures
        encode_utf8(final(out)@) == encode_utf8(old(out)@) + join_lines(
            block_entries(
                selector,
                number_text(
                    match value {
                        Some(v) => Some(v as int),
                        None => None,
                    },
                ),
            ),
        ),
{
    let ghost before = encode_utf8(out@);
    match value {
        Some(v) => {
            if selector == 0x30 {
                push_text(out, "0");
            } else {
                push_text(out, "1");
            }
            proof {
                reveal_strlit("0");
                reveal_strlit("1");
                is_ascii_chars_encode_utf8("0"@);
                is_ascii_chars_encode_utf8("1"@);
                assert(encode_utf8("0"@) =~= seq![0x30u8]);
                assert(encode_utf8("1"@) =~= seq![0x31u8]);
            }
            push_text(out, ": ");
            push_signed(out, v);
            push_text(out, "Mhz");
            end_line(out);
            proof {
                let line = block_entry(selector, decimal_text(v as int));
                lemma_join_short(line, line);
                assert(before + seq![selector] + encode_utf8(": "@) + decimal_text(v as int)
                    + encode_utf8("Mhz"@) + seq![0x0au8] =~= before + join_lines(seq![line]));
            }
        },
        None => {
            proof {
                lemma_join_short(before, before);
                assert(before + Seq::<u8>::empty() =~= before);
            }
        },
    }
}

fn emit_block(out: &mut String, d: Directive, low: Option<i64>, high: Option<i64>)
    ensures
        encode_utf8(final(out)@) == encode_utf8(old(out)@) + join_lines(
            block_section(
                d,
                number_text(
                    match low {
                        Some(v) => Some(v as int),
                        None => None,
                    },
                ),
                number_text(
                    match high {
                        Some(v) => Some(v as int),
                        None => None,
                    },
                ),
            ),
        ),
{
    let ghost before = encode_utf8(out@);
    let ghost low_text = number_text(
        match low {
            Some(v) => Some(v as int),
            None => None,
        },
    );
    let ghost high_text = number_text(
        match high {
            Some(v) => Some(v as int),
            None => None,
        },
    );
    if low.is_none() && high.is_none() {
        proof {
            lemma_join_short(before, before);
            assert(before + Seq::<u8>::empty() =~= before);
        }
        return ;
    }
    emit_keyword(out, d);
    emit_entry(out, 0x30, low);
    emit_entry(out, 0x31, high);
    end_line(out);
    proof {
        let head = seq![keyword(d)];
        let first = block_entries(0x30, low_text);
        let second = block_entries(0x31, high_text);
        let blank = seq![Seq::<u8>::empty()];
        lemma_join_short(Seq::<u8>::empty(), Seq::<u8>::empty());
        lemma_join_concat(head, first);
        lemma_join_concat(head + first, second);
        lemma_join_concat(head + first + second, blank);
        assert(Seq::<u8>::empty() + seq![0x0au8] =~= seq![0x0au8]);
        assert(before + join_lines(head) + join_lines(first) + join_lines(second) + seq![0x0au8]
            =~= before + (join_lines(head) + join_lines(first) + join_lines(second) + seq![
            0x0au8,
        ]));
    }
}

fn emit_level(out: &mut String, level: &Option<String>)
    ensures
        encode_utf8(final(out)@) == encode_utf8(old(out)@) + join_lines(
            scalar_section(
                Directive::PerformanceLevel,
                match *level {
                    Some(text) => Some(encode_utf8(text@)),
                    None => None,
                },
            ),
        ),
{
    let ghost before = encode_utf8(out@);
    match level {
        Some(text) => {
            emit_keyword(out, Directive::PerformanceLevel);
            push_text(out, text.as_str());
            end_line(out);
            proof {
                let key = keyword(Directive::PerformanceLevel);
                lemma_join_short(key, encode_utf8(text@));
                assert(before + join_lines(seq![key]) + encode_utf8(text@) + seq![0x0au8] =~= before
                    + join_lines(seq![key, encode_utf8(text@)]));
            }
        },
        None => {
            proof {
                lemma_join_short(before, before);
                assert(before + Seq::<u8>::empty() =~= before);
            }
        },
    }
}

fn widen_u8(value: Option<u8>) -> (r: Option<u64>)
    ensures
        from_u64(r) == from_u8(value),
{
    match value {
        Some(v) => Some(v as u64),
        None => None,
    }
}

fn widen_u32(value: Option<u32>) -> (r: Option<u64>)
    ensures
        from_u64(r) == from_u32(value),
{
    match value {
        Some(v) => Some(v as u64),
        None => None,
    }
}

fn signed_u32(value: Option<u32>) -> (r: Option<i64>)
    ensures
        (match r {
            Some(v) => Some(v as int),
            None => None,
        }) == from_u32(value),
{
    match value {
        Some(v) => Some(v as i64),
        None => None,
    }
}

fn signed_i32(value: Option<i32>) -> (r: Option<i64>)
    ensures
        (match r {
            Some(v) => Some(v as int),
            None => None,
        }) == from_i32(value),
{
    match value {
        Some(v) => Some(v as i64),
        None => None,
    }
}

/// Writes `settings` out as the text of a profile.
pub fn render_profile(settings: &DeviceSettings) -> (r: String)
    ensures
        encode_utf8(r@) == profile_text(settings@),
{
    let ghost s = settings@;
    let mut out = text_from("GPU#: ");
    push_unsigned(&mut out, settings.device_index as u64);
    end_line(&mut out);
    let ghost l0 = seq![device_line(s.device_index)];
    proof {
        lemma_join_short(device_line(s.device_index), device_line(s.device_index));
    }
    assert(encode_utf8(out@) == join_lines(l0));
    emit_unsigned(&mut out, Directive::PowerProfileIndex, widen_u8(settings.power_profile_index));
    let ghost l1 = l0 + scalar_section(
        Directive::PowerProfileIndex,
        number_text(from_u8(s.power_profile_index)),
    );
    proof {
        lemma_join_concat(
            l0,
            scalar_section(
                Directive::PowerProfileIndex,
                number_text(from_u8(s.power_profile_index)),
            ),
        );
    }
    assert(encode_utf8(out@) == join_lines(l1));
    emit_block(&mut out, Directive::SclkOffset, None, signed_i32(settings.clock_offset_single));
    let ghost l2 = l1 + block_section(
        Directive::SclkOffset,
        None,
        number_text(from_i32(s.clock_offset_single)),
    );
    proof {
        lemma_join_concat(
            l1,
            block_section(Directive::SclkOffset, None, number_text(from_i32(s.clock_offset_single))),
        );
    }
    assert(encode_utf8(out@) == join_lines(l2));
    emit_block(
        &mut out,
        Directive::Sclk,
        signed_u32(settings.clock_offset_min),
        signed_u32(settings.clock_offset_max),
    );
    let ghost l3 = l2 + block_section(
        Directive::Sclk,
        number_text(from_u32(s.clock_offset_min)),
        number_text(from_u32(s.clock_offset_max)),
    );
    proof {
        lemma_join_concat(
            l2,
            block_section(
                Directive::Sclk,
                number_text(from_u32(s.clock_offset_min)),
                number_text(from_u32(s.clock_offset_max)),
            ),
        );
    }
    assert(encode_utf8(out@) == join_lines(l3));
    emit_block(
        &mut out,
        Directive::Mclk,
        signed_u32(settings.memory_clock_min),
        signed_u32(settings.memory_clock_max),
    );
    let ghost l4 = l3 + block_section(
        Directive::Mclk,
        number_text(from_u32(s.memory_clock_min)),
        number_text(from_u32(s.memory_clock_max)),
    );
    proof {
        lemma_join_concat(
            l3,
            block_section(
                Directive::Mclk,
                number_text(from_u32(s.memory_clock_min)),
                number_text(from_u32(s.memory_clock_max)),
            ),
        );
    }
    assert(encode_utf8(out@) == join_lines(l4));
    emit_voltage(&mut out, settings.voltage_offset);
    let ghost l5 = l4 + scalar_section(Directive::VddgfxOffset, voltage_text(s.voltage_offset));
    proof {
        lemma_join_concat(
            l4,
            scalar_section(Directive::VddgfxOffset, voltage_text(s.voltage_offset)),
        );
    }
    assert(encode_utf8(out@) == join_lines(l5));
    emit_unsigned(&mut out, Directive::PowerCap, settings.power_cap);
    let ghost l6 = l5 + scalar_section(Directive::PowerCap, number_text(from_u64(s.power_cap)));
    proof {
        lemma_join_concat(
            l5,
            scalar_section(Directive::PowerCap, number_text(from_u64(s.power_cap))),
        );
    }
    assert(encode_utf8(out@) == join_lines(l6));
    emit_unsigned(
        &mut out,
        Directive::FanTargetTemperature,
        widen_u32(settings.fan_target_temperature),
    );
    let ghost l7 = l6 + scalar_section(
        Directive::FanTargetTemperature,
        number_text(from_u32(s.fan_target_temperature)),
    );
    proof {
        lemma_join_concat(
            l6,
            scalar_section(
                Directive::FanTargetTemperature,
                number_text(from_u32(s.fan_target_temperature)),
            ),
        );
    }
    assert(encode_utf8(out@) == join_lines(l7));
    emit_unsigned(&mut out, Directive::FanZeroRpmEnable, widen_u8(settings.fan_zero_rpm_enabled));
    let ghost l8 = l7 + scalar_section(
        Directive::FanZeroRpmEnable,
        number_text(from_u8(s.fan_zero_rpm_enabled)),
    );
    proof {
        lemma_join_concat(
            l7,
            scalar_section(
                Directive::FanZeroRpmEnable,
                number_text(from_u8(s.fan_zero_rpm_enabled)),
            ),
        );
    }
    assert(encode_utf8(out@) == join_lines(l8));
    emit_unsigned(
        &mut out,
        Directive::FanZeroRpmStopTemperature,
        widen_u32(settings.fan_zero_rpm_stop_temperature),
    );
    let ghost l9 = l8 + scalar_section(
        Directive::FanZeroRpmStopTemperature,
        number_text(from_u32(s.fan_zero_rpm_stop_temperature)),
    );
    proof {
        lemma_join_concat(
            l8,
            scalar_section(
                Directive::FanZeroRpmStopTemperature,
                number_text(from_u32(s.fan_zero_rpm_stop_temperature)),
            ),
        );
    }
    assert(encode_utf8(out@) == join_lines(l9));
    emit_level(&mut out, &settings.performance_level);
    proof {
        lemma_join_concat(l9, scalar_section(Directive::PerformanceLevel, s.performance_level));
    }
    out
}

} // verus!
