//! What the user is told when something fails or is passed over.

use vstd::prelude::*;
use vstd::utf8::*;
use crate::decimal::{decimal_digits, push_unsigned};
use crate::plan::ControlFile;
use crate::resolve::ResolveError;
use crate::session::ApplyError;
use crate::settings::{Directive, FormatError};
use crate::text::{push_text, text_from};

verus! {

/// What a message calls the data of a directive.
pub open spec fn directive_label(d: Directive) -> Seq<u8> {
    match d {
        Directive::PerformanceLevel => encode_utf8("PERFORMANCE_LEVEL"@),
        Directive::PowerProfileIndex => encode_utf8("POWER_PROFILE_INDEX"@),
        Directive::SclkOffset => encode_utf8("OD_SCLK_OFFSET option"@),
        Directive::Sclk => encode_utf8("OD_SCLK option"@),
        Directive::Mclk => encode_utf8("OD_MCLK option"@),
        Directive::VddgfxOffset => encode_utf8("voltage"@),
        Directive::PowerCap => encode_utf8("POWER_CAP"@),
        Directive::FanTargetTemperature => encode_utf8("FAN_TARGET_TEMPERATURE"@),
        Directive::FanZeroRpmEnable => encode_utf8("FAN_ZERO_RPM_ENABLE"@),
        Directive::FanZeroRpmStopTemperature => encode_utf8("FAN_ZERO_RPM_STOP_TEMPERATURE"@),
    }
}

/// What a message calls a control file: its name without the directories.
pub open spec fn file_label(file: ControlFile) -> Seq<u8> {
    match file {
        ControlFile::PerformanceLevel => encode_utf8("power_dpm_force_performance_level"@),
        ControlFile::PowerCap => encode_utf8("power1_cap"@),
        ControlFile::PowerCapDefault => encode_utf8("power1_cap_default"@),
        ControlFile::PowerProfileMode => encode_utf8("pp_power_profile_mode"@),
        ControlFile::FanTargetTemperature => encode_utf8("fan_target_temperature"@),
        ControlFile::FanZeroRpmEnable => encode_utf8("fan_zero_rpm_enable"@),
        ControlFile::FanZeroRpmStopTemperature => encode_utf8("fan_zero_rpm_stop_temperature"@),
        ControlFile::ClockVoltage => encode_utf8("pp_od_clk_voltage"@),
    }
}

/// The message for a profile that was refused.
pub open spec fn format_message_spec(e: FormatError) -> Seq<u8> {
    match e {
        FormatError::MissingDeviceLine => encode_utf8(
            "Invalid card mount point: Check /sys/class/drm/card#"@,
        ),
        FormatError::InvalidDeviceLine => encode_utf8(
            "Invalid card mount point: Check /sys/class/drm/card#"@,
        ),
        FormatError::MissingValue(d) => encode_utf8("Missing "@) + directive_label(d),
        FormatError::InvalidValue(d) => encode_utf8("Invalid "@) + directive_label(d),
        FormatError::InvalidSelector(d) => encode_utf8("Invalid "@) + directive_label(d),
    }
}

/// The message for a device whose directories were not found.
pub open spec fn resolve_message_spec(e: ResolveError) -> Seq<u8> {
    match e {
        ResolveError::DeviceNotFound => encode_utf8(
            "Fatal error: Unable to locate card mount point. Please check /sys/class/drm/card# and update gpu profile."@,
        ),
        ResolveError::HardwareMonitorNotFound => encode_utf8("Unable to detect hwmon_path!!!"@),
    }
}

/// The message for a run that ended early: it names the file at which the
/// run ended and what failed there, and for a write its number among the
/// writes to that file.
pub open spec fn apply_message_spec(e: ApplyError) -> Seq<u8> {
    match e {
        ApplyError::ControlFileUnavailable(file) => encode_utf8("Can't access "@) + file_label(
            file,
        ) + encode_utf8(" file"@),
        ApplyError::WriteFailed(file, number) => encode_utf8("Failed to write "@) + file_label(
            file,
        ) + encode_utf8(" (write "@) + decimal_digits(number as nat) + encode_utf8(")"@),
        ApplyError::ReadFailed(file) => encode_utf8("Failed to read "@) + file_label(file),
    }
}

/// The notice for an optional file that is not there. The settings of the
/// fan's zero-RPM mode go by the names that a profile gives them, any other
/// file by its own name.
pub open spec fn skip_notice_spec(file: ControlFile) -> Seq<u8> {
    encode_utf8("Skip setting "@) + (match file {
        ControlFile::FanZeroRpmEnable => directive_label(Directive::FanZeroRpmEnable),
        ControlFile::FanZeroRpmStopTemperature => directive_label(
            Directive::FanZeroRpmStopTemperature,
        ),
        _ => file_label(file),
    }) + encode_utf8(". Make sure to have Linux 6.13 or newer."@)
}

fn directive_label_text(d: Directive) -> (r: &'static str)
    ensures
        encode_utf8(r@) == directive_label(d),
{
    match d {
        Directive::PerformanceLevel => "PERFORMANCE_LEVEL",
        Directive::PowerProfileIndex => "POWER_PROFILE_INDEX",
        Directive::SclkOffset => "OD_SCLK_OFFSET option",
        Directive::Sclk => "OD_SCLK option",
        Directive::Mclk => "OD_MCLK option",
        Directive::VddgfxOffset => "voltage",
        Directive::PowerCap => "POWER_CAP",
        Directive::FanTargetTemperature => "FAN_TARGET_TEMPERATURE",
        Directive::FanZeroRpmEnable => "FAN_ZERO_RPM_ENABLE",
        Directive::FanZeroRpmStopTemperature => "FAN_ZERO_RPM_STOP_TEMPERATURE",
    }
}

fn file_label_text(file: ControlFile) -> (r: &'static str)
    ensures
        encode_utf8(r@) == file_label(file),
{
    match file {
        ControlFile::PerformanceLevel => "power_dpm_force_performance_level",
        ControlFile::PowerCap => "power1_cap",
        ControlFile::PowerCapDefault => "power1_cap_default",
        ControlFile::PowerProfileMode => "pp_power_profile_mode",
        ControlFile::FanTargetTemperature => "fan_target_temperature",
        ControlFile::FanZeroRpmEnable => "fan_zero_rpm_enable",
        ControlFile::FanZeroRpmStopTemperature => "fan_zero_rpm_stop_temperature",
        ControlFile::ClockVoltage => "pp_od_clk_voltage",
    }
}

/// The message for a profile that was refused.
pub fn format_message(e: FormatError) -> (r: String)
    ensures
        encode_utf8(r@) == format_message_spec(e),
{
    match e {
        FormatError::MissingDeviceLine => text_from(
            "Invalid card mount point: Check /sys/class/drm/card#",
        ),
        FormatError::InvalidDeviceLine => text_from(
            "Invalid card mount point: Check /sys/class/drm/card#",
        ),
        FormatError::MissingValue(d) => {
            let mut out = text_from("Missing ");
            push_text(&mut out, directive_label_text(d));
            out
        },
        FormatError::InvalidValue(d) => {
            let mut out = text_from("Invalid ");
            push_text(&mut out, directive_label_text(d));
            out
        },
        FormatError::InvalidSelector(d) => {
            let mut out = text_from("Invalid ");
            push_text(&mut out, directive_label_text(d));
            out
        },
    }
}

/// The message for a device whose directories were not found.
pub fn resolve_message(e: ResolveError) -> (r: String)
    ensures
        encode_utf8(r@) == resolve_message_spec(e),
{
    match e {
        ResolveError::DeviceNotFound => text_from(
            "Fatal error: Unable to locate card mount point. Please check /sys/class/drm/card# and update gpu profile.",
        ),
        ResolveError::HardwareMonitorNotFound => text_from("Unable to detect hwmon_path!!!"),
    }
}

/// The message for a run that ended early.
pub fn apply_message(e: ApplyError) -> (r: String)
    ensures
        encode_utf8(r@) == apply_message_spec(e),
{
    match e {
        ApplyError::ControlFileUnavailable(file) => {
            let mut out = text_from("Can't access ");
            push_text(&mut out, file_label_text(file));
            push_text(&mut out, " file");
            out
        },
        ApplyError::WriteFailed(file, number) => {
            let mut out = text_from("Failed to write ");
            push_text(&mut out, file_label_text(file));
            push_text(&mut out, " (write ");
            push_unsigned(&mut out, number as u64);
            push_text(&mut out, ")");
            out
        },
        ApplyError::ReadFailed(file) => {
            let mut out = text_from("Failed to read ");
            push_text(&mut out, file_label_text(file));
            out
        },
    }
}

/// The notice for an optional file that is not there.
pub fn skip_notice(file: ControlFile) -> (r: String)
    ensures
        encode_utf8(r@) == skip_notice_spec(file),
{
    let mut out = text_from("Skip setting ");
    let name = match file {
        ControlFile::FanZeroRpmEnable => directive_label_text(Directive::FanZeroRpmEnable),
        ControlFile::FanZeroRpmStopTemperature => directive_label_text(
            Directive::FanZeroRpmStopTemperature,
        ),
        _ => file_label_text(file),
    };
    push_text(&mut out, name);
    push_text(&mut out, ". Make sure to have Linux 6.13 or newer.");
    out
}

} // verus!
