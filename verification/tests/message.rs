use amdgpu_settings::message::{apply_message, format_message, resolve_message, skip_notice};
use amdgpu_settings::plan::ControlFile;
use amdgpu_settings::resolve::ResolveError;
use amdgpu_settings::session::ApplyError;
use amdgpu_settings::settings::{Directive, FormatError};

#[test]
fn format_errors_name_the_directive() {
    let device = "Invalid card mount point: Check /sys/class/drm/card#";
    assert_eq!(format_message(FormatError::MissingDeviceLine), device);
    assert_eq!(format_message(FormatError::InvalidDeviceLine), device);
    assert_eq!(format_message(FormatError::InvalidValue(Directive::PowerCap)), "Invalid POWER_CAP");
    assert_eq!(
        format_message(FormatError::InvalidValue(Directive::VddgfxOffset)),
        "Invalid voltage"
    );
    assert_eq!(
        format_message(FormatError::InvalidValue(Directive::Mclk)),
        "Invalid OD_MCLK option"
    );
    assert_eq!(
        format_message(FormatError::InvalidSelector(Directive::SclkOffset)),
        "Invalid OD_SCLK_OFFSET option"
    );
    assert_eq!(
        format_message(FormatError::MissingValue(Directive::FanZeroRpmStopTemperature)),
        "Missing FAN_ZERO_RPM_STOP_TEMPERATURE"
    );
}

#[test]
fn every_directive_has_its_label() {
    let labels = [
        (Directive::PerformanceLevel, "Invalid PERFORMANCE_LEVEL"),
        (Directive::PowerProfileIndex, "Invalid POWER_PROFILE_INDEX"),
        (Directive::SclkOffset, "Invalid OD_SCLK_OFFSET option"),
        (Directive::Sclk, "Invalid OD_SCLK option"),
        (Directive::Mclk, "Invalid OD_MCLK option"),
        (Directive::VddgfxOffset, "Invalid voltage"),
        (Directive::PowerCap, "Invalid POWER_CAP"),
        (Directive::FanTargetTemperature, "Invalid FAN_TARGET_TEMPERATURE"),
        (Directive::FanZeroRpmEnable, "Invalid FAN_ZERO_RPM_ENABLE"),
        (Directive::FanZeroRpmStopTemperature, "Invalid FAN_ZERO_RPM_STOP_TEMPERATURE"),
    ];
    for (directive, message) in labels {
        assert_eq!(format_message(FormatError::InvalidValue(directive)), message);
    }
}

#[test]
fn resolve_errors_say_what_was_not_found() {
    assert_eq!(
        resolve_message(ResolveError::DeviceNotFound),
        "Fatal error: Unable to locate card mount point. Please check /sys/class/drm/card# and update gpu profile."
    );
    assert_eq!(
        resolve_message(ResolveError::HardwareMonitorNotFound),
        "Unable to detect hwmon_path!!!"
    );
}

#[test]
fn apply_errors_name_the_file() {
    assert_eq!(
        apply_message(ApplyError::ControlFileUnavailable(ControlFile::PowerCap)),
        "Can't access power1_cap file"
    );
    assert_eq!(
        apply_message(ApplyError::ControlFileUnavailable(ControlFile::PowerCapDefault)),
        "Can't access power1_cap_default file"
    );
    assert_eq!(
        apply_message(ApplyError::WriteFailed(ControlFile::ClockVoltage, 3)),
        "Failed to write pp_od_clk_voltage (write 3)"
    );
    assert_eq!(
        apply_message(ApplyError::WriteFailed(ControlFile::PerformanceLevel, 0)),
        "Failed to write power_dpm_force_performance_level (write 0)"
    );
    assert_eq!(
        apply_message(ApplyError::ReadFailed(ControlFile::FanTargetTemperature)),
        "Failed to read fan_target_temperature"
    );
    assert_eq!(
        apply_message(ApplyError::WriteFailed(ControlFile::PowerProfileMode, 12)),
        "Failed to write pp_power_profile_mode (write 12)"
    );
}

#[test]
fn skip_notices_name_the_setting() {
    assert_eq!(
        skip_notice(ControlFile::FanZeroRpmEnable),
        "Skip setting FAN_ZERO_RPM_ENABLE. Make sure to have Linux 6.13 or newer."
    );
    assert_eq!(
        skip_notice(ControlFile::FanZeroRpmStopTemperature),
        "Skip setting FAN_ZERO_RPM_STOP_TEMPERATURE. Make sure to have Linux 6.13 or newer."
    );
    assert_eq!(
        skip_notice(ControlFile::PowerCap),
        "Skip setting power1_cap. Make sure to have Linux 6.13 or newer."
    );
}
