use amdgpu_settings::profile::{
    parse_fan_target_temp, parse_fan_zero_rpm, parse_fan_zero_rpm_stop_temp, parse_lines,
    parse_od_mclk, parse_od_sclk, parse_od_sclk_offset, parse_od_vddgfx_offset,
    parse_performance_level, parse_power_cap, parse_power_profile_index, parse_profile,
};
use amdgpu_settings::settings::{DeviceSettings, Directive, FormatError};

fn lines(items: &[&str]) -> Vec<String> {
    items.iter().map(|s| s.to_string()).collect()
}

#[test]
fn power_cap_and_two_point_clock_profile() {
    let text = "GPU#: 0\nPOWER_CAP:\n180000000\nOD_SCLK:\n0: 500M\n1: 2000M\n";
    let settings = parse_profile(text).unwrap();
    let mut expected = DeviceSettings::new(0);
    expected.power_cap = Some(180000000);
    expected.clock_offset_min = Some(500);
    expected.clock_offset_max = Some(2000);
    assert_eq!(settings, expected);
}

#[test]
fn empty_profile_has_no_device_line() {
    assert_eq!(parse_profile(""), Err(FormatError::MissingDeviceLine));
}

#[test]
fn short_first_line_is_refused() {
    assert_eq!(parse_profile("GPU#:\n"), Err(FormatError::InvalidDeviceLine));
    assert_eq!(parse_profile("GPU#: \n"), Err(FormatError::InvalidDeviceLine));
    assert_eq!(parse_profile("GPU#: x\n"), Err(FormatError::InvalidDeviceLine));
    assert_eq!(parse_profile("GPU#: 256\n"), Err(FormatError::InvalidDeviceLine));
}

#[test]
fn first_line_prefix_is_not_compared() {
    assert_eq!(parse_profile("card: 7").unwrap(), DeviceSettings::new(7));
    assert_eq!(parse_profile("GPU#: 255\n").unwrap(), DeviceSettings::new(255));
    assert_eq!(parse_profile("GPU#: +3\n").unwrap(), DeviceSettings::new(3));
}

#[test]
fn first_line_prefix_must_end_on_a_character_boundary() {
    assert_eq!(parse_profile("abc\u{e9}x1\n"), Err(FormatError::InvalidDeviceLine));
    assert_eq!(parse_profile("ab\u{e9}: 1\n").unwrap(), DeviceSettings::new(1));
}

#[test]
fn every_scalar_directive_is_read() {
    let text = "GPU#: 1\nPERFORMANCE_LEVEL:\nmanual\nPOWER_PROFILE_INDEX:\n5\n\
                OD_VDDGFX_OFFSET:\n-50mV\nPOWER_CAP:\n220000000\nFAN_TARGET_TEMPERATURE:\n65\n\
                FAN_ZERO_RPM_ENABLE:\n1\nFAN_ZERO_RPM_STOP_TEMPERATURE:\n50\n";
    let settings = parse_profile(text).unwrap();
    let mut expected = DeviceSettings::new(1);
    expected.performance_level = Some("manual".to_string());
    expected.power_profile_index = Some(5);
    expected.voltage_offset = Some(-50);
    expected.power_cap = Some(220000000);
    expected.fan_target_temperature = Some(65);
    expected.fan_zero_rpm_enabled = Some(1);
    expected.fan_zero_rpm_stop_temperature = Some(50);
    assert_eq!(settings, expected);
}

#[test]
fn block_directives_are_read() {
    let text = "GPU#: 0\nOD_SCLK_OFFSET:\n1: -150Mhz\n\nOD_SCLK:\n0: 500Mhz\n1: 2400Mhz\n\n\
                OD_MCLK:\n0: 97Mhz\n1: 1250Mhz\n\n";
    let settings = parse_profile(text).unwrap();
    let mut expected = DeviceSettings::new(0);
    expected.clock_offset_single = Some(-150);
    expected.clock_offset_min = Some(500);
    expected.clock_offset_max = Some(2400);
    expected.memory_clock_min = Some(97);
    expected.memory_clock_max = Some(1250);
    assert_eq!(settings, expected);
}

#[test]
fn keyword_is_matched_after_trimming() {
    let text = "GPU#: 0\n  POWER_CAP: \t\n42\n\u{a0}FAN_TARGET_TEMPERATURE:\u{2003}\u{3000}\n70\n";
    let settings = parse_profile(text).unwrap();
    let mut expected = DeviceSettings::new(0);
    expected.power_cap = Some(42);
    expected.fan_target_temperature = Some(70);
    assert_eq!(settings, expected);
}

#[test]
fn data_is_not_trimmed() {
    assert_eq!(
        parse_profile("GPU#: 0\nPOWER_CAP:\n 42\n"),
        Err(FormatError::InvalidValue(Directive::PowerCap))
    );
    assert_eq!(
        parse_profile("GPU#: 0\nPOWER_CAP:\n42 \n"),
        Err(FormatError::InvalidValue(Directive::PowerCap))
    );
    let settings = parse_profile("GPU#: 0\nPERFORMANCE_LEVEL:\n high \n").unwrap();
    assert_eq!(settings.performance_level, Some(" high ".to_string()));
}

#[test]
fn unknown_lines_are_ignored() {
    let text = "GPU#: 2\nSOMETHING_NEW:\n12\n# a comment\nPOWER_CAP:\n7\n";
    let settings = parse_profile(text).unwrap();
    let mut expected = DeviceSettings::new(2);
    expected.power_cap = Some(7);
    assert_eq!(settings, expected);
}

#[test]
fn keyword_on_last_line_misses_its_value() {
    assert_eq!(
        parse_profile("GPU#: 0\nPOWER_CAP:\n"),
        Err(FormatError::MissingValue(Directive::PowerCap))
    );
    assert_eq!(
        parse_profile("GPU#: 0\nPERFORMANCE_LEVEL:"),
        Err(FormatError::MissingValue(Directive::PerformanceLevel))
    );
}

#[test]
fn block_ends_with_the_profile() {
    let settings = parse_profile("GPU#: 0\nOD_MCLK:\n1: 1000M").unwrap();
    assert_eq!(settings.memory_clock_max, Some(1000));
    assert_eq!(settings.memory_clock_min, None);
    assert_eq!(parse_profile("GPU#: 0\nOD_MCLK:").unwrap(), DeviceSettings::new(0));
}

#[test]
fn unknown_selector_stops_the_block_and_keeps_earlier_lines() {
    let text = "GPU#: 0\nOD_SCLK:\n0: 500M\n2: 900M\n1: 2000M\n\nPOWER_CAP:\n9\n";
    let settings = parse_profile(text).unwrap();
    let mut expected = DeviceSettings::new(0);
    expected.clock_offset_min = Some(500);
    expected.power_cap = Some(9);
    assert_eq!(settings, expected);
}

#[test]
fn single_offset_block_knows_selector_one_only() {
    let mut config = DeviceSettings::new(0);
    let block = lines(&["OD_SCLK_OFFSET:", "0: 100M", "1: 200M", ""]);
    assert_eq!(
        parse_od_sclk_offset(&mut config, &block),
        Err(FormatError::InvalidSelector(Directive::SclkOffset))
    );
    assert_eq!(config, DeviceSettings::new(0));
    let block = lines(&["OD_SCLK_OFFSET:", "1: 200M", ""]);
    assert_eq!(parse_od_sclk_offset(&mut config, &block), Ok(()));
    assert_eq!(config.clock_offset_single, Some(200));
}

#[test]
fn malformed_number_outranks_unknown_selector() {
    let mut config = DeviceSettings::new(0);
    let block = lines(&["OD_SCLK:", "0: 500M", "x: abcM"]);
    assert_eq!(
        parse_od_sclk(&mut config, &block),
        Err(FormatError::InvalidValue(Directive::Sclk))
    );
    assert_eq!(config.clock_offset_min, Some(500));
    let block = lines(&["OD_MCLK:", "1:"]);
    assert_eq!(
        parse_od_mclk(&mut config, &block),
        Err(FormatError::InvalidValue(Directive::Mclk))
    );
    let block = lines(&["OD_MCLK:", "1: -5M"]);
    assert_eq!(
        parse_od_mclk(&mut config, &block),
        Err(FormatError::InvalidValue(Directive::Mclk))
    );
}

#[test]
fn block_number_runs_from_offset_three_to_the_first_marker() {
    let mut config = DeviceSettings::new(0);
    let block = lines(&["OD_SCLK:", "0##12MHz 34M", "1: 77"]);
    assert_eq!(parse_od_sclk(&mut config, &block), Ok(()));
    assert_eq!(config.clock_offset_min, Some(12));
    assert_eq!(config.clock_offset_max, Some(77));
    let block = lines(&["OD_MCLK:", "0: 5m"]);
    assert_eq!(
        parse_od_mclk(&mut config, &block),
        Err(FormatError::InvalidValue(Directive::Mclk))
    );
}

#[test]
fn voltage_offset_stops_at_the_unit() {
    let mut config = DeviceSettings::new(0);
    let data = lines(&["OD_VDDGFX_OFFSET:", "-75mV"]);
    assert_eq!(parse_od_vddgfx_offset(&mut config, &data), Ok(()));
    assert_eq!(config.voltage_offset, Some(-75));
    let data = lines(&["OD_VDDGFX_OFFSET:", "+20"]);
    assert_eq!(parse_od_vddgfx_offset(&mut config, &data), Ok(()));
    assert_eq!(config.voltage_offset, Some(20));
    let data = lines(&["OD_VDDGFX_OFFSET:", "mV"]);
    assert_eq!(
        parse_od_vddgfx_offset(&mut config, &data),
        Err(FormatError::InvalidValue(Directive::VddgfxOffset))
    );
    assert_eq!(config.voltage_offset, Some(20));
    let data = lines(&["OD_VDDGFX_OFFSET:", "-2147483648mV"]);
    assert_eq!(parse_od_vddgfx_offset(&mut config, &data), Ok(()));
    assert_eq!(config.voltage_offset, Some(i32::MIN));
    let data = lines(&["OD_VDDGFX_OFFSET:", "2147483648mV"]);
    assert_eq!(
        parse_od_vddgfx_offset(&mut config, &data),
        Err(FormatError::InvalidValue(Directive::VddgfxOffset))
    );
}

#[test]
fn scalar_readers_store_their_field() {
    let mut config = DeviceSettings::new(3);
    assert_eq!(parse_performance_level(&mut config, &lines(&["PERFORMANCE_LEVEL:", "auto"])), Ok(()));
    assert_eq!(parse_power_profile_index(&mut config, &lines(&["POWER_PROFILE_INDEX:", "2"])), Ok(()));
    assert_eq!(parse_power_cap(&mut config, &lines(&["POWER_CAP:", "18446744073709551615"])), Ok(()));
    assert_eq!(parse_fan_target_temp(&mut config, &lines(&["FAN_TARGET_TEMPERATURE:", "4294967295"])), Ok(()));
    assert_eq!(parse_fan_zero_rpm(&mut config, &lines(&["FAN_ZERO_RPM_ENABLE:", "0"])), Ok(()));
    assert_eq!(parse_fan_zero_rpm_stop_temp(&mut config, &lines(&["FAN_ZERO_RPM_STOP_TEMPERATURE:", "007"])), Ok(()));
    let mut expected = DeviceSettings::new(3);
    expected.performance_level = Some("auto".to_string());
    expected.power_profile_index = Some(2);
    expected.power_cap = Some(u64::MAX);
    expected.fan_target_temperature = Some(u32::MAX);
    expected.fan_zero_rpm_enabled = Some(0);
    expected.fan_zero_rpm_stop_temperature = Some(7);
    assert_eq!(config, expected);
}

#[test]
fn scalar_readers_refuse_what_does_not_fit() {
    let mut config = DeviceSettings::new(3);
    assert_eq!(
        parse_power_profile_index(&mut config, &lines(&["POWER_PROFILE_INDEX:", "256"])),
        Err(FormatError::InvalidValue(Directive::PowerProfileIndex))
    );
    assert_eq!(
        parse_power_cap(&mut config, &lines(&["POWER_CAP:", "18446744073709551616"])),
        Err(FormatError::InvalidValue(Directive::PowerCap))
    );
    assert_eq!(
        parse_fan_target_temp(&mut config, &lines(&["FAN_TARGET_TEMPERATURE:", "4294967296"])),
        Err(FormatError::InvalidValue(Directive::FanTargetTemperature))
    );
    assert_eq!(
        parse_fan_zero_rpm(&mut config, &lines(&["FAN_ZERO_RPM_ENABLE:", "-1"])),
        Err(FormatError::InvalidValue(Directive::FanZeroRpmEnable))
    );
    assert_eq!(
        parse_fan_zero_rpm_stop_temp(&mut config, &lines(&["FAN_ZERO_RPM_STOP_TEMPERATURE:", ""])),
        Err(FormatError::InvalidValue(Directive::FanZeroRpmStopTemperature))
    );
    assert_eq!(
        parse_fan_zero_rpm(&mut config, &lines(&["FAN_ZERO_RPM_ENABLE:"])),
        Err(FormatError::MissingValue(Directive::FanZeroRpmEnable))
    );
    assert_eq!(
        parse_performance_level(&mut config, &lines(&[])),
        Err(FormatError::MissingValue(Directive::PerformanceLevel))
    );
    assert_eq!(config, DeviceSettings::new(3));
}

#[test]
fn data_lines_are_looked_at_as_keywords_too() {
    let text = "GPU#: 0\nPERFORMANCE_LEVEL:\nPOWER_CAP:\n12\n";
    let settings = parse_profile(text).unwrap();
    let mut expected = DeviceSettings::new(0);
    expected.performance_level = Some("POWER_CAP:".to_string());
    expected.power_cap = Some(12);
    assert_eq!(settings, expected);
}

#[test]
fn carriage_return_before_line_feed_is_dropped() {
    let text = "GPU#: 4\r\nPERFORMANCE_LEVEL:\r\nlow\r\nOD_SCLK:\r\n1: 1800M\r\n\r\n";
    let settings = parse_profile(text).unwrap();
    let mut expected = DeviceSettings::new(4);
    expected.performance_level = Some("low".to_string());
    expected.clock_offset_max = Some(1800);
    assert_eq!(settings, expected);
    let settings = parse_profile("GPU#: 4\nPERFORMANCE_LEVEL:\nlow\r").unwrap();
    assert_eq!(settings.performance_level, Some("low\r".to_string()));
}

#[test]
fn parse_lines_takes_lines_as_they_are() {
    let settings = parse_lines(&lines(&["GPU#: 9", "POWER_CAP:", "1"])).unwrap();
    assert_eq!(settings.device_index, 9);
    assert_eq!(settings.power_cap, Some(1));
    assert_eq!(parse_lines(&lines(&[])), Err(FormatError::MissingDeviceLine));
}

#[test]
fn later_directive_replaces_earlier_one() {
    let settings = parse_profile("GPU#: 0\nPOWER_CAP:\n1\nPOWER_CAP:\n2\n").unwrap();
    assert_eq!(settings.power_cap, Some(2));
}
