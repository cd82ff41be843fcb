use amdgpu_settings::profile::parse_profile;
use amdgpu_settings::render::render_profile;
use amdgpu_settings::settings::{DeviceSettings, Directive, FormatError};

fn full_settings() -> DeviceSettings {
    let mut settings = DeviceSettings::new(12);
    settings.performance_level = Some("manual".to_string());
    settings.power_profile_index = Some(5);
    settings.clock_offset_min = Some(500);
    settings.clock_offset_max = Some(2400);
    settings.clock_offset_single = Some(-150);
    settings.memory_clock_min = Some(97);
    settings.memory_clock_max = Some(1250);
    settings.voltage_offset = Some(-50);
    settings.power_cap = Some(220000000);
    settings.fan_target_temperature = Some(65);
    settings.fan_zero_rpm_enabled = Some(1);
    settings.fan_zero_rpm_stop_temperature = Some(50);
    settings
}

#[test]
fn bare_settings_are_the_device_line() {
    assert_eq!(render_profile(&DeviceSettings::new(0)), "GPU#: 0\n");
    assert_eq!(render_profile(&DeviceSettings::new(255)), "GPU#: 255\n");
}

#[test]
fn full_settings_as_text() {
    assert_eq!(
        render_profile(&full_settings()),
        "GPU#: 12\n\
         POWER_PROFILE_INDEX:\n5\n\
         OD_SCLK_OFFSET:\n1: -150Mhz\n\n\
         OD_SCLK:\n0: 500Mhz\n1: 2400Mhz\n\n\
         OD_MCLK:\n0: 97Mhz\n1: 1250Mhz\n\n\
         OD_VDDGFX_OFFSET:\n-50mV\n\
         POWER_CAP:\n220000000\n\
         FAN_TARGET_TEMPERATURE:\n65\n\
         FAN_ZERO_RPM_ENABLE:\n1\n\
         FAN_ZERO_RPM_STOP_TEMPERATURE:\n50\n\
         PERFORMANCE_LEVEL:\nmanual\n"
    );
}

#[test]
fn block_with_one_number_has_one_line() {
    let mut settings = DeviceSettings::new(1);
    settings.clock_offset_max = Some(1900);
    settings.memory_clock_min = Some(0);
    assert_eq!(
        render_profile(&settings),
        "GPU#: 1\nOD_SCLK:\n1: 1900Mhz\n\nOD_MCLK:\n0: 0Mhz\n\n"
    );
}

#[test]
fn full_settings_come_back() {
    let settings = full_settings();
    assert_eq!(parse_profile(&render_profile(&settings)), Ok(settings));
}

#[test]
fn extreme_values_come_back() {
    let mut settings = DeviceSettings::new(255);
    settings.performance_level = Some(String::new());
    settings.power_profile_index = Some(u8::MAX);
    settings.clock_offset_min = Some(u32::MAX);
    settings.clock_offset_max = Some(0);
    settings.clock_offset_single = Some(i32::MIN);
    settings.memory_clock_min = Some(0);
    settings.memory_clock_max = Some(u32::MAX);
    settings.voltage_offset = Some(i32::MAX);
    settings.power_cap = Some(u64::MAX);
    settings.fan_target_temperature = Some(0);
    settings.fan_zero_rpm_enabled = Some(0);
    settings.fan_zero_rpm_stop_temperature = Some(u32::MAX);
    assert_eq!(parse_profile(&render_profile(&settings)), Ok(settings));
}

#[test]
fn each_field_alone_comes_back() {
    let mut cases: Vec<DeviceSettings> = Vec::new();
    for field in 0..12 {
        let mut settings = DeviceSettings::new(3);
        match field {
            0 => settings.performance_level = Some(" high  ".to_string()),
            1 => settings.power_profile_index = Some(1),
            2 => settings.clock_offset_min = Some(2),
            3 => settings.clock_offset_max = Some(3),
            4 => settings.clock_offset_single = Some(4),
            5 => settings.memory_clock_min = Some(5),
            6 => settings.memory_clock_max = Some(6),
            7 => settings.voltage_offset = Some(7),
            8 => settings.power_cap = Some(8),
            9 => settings.fan_target_temperature = Some(9),
            10 => settings.fan_zero_rpm_enabled = Some(10),
            _ => settings.fan_zero_rpm_stop_temperature = Some(11),
        }
        cases.push(settings);
    }
    for settings in cases {
        assert_eq!(parse_profile(&render_profile(&settings)), Ok(settings));
    }
}

#[test]
fn parsed_profile_comes_back_after_writing() {
    let text = "GPU#: 0\nPOWER_CAP:\n180000000\nOD_SCLK:\n0: 500M\n1: 2000M\n";
    let settings = parse_profile(text).unwrap();
    assert_eq!(parse_profile(&render_profile(&settings)), Ok(settings));
}

#[test]
fn level_that_is_a_block_keyword_comes_back() {
    let mut settings = DeviceSettings::new(0);
    settings.performance_level = Some("OD_SCLK:".to_string());
    settings.clock_offset_min = Some(7);
    assert_eq!(parse_profile(&render_profile(&settings)), Ok(settings));
}

#[test]
fn level_that_is_a_scalar_keyword_is_lost() {
    let parsed = parse_profile("GPU#: 0\nPERFORMANCE_LEVEL:\nPOWER_CAP:\n5\n").unwrap();
    assert_eq!(parsed.performance_level, Some("POWER_CAP:".to_string()));
    assert_eq!(
        parse_profile(&render_profile(&parsed)),
        Err(FormatError::MissingValue(Directive::PowerCap))
    );
}

#[test]
fn level_that_ends_with_a_carriage_return_is_lost() {
    let parsed = parse_profile("GPU#: 0\nPERFORMANCE_LEVEL:\nlow\r\r\n").unwrap();
    assert_eq!(parsed.performance_level, Some("low\r".to_string()));
    let again = parse_profile(&render_profile(&parsed)).unwrap();
    assert_eq!(again.performance_level, Some("low".to_string()));
}
