use amdgpu_settings::plan::{
    apply_plan, control_file_path, info_plan, render_command, render_payload, reset_plan, Access,
    Command, ControlFile, Layout, Payload, Step,
};
use amdgpu_settings::profile::parse_profile;
use amdgpu_settings::resolve::ResolvedDevicePaths;
use amdgpu_settings::settings::DeviceSettings;

fn write(file: ControlFile, optional: bool, payloads: Vec<Payload>) -> Step {
    Step { file, optional, access: Access::Write(payloads) }
}

fn level(text: &str) -> Step {
    write(ControlFile::PerformanceLevel, false, vec![Payload::Text(text.to_string())])
}

fn commands(list: &[Command]) -> Step {
    write(
        ControlFile::ClockVoltage,
        false,
        list.iter().map(|c| Payload::Command(*c)).collect(),
    )
}

#[test]
fn control_file_paths() {
    let paths = ResolvedDevicePaths {
        home_path: "/sys/class/drm/card0/device".to_string(),
        hwmon_path: "/sys/class/drm/card0/device/hwmon/hwmon3".to_string(),
    };
    let path = |file| control_file_path(&paths, file);
    assert_eq!(
        path(ControlFile::PerformanceLevel),
        "/sys/class/drm/card0/device/power_dpm_force_performance_level"
    );
    assert_eq!(path(ControlFile::PowerCap), "/sys/class/drm/card0/device/hwmon/hwmon3/power1_cap");
    assert_eq!(
        path(ControlFile::PowerCapDefault),
        "/sys/class/drm/card0/device/hwmon/hwmon3/power1_cap_default"
    );
    assert_eq!(path(ControlFile::PowerProfileMode), "/sys/class/drm/card0/device/pp_power_profile_mode");
    assert_eq!(
        path(ControlFile::FanTargetTemperature),
        "/sys/class/drm/card0/device/gpu_od/fan_ctrl/fan_target_temperature"
    );
    assert_eq!(
        path(ControlFile::FanZeroRpmEnable),
        "/sys/class/drm/card0/device/gpu_od/fan_ctrl/fan_zero_rpm_enable"
    );
    assert_eq!(
        path(ControlFile::FanZeroRpmStopTemperature),
        "/sys/class/drm/card0/device/gpu_od/fan_ctrl/fan_zero_rpm_stop_temperature"
    );
    assert_eq!(path(ControlFile::ClockVoltage), "/sys/class/drm/card0/device/pp_od_clk_voltage");
}

#[test]
fn command_tokens() {
    assert_eq!(render_command(Command::SclkOffset(-150)), "s -150");
    assert_eq!(render_command(Command::SclkOffset(0)), "s 0");
    assert_eq!(render_command(Command::SclkOffset(i32::MIN)), "s -2147483648");
    assert_eq!(render_command(Command::SclkMin(500)), "s 0 500");
    assert_eq!(render_command(Command::SclkMax(2000)), "s 1 2000");
    assert_eq!(render_command(Command::MclkMin(97)), "m 0 97");
    assert_eq!(render_command(Command::MclkMax(u32::MAX)), "m 1 4294967295");
    assert_eq!(render_command(Command::VoltageOffset(-75)), "vo -75");
    assert_eq!(render_command(Command::VoltageOffset(i32::MAX)), "vo 2147483647");
    assert_eq!(render_command(Command::Commit), "c");
    assert_eq!(render_command(Command::Reset), "r");
}

#[test]
fn payload_texts() {
    assert_eq!(render_payload(&Payload::Text("manual".to_string())), "manual");
    assert_eq!(render_payload(&Payload::Text(String::new())), "");
    assert_eq!(render_payload(&Payload::Number(0)), "0");
    assert_eq!(render_payload(&Payload::Number(180000000)), "180000000");
    assert_eq!(render_payload(&Payload::Number(u64::MAX)), "18446744073709551615");
    assert_eq!(render_payload(&Payload::NumberLine(65)), "65\n");
    assert_eq!(render_payload(&Payload::Command(Command::SclkMin(10))), "s 0 10");
}

#[test]
fn plan_for_bare_settings_sets_manual_and_commits() {
    let plan = apply_plan(&DeviceSettings::new(0));
    assert_eq!(plan, vec![level("manual"), commands(&[Command::Commit])]);
}

#[test]
fn plan_for_power_cap_and_two_point_clock() {
    let text = "GPU#: 0\nPOWER_CAP:\n180000000\nOD_SCLK:\n0: 500M\n1: 2000M\n";
    let plan = apply_plan(&parse_profile(text).unwrap());
    assert_eq!(
        plan,
        vec![
            level("manual"),
            write(ControlFile::PowerCap, false, vec![Payload::Number(180000000)]),
            commands(&[Command::SclkMin(500), Command::SclkMax(2000), Command::Commit]),
        ]
    );
    let written: Vec<String> = match &plan[2].access {
        Access::Write(payloads) => payloads.iter().map(render_payload).collect(),
        other => panic!("unexpected access {:?}", other),
    };
    assert_eq!(written, vec!["s 0 500", "s 1 2000", "c"]);
}

#[test]
fn plan_with_every_field() {
    let mut settings = DeviceSettings::new(1);
    settings.performance_level = Some("high".to_string());
    settings.power_profile_index = Some(5);
    settings.clock_offset_min = Some(500);
    settings.clock_offset_max = Some(2400);
    settings.memory_clock_min = Some(97);
    settings.memory_clock_max = Some(1250);
    settings.voltage_offset = Some(-50);
    settings.power_cap = Some(220000000);
    settings.fan_target_temperature = Some(65);
    settings.fan_zero_rpm_enabled = Some(1);
    settings.fan_zero_rpm_stop_temperature = Some(50);
    assert_eq!(
        apply_plan(&settings),
        vec![
            level("high"),
            write(ControlFile::PowerCap, false, vec![Payload::Number(220000000)]),
            write(ControlFile::PowerProfileMode, false, vec![Payload::Number(5)]),
            write(ControlFile::FanTargetTemperature, false, vec![Payload::NumberLine(65)]),
            write(ControlFile::FanZeroRpmEnable, true, vec![Payload::NumberLine(1)]),
            write(ControlFile::FanZeroRpmStopTemperature, true, vec![Payload::NumberLine(50)]),
            commands(&[
                Command::SclkMin(500),
                Command::SclkMax(2400),
                Command::MclkMin(97),
                Command::MclkMax(1250),
                Command::VoltageOffset(-50),
                Command::Commit,
            ]),
        ]
    );
}

#[test]
fn single_offset_takes_the_place_of_the_pair() {
    let text = "GPU#: 0\nOD_SCLK:\n0: 500M\n1: 2000M\n\nOD_SCLK_OFFSET:\n1: 120M\n\n";
    let settings = parse_profile(text).unwrap();
    assert_eq!(settings.clock_offset_min, Some(500));
    assert_eq!(settings.clock_offset_max, Some(2000));
    assert_eq!(settings.clock_offset_single, Some(120));
    assert_eq!(
        apply_plan(&settings),
        vec![level("manual"), commands(&[Command::SclkOffset(120), Command::Commit])]
    );
}

#[test]
fn absent_is_not_zero() {
    let mut settings = DeviceSettings::new(0);
    settings.power_cap = Some(0);
    settings.fan_zero_rpm_enabled = Some(0);
    settings.clock_offset_max = Some(0);
    assert_eq!(
        apply_plan(&settings),
        vec![
            level("manual"),
            write(ControlFile::PowerCap, false, vec![Payload::Number(0)]),
            write(ControlFile::FanZeroRpmEnable, true, vec![Payload::NumberLine(0)]),
            commands(&[Command::SclkMax(0), Command::Commit]),
        ]
    );
}

#[test]
fn power_cap_step_comes_before_the_command_step() {
    let mut settings = DeviceSettings::new(0);
    settings.power_cap = Some(1);
    settings.voltage_offset = Some(2);
    settings.fan_target_temperature = Some(3);
    let plan = apply_plan(&settings);
    let cap = plan.iter().position(|s| s.file == ControlFile::PowerCap).unwrap();
    let clock = plan.iter().position(|s| s.file == ControlFile::ClockVoltage).unwrap();
    assert_eq!(cap, 1);
    assert_eq!(clock, plan.len() - 1);
    assert!(cap < clock);
}

#[test]
fn reset_plan_steps() {
    assert_eq!(
        reset_plan(),
        vec![
            level("auto"),
            Step {
                file: ControlFile::PowerCap,
                optional: false,
                access: Access::Restore(ControlFile::PowerCapDefault),
            },
            write(ControlFile::PowerProfileMode, false, vec![Payload::Number(0)]),
            commands(&[Command::Reset]),
        ]
    );
}

#[test]
fn info_plan_steps() {
    let show = |file, optional, layout| Step { file, optional, access: Access::Show(layout) };
    assert_eq!(
        info_plan(),
        vec![
            show(ControlFile::PerformanceLevel, false, Layout::Labelled),
            show(ControlFile::PowerProfileMode, false, Layout::Starred),
            show(ControlFile::PowerCap, false, Layout::Watts),
            show(ControlFile::ClockVoltage, false, Layout::Plain),
            show(ControlFile::FanTargetTemperature, false, Layout::Plain),
            show(ControlFile::FanZeroRpmEnable, true, Layout::PlainAfterBlank),
            show(ControlFile::FanZeroRpmStopTemperature, true, Layout::PlainAfterBlank),
        ]
    );
}
