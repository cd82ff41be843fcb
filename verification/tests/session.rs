use amdgpu_settings::plan::{
    apply_plan, info_plan, render_payload, reset_plan, Access, ControlFile, Layout, Payload, Step,
};
use amdgpu_settings::profile::parse_profile;
use amdgpu_settings::resolve::ResolvedDevicePaths;
use amdgpu_settings::session::{ApplyError, Reply, Request, Session, SessionTurn};
use amdgpu_settings::settings::DeviceSettings;

fn paths() -> ResolvedDevicePaths {
    ResolvedDevicePaths { home_path: "/home".to_string(), hwmon_path: "/hwmon".to_string() }
}

/// A device of which some files are missing, some refuse writes, and the
/// rest record what is written to them.
struct FakeDevice {
    missing: Vec<String>,
    broken: Vec<String>,
    default_cap: Option<String>,
    open: String,
    log: Vec<String>,
}

impl FakeDevice {
    fn new() -> FakeDevice {
        FakeDevice {
            missing: Vec::new(),
            broken: Vec::new(),
            default_cap: Some("220000000".to_string()),
            open: String::new(),
            log: Vec::new(),
        }
    }

    fn answer(&mut self, request: &Request) -> Reply {
        match request {
            Request::Open { path, write, .. } => {
                if self.missing.contains(path) {
                    self.log.push(format!("open {} fails", path));
                    Reply::Unavailable
                } else {
                    self.log.push(format!("open {} {}", path, if *write { "w" } else { "r" }));
                    self.open = path.clone();
                    Reply::Done
                }
            }
            Request::Write { payload, .. } => {
                if self.broken.contains(&self.open) {
                    self.log.push(format!("write {} fails", self.open));
                    Reply::Failed
                } else {
                    self.log.push(format!("write {} {:?}", self.open, render_payload(payload)));
                    Reply::Done
                }
            }
            Request::ReadLine { .. } => match &self.default_cap {
                Some(line) => {
                    self.log.push(format!("read {}", self.open));
                    Reply::Line(line.clone())
                }
                None => Reply::Failed,
            },
            Request::Show { layout, .. } => {
                self.log.push(format!("show {} {:?}", self.open, layout));
                Reply::Done
            }
            Request::Skip { file, announce } => {
                self.log.push(format!("skip {:?} {}", file, announce));
                Reply::Done
            }
        }
    }

    fn run(&mut self, plan: Vec<Step>) -> Result<(), ApplyError> {
        let mut turn = Session::start(paths(), plan);
        loop {
            match turn {
                SessionTurn::Done(result) => return result,
                SessionTurn::Ask(session, request) => {
                    let reply = self.answer(&request);
                    turn = session.advance(reply);
                }
            }
        }
    }
}

#[test]
fn empty_plan_is_over_at_once() {
    assert_eq!(Session::start(paths(), Vec::new()), SessionTurn::Done(Ok(())));
}

#[test]
fn power_cap_is_written_first_then_the_clock_commands() {
    let text = "GPU#: 0\nPOWER_CAP:\n180000000\nOD_SCLK:\n0: 500M\n1: 2000M\n";
    let settings = parse_profile(text).unwrap();
    let mut device = FakeDevice::new();
    assert_eq!(device.run(apply_plan(&settings)), Ok(()));
    assert_eq!(
        device.log,
        vec![
            "open /home/power_dpm_force_performance_level w",
            "write /home/power_dpm_force_performance_level \"manual\"",
            "open /hwmon/power1_cap w",
            "write /hwmon/power1_cap \"180000000\"",
            "open /home/pp_od_clk_voltage w",
            "write /home/pp_od_clk_voltage \"s 0 500\"",
            "write /home/pp_od_clk_voltage \"s 1 2000\"",
            "write /home/pp_od_clk_voltage \"c\"",
        ]
    );
}

#[test]
fn commit_is_written_when_nothing_else_is() {
    let mut device = FakeDevice::new();
    assert_eq!(device.run(apply_plan(&DeviceSettings::new(0))), Ok(()));
    assert_eq!(
        device.log,
        vec![
            "open /home/power_dpm_force_performance_level w",
            "write /home/power_dpm_force_performance_level \"manual\"",
            "open /home/pp_od_clk_voltage w",
            "write /home/pp_od_clk_voltage \"c\"",
        ]
    );
}

#[test]
fn single_offset_is_the_only_core_clock_write() {
    let text = "GPU#: 0\nOD_SCLK_OFFSET:\n1: -30M\n\nOD_SCLK:\n0: 500M\n1: 2000M\n";
    let settings = parse_profile(text).unwrap();
    let mut device = FakeDevice::new();
    assert_eq!(device.run(apply_plan(&settings)), Ok(()));
    assert_eq!(
        device.log,
        vec![
            "open /home/power_dpm_force_performance_level w",
            "write /home/power_dpm_force_performance_level \"manual\"",
            "open /home/pp_od_clk_voltage w",
            "write /home/pp_od_clk_voltage \"s -30\"",
            "write /home/pp_od_clk_voltage \"c\"",
        ]
    );
}

#[test]
fn missing_zero_rpm_file_is_passed_over_with_a_notice() {
    let settings = parse_profile("GPU#: 0\nFAN_ZERO_RPM_ENABLE:\n1\n").unwrap();
    let mut device = FakeDevice::new();
    device.missing.push("/home/gpu_od/fan_ctrl/fan_zero_rpm_enable".to_string());
    assert_eq!(device.run(apply_plan(&settings)), Ok(()));
    assert_eq!(
        device.log,
        vec![
            "open /home/power_dpm_force_performance_level w",
            "write /home/power_dpm_force_performance_level \"manual\"",
            "open /home/gpu_od/fan_ctrl/fan_zero_rpm_enable fails",
            "skip FanZeroRpmEnable true",
            "open /home/pp_od_clk_voltage w",
            "write /home/pp_od_clk_voltage \"c\"",
        ]
    );
}

#[test]
fn missing_stop_temperature_file_is_passed_over_too() {
    let settings =
        parse_profile("GPU#: 0\nFAN_ZERO_RPM_STOP_TEMPERATURE:\n45\nFAN_ZERO_RPM_ENABLE:\n1\n")
            .unwrap();
    let mut device = FakeDevice::new();
    device.missing.push("/home/gpu_od/fan_ctrl/fan_zero_rpm_stop_temperature".to_string());
    assert_eq!(device.run(apply_plan(&settings)), Ok(()));
    assert_eq!(
        device.log,
        vec![
            "open /home/power_dpm_force_performance_level w",
            "write /home/power_dpm_force_performance_level \"manual\"",
            "open /home/gpu_od/fan_ctrl/fan_zero_rpm_enable w",
            "write /home/gpu_od/fan_ctrl/fan_zero_rpm_enable \"1\\n\"",
            "open /home/gpu_od/fan_ctrl/fan_zero_rpm_stop_temperature fails",
            "skip FanZeroRpmStopTemperature true",
            "open /home/pp_od_clk_voltage w",
            "write /home/pp_od_clk_voltage \"c\"",
        ]
    );
}

#[test]
fn missing_required_file_ends_the_run() {
    let settings = parse_profile("GPU#: 0\nFAN_TARGET_TEMPERATURE:\n60\nPOWER_CAP:\n5\n").unwrap();
    let mut device = FakeDevice::new();
    device.missing.push("/home/gpu_od/fan_ctrl/fan_target_temperature".to_string());
    assert_eq!(
        device.run(apply_plan(&settings)),
        Err(ApplyError::ControlFileUnavailable(ControlFile::FanTargetTemperature))
    );
    assert_eq!(
        device.log,
        vec![
            "open /home/power_dpm_force_performance_level w",
            "write /home/power_dpm_force_performance_level \"manual\"",
            "open /hwmon/power1_cap w",
            "write /hwmon/power1_cap \"5\"",
            "open /home/gpu_od/fan_ctrl/fan_target_temperature fails",
        ]
    );
}

#[test]
fn failed_write_ends_the_run_without_rollback() {
    let settings = parse_profile("GPU#: 0\nPOWER_CAP:\n5\nOD_MCLK:\n1: 900M\n").unwrap();
    let mut device = FakeDevice::new();
    device.broken.push("/hwmon/power1_cap".to_string());
    assert_eq!(
        device.run(apply_plan(&settings)),
        Err(ApplyError::WriteFailed(ControlFile::PowerCap, 0))
    );
    assert_eq!(
        device.log,
        vec![
            "open /home/power_dpm_force_performance_level w",
            "write /home/power_dpm_force_performance_level \"manual\"",
            "open /hwmon/power1_cap w",
            "write /hwmon/power1_cap fails",
        ]
    );
}

#[test]
fn failed_write_to_an_optional_file_is_an_error() {
    let settings = parse_profile("GPU#: 0\nFAN_ZERO_RPM_ENABLE:\n1\n").unwrap();
    let mut device = FakeDevice::new();
    device.broken.push("/home/gpu_od/fan_ctrl/fan_zero_rpm_enable".to_string());
    assert_eq!(
        device.run(apply_plan(&settings)),
        Err(ApplyError::WriteFailed(ControlFile::FanZeroRpmEnable, 0))
    );
}

#[test]
fn reset_restores_the_default_power_cap() {
    let mut device = FakeDevice::new();
    assert_eq!(device.run(reset_plan()), Ok(()));
    assert_eq!(
        device.log,
        vec![
            "open /home/power_dpm_force_performance_level w",
            "write /home/power_dpm_force_performance_level \"auto\"",
            "open /hwmon/power1_cap_default r",
            "read /hwmon/power1_cap_default",
            "open /hwmon/power1_cap w",
            "write /hwmon/power1_cap \"220000000\"",
            "open /home/pp_power_profile_mode w",
            "write /home/pp_power_profile_mode \"0\"",
            "open /home/pp_od_clk_voltage w",
            "write /home/pp_od_clk_voltage \"r\"",
        ]
    );
}

#[test]
fn reset_fails_where_the_default_cap_cannot_be_had() {
    let mut device = FakeDevice::new();
    device.missing.push("/hwmon/power1_cap_default".to_string());
    assert_eq!(
        device.run(reset_plan()),
        Err(ApplyError::ControlFileUnavailable(ControlFile::PowerCapDefault))
    );
    assert_eq!(
        device.log,
        vec![
            "open /home/power_dpm_force_performance_level w",
            "write /home/power_dpm_force_performance_level \"auto\"",
            "open /hwmon/power1_cap_default fails",
        ]
    );
    let mut device = FakeDevice::new();
    device.default_cap = None;
    assert_eq!(device.run(reset_plan()), Err(ApplyError::ReadFailed(ControlFile::PowerCapDefault)));
    let mut device = FakeDevice::new();
    device.missing.push("/hwmon/power1_cap".to_string());
    assert_eq!(
        device.run(reset_plan()),
        Err(ApplyError::ControlFileUnavailable(ControlFile::PowerCap))
    );
    let mut device = FakeDevice::new();
    device.broken.push("/home/pp_od_clk_voltage".to_string());
    assert_eq!(
        device.run(reset_plan()),
        Err(ApplyError::WriteFailed(ControlFile::ClockVoltage, 0))
    );
}

#[test]
fn info_shows_every_file_and_passes_over_missing_optional_ones_silently() {
    let mut device = FakeDevice::new();
    device.missing.push("/home/gpu_od/fan_ctrl/fan_zero_rpm_enable".to_string());
    assert_eq!(device.run(info_plan()), Ok(()));
    assert_eq!(
        device.log,
        vec![
            "open /home/power_dpm_force_performance_level r",
            "show /home/power_dpm_force_performance_level Labelled",
            "open /home/pp_power_profile_mode r",
            "show /home/pp_power_profile_mode Starred",
            "open /hwmon/power1_cap r",
            "show /hwmon/power1_cap Watts",
            "open /home/pp_od_clk_voltage r",
            "show /home/pp_od_clk_voltage Plain",
            "open /home/gpu_od/fan_ctrl/fan_target_temperature r",
            "show /home/gpu_od/fan_ctrl/fan_target_temperature Plain",
            "open /home/gpu_od/fan_ctrl/fan_zero_rpm_enable fails",
            "skip FanZeroRpmEnable false",
            "open /home/gpu_od/fan_ctrl/fan_zero_rpm_stop_temperature r",
            "show /home/gpu_od/fan_ctrl/fan_zero_rpm_stop_temperature PlainAfterBlank",
        ]
    );
}

#[test]
fn step_without_payloads_opens_its_file_and_moves_on() {
    let plan = vec![
        Step { file: ControlFile::PowerCap, optional: false, access: Access::Write(Vec::new()) },
        Step {
            file: ControlFile::PowerProfileMode,
            optional: false,
            access: Access::Write(vec![Payload::Number(3)]),
        },
    ];
    let mut device = FakeDevice::new();
    assert_eq!(device.run(plan), Ok(()));
    assert_eq!(
        device.log,
        vec![
            "open /hwmon/power1_cap w",
            "open /home/pp_power_profile_mode w",
            "write /home/pp_power_profile_mode \"3\"",
        ]
    );
}

#[test]
fn failed_show_is_a_read_failure() {
    let plan = vec![Step {
        file: ControlFile::PowerCap,
        optional: false,
        access: Access::Show(Layout::Watts),
    }];
    let session = match Session::start(paths(), plan) {
        SessionTurn::Ask(session, request) => {
            assert_eq!(
                request,
                Request::Open {
                    file: ControlFile::PowerCap,
                    path: "/hwmon/power1_cap".to_string(),
                    write: false
                }
            );
            session
        }
        other => panic!("unexpected turn {:?}", other),
    };
    let session = match session.advance(Reply::Done) {
        SessionTurn::Ask(session, request) => {
            assert_eq!(
                request,
                Request::Show { file: ControlFile::PowerCap, layout: Layout::Watts }
            );
            session
        }
        other => panic!("unexpected turn {:?}", other),
    };
    assert_eq!(
        session.advance(Reply::Failed),
        SessionTurn::Done(Err(ApplyError::ReadFailed(ControlFile::PowerCap)))
    );
}

#[test]
fn failed_write_is_reported_with_its_number() {
    let settings = parse_profile("GPU#: 0\nOD_MCLK:\n0: 100M\n1: 900M\n").unwrap();
    let plan = apply_plan(&settings);
    let mut turn = Session::start(paths(), plan);
    let mut writes_to_clock_file = 0;
    loop {
        match turn {
            SessionTurn::Done(result) => {
                assert_eq!(result, Err(ApplyError::WriteFailed(ControlFile::ClockVoltage, 1)));
                break;
            }
            SessionTurn::Ask(session, request) => {
                let reply = match request {
                    Request::Write { file: ControlFile::ClockVoltage, .. } => {
                        writes_to_clock_file += 1;
                        if writes_to_clock_file == 2 {
                            Reply::Failed
                        } else {
                            Reply::Done
                        }
                    }
                    _ => Reply::Done,
                };
                turn = session.advance(reply);
            }
        }
    }
    assert_eq!(writes_to_clock_file, 2);
}

#[test]
fn failed_write_of_a_restored_line_is_reported() {
    let mut device = FakeDevice::new();
    device.broken.push("/hwmon/power1_cap".to_string());
    assert_eq!(device.run(reset_plan()), Err(ApplyError::WriteFailed(ControlFile::PowerCap, 0)));
}
