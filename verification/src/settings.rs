//! The settings that a profile asks for, and the ways a profile can be
//! malformed.

use vstd::prelude::*;
use vstd::utf8::*;

verus! {

/// What a profile asks of one GPU. Every field but the device index may be
/// absent, and an absent field leaves the hardware as it is: absent is not
/// zero.
#[derive(Debug, Clone, PartialEq, Eq)]
pub struct DeviceSettings {
    /// Which card the settings are for.
    pub device_index: u8,
    /// Performance level, such as `manual` or `auto`.
    pub performance_level: Option<String>,
    /// Index of a vendor-defined power profile.
    pub power_profile_index: Option<u8>,
    /// Lower point of the two-point core clock override.
    pub clock_offset_min: Option<u32>,
    /// Upper point of the two-point core clock override.
    pub clock_offset_max: Option<u32>,
    /// Single core clock offset. When present it takes the place of the
    /// two-point pair.
    pub clock_offset_single: Option<i32>,
    /// Lower memory clock bound.
    pub memory_clock_min: Option<u32>,
    /// Upper memory clock bound.
    pub memory_clock_max: Option<u32>,
    /// Graphics voltage offset.
    pub voltage_offset: Option<i32>,
    /// Power limit in microwatts.
    pub power_cap: Option<u64>,
    /// Temperature that the fan aims for.
    pub fan_target_temperature: Option<u32>,
    /// Whether the fan may stop: the flag as the kernel takes it.
    pub fan_zero_rpm_enabled: Option<u8>,
    /// Temperature below which the fan stops.
    pub fan_zero_rpm_stop_temperature: Option<u32>,
}

/// The mathematical value of a [`DeviceSettings`]: the same fields, with the
/// performance level as the bytes of its text.
pub struct Settings {
    pub device_index: u8,
    pub performance_level: Option<Seq<u8>>,
    pub power_profile_index: Option<u8>,
    pub clock_offset_min: Option<u32>,
    pub clock_offset_max: Option<u32>,
    pub clock_offset_single: Option<i32>,
    pub memory_clock_min: Option<u32>,
    pub memory_clock_max: Option<u32>,
    pub voltage_offset: Option<i32>,
    pub power_cap: Option<u64>,
    pub fan_target_temperature: Option<u32>,
    pub fan_zero_rpm_enabled: Option<u8>,
    pub fan_zero_rpm_stop_temperature: Option<u32>,
}

impl Settings {
    /// Settings for a device with every optional field absent.
    pub open spec fn unset(device_index: u8) -> Settings {
        Settings {
            device_index,
            performance_level: None,
            power_profile_index: None,
            clock_offset_min: None,
            clock_offset_max: None,
            clock_offset_single: None,
            memory_clock_min: None,
            memory_clock_max: None,
            voltage_offset: None,
            power_cap: None,
            fan_target_temperature: None,
            fan_zero_rpm_enabled: None,
            fan_zero_rpm_stop_temperature: None,
        }
    }
}

impl View for DeviceSettings {
    type V = Settings;

    open spec fn view(&self) -> Settings {
        Settings {
            device_index: self.device_index,
            performance_level: match self.performance_level {
                Some(level) => Some(encode_utf8(level@)),
                None => None,
            },
            power_profile_index: self.power_profile_index,
            clock_offset_min: self.clock_offset_min,
            clock_offset_max: self.clock_offset_max,
            clock_offset_single: self.clock_offset_single,
            memory_clock_min: self.memory_clock_min,
            memory_clock_max: self.memory_clock_max,
            voltage_offset: self.voltage_offset,
            power_cap: self.power_cap,
            fan_target_temperature: self.fan_target_temperature,
            fan_zero_rpm_enabled: self.fan_zero_rpm_enabled,
            fan_zero_rpm_stop_temperature: self.fan_zero_rpm_stop_temperature,
        }
    }
}

impl DeviceSettings {
    /// Settings for a device with every optional field absent.
    pub fn new(device_index: u8) -> (r: DeviceSettings)
        ensures
            r@ == Settings::unset(device_index),
    {
        DeviceSettings {
            device_index,
            performance_level: None,
            power_profile_index: None,
            clock_offset_min: None,
            clock_offset_max: None,
            clock_offset_single: None,
            memory_clock_min: None,
            memory_clock_max: None,
            voltage_offset: None,
            power_cap: None,
            fan_target_temperature: None,
            fan_zero_rpm_enabled: None,
            fan_zero_rpm_stop_temperature: None,
        }
    }
}

impl Default for DeviceSettings {
    /// Settings for device 0 with every optional field absent.
    fn default() -> (r: DeviceSettings)
        ensures
            r@ == Settings::unset(0),
    {
        DeviceSettings::new(0)
    }
}

/// The directives that a profile may hold.
#[derive(Debug, Clone, Copy, PartialEq, Eq, Structural)]
pub enum Directive {
    PerformanceLevel,
    PowerProfileIndex,
    SclkOffset,
    Sclk,
    Mclk,
    VddgfxOffset,
    PowerCap,
    FanTargetTemperature,
    FanZeroRpmEnable,
    FanZeroRpmStopTemperature,
}

impl Directive {
    /// Whether the directive is followed by a block of lines rather than by
    /// one line.
    pub open spec fn is_block(self) -> bool {
        self == Directive::SclkOffset || self == Directive::Sclk || self == Directive::Mclk
    }
}

/// Why a profile was refused.
#[derive(Debug, Clone, Copy, PartialEq, Eq, Structural)]
pub enum FormatError {
    /// The profile has no line at all.
    MissingDeviceLine,
    /// The first line does not name a device.
    InvalidDeviceLine,
    /// A keyword that takes one line of data is the last line.
    MissingValue(Directive),
    /// The data of a directive is not a value of its type.
    InvalidValue(Directive),
    /// A line of a block begins with a selector that the directive does not
    /// know. This ends the block and nothing else: the lines before it
    /// count, and the profile as a whole is not refused for it.
    InvalidSelector(Directive),
}

impl FormatError {
    /// Whether the error refuses the whole profile. An unknown selector does
    /// not.
    pub open spec fn is_fatal(self) -> bool {
        !(self is InvalidSelector)
    }
}

} // verus!
