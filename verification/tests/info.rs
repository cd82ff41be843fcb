use amdgpu_settings::info::{heading, marks_selected, shown_line, trailer};
use amdgpu_settings::plan::Layout;

#[test]
fn performance_level_is_shown_after_its_label() {
    assert_eq!(heading(Layout::Labelled), "");
    assert_eq!(shown_line(Layout::Labelled, "manual", ""), "PERFORMANCE_LEVEL: manual\n\n");
    assert_eq!(trailer(Layout::Labelled), "");
}

#[test]
fn selected_power_profile_is_shown_under_a_heading() {
    assert_eq!(heading(Layout::Starred), "POWER_PROFILE_INDEX\n");
    assert_eq!(shown_line(Layout::Starred, " 0 BOOTUP_DEFAULT :", ""), "");
    assert_eq!(
        shown_line(Layout::Starred, " 1 3D_FULL_SCREEN*:", ""),
        " 1 3D_FULL_SCREEN*:\n\n"
    );
    assert_eq!(trailer(Layout::Starred), "");
    assert!(marks_selected("*"));
    assert!(!marks_selected("x"));
}

#[test]
fn power_cap_is_shown_with_its_watts() {
    assert_eq!(heading(Layout::Watts), "");
    assert_eq!(
        shown_line(Layout::Watts, "220000000", "220"),
        "POWER_CAP:\n220000000 (220 W)\n"
    );
    assert_eq!(trailer(Layout::Watts), "\n");
}

#[test]
fn other_files_are_shown_as_they_are() {
    assert_eq!(heading(Layout::Plain), "");
    assert_eq!(shown_line(Layout::Plain, "OD_SCLK:", "ignored"), "OD_SCLK:\n");
    assert_eq!(trailer(Layout::Plain), "");
    assert_eq!(heading(Layout::PlainAfterBlank), "\n");
    assert_eq!(shown_line(Layout::PlainAfterBlank, "FAN_ZERO_RPM_ENABLE: 1", ""), "FAN_ZERO_RPM_ENABLE: 1\n");
    assert_eq!(trailer(Layout::PlainAfterBlank), "");
}
