use obs_rs::acceptance::{
    any_failed, audio_kind_name, bounded_external_output, check_displays, enforce_requirement,
    flag_is_set, machine_detail, required_check, report_line, requirement_variable,
    select_window, selected_audio_device, CaptureAttempt, CheckResult, CheckStatus,
    WindowSelection,
};
use obs_rs::device::{AudioDeviceInfo, AudioDeviceKind};
use obs_rs::windows_discovery::WindowsDisplayInfo;

fn result(status: CheckStatus, detail: &str) -> CheckResult {
    CheckResult { status, detail: detail.to_owned() }
}

fn display(id: &str, x: i32, y: i32, width: u32, height: u32, primary: bool) -> WindowsDisplayInfo {
    WindowsDisplayInfo { id: id.to_owned(), name: id.to_owned(), x, y, width, height, primary }
}

#[test]
fn required_checks_are_named_by_environment_flags() {
    assert_eq!(requirement_variable("production_hls"), "OBS_RS_REQUIRE_PRODUCTION_HLS");
    assert!(flag_is_set(" YES "));
    assert!(flag_is_set("1"));
    assert!(flag_is_set("On"));
    assert!(!flag_is_set("0"));
    assert!(!flag_is_set("enabled"));
    assert!(required_check("camera", true, false));
    assert!(required_check("production_hls", false, true));
    assert!(!required_check("camera", false, true));
}

#[test]
fn a_skipped_required_check_fails() {
    let skipped = result(CheckStatus::Skip, "no camera");
    assert_eq!(
        enforce_requirement(skipped.clone(), true),
        result(CheckStatus::Fail, "required check skipped: no camera")
    );
    assert_eq!(enforce_requirement(skipped.clone(), false), skipped);
    let passed = result(CheckStatus::Pass, "ok");
    assert_eq!(enforce_requirement(passed.clone(), true), passed);
}

#[test]
fn report_lines_are_machine_readable() {
    assert_eq!(machine_detail("  two   words\there "), "two_words_here");
    assert_eq!(machine_detail(""), "");
    assert_eq!(
        report_line("display", &result(CheckStatus::Skip, "no display attached")),
        "check=display status=skip detail=no_display_attached"
    );
    assert!(any_failed(&vec![result(CheckStatus::Pass, "a"), result(CheckStatus::Fail, "b")]));
    assert!(!any_failed(&vec![result(CheckStatus::Skip, "a")]));
    assert_eq!(bounded_external_output("a\r\nb\tc"), "a  b c");
    assert_eq!(bounded_external_output(&"x".repeat(600)).chars().count(), 512);
}

#[test]
fn checks_prefer_the_available_default_device() {
    let mut first = AudioDeviceInfo::new("mic-a", "Mic A", AudioDeviceKind::Input).expect("device");
    first.set_available(true);
    let mut second = AudioDeviceInfo::new("mic-b", "Mic B", AudioDeviceKind::Input).expect("device");
    second.set_default(true);
    let output = AudioDeviceInfo::new("out", "Speakers", AudioDeviceKind::Output).expect("device");
    let devices = vec![first, second, output];
    assert_eq!(selected_audio_device(&devices, AudioDeviceKind::Input), Some(1));
    assert_eq!(selected_audio_device(&devices, AudioDeviceKind::Output), Some(2));
    let mut unavailable = AudioDeviceInfo::new("gone", "Gone", AudioDeviceKind::Input).expect("device");
    unavailable.set_available(false);
    assert_eq!(selected_audio_device(&vec![unavailable], AudioDeviceKind::Input), None);
    assert_eq!(audio_kind_name(AudioDeviceKind::Output), "output");
}

#[test]
fn persistence_keeps_the_first_window_that_captures() {
    let attempts = vec![
        ("wgc-window-1".to_owned(), CaptureAttempt::Failed("closed".to_owned())),
        ("wgc-window-2".to_owned(), CaptureAttempt::Captured),
        ("wgc-window-3".to_owned(), CaptureAttempt::Captured),
    ];
    assert_eq!(select_window(&attempts), WindowSelection::Selected(1));
    assert_eq!(select_window(&vec![]), WindowSelection::NoCandidates);
    let unavailable = vec![
        ("a".to_owned(), CaptureAttempt::Unavailable("denied".to_owned())),
        ("b".to_owned(), CaptureAttempt::Unavailable("blocked".to_owned())),
    ];
    assert_eq!(
        select_window(&unavailable),
        WindowSelection::Skip(
            "target persistence found no capturable window: a: unavailable: denied; b: unavailable: blocked"
                .to_owned()
        )
    );
    let mixed = vec![
        ("a".to_owned(), CaptureAttempt::Unavailable("denied".to_owned())),
        ("b".to_owned(), CaptureAttempt::Failed("timeout".to_owned())),
    ];
    assert_eq!(
        select_window(&mixed),
        WindowSelection::Fail(
            "target persistence found no capturable window: a: unavailable: denied; b: timeout".to_owned()
        )
    );
}

#[test]
fn display_catalog_needs_one_primary_and_real_sizes() {
    let displays = vec![
        display("wgc-screen-1", 0, 0, 1920, 1080, true),
        display("wgc-screen-2", -1280, 0, 1280, 1024, false),
    ];
    assert_eq!(check_displays(&displays), Ok(1));
    let two_primaries = vec![display("a", 0, 0, 10, 10, true), display("b", 10, 0, 10, 10, true)];
    assert_eq!(check_displays(&two_primaries), Err("display discovery reported 2 primary displays".to_owned()));
    let zero = vec![display("a", 0, 0, 0, 10, true)];
    assert_eq!(check_displays(&zero), Err("display discovery reported a zero-sized display".to_owned()));
}

#[test]
fn check_results_carry_their_status() {
    assert_eq!(CheckResult::pass("ok".to_owned()).status, CheckStatus::Pass);
    assert_eq!(CheckResult::skip("later".to_owned()).detail, "later");
    assert_eq!(CheckResult::fail("bad".to_owned()).status.word(), "fail");
    assert_eq!(obs_rs::benchmark::display_optional(Some(42)), "42");
    assert_eq!(obs_rs::benchmark::display_optional(None), "unavailable");
}
