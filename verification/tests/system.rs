use bluehash::system::{
    command, detect_os_version, is_local_system, is_system_account, log_dir, os_version_of,
    request_stop, should_stop, Command, LogBase, StopFlag,
};

#[test]
fn stop_flag_is_set_by_a_request() {
    let mut flag = StopFlag::new();
    assert!(!should_stop(&flag));
    request_stop(&mut flag);
    assert!(should_stop(&flag));
}

#[test]
fn commands() {
    assert_eq!(command(None), Command::Run);
    assert_eq!(command(Some("install")), Command::Install);
    assert_eq!(command(Some("uninstall")), Command::Uninstall);
    assert_eq!(command(Some("start")), Command::Start);
    assert_eq!(command(Some("stop")), Command::Stop);
    assert_eq!(command(Some("version")), Command::Version);
    assert_eq!(command(Some("--version")), Command::Version);
    assert_eq!(command(Some("Install")), Command::Run);
    assert_eq!(command(Some("")), Command::Run);
}

#[test]
fn version_of_the_system() {
    let printed = b"\r\nMicrosoft Windows [Version 10.0.22631.4317]\r\n".to_vec();
    assert_eq!(detect_os_version(Some(printed)), "Windows 10.0.22631.4317");
    assert_eq!(detect_os_version(None), "Windows");
    assert_eq!(detect_os_version(Some(vec![0xff, 0xfe])), "Windows");
    let mut broken = b"[Version 1".to_vec();
    broken.extend([0xff, b']']);
    assert_eq!(detect_os_version(Some(broken)), "Windows 1\u{fffd}");
}

#[test]
fn version_in_other_texts() {
    assert_eq!(os_version_of(""), "Windows");
    assert_eq!(os_version_of("Microsoft Windows [Version ]"), "Windows");
    assert_eq!(os_version_of("Microsoft Windows [Version 10.0"), "Windows");
    assert_eq!(os_version_of("[Version 1] [Version 2]"), "Windows 1] [Version 2");
    assert_eq!(os_version_of("[version 1]"), "Windows");
}

#[test]
fn place_of_the_log() {
    assert_eq!(log_dir(true, true, true, true), LogBase::ProgramData);
    assert_eq!(log_dir(true, true, false, true), LogBase::ProgramData);
    assert_eq!(log_dir(true, false, true, true), LogBase::DefaultProgramData);
    assert_eq!(log_dir(false, true, true, true), LogBase::LocalAppData);
    assert_eq!(log_dir(false, false, true, true), LogBase::LocalAppData);
    assert_eq!(log_dir(false, true, false, true), LogBase::DataLocalDir);
    assert_eq!(log_dir(false, true, false, false), LogBase::Current);
}

#[test]
fn log_without_variables_goes_to_the_current_directory() {
    for local_system in [false, true] {
        for has_data_local_dir in [false, true] {
            assert_eq!(log_dir(local_system, false, false, has_data_local_dir), LogBase::Current);
        }
    }
}

#[test]
fn local_system_is_one_account() {
    assert!(is_local_system(false, Some("SYSTEM")));
    assert!(is_local_system(false, Some("System")));
    assert!(is_local_system(true, Some("HOST$")));
    assert!(is_local_system(true, None));
    for user in ["systems", "LocalSystem$", "ada", ""] {
        assert!(!is_local_system(false, Some(user)));
    }
    assert!(!is_local_system(false, None));
    assert!(is_system_account("system"));
    assert!(!is_system_account("SYSTEM") && !is_system_account("a system"));
}
