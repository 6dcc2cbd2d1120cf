use egui_backend_selector::{
    determine_backend, display_is_remote, linux_backend, Backend, Decision, HostProbe, Platform,
};

#[test]
fn local_displays_are_not_remote() {
    assert!(!display_is_remote(":0"));
    assert!(!display_is_remote(":1.0"));
    assert!(!display_is_remote("localhost/unix:0"));
    assert!(!display_is_remote("/unix:"));
}

#[test]
fn forwarded_displays_are_remote() {
    assert!(display_is_remote("localhost:10.0"));
    assert!(display_is_remote("192.168.1.2:0"));
    assert!(display_is_remote(""));
    assert!(display_is_remote("host/unix0"));
    assert!(display_is_remote("x:0"));
}

#[test]
fn linux_backend_rules() {
    assert_eq!(linux_backend(None), Backend::Eframe);
    assert_eq!(linux_backend(Some(":0")), Backend::Eframe);
    assert_eq!(linux_backend(Some("localhost:10.0")), Backend::SoftwareBackend);
    assert_eq!(linux_backend(Some("host/unix:1")), Backend::Eframe);
}

#[test]
fn linux_and_other_platforms_decide_at_once() {
    let none: Vec<bool> = Vec::new();
    assert_eq!(
        determine_backend(&Platform::Linux { display: None }, &none),
        Decision::Decided(Some(Backend::Eframe))
    );
    assert_eq!(
        determine_backend(&Platform::Linux { display: Some("remote:0".to_string()) }, &none),
        Decision::Decided(Some(Backend::SoftwareBackend))
    );
    assert_eq!(determine_backend(&Platform::Other, &none), Decision::Decided(Some(Backend::Eframe)));
}

fn windows(answers: &[bool]) -> Decision {
    determine_backend(&Platform::Windows, &answers.to_vec())
}

#[test]
fn windows_probe_order() {
    assert_eq!(windows(&[]), Decision::Probe(HostProbe::OtherThread));
    assert_eq!(windows(&[false]), Decision::Probe(HostProbe::RemoteSession));
    assert_eq!(windows(&[false, false]), Decision::Probe(HostProbe::Hypervisor));
    assert_eq!(windows(&[false, false, true]), Decision::Probe(HostProbe::VmwareGlDriver));
    assert_eq!(windows(&[false, false, true, false]), Decision::Probe(HostProbe::VirtualBoxGlDriver));
    assert_eq!(windows(&[false, false, true, false, false]), Decision::Probe(HostProbe::OpenGl));
    assert_eq!(windows(&[false, false, false]), Decision::Probe(HostProbe::OpenGl));
    assert_eq!(windows(&[false, false, false, true]), Decision::Probe(HostProbe::OpenGl32Window));
}

#[test]
fn windows_off_main_thread_decides_nothing() {
    assert_eq!(windows(&[true]), Decision::Decided(None));
    assert_eq!(windows(&[true, false, false]), Decision::Decided(None));
}

#[test]
fn windows_remote_desktop_gets_software() {
    assert_eq!(windows(&[false, true]), Decision::Decided(Some(Backend::SoftwareBackend)));
}

#[test]
fn windows_vmware_and_virtualbox_get_software() {
    assert_eq!(windows(&[false, false, true, true]), Decision::Decided(Some(Backend::SoftwareBackend)));
    assert_eq!(windows(&[false, false, true, false, true]), Decision::Decided(Some(Backend::SoftwareBackend)));
}

#[test]
fn windows_other_hypervisor_checks_opengl() {
    assert_eq!(
        windows(&[false, false, true, false, false, true, true]),
        Decision::Decided(Some(Backend::Eframe))
    );
}

#[test]
fn windows_without_opengl_gets_software() {
    assert_eq!(windows(&[false, false, false, false]), Decision::Decided(Some(Backend::SoftwareBackend)));
    assert_eq!(windows(&[false, false, false, true, false]), Decision::Decided(Some(Backend::SoftwareBackend)));
}

#[test]
fn windows_with_opengl_3_2_gets_eframe() {
    assert_eq!(windows(&[false, false, false, true, true]), Decision::Decided(Some(Backend::Eframe)));
    // Answers past the decision are ignored.
    assert_eq!(windows(&[false, false, false, true, true, false]), Decision::Decided(Some(Backend::Eframe)));
}
