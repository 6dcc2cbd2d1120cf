use egui_backend_selector::{
    begin_launch, begin_launch_on_current_thread, get_backend, is_launched, overwrite_backend,
    thread_probe_answer, Backend, LaunchError, Selection, ThreadKind, NUM_BACKENDS,
};

#[test]
fn backend_names() {
    assert_eq!(Backend::SoftwareBackend.name(), "Software Backend");
    assert_eq!(Backend::Eframe.name(), "eframe");
}

#[test]
fn selection_codes() {
    let all = [
        (Selection::Undecided, 0usize),
        (Selection::Chosen(Backend::SoftwareBackend), 1),
        (Selection::Chosen(Backend::Eframe), 2),
        (Selection::Launched(Backend::SoftwareBackend), 3),
        (Selection::Launched(Backend::Eframe), 4),
    ];
    for (s, code) in all {
        assert_eq!(s.code(), code);
        assert_eq!(Selection::from_code(code), Some(s));
        assert_eq!(is_launched(&s), code > NUM_BACKENDS);
    }
    assert_eq!(Selection::from_code(5), None);
    assert_eq!(Selection::from_code(usize::MAX), None);
}

#[test]
fn overwrite_before_launch_selects() {
    let mut s = Selection::Undecided;
    overwrite_backend(&mut s, Backend::Eframe);
    assert_eq!(s, Selection::Chosen(Backend::Eframe));
    overwrite_backend(&mut s, Backend::SoftwareBackend);
    assert_eq!(s, Selection::Chosen(Backend::SoftwareBackend));
    assert!(!is_launched(&s));
}

#[test]
fn overwrite_after_launch_has_no_effect() {
    let mut s = Selection::Launched(Backend::Eframe);
    overwrite_backend(&mut s, Backend::SoftwareBackend);
    assert_eq!(s, Selection::Launched(Backend::Eframe));
    assert!(is_launched(&s));
}

#[test]
fn get_backend_probes_once_and_keeps_the_answer() {
    let mut s = Selection::Undecided;
    assert_eq!(get_backend(&mut s, || Some(Backend::SoftwareBackend)), Some(Backend::SoftwareBackend));
    assert_eq!(s, Selection::Chosen(Backend::SoftwareBackend));
    // A later call answers with the kept backend and does not probe.
    assert_eq!(
        get_backend(&mut s, || -> Option<Backend> { panic!("must not probe again") }),
        Some(Backend::SoftwareBackend)
    );
}

#[test]
fn get_backend_without_answer_stays_undecided() {
    let mut s = Selection::Undecided;
    assert_eq!(get_backend(&mut s, || None), None);
    assert_eq!(s, Selection::Undecided);
    assert_eq!(get_backend(&mut s, || Some(Backend::Eframe)), Some(Backend::Eframe));
    assert_eq!(s, Selection::Chosen(Backend::Eframe));
}

#[test]
fn overwrite_then_get_answers_without_probing() {
    let mut s = Selection::Undecided;
    overwrite_backend(&mut s, Backend::Eframe);
    assert_eq!(get_backend(&mut s, || -> Option<Backend> { panic!("must not probe") }), Some(Backend::Eframe));
}

#[test]
fn get_backend_on_launched_selection() {
    let mut s = Selection::Launched(Backend::SoftwareBackend);
    assert_eq!(get_backend(&mut s, || Some(Backend::Eframe)), Some(Backend::SoftwareBackend));
    assert_eq!(s, Selection::Launched(Backend::SoftwareBackend));
}

#[test]
fn launch_refused_off_main_thread() {
    let mut s = Selection::Chosen(Backend::Eframe);
    assert_eq!(begin_launch(&mut s, ThreadKind::Other, || None), Err(LaunchError::NotMainThread));
    assert_eq!(s, Selection::Chosen(Backend::Eframe));
    assert_eq!(LaunchError::NotMainThread.message(), "Current thread is not the main thread");
}

#[test]
fn launch_refused_twice() {
    let mut s = Selection::Undecided;
    assert_eq!(begin_launch(&mut s, ThreadKind::Main, || Some(Backend::Eframe)), Ok(Backend::Eframe));
    assert_eq!(s, Selection::Launched(Backend::Eframe));
    assert!(is_launched(&s));
    assert_eq!(begin_launch(&mut s, ThreadKind::Main, || None), Err(LaunchError::AlreadyLaunched));
    assert_eq!(s, Selection::Launched(Backend::Eframe));
    assert_eq!(LaunchError::AlreadyLaunched.message(), "Application already launched");
}

#[test]
fn launch_uses_the_chosen_backend() {
    let mut s = Selection::Chosen(Backend::SoftwareBackend);
    assert_eq!(
        begin_launch(&mut s, ThreadKind::Unknown, || -> Option<Backend> { panic!("must not probe") }),
        Ok(Backend::SoftwareBackend)
    );
    assert_eq!(s, Selection::Launched(Backend::SoftwareBackend));
}

#[test]
fn launch_falls_back_to_software() {
    let mut s = Selection::Undecided;
    assert_eq!(begin_launch(&mut s, ThreadKind::Main, || None), Ok(Backend::SoftwareBackend));
    assert_eq!(s, Selection::Launched(Backend::SoftwareBackend));
}

#[test]
fn launch_on_current_thread_matches_the_thread() {
    let mut s = Selection::Chosen(Backend::Eframe);
    let r = begin_launch_on_current_thread(&mut s, || None);
    match r {
        // Test threads are not the process's main thread on most platforms.
        Err(LaunchError::NotMainThread) => assert_eq!(s, Selection::Chosen(Backend::Eframe)),
        Ok(b) => {
            assert_eq!(b, Backend::Eframe);
            assert_eq!(s, Selection::Launched(Backend::Eframe));
        }
        Err(LaunchError::AlreadyLaunched) => panic!("nothing was launched before"),
    }
}

#[test]
fn overwrite_then_launch_runs_the_overwritten_backend() {
    let mut s = Selection::Undecided;
    overwrite_backend(&mut s, Backend::Eframe);
    assert_eq!(
        begin_launch(&mut s, ThreadKind::Main, || -> Option<Backend> { panic!("must not probe") }),
        Ok(Backend::Eframe)
    );
    assert_eq!(s, Selection::Launched(Backend::Eframe));
}

#[test]
fn thread_probe_counts_only_other_threads() {
    assert!(thread_probe_answer(ThreadKind::Other));
    assert!(!thread_probe_answer(ThreadKind::Main));
    assert!(!thread_probe_answer(ThreadKind::Unknown));
}
