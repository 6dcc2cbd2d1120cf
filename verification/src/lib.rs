//! Picks the egui backend that works on the running system and tracks that
//! choice through the application's life: undecided, chosen, launched.
//!
//! The library is the decision logic: the selection state machine, the
//! per-platform rules that pick a backend, the checks made before a launch and
//! the key/value store that persists application state. Reading the
//! environment, probing the graphics stack and running the GUI stay with the
//! caller, which hands the results in as plain values.

mod backend;
mod launch;
mod laws;
mod platform;
mod selection;
mod storage;

pub use backend::{Backend, NUM_BACKENDS};
pub use launch::{
    begin_launch, begin_launch_on_current_thread, launch_backend, spec_begin_launch, thread_probe_answer,
    thread_probe_answer_on_current_thread, thread_probe_answer_spec,
    LaunchError, ThreadKind,
};
pub use laws::{
    a_passing_launch_lasts, host_answers, linux_decision_follows_display, remote_display_rule,
    windows_decision_follows_the_host, clean_store_matches_its_file, launched_selection_is_final,
    saved_state_survives_restart, store_call_holds, store_history_follows_the_model, get_backend_is_stable, get_backend_on_main_thread_answers,
    last_set, launch_is_final, launched_only_by_a_passing_launch, loaded_store, reload, run_selection,
    run_store, selection_after, store_after, store_reads_back_the_last_write, SelectionCall,
    StoreCall, StoreModel,
    launch_succeeds_iff, launch_uses_the_selection, linux_rules, only_windows_probes,
    overwrite_after_launch_has_no_effect, overwrite_then_get_answers_it,
    overwrite_then_launch_runs_it, selecting_never_launches, selection_codes_round_trip,
    store_reads_back_writes, windows_answers, windows_probing_decides,
};
pub use platform::{
    determine_backend, display_is_remote, is_remote_display, linux_backend, seq_contains,
    spec_determine_backend, spec_linux_backend, unix_socket_marker, windows_choice,
    windows_replay, windows_step, Decision, HostProbe, Platform, WindowsHost,
};
pub use selection::{
    get_backend, is_launched, overwrite_backend, selected_backend, spec_code, spec_from_code,
    spec_get_backend, spec_overwrite, Selection,
};
pub use storage::{
    keys_distinct, load_store, map_of_pairs, pairs_view, ron_string_map, spec_load_store, KVStorage,
};
