use vstd::prelude::*;

use crate::backend::{Backend, NUM_BACKENDS};
use crate::launch::{spec_begin_launch, LaunchError, ThreadKind};
use crate::platform::{
    is_remote_display, seq_contains, spec_linux_backend, unix_socket_marker,
    spec_determine_backend, windows_choice, windows_replay, windows_step, Decision, HostProbe,
    Platform, WindowsHost,
};
use crate::storage::{ron_string_map, spec_load_store, KVStorage};
use crate::selection::{selected_backend, spec_code, spec_from_code, spec_get_backend, spec_overwrite, Selection};

verus! {

/// Overwriting the backend has no effect once the application was launched.
pub proof fn overwrite_after_launch_has_no_effect(s: Selection, backend: Backend)
    requires
        s is Launched,
    ensures
        spec_overwrite(s, backend) == s,
{
}

/// Before the launch, a backend set by `overwrite_backend` is the one that
/// `get_backend` answers with, whatever probing would report, and it stays
/// selected.
pub proof fn overwrite_then_get_answers_it(s: Selection, backend: Backend, probed: Option<Backend>)
    requires
        !(s is Launched),
    ensures
        spec_get_backend(spec_overwrite(s, backend), probed)
            == (Selection::Chosen(backend), Some(backend)),
{
}

/// Once `get_backend` has answered with a backend, every later call answers
/// with the same backend and changes nothing, whatever probing would report.
pub proof fn get_backend_is_stable(s: Selection, probed: Option<Backend>, later: Option<Backend>)
    requires
        spec_get_backend(s, probed).1 is Some,
    ensures
        spec_get_backend(spec_get_backend(s, probed).0, later) == spec_get_backend(s, probed),
        spec_get_backend(s, probed).1 == selected_backend(spec_get_backend(s, probed).0),
{
}

/// Selecting never launches: neither `overwrite_backend` nor `get_backend`
/// turns an unlaunched selection into a launched one, and neither changes a
/// launched one.
pub proof fn selecting_never_launches(s: Selection, backend: Backend, probed: Option<Backend>)
    ensures
        !(s is Launched) ==> !(spec_overwrite(s, backend) is Launched),
        !(s is Launched) ==> !(spec_get_backend(s, probed).0 is Launched),
        s is Launched ==> spec_overwrite(s, backend) == s && spec_get_backend(s, probed).0 == s,
{
}

/// A launch succeeds exactly when it is attempted from a thread not known to
/// be another than the main one and nothing was launched before; a refused
/// launch leaves the selection as it was.
pub proof fn launch_succeeds_iff(s: Selection, thread: ThreadKind, probed: Option<Backend>)
    ensures
        spec_begin_launch(s, thread, probed).1 is Ok <==> (thread != ThreadKind::Other && !(s is Launched)),
        spec_begin_launch(s, thread, probed).1 is Err ==> spec_begin_launch(s, thread, probed).0 == s,
        thread == ThreadKind::Other ==> spec_begin_launch(s, thread, probed).1 == Err::<Backend, LaunchError>(LaunchError::NotMainThread),
{
}

/// A launch runs with the backend selected before it, with the one probing
/// reports when none was selected, and with the software backend when
/// probing reports none.
pub proof fn launch_uses_the_selection(s: Selection, thread: ThreadKind, probed: Option<Backend>)
    requires
        thread != ThreadKind::Other,
        !(s is Launched),
    ensures
        s matches Selection::Chosen(b) ==> spec_begin_launch(s, thread, probed).1 == Ok::<Backend, LaunchError>(b),
        s is Undecided ==> (probed matches Some(b) ==> spec_begin_launch(s, thread, probed).1 == Ok::<Backend, LaunchError>(b)),
        s is Undecided && probed is None ==> spec_begin_launch(s, thread, probed).1
            == Ok::<Backend, LaunchError>(Backend::SoftwareBackend),
{
}

/// A backend set by `overwrite_backend` before the launch is the one the
/// launch runs with, without probing the system.
pub proof fn overwrite_then_launch_runs_it(s: Selection, backend: Backend, thread: ThreadKind, probed: Option<Backend>)
    requires
        !(s is Launched),
        thread != ThreadKind::Other,
    ensures
        spec_begin_launch(spec_overwrite(s, backend), thread, probed)
            == (Selection::Launched(backend), Ok::<Backend, LaunchError>(backend)),
{
}

/// After a successful launch the selection is launched with the backend the
/// launch ran with: a second launch is refused, `get_backend` answers with
/// that backend and `overwrite_backend` has no effect.
pub proof fn launch_is_final(
    s: Selection,
    thread: ThreadKind,
    probed: Option<Backend>,
    next_thread: ThreadKind,
    later: Option<Backend>,
    other: Backend,
)
    requires
        spec_begin_launch(s, thread, probed).1 is Ok,
    ensures
        ({
            let (t, r) = spec_begin_launch(s, thread, probed);
            &&& t == Selection::Launched(r->Ok_0)
            &&& spec_begin_launch(t, next_thread, later).0 == t
            &&& spec_begin_launch(t, next_thread, later).1 is Err
            &&& next_thread != ThreadKind::Other ==> spec_begin_launch(t, next_thread, later).1
                == Err::<Backend, LaunchError>(LaunchError::AlreadyLaunched)
            &&& spec_get_backend(t, later) == (t, Some(r->Ok_0))
            &&& spec_overwrite(t, other) == t
        }),
{
}

/// Every selection is stored under a number no larger than four and read back
/// as itself; a number read back as a selection is the one it is stored
/// under; a selection is launched exactly when its number exceeds the number
/// of backends.
pub proof fn selection_codes_round_trip(s: Selection, code: usize)
    ensures
        spec_code(s) <= 4,
        spec_from_code(spec_code(s)) == Some(s),
        spec_from_code(code) matches Some(t) ==> spec_code(t) == code,
        (s is Launched) <==> spec_code(s) > NUM_BACKENDS,
{
}

/// The answers a Windows host gives when the decision asks it `n` times (or
/// fewer, once the decision is made).
pub open spec fn windows_answers(h: WindowsHost, n: nat) -> Seq<bool>
    decreases n,
{
    if n == 0 {
        Seq::empty()
    } else {
        let prev = windows_answers(h, (n - 1) as nat);
        match windows_replay(HostProbe::OtherThread, prev) {
            Decision::Probe(p) => prev.push(h.answer(p)),
            Decision::Decided(_) => prev,
        }
    }
}

proof fn replay_push(q: HostProbe, s: Seq<bool>, a: bool)
    ensures
        windows_replay(q, s.push(a)) == match windows_replay(q, s) {
            Decision::Probe(p) => windows_step(p, a),
            Decision::Decided(c) => Decision::Decided(c),
        },
    decreases s.len(),
{
    let t = s.push(a);
    if s.len() == 0 {
        assert(t.drop_first() =~= Seq::<bool>::empty());
        assert(t[0] == a);
        match windows_step(q, a) {
            Decision::Probe(next) => {
                assert(windows_replay(next, t.drop_first()) == Decision::Probe(next));
            },
            Decision::Decided(_) => {},
        }
    } else {
        assert(t.drop_first() =~= s.drop_first().push(a));
        assert(t[0] == s[0]);
        match windows_step(q, s[0]) {
            Decision::Probe(next) => {
                replay_push(next, s.drop_first(), a);
            },
            Decision::Decided(_) => {},
        }
    }
}

proof fn windows_answers_step(h: WindowsHost, n: nat)
    requires
        n > 0,
    ensures
        windows_replay(HostProbe::OtherThread, windows_answers(h, n)) == match windows_replay(
            HostProbe::OtherThread,
            windows_answers(h, (n - 1) as nat),
        ) {
            Decision::Probe(p) => windows_step(p, h.answer(p)),
            Decision::Decided(c) => Decision::Decided(c),
        },
{
    let prev = windows_answers(h, (n - 1) as nat);
    match windows_replay(HostProbe::OtherThread, prev) {
        Decision::Probe(p) => replay_push(HostProbe::OtherThread, prev, h.answer(p)),
        Decision::Decided(_) => {},
    }
}

/// Answering the Windows probes the decision asks, as the host would, makes
/// the decision within seven probes, and it is the host's backend: none from
/// another thread than the main one; the software backend in a Remote Desktop
/// session, in a VMware or VirtualBox machine with its OpenGL driver, and
/// without OpenGL 3.2; eframe otherwise.
pub proof fn windows_probing_decides(h: WindowsHost)
    ensures
        windows_replay(HostProbe::OtherThread, windows_answers(h, 7)) == Decision::Decided(windows_choice(h)),
        windows_choice(h) is None <==> h.other_thread,
{
    assert(windows_answers(h, 0) =~= Seq::<bool>::empty());
    windows_answers_step(h, 1);
    windows_answers_step(h, 2);
    windows_answers_step(h, 3);
    windows_answers_step(h, 4);
    windows_answers_step(h, 5);
    windows_answers_step(h, 6);
    windows_answers_step(h, 7);
}

/// Off Windows the decision is made at once and always names a backend: on
/// Linux eframe unless `DISPLAY` names a remote X11 display, elsewhere eframe.
pub proof fn only_windows_probes(platform: Platform, answers: Seq<bool>)
    requires
        !(platform is Windows),
    ensures
        spec_determine_backend(platform, answers) matches Decision::Decided(Some(_)),
        platform is Other ==> spec_determine_backend(platform, answers) == Decision::Decided(Some(Backend::Eframe)),
{
}

/// On Linux, eframe is chosen on Wayland (no `DISPLAY`), for a local X11
/// display (one starting with `:`) and for a display reached through a local
/// socket (one holding `/unix:`); the software backend for any other X11
/// display, such as one forwarded over SSH.
pub proof fn linux_rules(display: Seq<char>)
    ensures
        spec_linux_backend(None) == Backend::Eframe,
        display.len() > 0 && display[0] == ':' ==> spec_linux_backend(Some(display)) == Backend::Eframe,
        seq_contains(display, unix_socket_marker()) ==> spec_linux_backend(Some(display)) == Backend::Eframe,
        spec_linux_backend(Some(display)) == Backend::SoftwareBackend <==> is_remote_display(display),
{
}

/// Called from the main thread, `get_backend` always answers with a backend:
/// whatever was selected before, or what probing the platform decides, which
/// names a backend everywhere except on Windows off the main thread.
pub proof fn get_backend_on_main_thread_answers(s: Selection, platform: Platform, h: WindowsHost, answers: Seq<bool>)
    requires
        !h.other_thread,
    ensures
        ({
            let probed = match platform {
                Platform::Windows => windows_choice(h),
                _ => spec_determine_backend(platform, answers)->Decided_0,
            };
            spec_get_backend(s, probed).1 is Some
        }),
{
}

/// A value read back after it was stored under a key is that value; storing
/// under one key leaves what other keys hold as it was.
pub proof fn store_reads_back_writes(
    m: Map<Seq<char>, Seq<char>>,
    key: Seq<char>,
    value: Seq<char>,
    other: Seq<char>,
)
    ensures
        m.insert(key, value).contains_key(key),
        m.insert(key, value)[key] == value,
        other != key ==> (m.insert(key, value).contains_key(other) == m.contains_key(other)),
        other != key && m.contains_key(other) ==> m.insert(key, value)[other] == m[other],
{
}

/// A call on the selection, with what probing reported where the call
/// probes and, for a launch, the calling thread.
pub enum SelectionCall {
    Overwrite(Backend),
    Get(Option<Backend>),
    Launch(ThreadKind, Option<Backend>),
}

/// The selection after one call, as the functions' contracts give it.
pub open spec fn selection_after(s: Selection, c: SelectionCall) -> Selection {
    match c {
        SelectionCall::Overwrite(b) => spec_overwrite(s, b),
        SelectionCall::Get(p) => spec_get_backend(s, p).0,
        SelectionCall::Launch(t, p) => spec_begin_launch(s, t, p).0,
    }
}

/// The selection after a sequence of calls, in order.
pub open spec fn run_selection(s: Selection, calls: Seq<SelectionCall>) -> Selection
    decreases calls.len(),
{
    if calls.len() == 0 {
        s
    } else {
        selection_after(run_selection(s, calls.drop_last()), calls.last())
    }
}

/// A selection is launched only through a launch that passed both checks: an
/// unlaunched selection becomes launched after a sequence of calls only if one
/// of them was a launch, from a thread not known to be another than the main
/// one, made while the selection was not yet launched.
pub proof fn launched_only_by_a_passing_launch(s: Selection, calls: Seq<SelectionCall>)
    requires
        !(s is Launched),
    ensures
        run_selection(s, calls) is Launched ==> exists|i: int| #![trigger calls[i]]
            0 <= i < calls.len()
            && (calls[i] matches SelectionCall::Launch(t, _) && t != ThreadKind::Other)
            && !(run_selection(s, calls.take(i)) is Launched)
            && run_selection(s, calls.take(i + 1)) is Launched,
    decreases calls.len(),
{
    if calls.len() > 0 {
        let init = calls.drop_last();
        let n = calls.len() - 1;
        assert(calls.take(n) =~= init);
        assert(calls.take(n + 1) =~= calls);
        launched_only_by_a_passing_launch(s, init);
        if run_selection(s, init) is Launched {
            let i = choose|i: int| #![trigger init[i]]
                0 <= i < init.len()
                && (init[i] matches SelectionCall::Launch(t, _) && t != ThreadKind::Other)
                && !(run_selection(s, init.take(i)) is Launched)
                && run_selection(s, init.take(i + 1)) is Launched;
            assert(calls[i] == init[i]);
            assert(calls.take(i) =~= init.take(i));
            assert(calls.take(i + 1) =~= init.take(i + 1));
        } else if run_selection(s, calls) is Launched {
            assert(calls[n] == calls.last());
            assert(calls[n] matches SelectionCall::Launch(t, _) && t != ThreadKind::Other);
        }
    }
}

proof fn run_selection_append(s: Selection, a: Seq<SelectionCall>, b: Seq<SelectionCall>)
    ensures
        run_selection(s, a + b) == run_selection(run_selection(s, a), b),
    decreases b.len(),
{
    if b.len() == 0 {
        assert(a + b =~= a);
    } else {
        assert((a + b).drop_last() =~= a + b.drop_last());
        assert((a + b).last() == b.last());
        run_selection_append(s, a, b.drop_last());
    }
}

/// A launched selection stays as it is whatever calls follow.
pub proof fn launched_selection_is_final(s: Selection, calls: Seq<SelectionCall>)
    requires
        s is Launched,
    ensures
        run_selection(s, calls) == s,
    decreases calls.len(),
{
    if calls.len() > 0 {
        launched_selection_is_final(s, calls.drop_last());
    }
}

/// A launch that passes both checks launches the selection for good: after
/// it, and after any calls that follow, the selection is launched with the
/// backend that launch chose.
pub proof fn a_passing_launch_lasts(s: Selection, calls: Seq<SelectionCall>, i: int)
    requires
        0 <= i < calls.len(),
        calls[i] matches SelectionCall::Launch(t, _) && t != ThreadKind::Other,
        !(run_selection(s, calls.take(i)) is Launched),
    ensures
        run_selection(s, calls.take(i + 1)) is Launched,
        run_selection(s, calls) == run_selection(s, calls.take(i + 1)),
{
    assert(calls.take(i + 1).drop_last() =~= calls.take(i));
    assert(calls.take(i + 1).last() == calls[i]);
    assert(calls =~= calls.take(i + 1) + calls.skip(i + 1));
    run_selection_append(s, calls.take(i + 1), calls.skip(i + 1));
    launched_selection_is_final(run_selection(s, calls.take(i + 1)), calls.skip(i + 1));
}

/// A call on the key/value store. A flush reports whether writing succeeded
/// and, where it did not, what the file holds afterwards.
pub enum StoreCall {
    Store(Seq<char>, Seq<char>),
    Read(Seq<char>),
    Flush(bool, Option<Map<Seq<char>, Seq<char>>>),
}

/// The store's contents, whether it is dirty, and what its file reads back
/// as (`None` where there is no file).
pub struct StoreModel {
    pub contents: Map<Seq<char>, Seq<char>>,
    pub dirty: bool,
    pub file: Option<Map<Seq<char>, Seq<char>>>,
}

/// The store after one call, as the functions' contracts give it: storing a
/// value makes the store dirty; a flush of a dirty store writes bytes that
/// read back as its contents and, where that succeeded, makes it clean.
pub open spec fn store_after(m: StoreModel, c: StoreCall) -> StoreModel {
    match c {
        StoreCall::Store(k, v) => StoreModel { contents: m.contents.insert(k, v), dirty: true, file: m.file },
        StoreCall::Read(_) => m,
        StoreCall::Flush(ok, left) => if !m.dirty {
            m
        } else if ok {
            StoreModel { contents: m.contents, dirty: false, file: Some(m.contents) }
        } else {
            StoreModel { contents: m.contents, dirty: true, file: left }
        },
    }
}

/// The store after a sequence of calls, in order.
pub open spec fn run_store(m: StoreModel, calls: Seq<StoreCall>) -> StoreModel
    decreases calls.len(),
{
    if calls.len() == 0 {
        m
    } else {
        store_after(run_store(m, calls.drop_last()), calls.last())
    }
}

/// The store that loading `saved` (the bytes of the file, where there is
/// one) yields, with the file it was loaded from.
pub open spec fn loaded_store(saved: Option<Seq<u8>>) -> StoreModel {
    StoreModel {
        contents: spec_load_store(saved)->0,
        dirty: false,
        file: match saved {
            Some(b) => ron_string_map(b),
            None => None,
        },
    }
}

/// What loading the file yields: its map, or the empty map where there is no
/// file.
pub open spec fn reload(file: Option<Map<Seq<char>, Seq<char>>>) -> Map<Seq<char>, Seq<char>> {
    match file {
        Some(m) => m,
        None => Map::empty(),
    }
}

/// A clean store matches its file, so that its state survives a restart:
/// from a successful load, after any sequence of calls, a store that is not
/// dirty holds exactly what loading its file again yields.
pub proof fn clean_store_matches_its_file(saved: Option<Seq<u8>>, calls: Seq<StoreCall>)
    requires
        spec_load_store(saved) is Some,
    ensures
        !run_store(loaded_store(saved), calls).dirty ==> reload(run_store(loaded_store(saved), calls).file)
            == run_store(loaded_store(saved), calls).contents,
    decreases calls.len(),
{
    if calls.len() > 0 {
        clean_store_matches_its_file(saved, calls.drop_last());
    }
}

/// The value of the last `Store` for `key` among `calls`, if any.
pub open spec fn last_set(calls: Seq<StoreCall>, key: Seq<char>) -> Option<Seq<char>>
    decreases calls.len(),
{
    if calls.len() == 0 {
        None
    } else {
        match calls.last() {
            StoreCall::Store(k, v) => if k == key {
                Some(v)
            } else {
                last_set(calls.drop_last(), key)
            },
            _ => last_set(calls.drop_last(), key),
        }
    }
}

/// A value reads back after any later calls that do not store under its key:
/// after a sequence of calls a key holds the value last stored under it, or,
/// where nothing was stored under it, what it held before; a store is dirty
/// after any call that stores a value.
pub proof fn store_reads_back_the_last_write(m: StoreModel, calls: Seq<StoreCall>, key: Seq<char>)
    ensures
        last_set(calls, key) matches Some(v) ==> run_store(m, calls).contents.contains_key(key)
            && run_store(m, calls).contents[key] == v,
        last_set(calls, key) is None ==> (run_store(m, calls).contents.contains_key(key) == m.contents.contains_key(key)
            && (m.contents.contains_key(key) ==> run_store(m, calls).contents[key] == m.contents[key])),
        calls.len() > 0 && calls.last() is Store ==> run_store(m, calls).dirty,
    decreases calls.len(),
{
    if calls.len() > 0 {
        store_reads_back_the_last_write(m, calls.drop_last(), key);
    }
}

/// One call on a store, as its function's contract states it, between the
/// store before the call and the store after it: `set_string` stores the
/// value and makes the store dirty; `get_string` changes nothing; `flush`
/// keeps the contents, leaves a clean store clean, and leaves a dirty one
/// dirty exactly when the write it handed over reported failure.
pub open spec fn store_call_holds(before: KVStorage, c: StoreCall, after: KVStorage) -> bool {
    &&& after.well_formed()
    &&& match c {
        StoreCall::Store(k, v) => after@ == before@.insert(k, v) && after.spec_dirty(),
        StoreCall::Read(_) => after == before,
        StoreCall::Flush(ok, _) => after@ == before@ && if before.spec_dirty() {
            after.spec_dirty() == !ok
        } else {
            !after.spec_dirty()
        },
    }
}

/// The stores that a sequence of calls passes through, from a store that
/// `load_store` built from `saved`, follow the store model; so a store that
/// is clean after the calls holds exactly what loading its file again yields
/// (the file being what the last successful flush wrote, or what was loaded).
pub proof fn store_history_follows_the_model(saved: Option<Seq<u8>>, states: Seq<KVStorage>, calls: Seq<StoreCall>)
    requires
        spec_load_store(saved) is Some,
        states.len() == calls.len() + 1,
        states[0]@ == spec_load_store(saved)->0,
        !states[0].spec_dirty(),
        forall|i: int| 0 <= i < calls.len() ==> #[trigger] store_call_holds(states[i], calls[i], states[i + 1]),
    ensures
        states.last()@ == run_store(loaded_store(saved), calls).contents,
        states.last().spec_dirty() == run_store(loaded_store(saved), calls).dirty,
        !states.last().spec_dirty() ==> reload(run_store(loaded_store(saved), calls).file) == states.last()@,
    decreases calls.len(),
{
    clean_store_matches_its_file(saved, calls);
    if calls.len() > 0 {
        let n = calls.len() - 1;
        let init_states = states.drop_last();
        let init_calls = calls.drop_last();
        assert forall|i: int| 0 <= i < init_calls.len() implies #[trigger] store_call_holds(
            init_states[i],
            init_calls[i],
            init_states[i + 1],
        ) by {
            assert(store_call_holds(states[i], calls[i], states[i + 1]));
        }
        store_history_follows_the_model(saved, init_states, init_calls);
        assert(store_call_holds(states[n], calls[n], states[n + 1]));
        assert(init_states.last() == states[n]);
        assert(calls.last() == calls[n]);
    }
}

/// State saved before a restart reads back after it: where a value was
/// stored and a flush then wrote the store out successfully, loading the
/// written bytes yields a clean store with the same contents, holding the
/// stored value under its key.
pub proof fn saved_state_survives_restart(
    before: KVStorage,
    after_store: KVStorage,
    after_flush: KVStorage,
    key: Seq<char>,
    value: Seq<char>,
    written: Seq<u8>,
)
    requires
        store_call_holds(before, StoreCall::Store(key, value), after_store),
        ron_string_map(written) == Some(after_store@),
        store_call_holds(after_store, StoreCall::Flush(true, None), after_flush),
    ensures
        !after_flush.spec_dirty(),
        spec_load_store(Some(written)) == Some(after_flush@),
        spec_load_store(Some(written))->0.contains_key(key),
        spec_load_store(Some(written))->0[key] == value,
{
}

/// The answers a Windows host gives when the decision, as
/// `determine_backend` states it, asks it `n` times (or fewer, once the
/// decision is made).
pub open spec fn host_answers(h: WindowsHost, n: nat) -> Seq<bool>
    decreases n,
{
    if n == 0 {
        Seq::empty()
    } else {
        let prev = host_answers(h, (n - 1) as nat);
        match spec_determine_backend(Platform::Windows, prev) {
            Decision::Probe(p) => prev.push(h.answer(p)),
            Decision::Decided(_) => prev,
        }
    }
}

proof fn host_answers_are_windows_answers(h: WindowsHost, n: nat)
    ensures
        host_answers(h, n) == windows_answers(h, n),
    decreases n,
{
    if n > 0 {
        host_answers_are_windows_answers(h, (n - 1) as nat);
    }
}

/// On Windows, answering the probes that `determine_backend` asks as the host
/// would decides within seven probes: no backend from another thread than
/// the main one; the software backend in a Remote Desktop session, in a
/// virtual machine with the VMware or VirtualBox OpenGL driver, and wherever
/// OpenGL or an OpenGL 3.2 context is unavailable; eframe otherwise.
pub proof fn windows_decision_follows_the_host(h: WindowsHost)
    ensures
        spec_determine_backend(Platform::Windows, host_answers(h, 7)) == Decision::Decided(
            if h.other_thread {
                None
            } else if h.remote_session || (h.hypervisor && (h.vmware_gl_driver || h.virtualbox_gl_driver))
                || !h.opengl || !h.opengl_3_2_window {
                Some(Backend::SoftwareBackend)
            } else {
                Some(Backend::Eframe)
            },
        ),
{
    host_answers_are_windows_answers(h, 7);
    windows_probing_decides(h);
}

/// An X11 `DISPLAY` value is remote exactly when it neither starts with `:`
/// nor holds `/unix:` anywhere; on Linux such a display gets the software
/// backend and every other display gets eframe.
pub proof fn remote_display_rule(d: Seq<char>)
    ensures
        is_remote_display(d) <==> (!(d.len() > 0 && d[0] == ':') && !(exists|i: int|
            0 <= i && i + 6 <= d.len() && #[trigger] d.subrange(i, i + 6) == seq!['/', 'u', 'n', 'i', 'x', ':'])),
        spec_linux_backend(Some(d)) == (if !(d.len() > 0 && d[0] == ':') && !(exists|i: int|
            0 <= i && i + 6 <= d.len() && #[trigger] d.subrange(i, i + 6) == seq!['/', 'u', 'n', 'i', 'x', ':']) {
            Backend::SoftwareBackend
        } else {
            Backend::Eframe
        }),
{
    let m = unix_socket_marker();
    let lit = seq!['/', 'u', 'n', 'i', 'x', ':'];
    assert(m =~= lit);
    assert(m.len() == 6);
    if seq_contains(d, m) {
        let i = choose|i: int| 0 <= i && i + m.len() <= d.len() && #[trigger] d.subrange(i, i + m.len()) == m;
        assert(d.subrange(i, i + 6) == lit);
    }
    if exists|i: int| 0 <= i && i + 6 <= d.len() && #[trigger] d.subrange(i, i + 6) == lit {
        let i = choose|i: int| 0 <= i && i + 6 <= d.len() && #[trigger] d.subrange(i, i + 6) == lit;
        assert(d.subrange(i, i + m.len()) == m);
    }
}

/// On Linux `determine_backend` decides at once, whatever answers it is
/// given, from `DISPLAY` alone: eframe without `DISPLAY` (Wayland), for a
/// display that starts with `:` and for one that holds `/unix:`; the
/// software backend for any other display, such as one forwarded over SSH.
pub proof fn linux_decision_follows_display(display: Option<String>, answers: Seq<bool>)
    ensures
        display is None ==> spec_determine_backend(Platform::Linux { display }, answers)
            == Decision::Decided(Some(Backend::Eframe)),
        display matches Some(d) ==> spec_determine_backend(Platform::Linux { display }, answers)
            == Decision::Decided(Some(
                if !(d@.len() > 0 && d@[0] == ':') && !(exists|i: int|
                    0 <= i && i + 6 <= d@.len() && #[trigger] d@.subrange(i, i + 6)
                        == seq!['/', 'u', 'n', 'i', 'x', ':']) {
                    Backend::SoftwareBackend
                } else {
                    Backend::Eframe
                },
            )),
{
    if let Some(d) = display {
        remote_display_rule(d@);
    }
}

} // verus!
