use vstd::prelude::*;

use crate::backend::Backend;
use crate::selection::{get_backend, is_launched, spec_get_backend, Selection};

verus! {

/// What the running platform says of the calling thread.
#[derive(Debug, Copy, Clone, PartialEq, Eq, Structural)]
pub enum ThreadKind {
    /// The thread is the process's main thread.
    Main,
    /// The thread is some other thread.
    Other,
    /// The platform cannot tell.
    Unknown,
}

/// Why an application could not be launched.
#[derive(Debug, Copy, Clone, PartialEq, Eq, Structural)]
pub enum LaunchError {
    /// The launch was attempted from a thread that is known not to be the
    /// main thread.
    NotMainThread,
    /// An application was already launched in this process.
    AlreadyLaunched,
}

impl LaunchError {
    /// The message that describes the error.
    pub fn message(&self) -> (r: &'static str)
        ensures
            *self == LaunchError::NotMainThread ==> r@ == "Current thread is not the main thread"@,
            *self == LaunchError::AlreadyLaunched ==> r@ == "Application already launched"@,
    {
        match self {
            LaunchError::NotMainThread => "Current thread is not the main thread",
            LaunchError::AlreadyLaunched => "Application already launched",
        }
    }
}

/// The backend a launch runs with, given the backend that selection answered:
/// when none could be determined, the software backend, which works nearly
/// everywhere.
pub open spec fn launch_backend(answer: Option<Backend>) -> Backend {
    match answer {
        Some(b) => b,
        None => Backend::SoftwareBackend,
    }
}

/// The selection after an attempt to launch and the attempt's outcome, where
/// `probed` is what probing the system reported (it only matters to an
/// undecided selection).
pub open spec fn spec_begin_launch(s: Selection, thread: ThreadKind, probed: Option<Backend>) -> (Selection, Result<Backend, LaunchError>) {
    if thread == ThreadKind::Other {
        (s, Err(LaunchError::NotMainThread))
    } else if s is Launched {
        (s, Err(LaunchError::AlreadyLaunched))
    } else {
        let b = launch_backend(spec_get_backend(s, probed).1);
        (Selection::Launched(b), Ok(b))
    }
}

/// Checks that an application may be launched now and marks the selection as
/// launched.
///
/// The launch is refused from a thread known not to be the main thread, and
/// when an application was launched already; the selection is then left as it
/// is. Otherwise the backend comes from [`get_backend`] (which calls
/// `determine` only when nothing was selected yet), the software backend
/// where that finds none, and the selection is marked as launched with it.
pub fn begin_launch<F: FnOnce() -> Option<Backend>>(state: &mut Selection, thread: ThreadKind, determine: F) -> (r: Result<Backend, LaunchError>)
    requires
        thread != ThreadKind::Other && *old(state) is Undecided ==> call_requires(determine, ()),
    ensures
        exists|p: Option<Backend>|
            (thread != ThreadKind::Other && *old(state) is Undecided ==> call_ensures(determine, (), p))
            && (*final(state), r) == spec_begin_launch(*old(state), thread, p),
{
    if thread == ThreadKind::Other {
        let r = Err(LaunchError::NotMainThread);
        assert((*state, r) == spec_begin_launch(*state, thread, None));
        return r;
    }
    if is_launched(state) {
        let r = Err(LaunchError::AlreadyLaunched);
        assert((*state, r) == spec_begin_launch(*state, thread, None));
        return r;
    }
    let ghost before = *state;
    let answer = get_backend(state, determine);
    let b = match answer {
        Some(b) => b,
        None => Backend::SoftwareBackend,
    };
    *state = Selection::Launched(b);
    assert((*state, Ok::<Backend, LaunchError>(b)) == spec_begin_launch(before, thread, answer));
    Ok(b)
}

/// Asks the platform whether the calling thread is the main thread.
///
/// Calls `main_thread::is_main_thread` and maps its three variants one to one.
/// Its answer depends on the thread that calls and on the platform, so
/// nothing is stated of it.
#[verifier::external_body]
fn current_thread_kind() -> (r: ThreadKind) {
    match main_thread::is_main_thread() {
        main_thread::IsMainThread::MainThread => ThreadKind::Main,
        main_thread::IsMainThread::OtherThread => ThreadKind::Other,
        main_thread::IsMainThread::Unknown => ThreadKind::Unknown,
    }
}

/// [`begin_launch`] for the calling thread: asks the platform whether it is
/// the main thread and launches as `begin_launch` does for that answer.
pub fn begin_launch_on_current_thread<F: FnOnce() -> Option<Backend>>(state: &mut Selection, determine: F) -> (r: Result<Backend, LaunchError>)
    requires
        *old(state) is Undecided ==> call_requires(determine, ()),
    ensures
        exists|t: ThreadKind, p: Option<Backend>|
            (*final(state), r) == spec_begin_launch(*old(state), t, p)
            && (t != ThreadKind::Other && *old(state) is Undecided ==> call_ensures(determine, (), p)),
{
    let thread = current_thread_kind();
    begin_launch(state, thread, determine)
}

/// The answer to the Windows probe `HostProbe::OtherThread` for a thread of
/// the given kind: whether it is known to be another thread than the main
/// one. A thread the platform cannot place counts as the main thread.
pub fn thread_probe_answer(kind: ThreadKind) -> (r: bool)
    ensures
        r == (kind == ThreadKind::Other),
{
    match kind {
        ThreadKind::Other => true,
        ThreadKind::Main => false,
        ThreadKind::Unknown => false,
    }
}

/// [`thread_probe_answer`] for the calling thread: asks the platform what the
/// calling thread is and answers for that kind. The platform's report depends
/// on the calling thread, so the answer is not stated beyond that.
pub fn thread_probe_answer_on_current_thread() -> (r: bool)
    ensures
        exists|k: ThreadKind| r == thread_probe_answer_spec(k),
{
    let kind = current_thread_kind();
    let r = thread_probe_answer(kind);
    assert(r == thread_probe_answer_spec(kind));
    r
}

/// The answer to the Windows thread probe for a thread of kind `kind`.
pub open spec fn thread_probe_answer_spec(kind: ThreadKind) -> bool {
    kind == ThreadKind::Other
}

} // verus!
