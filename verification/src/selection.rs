use vstd::prelude::*;

use crate::backend::{Backend, NUM_BACKENDS};

verus! {

/// Where the backend selection stands.
///
/// A selection starts `Undecided`. Probing the system or an explicit
/// [`overwrite_backend`] makes it `Chosen`; launching the application makes
/// it `Launched`, after which it no longer changes.
#[derive(Debug, Copy, Clone, PartialEq, Eq, Structural)]
pub enum Selection {
    /// No backend has been chosen yet.
    Undecided,
    /// A backend has been chosen but the application has not been launched.
    Chosen(Backend),
    /// The application was launched with this backend.
    Launched(Backend),
}

/// The backend a selection has settled on, if any.
pub open spec fn selected_backend(s: Selection) -> Option<Backend> {
    match s {
        Selection::Undecided => None,
        Selection::Chosen(b) => Some(b),
        Selection::Launched(b) => Some(b),
    }
}

/// The number under which a selection is stored in a shared integer cell.
pub open spec fn spec_code(s: Selection) -> usize {
    match s {
        Selection::Undecided => 0,
        Selection::Chosen(Backend::SoftwareBackend) => 1,
        Selection::Chosen(Backend::Eframe) => 2,
        Selection::Launched(Backend::SoftwareBackend) => 3,
        Selection::Launched(Backend::Eframe) => 4,
    }
}

/// The selection stored under `code`; `None` for a number no selection uses.
pub open spec fn spec_from_code(code: usize) -> Option<Selection> {
    if code == 0 {
        Some(Selection::Undecided)
    } else if code == 1 {
        Some(Selection::Chosen(Backend::SoftwareBackend))
    } else if code == 2 {
        Some(Selection::Chosen(Backend::Eframe))
    } else if code == 3 {
        Some(Selection::Launched(Backend::SoftwareBackend))
    } else if code == 4 {
        Some(Selection::Launched(Backend::Eframe))
    } else {
        None
    }
}

/// The selection after [`overwrite_backend`]: a launched selection stays as it
/// is, any other takes the requested backend.
pub open spec fn spec_overwrite(s: Selection, backend: Backend) -> Selection {
    match s {
        Selection::Launched(_) => s,
        _ => Selection::Chosen(backend),
    }
}

/// The selection after [`get_backend`] and its answer, where `probed` is what
/// probing the system reported. Probing only matters to an undecided
/// selection: a backend it finds is kept; when it finds none, the selection
/// stays undecided so that a later call may probe again.
pub open spec fn spec_get_backend(s: Selection, probed: Option<Backend>) -> (Selection, Option<Backend>) {
    match s {
        Selection::Undecided => match probed {
            Some(b) => (Selection::Chosen(b), Some(b)),
            None => (Selection::Undecided, None),
        },
        _ => (s, selected_backend(s)),
    }
}

impl Selection {
    /// The number under which this selection is stored in a shared integer
    /// cell: 0 undecided, 1 and 2 chosen, 3 and 4 launched.
    pub fn code(&self) -> (r: usize)
        ensures
            r == spec_code(*self),
    {
        match self {
            Selection::Undecided => 0,
            Selection::Chosen(Backend::SoftwareBackend) => 1,
            Selection::Chosen(Backend::Eframe) => 2,
            Selection::Launched(Backend::SoftwareBackend) => 3,
            Selection::Launched(Backend::Eframe) => 4,
        }
    }

    /// The selection stored under `code`, or `None` for a number that no
    /// selection is stored under.
    pub fn from_code(code: usize) -> (r: Option<Selection>)
        ensures
            r == spec_from_code(code),
    {
        if code == 0 {
            Some(Selection::Undecided)
        } else if code == 1 {
            Some(Selection::Chosen(Backend::SoftwareBackend))
        } else if code == 2 {
            Some(Selection::Chosen(Backend::Eframe))
        } else if code == 3 {
            Some(Selection::Launched(Backend::SoftwareBackend))
        } else if code == 4 {
            Some(Selection::Launched(Backend::Eframe))
        } else {
            None
        }
    }
}

/// Overwrites the selected backend.
/// This has no effect if the application was already launched.
pub fn overwrite_backend(state: &mut Selection, backend: Backend)
    ensures
        *final(state) == spec_overwrite(*old(state), backend),
{
    if is_launched(state) {
        return ;
    }
    *state = Selection::Chosen(backend);
}

/// Returns true if the application was already launched and the selected
/// backend can no longer be changed by calling [`overwrite_backend`].
pub fn is_launched(state: &Selection) -> (r: bool)
    ensures
        r == (*state is Launched),
        r == (spec_code(*state) > NUM_BACKENDS),
{
    match state {
        Selection::Launched(_) => true,
        _ => false,
    }
}

/// Returns the backend selected to be used for egui.
///
/// A selection that has settled on a backend answers with it and is left as
/// it is. An undecided one calls `determine`, which probes the system, keeps
/// the backend it reports and answers with it; `determine` reports `None`
/// where the probe cannot decide (on some platforms, off the main thread).
pub fn get_backend<F: FnOnce() -> Option<Backend>>(state: &mut Selection, determine: F) -> (r: Option<Backend>)
    requires
        *old(state) is Undecided ==> call_requires(determine, ()),
    ensures
        (*final(state), r) == spec_get_backend(*old(state), r),
        *old(state) is Undecided ==> call_ensures(determine, (), r),
{
    match state {
        Selection::Chosen(b) => Some(*b),
        Selection::Launched(b) => Some(*b),
        Selection::Undecided => {
            let probed = determine();
            match probed {
                Some(b) => {
                    *state = Selection::Chosen(b);
                    Some(b)
                },
                None => None,
            }
        },
    }
}

} // verus!
