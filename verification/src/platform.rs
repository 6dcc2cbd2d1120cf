use vstd::prelude::*;

use crate::backend::Backend;

verus! {

/// The characters of the X11 display-name part that marks a local socket.
pub open spec fn unix_socket_marker() -> Seq<char> {
    seq!['/', 'u', 'n', 'i', 'x', ':']
}

/// `pat` occurs in `s` as a contiguous run.
pub open spec fn seq_contains(s: Seq<char>, pat: Seq<char>) -> bool {
    exists|i: int| 0 <= i && i + pat.len() <= s.len() && #[trigger] s.subrange(i, i + pat.len()) == pat
}

/// An X11 `DISPLAY` value names a remote display: it neither starts with `:`
/// (a local display such as `:0`) nor holds `/unix:` (a local socket path).
pub open spec fn is_remote_display(display: Seq<char>) -> bool {
    &&& !(display.len() > 0 && display[0] == ':')
    &&& !seq_contains(display, unix_socket_marker())
}

/// The backend chosen on Linux for the value of `DISPLAY` (`None` where it is
/// unset or not valid Unicode, which means Wayland).
pub open spec fn spec_linux_backend(display: Option<Seq<char>>) -> Backend {
    match display {
        Some(d) => if is_remote_display(d) {
            Backend::SoftwareBackend
        } else {
            Backend::Eframe
        },
        None => Backend::Eframe,
    }
}

/// The characters of `s`, in order.
fn chars_of(s: &str) -> (r: Vec<char>)
    ensures
        r@ == s@,
{
    let mut r: Vec<char> = Vec::new();
    for c in it: s.chars()
        invariant
            r@ == it.seq().take(it.index() as int),
    {
        r.push(c);
    }
    proof {
        vstd::string::axiom_spec_iter(s);
    }
    r
}

/// Whether `pat` occurs in `s` starting at `start`.
fn occurs_at(s: &Vec<char>, pat: &Vec<char>, start: usize) -> (r: bool)
    requires
        start + pat@.len() <= s@.len(),
    ensures
        r == (s@.subrange(start as int, start + pat@.len()) == pat@),
{
    let n = s.len();
    let mut k: usize = 0;
    while k < pat.len()
        invariant
            n == s@.len(),
            k <= pat@.len(),
            start + pat@.len() <= s@.len(),
            forall|j: int| 0 <= j < k ==> s@[start + j] == pat@[j],
        decreases pat@.len() - k,
    {
        if s[start + k] != pat[k] {
            assert(s@.subrange(start as int, start + pat@.len())[k as int] != pat@[k as int]);
            return false;
        }
        k = k + 1;
    }
    assert(s@.subrange(start as int, start + pat@.len()) =~= pat@);
    true
}

/// Whether `pat` occurs in `s`.
fn contains_run(s: &Vec<char>, pat: &Vec<char>) -> (r: bool)
    ensures
        r == seq_contains(s@, pat@),
{
    if pat.len() > s.len() {
        return false;
    }
    let last = s.len() - pat.len();
    let mut i: usize = 0;
    while i <= last
        invariant
            last + pat@.len() == s@.len(),
            forall|j: int| 0 <= j < i ==> #[trigger] s@.subrange(j, j + pat@.len()) != pat@,
        decreases last + 1 - i,
    {
        if occurs_at(s, pat, i) {
            return true;
        }
        if i == last {
            return false;
        }
        i = i + 1;
    }
    false
}

/// Whether an X11 `DISPLAY` value names a remote display, such as one
/// forwarded over SSH: it does not start with `:` and holds no `/unix:`.
pub fn display_is_remote(display: &str) -> (r: bool)
    ensures
        r == is_remote_display(display@),
{
    let chars = chars_of(display);
    if chars.len() > 0 && chars[0] == ':' {
        return false;
    }
    let marker: Vec<char> = vec!['/', 'u', 'n', 'i', 'x', ':'];
    assert(marker@ =~= unix_socket_marker());
    !contains_run(&chars, &marker)
}

/// The backend chosen on Linux for the value of `DISPLAY`.
///
/// Without `DISPLAY` the session is Wayland, where eframe works. On X11,
/// eframe is chosen unless the display is remote, where OpenGL is too slow
/// and the software backend is chosen.
pub fn linux_backend(display: Option<&str>) -> (r: Backend)
    ensures
        r == spec_linux_backend(match display {
            Some(d) => Some(d@),
            None => None,
        }),
{
    match display {
        None => Backend::Eframe,
        Some(d) => if display_is_remote(d) {
            Backend::SoftwareBackend
        } else {
            Backend::Eframe
        },
    }
}

} // verus!

verus! {

/// A question about the Windows host that the backend decision may need
/// answered, in the order in which they are asked.
#[derive(Debug, Copy, Clone, PartialEq, Eq, Structural)]
pub enum HostProbe {
    /// Is the calling thread known not to be the main thread?
    OtherThread,
    /// Is this a Remote Desktop session?
    RemoteSession,
    /// Does the CPU report a hypervisor (checked on x86 targets; elsewhere
    /// the answer is `false`)?
    Hypervisor,
    /// Is the VMware OpenGL driver (`vm3dgl64.dll`) installed?
    VmwareGlDriver,
    /// Is the VirtualBox OpenGL driver (`VBoxGL.dll`) installed?
    VirtualBoxGlDriver,
    /// Can OpenGL be initialised at all?
    OpenGl,
    /// Can a hidden window with an OpenGL 3.2 context be created?
    OpenGl32Window,
}

/// How far the backend decision has come: it needs one more probe answered,
/// or it is made (`None` where no backend can be determined from this thread).
#[derive(Debug, Copy, Clone, PartialEq, Eq, Structural)]
pub enum Decision {
    /// Answer this probe and ask again.
    Probe(HostProbe),
    /// The decision is made.
    Decided(Option<Backend>),
}

/// The platform the application runs on, as far as the decision needs it.
#[derive(Debug)]
pub enum Platform {
    /// Linux, with the value of `DISPLAY` (`None` where it is unset or not
    /// valid Unicode).
    Linux { display: Option<String> },
    /// Windows, where the decision probes the host step by step.
    Windows,
    /// macOS, the BSDs and every other platform.
    Other,
}

/// Everything the Windows decision may ask, answered.
#[derive(Debug, Copy, Clone, PartialEq, Eq, Structural)]
pub struct WindowsHost {
    pub other_thread: bool,
    pub remote_session: bool,
    pub hypervisor: bool,
    pub vmware_gl_driver: bool,
    pub virtualbox_gl_driver: bool,
    pub opengl: bool,
    pub opengl_3_2_window: bool,
}

impl WindowsHost {
    /// The host's answer to a probe.
    pub open spec fn answer(self, p: HostProbe) -> bool {
        match p {
            HostProbe::OtherThread => self.other_thread,
            HostProbe::RemoteSession => self.remote_session,
            HostProbe::Hypervisor => self.hypervisor,
            HostProbe::VmwareGlDriver => self.vmware_gl_driver,
            HostProbe::VirtualBoxGlDriver => self.virtualbox_gl_driver,
            HostProbe::OpenGl => self.opengl,
            HostProbe::OpenGl32Window => self.opengl_3_2_window,
        }
    }
}

/// The backend Windows gets: none from a thread other than the main one; the
/// software backend in a Remote Desktop session, in a VMware or VirtualBox
/// virtual machine with its OpenGL driver installed, and where OpenGL 3.2 is
/// not available; eframe otherwise.
pub open spec fn windows_choice(h: WindowsHost) -> Option<Backend> {
    if h.other_thread {
        None
    } else if h.remote_session {
        Some(Backend::SoftwareBackend)
    } else if h.hypervisor && (h.vmware_gl_driver || h.virtualbox_gl_driver) {
        Some(Backend::SoftwareBackend)
    } else if !(h.opengl && h.opengl_3_2_window) {
        Some(Backend::SoftwareBackend)
    } else {
        Some(Backend::Eframe)
    }
}

/// Where the Windows decision goes after `answer` to `probe`.
pub open spec fn windows_step(probe: HostProbe, answer: bool) -> Decision {
    match probe {
        HostProbe::OtherThread => if answer {
            Decision::Decided(None)
        } else {
            Decision::Probe(HostProbe::RemoteSession)
        },
        HostProbe::RemoteSession => if answer {
            Decision::Decided(Some(Backend::SoftwareBackend))
        } else {
            Decision::Probe(HostProbe::Hypervisor)
        },
        HostProbe::Hypervisor => if answer {
            Decision::Probe(HostProbe::VmwareGlDriver)
        } else {
            Decision::Probe(HostProbe::OpenGl)
        },
        HostProbe::VmwareGlDriver => if answer {
            Decision::Decided(Some(Backend::SoftwareBackend))
        } else {
            Decision::Probe(HostProbe::VirtualBoxGlDriver)
        },
        HostProbe::VirtualBoxGlDriver => if answer {
            Decision::Decided(Some(Backend::SoftwareBackend))
        } else {
            Decision::Probe(HostProbe::OpenGl)
        },
        HostProbe::OpenGl => if answer {
            Decision::Probe(HostProbe::OpenGl32Window)
        } else {
            Decision::Decided(Some(Backend::SoftwareBackend))
        },
        HostProbe::OpenGl32Window => if answer {
            Decision::Decided(Some(Backend::Eframe))
        } else {
            Decision::Decided(Some(Backend::SoftwareBackend))
        },
    }
}

/// Where the Windows decision stands when it is at `probe` and `answers`
/// answer the probes from there on, in order; answers left over once the
/// decision is made are ignored.
pub open spec fn windows_replay(probe: HostProbe, answers: Seq<bool>) -> Decision
    decreases answers.len(),
{
    if answers.len() == 0 {
        Decision::Probe(probe)
    } else {
        match windows_step(probe, answers[0]) {
            Decision::Probe(next) => windows_replay(next, answers.drop_first()),
            Decision::Decided(choice) => Decision::Decided(choice),
        }
    }
}

/// Where the decision stands on `platform` after `answers` to the probes it
/// asked, in order.
pub open spec fn spec_determine_backend(platform: Platform, answers: Seq<bool>) -> Decision {
    match platform {
        Platform::Linux { display } => Decision::Decided(Some(spec_linux_backend(match display {
            Some(d) => Some(d@),
            None => None,
        }))),
        Platform::Windows => windows_replay(HostProbe::OtherThread, answers),
        Platform::Other => Decision::Decided(Some(Backend::Eframe)),
    }
}

/// The next step of the Windows decision from `probe` given `answer`.
fn windows_next(probe: HostProbe, answer: bool) -> (r: Decision)
    ensures
        r == windows_step(probe, answer),
{
    match probe {
        HostProbe::OtherThread => if answer {
            Decision::Decided(None)
        } else {
            Decision::Probe(HostProbe::RemoteSession)
        },
        HostProbe::RemoteSession => if answer {
            Decision::Decided(Some(Backend::SoftwareBackend))
        } else {
            Decision::Probe(HostProbe::Hypervisor)
        },
        HostProbe::Hypervisor => if answer {
            Decision::Probe(HostProbe::VmwareGlDriver)
        } else {
            Decision::Probe(HostProbe::OpenGl)
        },
        HostProbe::VmwareGlDriver => if answer {
            Decision::Decided(Some(Backend::SoftwareBackend))
        } else {
            Decision::Probe(HostProbe::VirtualBoxGlDriver)
        },
        HostProbe::VirtualBoxGlDriver => if answer {
            Decision::Decided(Some(Backend::SoftwareBackend))
        } else {
            Decision::Probe(HostProbe::OpenGl)
        },
        HostProbe::OpenGl => if answer {
            Decision::Probe(HostProbe::OpenGl32Window)
        } else {
            Decision::Decided(Some(Backend::SoftwareBackend))
        },
        HostProbe::OpenGl32Window => if answer {
            Decision::Decided(Some(Backend::Eframe))
        } else {
            Decision::Decided(Some(Backend::SoftwareBackend))
        },
    }
}

/// Decides which backend works on `platform`, given the answers to the
/// probes asked so far, in the order they were asked.
///
/// On Linux the answer comes from `DISPLAY` alone, and on platforms other than
/// Linux and Windows it is always eframe. On Windows the decision asks the
/// host one probe at a time, cheapest first: the caller answers the probe it
/// is given, appends the answer and asks again until the decision is made.
pub fn determine_backend(platform: &Platform, answers: &Vec<bool>) -> (r: Decision)
    ensures
        r == spec_determine_backend(*platform, answers@),
{
    match platform {
        Platform::Linux { display } => {
            let b = match display {
                Some(d) => linux_backend(Some(d.as_str())),
                None => linux_backend(None),
            };
            Decision::Decided(Some(b))
        },
        Platform::Other => Decision::Decided(Some(Backend::Eframe)),
        Platform::Windows => {
            let mut probe = HostProbe::OtherThread;
            let mut i: usize = 0;
            assert(answers@.skip(0) =~= answers@);
            while i < answers.len()
                invariant
                    i <= answers@.len(),
                    spec_determine_backend(*platform, answers@)
                        == windows_replay(HostProbe::OtherThread, answers@),
                    windows_replay(HostProbe::OtherThread, answers@)
                        == windows_replay(probe, answers@.skip(i as int)),
                decreases answers@.len() - i,
            {
                let step = windows_next(probe, answers[i]);
                assert(answers@.skip(i as int)[0] == answers@[i as int]);
                assert(answers@.skip(i as int).drop_first() =~= answers@.skip(i + 1));
                match step {
                    Decision::Probe(next) => {
                        probe = next;
                    },
                    Decision::Decided(choice) => {
                        assert(answers@.skip(i as int).len() > 0);
                        assert(windows_replay(probe, answers@.skip(i as int)) == Decision::Decided(choice));
                        return Decision::Decided(choice);
                    },
                }
                i = i + 1;
            }
            assert(answers@.skip(i as int).len() == 0);
            Decision::Probe(probe)
        },
    }
}

} // verus!
