//! Decisions of the engine process supervisor: when a start or stop request
//! proceeds, which arguments the engine is launched with, and how a process
//! listing is read. Spawning and killing the process happen outside the
//! library.
use vstd::prelude::*;

use crate::text::{contains_seq, dec_rep, str_contains, u64_to_dec};

verus! {

/// The supervisor's gate: whether a start is underway (so that a
/// remount-driven stop does not kill a half-started engine), and whether a
/// process is held.
pub struct EngineGate {
    starting: bool,
    running: bool,
}

/// What the two flags amount to.
pub struct GateModel {
    pub starting: bool,
    pub running: bool,
}

impl View for EngineGate {
    type V = GateModel;

    closed spec fn view(&self) -> GateModel {
        GateModel { starting: self.starting, running: self.running }
    }
}

impl EngineGate {
    /// A fresh gate: nothing starting, nothing running.
    pub fn new() -> (r: EngineGate)
        ensures
            r@ == (GateModel { starting: false, running: false }),
    {
        EngineGate { starting: false, running: false }
    }

    /// Ask to start the engine. The start proceeds only when none is under
    /// way and none is held: a second request while starting or running is
    /// skipped, leaving the state as it was.
    pub fn begin_start(&mut self) -> (proceed: bool)
        ensures
            old(self)@.starting ==> !proceed && final(self)@ == old(self)@,
            !old(self)@.starting && old(self)@.running ==> !proceed && final(self)@ == old(self)@,
            !old(self)@.starting && !old(self)@.running ==> proceed && final(self)@ == (GateModel {
                starting: true,
                running: false,
            }),
    {
        if self.starting {
            return false;
        }
        self.starting = true;
        if self.running {
            self.starting = false;
            return false;
        }
        true
    }

    /// The spawn succeeded: a process is now held.
    pub fn spawned(&mut self)
        ensures
            final(self)@ == (GateModel { starting: old(self)@.starting, running: true }),
    {
        self.running = true;
    }

    /// The spawn failed: nothing is held, and the start is over.
    pub fn spawn_failed(&mut self)
        ensures
            final(self)@ == (GateModel { starting: false, running: old(self)@.running }),
    {
        self.starting = false;
    }

    /// Initialization is complete; stops are no longer deferred.
    pub fn finish_starting(&mut self)
        ensures
            final(self)@ == (GateModel { starting: false, running: old(self)@.running }),
    {
        self.starting = false;
    }

    /// Ask to stop the engine. A plain stop during startup is skipped; a
    /// forced stop always proceeds and clears the startup gate.
    pub fn begin_stop(&mut self, force: bool) -> (proceed: bool)
        ensures
            !force && old(self)@.starting ==> !proceed && final(self)@ == old(self)@,
            (force || !old(self)@.starting) ==> proceed && final(self)@ == (GateModel {
                starting: if force {
                    false
                } else {
                    old(self)@.starting
                },
                running: false,
            }),
    {
        if !force && self.starting {
            return false;
        }
        if force {
            self.starting = false;
        }
        self.running = false;
        true
    }

    /// Whether a process is held.
    pub fn is_running(&self) -> (r: bool)
        ensures
            r == self@.running,
    {
        self.running
    }

    /// Whether a start is under way.
    pub fn is_starting(&self) -> (r: bool)
        ensures
            r == self@.starting,
    {
        self.starting
    }
}

/// The arguments the engine is launched with: its control port, editor
/// mode, no renderer, and — when embedding — the parent window handle.
pub open spec fn engine_args_model(port: u16, parent_hwnd: Option<u64>) -> Seq<Seq<char>> {
    seq![("--ipc-port")@, dec_rep(port as nat), ("--editor-mode")@, ("--no-vulkan")@] + (
    match parent_hwnd {
        Some(h) => seq![("--parent-hwnd")@, dec_rep(h as nat)],
        None => Seq::empty(),
    })
}

/// Compose the engine's command-line arguments.
pub fn engine_args(port: u16, parent_hwnd: Option<u64>) -> (r: Vec<String>)
    ensures
        r@.map_values(|s: String| s@) == engine_args_model(port, parent_hwnd),
{
    let mut v: Vec<String> = Vec::new();
    v.push(String::from_str("--ipc-port"));
    v.push(u64_to_dec(port as u64));
    v.push(String::from_str("--editor-mode"));
    v.push(String::from_str("--no-vulkan"));
    match parent_hwnd {
        Some(h) => {
            v.push(String::from_str("--parent-hwnd"));
            v.push(u64_to_dec(h));
        },
        None => {},
    }
    proof {
        assert(v@.map_values(|s: String| s@) =~= engine_args_model(port, parent_hwnd));
    }
    v
}

/// Whether a process listing shows the given process id: its decimal form
/// occurs somewhere in the listing's text.
pub fn listing_shows_pid(listing: &str, pid: u64) -> (b: bool)
    ensures
        b == contains_seq(listing@, dec_rep(pid as nat)),
{
    let digits = u64_to_dec(pid);
    str_contains(listing, digits.as_str())
}

} // verus!
