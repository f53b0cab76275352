//! The power-resume listener's decisions: at most one listener loops, it
//! needs the window to register with, and a resume from sleep or
//! hibernation restarts forwarding that was running. Each start of the
//! listener opens a new generation; a listener thread goes on only while its
//! generation is the listening one.
use vstd::prelude::*;

verus! {

/// Power broadcast: the system resumed on its own from a low-power state.
pub const PBT_APMRESUMEAUTOMATIC: u32 = 0x0012;

/// Power broadcast: the system resumed from a low-power state after a user
/// action.
pub const PBT_APMRESUMESUSPEND: u32 = 0x0007;

/// Whether a listener thread is running or starting, and its generation.
pub struct PowerListener {
    listening: bool,
    generation: u64,
}

/// The listener's state as plain values.
pub struct ListenerView {
    pub listening: bool,
    pub generation: u64,
}

/// What starting the listener leads to.
#[derive(Debug, PartialEq, Eq, Structural, Clone, Copy)]
pub enum ListenerStart {
    /// A listener is already running; nothing is started.
    AlreadyListening,
    /// There is no window to register with; nothing is started.
    NoWindow,
    /// Start a listener thread of `generation` that registers with `window`.
    Spawn { window: isize, generation: u64 },
}

/// The next generation number, wrapping around.
pub open spec fn next_listener_generation(g: u64) -> u64 {
    if g == u64::MAX { 0 } else { (g + 1) as u64 }
}

/// The listener's state and the outcome after a request to start it.
pub open spec fn spec_begin(v: ListenerView, window: Option<isize>) -> (ListenerView, ListenerStart) {
    if v.listening {
        (v, ListenerStart::AlreadyListening)
    } else {
        match window {
            None => (v, ListenerStart::NoWindow),
            Some(w) => {
                let g = next_listener_generation(v.generation);
                (ListenerView { listening: true, generation: g }, ListenerStart::Spawn { window: w, generation: g })
            },
        }
    }
}

/// The listener's state after a stop: not listening, generation kept.
pub open spec fn spec_stop_listener(v: ListenerView) -> ListenerView {
    ListenerView { listening: false, ..v }
}

/// Whether the listener thread of `generation` goes on: only the thread of
/// the listening generation does.
pub open spec fn spec_keep_listening(v: ListenerView, generation: u64) -> bool {
    v.listening && v.generation == generation
}

/// The listener's state once the thread of `generation` has ended: it stops
/// listening if it was the current one; an older thread changes nothing.
pub open spec fn spec_listener_ended(v: ListenerView, generation: u64) -> ListenerView {
    if generation == v.generation { spec_stop_listener(v) } else { v }
}

/// Whether a power broadcast reports a resume from sleep or hibernation.
pub open spec fn spec_is_resume_event(wparam: usize) -> bool {
    wparam == PBT_APMRESUMEAUTOMATIC as usize || wparam == PBT_APMRESUMESUSPEND as usize
}

impl View for PowerListener {
    type V = ListenerView;

    closed spec fn view(&self) -> ListenerView {
        ListenerView { listening: self.listening, generation: self.generation }
    }
}

impl PowerListener {
    /// No listener running.
    pub fn new() -> (l: PowerListener)
        ensures
            l@ == (ListenerView { listening: false, generation: 0 }),
    {
        PowerListener { listening: false, generation: 0 }
    }

    /// Whether a listener is running or starting.
    pub fn is_listening(&self) -> (r: bool)
        ensures
            r == self@.listening,
    {
        self.listening
    }

    /// A request to start the listener, with the main window if it exists.
    pub fn begin(&mut self, window: Option<isize>) -> (r: ListenerStart)
        ensures
            (final(self)@, r) == spec_begin(old(self)@, window),
    {
        if self.listening {
            return ListenerStart::AlreadyListening;
        }
        match window {
            Some(w) => {
                self.listening = true;
                self.generation = self.generation.wrapping_add(1);
                ListenerStart::Spawn { window: w, generation: self.generation }
            },
            None => ListenerStart::NoWindow,
        }
    }

    /// Whether the listener thread of `generation` goes on waiting for power
    /// broadcasts.
    pub fn keep_listening(&self, generation: u64) -> (r: bool)
        ensures
            r == spec_keep_listening(self@, generation),
    {
        self.listening && self.generation == generation
    }

    /// The listener thread of `generation` has ended, because its
    /// registration failed or its loop was told to stop.
    pub fn listener_ended(&mut self, generation: u64)
        ensures
            final(self)@ == spec_listener_ended(old(self)@, generation),
    {
        if generation == self.generation {
            self.listening = false;
        }
    }
}

/// Signals the power-resume listener to stop.
pub fn stop_power_listener(listener: &mut PowerListener)
    ensures
        final(listener)@ == spec_stop_listener(old(listener)@),
{
    listener.listening = false;
}

/// Whether a power broadcast reports a resume from sleep or hibernation.
pub fn is_resume_event(wparam: usize) -> (r: bool)
    ensures
        r == spec_is_resume_event(wparam),
{
    wparam == PBT_APMRESUMEAUTOMATIC as usize || wparam == PBT_APMRESUMESUSPEND as usize
}

/// Whether a power broadcast restarts the forwarder: a resume event while
/// forwarding is running.
pub fn restart_on_power_event(wparam: usize, forwarding: bool) -> (r: bool)
    ensures
        r == (spec_is_resume_event(wparam) && forwarding),
{
    is_resume_event(wparam) && forwarding
}

/// Only resumes count as resume events: a suspend (0x4) or any other power
/// broadcast restarts nothing.
pub proof fn lemma_resume_events(wparam: usize)
    ensures
        spec_is_resume_event(wparam) <==> (wparam == 0x12 || wparam == 0x7),
        !spec_is_resume_event(0x4),
{
}

/// At most one listener loops: no two generations are told to go on in the
/// same state.
pub proof fn lemma_one_listener_loops(v: ListenerView, g1: u64, g2: u64)
    requires
        spec_keep_listening(v, g1),
        spec_keep_listening(v, g2),
    ensures
        g1 == g2,
{
}

/// A start request while a listener runs spawns nothing; once one has
/// spawned a listener, further requests spawn nothing until it is stopped.
pub proof fn lemma_single_listener(v: ListenerView, first: Option<isize>, second: Option<isize>)
    requires
        spec_begin(v, first).1 is Spawn,
    ensures
        spec_begin(spec_begin(v, first).0, second).1 == ListenerStart::AlreadyListening,
        v.listening ==> spec_begin(v, second).1 == ListenerStart::AlreadyListening,
{
}

/// A stop followed at once by a start leaves the stopped listener's thread
/// told to end: only the new listener goes on, and the old thread's end
/// leaves the new listener listening.
pub proof fn lemma_stop_then_start(v: ListenerView, window: isize, g: u64)
    requires
        spec_keep_listening(v, g),
    ensures
        spec_begin(spec_stop_listener(v), Some(window)).1 is Spawn,
        !spec_keep_listening(spec_begin(spec_stop_listener(v), Some(window)).0, g),
        spec_listener_ended(spec_begin(spec_stop_listener(v), Some(window)).0, g)
            == spec_begin(spec_stop_listener(v), Some(window)).0,
        spec_begin(spec_stop_listener(v), Some(window)).0.listening,
{
}

/// Starting the listener: while one listens nothing is spawned; without a
/// window nothing is spawned and nothing changes; otherwise a listener is
/// spawned for exactly that window, in a generation that differs from the
/// previous one and becomes the listening one. This holds for every start,
/// the first and any later one.
pub proof fn lemma_begin(v: ListenerView, window: Option<isize>)
    ensures
        v.listening ==> spec_begin(v, window).1 == ListenerStart::AlreadyListening && spec_begin(v, window).0 == v,
        !v.listening && window is None ==> spec_begin(v, window).1 == ListenerStart::NoWindow && spec_begin(
            v,
            window,
        ).0 == v,
        !v.listening && window is Some ==> spec_begin(v, window).1 is Spawn,
        spec_begin(v, window).1 matches ListenerStart::Spawn { window: w, generation: g } ==> {
            &&& window == Some(w)
            &&& g != v.generation
            &&& spec_begin(v, window).0 == (ListenerView { listening: true, generation: g })
        },
{
}

} // verus!
