//! The application's forwarding session: the Start/Stop button, the status
//! texts, and the once-a-second packets-per-second report.
use vstd::prelude::*;
use vstd::string::*;
use crate::decimal::{decimal, push_decimal};
use crate::forwarder::{
    UdpForwarder, ForwarderView, ForwarderError, initial_view, spec_start, spec_stop,
    spec_keep_forwarding, spec_record_send,
};

verus! {

/// What a press of the Start/Stop button does.
#[derive(Debug, PartialEq, Eq, Structural, Clone, Copy)]
pub enum StartStop {
    Start,
    Stop,
}

/// New texts for the status bar and the Start/Stop button.
pub struct StatusUpdate {
    pub status: String,
    pub button: String,
}

/// A forwarding start that went through: the window's new texts and the
/// generation that the forwarding thread is started for.
pub struct Started {
    pub update: StatusUpdate,
    pub generation: u64,
}

/// The forwarder together with what the window shows of it.
pub struct Session {
    forwarder: UdpForwarder,
    is_running: bool,
    last_count: u64,
}

/// A session as plain values.
pub struct SessionView {
    pub forwarder: ForwarderView,
    pub is_running: bool,
    pub last_count: u64,
}

impl View for Session {
    type V = SessionView;

    closed spec fn view(&self) -> SessionView {
        SessionView { forwarder: self.forwarder@, is_running: self.is_running, last_count: self.last_count }
    }
}

/// What the window shows agrees with the forwarder: whenever the forwarder
/// runs, forwarding is shown as on. (Forwarding stays shown as on, with the
/// forwarder stopped, after a restart whose sockets could not be opened.)
pub open spec fn consistent(v: SessionView) -> bool {
    v.forwarder.running ==> v.is_running
}

/// The session while a restart reopens the sockets: the forwarder is
/// stopped, so its thread ends; forwarding stays shown as on or off as it
/// was.
pub open spec fn spec_pause_for_restart(v: SessionView) -> SessionView {
    SessionView { forwarder: spec_stop(v.forwarder), ..v }
}

/// The session after a restart: when the sockets were reopened (and the
/// forwarder was stopped), the forwarder runs in a new generation from a zero
/// count and forwarding is on; otherwise nothing changes.
pub open spec fn spec_resume_after_restart(v: SessionView, reopened: bool) -> (SessionView, Option<u64>) {
    if reopened && !v.forwarder.running {
        let (f, g) = spec_start(v.forwarder);
        (SessionView { forwarder: f, is_running: true, last_count: 0 }, Some(g->Ok_0))
    } else {
        (v, None)
    }
}

/// The status text while forwarding: the total count and the packets of the
/// last second.
pub open spec fn spec_forwarding_status(total: u64, pps: u64) -> Seq<char> {
    "Forwarding: total "@ + decimal(total as nat) + " @ "@ + decimal(pps as nat) + " pps"@
}

/// The status text `Forwarding: total {total} @ {pps} pps`.
pub fn forwarding_status(total: u64, pps: u64) -> (r: String)
    ensures
        r@ == spec_forwarding_status(total, pps),
{
    let mut s = String::from_str("Forwarding: total ");
    push_decimal(&mut s, total);
    s.append(" @ ");
    push_decimal(&mut s, pps);
    s.append(" pps");
    s
}

impl Session {
    /// Not forwarding.
    pub fn new() -> (s: Session)
        ensures
            s@ == (SessionView { forwarder: initial_view(), is_running: false, last_count: 0 }),
            consistent(s@),
    {
        Session { forwarder: UdpForwarder::new(), is_running: false, last_count: 0 }
    }

    /// Whether forwarding is on.
    pub fn is_running(&self) -> (r: bool)
        ensures
            r == self@.is_running,
    {
        self.is_running
    }

    /// The packet count at the last timer tick.
    pub fn last_count(&self) -> (r: u64)
        ensures
            r == self@.last_count,
    {
        self.last_count
    }

    /// The packets forwarded since forwarding last started.
    pub fn packet_count(&self) -> (r: u64)
        ensures
            r == self@.forwarder.packet_count,
    {
        self.forwarder.packet_count()
    }

    /// The Start/Stop button stops forwarding that is on and starts it
    /// otherwise.
    pub fn on_start_action(&self) -> (r: StartStop)
        ensures
            r == (if self@.is_running { StartStop::Stop } else { StartStop::Start }),
    {
        if self.is_running {
            StartStop::Stop
        } else {
            StartStop::Start
        }
    }

    /// Forwarding has started, its sockets open: the forwarder runs from a
    /// zero count in a new generation, the rate is measured from zero, and
    /// the window shows so. Refused, with nothing changed, while the
    /// forwarder runs.
    pub fn begin_forwarding(&mut self) -> (r: Result<Started, ForwarderError>)
        ensures
            r is Err <==> old(self)@.forwarder.running,
            r is Err ==> final(self)@ == old(self)@ && r == Err::<Started, ForwarderError>(
                ForwarderError::AlreadyRunning,
            ),
            r matches Ok(st) ==> {
                &&& final(self)@ == (SessionView {
                    forwarder: spec_start(old(self)@.forwarder).0,
                    is_running: true,
                    last_count: 0,
                })
                &&& spec_start(old(self)@.forwarder).1 == Ok::<u64, ForwarderError>(st.generation)
                &&& st.update.status@ == spec_forwarding_status(0, 0)
                &&& st.update.button@ == "Stop"@
            },
            r is Ok ==> consistent(final(self)@),
            consistent(old(self)@) ==> consistent(final(self)@),
    {
        match self.forwarder.start() {
            Err(e) => Err(e),
            Ok(generation) => {
                self.is_running = true;
                self.last_count = 0;
                Ok(Started {
                    update: StatusUpdate { status: forwarding_status(0, 0), button: String::from_str("Stop") },
                    generation,
                })
            },
        }
    }

    /// Stops forwarding from the Stop button.
    pub fn stop_forwarding(&mut self) -> (u: StatusUpdate)
        ensures
            final(self)@ == (SessionView {
                forwarder: spec_stop(old(self)@.forwarder),
                is_running: false,
                last_count: 0,
            }),
            u.status@ == "Stopped"@,
            u.button@ == "Start"@,
            consistent(final(self)@),
    {
        self.is_running = false;
        self.forwarder.stop();
        self.last_count = 0;
        StatusUpdate { status: String::from_str("Stopped"), button: String::from_str("Start") }
    }

    /// Stops forwarding as the window closes, or before a restart.
    pub fn close(&mut self)
        ensures
            final(self)@ == (SessionView {
                forwarder: spec_stop(old(self)@.forwarder),
                is_running: false,
                last_count: old(self)@.last_count,
            }),
            consistent(final(self)@),
    {
        self.is_running = false;
        self.forwarder.stop();
    }

    /// Whether the forwarding thread of `generation` goes on with another
    /// receive.
    pub fn keep_forwarding(&self, generation: u64) -> (r: bool)
        ensures
            r == spec_keep_forwarding(self@.forwarder, generation),
    {
        self.forwarder.keep_forwarding(generation)
    }

    /// Records one packet received by the thread of `generation`; `sent`
    /// tells whether sending it on succeeded.
    pub fn record_send(&mut self, generation: u64, sent: bool)
        ensures
            final(self)@ == (SessionView {
                forwarder: spec_record_send(old(self)@.forwarder, generation, sent),
                ..old(self)@
            }),
            consistent(old(self)@) ==> consistent(final(self)@),
    {
        self.forwarder.record_send(generation, sent);
    }

    /// A resume from sleep asks for a restart: the forwarder stops, so its
    /// thread ends and its sockets can be reopened.
    pub fn pause_for_restart(&mut self)
        ensures
            final(self)@ == spec_pause_for_restart(old(self)@),
            consistent(old(self)@) ==> consistent(final(self)@),
    {
        self.forwarder.stop();
    }

    /// Ends a restart; `reopened` tells whether the sockets could be opened
    /// again. Gives the new generation for the forwarding thread, or `None`
    /// when nothing is started.
    pub fn resume_after_restart(&mut self, reopened: bool) -> (r: Option<u64>)
        ensures
            (final(self)@, r) == spec_resume_after_restart(old(self)@, reopened),
            consistent(old(self)@) ==> consistent(final(self)@),
    {
        if !reopened {
            return None;
        }
        match self.forwarder.start() {
            Ok(generation) => {
                self.is_running = true;
                self.last_count = 0;
                Some(generation)
            },
            Err(_) => None,
        }
    }

    /// The once-a-second timer: while forwarding, the status text with the
    /// total and the packets since the last tick, which becomes the new mark.
    pub fn on_timer(&mut self) -> (r: Option<String>)
        requires
            old(self)@.is_running ==> old(self)@.last_count <= old(self)@.forwarder.packet_count,
        ensures
            !old(self)@.is_running ==> r is None && final(self)@ == old(self)@,
            old(self)@.is_running ==> (r matches Some(text) && text@ == spec_forwarding_status(
                old(self)@.forwarder.packet_count,
                (old(self)@.forwarder.packet_count - old(self)@.last_count) as u64,
            )),
            old(self)@.is_running ==> final(self)@ == (SessionView {
                last_count: old(self)@.forwarder.packet_count,
                ..old(self)@
            }),
            consistent(old(self)@) ==> consistent(final(self)@),
    {
        if !self.is_running {
            return None;
        }
        let count = self.forwarder.packet_count();
        let last = self.last_count;
        let pps = count - last;
        self.last_count = count;
        Some(forwarding_status(count, pps))
    }
}

/// A restart of running forwarding leaves forwarding shown as on whatever
/// happens: when the sockets are reopened the forwarder runs again in a new
/// generation from a zero count, and when they are not, the forwarder stays
/// stopped and nothing else changes.
pub proof fn lemma_restart(v: SessionView, reopened: bool)
    requires
        v.is_running,
    ensures
        spec_resume_after_restart(spec_pause_for_restart(v), reopened).0.is_running,
        reopened ==> spec_resume_after_restart(spec_pause_for_restart(v), reopened).0.forwarder.running,
        reopened ==> spec_resume_after_restart(spec_pause_for_restart(v), reopened).0.forwarder.packet_count == 0,
        reopened ==> spec_resume_after_restart(spec_pause_for_restart(v), reopened).1 is Some,
        !reopened ==> spec_resume_after_restart(spec_pause_for_restart(v), reopened).0 == spec_pause_for_restart(v),
        !spec_keep_forwarding(spec_pause_for_restart(v).forwarder, v.forwarder.generation),
{
}

} // verus!
