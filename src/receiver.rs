//! The receiver's side: holding the pipeline paused until the announced start
//! instant, and watching sender reports once playback runs.

use crate::protocol::ControlMessage;
use crate::sr::{is_sender_report, parse_rtcp_sr_packet, sr_fields, SrSample};
use crate::time::NtpTimestamp;
use vstd::prelude::*;

verus! {

/// Where a receiver stands. `Playing` is final: one process starts once.
#[derive(Clone, Copy, Debug, PartialEq, Eq, Structural)]
pub enum Phase {
    /// The control channel is being set up and the pipeline built.
    Connecting,
    /// The pipeline is built and parked paused.
    Prerolled,
    /// The pipeline has been told to play.
    Playing,
}

/// The sample that a sender-report message carries.
pub open spec fn sample_of(m: ControlMessage) -> Option<SrSample> {
    match m {
        ControlMessage::Sr { ntp_seconds, ntp_fraction, rtp_timestamp, clock_rate, .. } => Some(
            SrSample { ntp_seconds: ntp_seconds as u64, ntp_fraction, rtp_timestamp, clock_rate },
        ),
        ControlMessage::Heartbeat { .. } => None,
    }
}

/// What a receiver knows: its phase, the latest sender report, and the start instant.
#[derive(Clone, Copy, Debug, PartialEq, Eq, Structural)]
pub struct ReceiverState {
    pub phase: Phase,
    pub last_sr: Option<SrSample>,
    pub scheduled_start: Option<NtpTimestamp>,
}

impl ReceiverState {
    /// The state after `message` arrives. Before playback a report replaces the
    /// latest sample, and a start instant in it replaces the scheduled one (the
    /// last one written wins); a heartbeat changes nothing, and nothing changes
    /// once playing.
    pub open spec fn after_message(self, message: ControlMessage) -> ReceiverState {
        if self.phase == Phase::Playing || message is Heartbeat {
            self
        } else {
            ReceiverState {
                phase: self.phase,
                last_sr: sample_of(message),
                scheduled_start: match message.spec_start() {
                    Some(t) => Some(t),
                    None => self.scheduled_start,
                },
            }
        }
    }

    /// Whether a poll at `now` starts playback: prerolled, a start instant is set,
    /// and `now` has reached it.
    pub open spec fn starts_at(self, now: NtpTimestamp) -> bool {
        &&& self.phase == Phase::Prerolled
        &&& self.scheduled_start matches Some(t)
        &&& now.units() >= t.units()
    }

    /// The state after a poll at `now`.
    pub open spec fn after_poll(self, now: NtpTimestamp) -> ReceiverState {
        if self.starts_at(now) {
            ReceiverState { phase: Phase::Playing, ..self }
        } else {
            self
        }
    }

    pub fn new() -> (r: ReceiverState)
        ensures
            r == (ReceiverState { phase: Phase::Connecting, last_sr: None, scheduled_start: None }),
    {
        ReceiverState { phase: Phase::Connecting, last_sr: None, scheduled_start: None }
    }

    /// Records that the pipeline is built and paused.
    pub fn prerolled(&mut self)
        ensures
            *final(self) == (if old(self).phase == Phase::Connecting {
                ReceiverState { phase: Phase::Prerolled, ..*old(self) }
            } else {
                *old(self)
            }),
    {
        if self.phase == Phase::Connecting {
            self.phase = Phase::Prerolled;
        }
    }

    /// Takes in one message from the control channel.
    pub fn on_message(&mut self, message: &ControlMessage)
        ensures
            *final(self) == old(self).after_message(*message),
    {
        if self.phase == Phase::Playing {
            return;
        }
        match message {
            ControlMessage::Sr { ntp_seconds, ntp_fraction, rtp_timestamp, clock_rate, .. } => {
                self.last_sr = Some(
                    SrSample {
                        ntp_seconds: *ntp_seconds as u64,
                        ntp_fraction: *ntp_fraction,
                        rtp_timestamp: *rtp_timestamp,
                        clock_rate: *clock_rate,
                    },
                );
                match message.start_instant() {
                    Some(t) => {
                        self.scheduled_start = Some(t);
                    },
                    None => {},
                }
            },
            ControlMessage::Heartbeat { .. } => {},
        }
    }

    /// One iteration of the control loop at wall-clock instant `now`: returns
    /// true, and moves to `Playing`, exactly when playback must start now.
    pub fn poll(&mut self, now: NtpTimestamp) -> (start: bool)
        ensures
            start == old(self).starts_at(now),
            *final(self) == old(self).after_poll(now),
    {
        if self.phase != Phase::Prerolled {
            return false;
        }
        match self.scheduled_start {
            Some(t) => {
                if now.is_at_or_after(&t) {
                    self.phase = Phase::Playing;
                    true
                } else {
                    false
                }
            },
            None => false,
        }
    }
}

/// Scheduled start: a prerolled receiver holding start instant `t` stays
/// prerolled, unchanged, at every poll before `t`, and plays from the first poll
/// at or after `t`.
pub proof fn lemma_scheduled_start(state: ReceiverState, t: NtpTimestamp, now: NtpTimestamp)
    requires
        state.phase == Phase::Prerolled,
        state.scheduled_start == Some(t),
    ensures
        now.units() < t.units() ==> state.after_poll(now) == state,
        now.units() >= t.units() ==> state.after_poll(now).phase == Phase::Playing,
{
}

/// A start instant that has already passed when its message arrives starts
/// playback at the very next poll of a prerolled receiver.
pub proof fn lemma_late_start_is_immediate(state: ReceiverState, message: ControlMessage, now: NtpTimestamp)
    requires
        state.phase == Phase::Prerolled,
        message.spec_start() matches Some(t) && now.units() >= t.units(),
    ensures
        state.after_message(message).after_poll(now).phase == Phase::Playing,
{
}

/// Playing is final: no message and no poll leads out of it.
pub proof fn lemma_playing_is_final(state: ReceiverState, message: ControlMessage, now: NtpTimestamp)
    requires
        state.phase == Phase::Playing,
    ensures
        state.after_message(message) == state,
        state.after_poll(now) == state,
{
}

/// Passive observation of the sender reports that reach the receiver after
/// playback has started.
#[derive(Clone, Copy, Debug)]
pub struct DriftMonitor {
    /// The latest report seen: NTP seconds, NTP fraction, RTP timestamp.
    pub latest: Option<(u32, u32, u32)>,
}

impl DriftMonitor {
    pub fn new() -> (r: DriftMonitor)
        ensures
            r.latest is None,
    {
        DriftMonitor { latest: None }
    }

    /// Reads one received RTCP datagram; a sender report in it becomes the latest
    /// one seen and is returned, anything else is dropped.
    pub fn observe(&mut self, datagram: &[u8]) -> (r: Option<(u32, u32, u32)>)
        ensures
            r is Some <==> is_sender_report(datagram@),
            r matches Some(v) ==> (v.0 as int, v.1 as int, v.2 as int) == sr_fields(datagram@),
            final(self).latest == (if r is Some { r } else { old(self).latest }),
    {
        let r = parse_rtcp_sr_packet(datagram);
        if r.is_some() {
            self.latest = r;
        }
        r
    }
}

/// How a receiver is set up: its RTP port (RTCP on the next one), the video sink
/// of its pipeline, and the address of the sender's control server.
#[derive(Clone, Debug)]
pub struct ReceiverArgs {
    port: u32,
    display_sink: String,
    control_addr: String,
}

impl ReceiverArgs {
    pub fn new(port: u32, display_sink: String, control_addr: String) -> (r: ReceiverArgs)
        ensures
            r.spec_port() == port,
            r.spec_display_sink() == display_sink@,
            r.spec_control_addr() == control_addr@,
    {
        ReceiverArgs { port, display_sink, control_addr }
    }

    pub closed spec fn spec_port(&self) -> u32 {
        self.port
    }

    pub closed spec fn spec_display_sink(&self) -> Seq<char> {
        self.display_sink@
    }

    pub closed spec fn spec_control_addr(&self) -> Seq<char> {
        self.control_addr@
    }

    pub fn port(&self) -> (r: u32)
        ensures
            r == self.spec_port(),
    {
        self.port
    }

    /// The port on which RTCP arrives: the one after the RTP port, when there is one.
    pub fn rtcp_port(&self) -> (r: Option<u16>)
        ensures
            r is Some <==> self.spec_port() + 1 <= u16::MAX,
            r matches Some(p) ==> p == self.spec_port() + 1,
    {
        if self.port < 0xffff {
            Some((self.port + 1) as u16)
        } else {
            None
        }
    }

    pub fn display_sink(&self) -> (r: &str)
        ensures
            r@ == self.spec_display_sink(),
    {
        self.display_sink.as_str()
    }

    pub fn control_addr(&self) -> (r: &str)
        ensures
            r@ == self.spec_control_addr(),
    {
        self.control_addr.as_str()
    }
}

} // verus!
