//! The sender's decision: each sender report observed on its own RTCP stream
//! becomes an announcement of a start instant a fixed lead time ahead.

use crate::protocol::ControlMessage;
use crate::sr::{is_sender_report, parse_rtcp_sr_packet, sr_fields};
use crate::time::{ntp_now, NtpTimestamp};
use vstd::prelude::*;

verus! {

/// Seconds between announcing a start and the start itself: longer than the
/// control channel's worst delivery delay plus a receiver's handling time.
pub const LEAD_SECONDS: u64 = 5;

/// Ticks per second of the RTP clock of the video stream.
pub const RTP_CLOCK_RATE: u32 = 90000;

/// The announcement for a sender report with the given fields, made at `now`.
pub open spec fn announcement_of(fields: (int, int, int), now: NtpTimestamp) -> ControlMessage {
    ControlMessage::Sr {
        ntp_seconds: fields.0 as u32,
        ntp_fraction: fields.1 as u32,
        rtp_timestamp: fields.2 as u32,
        clock_rate: RTP_CLOCK_RATE,
        start_at_ntp_seconds: Some((now.seconds + LEAD_SECONDS) as u64),
        start_at_ntp_fraction: Some(fields.1 as u32),
    }
}

/// The announcement for one RTCP datagram observed at `now`: a sender report
/// gives its fields, the 90 kHz clock rate, and a start `LEAD_SECONDS` after
/// `now` at the report's own fraction; any other datagram gives nothing.
pub fn announcement(packet: &[u8], now: NtpTimestamp) -> (r: Option<ControlMessage>)
    requires
        now.seconds + LEAD_SECONDS <= u64::MAX,
    ensures
        r is Some <==> is_sender_report(packet@),
        r matches Some(m) ==> m == announcement_of(sr_fields(packet@), now) && m.spec_well_formed(),
{
    match parse_rtcp_sr_packet(packet) {
        Some((ntp_seconds, ntp_fraction, rtp_timestamp)) => Some(
            ControlMessage::Sr {
                ntp_seconds,
                ntp_fraction,
                rtp_timestamp,
                clock_rate: RTP_CLOCK_RATE,
                start_at_ntp_seconds: Some(now.seconds + LEAD_SECONDS),
                start_at_ntp_fraction: Some(ntp_fraction),
            },
        ),
        None => None,
    }
}

/// The announcement for one RTCP datagram, stamped with the wall clock read now.
/// Nothing comes of a datagram that is not a sender report, nor of a clock
/// reading before the epoch or too close to the end of the seconds field.
pub fn announce(packet: &[u8]) -> (r: Option<ControlMessage>)
    ensures
        r is Some ==> is_sender_report(packet@),
        r matches Some(m) ==> exists|now: NtpTimestamp| #[trigger] announcement_of(sr_fields(packet@), now) == m,
{
    match ntp_now() {
        Some(now) => {
            if now.seconds <= u64::MAX - LEAD_SECONDS {
                announcement(packet, now)
            } else {
                None
            }
        },
        None => None,
    }
}

/// The H.264 encoder a sender uses: NVENC when asked for and present, else
/// VA-API when asked for and present, else the x264 software encoder.
pub open spec fn encoder_choice(use_vaapi: bool, use_nvenc: bool, nvenc_found: bool, vaapi_found: bool) -> Seq<char> {
    if use_nvenc && nvenc_found {
        "nvh264enc"@
    } else if use_vaapi && vaapi_found {
        "vaapih264enc"@
    } else {
        "x264enc"@
    }
}

/// Picks the encoder element; `nvenc_found` and `vaapi_found` tell whether the
/// media framework has the hardware encoders.
pub fn choose_video_encoder(use_vaapi: bool, use_nvenc: bool, nvenc_found: bool, vaapi_found: bool) -> (r: &'static str)
    ensures
        r@ == encoder_choice(use_vaapi, use_nvenc, nvenc_found, vaapi_found),
{
    if use_nvenc && nvenc_found {
        "nvh264enc"
    } else if use_vaapi && vaapi_found {
        "vaapih264enc"
    } else {
        "x264enc"
    }
}

/// How a sender is set up: where its RTP goes (RTCP on the next port), what it
/// plays, where its control server listens, and which hardware encoders to try.
#[derive(Clone, Debug)]
pub struct SenderArgs {
    /// Multicast group or unicast host that the RTP and RTCP streams go to.
    pub multicast: String,
    /// RTP port; RTCP uses the one after it.
    pub port: u32,
    /// A media file to send; the default camera when absent.
    pub input_file: Option<String>,
    /// Listen address of the control server.
    pub control_listen: String,
    /// Try the VA-API hardware encoder.
    pub use_vaapi: bool,
    /// Try the NVIDIA NVENC hardware encoder.
    pub use_nvenc: bool,
}

impl SenderArgs {
    /// The RTCP port: the one after the RTP port, when there is one.
    pub fn rtcp_port(&self) -> (r: Option<u16>)
        ensures
            r is Some <==> self.port + 1 <= u16::MAX,
            r matches Some(p) ==> p == self.port + 1,
    {
        if self.port < 0xffff {
            Some((self.port + 1) as u16)
        } else {
            None
        }
    }
}

} // verus!
