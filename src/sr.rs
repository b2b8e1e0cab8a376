//! Decoding of RTCP sender reports: the NTP timestamp and the RTP timestamp
//! that the sender reported for the same instant.

use vstd::prelude::*;

verus! {

/// RTCP packet type of a sender report.
pub const RTCP_SR_PACKET_TYPE: u8 = 200;

/// Shortest buffer that is read as a sender report: header, SSRC and sender info.
pub const SR_MIN_LEN: usize = 28;

/// Offset of the NTP seconds field.
pub const SR_NTP_SECONDS_AT: usize = 8;

/// Offset of the NTP fraction field.
pub const SR_NTP_FRACTION_AT: usize = 12;

/// Offset of the RTP timestamp field.
pub const SR_RTP_TIMESTAMP_AT: usize = 16;

/// The big-endian 32-bit number held in the four bytes from `i`.
pub open spec fn be_u32_at(b: Seq<u8>, i: int) -> int {
    b[i] * 0x100_0000 + b[i + 1] * 0x1_0000 + b[i + 2] * 0x100 + b[i + 3]
}

/// Whether a buffer is read as a sender report: long enough, with packet type 200
/// in its second byte. Version, padding and report count are not looked at.
pub open spec fn is_sender_report(b: Seq<u8>) -> bool {
    b.len() >= SR_MIN_LEN && b[1] == RTCP_SR_PACKET_TYPE
}

/// The fields read from a sender report: NTP seconds, NTP fraction and RTP timestamp.
pub open spec fn sr_fields(b: Seq<u8>) -> (int, int, int) {
    (
        be_u32_at(b, SR_NTP_SECONDS_AT as int),
        be_u32_at(b, SR_NTP_FRACTION_AT as int),
        be_u32_at(b, SR_RTP_TIMESTAMP_AT as int),
    )
}

/// Reads the big-endian 32-bit number at `i`.
pub fn read_be_u32(b: &[u8], i: usize) -> (r: u32)
    requires
        i + 4 <= b@.len(),
    ensures
        r == be_u32_at(b@, i as int),
{
    let b0 = b[i] as u32;
    let b1 = b[i + 1] as u32;
    let b2 = b[i + 2] as u32;
    let b3 = b[i + 3] as u32;
    b0 * 0x100_0000 + b1 * 0x1_0000 + b2 * 0x100 + b3
}

/// Decodes a sender report that starts at the first byte of `packet`, giving
/// (NTP seconds, NTP fraction, RTP timestamp); `None` when the buffer is shorter
/// than 28 bytes or its packet type is not 200.
pub fn parse_rtcp_sr_packet(packet: &[u8]) -> (r: Option<(u32, u32, u32)>)
    ensures
        r is Some <==> is_sender_report(packet@),
        r matches Some(v) ==> (v.0 as int, v.1 as int, v.2 as int) == sr_fields(packet@),
{
    if packet.len() < SR_MIN_LEN {
        return None;
    }
    if packet[1] != RTCP_SR_PACKET_TYPE {
        return None;
    }
    let ntp_seconds = read_be_u32(packet, SR_NTP_SECONDS_AT);
    let ntp_fraction = read_be_u32(packet, SR_NTP_FRACTION_AT);
    let rtp_timestamp = read_be_u32(packet, SR_RTP_TIMESTAMP_AT);
    Some((ntp_seconds, ntp_fraction, rtp_timestamp))
}

/// One sender report together with the media clock rate that its RTP timestamp counts in.
#[derive(Clone, Copy, Debug, PartialEq, Eq, Structural)]
pub struct SrSample {
    /// NTP seconds since 1900.
    pub ntp_seconds: u64,
    /// NTP fraction of a second.
    pub ntp_fraction: u32,
    /// Media clock value at that instant.
    pub rtp_timestamp: u32,
    /// Media clock ticks per second.
    pub clock_rate: u32,
}

/// Decodes a sender report into a sample at the given media clock rate.
pub fn decode_sr(packet: &[u8], clock_rate: u32) -> (r: Option<SrSample>)
    ensures
        r is Some <==> is_sender_report(packet@),
        r matches Some(s) ==> (s.ntp_seconds as int, s.ntp_fraction as int, s.rtp_timestamp as int)
            == sr_fields(packet@) && s.clock_rate == clock_rate,
{
    match parse_rtcp_sr_packet(packet) {
        Some((ntp_seconds, ntp_fraction, rtp_timestamp)) => Some(
            SrSample { ntp_seconds: ntp_seconds as u64, ntp_fraction, rtp_timestamp, clock_rate },
        ),
        None => None,
    }
}

} // verus!
