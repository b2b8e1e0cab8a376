//! The control channel's messages and the framing of its byte stream into
//! newline-terminated records, one message per record.

use crate::time::{NtpTimestamp, FRACTION_PER_SECOND};
use vstd::prelude::*;

verus! {

/// Byte that ends every record on the control channel.
pub const RECORD_END: u8 = 0x0a;

/// A message from the sender to its receivers.
#[derive(Clone, Copy, Debug, PartialEq, Eq, Structural)]
pub enum ControlMessage {
    /// A sender report, with an optional absolute start instant.
    Sr {
        ntp_seconds: u32,
        ntp_fraction: u32,
        rtp_timestamp: u32,
        clock_rate: u32,
        start_at_ntp_seconds: Option<u64>,
        start_at_ntp_fraction: Option<u32>,
    },
    /// A liveness signal carrying the sender's clock.
    Heartbeat { ntp_seconds: u32, ntp_fraction: u32 },
}

impl ControlMessage {
    /// Both start fields present, or both absent; a heartbeat always qualifies.
    pub open spec fn spec_well_formed(self) -> bool {
        match self {
            ControlMessage::Sr { start_at_ntp_seconds, start_at_ntp_fraction, .. } =>
                start_at_ntp_seconds is Some == start_at_ntp_fraction is Some,
            ControlMessage::Heartbeat { .. } => true,
        }
    }

    /// The start instant that a well-formed message announces, if any.
    pub open spec fn spec_start(self) -> Option<NtpTimestamp> {
        match self {
            ControlMessage::Sr { start_at_ntp_seconds: Some(s), start_at_ntp_fraction: Some(f), .. } =>
                Some(NtpTimestamp { seconds: s, fraction: f }),
            _ => None,
        }
    }

    pub fn is_well_formed(&self) -> (r: bool)
        ensures
            r == self.spec_well_formed(),
    {
        match self {
            ControlMessage::Sr { start_at_ntp_seconds, start_at_ntp_fraction, .. } =>
                start_at_ntp_seconds.is_some() == start_at_ntp_fraction.is_some(),
            ControlMessage::Heartbeat { .. } => true,
        }
    }

    /// The announced start instant: present only when both start fields are.
    pub fn start_instant(&self) -> (r: Option<NtpTimestamp>)
        ensures
            r == self.spec_start(),
    {
        match self {
            ControlMessage::Sr { start_at_ntp_seconds: Some(s), start_at_ntp_fraction: Some(f), .. } =>
                Some(NtpTimestamp { seconds: *s, fraction: *f }),
            _ => None,
        }
    }

    /// A heartbeat stamped with `now`; the seconds travel in a 32-bit field and so
    /// wrap as NTP's own 32-bit seconds do.
    pub fn heartbeat(now: NtpTimestamp) -> (r: ControlMessage)
        ensures
            r == (ControlMessage::Heartbeat {
                ntp_seconds: (now.seconds % FRACTION_PER_SECOND) as u32,
                ntp_fraction: now.fraction,
            }),
    {
        ControlMessage::Heartbeat { ntp_seconds: (now.seconds % FRACTION_PER_SECOND) as u32, ntp_fraction: now.fraction }
    }

    pub fn is_sr(&self) -> (r: bool)
        ensures
            r == self is Sr,
    {
        matches!(self, ControlMessage::Sr { .. })
    }
}

/// Whether a byte string holds no record end.
pub open spec fn no_record_end(s: Seq<u8>) -> bool {
    forall|i: int| 0 <= i < s.len() ==> s[i] != RECORD_END
}

/// The bytes before the first record end, or all of them when there is none.
pub open spec fn first_record(s: Seq<u8>) -> Seq<u8>
    decreases s.len(),
{
    if s.len() == 0 {
        s
    } else if s[0] == RECORD_END {
        Seq::empty()
    } else {
        seq![s[0]] + first_record(s.drop_first())
    }
}

/// Splits a byte stream into newline-terminated records as the bytes arrive.
pub struct RecordFramer {
    pending: Vec<u8>,
}

impl View for RecordFramer {
    type V = Seq<u8>;

    /// The bytes received and not yet handed out as a record.
    closed spec fn view(&self) -> Seq<u8> {
        self.pending@
    }
}

impl RecordFramer {
    pub fn new() -> (r: RecordFramer)
        ensures
            r@ == Seq::<u8>::empty(),
    {
        RecordFramer { pending: Vec::new() }
    }

    /// Appends bytes read from the stream.
    pub fn push_bytes(&mut self, data: &[u8])
        ensures
            final(self)@ == old(self)@ + data@,
    {
        let mut i: usize = 0;
        while i < data.len()
            invariant
                i <= data@.len(),
                self@ == old(self)@ + data@.subrange(0, i as int),
            decreases data@.len() - i,
        {
            self.pending.push(data[i]);
            i = i + 1;
            assert(data@.subrange(0, i as int) == data@.subrange(0, i - 1 as int).push(data@[i - 1]));
        }
        assert(data@.subrange(0, data@.len() as int) == data@);
    }

    /// Takes the next complete record, without its record end, out of the
    /// pending bytes; `None` while no record end has arrived.
    pub fn next_record(&mut self) -> (r: Option<Vec<u8>>)
        ensures
            r is None <==> no_record_end(old(self)@),
            r is None ==> final(self)@ == old(self)@,
            r matches Some(rec) ==> rec@ == first_record(old(self)@)
                && old(self)@ == rec@ + seq![RECORD_END] + final(self)@,
    {
        let n = self.pending.len();
        let mut end: usize = 0;
        while end < n
            invariant
                n == self.pending@.len(),
                end <= n,
                self@ == old(self)@,
                forall|j: int| 0 <= j < end ==> self.pending@[j] != RECORD_END,
            ensures
                end <= n,
                self@ == old(self)@,
                forall|j: int| 0 <= j < end ==> self.pending@[j] != RECORD_END,
                end < n ==> self.pending@[end as int] == RECORD_END,
            decreases n - end,
        {
            if self.pending[end] == RECORD_END {
                break;
            }
            end = end + 1;
        }
        if end == n {
            return None;
        }
        let ghost all = self.pending@;
        let mut record: Vec<u8> = Vec::new();
        let mut rest: Vec<u8> = Vec::new();
        let mut k: usize = 0;
        while k < n
            invariant
                n == all.len(),
                end < n,
                self.pending@ == all,
                k <= n,
                k <= end ==> record@ == all.subrange(0, k as int) && rest@.len() == 0,
                k > end ==> record@ == all.subrange(0, end as int) && rest@ == all.subrange(end + 1, k as int),
            decreases n - k,
        {
            if k < end {
                record.push(self.pending[k]);
                assert(all.subrange(0, k + 1) == all.subrange(0, k as int).push(all[k as int]));
            } else if k > end {
                rest.push(self.pending[k]);
                assert(all.subrange(end + 1, k + 1) == all.subrange(end + 1, k as int).push(all[k as int]));
            }
            k = k + 1;
        }
        proof {
            lemma_first_record_prefix(all, end as int);
            assert(all =~= all.subrange(0, end as int) + seq![RECORD_END] + all.subrange(end + 1, n as int));
        }
        self.pending = rest;
        Some(record)
    }

    /// Hands out what is left once the stream has ended: the bytes of a last
    /// record that had no record end, if there are any.
    pub fn finish(&mut self) -> (r: Option<Vec<u8>>)
        ensures
            r is None <==> old(self)@.len() == 0,
            r matches Some(rec) ==> rec@ == old(self)@,
            final(self)@ == Seq::<u8>::empty(),
    {
        if self.pending.len() == 0 {
            None
        } else {
            let mut rec: Vec<u8> = Vec::new();
            std::mem::swap(&mut rec, &mut self.pending);
            Some(rec)
        }
    }
}

/// Framing round trip: a record without a record end, sent with its record end
/// and followed by any bytes, is read back as itself.
pub proof fn lemma_record_round_trip(record: Seq<u8>, rest: Seq<u8>)
    requires
        no_record_end(record),
    ensures
        first_record(record + seq![RECORD_END] + rest) == record,
        !no_record_end(record + seq![RECORD_END] + rest),
{
    let s = record + seq![RECORD_END] + rest;
    assert(s[record.len() as int] == RECORD_END);
    assert forall|j: int| 0 <= j < record.len() implies s[j] != RECORD_END by {
        assert(s[j] == record[j]);
    }
    lemma_first_record_prefix(s, record.len() as int);
    assert(s.subrange(0, record.len() as int) =~= record);
}

/// When the first record end stands at `end`, the first record is what precedes it.
proof fn lemma_first_record_prefix(s: Seq<u8>, end: int)
    requires
        0 <= end < s.len(),
        s[end] == RECORD_END,
        forall|j: int| 0 <= j < end ==> s[j] != RECORD_END,
    ensures
        first_record(s) == s.subrange(0, end),
    decreases end,
{
    if end > 0 {
        let t = s.drop_first();
        assert forall|j: int| 0 <= j < end - 1 implies t[j] != RECORD_END by {
            assert(t[j] == s[j + 1]);
        }
        lemma_first_record_prefix(t, end - 1);
        assert(s.subrange(0, end) == seq![s[0]] + t.subrange(0, end - 1));
    } else {
        assert(s.subrange(0, 0) == Seq::<u8>::empty());
    }
}

} // verus!
