//! The sender's side of the control channel: the registry of connected clients,
//! the outbound queue, and the bookkeeping of one broadcast pass.
//!
//! A pass writes every queued message to every client, then a heartbeat to each
//! client still registered. The writes themselves are made by the caller, which
//! reports back which of them failed; a client is dropped after its first failed
//! write and is never written to again.

use crate::protocol::ControlMessage;
use crate::time::{NtpTimestamp, FRACTION_PER_SECOND};
use vstd::prelude::*;

verus! {

/// The entries of `s` whose flag in `failed` is not set, in their order.
pub open spec fn kept<C>(s: Seq<C>, failed: Seq<bool>) -> Seq<C>
    decreases s.len(),
{
    if s.len() == 0 {
        Seq::empty()
    } else if failed.len() > 0 && failed[0] {
        kept(s.drop_first(), failed.drop_first())
    } else {
        seq![s[0]] + kept(s.drop_first(), failed.drop_first())
    }
}

/// The records that one pass writes to a client that stays healthy through it:
/// the queued messages in order, then one heartbeat.
pub open spec fn pass_records(queue: Seq<ControlMessage>, now: NtpTimestamp) -> Seq<ControlMessage> {
    queue.push(ControlMessage::Heartbeat {
        ntp_seconds: (now.seconds % FRACTION_PER_SECOND) as u32,
        ntp_fraction: now.fraction,
    })
}

/// Connected clients, each a handle of type `C`, and the messages waiting to go out.
pub struct ControlServer<C> {
    clients: Vec<C>,
    outbound: Vec<ControlMessage>,
}

impl<C> ControlServer<C> {
    /// The registered clients, in the order they were accepted.
    pub closed spec fn registry(&self) -> Seq<C> {
        self.clients@
    }

    /// The messages queued for the next broadcast, oldest first.
    pub closed spec fn queue(&self) -> Seq<ControlMessage> {
        self.outbound@
    }

    pub fn new() -> (r: ControlServer<C>)
        ensures
            r.registry() == Seq::<C>::empty(),
            r.queue() == Seq::<ControlMessage>::empty(),
    {
        ControlServer { clients: Vec::new(), outbound: Vec::new() }
    }

    /// Registers a newly accepted client.
    pub fn accept(&mut self, client: C)
        ensures
            final(self).registry() == old(self).registry().push(client),
            final(self).queue() == old(self).queue(),
    {
        self.clients.push(client);
    }

    /// Queues a message for the next broadcast.
    pub fn enqueue(&mut self, message: ControlMessage)
        ensures
            final(self).queue() == old(self).queue().push(message),
            final(self).registry() == old(self).registry(),
    {
        self.outbound.push(message);
    }

    pub fn clients(&self) -> (r: &Vec<C>)
        ensures
            r@ == self.registry(),
    {
        &self.clients
    }

    pub fn pending(&self) -> (r: &Vec<ControlMessage>)
        ensures
            r@ == self.queue(),
    {
        &self.outbound
    }

    /// Whether the next pass has queued messages to broadcast.
    pub fn has_pending(&self) -> (r: bool)
        ensures
            r == (self.queue().len() > 0),
    {
        self.outbound.len() > 0
    }

    /// Ends the broadcast step of a pass: drops each client whose writes failed
    /// (`failed[i]` for the client at `i`) and empties the queue.
    pub fn finish_broadcast(&mut self, failed: &Vec<bool>)
        requires
            failed@.len() == old(self).registry().len(),
        ensures
            final(self).registry() == kept(old(self).registry(), failed@),
            final(self).queue() == Seq::<ControlMessage>::empty(),
    {
        self.prune(failed);
        self.outbound.clear();
    }

    /// Ends the heartbeat step of a pass: drops each client whose heartbeat write failed.
    pub fn finish_heartbeat(&mut self, failed: &Vec<bool>)
        requires
            failed@.len() == old(self).registry().len(),
        ensures
            final(self).registry() == kept(old(self).registry(), failed@),
            final(self).queue() == old(self).queue(),
    {
        self.prune(failed);
    }

    fn prune(&mut self, failed: &Vec<bool>)
        requires
            failed@.len() == old(self).clients@.len(),
        ensures
            final(self).clients@ == kept(old(self).clients@, failed@),
            final(self).outbound@ == old(self).outbound@,
    {
        let n = self.clients.len();
        let ghost all = self.clients@;
        let mut i: usize = n;
        while i > 0
            invariant
                n == all.len(),
                n == failed@.len(),
                i <= n,
                self.outbound@ == old(self).outbound@,
                all == old(self).clients@,
                self.clients@ == all.subrange(0, i as int) + kept(
                    all.subrange(i as int, n as int),
                    failed@.subrange(i as int, n as int),
                ),
            decreases i,
        {
            i = i - 1;
            proof {
                let s = all.subrange(i as int, n as int);
                let f = failed@.subrange(i as int, n as int);
                assert(s.drop_first() =~= all.subrange(i + 1, n as int));
                assert(f.drop_first() =~= failed@.subrange(i + 1, n as int));
                assert(all.subrange(0, i + 1) =~= all.subrange(0, i as int).push(all[i as int]));
            }
            if failed[i] {
                self.clients.remove(i);
                assert(self.clients@ =~= all.subrange(0, i as int) + kept(
                    all.subrange(i + 1, n as int),
                    failed@.subrange(i + 1, n as int),
                ));
            } else {
                assert(all.subrange(0, i + 1) + kept(
                    all.subrange(i + 1, n as int),
                    failed@.subrange(i + 1, n as int),
                ) =~= all.subrange(0, i as int) + (seq![all[i as int]] + kept(
                    all.subrange(i + 1, n as int),
                    failed@.subrange(i + 1, n as int),
                )));
            }
        }
        assert(all.subrange(0, n as int) =~= all);
        assert(failed@.subrange(0, n as int) =~= failed@);
        assert(all.subrange(0, 0) =~= Seq::<C>::empty());
    }
}

/// An entry survives pruning exactly when some position holding it had no failure.
pub proof fn lemma_kept_contains<C>(s: Seq<C>, failed: Seq<bool>, x: C)
    requires
        failed.len() == s.len(),
    ensures
        kept(s, failed).contains(x) <==> exists|j: int| 0 <= j < s.len() && !failed[j] && s[j] == x,
    decreases s.len(),
{
    if s.len() > 0 {
        let t = s.drop_first();
        let g = failed.drop_first();
        let ks = kept(s, failed);
        let kt = kept(t, g);
        lemma_kept_contains(t, g, x);
        if failed[0] {
            assert(ks == kt);
        } else {
            assert(ks == seq![s[0]] + kt);
        }
        if exists|j: int| 0 <= j < s.len() && !failed[j] && s[j] == x {
            let j = choose|j: int| 0 <= j < s.len() && !failed[j] && s[j] == x;
            if j == 0 {
                assert(ks[0] == x);
            } else {
                assert(!g[j - 1] && t[j - 1] == x);
                let k = choose|k: int| 0 <= k < kt.len() && kt[k] == x;
                if failed[0] {
                    assert(ks[k] == x);
                } else {
                    assert(ks[k + 1] == x);
                }
            }
        }
        if ks.contains(x) {
            let k = choose|k: int| 0 <= k < ks.len() && ks[k] == x;
            if !failed[0] && k == 0 {
                assert(!failed[0] && s[0] == x);
            } else {
                let k2 = if failed[0] { k } else { k - 1 };
                assert(kt[k2] == x);
                let j = choose|j: int| 0 <= j < t.len() && !g[j] && t[j] == x;
                assert(s[j + 1] == x && !failed[j + 1]);
            }
        }
    }
}

/// With no failed write, pruning keeps every client in its place.
pub proof fn lemma_kept_all<C>(s: Seq<C>, failed: Seq<bool>)
    requires
        failed.len() == s.len(),
        forall|i: int| 0 <= i < failed.len() ==> !failed[i],
    ensures
        kept(s, failed) == s,
    decreases s.len(),
{
    if s.len() > 0 {
        lemma_kept_all(s.drop_first(), failed.drop_first());
        assert(seq![s[0]] + s.drop_first() =~= s);
    }
}

/// Fan-out: in a pass over N clients with one queued report where no write fails,
/// all N clients stay registered through both steps, and each is written exactly
/// that report and then one heartbeat, in that order.
pub proof fn lemma_fan_out<C>(clients: Seq<C>, report: ControlMessage, now: NtpTimestamp)
    requires
        report is Sr,
    ensures
        ({
            let none_failed = Seq::new(clients.len(), |i: int| false);
            kept(kept(clients, none_failed), none_failed) == clients
        }),
        pass_records(seq![report], now).len() == 2,
        pass_records(seq![report], now)[0] == report,
        pass_records(seq![report], now)[1] is Heartbeat,
{
    let none_failed = Seq::new(clients.len(), |i: int| false);
    lemma_kept_all(clients, none_failed);
    lemma_kept_all(kept(clients, none_failed), none_failed);
}

/// Pruning: among distinct clients, one whose write failed is gone from the
/// registry after the step that saw the failure, so no later step writes to it,
/// while every client whose write succeeded is still there.
pub proof fn lemma_failed_client_removed<C>(clients: Seq<C>, failed: Seq<bool>, i: int)
    requires
        clients.no_duplicates(),
        failed.len() == clients.len(),
        0 <= i < clients.len(),
    ensures
        failed[i] ==> !kept(clients, failed).contains(clients[i]),
        !failed[i] ==> kept(clients, failed).contains(clients[i]),
{
    lemma_kept_contains(clients, failed, clients[i]);
}

} // verus!
