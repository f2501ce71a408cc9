//! State of the connection identifiers that this endpoint has issued.
use std::collections::{HashSet, VecDeque};
use vstd::prelude::*;

use crate::shared::{is_protocol_violation, IssuedCid, TransportError};

verus! {

broadcast use vstd::std_specs::hash::group_hash_axioms;

/// One expiry batch: identifiers up to `sequence` that are due for
/// retirement at `timestamp`.
#[derive(Debug, Clone, Copy, PartialEq, Eq, Structural)]
pub struct CidTimeStamp {
    /// Highest sequence number created in the batch.
    pub sequence: u64,
    /// Instant at which the batch is to be retired.
    pub timestamp: u64,
}

/// Mathematical picture of a `CidState`.
pub struct CidStateView {
    /// Number of identifiers issued so far, the handshake one included.
    pub issued: u64,
    /// Sequence numbers that the peer has not retired yet.
    pub active: Set<u64>,
    /// Threshold that the peer has already honoured.
    pub prev_retire_seq: u64,
    /// Threshold currently requested from the peer.
    pub retire_seq: u64,
    /// Pending expiry batches, earliest first.
    pub expiries: Seq<CidTimeStamp>,
    /// Length of the identifiers; 0 means identifiers are not in use.
    pub cid_len: usize,
    /// How long an identifier lives, if it expires at all.
    pub cid_lifetime: Option<u64>,
}

/// Where the batch of an identifier with sequence `seq`, issued at `now`,
/// goes: merged into the last batch when that one expires at the same
/// instant, appended otherwise, and nowhere when no lifetime is set or the
/// expiry instant cannot be represented.
pub open spec fn expiries_after_track(
    expiries: Seq<CidTimeStamp>,
    lifetime: Option<u64>,
    seq: u64,
    now: u64,
) -> Seq<CidTimeStamp> {
    match lifetime {
        None => expiries,
        Some(l) => if now + l > u64::MAX {
            expiries
        } else {
            let at = (now + l) as u64;
            if expiries.len() > 0 && expiries.last().timestamp == at {
                expiries.update(
                    expiries.len() - 1,
                    CidTimeStamp { sequence: seq, timestamp: at },
                )
            } else {
                expiries.push(CidTimeStamp { sequence: seq, timestamp: at })
            }
        },
    }
}

/// Sequence numbers of a batch of issued identifiers.
pub open spec fn sequences_of(ids: Seq<IssuedCid>) -> Seq<u64> {
    ids.map_values(|c: IssuedCid| c.sequence)
}

/// Whether some active sequence number lies in `[lo, hi)`.
pub open spec fn active_in(active: Set<u64>, lo: u64, hi: u64) -> bool {
    exists|s: u64| lo <= s < hi && #[trigger] active.contains(s)
}

impl CidStateView {
    /// The invariant that every observable state satisfies.
    pub open spec fn inv(self) -> bool {
        &&& self.issued >= 1
        &&& forall|s: u64| #[trigger] self.active.contains(s) ==> s < self.issued
        &&& self.prev_retire_seq <= self.retire_seq <= self.issued
        &&& forall|i: int, j: int|
            0 <= i < j < self.expiries.len() ==> {
                &&& (#[trigger] self.expiries[i]).timestamp <= (#[trigger] self.expiries[j]).timestamp
                &&& self.expiries[i].sequence < self.expiries[j].sequence
            }
        &&& forall|i: int|
            0 <= i < self.expiries.len() ==> (#[trigger] self.expiries[i]).sequence < self.issued
        &&& self.cid_lifetime is None ==> self.expiries.len() == 0
    }

    /// Whether `now` is no earlier than the instants at which the pending
    /// batches were recorded, as a monotonic clock guarantees.
    pub open spec fn clock_allows(self, now: u64) -> bool {
        match self.cid_lifetime {
            None => true,
            Some(l) => now + l <= u64::MAX && self.expiries.len() > 0
                ==> self.expiries.last().timestamp <= now + l,
        }
    }

    /// The state after recording the batch whose highest sequence is `seq`.
    pub open spec fn after_track(self, seq: u64, now: u64) -> CidStateView {
        CidStateView {
            expiries: expiries_after_track(self.expiries, self.cid_lifetime, seq, now),
            ..self
        }
    }

    /// Whether the identifiers of a batch carry the next sequence numbers,
    /// in order.
    pub open spec fn batch_follows(self, seqs: Seq<u64>) -> bool {
        &&& self.issued + seqs.len() <= u64::MAX
        &&& forall|i: int| 0 <= i < seqs.len() ==> #[trigger] seqs[i] == self.issued + i
    }

    /// The state after a non-empty batch with sequence numbers `seqs` was
    /// handed to the peer at `now`.
    pub open spec fn after_issue(self, seqs: Seq<u64>, now: u64) -> CidStateView {
        CidStateView {
            issued: (self.issued + seqs.len()) as u64,
            active: self.active.union(
                Set::new(|s: u64| self.issued <= s < self.issued + seqs.len()),
            ),
            expiries: expiries_after_track(self.expiries, self.cid_lifetime, seqs.last(), now),
            ..self
        }
    }

    /// Whether the peer still holds identifiers below the threshold that
    /// was last requested.
    pub open spec fn unretired_ids_found(self) -> bool {
        active_in(self.active, self.prev_retire_seq, self.retire_seq)
    }

    /// The state after the expiry timer fired.
    pub open spec fn after_timeout(self) -> CidStateView {
        let honoured = !self.unretired_ids_found();
        let retire_seq = if honoured && self.expiries.len() > 0
            && self.expiries[0].sequence + 1 > self.retire_seq {
            (self.expiries[0].sequence + 1) as u64
        } else {
            self.retire_seq
        };
        CidStateView {
            prev_retire_seq: if honoured { self.retire_seq } else { self.prev_retire_seq },
            retire_seq,
            expiries: if self.expiries.len() > 0 { self.expiries.drop_first() } else { self.expiries },
            ..self
        }
    }

    /// The state after the peer retired `seq`.
    pub open spec fn after_retirement(self, seq: u64) -> CidStateView {
        CidStateView { active: self.active.remove(seq), ..self }
    }
}

/// Every active sequence number of a well-formed state was issued.
pub proof fn lemma_active_below_issued(v: CidStateView)
    requires
        v.inv(),
    ensures
        forall|s: u64| #[trigger] v.active.contains(s) ==> s < v.issued,
{
}

/// Each event keeps the invariant, so that along any run of events that
/// respects the issuance order no active sequence number reaches `issued`.
pub proof fn lemma_events_keep_invariant(v: CidStateView, seqs: Seq<u64>, now: u64, seq: u64)
    requires
        v.inv(),
        seqs.len() > 0,
        v.batch_follows(seqs),
        v.clock_allows(now),
    ensures
        v.after_issue(seqs, now).inv(),
        v.after_timeout().inv(),
        v.after_retirement(seq).inv(),
{
    let w = v.after_issue(seqs, now);
    assert(seqs[seqs.len() - 1] == v.issued + (seqs.len() - 1));
    assert forall|i: int, j: int| 0 <= i < j < w.expiries.len() implies {
        &&& (#[trigger] w.expiries[i]).timestamp <= (#[trigger] w.expiries[j]).timestamp
        &&& w.expiries[i].sequence < w.expiries[j].sequence
    } by {
        if j < v.expiries.len() - 1 || (j == v.expiries.len() - 1 && w.expiries.len() > v.expiries.len()) {
            assert(w.expiries[i] == v.expiries[i]);
            assert(w.expiries[j] == v.expiries[j]);
        } else {
            assert(w.expiries[i] == v.expiries[i]);
            if j < v.expiries.len() {
                assert(v.expiries[i].timestamp <= v.expiries[j].timestamp);
            }
        }
    }
    let t = v.after_timeout();
    assert forall|i: int, j: int| 0 <= i < j < t.expiries.len() implies {
        &&& (#[trigger] t.expiries[i]).timestamp <= (#[trigger] t.expiries[j]).timestamp
        &&& t.expiries[i].sequence < t.expiries[j].sequence
    } by {
        assert(t.expiries[i] == v.expiries[i + 1]);
        assert(t.expiries[j] == v.expiries[j + 1]);
    }
    assert forall|i: int| 0 <= i < t.expiries.len() implies (#[trigger] t.expiries[i]).sequence
        < t.issued by {
        assert(t.expiries[i] == v.expiries[i + 1]);
    }
    if v.expiries.len() > 0 {
        assert(v.expiries[0].sequence < v.issued);
    }
}

/// The requested threshold never decreases, and it never falls below the
/// threshold that the peer has honoured, whatever event comes.
pub proof fn lemma_threshold_monotone(v: CidStateView, seqs: Seq<u64>, now: u64, seq: u64)
    requires
        v.inv(),
    ensures
        seqs.len() > 0 ==> v.after_issue(seqs, now).retire_seq == v.retire_seq,
        v.retire_seq <= v.after_timeout().retire_seq,
        v.after_retirement(seq).retire_seq == v.retire_seq,
        seqs.len() > 0 ==> v.after_issue(seqs, now).prev_retire_seq <= v.after_issue(
            seqs,
            now,
        ).retire_seq,
        v.after_timeout().prev_retire_seq <= v.after_timeout().retire_seq,
        v.after_retirement(seq).prev_retire_seq <= v.after_retirement(seq).retire_seq,
{
}

/// The identifiers of one batch, issued together at one instant while a
/// lifetime is set, share a single expiry entry recorded under the batch's
/// highest sequence number: the queue grows by at most that one entry, and
/// an empty queue ends up holding exactly it.
pub proof fn lemma_batch_shares_one_entry(v: CidStateView, seqs: Seq<u64>, now: u64)
    requires
        v.inv(),
        seqs.len() > 0,
        v.batch_follows(seqs),
        v.cid_lifetime is Some,
        now + v.cid_lifetime->0 <= u64::MAX,
    ensures
        ({
            let e = v.after_issue(seqs, now).expiries;
            let entry = CidTimeStamp {
                sequence: seqs.last(),
                timestamp: (now + v.cid_lifetime->0) as u64,
            };
            &&& e.last() == entry
            &&& v.expiries.len() <= e.len() <= v.expiries.len() + 1
            &&& v.expiries.len() > 0 ==> e.subrange(0, v.expiries.len() - 1) == v.expiries.subrange(
                0,
                v.expiries.len() - 1,
            )
            &&& v.expiries.len() == 0 ==> e == seq![entry]
            &&& forall|i: int| 0 <= i < seqs.len() ==> #[trigger] seqs[i] <= entry.sequence
        }),
{
    let e = v.after_issue(seqs, now).expiries;
    let entry = CidTimeStamp { sequence: seqs.last(), timestamp: (now + v.cid_lifetime->0) as u64 };
    assert(seqs[seqs.len() - 1] == v.issued + (seqs.len() - 1));
    assert forall|i: int| 0 <= i < seqs.len() implies #[trigger] seqs[i] <= entry.sequence by {
        assert(seqs[i] == v.issued + i);
    }
    if v.expiries.len() == 0 {
        assert(e =~= seq![entry]);
    } else {
        assert(e.subrange(0, v.expiries.len() - 1) =~= v.expiries.subrange(0, v.expiries.len() - 1));
    }
}

/// While the peer still holds an identifier below the threshold last
/// requested, the expiry timer does not raise the threshold: only the
/// earliest pending batch is dropped from the queue.
pub proof fn lemma_timeout_waits_for_peer(v: CidStateView)
    requires
        v.inv(),
        v.unretired_ids_found(),
    ensures
        v.after_timeout().retire_seq == v.retire_seq,
        v.after_timeout().prev_retire_seq == v.prev_retire_seq,
        v.after_timeout().active == v.active,
{
}

/// Local connection identifiers: which were issued, which the peer still
/// holds, and when to ask the peer to retire them.
pub struct CidState {
    retire_timestamp: VecDeque<CidTimeStamp>,
    issued: u64,
    active_seq: HashSet<u64>,
    prev_retire_seq: u64,
    retire_seq: u64,
    cid_len: usize,
    cid_lifetime: Option<u64>,
}

impl View for CidState {
    type V = CidStateView;

    closed spec fn view(&self) -> CidStateView {
        CidStateView {
            issued: self.issued,
            active: self.active_seq@,
            prev_retire_seq: self.prev_retire_seq,
            retire_seq: self.retire_seq,
            expiries: self.retire_timestamp@,
            cid_len: self.cid_len,
            cid_lifetime: self.cid_lifetime,
        }
    }
}

impl CidState {
    /// Well-formedness: the view satisfies the invariant.
    pub open spec fn wf(&self) -> bool {
        self@.inv()
    }

    /// A tracker for identifiers of length `cid_len` living `cid_lifetime`
    /// time units each, if set. The identifier used during the handshake
    /// is already issued, with sequence 0.
    pub fn new(cid_len: usize, cid_lifetime: Option<u64>) -> (r: CidState)
        ensures
            r.wf(),
            r@.issued == 1,
            r@.active == set![0u64],
            r@.prev_retire_seq == 0,
            r@.retire_seq == 0,
            r@.expiries == Seq::<CidTimeStamp>::empty(),
            r@.cid_len == cid_len,
            r@.cid_lifetime == cid_lifetime,
    {
        let mut active_seq: HashSet<u64> = HashSet::new();
        active_seq.insert(0);
        let r = CidState {
            retire_timestamp: VecDeque::new(),
            issued: 1,
            active_seq,
            prev_retire_seq: 0,
            retire_seq: 0,
            cid_len,
            cid_lifetime,
        };
        assert(r@.active =~= set![0u64]);
        r
    }

    /// The earliest instant at which a pending batch is to be retired.
    pub fn next_timeout(&mut self) -> (r: Option<u64>)
        requires
            old(self).wf(),
        ensures
            final(self)@ == old(self)@,
            r == if old(self)@.expiries.len() > 0 {
                Some(old(self)@.expiries[0].timestamp)
            } else {
                None::<u64>
            },
            r matches Some(t) ==> forall|i: int|
                0 <= i < old(self)@.expiries.len() ==> t <= #[trigger] old(self)@.expiries[i].timestamp,
    {
        if self.retire_timestamp.len() > 0 {
            Some(self.retire_timestamp[0].timestamp)
        } else {
            None
        }
    }

    /// Records when the batch whose highest sequence is `new_cid_seq`,
    /// issued at `now`, expires.
    pub fn track_lifetime(&mut self, new_cid_seq: u64, now: u64)
        requires
            old(self).wf(),
            old(self)@.clock_allows(now),
            new_cid_seq < old(self)@.issued,
            old(self)@.expiries.len() > 0 ==> old(self)@.expiries.last().sequence < new_cid_seq,
        ensures
            final(self).wf(),
            final(self)@ == old(self)@.after_track(new_cid_seq, now),
    {
        let lifetime = match self.cid_lifetime {
            Some(lifetime) => lifetime,
            None => return,
        };
        if let Some(expire_at) = now.checked_add(lifetime) {
            let n = self.retire_timestamp.len();
            if n > 0 && self.retire_timestamp[n - 1].timestamp == expire_at {
                self.retire_timestamp.pop_back();
                self.retire_timestamp.push_back(
                    CidTimeStamp { sequence: new_cid_seq, timestamp: expire_at },
                );
                assert(self@.expiries =~= old(self)@.after_track(new_cid_seq, now).expiries);
                return;
            }
            self.retire_timestamp.push_back(
                CidTimeStamp { sequence: new_cid_seq, timestamp: expire_at },
            );
        }
    }
    /// Registers a batch of identifiers just handed to the peer at `now`:
    /// they become issued and active, and their batch gets an expiry entry
    /// recorded under the highest sequence number. An empty batch changes
    /// nothing.
    pub fn new_cids(&mut self, ids: &[IssuedCid], now: u64)
        requires
            old(self).wf(),
            ids@.len() > 0 ==> old(self)@.batch_follows(sequences_of(ids@)),
            ids@.len() > 0 ==> old(self)@.clock_allows(now),
        ensures
            final(self).wf(),
            ids@.len() == 0 ==> final(self)@ == old(self)@,
            ids@.len() > 0 ==> final(self)@ == old(self)@.after_issue(sequences_of(ids@), now),
            final(self)@.retire_seq == old(self)@.retire_seq,
            final(self)@.prev_retire_seq <= final(self)@.retire_seq,
    {
        if ids.len() == 0 {
            return;
        }
        let ghost seqs = sequences_of(ids@);
        let ghost start = self.issued;
        self.issued = self.issued + ids.len() as u64;
        let last = ids.len() - 1;
        let sequence = ids[last].sequence;
        let mut i: usize = 0;
        while i < ids.len()
            invariant
                0 <= i <= ids@.len(),
                seqs == sequences_of(ids@),
                forall|k: int| 0 <= k < seqs.len() ==> #[trigger] seqs[k] == start + k,
                start + ids@.len() <= u64::MAX,
                self.issued == start + ids@.len(),
                self.active_seq@ == old(self)@.active.union(
                    Set::new(|s: u64| start <= s < start + i),
                ),
                self.retire_timestamp@ == old(self)@.expiries,
                self.prev_retire_seq == old(self)@.prev_retire_seq,
                self.retire_seq == old(self)@.retire_seq,
                self.cid_len == old(self)@.cid_len,
                self.cid_lifetime == old(self)@.cid_lifetime,
                start == old(self)@.issued,
            decreases ids@.len() - i,
        {
            assert(seqs[i as int] == ids@[i as int].sequence);
            self.active_seq.insert(ids[i].sequence);
            i += 1;
            assert(self.active_seq@ =~= old(self)@.active.union(
                Set::new(|s: u64| start <= s < start + i),
            ));
        }
        self.track_lifetime(sequence, now);
    }

    /// Whether an active sequence number lies in `[lo, hi)`.
    fn any_active_in(&self, lo: u64, hi: u64) -> (r: bool)
        ensures
            r == active_in(self@.active, lo, hi),
    {
        let mut s: u64 = lo;
        while s < hi
            invariant
                lo <= s,
                s <= hi || s == lo,
                forall|t: u64| lo <= t < s ==> !self@.active.contains(t),
            decreases hi - s,
        {
            if self.active_seq.contains(&s) {
                return true;
            }
            s = s + 1;
        }
        false
    }

    /// Handles the expiry timer: asks the peer to retire the earliest
    /// pending batch, unless it has not yet honoured the previous request.
    /// Returns whether an identifier that the peer still holds now falls
    /// under the raised threshold, so that a fresh identifier with the new
    /// threshold must be sent.
    pub fn on_cid_timeout(&mut self) -> (r: bool)
        requires
            old(self).wf(),
        ensures
            final(self).wf(),
            final(self)@ == old(self)@.after_timeout(),
            r == active_in(old(self)@.active, old(self)@.retire_seq, final(self)@.retire_seq),
            old(self)@.unretired_ids_found() ==> final(self)@.retire_seq == old(self)@.retire_seq,
            old(self)@.retire_seq <= final(self)@.retire_seq,
            final(self)@.prev_retire_seq <= final(self)@.retire_seq,
    {
        let unretired_ids_found = self.any_active_in(self.prev_retire_seq, self.retire_seq);
        if !unretired_ids_found {
            self.prev_retire_seq = self.retire_seq;
        }
        let next_retire_sequence = match self.retire_timestamp.pop_front() {
            Some(entry) => Some(entry.sequence + 1),
            None => None,
        };
        let current_retire_prior_to = self.retire_seq;
        if let Some(next_retire_prior_to) = next_retire_sequence {
            if !unretired_ids_found && next_retire_prior_to > current_retire_prior_to {
                self.retire_seq = next_retire_prior_to;
            }
        }
        assert(self@.expiries =~= old(self)@.after_timeout().expiries);
        self.any_active_in(current_retire_prior_to, self.retire_seq)
    }

    /// Handles the peer's notice that it retired `sequence`, while it allows
    /// at most `limit` active identifiers. Fails with a protocol violation,
    /// changing nothing, when identifiers are not in use or when `sequence`
    /// was never issued; otherwise forgets `sequence` (an absent one is
    /// fine) and returns whether the peer's limit leaves room for another
    /// identifier.
    pub fn on_cid_retirement(&mut self, sequence: u64, limit: u64) -> (r: Result<bool, TransportError>)
        requires
            old(self).wf(),
        ensures
            final(self).wf(),
            old(self)@.cid_len == 0 ==> final(self)@ == old(self)@,
            old(self)@.cid_len == 0 ==> is_protocol_violation(
                r,
                "RETIRE_CONNECTION_ID when CIDs aren't in use"@,
            ),
            old(self)@.cid_len != 0 && sequence > old(self)@.issued ==> final(self)@ == old(self)@,
            old(self)@.cid_len != 0 && sequence > old(self)@.issued ==> is_protocol_violation(
                r,
                "RETIRE_CONNECTION_ID for unissued sequence number"@,
            ),
            old(self)@.cid_len != 0 && sequence <= old(self)@.issued ==> final(self)@ == old(
                self,
            )@.after_retirement(sequence) && r == Ok::<bool, TransportError>(
                limit > final(self)@.active.len(),
            ),
            final(self)@.retire_seq == old(self)@.retire_seq,
            final(self)@.prev_retire_seq <= final(self)@.retire_seq,
    {
        if self.cid_len == 0 {
            proof {
                reveal_strlit("RETIRE_CONNECTION_ID when CIDs aren't in use");
            }
            return Err(
                TransportError::PROTOCOL_VIOLATION("RETIRE_CONNECTION_ID when CIDs aren't in use"),
            );
        }
        if sequence > self.issued {
            proof {
                reveal_strlit("RETIRE_CONNECTION_ID for unissued sequence number");
            }
            return Err(
                TransportError::PROTOCOL_VIOLATION(
                    "RETIRE_CONNECTION_ID for unissued sequence number",
                ),
            );
        }
        self.active_seq.remove(&sequence);
        let allow_more_cids = limit > self.active_seq.len() as u64;
        Ok(allow_more_cids)
    }
    /// Length of the local identifiers.
    pub fn cid_len(&self) -> (r: usize)
        ensures
            r == self@.cid_len,
    {
        self.cid_len
    }

    /// Number of identifiers issued so far; the next batch starts at this
    /// sequence number.
    pub fn issued(&self) -> (r: u64)
        ensures
            r == self@.issued,
    {
        self.issued
    }

    /// The threshold below which the peer is asked to retire identifiers,
    /// to be sent with the next new identifier.
    pub fn retire_prior_to(&self) -> (r: u64)
        ensures
            r == self@.retire_seq,
    {
        self.retire_seq
    }

    /// The smallest and the largest active sequence numbers.
    pub fn active_seq(&self) -> (r: (u64, u64))
        requires
            self.wf(),
            exists|s: u64| self@.active.contains(s),
        ensures
            self@.active.contains(r.0),
            self@.active.contains(r.1),
            forall|s: u64| #[trigger] self@.active.contains(s) ==> r.0 <= s <= r.1,
    {
        let ghost w: u64 = choose|s: u64| self@.active.contains(s);
        proof {
            if !self@.active.contains(w) {
                assert(self@.active =~= Set::<u64>::empty());
            }
        }
        let mut lo: u64 = 0;
        while !self.active_seq.contains(&lo)
            invariant
                self.wf(),
                self@.active.contains(w),
                lo <= w,
                forall|s: u64| s < lo ==> !self@.active.contains(s),
            decreases w - lo,
        {
            lo = lo + 1;
        }
        let mut hi: u64 = self.issued - 1;
        while !self.active_seq.contains(&hi)
            invariant
                self.wf(),
                self@.active.contains(w),
                w <= hi,
                forall|s: u64| hi < s ==> !self@.active.contains(s),
            decreases hi - w,
        {
            hi = hi - 1;
        }
        (lo, hi)
    }

    /// Sets the requested threshold to `v`, which is at most one past the
    /// largest active sequence number and not below the current threshold,
    /// and returns by how much it rose.
    pub fn assign_retire_seq(&mut self, v: u64) -> (r: u64)
        requires
            old(self).wf(),
            old(self)@.retire_seq <= v,
            exists|s: u64| #[trigger] old(self)@.active.contains(s) && v <= s + 1,
        ensures
            final(self).wf(),
            final(self)@ == (CidStateView { retire_seq: v, ..old(self)@ }),
            r == v - old(self)@.retire_seq,
            old(self)@.retire_seq <= final(self)@.retire_seq,
            final(self)@.prev_retire_seq <= final(self)@.retire_seq,
    {
        let n = v - self.retire_seq;
        self.retire_seq = v;
        n
    }
}

} // verus!
