use vstd::prelude::*;

use crate::journal::{
    already_committed, commit_fits, commit_step, confirm_step, request_step, response_step,
    PeerStatus, RoundState,
};
use crate::messages::{Claim, PublicKey};

verus! {

/// One operation on a client's journal record, as the gateway issues them.
#[derive(Clone, Copy, Debug, PartialEq, Eq, Structural)]
pub enum JournalOp {
    Request { seq: u32 },
    Respond { seq: u32 },
    Confirm { seq: u32 },
    Commit { start_seq: u32, rounds: u32 },
}

/// The status that `op` produces from `cur`, or `None` where it is refused.
pub open spec fn op_step(cur: Option<PeerStatus>, op: JournalOp) -> Option<PeerStatus> {
    match op {
        JournalOp::Request { seq } => request_step(cur, seq),
        JournalOp::Respond { seq } => response_step(cur, seq),
        JournalOp::Confirm { seq } => confirm_step(cur, seq),
        JournalOp::Commit { start_seq, rounds } => commit_step(cur, start_seq, rounds),
    }
}

/// The status after `op`: a refused operation changes nothing.
pub open spec fn apply_op(cur: Option<PeerStatus>, op: JournalOp) -> Option<PeerStatus> {
    match op_step(cur, op) {
        Some(n) => Some(n),
        None => cur,
    }
}

/// The history records after `op`: a recorded response writes the round's
/// record, a claim that moves the watermark removes the records it settles.
pub open spec fn history_op(cur: Option<PeerStatus>, hist: Set<u32>, op: JournalOp) -> Set<u32> {
    match op {
        JournalOp::Respond { seq } => if response_step(cur, seq) is Some {
            hist.insert(seq)
        } else {
            hist
        },
        JournalOp::Commit { start_seq, rounds } => match cur {
            Some(s) => if !already_committed(s, start_seq, rounds) && commit_fits(
                s,
                start_seq,
                rounds,
            ) {
                hist.difference(Set::new(|n: u32| start_seq <= n < start_seq + rounds))
            } else {
                hist
            },
            None => hist,
        },
        _ => hist,
    }
}

/// The status of a client after `ops`, starting from no record.
pub open spec fn status_after(ops: Seq<JournalOp>) -> Option<PeerStatus>
    decreases ops.len(),
{
    if ops.len() == 0 {
        None
    } else {
        apply_op(status_after(ops.drop_last()), ops.last())
    }
}

/// The sequence numbers of a client's history records after `ops`.
pub open spec fn history_after(ops: Seq<JournalOp>) -> Set<u32>
    decreases ops.len(),
{
    if ops.len() == 0 {
        Set::empty()
    } else {
        history_op(status_after(ops.drop_last()), history_after(ops.drop_last()), ops.last())
    }
}

/// The sequence numbers of the requests that were accepted, in order.
pub open spec fn accepted_requests(ops: Seq<JournalOp>) -> Seq<u32>
    decreases ops.len(),
{
    if ops.len() == 0 {
        Seq::empty()
    } else {
        let prev = accepted_requests(ops.drop_last());
        match ops.last() {
            JournalOp::Request { seq } => if request_step(status_after(ops.drop_last()), seq) is Some {
                prev.push(seq)
            } else {
                prev
            },
            _ => prev,
        }
    }
}

/// Whether round `n` should have a history record under status `cur`: it is
/// after the settled watermark, not after the current round, and past its
/// request.
pub open spec fn history_expected(cur: Option<PeerStatus>, n: u32) -> bool {
    match cur {
        None => false,
        Some(s) => s.commit_seq < n <= s.seq && !(n == s.seq && s.state == RoundState::Requested),
    }
}

/// No claim in `ops` settles a round that is still waiting for its response.
pub open spec fn settles_only_answered(ops: Seq<JournalOp>) -> bool {
    forall|i: int|
        0 <= i < ops.len() ==> match #[trigger] ops[i] {
            JournalOp::Commit { start_seq, rounds } => match status_after(ops.take(i)) {
                Some(s) => s.state == RoundState::Requested ==> start_seq + rounds <= s.seq,
                None => true,
            },
            _ => true,
        }
}

/// The accepted requests of a client are numbered 1, 2, 3, ... without gaps,
/// and its status counts them.
pub proof fn lemma_requests_consecutive(ops: Seq<JournalOp>)
    ensures
        forall|i: int|
            0 <= i < accepted_requests(ops).len() ==> accepted_requests(ops)[i] == i + 1,
        status_after(ops) matches Some(s) ==> s.seq == accepted_requests(ops).len(),
        status_after(ops) is None ==> accepted_requests(ops).len() == 0,
    decreases ops.len(),
{
    if ops.len() > 0 {
        lemma_requests_consecutive(ops.drop_last());
    }
}

/// A client's settled watermark never passes its latest request.
pub proof fn lemma_commit_within_seq(ops: Seq<JournalOp>)
    ensures
        status_after(ops) matches Some(s) ==> s.wf(),
    decreases ops.len(),
{
    if ops.len() > 0 {
        lemma_commit_within_seq(ops.drop_last());
    }
}

/// A round has a history record exactly when it is after the settled
/// watermark, not after the current round, and past its request; given that
/// no claim settles a round that still waits for its response.
pub proof fn lemma_history_matches_status(ops: Seq<JournalOp>)
    requires
        settles_only_answered(ops),
    ensures
        forall|n: u32| #[trigger]
            history_after(ops).contains(n) <==> history_expected(status_after(ops), n),
        status_after(ops) matches Some(s) ==> (s.state == RoundState::Requested ==> s.commit_seq
            < s.seq),
    decreases ops.len(),
{
    if ops.len() > 0 {
        let prev = ops.drop_last();
        assert forall|i: int| 0 <= i < prev.len() implies match #[trigger] prev[i] {
            JournalOp::Commit { start_seq, rounds } => match status_after(prev.take(i)) {
                Some(s) => s.state == RoundState::Requested ==> start_seq + rounds <= s.seq,
                None => true,
            },
            _ => true,
        } by {
            assert(prev[i] == ops[i]);
            assert(prev.take(i) =~= ops.take(i));
        }
        lemma_history_matches_status(prev);
        lemma_commit_within_seq(prev);
        let last = ops.len() - 1;
        assert(ops.take(last) =~= prev);
        assert(ops[last] == ops.last());
        let cur = status_after(prev);
        let hist = history_after(prev);
        if let JournalOp::Commit { .. } = ops.last() {
            assert(match ops[last] {
                JournalOp::Commit { start_seq, rounds } => match status_after(ops.take(last)) {
                    Some(s) => s.state == RoundState::Requested ==> start_seq + rounds <= s.seq,
                    None => true,
                },
                _ => true,
            });
        }
        assert forall|n: u32| #[trigger]
            history_after(ops).contains(n) <==> history_expected(status_after(ops), n) by {
            assert(hist.contains(n) <==> history_expected(cur, n));
        }
    }
}

/// A claim is already settled in `statuses`.
pub open spec fn claim_covered(statuses: Map<PublicKey, PeerStatus>, c: Claim) -> bool {
    statuses.contains_key(c.pk) && already_committed(statuses[c.pk], c.start_seq, c.rounds)
}

/// The statuses and history records (key and sequence number) after settling
/// one claim, or `None` where it is refused.
pub open spec fn claim_apply(
    statuses: Map<PublicKey, PeerStatus>,
    history: Set<(PublicKey, u32)>,
    c: Claim,
) -> Option<(Map<PublicKey, PeerStatus>, Set<(PublicKey, u32)>)> {
    if !statuses.contains_key(c.pk) {
        None
    } else {
        match commit_step(Some(statuses[c.pk]), c.start_seq, c.rounds) {
            None => None,
            Some(n) => if already_committed(statuses[c.pk], c.start_seq, c.rounds) {
                Some((statuses, history))
            } else {
                Some(
                    (
                        statuses.insert(c.pk, n),
                        history.difference(
                            Set::new(
                                |e: (PublicKey, u32)|
                                    e.0 == c.pk && c.start_seq <= e.1 < c.start_seq + c.rounds,
                            ),
                        ),
                    ),
                )
            },
        }
    }
}

/// Settles the claims in order and stops at the first refused one: the
/// statuses, the history records, and whether every claim was accepted.
pub open spec fn commit_all(
    statuses: Map<PublicKey, PeerStatus>,
    history: Set<(PublicKey, u32)>,
    claims: Seq<Claim>,
) -> (Map<PublicKey, PeerStatus>, Set<(PublicKey, u32)>, bool)
    decreases claims.len(),
{
    if claims.len() == 0 {
        (statuses, history, true)
    } else {
        match claim_apply(statuses, history, claims[0]) {
            None => (statuses, history, false),
            Some(next) => commit_all(next.0, next.1, claims.subrange(1, claims.len() as int)),
        }
    }
}

proof fn lemma_commit_all_keeps_covered(
    statuses: Map<PublicKey, PeerStatus>,
    history: Set<(PublicKey, u32)>,
    claims: Seq<Claim>,
    d: Claim,
)
    requires
        claim_covered(statuses, d),
    ensures
        claim_covered(commit_all(statuses, history, claims).0, d),
    decreases claims.len(),
{
    if claims.len() > 0 {
        if let Some(next) = claim_apply(statuses, history, claims[0]) {
            assert(claim_covered(next.0, d));
            lemma_commit_all_keeps_covered(
                next.0,
                next.1,
                claims.subrange(1, claims.len() as int),
                d,
            );
        }
    }
}

/// Settling the same claims a second time changes nothing and reports the
/// same outcome: commit is idempotent.
pub proof fn lemma_commit_idempotent(
    statuses: Map<PublicKey, PeerStatus>,
    history: Set<(PublicKey, u32)>,
    claims: Seq<Claim>,
)
    ensures
        ({
            let once = commit_all(statuses, history, claims);
            commit_all(once.0, once.1, claims) == once
        }),
    decreases claims.len(),
{
    if claims.len() > 0 {
        let c = claims[0];
        let tail = claims.subrange(1, claims.len() as int);
        if let Some(next) = claim_apply(statuses, history, c) {
            let once = commit_all(next.0, next.1, tail);
            assert(claim_covered(next.0, c));
            lemma_commit_all_keeps_covered(next.0, next.1, tail, c);
            assert(claim_apply(once.0, once.1, c) == Some((once.0, once.1)));
            lemma_commit_idempotent(next.0, next.1, tail);
        }
    }
}

} // verus!
