use vstd::prelude::*;

use crate::messages::{Claim, PublicKey};

verus! {

/// Where a client stands in its current round.
#[derive(Clone, Copy, Debug, PartialEq, Eq, Structural)]
pub enum RoundState {
    Requested,
    WaitingConfirm,
    Completed,
}

/// A client's record in the status table: the sequence number of its latest
/// accepted request, the last sequence number settled on chain, and the state
/// of the latest round.
#[derive(Clone, Copy, Debug, PartialEq, Eq, Structural)]
pub struct PeerStatus {
    pub seq: u32,
    pub commit_seq: u32,
    pub state: RoundState,
}

impl PeerStatus {
    /// Nothing is settled beyond the latest accepted request.
    pub open spec fn wf(self) -> bool {
        self.commit_seq <= self.seq
    }
}

/// Why the journal refuses an operation.
#[derive(Clone, Copy, Debug, PartialEq, Eq, Structural)]
pub enum JournalError {
    /// The client has no status record.
    UnknownClient,
    /// The client's round is not in the state the operation needs.
    WrongState,
    /// The sequence number is not the one the client is at, or the next one.
    SequenceMismatch,
    /// The claim does not start right after the settled rounds, or covers
    /// rounds that were never requested.
    CommitMismatch,
}

/// The status after accepting a request for `seq`, or `None` where the
/// request is refused: a new client starts at 1, a known one must have
/// completed its round and ask for the next number.
pub open spec fn request_step(cur: Option<PeerStatus>, seq: u32) -> Option<PeerStatus> {
    match cur {
        None => if seq == 1 {
            Some(PeerStatus { seq: 1, commit_seq: 0, state: RoundState::Requested })
        } else {
            None
        },
        Some(s) => if s.state == RoundState::Completed && seq == s.seq + 1 {
            Some(PeerStatus { seq, commit_seq: s.commit_seq, state: RoundState::Requested })
        } else {
            None
        },
    }
}

/// The error of a refused request.
pub open spec fn request_error(cur: Option<PeerStatus>, seq: u32) -> JournalError {
    match cur {
        Some(s) if s.state != RoundState::Completed => JournalError::WrongState,
        _ => JournalError::SequenceMismatch,
    }
}

/// The status after a response to round `seq` is recorded, or `None` where
/// it is refused: the round must be the client's current one, requested.
pub open spec fn response_step(cur: Option<PeerStatus>, seq: u32) -> Option<PeerStatus> {
    match cur {
        Some(s) if s.state == RoundState::Requested && s.seq == seq => Some(
            PeerStatus { state: RoundState::WaitingConfirm, ..s },
        ),
        _ => None,
    }
}

/// The status after a confirmation of round `seq`, or `None` where it is
/// refused: the round must be the client's current one, waiting.
pub open spec fn confirm_step(cur: Option<PeerStatus>, seq: u32) -> Option<PeerStatus> {
    match cur {
        Some(s) if s.state == RoundState::WaitingConfirm && s.seq == seq => Some(
            PeerStatus { state: RoundState::Completed, ..s },
        ),
        _ => None,
    }
}

/// The error of a refused response or confirmation, whose operation needs
/// state `needed`.
pub open spec fn round_error(cur: Option<PeerStatus>, needed: RoundState) -> JournalError {
    match cur {
        None => JournalError::UnknownClient,
        Some(s) => if s.state != needed {
            JournalError::WrongState
        } else {
            JournalError::SequenceMismatch
        },
    }
}

/// The rounds `[start, start + rounds)` are all settled already.
pub open spec fn already_committed(s: PeerStatus, start: u32, rounds: u32) -> bool {
    start + rounds <= s.commit_seq + 1
}

/// The rounds `[start, start + rounds)` are the next ones to settle, and were
/// all requested.
pub open spec fn commit_fits(s: PeerStatus, start: u32, rounds: u32) -> bool {
    &&& s.commit_seq + 1 == start
    &&& s.seq >= s.commit_seq + rounds
}

/// The status after settling `[start, start + rounds)`, or `None` where the
/// claim is refused. A claim that is settled already leaves the status as it
/// is, so that settling twice is settling once.
pub open spec fn commit_step(cur: Option<PeerStatus>, start: u32, rounds: u32) -> Option<PeerStatus> {
    match cur {
        None => None,
        Some(s) => if already_committed(s, start, rounds) {
            Some(s)
        } else if commit_fits(s, start, rounds) {
            Some(PeerStatus { commit_seq: (s.commit_seq + rounds) as u32, ..s })
        } else {
            None
        },
    }
}

/// The error of a refused claim.
pub open spec fn commit_error(cur: Option<PeerStatus>) -> JournalError {
    match cur {
        None => JournalError::UnknownClient,
        Some(_) => JournalError::CommitMismatch,
    }
}

/// The sequence numbers `[start, start + count)`; none where `count` is not
/// positive.
pub open spec fn seq_range(start: int, count: int) -> Seq<u32> {
    if count <= 0 {
        Seq::empty()
    } else {
        Seq::new(count as nat, |i: int| (start + i) as u32)
    }
}

/// What settling a claim does to a client's record.
#[derive(Clone, Debug)]
pub enum CommitOutcome {
    /// The settled watermark moved: the new status, and the sequence numbers
    /// whose history records are now settled.
    Advanced { status: PeerStatus, settled: Vec<u32> },
    /// The claim was settled before; nothing changes.
    AlreadyCommitted,
}

/// Accepts or refuses a request for round `seq` of a client whose current
/// status is `cur` (`None` for a client that has none).
pub fn on_request(cur: Option<PeerStatus>, seq: u32) -> (r: Result<PeerStatus, JournalError>)
    ensures
        r == match request_step(cur, seq) {
            Some(n) => Ok::<PeerStatus, JournalError>(n),
            None => Err(request_error(cur, seq)),
        },
{
    match cur {
        None => if seq == 1 {
            Ok(PeerStatus { seq: 1, commit_seq: 0, state: RoundState::Requested })
        } else {
            Err(JournalError::SequenceMismatch)
        },
        Some(s) => {
            if s.state != RoundState::Completed {
                Err(JournalError::WrongState)
            } else if s.seq as u64 + 1 != seq as u64 {
                Err(JournalError::SequenceMismatch)
            } else {
                Ok(PeerStatus { seq, commit_seq: s.commit_seq, state: RoundState::Requested })
            }
        },
    }
}

/// Records that the backend answered round `seq`.
pub fn on_response(cur: Option<PeerStatus>, seq: u32) -> (r: Result<PeerStatus, JournalError>)
    ensures
        r == match response_step(cur, seq) {
            Some(n) => Ok::<PeerStatus, JournalError>(n),
            None => Err(round_error(cur, RoundState::Requested)),
        },
{
    match cur {
        None => Err(JournalError::UnknownClient),
        Some(s) => {
            if s.state != RoundState::Requested {
                Err(JournalError::WrongState)
            } else if s.seq != seq {
                Err(JournalError::SequenceMismatch)
            } else {
                Ok(PeerStatus { state: RoundState::WaitingConfirm, ..s })
            }
        },
    }
}

/// Records the client's confirmation of round `seq`.
pub fn on_confirm(cur: Option<PeerStatus>, seq: u32) -> (r: Result<PeerStatus, JournalError>)
    ensures
        r == match confirm_step(cur, seq) {
            Some(n) => Ok::<PeerStatus, JournalError>(n),
            None => Err(round_error(cur, RoundState::WaitingConfirm)),
        },
{
    match cur {
        None => Err(JournalError::UnknownClient),
        Some(s) => {
            if s.state != RoundState::WaitingConfirm {
                Err(JournalError::WrongState)
            } else if s.seq != seq {
                Err(JournalError::SequenceMismatch)
            } else {
                Ok(PeerStatus { state: RoundState::Completed, ..s })
            }
        },
    }
}

/// Settles a claim that the chain accepted against the client's status.
/// A claim settled before is reported as such and changes nothing.
pub fn on_commit(cur: Option<PeerStatus>, claim: &Claim) -> (r: Result<CommitOutcome, JournalError>)
    ensures
        commit_step(cur, claim.start_seq, claim.rounds) is None <==> r is Err,
        r matches Err(e) ==> e == commit_error(cur),
        r matches Ok(CommitOutcome::AlreadyCommitted) <==> (cur matches Some(s) && already_committed(
            s,
            claim.start_seq,
            claim.rounds,
        )),
        r matches Ok(CommitOutcome::Advanced { status, settled }) ==> {
            &&& commit_step(cur, claim.start_seq, claim.rounds) == Some(status)
            &&& settled@ == seq_range(claim.start_seq as int, claim.rounds as int)
        },
{
    let s = match cur {
        None => return Err(JournalError::UnknownClient),
        Some(s) => s,
    };
    let start = claim.start_seq;
    let rounds = claim.rounds;
    if start as u64 + rounds as u64 <= s.commit_seq as u64 + 1 {
        return Ok(CommitOutcome::AlreadyCommitted);
    }
    if !(s.commit_seq as u64 + 1 == start as u64 && s.seq as u64 >= s.commit_seq as u64 + rounds as u64) {
        return Err(JournalError::CommitMismatch);
    }
    let mut settled: Vec<u32> = Vec::new();
    let mut i: u32 = 0;
    while i < rounds
        invariant
            i <= rounds,
            start as int + rounds as int <= s.seq as int + 1,
            settled@ == seq_range(start as int, i as int),
        decreases rounds - i,
    {
        settled.push(start + i);
        i = i + 1;
        assert(settled@ =~= seq_range(start as int, i as int));
    }
    Ok(
        CommitOutcome::Advanced {
            status: PeerStatus { commit_seq: s.commit_seq + rounds, ..s },
            settled,
        },
    )
}

/// The sequence numbers whose rounds are confirmed and not yet settled:
/// those after `commit_seq` and before the current round `seq`, which may
/// still be in flight.
pub fn settleable_seqs(s: PeerStatus) -> (r: Vec<u32>)
    ensures
        r@ == seq_range(s.commit_seq + 1, s.seq - s.commit_seq - 1),
{
    let mut r: Vec<u32> = Vec::new();
    let mut n: u32 = s.commit_seq;
    if s.seq <= s.commit_seq {
        assert(r@ =~= seq_range(s.commit_seq + 1, s.seq - s.commit_seq - 1));
        return r;
    }
    while n + 1 < s.seq
        invariant
            s.commit_seq <= n < s.seq,
            r@ == seq_range(s.commit_seq + 1, n - s.commit_seq),
        decreases s.seq - n,
    {
        n = n + 1;
        r.push(n);
        assert(r@ =~= seq_range(s.commit_seq + 1, n - s.commit_seq));
    }
    r
}

} // verus!
