use vstd::prelude::*;

use crate::codec::{confirm_msg_bytes, encode_journal, journal_bytes, lemma_journal_len, request_msg_bytes};
use crate::messages::{Claim, Input, PublicKey, Round, CLAIM_SIZE};
use crate::signatures::{ed25519_accepts, verify_confirm, verify_request};

verus! {

/// Why a batch of rounds cannot be turned into claims.
#[derive(Clone, Copy, Debug, PartialEq, Eq, Structural)]
pub enum CircuitError {
    /// A client is listed with no rounds.
    NoRounds,
    /// A client has more rounds than a claim can count.
    TooManyRounds,
    /// The round at this index is out of sequence or badly signed.
    RoundRejected { index: usize },
    /// The token total does not fit in 64 bits.
    TokenOverflow,
}

/// Round `r` is the round of sequence number `seq` of client `pk`: both
/// messages carry `seq` and both signatures verify under `pk`.
pub open spec fn round_valid(pk: PublicKey, r: Round, seq: int) -> bool {
    &&& r.request.msg.seq == seq
    &&& r.confirm.msg.seq == seq
    &&& ed25519_accepts(pk@, request_msg_bytes(r.request.msg), r.request.signature@)
    &&& ed25519_accepts(pk@, confirm_msg_bytes(r.confirm.msg), r.confirm.signature@)
}

/// The sequence number that the first round announces.
pub open spec fn first_seq(rounds: Seq<Round>) -> int {
    rounds[0].request.msg.seq as int
}

/// The rounds are consecutive from the first one's sequence number, and each
/// is validly signed.
pub open spec fn rounds_valid(pk: PublicKey, rounds: Seq<Round>) -> bool {
    forall|i: int| 0 <= i < rounds.len() ==> #[trigger] round_valid(pk, rounds[i], first_seq(rounds) + i)
}

/// The tokens that one round's confirmation agrees to pay.
pub open spec fn round_tokens(r: Round) -> nat {
    (r.confirm.msg.input_tokens + r.confirm.msg.resp_tokens) as nat
}

/// The tokens of all the rounds.
pub open spec fn tokens_of(rounds: Seq<Round>) -> nat
    decreases rounds.len(),
{
    if rounds.len() == 0 {
        0
    } else {
        tokens_of(rounds.drop_last()) + round_tokens(rounds.last())
    }
}

/// The claim that covers all of `rounds` for client `pk`.
pub open spec fn claim_of(pk: PublicKey, rounds: Seq<Round>) -> Claim {
    Claim {
        pk,
        start_seq: rounds[0].request.msg.seq,
        rounds: rounds.len() as u32,
        tokens_consumed: tokens_of(rounds) as u64,
    }
}

/// The rounds of one client can be claimed.
pub open spec fn client_claimable(pk: PublicKey, rounds: Seq<Round>) -> bool {
    &&& 0 < rounds.len() <= u32::MAX
    &&& rounds_valid(pk, rounds)
    &&& tokens_of(rounds) <= u64::MAX
}

/// The first index whose round is invalid, given that one is.
pub open spec fn first_invalid(pk: PublicKey, rounds: Seq<Round>) -> int {
    choose|i: int|
        0 <= i < rounds.len() && !round_valid(pk, rounds[i], first_seq(rounds) + i) && forall|j: int|
            0 <= j < i ==> round_valid(pk, rounds[j], first_seq(rounds) + j)
}

/// The error that the rounds of one client give, when they give one.
pub open spec fn client_error(pk: PublicKey, rounds: Seq<Round>) -> CircuitError {
    if rounds.len() == 0 {
        CircuitError::NoRounds
    } else if rounds.len() > u32::MAX {
        CircuitError::TooManyRounds
    } else if !rounds_valid(pk, rounds) {
        CircuitError::RoundRejected { index: first_invalid(pk, rounds) as usize }
    } else {
        CircuitError::TokenOverflow
    }
}

proof fn lemma_first_invalid(pk: PublicKey, rounds: Seq<Round>, i: int)
    requires
        0 <= i < rounds.len(),
        !round_valid(pk, rounds[i], first_seq(rounds) + i),
        forall|j: int| 0 <= j < i ==> round_valid(pk, rounds[j], first_seq(rounds) + j),
    ensures
        first_invalid(pk, rounds) == i,
{
    let k = first_invalid(pk, rounds);
    if k < i {
        assert(round_valid(pk, rounds[k], first_seq(rounds) + k));
    }
    if k > i {
        assert(round_valid(pk, rounds[i], first_seq(rounds) + i));
    }
}

proof fn lemma_tokens_step(rounds: Seq<Round>, i: int)
    requires
        0 <= i < rounds.len(),
    ensures
        tokens_of(rounds.take(i + 1)) == tokens_of(rounds.take(i)) + round_tokens(rounds[i]),
{
    assert(rounds.take(i + 1).drop_last() =~= rounds.take(i));
}

/// An emitted claim accounts exactly for its rounds: it covers `rounds`
/// consecutive rounds from `start_seq`, each validly signed by the claim's
/// key, and its token count is the sum of their input and response tokens.
pub proof fn lemma_claim_accounts_for_rounds(pk: PublicKey, rounds: Seq<Round>)
    requires
        client_claimable(pk, rounds),
    ensures
        ({
            let c = claim_of(pk, rounds);
            &&& c.pk == pk
            &&& c.rounds == rounds.len()
            &&& c.tokens_consumed == tokens_of(rounds)
            &&& forall|i: int|
                0 <= i < c.rounds ==> #[trigger] round_valid(pk, rounds[i], c.start_seq + i)
        }),
{
    let c = claim_of(pk, rounds);
    assert forall|i: int| 0 <= i < c.rounds implies #[trigger] round_valid(
        pk,
        rounds[i],
        c.start_seq + i,
    ) by {
        assert(round_valid(pk, rounds[i], first_seq(rounds) + i));
    }
}

/// Re-checks the rounds of one client and derives its claim: the rounds are
/// consecutive from the first one's sequence number, both signatures of each
/// verify under `pk`, and the claim counts them and sums their tokens.
pub fn client_claim(pk: &PublicKey, rounds: &Vec<Round>) -> (r: Result<Claim, CircuitError>)
    ensures
        r is Ok <==> client_claimable(*pk, rounds@),
        r matches Ok(c) ==> c == claim_of(*pk, rounds@),
        r matches Err(e) ==> e == client_error(*pk, rounds@),
{
    if rounds.len() == 0 {
        return Err(CircuitError::NoRounds);
    }
    if rounds.len() > u32::MAX as usize {
        return Err(CircuitError::TooManyRounds);
    }
    let start = rounds[0].request.msg.seq;
    let mut sum: u128 = 0;
    let mut i: usize = 0;
    while i < rounds.len()
        invariant
            0 < rounds@.len() <= u32::MAX,
            start == first_seq(rounds@),
            i <= rounds@.len(),
            forall|j: int| 0 <= j < i ==> round_valid(*pk, rounds@[j], first_seq(rounds@) + j),
            sum == tokens_of(rounds@.take(i as int)),
            sum <= i * 0x2_0000_0000,
        decreases rounds@.len() - i,
    {
        let round = &rounds[i];
        let expected: u64 = start as u64 + i as u64;
        if !(round.request.msg.seq as u64 == expected && round.confirm.msg.seq as u64 == expected
            && verify_request(pk, &round.request) && verify_confirm(pk, &round.confirm)) {
            proof {
                lemma_first_invalid(*pk, rounds@, i as int);
            }
            return Err(CircuitError::RoundRejected { index: i });
        }
        proof {
            lemma_tokens_step(rounds@, i as int);
        }
        sum = sum + round.confirm.msg.input_tokens as u128 + round.confirm.msg.resp_tokens as u128;
        i = i + 1;
    }
    assert(rounds@.take(rounds@.len() as int) =~= rounds@);
    if sum > u64::MAX as u128 {
        return Err(CircuitError::TokenOverflow);
    }
    Ok(Claim { pk: *pk, start_seq: start, rounds: rounds.len() as u32, tokens_consumed: sum as u64 })
}

/// Every client of the input can be claimed.
pub open spec fn input_claimable(input: Input) -> bool {
    forall|i: int|
        0 <= i < input.rounds@.len() ==> #[trigger] client_claimable(
            input.rounds@[i].0,
            input.rounds@[i].1@,
        )
}

/// The claims of the input, one per client, in the input's order.
pub open spec fn claims_of(input: Input) -> Seq<Claim> {
    input.rounds@.map_values(|e: (PublicKey, Vec<Round>)| claim_of(e.0, e.1@))
}

/// The first client whose rounds cannot be claimed, given that one exists.
pub open spec fn first_unclaimable(input: Input) -> int {
    choose|i: int|
        0 <= i < input.rounds@.len() && !client_claimable(input.rounds@[i].0, input.rounds@[i].1@)
            && forall|j: int|
            0 <= j < i ==> client_claimable(input.rounds@[j].0, input.rounds@[j].1@)
}

/// Derives the claims of every client of the input, in the input's order;
/// each claim covers exactly its client's rounds, which are consecutive and
/// validly signed, and sums their tokens.
pub fn input_claims(input: &Input) -> (r: Result<Vec<Claim>, CircuitError>)
    ensures
        r is Ok <==> input_claimable(*input),
        r matches Ok(cs) ==> cs@ == claims_of(*input),
        r matches Err(e) ==> ({
            let k = first_unclaimable(*input);
            e == client_error(input.rounds@[k].0, input.rounds@[k].1@)
        }),
{
    let mut claims: Vec<Claim> = Vec::new();
    let mut i: usize = 0;
    while i < input.rounds.len()
        invariant
            i <= input.rounds@.len(),
            forall|j: int|
                0 <= j < i ==> #[trigger] client_claimable(
                    input.rounds@[j].0,
                    input.rounds@[j].1@,
                ),
            claims@ == claims_of(*input).take(i as int),
        decreases input.rounds@.len() - i,
    {
        let entry = &input.rounds[i];
        match client_claim(&entry.0, &entry.1) {
            Ok(c) => {
                claims.push(c);
                assert(claims@ =~= claims_of(*input).take(i + 1));
            },
            Err(e) => {
                proof {
                    let k = first_unclaimable(*input);
                    assert(!client_claimable(input.rounds@[i as int].0, input.rounds@[i as int].1@));
                    if k < i {
                        assert(client_claimable(input.rounds@[k].0, input.rounds@[k].1@));
                    }
                    if k > i {
                        assert(!client_claimable(input.rounds@[i as int].0, input.rounds@[i as int].1@));
                    }
                }
                return Err(e);
            },
        }
        i = i + 1;
    }
    assert(claims_of(*input).take(i as int) =~= claims_of(*input));
    Ok(claims)
}

/// The circuit: re-checks every round of the input and returns the public
/// journal, the frames of the claims of every client in the input's order.
/// Its length is a multiple of 48.
pub fn circuit_journal(input: &Input) -> (r: Result<Vec<u8>, CircuitError>)
    ensures
        r is Ok <==> input_claimable(*input),
        r matches Ok(j) ==> j@ == journal_bytes(claims_of(*input)),
        r matches Ok(j) ==> j@.len() == CLAIM_SIZE * input.rounds@.len(),
        r matches Err(e) ==> ({
            let k = first_unclaimable(*input);
            e == client_error(input.rounds@[k].0, input.rounds@[k].1@)
        }),
{
    let claims = input_claims(input)?;
    proof {
        lemma_journal_len(claims@);
    }
    Ok(encode_journal(&claims))
}

} // verus!
