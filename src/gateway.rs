use vstd::prelude::*;

use crate::codec::{confirm_msg_bytes, request_msg_bytes};
use crate::messages::{CompletionsReq, CompletionsResp, ConfirmMsg, ConfirmReq, Input, PublicKey, Round};
use crate::signatures::{ed25519_accepts, verify_confirm, verify_request};

verus! {

/// A round as the history table keeps it: the request, the backend's
/// response, and the client's confirmation once it has come.
#[derive(Clone, Debug)]
pub struct RoundData<Req, Resp> {
    pub seq: u32,
    pub req: CompletionsReq<Req>,
    pub resp: CompletionsResp<Resp>,
    pub confirm_msg: Option<ConfirmReq>,
}

/// The token counts that the backend measured for one completion.
#[derive(Clone, Copy, Debug, PartialEq, Eq, Structural)]
pub struct Usage {
    pub prompt_tokens: u32,
    pub completion_tokens: u32,
}

/// Why the gateway refuses a call.
#[derive(Clone, Copy, Debug, PartialEq, Eq, Structural)]
pub enum GatewayError {
    /// The signature does not verify under the caller's key.
    BadSignature,
    /// The client has no tokens left on chain.
    ResourceExhausted,
    /// The backend's response carries no usage record.
    MissingUsage,
    /// The client confirms fewer tokens than the backend measured.
    UnderReported,
}

/// The error, if any, of a completion request whose signature check came out
/// `signed` and whose client has `remaining_tokens` left on chain.
pub open spec fn admission_result(signed: bool, remaining_tokens: u128) -> Result<(), GatewayError> {
    if !signed {
        Err(GatewayError::BadSignature)
    } else if remaining_tokens == 0 {
        Err(GatewayError::ResourceExhausted)
    } else {
        Ok(())
    }
}

/// Admits a completion request before the journal sees it: the request
/// message must be signed by the caller's key, and the caller must have
/// tokens left on chain.
pub fn admit_request<Req>(req: &CompletionsReq<Req>, remaining_tokens: u128) -> (r: Result<
    (),
    GatewayError,
>)
    ensures
        r == admission_result(
            ed25519_accepts(req.pk@, request_msg_bytes(req.request.msg), req.request.signature@),
            remaining_tokens,
        ),
{
    let signed = verify_request(&req.pk, &req.request);
    decide_admission(signed, remaining_tokens)
}

/// Decides admission from the outcome of the signature check.
pub fn decide_admission(signed: bool, remaining_tokens: u128) -> (r: Result<(), GatewayError>)
    ensures
        r == admission_result(signed, remaining_tokens),
{
    if !signed {
        Err(GatewayError::BadSignature)
    } else if remaining_tokens == 0 {
        Err(GatewayError::ResourceExhausted)
    } else {
        Ok(())
    }
}

/// The tokens that a confirmation agrees to pay for.
pub open spec fn confirmed_tokens(m: ConfirmMsg) -> nat {
    (m.input_tokens + m.resp_tokens) as nat
}

/// The outcome of checking a confirmation against the backend's usage.
pub open spec fn usage_result(m: ConfirmMsg, usage: Option<Usage>) -> Result<u64, GatewayError> {
    match usage {
        None => Err(GatewayError::MissingUsage),
        Some(u) => if m.input_tokens >= u.prompt_tokens && m.resp_tokens >= u.completion_tokens {
            Ok(confirmed_tokens(m) as u64)
        } else {
            Err(GatewayError::UnderReported)
        },
    }
}

/// Checks a confirmation against what the backend measured: the client may
/// report more tokens than were measured, never fewer. On success, returns
/// the tokens to add to the traffic counter.
pub fn check_usage(m: ConfirmMsg, usage: Option<Usage>) -> (r: Result<u64, GatewayError>)
    ensures
        r == usage_result(m, usage),
        r matches Ok(t) ==> t == confirmed_tokens(m),
{
    match usage {
        None => Err(GatewayError::MissingUsage),
        Some(u) => {
            if m.input_tokens >= u.prompt_tokens && m.resp_tokens >= u.completion_tokens {
                Ok(m.input_tokens as u64 + m.resp_tokens as u64)
            } else {
                Err(GatewayError::UnderReported)
            }
        },
    }
}

/// Checks a confirm call whose round's response carried `usage`: the
/// confirmation must be signed by the caller's key and must not
/// under-report. On success, returns the tokens to add to the counter.
pub fn admit_confirm(req: &ConfirmReq, usage: Option<Usage>) -> (r: Result<u64, GatewayError>)
    ensures
        !ed25519_accepts(req.pk@, confirm_msg_bytes(req.confirm.msg), req.confirm.signature@)
            ==> r == Err::<u64, GatewayError>(GatewayError::BadSignature),
        ed25519_accepts(req.pk@, confirm_msg_bytes(req.confirm.msg), req.confirm.signature@)
            ==> r == usage_result(req.confirm.msg, usage),
{
    if !verify_confirm(&req.pk, &req.confirm) {
        return Err(GatewayError::BadSignature);
    }
    check_usage(req.confirm.msg, usage)
}

/// Whether the traffic counter has reached the watermark that starts a
/// settlement.
pub fn settlement_due(accumulated_tokens: u64, high_water_level: u64) -> (r: bool)
    ensures
        r == (accumulated_tokens >= high_water_level),
{
    accumulated_tokens >= high_water_level
}

/// The rounds among `rds` that were confirmed, in order, each made of the
/// signed request and the signed confirmation.
pub open spec fn confirmed_rounds<Req, Resp>(rds: Seq<RoundData<Req, Resp>>) -> Seq<Round>
    decreases rds.len(),
{
    if rds.len() == 0 {
        Seq::empty()
    } else {
        let prev = confirmed_rounds(rds.drop_last());
        match rds.last().confirm_msg {
            Some(c) => prev.push(Round { request: rds.last().req.request, confirm: c.confirm }),
            None => prev,
        }
    }
}

/// The prover's input for a history snapshot, as (key, rounds) pairs: each
/// client's confirmed rounds in order, and no entry for a client that has
/// none.
pub open spec fn snapshot_entries<Req, Resp>(
    history: Seq<(PublicKey, Vec<RoundData<Req, Resp>>)>,
) -> Seq<(PublicKey, Seq<Round>)>
    decreases history.len(),
{
    if history.len() == 0 {
        Seq::empty()
    } else {
        let prev = snapshot_entries(history.drop_last());
        let rounds = confirmed_rounds(history.last().1@);
        if rounds.len() == 0 {
            prev
        } else {
            prev.push((history.last().0, rounds))
        }
    }
}

/// The input's entries as (key, rounds) pairs.
pub open spec fn input_entries(input: Input) -> Seq<(PublicKey, Seq<Round>)> {
    input.rounds@.map_values(|e: (PublicKey, Vec<Round>)| (e.0, e.1@))
}

fn confirmed_of<Req, Resp>(rds: Vec<RoundData<Req, Resp>>) -> (r: Vec<Round>)
    ensures
        r@ == confirmed_rounds(rds@),
{
    let ghost all = rds@;
    let mut rest = rds;
    let mut out: Vec<Round> = Vec::new();
    let ghost mut i: int = 0;
    while rest.len() > 0
        invariant
            0 <= i <= all.len(),
            rest@ == all.skip(i),
            out@ == confirmed_rounds(all.take(i)),
        decreases rest@.len(),
    {
        let rd = rest.remove(0);
        assert(all.take(i + 1).drop_last() =~= all.take(i));
        assert(rd == all[i]);
        let RoundData { req, confirm_msg, .. } = rd;
        match confirm_msg {
            Some(c) => {
                out.push(Round { request: req.request, confirm: c.confirm });
            },
            None => {},
        }
        assert(all.skip(i + 1) =~= all.skip(i).subrange(1, all.skip(i).len() as int));
        proof {
            i = i + 1;
        }
    }
    assert(all.take(i) =~= all);
    out
}

/// Builds the prover's input from a snapshot of the unsettled history: for
/// each client, its confirmed rounds in order; a client with none is left
/// out.
pub fn build_input<Req, Resp>(history: Vec<(PublicKey, Vec<RoundData<Req, Resp>>)>) -> (r: Input)
    ensures
        input_entries(r) == snapshot_entries(history@),
{
    let ghost all = history@;
    let mut rest = history;
    let mut out: Vec<(PublicKey, Vec<Round>)> = Vec::new();
    let ghost mut i: int = 0;
    while rest.len() > 0
        invariant
            0 <= i <= all.len(),
            rest@ == all.skip(i),
            out@.map_values(|e: (PublicKey, Vec<Round>)| (e.0, e.1@)) == snapshot_entries(
                all.take(i),
            ),
        decreases rest@.len(),
    {
        let entry = rest.remove(0);
        assert(all.take(i + 1).drop_last() =~= all.take(i));
        assert(entry == all[i]);
        let (pk, rds) = entry;
        let rounds = confirmed_of(rds);
        if rounds.len() > 0 {
            let ghost before = out@;
            out.push((pk, rounds));
            assert(input_entries(Input { rounds: out }) =~= input_entries(
                Input { rounds: out },
            ).drop_last().push((pk, rounds@)));
            assert(input_entries(Input { rounds: out }).drop_last() =~= before.map_values(
                |e: (PublicKey, Vec<Round>)| (e.0, e.1@),
            ));
        }
        assert(all.skip(i + 1) =~= all.skip(i).subrange(1, all.skip(i).len() as int));
        proof {
            i = i + 1;
        }
    }
    assert(all.take(i) =~= all);
    Input { rounds: out }
}

} // verus!
