use vstd::prelude::*;

verus! {

/// Length in bytes of a detached Ed25519 signature.
pub const SIGNATURE_SIZE: usize = 64;

/// Length in bytes of an Ed25519 verifying key.
pub const PUBLIC_KEY_SIZE: usize = 32;

/// Length in bytes of one encoded settlement claim.
pub const CLAIM_SIZE: usize = PUBLIC_KEY_SIZE + 4 + 4 + 8;

/// A client's identity: the raw bytes of its Ed25519 verifying key.
pub type PublicKey = [u8; 32];

/// What a client signs when it asks for a completion.
#[derive(Clone, Copy, Debug, PartialEq, Eq, Structural)]
pub struct RequestMsg {
    pub seq: u32,
}

/// A request message with the client's signature over its encoding.
#[derive(Clone, Debug)]
pub struct Request {
    pub msg: RequestMsg,
    pub signature: Vec<u8>,
}

/// What a client signs once it has seen the response: the token counts it
/// agrees to pay for.
#[derive(Clone, Copy, Debug, PartialEq, Eq, Structural)]
pub struct ConfirmMsg {
    pub seq: u32,
    pub input_tokens: u32,
    pub resp_tokens: u32,
}

/// A confirm message with the client's signature over its encoding.
#[derive(Clone, Debug)]
pub struct Confirm {
    pub msg: ConfirmMsg,
    pub signature: Vec<u8>,
}

/// One settled unit of work: a signed request and its signed confirmation.
#[derive(Clone, Debug)]
pub struct Round {
    pub request: Request,
    pub confirm: Confirm,
}

/// What the prover is given: for each client, its rounds in order, one
/// entry per client.
#[derive(Clone, Debug)]
pub struct Input {
    pub rounds: Vec<(PublicKey, Vec<Round>)>,
}

/// A settlement record: `rounds` consecutive rounds of client `pk`, starting
/// at `start_seq`, for which `tokens_consumed` tokens are owed.
#[derive(Clone, Copy, Debug, PartialEq, Eq)]
pub struct Claim {
    pub pk: PublicKey,
    pub start_seq: u32,
    pub rounds: u32,
    pub tokens_consumed: u64,
}

/// The body of a completion call: the backend request, passed through
/// verbatim, and the client's signed request message.
#[derive(Clone, Debug)]
pub struct CompletionsReq<Req> {
    pub pk: PublicKey,
    pub raw_req: Req,
    pub request: Request,
}

/// The answer to a completion call: the backend's response, verbatim.
#[derive(Clone, Debug)]
pub struct CompletionsResp<Resp> {
    pub raw_response: Resp,
}

/// The body of a confirm call.
#[derive(Clone, Debug)]
pub struct ConfirmReq {
    pub pk: PublicKey,
    pub confirm: Confirm,
}

} // verus!
