//! Accountable metering for a pay-per-token inference gateway.
//!
//! The library holds the pieces of the metering pipeline that decide
//! anything: the canonical byte encodings of the signed messages and of the
//! settlement claims, the per-client journal state machine, the aggregation
//! of signed rounds into claims, and the gateway's admission checks.
//! Storage, networking and proving are left to the caller.

pub mod circuit;
pub mod codec;
pub mod gateway;
pub mod journal;
pub mod journal_model;
pub mod messages;
pub mod signatures;

pub use circuit::{circuit_journal, client_claim, input_claims, CircuitError};
pub use codec::{decode_claim, decode_journal, encode_journal, CodecError};
pub use gateway::{
    admit_confirm, admit_request, build_input, check_usage, decide_admission, settlement_due,
    GatewayError, RoundData, Usage,
};
pub use journal::{
    on_commit, on_confirm, on_request, on_response, settleable_seqs, CommitOutcome, JournalError,
    PeerStatus, RoundState,
};
pub use journal_model::JournalOp;
pub use messages::{
    Claim, CompletionsReq, CompletionsResp, Confirm, ConfirmMsg, ConfirmReq, Input, PublicKey,
    Request, RequestMsg, Round, CLAIM_SIZE, PUBLIC_KEY_SIZE, SIGNATURE_SIZE,
};
pub use signatures::{verify_confirm, verify_request};
