use std::collections::BTreeSet;

use deopenchat::{
    admit_confirm, admit_request, check_usage, on_commit, on_confirm, on_request, on_response,
    settleable_seqs, settlement_due, verify_confirm, verify_request, Claim, CommitOutcome,
    CompletionsReq, Confirm, ConfirmMsg, ConfirmReq, GatewayError, JournalError, PeerStatus,
    Request, RequestMsg, RoundState, Usage,
};
use ed25519_dalek::{Signer, SigningKey};

fn key() -> SigningKey {
    SigningKey::from_bytes(&[7u8; 32])
}

fn signed_request(sk: &SigningKey, seq: u32) -> CompletionsReq<String> {
    let msg = RequestMsg { seq };
    let signature = sk.sign(&<[u8; 4]>::from(msg)).to_bytes().to_vec();
    CompletionsReq {
        pk: sk.verifying_key().to_bytes(),
        raw_req: String::from("prompt"),
        request: Request { msg, signature },
    }
}

fn signed_confirm(sk: &SigningKey, seq: u32, input_tokens: u32, resp_tokens: u32) -> ConfirmReq {
    let msg = ConfirmMsg { seq, input_tokens, resp_tokens };
    let signature = sk.sign(&<[u8; 12]>::from(msg)).to_bytes().to_vec();
    ConfirmReq { pk: sk.verifying_key().to_bytes(), confirm: Confirm { msg, signature } }
}

const USAGE: Usage = Usage { prompt_tokens: 10, completion_tokens: 20 };

/// Runs a request for round 1 through admission, the journal and the
/// response, as the gateway does for a new client.
fn first_round(sk: &SigningKey) -> PeerStatus {
    let req = signed_request(sk, 1);
    admit_request(&req, 1000).unwrap();
    let s = on_request(None, req.request.msg.seq).unwrap();
    on_response(Some(s), req.request.msg.seq).unwrap()
}

#[test]
fn first_request_succeeds() {
    let s = first_round(&key());
    assert_eq!(s, PeerStatus { seq: 1, commit_seq: 0, state: RoundState::WaitingConfirm });
}

#[test]
fn confirm_advances_state() {
    let sk = key();
    let s = first_round(&sk);
    let c = signed_confirm(&sk, 1, 10, 20);
    let tokens = admit_confirm(&c, Some(USAGE)).unwrap();
    let s = on_confirm(Some(s), c.confirm.msg.seq).unwrap();
    assert_eq!(s.state, RoundState::Completed);
    let mut accumulated_tokens: u64 = 0;
    accumulated_tokens += tokens;
    assert_eq!(accumulated_tokens, 30);
}

#[test]
fn out_of_order_request_rejected() {
    let sk = key();
    let s = first_round(&sk);
    let c = signed_confirm(&sk, 1, 10, 20);
    admit_confirm(&c, Some(USAGE)).unwrap();
    let s = on_confirm(Some(s), 1).unwrap();
    let req = signed_request(&sk, 3);
    admit_request(&req, 1000).unwrap();
    assert_eq!(on_request(Some(s), 3), Err(JournalError::SequenceMismatch));
    assert_eq!(s, PeerStatus { seq: 1, commit_seq: 0, state: RoundState::Completed });
    assert_eq!(
        on_request(Some(s), 2),
        Ok(PeerStatus { seq: 2, commit_seq: 0, state: RoundState::Requested })
    );
}

#[test]
fn under_report_rejected() {
    let sk = key();
    let s = first_round(&sk);
    let c = signed_confirm(&sk, 1, 9, 20);
    assert_eq!(admit_confirm(&c, Some(USAGE)), Err(GatewayError::UnderReported));
    assert_eq!(s.state, RoundState::WaitingConfirm);
    let c = signed_confirm(&sk, 1, 10, 19);
    assert_eq!(admit_confirm(&c, Some(USAGE)), Err(GatewayError::UnderReported));
}

#[test]
fn over_report_accepted() {
    let sk = key();
    let c = signed_confirm(&sk, 1, 11, 25);
    assert_eq!(admit_confirm(&c, Some(USAGE)), Ok(36));
}

#[test]
fn missing_usage_rejected() {
    let msg = ConfirmMsg { seq: 1, input_tokens: 10, resp_tokens: 20 };
    assert_eq!(check_usage(msg, None), Err(GatewayError::MissingUsage));
    assert_eq!(check_usage(msg, Some(USAGE)), Ok(30));
}

#[test]
fn token_sum_is_widened() {
    let msg = ConfirmMsg { seq: 1, input_tokens: u32::MAX, resp_tokens: u32::MAX };
    assert_eq!(check_usage(msg, Some(USAGE)), Ok(2 * u32::MAX as u64));
}

#[test]
fn bad_request_signature_rejected() {
    let sk = key();
    let mut req = signed_request(&sk, 1);
    assert!(verify_request(&req.pk, &req.request));
    req.request.signature[0] ^= 1;
    assert!(!verify_request(&req.pk, &req.request));
    assert_eq!(admit_request(&req, 1000), Err(GatewayError::BadSignature));
    let req = signed_request(&sk, 1);
    let mut other = req.clone();
    other.request.msg.seq = 2;
    assert_eq!(admit_request(&other, 1000), Err(GatewayError::BadSignature));
    let mut short = req.clone();
    short.request.signature.truncate(63);
    assert_eq!(admit_request(&short, 1000), Err(GatewayError::BadSignature));
}

#[test]
fn bad_confirm_signature_rejected() {
    let sk = key();
    let c = signed_confirm(&sk, 1, 10, 20);
    assert!(verify_confirm(&c.pk, &c.confirm));
    let mut forged = c.clone();
    forged.confirm.msg.resp_tokens = 21;
    assert!(!verify_confirm(&forged.pk, &forged.confirm));
    assert_eq!(admit_confirm(&forged, Some(USAGE)), Err(GatewayError::BadSignature));
    let other = SigningKey::from_bytes(&[9u8; 32]);
    let mut wrong_key = c.clone();
    wrong_key.pk = other.verifying_key().to_bytes();
    assert_eq!(admit_confirm(&wrong_key, Some(USAGE)), Err(GatewayError::BadSignature));
}

#[test]
fn exhausted_allowance_rejected() {
    let req = signed_request(&key(), 1);
    assert_eq!(admit_request(&req, 0), Err(GatewayError::ResourceExhausted));
    assert_eq!(admit_request(&req, 1), Ok(()));
}

#[test]
fn new_client_must_start_at_one() {
    assert_eq!(on_request(None, 0), Err(JournalError::SequenceMismatch));
    assert_eq!(on_request(None, 2), Err(JournalError::SequenceMismatch));
}

#[test]
fn request_needs_completed_round() {
    let s = PeerStatus { seq: 4, commit_seq: 2, state: RoundState::WaitingConfirm };
    assert_eq!(on_request(Some(s), 5), Err(JournalError::WrongState));
    let s = PeerStatus { seq: u32::MAX, commit_seq: 0, state: RoundState::Completed };
    assert_eq!(on_request(Some(s), 0), Err(JournalError::SequenceMismatch));
}

#[test]
fn response_and_confirm_guards() {
    let s = PeerStatus { seq: 4, commit_seq: 2, state: RoundState::Requested };
    assert_eq!(on_response(None, 4), Err(JournalError::UnknownClient));
    assert_eq!(on_response(Some(s), 3), Err(JournalError::SequenceMismatch));
    assert_eq!(on_confirm(Some(s), 4), Err(JournalError::WrongState));
    let w = on_response(Some(s), 4).unwrap();
    assert_eq!(on_response(Some(w), 4), Err(JournalError::WrongState));
    assert_eq!(on_confirm(Some(w), 5), Err(JournalError::SequenceMismatch));
    assert_eq!(on_confirm(None, 4), Err(JournalError::UnknownClient));
    assert_eq!(on_confirm(Some(w), 4).unwrap().state, RoundState::Completed);
}

fn claim(start_seq: u32, rounds: u32) -> Claim {
    Claim { pk: [1u8; 32], start_seq, rounds, tokens_consumed: 0 }
}

#[test]
fn commit_advances_watermark() {
    let s = PeerStatus { seq: 5, commit_seq: 2, state: RoundState::Completed };
    match on_commit(Some(s), &claim(3, 2)).unwrap() {
        CommitOutcome::Advanced { status, settled } => {
            assert_eq!(status, PeerStatus { seq: 5, commit_seq: 4, state: RoundState::Completed });
            assert_eq!(settled, vec![3, 4]);
        }
        CommitOutcome::AlreadyCommitted => panic!("expected the watermark to move"),
    }
}

#[test]
fn commit_twice_is_commit_once() {
    let s = PeerStatus { seq: 5, commit_seq: 2, state: RoundState::Completed };
    let after = match on_commit(Some(s), &claim(3, 3)).unwrap() {
        CommitOutcome::Advanced { status, .. } => status,
        CommitOutcome::AlreadyCommitted => panic!("expected the watermark to move"),
    };
    assert_eq!(after.commit_seq, 5);
    assert!(matches!(on_commit(Some(after), &claim(3, 3)), Ok(CommitOutcome::AlreadyCommitted)));
}

#[test]
fn commit_guards() {
    let s = PeerStatus { seq: 5, commit_seq: 2, state: RoundState::Completed };
    assert!(matches!(on_commit(None, &claim(3, 1)), Err(JournalError::UnknownClient)));
    assert!(matches!(on_commit(Some(s), &claim(4, 1)), Err(JournalError::CommitMismatch)));
    assert!(matches!(on_commit(Some(s), &claim(3, 4)), Err(JournalError::CommitMismatch)));
    assert!(matches!(on_commit(Some(s), &claim(2, 2)), Err(JournalError::CommitMismatch)));
}

#[test]
fn scan_covers_settled_to_current_exclusive() {
    let s = PeerStatus { seq: 6, commit_seq: 2, state: RoundState::WaitingConfirm };
    assert_eq!(settleable_seqs(s), vec![3, 4, 5]);
    let s = PeerStatus { seq: 3, commit_seq: 2, state: RoundState::Completed };
    assert_eq!(settleable_seqs(s), Vec::<u32>::new());
    let s = PeerStatus { seq: 0, commit_seq: 0, state: RoundState::Completed };
    assert_eq!(settleable_seqs(s), Vec::<u32>::new());
}

#[test]
fn watermark_triggers_at_level() {
    assert!(!settlement_due(99, 100));
    assert!(settlement_due(100, 100));
    assert!(settlement_due(101, 100));
}

#[test]
fn history_records_follow_the_watermark() {
    let mut history: BTreeSet<u32> = BTreeSet::new();
    let mut s: Option<PeerStatus> = None;
    for seq in 1..=4u32 {
        let st = on_request(s, seq).unwrap();
        assert!(!history.contains(&seq));
        let st = on_response(Some(st), seq).unwrap();
        history.insert(seq);
        s = Some(on_confirm(Some(st), seq).unwrap());
    }
    let st = on_request(s, 5).unwrap();
    assert_eq!(st.state, RoundState::Requested);
    assert_eq!(history, (1..=4).collect::<BTreeSet<u32>>());
    match on_commit(Some(st), &claim(1, 3)).unwrap() {
        CommitOutcome::Advanced { status, settled } => {
            for seq in settled {
                assert!(history.remove(&seq));
            }
            assert_eq!(status.commit_seq, 3);
            assert!(status.commit_seq <= status.seq);
            let expected: BTreeSet<u32> =
                (status.commit_seq + 1..status.seq).collect();
            assert_eq!(history, expected);
        }
        CommitOutcome::AlreadyCommitted => panic!("expected the watermark to move"),
    }
}
