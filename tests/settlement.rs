use deopenchat::{
    build_input, circuit_journal, client_claim, decode_journal, on_commit, CircuitError,
    CommitOutcome, CompletionsReq, CompletionsResp, Confirm, ConfirmMsg, ConfirmReq, Input,
    PeerStatus, PublicKey, Request, RequestMsg, Round, RoundData, RoundState,
};
use ed25519_dalek::{Signer, SigningKey};

fn signed_round(sk: &SigningKey, seq: u32, input_tokens: u32, resp_tokens: u32) -> Round {
    let msg = RequestMsg { seq };
    let request = Request { msg, signature: sk.sign(&<[u8; 4]>::from(msg)).to_bytes().to_vec() };
    let msg = ConfirmMsg { seq, input_tokens, resp_tokens };
    let confirm = Confirm { msg, signature: sk.sign(&<[u8; 12]>::from(msg)).to_bytes().to_vec() };
    Round { request, confirm }
}

fn round_data(sk: &SigningKey, seq: u32, confirmed: bool) -> RoundData<String, String> {
    let round = signed_round(sk, seq, 10 + seq, 20);
    let pk = sk.verifying_key().to_bytes();
    RoundData {
        seq,
        req: CompletionsReq { pk, raw_req: format!("req {}", seq), request: round.request },
        resp: CompletionsResp { raw_response: format!("resp {}", seq) },
        confirm_msg: if confirmed {
            Some(ConfirmReq { pk, confirm: round.confirm })
        } else {
            None
        },
    }
}

#[test]
fn settlement_round_trip() {
    let a = SigningKey::from_bytes(&[1u8; 32]);
    let b = SigningKey::from_bytes(&[2u8; 32]);
    let mut history: Vec<(PublicKey, Vec<RoundData<String, String>>)> = Vec::new();
    let mut expected_tokens = Vec::new();
    for sk in [&a, &b] {
        let rds: Vec<_> = (1..=25).map(|seq| round_data(sk, seq, true)).collect();
        expected_tokens.push((1..=25u64).map(|seq| 10 + seq + 20).sum::<u64>());
        history.push((sk.verifying_key().to_bytes(), rds));
    }
    let input = build_input(history);
    assert_eq!(input.rounds.len(), 2);
    let journal = circuit_journal(&input).unwrap();
    assert_eq!(journal.len(), 2 * 48);
    let claims = decode_journal(&journal).unwrap();
    assert_eq!(claims.len(), 2);
    for (i, sk) in [&a, &b].iter().enumerate() {
        let c = &claims[i];
        assert_eq!(c.pk, sk.verifying_key().to_bytes());
        assert_eq!(c.start_seq, 1);
        assert_eq!(c.rounds, 25);
        assert_eq!(c.tokens_consumed, expected_tokens[i]);
        let s = PeerStatus { seq: 26, commit_seq: 0, state: RoundState::Requested };
        match on_commit(Some(s), c).unwrap() {
            CommitOutcome::Advanced { status, settled } => {
                assert_eq!(status.commit_seq, 25);
                assert_eq!(settled, (1..=25).collect::<Vec<u32>>());
            }
            CommitOutcome::AlreadyCommitted => panic!("expected the watermark to move"),
        }
    }
}

#[test]
fn bad_signature_rejected_by_circuit() {
    let sk = SigningKey::from_bytes(&[3u8; 32]);
    let mut rounds: Vec<Round> = (5..9).map(|seq| signed_round(&sk, seq, 1, 2)).collect();
    let pk = sk.verifying_key().to_bytes();
    assert_eq!(client_claim(&pk, &rounds).unwrap().tokens_consumed, 12);
    rounds[2].confirm.signature[10] ^= 0x01;
    let input = Input { rounds: vec![(pk, rounds)] };
    assert_eq!(circuit_journal(&input), Err(CircuitError::RoundRejected { index: 2 }));
}

#[test]
fn circuit_claim_covers_consecutive_rounds() {
    let sk = SigningKey::from_bytes(&[4u8; 32]);
    let pk = sk.verifying_key().to_bytes();
    let rounds: Vec<Round> = (7..10).map(|seq| signed_round(&sk, seq, seq, 100)).collect();
    let c = client_claim(&pk, &rounds).unwrap();
    assert_eq!(c.start_seq, 7);
    assert_eq!(c.rounds, 3);
    assert_eq!(c.tokens_consumed, 7 + 8 + 9 + 300);
}

#[test]
fn circuit_rejects_gaps_and_empty_lists() {
    let sk = SigningKey::from_bytes(&[5u8; 32]);
    let pk = sk.verifying_key().to_bytes();
    assert_eq!(client_claim(&pk, &vec![]), Err(CircuitError::NoRounds));
    let rounds = vec![signed_round(&sk, 1, 1, 1), signed_round(&sk, 3, 1, 1)];
    assert_eq!(client_claim(&pk, &rounds), Err(CircuitError::RoundRejected { index: 1 }));
    let mut mixed = signed_round(&sk, 2, 1, 1);
    mixed.confirm = signed_round(&sk, 3, 1, 1).confirm;
    let rounds = vec![signed_round(&sk, 1, 1, 1), mixed];
    assert_eq!(client_claim(&pk, &rounds), Err(CircuitError::RoundRejected { index: 1 }));
    let other = SigningKey::from_bytes(&[6u8; 32]).verifying_key().to_bytes();
    let rounds = vec![signed_round(&sk, 1, 1, 1)];
    assert_eq!(client_claim(&other, &rounds), Err(CircuitError::RoundRejected { index: 0 }));
}

#[test]
fn circuit_token_total_is_widened() {
    let sk = SigningKey::from_bytes(&[8u8; 32]);
    let pk = sk.verifying_key().to_bytes();
    let rounds: Vec<Round> = (1..4).map(|seq| signed_round(&sk, seq, u32::MAX, u32::MAX)).collect();
    assert_eq!(client_claim(&pk, &rounds).unwrap().tokens_consumed, 6 * u32::MAX as u64);
}

#[test]
fn snapshot_keeps_confirmed_rounds_only() {
    let a = SigningKey::from_bytes(&[1u8; 32]);
    let b = SigningKey::from_bytes(&[2u8; 32]);
    let history = vec![
        (
            a.verifying_key().to_bytes(),
            vec![round_data(&a, 1, true), round_data(&a, 2, false), round_data(&a, 3, true)],
        ),
        (b.verifying_key().to_bytes(), vec![round_data(&b, 1, false)]),
    ];
    let input = build_input(history);
    assert_eq!(input.rounds.len(), 1);
    assert_eq!(input.rounds[0].0, a.verifying_key().to_bytes());
    let seqs: Vec<u32> = input.rounds[0].1.iter().map(|r| r.request.msg.seq).collect();
    assert_eq!(seqs, vec![1, 3]);
}

#[test]
fn empty_input_gives_empty_journal() {
    let input = Input { rounds: vec![] };
    assert_eq!(circuit_journal(&input).unwrap().len(), 0);
}
