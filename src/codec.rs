use vstd::prelude::*;

use crate::messages::{Claim, ConfirmMsg, RequestMsg, CLAIM_SIZE, PUBLIC_KEY_SIZE};

verus! {

/// The four big-endian bytes of `x`.
pub open spec fn be32(x: u32) -> Seq<u8> {
    seq![(x >> 24u32) as u8, (x >> 16u32) as u8, (x >> 8u32) as u8, x as u8]
}

/// The eight big-endian bytes of `x`.
pub open spec fn be64(x: u64) -> Seq<u8> {
    seq![
        (x >> 56u64) as u8,
        (x >> 48u64) as u8,
        (x >> 40u64) as u8,
        (x >> 32u64) as u8,
        (x >> 24u64) as u8,
        (x >> 16u64) as u8,
        (x >> 8u64) as u8,
        x as u8,
    ]
}

/// The signed bytes of a request message.
pub open spec fn request_msg_bytes(m: RequestMsg) -> Seq<u8> {
    be32(m.seq)
}

/// The signed bytes of a confirm message, fields in declared order.
pub open spec fn confirm_msg_bytes(m: ConfirmMsg) -> Seq<u8> {
    be32(m.seq) + be32(m.input_tokens) + be32(m.resp_tokens)
}

/// The 48-byte frame of a claim: key, start, count, tokens.
pub open spec fn claim_bytes(c: Claim) -> Seq<u8> {
    c.pk@ + be32(c.start_seq) + be32(c.rounds) + be64(c.tokens_consumed)
}

/// The frames of `claims`, back to back, in order.
pub open spec fn journal_bytes(claims: Seq<Claim>) -> Seq<u8>
    decreases claims.len(),
{
    if claims.len() == 0 {
        Seq::empty()
    } else {
        journal_bytes(claims.drop_last()) + claim_bytes(claims.last())
    }
}

proof fn lemma_be32_injective(x: u32, y: u32)
    requires
        be32(x) == be32(y),
    ensures
        x == y,
{
    assert(be32(x)[0] == be32(y)[0]);
    assert(be32(x)[1] == be32(y)[1]);
    assert(be32(x)[2] == be32(y)[2]);
    assert(be32(x)[3] == be32(y)[3]);
    assert(((x >> 24u32) as u8 == (y >> 24u32) as u8 && (x >> 16u32) as u8 == (y >> 16u32) as u8
        && (x >> 8u32) as u8 == (y >> 8u32) as u8 && x as u8 == y as u8) ==> x == y)
        by (bit_vector);
}

proof fn lemma_be64_injective(x: u64, y: u64)
    requires
        be64(x) == be64(y),
    ensures
        x == y,
{
    assert(be64(x)[0] == be64(y)[0]);
    assert(be64(x)[1] == be64(y)[1]);
    assert(be64(x)[2] == be64(y)[2]);
    assert(be64(x)[3] == be64(y)[3]);
    assert(be64(x)[4] == be64(y)[4]);
    assert(be64(x)[5] == be64(y)[5]);
    assert(be64(x)[6] == be64(y)[6]);
    assert(be64(x)[7] == be64(y)[7]);
    assert(((x >> 56u64) as u8 == (y >> 56u64) as u8 && (x >> 48u64) as u8 == (y >> 48u64) as u8
        && (x >> 40u64) as u8 == (y >> 40u64) as u8 && (x >> 32u64) as u8 == (y >> 32u64) as u8
        && (x >> 24u64) as u8 == (y >> 24u64) as u8 && (x >> 16u64) as u8 == (y >> 16u64) as u8
        && (x >> 8u64) as u8 == (y >> 8u64) as u8 && x as u8 == y as u8) ==> x == y)
        by (bit_vector);
}

/// A request's signed bytes determine the request: a signature over the
/// encoding of one request message is over no other request message's.
pub proof fn lemma_request_bytes_injective(a: RequestMsg, b: RequestMsg)
    requires
        request_msg_bytes(a) == request_msg_bytes(b),
    ensures
        a == b,
{
    lemma_be32_injective(a.seq, b.seq);
}

/// A confirmation's signed bytes determine the confirmation, so a signature
/// binds the sequence number and both token counts.
pub proof fn lemma_confirm_bytes_injective(a: ConfirmMsg, b: ConfirmMsg)
    requires
        confirm_msg_bytes(a) == confirm_msg_bytes(b),
    ensures
        a == b,
{
    let ba = confirm_msg_bytes(a);
    let bb = confirm_msg_bytes(b);
    assert(be32(a.seq) == ba.subrange(0, 4));
    assert(be32(b.seq) == bb.subrange(0, 4));
    assert(be32(a.input_tokens) == ba.subrange(4, 8));
    assert(be32(b.input_tokens) == bb.subrange(4, 8));
    assert(be32(a.resp_tokens) == ba.subrange(8, 12));
    assert(be32(b.resp_tokens) == bb.subrange(8, 12));
    lemma_be32_injective(a.seq, b.seq);
    lemma_be32_injective(a.input_tokens, b.input_tokens);
    lemma_be32_injective(a.resp_tokens, b.resp_tokens);
}

/// Every claim frame is exactly 48 bytes long.
pub proof fn lemma_claim_bytes_len(c: Claim)
    ensures
        claim_bytes(c).len() == CLAIM_SIZE,
{
}

/// Decoding inverts encoding: two claims with the same frame are the same
/// claim, so the claim that the decoder returns for the frame of `c` is `c`.
pub proof fn lemma_claim_round_trip(c: Claim, d: Claim)
    requires
        claim_bytes(d) == claim_bytes(c),
    ensures
        d == c,
{
    let bc = claim_bytes(c);
    let bd = claim_bytes(d);
    assert(d.pk@ == bd.subrange(0, 32));
    assert(c.pk@ == bc.subrange(0, 32));
    assert(be32(d.start_seq) == bd.subrange(32, 36));
    assert(be32(c.start_seq) == bc.subrange(32, 36));
    assert(be32(d.rounds) == bd.subrange(36, 40));
    assert(be32(c.rounds) == bc.subrange(36, 40));
    assert(be64(d.tokens_consumed) == bd.subrange(40, 48));
    assert(be64(c.tokens_consumed) == bc.subrange(40, 48));
    lemma_be32_injective(c.start_seq, d.start_seq);
    lemma_be32_injective(c.rounds, d.rounds);
    lemma_be64_injective(c.tokens_consumed, d.tokens_consumed);
    assert(c.pk =~= d.pk);
}

/// A sequence of claims encodes to 48 bytes per claim, so the journal's
/// length is always a multiple of 48.
pub proof fn lemma_journal_len(claims: Seq<Claim>)
    ensures
        journal_bytes(claims).len() == CLAIM_SIZE * claims.len(),
        journal_bytes(claims).len() as int % (CLAIM_SIZE as int) == 0,
    decreases claims.len(),
{
    if claims.len() > 0 {
        lemma_journal_len(claims.drop_last());
        lemma_claim_bytes_len(claims.last());
        assert(48 * (claims.len() - 1) + 48 == 48 * claims.len()) by (nonlinear_arith);
    }
    assert((48 * claims.len()) % 48 == 0) by (nonlinear_arith);
}

fn put_be32_at<const N: usize>(out: &mut [u8; N], at: usize, x: u32)
    requires
        at + 4 <= N,
    ensures
        final(out)@ == old(out)@.take(at as int) + be32(x) + old(out)@.skip(at + 4),
{
    out[at] = #[verifier::truncate] ((x >> 24u32) as u8);
    out[at + 1] = #[verifier::truncate] ((x >> 16u32) as u8);
    out[at + 2] = #[verifier::truncate] ((x >> 8u32) as u8);
    out[at + 3] = #[verifier::truncate] (x as u8);
    assert(out@ =~= old(out)@.take(at as int) + be32(x) + old(out)@.skip(at + 4));
}

fn put_be64_at<const N: usize>(out: &mut [u8; N], at: usize, x: u64)
    requires
        at + 8 <= N,
    ensures
        final(out)@ == old(out)@.take(at as int) + be64(x) + old(out)@.skip(at + 8),
{
    out[at] = #[verifier::truncate] ((x >> 56u64) as u8);
    out[at + 1] = #[verifier::truncate] ((x >> 48u64) as u8);
    out[at + 2] = #[verifier::truncate] ((x >> 40u64) as u8);
    out[at + 3] = #[verifier::truncate] ((x >> 32u64) as u8);
    out[at + 4] = #[verifier::truncate] ((x >> 24u64) as u8);
    out[at + 5] = #[verifier::truncate] ((x >> 16u64) as u8);
    out[at + 6] = #[verifier::truncate] ((x >> 8u64) as u8);
    out[at + 7] = #[verifier::truncate] (x as u8);
    assert(out@ =~= old(out)@.take(at as int) + be64(x) + old(out)@.skip(at + 8));
}

/// The byte array of length `N` whose view is `s`.
pub open spec fn bytes_array<const N: usize>(s: Seq<u8>) -> [u8; N] {
    choose|a: [u8; N]| a@ == s
}

proof fn lemma_bytes_array<const N: usize>(a: [u8; N])
    ensures
        bytes_array::<N>(a@) == a,
{
    let b = bytes_array::<N>(a@);
    assert(b@ == a@);
    assert(b =~= a);
}

impl From<RequestMsg> for [u8; 4] {
    fn from(m: RequestMsg) -> (r: [u8; 4])
        ensures
            r@ == request_msg_bytes(m),
    {
        let r = [
            #[verifier::truncate]
            ((m.seq >> 24u32) as u8),
            #[verifier::truncate]
            ((m.seq >> 16u32) as u8),
            #[verifier::truncate]
            ((m.seq >> 8u32) as u8),
            #[verifier::truncate]
            (m.seq as u8),
        ];
        assert(r@ =~= request_msg_bytes(m));
        proof {
            lemma_bytes_array(r);
        }
        r
    }
}

impl vstd::std_specs::convert::FromSpecImpl<RequestMsg> for [u8; 4] {
    open spec fn obeys_from_spec() -> bool {
        true
    }

    open spec fn from_spec(m: RequestMsg) -> [u8; 4] {
        bytes_array(request_msg_bytes(m))
    }
}

impl From<ConfirmMsg> for [u8; 12] {
    fn from(m: ConfirmMsg) -> (r: [u8; 12])
        ensures
            r@ == confirm_msg_bytes(m),
    {
        let mut r = [0u8; 12];
        put_be32_at(&mut r, 0, m.seq);
        put_be32_at(&mut r, 4, m.input_tokens);
        put_be32_at(&mut r, 8, m.resp_tokens);
        assert(r@ =~= confirm_msg_bytes(m));
        proof {
            lemma_bytes_array(r);
        }
        r
    }
}

impl vstd::std_specs::convert::FromSpecImpl<ConfirmMsg> for [u8; 12] {
    open spec fn obeys_from_spec() -> bool {
        true
    }

    open spec fn from_spec(m: ConfirmMsg) -> [u8; 12] {
        bytes_array(confirm_msg_bytes(m))
    }
}

impl From<Claim> for [u8; 48] {
    fn from(c: Claim) -> (r: [u8; 48])
        ensures
            r@ == claim_bytes(c),
    {
        let mut r = [0u8; 48];
        let mut i: usize = 0;
        while i < 32
            invariant
                i <= 32,
                forall|j: int| 0 <= j < i ==> r@[j] == c.pk@[j],
            decreases 32 - i,
        {
            r[i] = c.pk[i];
            i = i + 1;
        }
        put_be32_at(&mut r, 32, c.start_seq);
        put_be32_at(&mut r, 36, c.rounds);
        put_be64_at(&mut r, 40, c.tokens_consumed);
        assert(r@ =~= claim_bytes(c));
        proof {
            lemma_bytes_array(r);
        }
        r
    }
}

impl vstd::std_specs::convert::FromSpecImpl<Claim> for [u8; 48] {
    open spec fn obeys_from_spec() -> bool {
        true
    }

    open spec fn from_spec(c: Claim) -> [u8; 48] {
        bytes_array(claim_bytes(c))
    }
}

/// Why a byte string is not a claim frame or a journal.
#[derive(Clone, Copy, Debug, PartialEq, Eq, Structural)]
pub enum CodecError {
    /// The length is not that of one frame, or not a whole number of frames.
    BadLength,
}

fn read_be32(b: &[u8], at: usize) -> (r: u32)
    requires
        at + 4 <= b@.len(),
    ensures
        be32(r) == b@.subrange(at as int, at + 4),
{
    let b0 = b[at];
    let b1 = b[at + 1];
    let b2 = b[at + 2];
    let b3 = b[at + 3];
    let r = ((b0 as u32) << 24u32) | ((b1 as u32) << 16u32) | ((b2 as u32) << 8u32) | (b3 as u32);
    assert((r >> 24u32) as u8 == b0 && (r >> 16u32) as u8 == b1 && (r >> 8u32) as u8 == b2
        && r as u8 == b3) by (bit_vector)
        requires
            r == ((b0 as u32) << 24u32) | ((b1 as u32) << 16u32) | ((b2 as u32) << 8u32) | (
            b3 as u32),
    ;
    assert(be32(r) =~= b@.subrange(at as int, at + 4));
    r
}

fn read_be64(b: &[u8], at: usize) -> (r: u64)
    requires
        at + 8 <= b@.len(),
        at + 8 <= usize::MAX,
    ensures
        be64(r) == b@.subrange(at as int, at + 8),
{
    let hi = read_be32(b, at);
    let lo = read_be32(b, at + 4);
    let r = ((hi as u64) << 32u64) | (lo as u64);
    assert((r >> 56u64) as u8 == (hi >> 24u32) as u8 && (r >> 48u64) as u8 == (hi >> 16u32) as u8
        && (r >> 40u64) as u8 == (hi >> 8u32) as u8 && (r >> 32u64) as u8 == hi as u8
        && (r >> 24u64) as u8 == (lo >> 24u32) as u8 && (r >> 16u64) as u8 == (lo >> 16u32) as u8
        && (r >> 8u64) as u8 == (lo >> 8u32) as u8 && r as u8 == lo as u8) by (bit_vector)
        requires
            r == ((hi as u64) << 32u64) | (lo as u64),
    ;
    assert(be64(r) =~= be32(hi) + be32(lo));
    assert(b@.subrange(at as int, at + 8) =~= b@.subrange(at as int, at + 4) + b@.subrange(
        at + 4,
        at + 8,
    ));
    r
}

/// Reads one 48-byte claim frame.
pub fn decode_claim(frame: &[u8]) -> (r: Result<Claim, CodecError>)
    ensures
        r is Ok <==> frame@.len() == CLAIM_SIZE,
        r matches Ok(c) ==> claim_bytes(c) == frame@,
        r matches Err(e) ==> e == CodecError::BadLength,
{
    if frame.len() != CLAIM_SIZE {
        return Err(CodecError::BadLength);
    }
    let mut pk = [0u8; 32];
    let mut i: usize = 0;
    while i < PUBLIC_KEY_SIZE
        invariant
            i <= 32,
            frame@.len() == 48,
            forall|j: int| 0 <= j < i ==> pk@[j] == frame@[j],
        decreases 32 - i,
    {
        pk[i] = frame[i];
        i = i + 1;
    }
    let c = Claim {
        pk,
        start_seq: read_be32(frame, 32),
        rounds: read_be32(frame, 36),
        tokens_consumed: read_be64(frame, 40),
    };
    assert(pk@ =~= frame@.subrange(0, 32));
    assert(claim_bytes(c) =~= frame@);
    Ok(c)
}

/// Two claim sequences with the same journal are equal: the journal of a
/// claim list decodes back to that list.
pub proof fn lemma_journal_round_trip(cs: Seq<Claim>, ds: Seq<Claim>)
    requires
        journal_bytes(ds) == journal_bytes(cs),
    ensures
        ds == cs,
    decreases cs.len(),
{
    lemma_journal_len(cs);
    lemma_journal_len(ds);
    assert(48 * cs.len() == 48 * ds.len() ==> cs.len() == ds.len()) by (nonlinear_arith);
    if cs.len() > 0 {
        let n = journal_bytes(cs).len();
        lemma_journal_len(cs.drop_last());
        lemma_journal_len(ds.drop_last());
        lemma_claim_bytes_len(cs.last());
        lemma_claim_bytes_len(ds.last());
        assert(journal_bytes(cs.drop_last()) =~= journal_bytes(cs).take(n - 48));
        assert(journal_bytes(ds.drop_last()) =~= journal_bytes(ds).take(n - 48));
        assert(claim_bytes(cs.last()) =~= journal_bytes(cs).skip(n - 48));
        assert(claim_bytes(ds.last()) =~= journal_bytes(ds).skip(n - 48));
        lemma_journal_round_trip(cs.drop_last(), ds.drop_last());
        lemma_claim_round_trip(cs.last(), ds.last());
        assert(ds =~= cs.drop_last().push(cs.last()));
    } else {
        assert(ds =~= cs);
    }
}

/// The journal of `claims`: their frames back to back.
pub fn encode_journal(claims: &Vec<Claim>) -> (r: Vec<u8>)
    ensures
        r@ == journal_bytes(claims@),
{
    let mut out: Vec<u8> = Vec::new();
    let mut i: usize = 0;
    while i < claims.len()
        invariant
            i <= claims@.len(),
            out@ == journal_bytes(claims@.take(i as int)),
        decreases claims@.len() - i,
    {
        let frame = <[u8; 48]>::from(claims[i]);
        let mut j: usize = 0;
        let ghost before = out@;
        while j < CLAIM_SIZE
            invariant
                j <= 48,
                frame@ == claim_bytes(claims@[i as int]),
                out@ == before + frame@.take(j as int),
            decreases 48 - j,
        {
            out.push(frame[j]);
            j = j + 1;
            assert(out@ =~= before + frame@.take(j as int));
        }
        assert(claims@.take(i + 1).drop_last() =~= claims@.take(i as int));
        assert(frame@.take(48) =~= frame@);
        i = i + 1;
    }
    assert(claims@.take(claims@.len() as int) =~= claims@);
    out
}

/// Splits a journal into its claims, in order.
pub fn decode_journal(journal: &[u8]) -> (r: Result<Vec<Claim>, CodecError>)
    ensures
        r is Ok <==> journal@.len() % (CLAIM_SIZE as nat) == 0,
        r matches Ok(cs) ==> journal_bytes(cs@) == journal@,
        r matches Err(e) ==> e == CodecError::BadLength,
{
    if journal.len() % CLAIM_SIZE != 0 {
        return Err(CodecError::BadLength);
    }
    let mut claims: Vec<Claim> = Vec::new();
    let mut at: usize = 0;
    while at < journal.len()
        invariant
            journal@.len() % 48 == 0,
            at % 48 == 0,
            at <= journal@.len(),
            journal_bytes(claims@) == journal@.take(at as int),
        decreases journal@.len() - at,
    {
        let frame = slice_frame(journal, at);
        let c = match decode_claim(frame) {
            Ok(c) => c,
            Err(e) => return Err(e),
        };
        let ghost prev = claims@;
        claims.push(c);
        assert(claims@.drop_last() =~= prev);
        assert(journal@.take(at + 48) =~= journal@.take(at as int) + frame@);
        at = at + CLAIM_SIZE;
    }
    assert(journal@.take(journal@.len() as int) =~= journal@);
    Ok(claims)
}

fn slice_frame(journal: &[u8], at: usize) -> (r: &[u8])
    requires
        journal@.len() % 48 == 0,
        at % 48 == 0,
        at < journal@.len(),
    ensures
        r@ == journal@.subrange(at as int, at + 48),
{
    let n = journal.len();
    assert(at + 48 <= journal@.len()) by (nonlinear_arith)
        requires
            journal@.len() % 48 == 0,
            at % 48 == 0,
            at < journal@.len(),
    ;
    vstd::slice::slice_subrange(journal, at, at + CLAIM_SIZE)
}

} // verus!
