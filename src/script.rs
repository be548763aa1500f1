//! Redeem scripts of the funding output, of revocable outputs and of HTLC outputs, as bytes.

use crate::crypto::{ripemd160, ripemd160_of, sha256, sha256_of};
use crate::keys::TxCreationKeys;
use crate::payment::PaymentHash;
use vstd::prelude::*;

verus! {

pub const OP_0: u8 = 0x00;
pub const OP_2: u8 = 0x52;
pub const OP_IF: u8 = 0x63;
pub const OP_NOTIF: u8 = 0x64;
pub const OP_ELSE: u8 = 0x67;
pub const OP_ENDIF: u8 = 0x68;
pub const OP_DROP: u8 = 0x75;
pub const OP_DUP: u8 = 0x76;
pub const OP_SWAP: u8 = 0x7c;
pub const OP_SIZE: u8 = 0x82;
pub const OP_EQUAL: u8 = 0x87;
pub const OP_EQUALVERIFY: u8 = 0x88;
pub const OP_HASH160: u8 = 0xa9;
pub const OP_CHECKSIG: u8 = 0xac;
pub const OP_CHECKMULTISIG: u8 = 0xae;
pub const OP_CHECKLOCKTIMEVERIFY: u8 = 0xb1;
pub const OP_CHECKSEQUENCEVERIFY: u8 = 0xb2;

/// Information about an HTLC as it appears in a commitment transaction.
#[derive(Debug, Clone, Copy)]
pub struct HTLCOutputInCommitment {
    /// Whether the HTLC is offered (outbound) by the owner of the commitment transaction.
    pub offered: bool,
    /// The value in millisatoshis; the output holds this divided by 1000.
    pub amount_msat: u64,
    /// The block height at which the HTLC times out.
    pub cltv_expiry: u32,
    /// The hash whose preimage claims the HTLC.
    pub payment_hash: PaymentHash,
    /// The output of the commitment transaction holding the HTLC; `None` for an HTLC too
    /// small to get an output (dust), whose value goes to fees.
    pub transaction_output_index: Option<u32>,
}

/// The little-endian magnitude bytes of `n`, without trailing zero bytes.
pub open spec fn le_magnitude(n: nat) -> Seq<u8>
    decreases n,
{
    if n == 0 {
        Seq::empty()
    } else {
        seq![(n % 256) as u8] + le_magnitude(n / 256)
    }
}

/// The minimal push of the non-negative number `n`: `OP_0`, `OP_1` to `OP_16`, or a push of its
/// minimal script-number encoding (little-endian, with a zero byte added where the top bit
/// would read as a sign).
pub open spec fn script_int(n: nat) -> Seq<u8> {
    if n == 0 {
        seq![OP_0]
    } else if n <= 16 {
        seq![(0x50 + n) as u8]
    } else {
        let m = le_magnitude(n);
        let body = if m.last() & 0x80u8 != 0 {
            m + seq![0u8]
        } else {
            m
        };
        seq![body.len() as u8] + body
    }
}

/// A push of `data`, at most 75 bytes long.
pub open spec fn push_bytes(data: Seq<u8>) -> Seq<u8> {
    seq![data.len() as u8] + data
}

/// The script spendable by the revocation key at once, or by the delayed payment key after
/// `to_self_delay` blocks.
pub open spec fn revokeable_script(
    revocation_key: Seq<u8>,
    to_self_delay: u16,
    delayed_payment_key: Seq<u8>,
) -> Seq<u8> {
    seq![OP_IF] + push_bytes(revocation_key) + seq![OP_ELSE] + script_int(to_self_delay as nat)
        + seq![OP_CHECKSEQUENCEVERIFY, OP_DROP] + push_bytes(delayed_payment_key) + seq![
        OP_ENDIF,
        OP_CHECKSIG,
    ]
}

/// HASH160 of a public key.
pub open spec fn hash160_of(data: Seq<u8>) -> Seq<u8> {
    ripemd160_of(sha256_of(data))
}

/// The common start of both HTLC scripts: the revocation path, then the size test that tells a
/// preimage from a signature.
pub open spec fn htlc_script_head(b_htlc_key: Seq<u8>, revocation_key: Seq<u8>) -> Seq<u8> {
    seq![OP_DUP, OP_HASH160] + push_bytes(hash160_of(revocation_key)) + seq![
        OP_EQUAL,
        OP_IF,
        OP_CHECKSIG,
        OP_ELSE,
    ] + push_bytes(b_htlc_key) + seq![OP_SWAP, OP_SIZE] + script_int(32) + seq![OP_EQUAL]
}

/// The 2-of-2 check against the owner's HTLC key.
pub open spec fn htlc_multisig(a_htlc_key: Seq<u8>) -> Seq<u8> {
    seq![OP_2, OP_SWAP] + push_bytes(a_htlc_key) + seq![OP_2, OP_CHECKMULTISIG]
}

/// The check that the preimage hashes to the payment hash.
pub open spec fn htlc_hash_check(payment_hash: Seq<u8>) -> Seq<u8> {
    seq![OP_HASH160] + push_bytes(ripemd160_of(payment_hash)) + seq![OP_EQUALVERIFY]
}

/// The end of an offered HTLC's script: timeout by 2-of-2, or claim by preimage.
pub open spec fn offered_htlc_tail(payment_hash: Seq<u8>, a_htlc_key: Seq<u8>) -> Seq<u8> {
    seq![OP_NOTIF, OP_DROP] + htlc_multisig(a_htlc_key) + seq![OP_ELSE] + htlc_hash_check(
        payment_hash,
    ) + seq![OP_CHECKSIG, OP_ENDIF, OP_ENDIF]
}

/// The end of a received HTLC's script: claim by preimage and 2-of-2, or timeout after
/// `cltv_expiry`.
pub open spec fn received_htlc_tail(
    cltv_expiry: u32,
    payment_hash: Seq<u8>,
    a_htlc_key: Seq<u8>,
) -> Seq<u8> {
    seq![OP_IF] + htlc_hash_check(payment_hash) + htlc_multisig(a_htlc_key) + seq![
        OP_ELSE,
        OP_DROP,
    ] + script_int(cltv_expiry as nat) + seq![
        OP_CHECKLOCKTIMEVERIFY,
        OP_DROP,
        OP_CHECKSIG,
        OP_ENDIF,
        OP_ENDIF,
    ]
}

/// The script of an HTLC output, for the given keys.
pub open spec fn htlc_script(
    offered: bool,
    cltv_expiry: u32,
    payment_hash: Seq<u8>,
    a_htlc_key: Seq<u8>,
    b_htlc_key: Seq<u8>,
    revocation_key: Seq<u8>,
) -> Seq<u8> {
    htlc_script_head(b_htlc_key, revocation_key) + if offered {
        offered_htlc_tail(payment_hash, a_htlc_key)
    } else {
        received_htlc_tail(cltv_expiry, payment_hash, a_htlc_key)
    }
}

/// `a` comes before `b` in lexicographic byte order.
pub open spec fn bytes_lt(a: Seq<u8>, b: Seq<u8>) -> bool
    decreases a.len(),
{
    if a.len() == 0 {
        b.len() > 0
    } else if b.len() == 0 {
        false
    } else if a[0] != b[0] {
        a[0] < b[0]
    } else {
        bytes_lt(a.drop_first(), b.drop_first())
    }
}

/// The 2-of-2 multisig script of the funding output, with the keys in lexicographic order.
pub open spec fn funding_script(a: Seq<u8>, b: Seq<u8>) -> Seq<u8> {
    let (first, second) = if bytes_lt(a, b) {
        (a, b)
    } else {
        (b, a)
    };
    seq![OP_2] + push_bytes(first) + push_bytes(second) + seq![OP_2, OP_CHECKMULTISIG]
}

/// The pay-to-witness-script-hash output script of `script`.
pub open spec fn p2wsh_of(script: Seq<u8>) -> Seq<u8> {
    seq![OP_0, 32u8] + sha256_of(script)
}

/// Appends `bytes` to `v`.
fn append(v: &mut Vec<u8>, bytes: &[u8])
    ensures
        final(v)@ == old(v)@ + bytes@,
{
    v.extend_from_slice(bytes);
}

/// Appends a push of `data`.
fn append_push(v: &mut Vec<u8>, data: &[u8])
    requires
        data@.len() <= 75,
    ensures
        final(v)@ == old(v)@ + push_bytes(data@),
{
    v.push(data.len() as u8);
    v.extend_from_slice(data);
    assert(v@ =~= old(v)@ + push_bytes(data@));
}

/// Appends the minimal push of `n`.
fn append_int(v: &mut Vec<u8>, n: u32)
    ensures
        final(v)@ == old(v)@ + script_int(n as nat),
{
    if n == 0 {
        v.push(OP_0);
        assert(v@ =~= old(v)@ + script_int(n as nat));
        return;
    }
    if n <= 16 {
        v.push((0x50 + n) as u8);
        assert(v@ =~= old(v)@ + script_int(n as nat));
        return;
    }
    let mut m: Vec<u8> = Vec::new();
    let mut x: u32 = n;
    while x > 0
        invariant
            m@ + le_magnitude(x as nat) == le_magnitude(n as nat),
            m@.len() <= 4,
            m@.len() == 1 ==> x < 0x100_0000,
            m@.len() == 2 ==> x < 0x1_0000,
            m@.len() == 3 ==> x < 0x100,
            m@.len() == 4 ==> x == 0,
        decreases x,
    {
        proof {
            assert(le_magnitude(x as nat) == seq![(x as nat % 256) as u8] + le_magnitude(
                x as nat / 256,
            ));
            assert(m@.push((x % 256) as u8) + le_magnitude((x / 256) as nat) =~= m@ + le_magnitude(
                x as nat,
            ));
        }
        m.push((x % 256) as u8);
        x = x / 256;
    }
    assert(m@ =~= le_magnitude(n as nat));
    proof {
        lemma_le_magnitude_nonempty(n as nat);
    }
    if m[m.len() - 1] & 0x80u8 != 0 {
        m.push(0u8);
    }
    v.push(m.len() as u8);
    v.extend_from_slice(m.as_slice());
    assert(v@ =~= old(v)@ + script_int(n as nat));
}

proof fn lemma_le_magnitude_nonempty(n: nat)
    requires
        n > 0,
    ensures
        le_magnitude(n).len() > 0,
{
}

/// The script of a revocable output: spendable by `revocation_key` at once, or by
/// `delayed_payment_key` after `to_self_delay` blocks.
pub fn get_revokeable_redeemscript(
    revocation_key: &[u8; 33],
    to_self_delay: u16,
    delayed_payment_key: &[u8; 33],
) -> (r: Vec<u8>)
    ensures
        r@ == revokeable_script(revocation_key@, to_self_delay, delayed_payment_key@),
{
    let mut s: Vec<u8> = Vec::new();
    s.push(OP_IF);
    append_push(&mut s, revocation_key);
    s.push(OP_ELSE);
    append_int(&mut s, to_self_delay as u32);
    s.push(OP_CHECKSEQUENCEVERIFY);
    s.push(OP_DROP);
    append_push(&mut s, delayed_payment_key);
    s.push(OP_ENDIF);
    s.push(OP_CHECKSIG);
    assert(s@ =~= revokeable_script(revocation_key@, to_self_delay, delayed_payment_key@));
    s
}

/// Appends the 2-of-2 check against `a_htlc_key`.
fn append_htlc_multisig(s: &mut Vec<u8>, a_htlc_key: &[u8; 33])
    ensures
        final(s)@ == old(s)@ + htlc_multisig(a_htlc_key@),
{
    s.push(OP_2);
    s.push(OP_SWAP);
    append_push(s, a_htlc_key);
    s.push(OP_2);
    s.push(OP_CHECKMULTISIG);
    assert(s@ =~= old(s)@ + htlc_multisig(a_htlc_key@));
}

/// Appends the preimage check against the RIPEMD-160 of the payment hash.
fn append_htlc_hash_check(s: &mut Vec<u8>, payment_hash160: &[u8; 20])
    ensures
        final(s)@ == old(s)@ + seq![OP_HASH160] + push_bytes(payment_hash160@) + seq![
            OP_EQUALVERIFY,
        ],
{
    s.push(OP_HASH160);
    append_push(s, payment_hash160);
    s.push(OP_EQUALVERIFY);
    assert(s@ =~= old(s)@ + seq![OP_HASH160] + push_bytes(payment_hash160@) + seq![
        OP_EQUALVERIFY,
    ]);
}

/// Appends the common start of an HTLC script.
fn append_htlc_head(s: &mut Vec<u8>, b_htlc_key: &[u8; 33], revocation_key: &[u8; 33])
    ensures
        final(s)@ == old(s)@ + htlc_script_head(b_htlc_key@, revocation_key@),
{
    let revocation_sha = sha256(revocation_key);
    let revocation_hash160 = ripemd160(&revocation_sha);
    s.push(OP_DUP);
    s.push(OP_HASH160);
    append_push(s, &revocation_hash160);
    s.push(OP_EQUAL);
    s.push(OP_IF);
    s.push(OP_CHECKSIG);
    s.push(OP_ELSE);
    append_push(s, b_htlc_key);
    s.push(OP_SWAP);
    s.push(OP_SIZE);
    append_int(s, 32);
    s.push(OP_EQUAL);
    assert(s@ =~= old(s)@ + htlc_script_head(b_htlc_key@, revocation_key@));
}

/// The script of an HTLC output for explicitly given keys.
pub fn get_htlc_redeemscript_with_explicit_keys(
    htlc: &HTLCOutputInCommitment,
    a_htlc_key: &[u8; 33],
    b_htlc_key: &[u8; 33],
    revocation_key: &[u8; 33],
) -> (r: Vec<u8>)
    ensures
        r@ == htlc_script(
            htlc.offered,
            htlc.cltv_expiry,
            htlc.payment_hash.0@,
            a_htlc_key@,
            b_htlc_key@,
            revocation_key@,
        ),
{
    let payment_hash160 = ripemd160(&htlc.payment_hash.0);
    let mut s: Vec<u8> = Vec::new();
    append_htlc_head(&mut s, b_htlc_key, revocation_key);
    let ghost head = s@;
    if htlc.offered {
        s.push(OP_NOTIF);
        s.push(OP_DROP);
        append_htlc_multisig(&mut s, a_htlc_key);
        s.push(OP_ELSE);
        append_htlc_hash_check(&mut s, &payment_hash160);
        s.push(OP_CHECKSIG);
        s.push(OP_ENDIF);
        s.push(OP_ENDIF);
        assert(s@ =~= head + offered_htlc_tail(htlc.payment_hash.0@, a_htlc_key@));
    } else {
        s.push(OP_IF);
        append_htlc_hash_check(&mut s, &payment_hash160);
        append_htlc_multisig(&mut s, a_htlc_key);
        s.push(OP_ELSE);
        s.push(OP_DROP);
        append_int(&mut s, htlc.cltv_expiry);
        s.push(OP_CHECKLOCKTIMEVERIFY);
        s.push(OP_DROP);
        s.push(OP_CHECKSIG);
        s.push(OP_ENDIF);
        s.push(OP_ENDIF);
        assert(s@ =~= head + received_htlc_tail(
            htlc.cltv_expiry,
            htlc.payment_hash.0@,
            a_htlc_key@,
        ));
    }
    s
}

/// The script of an HTLC output for the keys of one commitment transaction.
pub fn get_htlc_redeemscript(htlc: &HTLCOutputInCommitment, keys: &TxCreationKeys) -> (r: Vec<u8>)
    ensures
        r@ == htlc_script(
            htlc.offered,
            htlc.cltv_expiry,
            htlc.payment_hash.0@,
            keys.a_htlc_key@,
            keys.b_htlc_key@,
            keys.revocation_key@,
        ),
{
    get_htlc_redeemscript_with_explicit_keys(htlc, &keys.a_htlc_key, &keys.b_htlc_key, &keys.revocation_key)
}

/// Whether `a` comes before `b` in lexicographic byte order.
pub(crate) fn lex_less(a: &[u8; 33], b: &[u8; 33]) -> (r: bool)
    ensures
        r == bytes_lt(a@, b@),
{
    let mut i: usize = 0;
    assert(a@.subrange(0, 33) =~= a@);
    assert(b@.subrange(0, 33) =~= b@);
    while i < 33
        invariant
            i <= 33,
            forall|j: int| 0 <= j < i ==> a@[j] == b@[j],
            bytes_lt(a@, b@) == bytes_lt(a@.subrange(i as int, 33), b@.subrange(i as int, 33)),
        decreases 33 - i,
    {
        proof {
            let sa = a@.subrange(i as int, 33);
            let sb = b@.subrange(i as int, 33);
            assert(sa.drop_first() =~= a@.subrange(i + 1, 33));
            assert(sb.drop_first() =~= b@.subrange(i + 1, 33));
        }
        if a[i] != b[i] {
            return a[i] < b[i];
        }
        i = i + 1;
    }
    proof {
        assert(a@.subrange(33, 33).len() == 0);
    }
    false
}

/// The redeem script of the funding output: a 2-of-2 multisig whose key order does not
/// depend on the order of the arguments.
pub fn make_funding_redeemscript(a: &[u8; 33], b: &[u8; 33]) -> (r: Vec<u8>)
    ensures
        r@ == funding_script(a@, b@),
{
    let a_first = lex_less(a, b);
    let mut s: Vec<u8> = Vec::new();
    s.push(OP_2);
    if a_first {
        append_push(&mut s, a);
        append_push(&mut s, b);
    } else {
        append_push(&mut s, b);
        append_push(&mut s, a);
    }
    s.push(OP_2);
    s.push(OP_CHECKMULTISIG);
    assert(s@ =~= funding_script(a@, b@));
    s
}

/// The pay-to-witness-script-hash output script of `script`.
pub fn to_p2wsh(script: &[u8]) -> (r: Vec<u8>)
    ensures
        r@ == p2wsh_of(script@),
{
    let h = sha256(script);
    let mut s: Vec<u8> = Vec::new();
    s.push(OP_0);
    s.push(32u8);
    append(&mut s, &h);
    assert(s@ =~= p2wsh_of(script@));
    s
}

} // verus!
