//! The channel monitor: enough history of a channel to recognise a revoked counterparty
//! commitment transaction on chain and to build the penalty transaction that claims its
//! revocable output, with a serialized form that reads back to the same monitor.

use crate::crypto::{
    ecdsa_der_of, ecdsa_sign, is_valid_secret, point_of, public_key_of, scalar_add, sha256_of,
    valid_secret,
};
use crate::keys::{
    derive_private_revocation_key, derive_public_key, derive_public_revocation_key,
    derived_revocation_private_key, is_derived_public_key, is_derived_revocation_public_key,
    public_key_derives, revocation_key_derives,
};
use crate::script::{get_revokeable_redeemscript, p2wsh_of, revokeable_script, to_p2wsh};
use crate::transaction::{
    compute_txid, get_obscured_commitment_number, obscured_number_of, segwit_sighash,
    segwit_sighash_of, skeleton, txid_of, Tx, TxInput, TxOutput,
};
use crate::features::DecodeError;
use crate::inbound_payment::{be64, be64_bytes, be_u64, lemma_be64_round_trip};
use crate::transaction::OutPoint;
use vstd::prelude::*;

verus! {

/// Where a channel stands in the breach-remedy state machine.
#[derive(Debug, Clone, Copy, PartialEq, Eq, Structural)]
pub enum MonitorState {
    /// Watching; updates are accepted.
    Active,
    /// A revoked commitment transaction was seen on chain.
    BreachDetected,
    /// The penalty transaction was built and handed out for broadcast.
    PenaltyBroadcast,
    /// The penalty transaction confirmed, or the dispute window passed.
    Resolved,
}

/// The byte that stands for a state in the serialized form.
pub open spec fn state_byte(s: MonitorState) -> u8 {
    match s {
        MonitorState::Active => 0u8,
        MonitorState::BreachDetected => 1u8,
        MonitorState::PenaltyBroadcast => 2u8,
        MonitorState::Resolved => 3u8,
    }
}

/// The state a byte stands for, if any.
pub open spec fn state_of_byte(b: u8) -> Option<MonitorState> {
    if b == 0 {
        Some(MonitorState::Active)
    } else if b == 1 {
        Some(MonitorState::BreachDetected)
    } else if b == 2 {
        Some(MonitorState::PenaltyBroadcast)
    } else if b == 3 {
        Some(MonitorState::Resolved)
    } else {
        None
    }
}

/// The contents of a monitor, as mathematical values.
pub struct MonitorModel {
    /// The mask that obscures commitment numbers.
    pub obscure_factor: u64,
    /// The transaction id of the funding output.
    pub funding_txid: Seq<u8>,
    /// The output index of the funding output.
    pub funding_vout: u32,
    /// Our revocation base secret.
    pub revocation_base_key: Seq<u8>,
    /// The counterparty's delayed-payment basepoint.
    pub their_delayed_payment_basepoint: Seq<u8>,
    /// The delay on the counterparty's own outputs.
    pub to_self_delay: u16,
    /// The script that penalty transactions pay to.
    pub destination_script: Seq<u8>,
    /// The revealed per-commitment secrets of the counterparty, by commitment number.
    pub secrets: Seq<(u64, Seq<u8>)>,
    /// The id of the last update applied.
    pub latest_update_id: u64,
    /// The state.
    pub state: MonitorState,
}

/// The model is one that a monitor can hold and write.
pub open spec fn model_wf(m: MonitorModel) -> bool {
    &&& m.funding_txid.len() == 32
    &&& valid_secret(m.revocation_base_key)
    &&& m.their_delayed_payment_basepoint.len() == 33
    &&& m.destination_script.len() <= 0xffff
    &&& m.secrets.len() <= 0xffff_ffff
    &&& forall|i: int| 0 <= i < m.secrets.len() ==> valid_secret(#[trigger] m.secrets[i].1)
}

/// Big-endian bytes of a 16-bit value.
pub open spec fn u16_be(x: u16) -> Seq<u8> {
    seq![(x >> 8u16) as u8, x as u8]
}

/// The value of two big-endian bytes.
pub open spec fn u16_of_be(s: Seq<u8>) -> u16 {
    (s[0] as u16) << 8u16 | (s[1] as u16)
}

/// Big-endian bytes of a 32-bit value.
pub open spec fn u32_be(x: u32) -> Seq<u8> {
    seq![(x >> 24u32) as u8, (x >> 16u32) as u8, (x >> 8u32) as u8, x as u8]
}

/// The value of four big-endian bytes.
pub open spec fn u32_of_be(s: Seq<u8>) -> u32 {
    (s[0] as u32) << 24u32 | (s[1] as u32) << 16u32 | (s[2] as u32) << 8u32 | (s[3] as u32)
}

/// The serialized list of revealed secrets: for each, the commitment number (8 bytes,
/// big-endian) and the secret (32 bytes).
pub open spec fn secrets_bytes(s: Seq<(u64, Seq<u8>)>) -> Seq<u8>
    decreases s.len(),
{
    if s.len() == 0 {
        Seq::empty()
    } else {
        secrets_bytes(s.drop_last()) + be64(s.last().0) + s.last().1
    }
}

/// The serialized form of a monitor.
pub open spec fn encode_model(m: MonitorModel) -> Seq<u8> {
    be64(m.obscure_factor) + m.funding_txid + u32_be(m.funding_vout) + m.revocation_base_key
        + m.their_delayed_payment_basepoint + u16_be(m.to_self_delay) + u16_be(
        m.destination_script.len() as u16,
    ) + m.destination_script + u32_be(m.secrets.len() as u32) + secrets_bytes(m.secrets) + be64(
        m.latest_update_id,
    ) + seq![state_byte(m.state)]
}

/// The `n` revealed secrets serialized from offset `p + 4` of `d`.
pub open spec fn decoded_secrets(d: Seq<u8>, p: int, n: int) -> Seq<(u64, Seq<u8>)> {
    Seq::new(
        n as nat,
        |i: int|
            (
                be_u64(d.subrange(p + 4 + 40 * i, p + 12 + 40 * i)),
                d.subrange(p + 12 + 40 * i, p + 44 + 40 * i),
            ),
    )
}

/// Reading a serialized monitor: `None` where the bytes are not exactly a serialized monitor
/// holding valid secrets.
pub open spec fn decode_model(d: Seq<u8>) -> Option<MonitorModel> {
    if d.len() < 113 {
        None
    } else {
        let l = u16_of_be(d.subrange(111, 113)) as int;
        let p = 113 + l;
        if d.len() < p + 4 {
            None
        } else {
            let n = u32_of_be(d.subrange(p, p + 4)) as int;
            let q = p + 4 + 40 * n;
            if d.len() != q + 9 {
                None
            } else {
                let secrets = decoded_secrets(d, p, n);
                let m = MonitorModel {
                    obscure_factor: be_u64(d.subrange(0, 8)),
                    funding_txid: d.subrange(8, 40),
                    funding_vout: u32_of_be(d.subrange(40, 44)),
                    revocation_base_key: d.subrange(44, 76),
                    their_delayed_payment_basepoint: d.subrange(76, 109),
                    to_self_delay: u16_of_be(d.subrange(109, 111)),
                    destination_script: d.subrange(113, p),
                    secrets,
                    latest_update_id: be_u64(d.subrange(q, q + 8)),
                    state: state_of_byte(d[q + 8])->Some_0,
                };
                if state_of_byte(d[q + 8]) is Some && model_wf(m) {
                    Some(m)
                } else {
                    None
                }
            }
        }
    }
}

proof fn lemma_u16_round_trip(x: u16)
    ensures
        u16_of_be(u16_be(x)) == x,
{
    let (b0, b1) = ((x >> 8u16) as u8, x as u8);
    assert((b0 as u16) << 8u16 | (b1 as u16) == x) by (bit_vector)
        requires
            b0 == (x >> 8u16) as u8,
            b1 == x as u8,
    ;
}

proof fn lemma_u32_round_trip(x: u32)
    ensures
        u32_of_be(u32_be(x)) == x,
{
    let (b0, b1, b2, b3) = ((x >> 24u32) as u8, (x >> 16u32) as u8, (x >> 8u32) as u8, x as u8);
    assert((b0 as u32) << 24u32 | (b1 as u32) << 16u32 | (b2 as u32) << 8u32 | (b3 as u32) == x)
        by (bit_vector)
        requires
            b0 == (x >> 24u32) as u8,
            b1 == (x >> 16u32) as u8,
            b2 == (x >> 8u32) as u8,
            b3 == x as u8,
    ;
}

/// Each revealed secret takes 40 bytes: its number, then the secret.
proof fn lemma_secrets_bytes(s: Seq<(u64, Seq<u8>)>)
    requires
        forall|i: int| 0 <= i < s.len() ==> (#[trigger] s[i]).1.len() == 32,
    ensures
        secrets_bytes(s).len() == 40 * s.len(),
        forall|i: int|
            0 <= i < s.len() ==> #[trigger] secrets_bytes(s).subrange(40 * i, 40 * i + 8)
                == be64(s[i].0) && secrets_bytes(s).subrange(40 * i + 8, 40 * i + 40) == s[i].1,
    decreases s.len(),
{
    if s.len() > 0 {
        let r = s.drop_last();
        assert forall|i: int| 0 <= i < r.len() implies (#[trigger] r[i]).1.len() == 32 by {
            assert(r[i] == s[i]);
        }
        lemma_secrets_bytes(r);
        let b = secrets_bytes(s);
        let rb = secrets_bytes(r);
        assert(b == rb + be64(s.last().0) + s.last().1);
        assert forall|i: int| 0 <= i < s.len() implies #[trigger] secrets_bytes(s).subrange(
            40 * i,
            40 * i + 8,
        ) == be64(s[i].0) && secrets_bytes(s).subrange(40 * i + 8, 40 * i + 40) == s[i].1 by {
            if i < r.len() {
                assert(r[i] == s[i]);
                assert(b.subrange(40 * i, 40 * i + 8) =~= rb.subrange(40 * i, 40 * i + 8));
                assert(b.subrange(40 * i + 8, 40 * i + 40) =~= rb.subrange(40 * i + 8, 40 * i + 40));
            } else {
                assert(b.subrange(40 * i, 40 * i + 8) =~= be64(s.last().0));
                assert(b.subrange(40 * i + 8, 40 * i + 40) =~= s.last().1);
            }
        }
    }
}

/// Reading back the serialized form of a monitor gives the same monitor.
#[verifier::rlimit(80)]
pub proof fn lemma_monitor_round_trip(m: MonitorModel)
    requires
        model_wf(m),
    ensures
        decode_model(encode_model(m)) == Some(m),
{
    let d = encode_model(m);
    let l = m.destination_script.len() as int;
    let n = m.secrets.len() as int;
    let p = 113 + l;
    let q = p + 4 + 40 * n;
    assert forall|i: int| 0 <= i < m.secrets.len() implies (#[trigger] m.secrets[i]).1.len() == 32 by {
        assert(valid_secret(m.secrets[i].1));
    }
    lemma_secrets_bytes(m.secrets);
    lemma_be64_round_trip(m.obscure_factor);
    lemma_be64_round_trip(m.latest_update_id);
    lemma_u32_round_trip(m.funding_vout);
    lemma_u16_round_trip(m.to_self_delay);
    lemma_u16_round_trip(m.destination_script.len() as u16);
    lemma_u32_round_trip(m.secrets.len() as u32);
    assert(d.len() == q + 9);
    assert(d.subrange(0, 8) =~= be64(m.obscure_factor));
    assert(d.subrange(8, 40) =~= m.funding_txid);
    assert(d.subrange(40, 44) =~= u32_be(m.funding_vout));
    assert(d.subrange(44, 76) =~= m.revocation_base_key);
    assert(d.subrange(76, 109) =~= m.their_delayed_payment_basepoint);
    assert(d.subrange(109, 111) =~= u16_be(m.to_self_delay));
    assert(d.subrange(111, 113) =~= u16_be(m.destination_script.len() as u16));
    assert(d.subrange(113, p) =~= m.destination_script);
    assert(d.subrange(p, p + 4) =~= u32_be(m.secrets.len() as u32));
    let sb = secrets_bytes(m.secrets);
    assert(d.subrange(p + 4, q) =~= sb);
    assert(d.subrange(q, q + 8) =~= be64(m.latest_update_id));
    assert(d[q + 8] == state_byte(m.state));
    let secrets = decoded_secrets(d, p, n);
    assert forall|i: int| 0 <= i < n implies #[trigger] secrets[i] == m.secrets[i] by {
        assert(d.subrange(p + 4 + 40 * i, p + 12 + 40 * i) =~= sb.subrange(40 * i, 40 * i + 8));
        assert(d.subrange(p + 12 + 40 * i, p + 44 + 40 * i) =~= sb.subrange(40 * i + 8, 40 * i + 40));
        lemma_be64_round_trip(m.secrets[i].0);
    }
    assert(secrets =~= m.secrets);
}

/// The bytes of `d` from `off`, as a 32-byte array.
fn read_array32(d: &[u8], off: usize) -> (r: [u8; 32])
    requires
        off + 32 <= d@.len(),
    ensures
        r@ == d@.subrange(off as int, off + 32),
{
    let len = d.len();
    let mut r: [u8; 32] = [0u8; 32];
    let mut i: usize = 0;
    while i < 32
        invariant
            i <= 32,
            len == d@.len(),
            off + 32 <= d@.len(),
            forall|j: int| 0 <= j < i ==> r@[j] == d@[off + j],
        decreases 32 - i,
    {
        r[i] = d[off + i];
        i = i + 1;
    }
    assert(r@ =~= d@.subrange(off as int, off + 32));
    r
}

/// The bytes of `d` from `off`, as a 33-byte array.
fn read_array33(d: &[u8], off: usize) -> (r: [u8; 33])
    requires
        off + 33 <= d@.len(),
    ensures
        r@ == d@.subrange(off as int, off + 33),
{
    let len = d.len();
    let mut r: [u8; 33] = [0u8; 33];
    let mut i: usize = 0;
    while i < 33
        invariant
            i <= 33,
            len == d@.len(),
            off + 33 <= d@.len(),
            forall|j: int| 0 <= j < i ==> r@[j] == d@[off + j],
        decreases 33 - i,
    {
        r[i] = d[off + i];
        i = i + 1;
    }
    assert(r@ =~= d@.subrange(off as int, off + 33));
    r
}

/// The big-endian 64-bit value at `off`.
fn read_u64(d: &[u8], off: usize) -> (r: u64)
    requires
        off + 8 <= d@.len(),
    ensures
        r == be_u64(d@.subrange(off as int, off + 8)),
{
    (d[off] as u64) << 56u64 | (d[off + 1] as u64) << 48u64 | (d[off + 2] as u64) << 40u64 | (
    d[off + 3] as u64) << 32u64 | (d[off + 4] as u64) << 24u64 | (d[off + 5] as u64) << 16u64 | (
    d[off + 6] as u64) << 8u64 | (d[off + 7] as u64)
}

/// The big-endian 32-bit value at `off`.
fn read_u32(d: &[u8], off: usize) -> (r: u32)
    requires
        off + 4 <= d@.len(),
    ensures
        r == u32_of_be(d@.subrange(off as int, off + 4)),
{
    (d[off] as u32) << 24u32 | (d[off + 1] as u32) << 16u32 | (d[off + 2] as u32) << 8u32 | (d[off
        + 3] as u32)
}

/// The big-endian 16-bit value at `off`.
fn read_u16(d: &[u8], off: usize) -> (r: u16)
    requires
        off + 2 <= d@.len(),
    ensures
        r == u16_of_be(d@.subrange(off as int, off + 2)),
{
    (d[off] as u16) << 8u16 | (d[off + 1] as u16)
}

/// Appends the big-endian bytes of a 32-bit value.
fn push_u32(v: &mut Vec<u8>, x: u32)
    ensures
        final(v)@ == old(v)@ + u32_be(x),
{
    v.push((x >> 24u32) as u8);
    v.push((x >> 16u32) as u8);
    v.push((x >> 8u32) as u8);
    v.push(x as u8);
    assert(v@ =~= old(v)@ + u32_be(x));
}

/// Appends the big-endian bytes of a 16-bit value.
fn push_u16(v: &mut Vec<u8>, x: u16)
    ensures
        final(v)@ == old(v)@ + u16_be(x),
{
    v.push((x >> 8u16) as u8);
    v.push(x as u8);
    assert(v@ =~= old(v)@ + u16_be(x));
}

/// The model of a revealed secret.
pub open spec fn secret_entry(e: (u64, [u8; 32])) -> (u64, Seq<u8>) {
    (e.0, e.1@)
}

/// Why an update was refused. A refused update means the monitor may not hold the channel's
/// latest state: the channel must not go on.
#[derive(Debug, Clone, Copy, PartialEq, Eq, Structural)]
pub enum MonitorUpdateError {
    /// The update's id is not the next one.
    OutOfOrder,
    /// The revealed secret is not a valid key.
    InvalidSecret,
    /// The monitor no longer accepts updates: a breach was seen.
    NotActive,
    /// No room is left for another secret.
    Full,
}

/// One entry of the append-only update log: the counterparty revoked a commitment by
/// revealing its per-commitment secret.
#[derive(Debug, Clone, Copy)]
pub struct ChannelMonitorUpdate {
    /// The position of the update in the log; the first is 1.
    pub update_id: u64,
    /// The commitment number that was revoked.
    pub commitment_number: u64,
    /// The revealed per-commitment secret.
    pub per_commitment_secret: [u8; 32],
}

/// The sum of a sequence of values.
pub open spec fn seq_sum(s: Seq<u64>) -> int
    decreases s.len(),
{
    if s.len() == 0 {
        0
    } else {
        seq_sum(s.drop_last()) + s.last()
    }
}

proof fn lemma_seq_sum_push(s: Seq<u64>, v: u64)
    ensures
        seq_sum(s.push(v)) == seq_sum(s) + v,
{
    assert(s.push(v).drop_last() =~= s);
}

/// The commitment number a transaction spending the funding output stands for.
pub open spec fn commitment_number_of(m: MonitorModel, tx: Tx) -> u64 {
    obscured_number_of(tx.lock_time, tx.input@[0].sequence) ^ m.obscure_factor
}

/// `tx` spends the funding output at a commitment number whose secret was revealed: the
/// counterparty broadcast a revoked state.
pub open spec fn spends_revoked(m: MonitorModel, tx: Tx) -> bool {
    &&& tx.input@.len() == 1
    &&& tx.input@[0].previous_output.txid@ == m.funding_txid
    &&& tx.input@[0].previous_output.vout == m.funding_vout
    &&& exists|j: int|
        0 <= j < m.secrets.len() && (#[trigger] m.secrets[j]).0 == commitment_number_of(m, tx)
}

/// `p` claims, with the keys of the revealed `secret`, only revocable outputs of `tx`, and pays
/// what they hold less `fee_sat` to the destination script.
pub open spec fn penalty_shape(m: MonitorModel, tx: Tx, secret: Seq<u8>, p: Tx, fee_sat: u64) -> bool {
    let pcp = point_of(secret);
    exists|rk: Seq<u8>, dk: Seq<u8>|
        {
            &&& is_derived_revocation_public_key(pcp, point_of(m.revocation_base_key), rk)
            &&& is_derived_public_key(pcp, m.their_delayed_payment_basepoint, dk)
            &&& penalty_spends(tx, p, revokeable_script(rk, m.to_self_delay, dk), secret, m, fee_sat)
        }
}

/// `p` spends outputs of `tx` locked by `script` and signs each with the revocation private
/// key.
pub open spec fn penalty_spends(tx: Tx, p: Tx, script: Seq<u8>, secret: Seq<u8>, m: MonitorModel, fee_sat: u64) -> bool {
    &&& p.input@.len() > 0
    &&& p.output@.len() == 1
    &&& p.output@[0].script_pubkey@ == m.destination_script
    &&& forall|t: int|
        0 <= t < p.input@.len() ==> {
            let inp = #[trigger] p.input@[t];
            let spent = tx.output@[inp.previous_output.vout as int];
            &&& inp.previous_output.txid@ == txid_of(skeleton(tx))
            &&& inp.previous_output.vout < tx.output@.len()
            &&& spent.script_pubkey@ == p2wsh_of(script)
            &&& inp.witness@.len() == 3
            &&& inp.witness@[0]@ == ecdsa_der_of(
                segwit_sighash_of(skeleton(p), t as nat, script, spent.value),
                derived_revocation_private_key(secret, m.revocation_base_key),
            ).push(1u8)
            &&& inp.witness@[2]@ == script
        }
}

/// `p` is a penalty transaction for the revoked transaction `tx`.
pub open spec fn is_penalty_for(m: MonitorModel, tx: Tx, p: Tx, fee_sat: u64) -> bool {
    exists|j: int|
        0 <= j < m.secrets.len() && (#[trigger] m.secrets[j]).0 == commitment_number_of(m, tx)
            && penalty_shape(m, tx, m.secrets[j].1, p, fee_sat)
}

/// The revocable script of the revoked commitment whose per-commitment secret is `secret`,
/// for the counterparty's delayed-payment base secret `dsec`.
pub open spec fn penalty_script(m: MonitorModel, secret: Seq<u8>, dsec: Seq<u8>) -> Seq<u8> {
    let pcp = point_of(secret);
    revokeable_script(
        point_of(derived_revocation_private_key(secret, m.revocation_base_key)),
        m.to_self_delay,
        point_of(scalar_add(dsec, sha256_of(pcp + m.their_delayed_payment_basepoint))),
    )
}

/// A penalty can be built for `tx` with the revealed `secret`: the revocation and delayed
/// keys derive, some output of `tx` is locked by the revocable script, and what such outputs
/// hold exceeds the fee.
pub open spec fn penalty_possible(m: MonitorModel, tx: Tx, secret: Seq<u8>, dsec: Seq<u8>, fee_sat: u64) -> bool {
    let idx = revocable_outputs(tx.output@, p2wsh_of(penalty_script(m, secret, dsec)));
    let total = seq_sum(values_at(tx.output@, idx));
    &&& revocation_key_derives(secret, m.revocation_base_key)
    &&& public_key_derives(point_of(secret), m.their_delayed_payment_basepoint, dsec)
    &&& tx.output@.len() <= 0xffff_ffff
    &&& idx.len() > 0
    &&& fee_sat < total <= u64::MAX
}

/// The index of the first revealed secret of commitment number `n`, or the length of `s`.
pub open spec fn first_match(s: Seq<(u64, Seq<u8>)>, n: u64) -> int
    decreases s.len(),
{
    if s.len() == 0 {
        0
    } else if s[0].0 == n {
        0
    } else {
        1 + first_match(s.drop_first(), n)
    }
}

proof fn lemma_first_match(s: Seq<(u64, Seq<u8>)>, n: u64, j: int)
    requires
        0 <= j < s.len(),
        s[j].0 == n,
        forall|i: int| 0 <= i < j ==> #[trigger] s[i].0 != n,
    ensures
        first_match(s, n) == j,
    decreases j,
{
    if j > 0 {
        let t = s.drop_first();
        assert forall|i: int| 0 <= i < j - 1 implies #[trigger] t[i].0 != n by {
            assert(t[i] == s[i + 1]);
        }
        assert(s[0].0 != n);
        lemma_first_match(t, n, j - 1);
    }
}

/// Whether two byte strings are equal.
fn bytes_equal(a: &[u8], b: &[u8]) -> (r: bool)
    ensures
        r == (a@ == b@),
{
    if a.len() != b.len() {
        return false;
    }
    let mut i: usize = 0;
    while i < a.len()
        invariant
            a@.len() == b@.len(),
            i <= a@.len(),
            forall|j: int| 0 <= j < i ==> a@[j] == b@[j],
        decreases a@.len() - i,
    {
        if a[i] != b[i] {
            return false;
        }
        i = i + 1;
    }
    assert(a@ =~= b@);
    true
}

/// A copy of a byte vector.
fn copy_bytes(v: &Vec<u8>) -> (r: Vec<u8>)
    ensures
        r@ == v@,
{
    let mut out: Vec<u8> = Vec::new();
    out.extend_from_slice(v.as_slice());
    out
}

/// The indices of the outputs locked by `spk`, in order.
pub open spec fn revocable_outputs(outputs: Seq<TxOutput>, spk: Seq<u8>) -> Seq<int>
    decreases outputs.len(),
{
    if outputs.len() == 0 {
        Seq::empty()
    } else {
        let rest = revocable_outputs(outputs.drop_last(), spk);
        if outputs.last().script_pubkey@ == spk {
            rest.push(outputs.len() - 1)
        } else {
            rest
        }
    }
}

/// The values of the outputs at `idx`.
pub open spec fn values_at(outputs: Seq<TxOutput>, idx: Seq<int>) -> Seq<u64> {
    Seq::new(idx.len(), |j: int| outputs[idx[j]].value)
}

proof fn lemma_revocable_outputs(outputs: Seq<TxOutput>, spk: Seq<u8>)
    ensures
        forall|j: int|
            0 <= j < revocable_outputs(outputs, spk).len() ==> {
                let k = #[trigger] revocable_outputs(outputs, spk)[j];
                0 <= k < outputs.len() && outputs[k].script_pubkey@ == spk
            },
    decreases outputs.len(),
{
    if outputs.len() > 0 {
        let rest = revocable_outputs(outputs.drop_last(), spk);
        lemma_revocable_outputs(outputs.drop_last(), spk);
        assert forall|j: int| 0 <= j < revocable_outputs(outputs, spk).len() implies {
            let k = #[trigger] revocable_outputs(outputs, spk)[j];
            0 <= k < outputs.len() && outputs[k].script_pubkey@ == spk
        } by {
            if j < rest.len() {
                assert(revocable_outputs(outputs, spk)[j] == rest[j]);
                assert(outputs.drop_last()[rest[j]] == outputs[rest[j]]);
            }
        }
    }
}

/// Builds the penalty transaction that claims, with `revocation_secret`, every output of
/// `revoked_tx` (whose id is `revoked_txid`) locked by the pay-to-witness-script-hash of
/// `script`, and pays their total less `fee_sat` to `destination_script`. Returns `None` where
/// no output is locked so, or the total does not exceed the fee.
pub fn build_penalty_transaction(
    revoked_tx: &Tx,
    revoked_txid: &[u8; 32],
    script: &Vec<u8>,
    revocation_secret: &[u8; 32],
    destination_script: &Vec<u8>,
    fee_sat: u64,
) -> (r: Option<Tx>)
    requires
        valid_secret(revocation_secret@),
        revoked_tx.output@.len() <= 0xffff_ffff,
    ensures
        ({
            let idx = revocable_outputs(revoked_tx.output@, p2wsh_of(script@));
            let total = seq_sum(values_at(revoked_tx.output@, idx));
            &&& r is Some <==> (idx.len() > 0 && fee_sat < total <= u64::MAX)
            &&& r matches Some(p) ==> {
                &&& p.version == 2
                &&& p.lock_time == 0
                &&& p.output@.len() == 1
                &&& p.output@[0].value == total - fee_sat
                &&& p.output@[0].script_pubkey@ == destination_script@
                &&& p.input@.len() == idx.len()
                &&& forall|t: int|
                    0 <= t < p.input@.len() ==> {
                        let inp = #[trigger] p.input@[t];
                        &&& inp.previous_output.txid@ == revoked_txid@
                        &&& inp.previous_output.vout as int == idx[t]
                        &&& inp.sequence == 0xffff_ffffu32
                        &&& inp.witness@.len() == 3
                        &&& inp.witness@[0]@ == ecdsa_der_of(
                            segwit_sighash_of(
                                skeleton(p),
                                t as nat,
                                script@,
                                revoked_tx.output@[idx[t]].value,
                            ),
                            revocation_secret@,
                        ).push(1u8)
                        &&& inp.witness@[1]@ == seq![1u8]
                        &&& inp.witness@[2]@ == script@
                    }
            }
        }),
{
    let spk = to_p2wsh(script.as_slice());
    let ghost outs = revoked_tx.output@;
    let mut inputs: Vec<TxInput> = Vec::new();
    let mut values: Vec<u64> = Vec::new();
    let mut total: u64 = 0;
    let mut overflow: bool = false;
    let n = revoked_tx.output.len();
    let mut k: usize = 0;
    while k < n
        invariant
            n == outs.len(),
            outs == revoked_tx.output@,
            n <= 0xffff_ffff,
            k <= n,
            inputs@.len() == values@.len(),
            inputs@.len() == revocable_outputs(outs.take(k as int), spk@).len(),
            values@ == values_at(outs, revocable_outputs(outs.take(k as int), spk@)),
            !overflow ==> total as int == seq_sum(values@),
            overflow ==> seq_sum(values@) > u64::MAX,
            forall|j: int|
                0 <= j < inputs@.len() ==> {
                    let inp = #[trigger] inputs@[j];
                    &&& inp.previous_output.txid@ == revoked_txid@
                    &&& inp.previous_output.vout as int == revocable_outputs(outs.take(k as int), spk@)[j]
                    &&& inp.sequence == 0xffff_ffffu32
                    &&& inp.witness@.len() == 0
                },
        decreases n - k,
    {
        let ghost before = revocable_outputs(outs.take(k as int), spk@);
        proof {
            assert(outs.take(k + 1).drop_last() =~= outs.take(k as int));
            assert(outs.take(k + 1).last() == outs[k as int]);
        }
        if bytes_equal(revoked_tx.output[k].script_pubkey.as_slice(), spk.as_slice()) {
            let v = revoked_tx.output[k].value;
            proof {
                lemma_seq_sum_push(values@, v);
                assert(revocable_outputs(outs.take(k + 1), spk@) == before.push(k as int));
                assert(values@.push(v) =~= values_at(outs, before.push(k as int)));
            }
            if overflow || total > u64::MAX - v {
                overflow = true;
            } else {
                total = total + v;
            }
            values.push(v);
            inputs.push(
                TxInput {
                    previous_output: OutPoint { txid: *revoked_txid, vout: k as u32 },
                    sequence: 0xffff_ffffu32,
                    witness: Vec::new(),
                },
            );
        } else {
            proof {
                assert(revocable_outputs(outs.take(k + 1), spk@) == before);
            }
        }
        k = k + 1;
    }
    assert(outs.take(n as int) =~= outs);
    if inputs.len() == 0 || overflow || total <= fee_sat {
        return None;
    }
    let mut outputs: Vec<TxOutput> = Vec::new();
    outputs.push(TxOutput { value: total - fee_sat, script_pubkey: copy_bytes(destination_script) });
    let unsigned = Tx { version: 2, lock_time: 0, input: inputs, output: outputs };
    let mut signed_inputs: Vec<TxInput> = Vec::new();
    let m_in = unsigned.input.len();
    let mut j: usize = 0;
    while j < m_in
        invariant
            m_in == unsigned.input@.len(),
            m_in == values@.len(),
            j <= m_in,
            signed_inputs@.len() == j,
            valid_secret(revocation_secret@),
            forall|t: int|
                0 <= t < j ==> {
                    let si = #[trigger] signed_inputs@[t];
                    &&& si.previous_output == unsigned.input@[t].previous_output
                    &&& si.sequence == unsigned.input@[t].sequence
                    &&& si.witness@.len() == 3
                    &&& si.witness@[0]@ == ecdsa_der_of(
                        segwit_sighash_of(skeleton(unsigned), t as nat, script@, values@[t]),
                        revocation_secret@,
                    ).push(1u8)
                    &&& si.witness@[1]@ == seq![1u8]
                    &&& si.witness@[2]@ == script@
                },
        decreases m_in - j,
    {
        let sighash = segwit_sighash(&unsigned, j, script.as_slice(), values[j]);
        let mut sig = ecdsa_sign(&sighash, revocation_secret);
        sig.push(1u8);
        let mut one: Vec<u8> = Vec::new();
        one.push(1u8);
        assert(one@ =~= seq![1u8]);
        let mut witness: Vec<Vec<u8>> = Vec::new();
        witness.push(sig);
        witness.push(one);
        witness.push(copy_bytes(script));
        let prev = unsigned.input[j].previous_output;
        signed_inputs.push(TxInput { previous_output: prev, sequence: unsigned.input[j].sequence, witness });
        j = j + 1;
    }
    let signed = Tx { version: 2, lock_time: 0, input: signed_inputs, output: unsigned.output };
    proof {
        assert(skeleton(signed).2 =~= skeleton(unsigned).2);
        assert(skeleton(signed) == skeleton(unsigned));
    }
    Some(signed)
}

/// Per-channel monitor of the counterparty's revoked commitment transactions.
pub struct ChannelMonitor {
    obscure_factor: u64,
    funding_outpoint: OutPoint,
    revocation_base_key: [u8; 32],
    their_delayed_payment_basepoint: [u8; 33],
    to_self_delay: u16,
    destination_script: Vec<u8>,
    secrets: Vec<(u64, [u8; 32])>,
    latest_update_id: u64,
    state: MonitorState,
}

impl ChannelMonitor {
    /// The contents of the monitor.
    pub closed spec fn model(&self) -> MonitorModel {
        MonitorModel {
            obscure_factor: self.obscure_factor,
            funding_txid: self.funding_outpoint.txid@,
            funding_vout: self.funding_outpoint.vout,
            revocation_base_key: self.revocation_base_key@,
            their_delayed_payment_basepoint: self.their_delayed_payment_basepoint@,
            to_self_delay: self.to_self_delay,
            destination_script: self.destination_script@,
            secrets: self.secrets@.map_values(|e: (u64, [u8; 32])| secret_entry(e)),
            latest_update_id: self.latest_update_id,
            state: self.state,
        }
    }

    /// The invariant of a monitor.
    pub open spec fn wf(&self) -> bool {
        model_wf(self.model())
    }

    /// A monitor for a newly funded channel, with no secret revealed yet.
    pub fn new(
        obscure_factor: u64,
        funding_outpoint: OutPoint,
        revocation_base_key: [u8; 32],
        their_delayed_payment_basepoint: [u8; 33],
        to_self_delay: u16,
        destination_script: Vec<u8>,
    ) -> (r: ChannelMonitor)
        requires
            valid_secret(revocation_base_key@),
            destination_script@.len() <= 0xffff,
        ensures
            r.wf(),
            r.model() == (MonitorModel {
                obscure_factor,
                funding_txid: funding_outpoint.txid@,
                funding_vout: funding_outpoint.vout,
                revocation_base_key: revocation_base_key@,
                their_delayed_payment_basepoint: their_delayed_payment_basepoint@,
                to_self_delay,
                destination_script: destination_script@,
                secrets: Seq::empty(),
                latest_update_id: 0,
                state: MonitorState::Active,
            }),
    {
        let r = ChannelMonitor {
            obscure_factor,
            funding_outpoint,
            revocation_base_key,
            their_delayed_payment_basepoint,
            to_self_delay,
            destination_script,
            secrets: Vec::new(),
            latest_update_id: 0,
            state: MonitorState::Active,
        };
        assert(r.model().secrets =~= Seq::<(u64, Seq<u8>)>::empty());
        r
    }

    /// The id of the last update applied.
    pub fn get_latest_update_id(&self) -> (r: u64)
        ensures
            r == self.model().latest_update_id,
    {
        self.latest_update_id
    }

    /// The state of the breach-remedy state machine.
    pub fn get_state(&self) -> (r: MonitorState)
        ensures
            r == self.model().state,
    {
        self.state
    }

    /// The serialized form of the whole monitor, which `read` turns back into it.
    pub fn write_for_disk(&self) -> (r: Vec<u8>)
        requires
            self.wf(),
        ensures
            r@ == encode_model(self.model()),
    {
        let mut out: Vec<u8> = Vec::new();
        out.extend_from_slice(&be64_bytes(self.obscure_factor));
        out.extend_from_slice(&self.funding_outpoint.txid);
        push_u32(&mut out, self.funding_outpoint.vout);
        out.extend_from_slice(&self.revocation_base_key);
        out.extend_from_slice(&self.their_delayed_payment_basepoint);
        push_u16(&mut out, self.to_self_delay);
        push_u16(&mut out, self.destination_script.len() as u16);
        out.extend_from_slice(self.destination_script.as_slice());
        push_u32(&mut out, self.secrets.len() as u32);
        let ghost head = out@;
        let ghost ms = self.model().secrets;
        let n = self.secrets.len();
        let mut i: usize = 0;
        while i < n
            invariant
                n == self.secrets@.len(),
                ms == self.secrets@.map_values(|e: (u64, [u8; 32])| secret_entry(e)),
                i <= n,
                out@ == head + secrets_bytes(ms.take(i as int)),
            decreases n - i,
        {
            let (num, secret) = self.secrets[i];
            proof {
                assert(ms.take(i + 1).drop_last() =~= ms.take(i as int));
                assert(ms.take(i + 1).last() == ms[i as int]);
            }
            out.extend_from_slice(&be64_bytes(num));
            out.extend_from_slice(&secret);
            proof {
                assert(out@ =~= head + secrets_bytes(ms.take(i + 1)));
            }
            i = i + 1;
        }
        assert(ms.take(n as int) =~= ms);
        out.extend_from_slice(&be64_bytes(self.latest_update_id));
        let b: u8 = match self.state {
            MonitorState::Active => 0,
            MonitorState::BreachDetected => 1,
            MonitorState::PenaltyBroadcast => 2,
            MonitorState::Resolved => 3,
        };
        out.push(b);
        assert(out@ =~= encode_model(self.model()));
        out
    }

    /// The part of the monitor that a watchtower needs to detect and punish a breach: the
    /// serialized form without the update-log position and the state.
    pub fn write_for_watchtower(&self) -> (r: Vec<u8>)
        requires
            self.wf(),
        ensures
            r@ == encode_model(self.model()).subrange(0, encode_model(self.model()).len() - 9),
    {
        let mut full = self.write_for_disk();
        let k = full.len() - 9;
        full.truncate(k);
        assert(full@ =~= encode_model(self.model()).subrange(0, encode_model(self.model()).len() - 9));
        full
    }

    /// Reads a monitor from exactly the bytes `write_for_disk` lays out.
    pub fn read(d: &[u8]) -> (r: Result<ChannelMonitor, DecodeError>)
        ensures
            r is Ok <==> decode_model(d@) is Some,
            r matches Ok(m) ==> m.wf() && m.model() == decode_model(d@)->Some_0,
    {
        let len = d.len();
        if len < 113 {
            return Err(DecodeError::ShortRead);
        }
        let l = read_u16(d, 111) as usize;
        let p: usize = 113 + l;
        if len < p + 4 {
            return Err(DecodeError::ShortRead);
        }
        let n32 = read_u32(d, p);
        let rest: usize = len - p - 4;
        if rest < 9 || (rest - 9) % 40 != 0 || (rest - 9) / 40 != n32 as usize {
            return Err(DecodeError::InvalidValue);
        }
        let n: usize = n32 as usize;
        let q: usize = p + 4 + 40 * n;
        assert(q + 9 == len);
        let state = match d[q + 8] {
            0 => MonitorState::Active,
            1 => MonitorState::BreachDetected,
            2 => MonitorState::PenaltyBroadcast,
            3 => MonitorState::Resolved,
            _ => return Err(DecodeError::InvalidValue),
        };
        let revocation_base_key = read_array32(d, 44);
        if !is_valid_secret(&revocation_base_key) {
            return Err(DecodeError::InvalidValue);
        }
        let mut secrets: Vec<(u64, [u8; 32])> = Vec::new();
        let mut i: usize = 0;
        while i < n
            invariant
                len == d@.len(),
                q == p + 4 + 40 * n,
                q + 9 == len,
                u16_of_be(d@.subrange(111, 113)) as int == l,
                p == 113 + l,
                n == n32,
                u32_of_be(d@.subrange(p as int, p + 4)) == n32,
                i <= n,
                secrets@.len() == i,
                forall|j: int|
                    0 <= j < i ==> #[trigger] secret_entry(secrets@[j]) == (
                        be_u64(d@.subrange(p + 4 + 40 * j, p + 12 + 40 * j)),
                        d@.subrange(p + 12 + 40 * j, p + 44 + 40 * j),
                    ),
                forall|j: int| 0 <= j < i ==> valid_secret(#[trigger] secrets@[j].1@),
            decreases n - i,
        {
            assert(p + 44 + 40 * i <= q) by (nonlinear_arith)
                requires
                    i < n,
                    q == p + 4 + 40 * n,
            ;
            let off: usize = p + 4 + 40 * i;
            let num = read_u64(d, off);
            let secret = read_array32(d, off + 8);
            if !is_valid_secret(&secret) {
                proof {
                    let ds = decoded_secrets(d@, p as int, n as int);
                    assert(ds[i as int].1 == secret@);
                    assert(u16_of_be(d@.subrange(111, 113)) as int == l);
                    assert(u32_of_be(d@.subrange(p as int, p + 4)) as int == n);
                    assert(d@.len() == p + 4 + 40 * n + 9);
                    if decode_model(d@) is Some {
                        let dm = decode_model(d@)->Some_0;
                        assert(dm.secrets == ds);
                        assert(valid_secret(dm.secrets[i as int].1));
                    }
                }
                return Err(DecodeError::InvalidValue);
            }
            secrets.push((num, secret));
            i = i + 1;
        }
        let mut destination_script: Vec<u8> = Vec::new();
        destination_script.extend_from_slice(&d[113..p]);
        let m = ChannelMonitor {
            obscure_factor: read_u64(d, 0),
            funding_outpoint: OutPoint { txid: read_array32(d, 8), vout: read_u32(d, 40) },
            revocation_base_key,
            their_delayed_payment_basepoint: read_array33(d, 76),
            to_self_delay: read_u16(d, 109),
            destination_script,
            secrets,
            latest_update_id: read_u64(d, q),
            state,
        };
        proof {
            let spec_m = decode_model(d@);
            let secrets_spec = decoded_secrets(d@, p as int, n as int);
            assert(m.model().secrets =~= secrets_spec);
            assert(m.model().destination_script =~= d@.subrange(113, p as int));
            assert(spec_m is Some);
            assert(m.model() == spec_m->Some_0);
        }
        Ok(m)
    }

    /// Applies the next entry of the update log: records a revealed per-commitment secret.
    /// A refused update leaves the monitor as it was.
    pub fn update_monitor(&mut self, update: &ChannelMonitorUpdate) -> (r: Result<(), MonitorUpdateError>)
        requires
            old(self).wf(),
        ensures
            final(self).wf(),
            ({
                let m = old(self).model();
                if m.state != MonitorState::Active {
                    r == Err::<(), MonitorUpdateError>(MonitorUpdateError::NotActive)
                } else if update.update_id as int != m.latest_update_id + 1 {
                    r == Err::<(), MonitorUpdateError>(MonitorUpdateError::OutOfOrder)
                } else if !valid_secret(update.per_commitment_secret@) {
                    r == Err::<(), MonitorUpdateError>(MonitorUpdateError::InvalidSecret)
                } else if m.secrets.len() >= 0xffff_ffff {
                    r == Err::<(), MonitorUpdateError>(MonitorUpdateError::Full)
                } else {
                    r is Ok
                }
            }),
            r is Err ==> final(self).model() == old(self).model(),
            r is Ok ==> final(self).model() == (MonitorModel {
                secrets: old(self).model().secrets.push(
                    (update.commitment_number, update.per_commitment_secret@),
                ),
                latest_update_id: update.update_id,
                ..old(self).model()
            }),
    {
        match self.state {
            MonitorState::Active => {},
            _ => return Err(MonitorUpdateError::NotActive),
        }
        if self.latest_update_id == u64::MAX || update.update_id != self.latest_update_id + 1 {
            return Err(MonitorUpdateError::OutOfOrder);
        }
        if !is_valid_secret(&update.per_commitment_secret) {
            return Err(MonitorUpdateError::InvalidSecret);
        }
        if self.secrets.len() >= 0xffff_ffff {
            return Err(MonitorUpdateError::Full);
        }
        let ghost before = self.model();
        self.secrets.push((update.commitment_number, update.per_commitment_secret));
        self.latest_update_id = update.update_id;
        proof {
            assert(self.model().secrets =~= before.secrets.push(
                (update.commitment_number, update.per_commitment_secret@),
            ));
            assert forall|i: int| 0 <= i < self.model().secrets.len() implies valid_secret(
                #[trigger] self.model().secrets[i].1,
            ) by {
                if i < before.secrets.len() {
                    assert(self.model().secrets[i] == before.secrets[i]);
                }
            }
        }
        Ok(())
    }

    /// Records that the penalty transaction confirmed, or that the dispute window passed.
    pub fn mark_resolved(&mut self)
        requires
            old(self).wf(),
        ensures
            final(self).wf(),
            final(self).model() == (MonitorModel { state: MonitorState::Resolved, ..old(self).model() }),
    {
        self.state = MonitorState::Resolved;
    }

    /// Looks at a transaction confirmed on chain. Where it spends the funding output at a
    /// commitment number whose secret was revealed, the breach is recorded and the penalty
    /// transaction is built: it claims every revocable output of the revoked transaction with
    /// the revocation key, pays them less `fee_sat` to the destination script, and is handed
    /// back for broadcast.
    pub fn check_spend(&mut self, tx: &Tx, fee_sat: u64) -> (r: Option<Tx>)
        requires
            old(self).wf(),
        ensures
            final(self).wf(),
            ({
                let m = old(self).model();
                if m.state == MonitorState::Active && spends_revoked(m, *tx) {
                    &&& final(self).model() == (MonitorModel {
                        state: if r is Some {
                            MonitorState::PenaltyBroadcast
                        } else {
                            MonitorState::BreachDetected
                        },
                        ..m
                    })
                    &&& r matches Some(p) ==> is_penalty_for(m, *tx, p, fee_sat)
                    &&& forall|dsec: Seq<u8>|
                        valid_secret(dsec) && point_of(dsec) == m.their_delayed_payment_basepoint
                            ==> (r is Some <==> #[trigger] penalty_possible(
                            m,
                            *tx,
                            m.secrets[first_match(m.secrets, commitment_number_of(m, *tx))].1,
                            dsec,
                            fee_sat,
                        ))
                } else {
                    r is None && final(self).model() == m
                }
            }),
    {
        let ghost m = self.model();
        match self.state {
            MonitorState::Active => {},
            _ => return None,
        }
        if tx.input.len() != 1 {
            return None;
        }
        if tx.input[0].previous_output.vout != self.funding_outpoint.vout {
            return None;
        }
        if !bytes_equal(&tx.input[0].previous_output.txid, &self.funding_outpoint.txid) {
            return None;
        }
        let number = get_obscured_commitment_number(tx) ^ self.obscure_factor;
        let n = self.secrets.len();
        let mut i: usize = 0;
        let mut found: bool = false;
        while i < n && !found
            invariant
                n == self.secrets@.len(),
                i <= n,
                m == self.model(),
                found ==> i < n && m.secrets[i as int].0 == number,
                forall|j: int| 0 <= j < i ==> #[trigger] m.secrets[j].0 != number,
            decreases n - i + if found { 0int } else { 1int },
        {
            assert(m.secrets[i as int] == secret_entry(self.secrets@[i as int]));
            if self.secrets[i].0 == number {
                found = true;
            } else {
                i = i + 1;
            }
        }
        if !found {
            return None;
        }
        proof {
            lemma_first_match(m.secrets, number, i as int);
        }
        if tx.output.len() > 0xffff_ffff {
            self.state = MonitorState::BreachDetected;
            return None;
        }
        let secret = self.secrets[i].1;
        assert(m.secrets[i as int] == secret_entry(self.secrets@[i as int]));
        assert(valid_secret(m.secrets[i as int].1));
        let built = self.build_penalty(tx, &secret, fee_sat);
        self.state = MonitorState::BreachDetected;
        proof {
            assert(spends_revoked(m, *tx));
        }
        match built {
            Some(p) => {
                self.state = MonitorState::PenaltyBroadcast;
                proof {
                    assert(is_penalty_for(m, *tx, p, fee_sat));
                }
                Some(p)
            },
            None => None,
        }
    }

    /// Builds the penalty transaction claiming the revocable outputs of `tx`, whose
    /// per-commitment secret is `secret`.
    fn build_penalty(&self, tx: &Tx, secret: &[u8; 32], fee_sat: u64) -> (r: Option<Tx>)
        requires
            self.wf(),
            valid_secret(secret@),
            tx.output@.len() <= 0xffff_ffff,
        ensures
            forall|dsec: Seq<u8>|
                valid_secret(dsec) && point_of(dsec) == self.model().their_delayed_payment_basepoint
                    ==> (r is Some <==> #[trigger] penalty_possible(
                    self.model(),
                    *tx,
                    secret@,
                    dsec,
                    fee_sat,
                )),
            r matches Some(p) ==> penalty_shape(self.model(), *tx, secret@, p, fee_sat),
    {
        let ghost m = self.model();
        let per_commitment_point = public_key_of(secret);
        let revocation_basepoint = public_key_of(&self.revocation_base_key);
        let revocation_key = match derive_public_revocation_key(&per_commitment_point, &revocation_basepoint) {
            Ok(k) => k,
            Err(_) => {
                proof {
                    assert(!revocation_key_derives(secret@, m.revocation_base_key));
                }
                return None;
            },
        };
        let delayed_key = match derive_public_key(&per_commitment_point, &self.their_delayed_payment_basepoint) {
            Ok(k) => k,
            Err(_) => {
                proof {
                    assert forall|dsec: Seq<u8>|
                        valid_secret(dsec) && point_of(dsec) == m.their_delayed_payment_basepoint
                            implies !#[trigger] penalty_possible(m, *tx, secret@, dsec, fee_sat) by {
                        assert(!public_key_derives(point_of(secret@), m.their_delayed_payment_basepoint, dsec));
                    }
                }
                return None;
            },
        };
        let revocation_secret = match derive_private_revocation_key(secret, &self.revocation_base_key) {
            Ok(k) => k,
            Err(_) => return None,
        };
        let script = get_revokeable_redeemscript(&revocation_key, self.to_self_delay, &delayed_key);
        let txid = compute_txid(tx);
        let r = build_penalty_transaction(tx, &txid, &script, &revocation_secret, &self.destination_script, fee_sat);
        proof {
            assert(revocation_key_derives(secret@, m.revocation_base_key));
            assert forall|dsec: Seq<u8>|
                valid_secret(dsec) && point_of(dsec) == m.their_delayed_payment_basepoint implies (r is Some
                    <==> #[trigger] penalty_possible(m, *tx, secret@, dsec, fee_sat)) by {
                let pcp = point_of(secret@);
                assert(public_key_derives(pcp, m.their_delayed_payment_basepoint, dsec));
                assert(delayed_key@ == point_of(
                    scalar_add(dsec, sha256_of(pcp + m.their_delayed_payment_basepoint)),
                ));
                assert(revocation_key@ == point_of(
                    derived_revocation_private_key(secret@, m.revocation_base_key),
                ));
                assert(script@ == penalty_script(m, secret@, dsec));
            }
        }
        proof {
            if r is Some {
                let p = r->Some_0;
                let m = self.model();
                let rk = revocation_key@;
                let dk = delayed_key@;
                assert(per_commitment_point@ == point_of(secret@));
                assert(revocation_basepoint@ == point_of(m.revocation_base_key));
                assert(is_derived_revocation_public_key(point_of(secret@), point_of(m.revocation_base_key), rk));
                assert(is_derived_public_key(point_of(secret@), m.their_delayed_payment_basepoint, dk));
                assert(script@ == revokeable_script(rk, m.to_self_delay, dk));
                let idx = revocable_outputs(tx.output@, p2wsh_of(script@));
                lemma_revocable_outputs(tx.output@, p2wsh_of(script@));
                assert forall|t: int| 0 <= t < p.input@.len() implies {
                    let inp = #[trigger] p.input@[t];
                    let spent = tx.output@[inp.previous_output.vout as int];
                    &&& inp.previous_output.txid@ == txid_of(skeleton(*tx))
                    &&& inp.previous_output.vout < tx.output@.len()
                    &&& spent.script_pubkey@ == p2wsh_of(script@)
                    &&& inp.witness@.len() == 3
                    &&& inp.witness@[0]@ == ecdsa_der_of(
                        segwit_sighash_of(skeleton(p), t as nat, script@, spent.value),
                        derived_revocation_private_key(secret@, m.revocation_base_key),
                    ).push(1u8)
                    &&& inp.witness@[2]@ == script@
                } by {
                    assert(idx[t] == p.input@[t].previous_output.vout as int);
                }
                assert(penalty_spends(*tx, p, revokeable_script(rk, m.to_self_delay, dk), secret@, m, fee_sat));
                assert(penalty_shape(m, *tx, secret@, p, fee_sat));
            }
        }
        r
    }
}

} // verus!
