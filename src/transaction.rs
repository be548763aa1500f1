//! Transactions as this crate builds and reads them, their ids and signature hashes, the
//! obscuring of commitment numbers, and the second-stage HTLC transaction.

use crate::crypto::{sha256, sha256_of};
use crate::script::{get_revokeable_redeemscript, revokeable_script, to_p2wsh, p2wsh_of, HTLCOutputInCommitment};
use vstd::prelude::*;

verus! {

/// A reference to an output of an earlier transaction.
#[derive(Debug, Clone, Copy)]
pub struct OutPoint {
    /// The id of the transaction, in the byte order of its hash.
    pub txid: [u8; 32],
    /// The index of the output.
    pub vout: u32,
}

/// A transaction input. Every input this crate builds spends a segwit output, so its
/// scriptSig is empty.
#[derive(Debug, Clone)]
pub struct TxInput {
    /// The output spent.
    pub previous_output: OutPoint,
    /// The sequence number.
    pub sequence: u32,
    /// The witness stack; empty while the transaction is unsigned.
    pub witness: Vec<Vec<u8>>,
}

/// A transaction output.
#[derive(Debug, Clone)]
pub struct TxOutput {
    /// The value in satoshis.
    pub value: u64,
    /// The output script.
    pub script_pubkey: Vec<u8>,
}

/// A transaction.
#[derive(Debug, Clone)]
pub struct Tx {
    /// The version.
    pub version: i32,
    /// The lock time.
    pub lock_time: u32,
    /// The inputs.
    pub input: Vec<TxInput>,
    /// The outputs.
    pub output: Vec<TxOutput>,
}

/// What a transaction's id and signature hashes depend on: version, lock time, for each input
/// the spent txid, output index and sequence, and for each output the value and script.
pub type TxSkeleton = (i32, u32, Seq<(Seq<u8>, u32, u32)>, Seq<(u64, Seq<u8>)>);

/// The skeleton of an input.
pub open spec fn input_skeleton(i: TxInput) -> (Seq<u8>, u32, u32) {
    (i.previous_output.txid@, i.previous_output.vout, i.sequence)
}

/// The skeleton of an output.
pub open spec fn output_skeleton(o: TxOutput) -> (u64, Seq<u8>) {
    (o.value, o.script_pubkey@)
}

/// The skeleton of a transaction: it without its witnesses.
pub open spec fn skeleton(tx: Tx) -> TxSkeleton {
    (
        tx.version,
        tx.lock_time,
        tx.input@.map_values(|i: TxInput| input_skeleton(i)),
        tx.output@.map_values(|o: TxOutput| output_skeleton(o)),
    )
}

/// The id of a transaction: the double SHA-256 of its serialization without witnesses.
pub uninterp spec fn txid_of(tx: TxSkeleton) -> Seq<u8>;

/// The BIP-143 signature hash (SIGHASH_ALL) of input `input_index` spending an output of
/// `value` satoshis locked by `script_code`.
pub uninterp spec fn segwit_sighash_of(
    tx: TxSkeleton,
    input_index: nat,
    script_code: Seq<u8>,
    value: u64,
) -> Seq<u8>;

#[verifier::external_type_specification]
#[verifier::external_body]
pub struct ExBitcoinTransaction(bitcoin::Transaction);

#[verifier::external_type_specification]
#[verifier::external_body]
pub struct ExBitcoinTxIn(bitcoin::TxIn);

#[verifier::external_type_specification]
#[verifier::external_body]
pub struct ExBitcoinTxOut(bitcoin::TxOut);

/// Converts an input to the bitcoin crate's type, field for field, without its witness.
#[verifier::external_body]
fn to_bitcoin_input(i: &TxInput) -> bitcoin::TxIn {
    bitcoin::TxIn {
        previous_output: bitcoin::OutPoint {
            txid: <bitcoin::Txid as bitcoin::hashes::Hash>::from_inner(i.previous_output.txid),
            vout: i.previous_output.vout,
        },
        script_sig: bitcoin::Script::new(),
        sequence: bitcoin::Sequence(i.sequence),
        witness: bitcoin::Witness::new(),
    }
}

/// Converts an output to the bitcoin crate's type, field for field.
#[verifier::external_body]
fn to_bitcoin_output(o: &TxOutput) -> bitcoin::TxOut {
    bitcoin::TxOut { value: o.value, script_pubkey: bitcoin::Script::from(o.script_pubkey.clone()) }
}

/// Converts a transaction to the bitcoin crate's type, field for field, without witnesses.
#[verifier::external_body]
fn to_bitcoin_tx(tx: &Tx) -> bitcoin::Transaction {
    bitcoin::Transaction {
        version: tx.version,
        lock_time: bitcoin::PackedLockTime(tx.lock_time),
        input: tx.input.iter().map(to_bitcoin_input).collect(),
        output: tx.output.iter().map(to_bitcoin_output).collect(),
    }
}

/// Relies on bitcoin's `Tx::txid`: the double SHA-256 of the transaction serialized
/// without witnesses, as the bytes of the hash.
#[verifier::external_body]
pub(crate) fn compute_txid(tx: &Tx) -> (r: [u8; 32])
    ensures
        r@ == txid_of(skeleton(*tx)),
{
    <bitcoin::Txid as bitcoin::hashes::Hash>::into_inner(to_bitcoin_tx(tx).txid())
}

/// Relies on bitcoin's `SighashCache::segwit_signature_hash` with `EcdsaSighashType::All`: the
/// BIP-143 digest of input `input_index`. It fails only on an input index out of range.
#[verifier::external_body]
pub(crate) fn segwit_sighash(
    tx: &Tx,
    input_index: usize,
    script_code: &[u8],
    value: u64,
) -> (r: [u8; 32])
    requires
        input_index < tx.input@.len(),
    ensures
        r@ == segwit_sighash_of(skeleton(*tx), input_index as nat, script_code@, value),
{
    let btx = to_bitcoin_tx(tx);
    let script = bitcoin::Script::from(script_code.to_vec());
    let mut cache = bitcoin::util::sighash::SighashCache::new(&btx);
    let hash = cache.segwit_signature_hash(input_index, &script, value, bitcoin::EcdsaSighashType::All).unwrap();
    <bitcoin::Sighash as bitcoin::hashes::Hash>::into_inner(hash)
}

/// Weight of an HTLC-timeout transaction, for its fee.
pub const HTLC_TIMEOUT_TX_WEIGHT: u64 = 663;

/// Weight of an HTLC-success transaction, for its fee.
pub const HTLC_SUCCESS_TX_WEIGHT: u64 = 703;

/// The fee of the second-stage transaction of an HTLC: timeout for an offered HTLC, success
/// for a received one.
pub open spec fn htlc_tx_fee(offered: bool, feerate_per_kw: u32) -> nat {
    if offered {
        (feerate_per_kw as nat * 663) / 1000
    } else {
        (feerate_per_kw as nat * 703) / 1000
    }
}

/// The second-stage transaction spending a non-dust HTLC output.
pub open spec fn htlc_transaction_spec(
    tx: Tx,
    prev_hash: Seq<u8>,
    feerate_per_kw: u32,
    to_self_delay: u16,
    htlc: HTLCOutputInCommitment,
    a_delayed_payment_key: Seq<u8>,
    revocation_key: Seq<u8>,
) -> bool {
    &&& tx.version == 2
    &&& tx.lock_time == if htlc.offered {
        htlc.cltv_expiry
    } else {
        0
    }
    &&& tx.input@.len() == 1
    &&& tx.input@[0].previous_output.txid@ == prev_hash
    &&& htlc.transaction_output_index matches Some(idx) && tx.input@[0].previous_output.vout == idx
    &&& tx.input@[0].sequence == 0
    &&& tx.input@[0].witness@.len() == 0
    &&& tx.output@.len() == 1
    &&& tx.output@[0].value == htlc.amount_msat / 1000 - htlc_tx_fee(htlc.offered, feerate_per_kw)
    &&& tx.output@[0].script_pubkey@ == p2wsh_of(
        revokeable_script(revocation_key, to_self_delay, a_delayed_payment_key),
    )
}

/// Builds the unsigned second-stage transaction of a non-dust HTLC: it spends the HTLC output
/// of the commitment transaction `prev_hash` into a revocable output. Its fee is taken from the
/// HTLC's value.
pub fn build_htlc_transaction(
    prev_hash: &[u8; 32],
    feerate_per_kw: u32,
    to_self_delay: u16,
    htlc: &HTLCOutputInCommitment,
    a_delayed_payment_key: &[u8; 33],
    revocation_key: &[u8; 33],
) -> (r: Tx)
    requires
        htlc.transaction_output_index is Some,
        htlc.amount_msat / 1000 >= htlc_tx_fee(htlc.offered, feerate_per_kw),
    ensures
        htlc_transaction_spec(
            r,
            prev_hash@,
            feerate_per_kw,
            to_self_delay,
            *htlc,
            a_delayed_payment_key@,
            revocation_key@,
        ),
{
    let vout = match htlc.transaction_output_index {
        Some(i) => i,
        None => 0,
    };
    let total_fee: u64 = if htlc.offered {
        feerate_per_kw as u64 * HTLC_TIMEOUT_TX_WEIGHT / 1000
    } else {
        feerate_per_kw as u64 * HTLC_SUCCESS_TX_WEIGHT / 1000
    };
    let redeem = get_revokeable_redeemscript(revocation_key, to_self_delay, a_delayed_payment_key);
    let script_pubkey = to_p2wsh(redeem.as_slice());
    let mut input: Vec<TxInput> = Vec::new();
    input.push(
        TxInput {
            previous_output: OutPoint { txid: *prev_hash, vout },
            sequence: 0,
            witness: Vec::new(),
        },
    );
    let mut output: Vec<TxOutput> = Vec::new();
    output.push(TxOutput { value: htlc.amount_msat / 1000 - total_fee, script_pubkey });
    Tx {
        version: 2,
        lock_time: if htlc.offered {
            htlc.cltv_expiry
        } else {
            0
        },
        input,
        output,
    }
}

/// The 48-bit mask that obscures commitment numbers: the last six bytes of
/// SHA256(initiator's payment basepoint || acceptor's payment basepoint), big-endian.
pub open spec fn obscure_factor_of(initiator: Seq<u8>, acceptor: Seq<u8>) -> u64 {
    let h = sha256_of(initiator + acceptor);
    (h[26] as u64) << 40u64 | (h[27] as u64) << 32u64 | (h[28] as u64) << 24u64 | (h[29] as u64)
        << 16u64 | (h[30] as u64) << 8u64 | (h[31] as u64)
}

/// Computes the per-channel mask that obscures commitment numbers.
pub fn get_commitment_transaction_number_obscure_factor(
    initiator_payment_basepoint: &[u8; 33],
    acceptor_payment_basepoint: &[u8; 33],
) -> (r: u64)
    ensures
        r == obscure_factor_of(initiator_payment_basepoint@, acceptor_payment_basepoint@),
        r < 0x1_0000_0000_0000,
{
    let mut data: Vec<u8> = Vec::new();
    data.extend_from_slice(initiator_payment_basepoint);
    data.extend_from_slice(acceptor_payment_basepoint);
    assert(data@ =~= initiator_payment_basepoint@ + acceptor_payment_basepoint@);
    let h = sha256(data.as_slice());
    let (h26, h27, h28, h29, h30, h31) = (h[26], h[27], h[28], h[29], h[30], h[31]);
    let r = (h26 as u64) << 40u64 | (h27 as u64) << 32u64 | (h28 as u64) << 24u64 | (h29 as u64)
        << 16u64 | (h30 as u64) << 8u64 | (h31 as u64);
    assert(((h26 as u64) << 40u64 | (h27 as u64) << 32u64 | (h28 as u64) << 24u64 | (h29 as u64)
        << 16u64 | (h30 as u64) << 8u64 | (h31 as u64)) < 0x1_0000_0000_0000u64) by (bit_vector);
    r
}

/// The lock time that carries the low 24 bits of an obscured commitment number.
pub open spec fn commitment_lock_time(obscured: u64) -> u32 {
    (0x2000_0000u64 | (obscured & 0xff_ffffu64)) as u32
}

/// The sequence that carries bits 24 to 47 of an obscured commitment number.
pub open spec fn commitment_sequence(obscured: u64) -> u32 {
    (0x8000_0000u64 | ((obscured >> 24u64) & 0xff_ffffu64)) as u32
}

/// The obscured commitment number carried by a lock time and a sequence.
pub open spec fn obscured_number_of(lock_time: u32, sequence: u32) -> u64 {
    (lock_time & 0xff_ffffu32) as u64 | ((sequence & 0xff_ffffu32) as u64) << 24u64
}

/// The lock time and sequence of a commitment transaction carry its obscured number back.
pub proof fn lemma_obscured_number_round_trip(obscured: u64)
    requires
        obscured < 0x1_0000_0000_0000,
    ensures
        obscured_number_of(commitment_lock_time(obscured), commitment_sequence(obscured))
            == obscured,
{
    assert(((((0x2000_0000u64 | (obscured & 0xff_ffffu64)) as u32) & 0xff_ffffu32) as u64 | ((((
    0x8000_0000u64 | ((obscured >> 24u64) & 0xff_ffffu64)) as u32) & 0xff_ffffu32) as u64)
        << 24u64) == obscured) by (bit_vector)
        requires
            obscured < 0x1_0000_0000_0000u64,
    ;
}

/// The obscured commitment number of a transaction with one input.
pub fn get_obscured_commitment_number(tx: &Tx) -> (r: u64)
    requires
        tx.input@.len() == 1,
    ensures
        r == obscured_number_of(tx.lock_time, tx.input@[0].sequence),
        r < 0x1_0000_0000_0000,
{
    let lt = tx.lock_time;
    let sq = tx.input[0].sequence;
    assert(((lt & 0xff_ffffu32) as u64 | ((sq & 0xff_ffffu32) as u64) << 24u64)
        < 0x1_0000_0000_0000u64) by (bit_vector);
    (lt & 0xff_ffffu32) as u64 | ((sq & 0xff_ffffu32) as u64) << 24u64
}

} // verus!
