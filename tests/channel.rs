use lightning_channel::commitment::build_commitment_transaction;
use lightning_channel::keys::{build_commitment_secret, TxCreationKeys};
use lightning_channel::local_commitment::LocalCommitmentTransaction;
use lightning_channel::monitor::{build_penalty_transaction, ChannelMonitor, ChannelMonitorUpdate, MonitorState, MonitorUpdateError};
use lightning_channel::payment::PaymentHash;
use lightning_channel::script::{get_revokeable_redeemscript, make_funding_redeemscript, HTLCOutputInCommitment};
use lightning_channel::signer::{check_htlcs_payable, CommitmentGuard, EnforcingChannelKeys, InMemoryChannelKeys};
use lightning_channel::transaction::{
    build_htlc_transaction, get_commitment_transaction_number_obscure_factor, get_obscured_commitment_number, OutPoint, Tx,
};

const TOP: u64 = (1 << 48) - 1;

fn point(secret: &[u8; 32]) -> [u8; 33] {
    let secp = secp256k1::Secp256k1::new();
    let sk = secp256k1::SecretKey::from_slice(secret).unwrap();
    secp256k1::PublicKey::from_secret_key(&secp, &sk).serialize()
}

fn funding() -> OutPoint {
    OutPoint { txid: [0xaa; 32], vout: 0 }
}

fn factor() -> u64 {
    get_commitment_transaction_number_obscure_factor(&point(&[0x16; 32]), &point(&[0x17; 32]))
}

fn their_secret(height: u64) -> [u8; 32] {
    build_commitment_secret(&[0x15; 32], TOP - height)
}

fn keys_at(height: u64) -> TxCreationKeys {
    let pcp = point(&their_secret(height));
    TxCreationKeys::derive_new(&pcp, &point(&[0x12; 32]), &point(&[0x13; 32]), &point(&[0x11; 32]), &point(&[0x14; 32])).unwrap()
}

fn htlc(offered: bool, amount_msat: u64, n: u8) -> HTLCOutputInCommitment {
    HTLCOutputInCommitment { offered, amount_msat, cltv_expiry: 600_000 + n as u32, payment_hash: PaymentHash([n; 32]), transaction_output_index: None }
}

fn commitment_at(height: u64, htlcs: &mut Vec<HTLCOutputInCommitment>) -> Tx {
    let keys = keys_at(height);
    build_commitment_transaction(&funding(), height, factor(), 100_000, 50_000, &keys, 144, &point(&[0x18; 32]), 1, htlcs)
}

fn destination() -> Vec<u8> {
    let mut d = vec![0x00u8, 0x14];
    d.extend_from_slice(&[0x33; 20]);
    d
}

fn new_monitor() -> ChannelMonitor {
    ChannelMonitor::new(factor(), funding(), [0x11; 32], point(&[0x12; 32]), 144, destination())
}

fn signer() -> EnforcingChannelKeys {
    EnforcingChannelKeys::new(InMemoryChannelKeys::new([0x21; 32], [0x22; 32], [0x23; 32], [0x24; 32], [0x14; 32], [0x26; 32]))
}

#[test]
fn commitment_number_is_carried_by_locktime_and_sequence() {
    let mut htlcs = Vec::new();
    let tx = commitment_at(5, &mut htlcs);
    assert_eq!(tx.lock_time >> 24, 0x20);
    assert_eq!(tx.input[0].sequence >> 24, 0x80);
    assert_eq!(get_obscured_commitment_number(&tx) ^ factor(), 5);
    assert_eq!(tx.output.len(), 2);
    assert_eq!(tx.output[0].value, 100_000);
    assert_eq!(tx.output[1].value, 50_000);
}

#[test]
fn commitment_assigns_htlc_indices() {
    let mut htlcs = vec![htlc(true, 500, 1), htlc(true, 10_000, 2), htlc(false, 999, 3), htlc(false, 300_000, 4)];
    let tx = commitment_at(7, &mut htlcs);
    assert_eq!(htlcs[0].transaction_output_index, None);
    assert_eq!(htlcs[1].transaction_output_index, Some(2));
    assert_eq!(htlcs[2].transaction_output_index, None);
    assert_eq!(htlcs[3].transaction_output_index, Some(3));
    assert_eq!(tx.output.len(), 4);
    assert_eq!(tx.output[2].value, 10);
    assert_eq!(tx.output[3].value, 300);
}

#[test]
fn htlc_transaction_fee_and_locktime() {
    let mut h = htlc(true, 1_000_000, 1);
    h.transaction_output_index = Some(2);
    let tx = build_htlc_transaction(&[7; 32], 1000, 144, &h, &point(&[1; 32]), &point(&[2; 32]));
    assert_eq!(tx.output[0].value, 1000 - 663);
    assert_eq!(tx.lock_time, h.cltv_expiry);
    assert_eq!(tx.input[0].previous_output.vout, 2);
    h.offered = false;
    let tx2 = build_htlc_transaction(&[7; 32], 1000, 144, &h, &point(&[1; 32]), &point(&[2; 32]));
    assert_eq!(tx2.output[0].value, 1000 - 703);
    assert_eq!(tx2.lock_time, 0);
}

#[test]
fn guard_accepts_same_or_next_only() {
    let mut g = CommitmentGuard::new();
    let f = 0x1234_5678_9abc;
    assert!(g.accepts(f));
    g.advance(f);
    assert_eq!(g.obscure_factor, Some(f));
    assert_eq!(g.last_signed, 0);
    assert!(g.accepts(f ^ 1));
    g.advance(f ^ 1);
    g.advance(f ^ 2);
    assert_eq!(g.last_signed, 2);
    assert!(g.accepts(f ^ 2));
    assert!(g.accepts(f ^ 3));
    assert!(!g.accepts(f ^ 4));
    assert!(!g.accepts(f ^ 5));
    assert!(!g.accepts(f ^ 0));
    assert!(!g.accepts(f ^ 1));
}

#[test]
fn enforcing_signer_signs_in_order() {
    let mut s = signer();
    let funding_script = make_funding_redeemscript(&point(&[0x21; 32]), &point(&[0x31; 32]));
    for height in [0u64, 1, 1, 2] {
        let mut htlcs = vec![htlc(true, 5_000_000, 1), htlc(false, 100, 2)];
        let tx = commitment_at(height, &mut htlcs);
        assert!(s.can_sign_remote_commitment(&tx));
        let (sig, htlc_sigs) = s.sign_remote_commitment(1_000_000, &funding_script, 253, &tx, &keys_at(height), &htlcs, 144).unwrap();
        assert!(sig.len() > 60);
        assert_eq!(htlc_sigs.len(), 1);
    }
    assert_eq!(s.guard().last_signed, 2);
    let mut none = Vec::new();
    assert!(!s.can_sign_remote_commitment(&commitment_at(0, &mut none)));
    assert!(!s.can_sign_remote_commitment(&commitment_at(4, &mut none)));
    assert!(s.can_sign_remote_commitment(&commitment_at(3, &mut none)));
}

#[test]
fn signer_closing_and_announcement() {
    let s = signer();
    let funding_script = make_funding_redeemscript(&point(&[0x21; 32]), &point(&[0x31; 32]));
    let mut none = Vec::new();
    let tx = commitment_at(0, &mut none);
    let a = s.sign_closing_transaction(1_000_000, &funding_script, &tx).unwrap();
    let b = s.sign_closing_transaction(1_000_000, &funding_script, &tx).unwrap();
    assert_eq!(a, b);
    let empty = Tx { version: 2, lock_time: 0, input: Vec::new(), output: Vec::new() };
    assert!(s.sign_closing_transaction(1_000_000, &funding_script, &empty).is_err());
    let c = s.sign_channel_announcement(b"announcement");
    assert_ne!(c, a);
    assert_eq!(s.inner().funding_key(), &[0x21; 32]);
}

#[test]
fn htlc_sigs_follow_stored_order() {
    let mut htlcs = vec![
        htlc(true, 50_000, 1),
        htlc(true, 2_000_000, 2),
        htlc(false, 3_000_000, 3),
        htlc(false, 70_000, 4),
        htlc(true, 4_000_000, 5),
    ];
    let keys = keys_at(9);
    let tx = build_commitment_transaction(&funding(), 9, factor(), 100_000, 50_000, &keys, 144, &point(&[0x18; 32]), 100, &mut htlcs);
    let data: Vec<(HTLCOutputInCommitment, Option<Vec<u8>>)> = htlcs
        .iter()
        .map(|h| (*h, if h.transaction_output_index.is_some() { Some(vec![0x30, 1, 2]) } else { None }))
        .collect();
    let lct = LocalCommitmentTransaction::new_missing_local_sig(tx, vec![0x30, 9], &point(&[0x21; 32]), &point(&[0x31; 32]), keys, 253, data);
    let sigs = lct.get_htlc_sigs(&[0x12; 32], 144).unwrap();
    assert_eq!(sigs.len(), 5);
    assert!(sigs[0].is_none());
    assert!(sigs[1].is_some());
    assert!(sigs[2].is_some());
    assert!(sigs[3].is_none());
    assert!(sigs[4].is_some());
    assert_ne!(sigs[1], sigs[2]);
    assert_eq!(lct.per_htlc().len(), 5);
    assert_eq!(lct.feerate_per_kw(), 253);
    assert_eq!(lct.their_sig(), &vec![0x30, 9]);
    assert_eq!(lct.trust_key_derivation().per_commitment_point, keys.per_commitment_point);
}

#[test]
fn local_sig_is_idempotent_and_txid_matches() {
    let mut htlcs = vec![htlc(true, 2_000_000, 2)];
    let keys = keys_at(1);
    let tx = commitment_at(1, &mut htlcs);
    let btx = bitcoin::Transaction {
        version: tx.version,
        lock_time: bitcoin::PackedLockTime(tx.lock_time),
        input: vec![bitcoin::TxIn {
            previous_output: bitcoin::OutPoint { txid: bitcoin::hashes::Hash::from_inner(tx.input[0].previous_output.txid), vout: 0 },
            script_sig: bitcoin::Script::new(),
            sequence: bitcoin::Sequence(tx.input[0].sequence),
            witness: bitcoin::Witness::new(),
        }],
        output: tx.output.iter().map(|o| bitcoin::TxOut { value: o.value, script_pubkey: bitcoin::Script::from(o.script_pubkey.clone()) }).collect(),
    };
    let data = vec![(htlcs[0], Some(vec![0x30]))];
    let lct = LocalCommitmentTransaction::new_missing_local_sig(tx, vec![0x30], &point(&[0x21; 32]), &point(&[0x31; 32]), keys, 253, data);
    assert_eq!(lct.txid(), bitcoin::hashes::Hash::into_inner(btx.txid()));
    let funding_script = make_funding_redeemscript(&point(&[0x21; 32]), &point(&[0x31; 32]));
    let a = lct.get_local_sig(&[0x21; 32], &funding_script, 1_000_000);
    let b = lct.get_local_sig(&[0x21; 32], &funding_script, 1_000_000);
    assert_eq!(a, b);
    let c = lct.get_local_sig(&[0x21; 32], &funding_script, 1_000_001);
    assert_ne!(a, c);
}

#[test]
fn monitor_round_trip_and_breach() {
    let mut htlcs = vec![htlc(true, 10_000, 1)];
    let current = commitment_at(5, &mut htlcs);
    assert_eq!(htlcs[0].transaction_output_index, Some(2));

    let mut monitor = new_monitor();
    for height in 0u64..5 {
        let update = ChannelMonitorUpdate { update_id: height + 1, commitment_number: height, per_commitment_secret: their_secret(height) };
        assert!(monitor.update_monitor(&update).is_ok());
    }
    assert_eq!(monitor.get_latest_update_id(), 5);
    let bytes = monitor.write_for_disk();
    let mut restored = ChannelMonitor::read(&bytes).unwrap();
    assert_eq!(restored.write_for_disk(), bytes);
    assert_eq!(restored.get_latest_update_id(), 5);
    assert_eq!(restored.get_state(), MonitorState::Active);
    assert_eq!(monitor.write_for_watchtower(), bytes[..bytes.len() - 9].to_vec());

    assert!(restored.check_spend(&current, 500).is_none());
    assert_eq!(restored.get_state(), MonitorState::Active);

    let mut old_htlcs = vec![htlc(true, 10_000, 1)];
    let revoked = commitment_at(3, &mut old_htlcs);
    let penalty = restored.check_spend(&revoked, 500).unwrap();
    assert_eq!(penalty.input.len(), 1);
    assert_eq!(penalty.input[0].previous_output.vout, 0);
    assert_eq!(penalty.input[0].witness.len(), 3);
    assert_eq!(penalty.output.len(), 1);
    assert_eq!(penalty.output[0].value, 100_000 - 500);
    assert_eq!(penalty.output[0].script_pubkey, destination());
    assert_eq!(restored.get_state(), MonitorState::PenaltyBroadcast);
    restored.mark_resolved();
    assert_eq!(restored.get_state(), MonitorState::Resolved);
}

#[test]
fn monitor_update_errors() {
    let mut monitor = new_monitor();
    let skip = ChannelMonitorUpdate { update_id: 2, commitment_number: 0, per_commitment_secret: their_secret(0) };
    assert_eq!(monitor.update_monitor(&skip), Err(MonitorUpdateError::OutOfOrder));
    let zero = ChannelMonitorUpdate { update_id: 1, commitment_number: 0, per_commitment_secret: [0; 32] };
    assert_eq!(monitor.update_monitor(&zero), Err(MonitorUpdateError::InvalidSecret));
    assert_eq!(monitor.get_latest_update_id(), 0);
    let good = ChannelMonitorUpdate { update_id: 1, commitment_number: 0, per_commitment_secret: their_secret(0) };
    assert!(monitor.update_monitor(&good).is_ok());
    let mut none = Vec::new();
    let revoked = commitment_at(0, &mut none);
    assert!(monitor.check_spend(&revoked, 100).is_some());
    let next = ChannelMonitorUpdate { update_id: 2, commitment_number: 1, per_commitment_secret: their_secret(1) };
    assert_eq!(monitor.update_monitor(&next), Err(MonitorUpdateError::NotActive));
}

#[test]
fn monitor_read_rejects_bad_bytes() {
    let monitor = new_monitor();
    let bytes = monitor.write_for_disk();
    assert!(ChannelMonitor::read(&bytes[..bytes.len() - 1]).is_err());
    let mut bad_state = bytes.clone();
    let last = bad_state.len() - 1;
    bad_state[last] = 9;
    assert!(ChannelMonitor::read(&bad_state).is_err());
    let mut bad_key = bytes.clone();
    for b in &mut bad_key[44..76] {
        *b = 0;
    }
    assert!(ChannelMonitor::read(&bad_key).is_err());
    assert!(ChannelMonitor::read(&[]).is_err());
}

#[test]
fn penalty_transaction_needs_matching_outputs_above_fee() {
    let mut none = Vec::new();
    let keys = keys_at(2);
    let tx = commitment_at(2, &mut none);
    let script = get_revokeable_redeemscript(&keys.revocation_key, 144, &keys.a_delayed_payment_key);
    let other = get_revokeable_redeemscript(&keys.revocation_key, 145, &keys.a_delayed_payment_key);
    let txid = [0x77u8; 32];
    let p = build_penalty_transaction(&tx, &txid, &script, &[0x44; 32], &destination(), 1000).unwrap();
    assert_eq!(p.input.len(), 1);
    assert_eq!(p.input[0].previous_output.txid, txid);
    assert_eq!(p.input[0].witness[1], vec![1u8]);
    assert_eq!(p.input[0].witness[2], script);
    assert_eq!(*p.input[0].witness[0].last().unwrap(), 1u8);
    assert_eq!(p.output[0].value, 99_000);
    assert!(build_penalty_transaction(&tx, &txid, &other, &[0x44; 32], &destination(), 1000).is_none());
    assert!(build_penalty_transaction(&tx, &txid, &script, &[0x44; 32], &destination(), 100_000).is_none());
}

#[test]
fn random_bytes_differ() {
    let a = lightning_channel::rng::rand_u832();
    let b = lightning_channel::rng::rand_u832();
    assert_ne!(a, b);
}

#[test]
fn guard_check_and_advance_leaves_state_on_refusal() {
    let mut g = CommitmentGuard::new();
    let f = 0x0f0f_0f0f_0f0f;
    assert!(g.check_and_advance(f));
    assert!(g.check_and_advance(f ^ 1));
    let before = g;
    assert!(!g.check_and_advance(f ^ 3));
    assert_eq!(g, before);
    assert!(g.check_and_advance(f ^ 2));
    assert_eq!(g.last_signed, 2);
}

#[test]
fn htlcs_payable_check() {
    let mut paid = htlc(true, 1_000_000, 1);
    paid.transaction_output_index = Some(0);
    let mut short = htlc(false, 100_000, 2);
    short.transaction_output_index = Some(1);
    let dust = htlc(false, 10, 3);
    assert!(check_htlcs_payable(&[paid, dust], 1000));
    assert!(!check_htlcs_payable(&[paid, short], 1000));
    assert!(check_htlcs_payable(&[short], 100));
}
