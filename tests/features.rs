use lightning_channel::features::{ChannelFeatures, Features, InitFeatures, NodeFeatures};

#[test]
fn sanity_test_our_features() {
    assert!(!ChannelFeatures::supported().requires_unknown_bits());
    assert!(!ChannelFeatures::supported().supports_unknown_bits());
    assert!(!InitFeatures::supported().requires_unknown_bits());
    assert!(!InitFeatures::supported().supports_unknown_bits());
    assert!(!NodeFeatures::supported().requires_unknown_bits());
    assert!(!NodeFeatures::supported().supports_unknown_bits());

    assert!(InitFeatures::supported().supports_upfront_shutdown_script());
    assert!(NodeFeatures::supported().supports_upfront_shutdown_script());

    assert!(InitFeatures::supported().supports_data_loss_protect());
    assert!(NodeFeatures::supported().supports_data_loss_protect());

    assert!(InitFeatures::supported().supports_variable_length_onion());
    assert!(NodeFeatures::supported().supports_variable_length_onion());

    let mut init_features = InitFeatures::supported();
    init_features.set_initial_routing_sync();
    assert!(!init_features.requires_unknown_bits());
    assert!(!init_features.supports_unknown_bits());
}

#[test]
fn sanity_test_unkown_bits_testing() {
    let mut features = ChannelFeatures::supported();
    features.set_require_unknown_bits();
    assert!(features.requires_unknown_bits());
    features.clear_require_unknown_bits();
    assert!(!features.requires_unknown_bits());
}

#[test]
fn test_node_with_known_relevant_init_flags() {
    let mut init_features = InitFeatures::supported();
    init_features.set_initial_routing_sync();

    let res = NodeFeatures::with_known_relevant_init_flags(&init_features);

    assert_eq!(res.le_flags()[0], 0b00100010);
    assert_eq!(res.le_flags()[1], 0b00000010);
    assert_eq!(res.le_flags().len(), 2);

    let new_features: InitFeatures = Features::from_le_bytes(res.le_flags().clone());
    assert!(!new_features.initial_routing_sync());
}

#[test]
fn features_round_trip_empty() {
    let f: InitFeatures = Features::empty();
    let bytes = f.write();
    assert_eq!(bytes, vec![0u8, 0u8]);
    let (back, used) = InitFeatures::read(&bytes).unwrap();
    assert!(back.eq(&f));
    assert_eq!(used, 2);
}

#[test]
fn features_round_trip_supported() {
    let f = NodeFeatures::supported();
    let bytes = f.write();
    assert_eq!(bytes, vec![0u8, 2, 0b0000_0010, 0b0010_0010]);
    let (back, used) = NodeFeatures::read(&bytes).unwrap();
    assert!(back.eq(&f));
    assert_eq!(used, 4);
}

#[test]
fn features_round_trip_unknown_high_bit() {
    let f: ChannelFeatures = Features::from_le_bytes(vec![0, 0, 0, 0b1000_0000]);
    assert!(f.supports_unknown_bits());
    assert!(!f.requires_unknown_bits());
    let bytes = f.write();
    assert_eq!(bytes, vec![0u8, 4, 0b1000_0000, 0, 0, 0]);
    let (back, _) = ChannelFeatures::read(&bytes).unwrap();
    assert!(back.eq(&f));
    assert_eq!(back.le_flags(), &vec![0, 0, 0, 0b1000_0000]);
}

#[test]
fn features_read_short_input() {
    assert!(InitFeatures::read(&[0u8]).is_err());
    assert!(InitFeatures::read(&[0u8, 3, 1, 2]).is_err());
}

#[test]
fn features_or_and_write_up_to_13() {
    let a: InitFeatures = Features::from_le_bytes(vec![0b0000_0001]);
    let b: InitFeatures = Features::from_le_bytes(vec![0b0000_0010, 0b1100_0001, 7]);
    let c = a.or(b);
    assert_eq!(c.le_flags(), &vec![0b0000_0011, 0b1100_0001, 7]);
    assert_eq!(c.write_up_to_13(), vec![0u8, 2, 0b0000_0001, 0b0000_0011]);
    assert_eq!(c.byte_count(), 3);
}

#[test]
fn features_unset_upfront_shutdown_script() {
    let mut f = InitFeatures::supported();
    f.unset_upfront_shutdown_script();
    assert!(!f.supports_upfront_shutdown_script());
    let chan = ChannelFeatures::with_known_relevant_init_flags(&f);
    assert_eq!(chan.byte_count(), 0);
}
