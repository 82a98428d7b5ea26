use axon_web3::network::PeerTag;

#[test]
fn peer_tag_names() {
    assert_eq!(PeerTag::Consensus.str(), "consensus");
    assert_eq!(PeerTag::AlwaysAllow.str(), "always_allow");
    assert_eq!(PeerTag::ban(99).str(), "ban");
    assert_eq!(PeerTag::custom("vip").unwrap().str(), "vip");
}

#[test]
fn custom_tag_refuses_reserved_names() {
    assert!(PeerTag::custom("consensus").is_none());
    assert!(PeerTag::custom("always_allow").is_none());
    assert!(PeerTag::custom("ban").is_none());
    assert!(PeerTag::custom("banned").is_some());
}

#[test]
fn tags_compare_by_name() {
    assert!(PeerTag::ban(5) == PeerTag::ban_key());
    assert!(PeerTag::Consensus != PeerTag::AlwaysAllow);
    assert!(PeerTag::custom("x").unwrap() == PeerTag::custom("x").unwrap());
    assert!(matches!(PeerTag::ban_key(), PeerTag::Ban { until: 0 }));
}
