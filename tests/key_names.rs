use sflowrt_flow::key::KeyName;

/// Position of each variant in a list of all of them; the `match` has no
/// wildcard arm, so adding a variant without listing it here fails to compile.
fn variant_index(k: &KeyName) -> usize {
    match k {
        KeyName::IpSource => 0,
        KeyName::IpDestination => 1,
        KeyName::Ip6Offset => 2,
        KeyName::Ip6TOS => 3,
        KeyName::Ip6ECN => 4,
        KeyName::Ip6DSCP => 5,
        KeyName::Ip6DSCPName => 6,
        KeyName::Ip6FlowLabel => 7,
        KeyName::Ip6TTL => 8,
        KeyName::Ip6Source => 9,
        KeyName::Ip6Destination => 10,
        KeyName::Ip6Bytes => 11,
        KeyName::Ip6Extensions => 12,
        KeyName::Ip6FragmentOffset => 13,
        KeyName::Ip6FragmentMFlag => 14,
        KeyName::Ip6NextHeader => 15,
        KeyName::Unknown(_) => 16,
    }
}

/// Number of variants of `KeyName`, the catch-all included.
const KEY_NAME_VARIANTS: usize = 17;

fn all_known_variants() -> Vec<KeyName> {
    vec![
        KeyName::IpSource,
        KeyName::IpDestination,
        KeyName::Ip6Offset,
        KeyName::Ip6TOS,
        KeyName::Ip6ECN,
        KeyName::Ip6DSCP,
        KeyName::Ip6DSCPName,
        KeyName::Ip6FlowLabel,
        KeyName::Ip6TTL,
        KeyName::Ip6Source,
        KeyName::Ip6Destination,
        KeyName::Ip6Bytes,
        KeyName::Ip6Extensions,
        KeyName::Ip6FragmentOffset,
        KeyName::Ip6FragmentMFlag,
        KeyName::Ip6NextHeader,
    ]
}

#[test]
fn test_key_name_mappings() {
    let name_to_variant = KeyName::known_key_names();
    // no catch-all variant in the name table
    for (_, name_variant) in name_to_variant.iter() {
        if let KeyName::Unknown(kn) = name_variant {
            panic!("Found `KeyName::Unknown` variant with key name `{kn}`");
        }
    }
    // name -> variant -> name
    for (name_str, name_variant) in name_to_variant.iter() {
        let inv_str = name_variant
            .to_sflowrt_key_name()
            .expect("every variant of the name table has a canonical name");
        assert_eq!(*name_str, inv_str);
        let inv_inv_variant = KeyName::from_sflowrt_key_name(inv_str)
            .expect("a canonical name resolves to a known variant");
        assert_eq!(name_variant, &inv_inv_variant);
    }
    // variant -> name -> variant
    let mut variant_to_name: Vec<(KeyName, &'static str)> = Vec::new();
    for v in all_known_variants() {
        if let Some(n) = v.to_sflowrt_key_name() {
            variant_to_name.push((v, n));
        }
    }
    for (name_variant, name_str) in variant_to_name.iter() {
        let inv_variant = KeyName::from_sflowrt_key_name(name_str)
            .expect("a canonical name resolves to a known variant");
        assert_eq!(name_variant, &inv_variant);
        let inv_inv_str = inv_variant.to_sflowrt_key_name().expect("known variant has a name");
        assert_eq!(*name_str, inv_inv_str);
    }
    let n2v_len = name_to_variant.len();
    let v2n_len = variant_to_name.len();
    assert_eq!(
        n2v_len, v2n_len,
        "Key name/variant mappings have different lengths. n2v: {n2v_len}, v2n: {v2n_len}"
    );
    // exhaustive over every variant but the catch-all
    let n_non_unknown_variants = KEY_NAME_VARIANTS - 1;
    assert_eq!(n2v_len, n_non_unknown_variants);
    assert_eq!(v2n_len, n_non_unknown_variants);
    let mut seen = vec![false; KEY_NAME_VARIANTS];
    for (_, v) in name_to_variant.iter() {
        let i = variant_index(v);
        assert!(!seen[i], "variant {v:?} listed twice");
        seen[i] = true;
    }
    assert!(!seen[variant_index(&KeyName::Unknown(String::new()))]);
}

#[test]
fn resolve_known_names() {
    assert_eq!(KeyName::resolve("ipsource"), KeyName::IpSource);
    assert_eq!(KeyName::resolve("ipdestination"), KeyName::IpDestination);
    assert_eq!(KeyName::resolve("ip6source"), KeyName::Ip6Source);
    assert_eq!(KeyName::resolve("ip6nexthdr"), KeyName::Ip6NextHeader);
    assert_eq!(KeyName::resolve("ip6_offset"), KeyName::Ip6Offset);
}

#[test]
fn resolve_unknown_names_verbatim() {
    assert_eq!(
        KeyName::resolve("ip5source"),
        KeyName::Unknown("ip5source".to_string())
    );
    assert_eq!(
        KeyName::resolve("unknownkey"),
        KeyName::Unknown("unknownkey".to_string())
    );
    assert_eq!(KeyName::resolve(""), KeyName::Unknown(String::new()));
    assert_eq!(
        KeyName::resolve("IPSOURCE"),
        KeyName::Unknown("IPSOURCE".to_string())
    );
    assert_eq!(KeyName::from_sflowrt_key_name("ipsourc"), None);
    assert_eq!(KeyName::from_sflowrt_key_name("ipsourcee"), None);
}

#[test]
fn catch_all_has_no_canonical_name() {
    assert_eq!(KeyName::Unknown("ip5source".to_string()).to_sflowrt_key_name(), None);
    assert_eq!(KeyName::Unknown("ipsource".to_string()).to_sflowrt_key_name(), None);
    assert_eq!(KeyName::Ip6TTL.to_sflowrt_key_name(), Some("ip6ttl"));
    assert_eq!(KeyName::Ip6FragmentMFlag.to_sflowrt_key_name(), Some("ip6fragm"));
}
