use rustls_pki_types::CertificateDer;
use servo_ws_net::connector::{
    CACertificates, CertificateErrorOverrideManager, Endpoint, HostAddress, OverrideLists,
    Resolution, ServoDnsResolver, TlsHandshakeInfo, BUF_SIZE,
};

#[test]
fn buffers_hold_32_kib() {
    assert_eq!(BUF_SIZE, 32768);
}

fn certificate(byte: u8) -> CertificateDer<'static> {
    CertificateDer::from(vec![0x30, byte])
}

fn shown(lists: &[Vec<CertificateDer<'static>>]) -> String {
    format!("OverrideLists {{ lists: {:?} }}", lists)
}

#[test]
fn overrides_are_kept_in_order() {
    let mut lists = OverrideLists::new();
    assert_eq!(format!("{:?}", lists), shown(&[]));
    assert_eq!(format!("{:?}", OverrideLists::default()), shown(&[]));
    let manager = CertificateErrorOverrideManager::new(&mut lists);
    assert_eq!(format!("{:?}", lists), shown(&[vec![]]));
    manager.add_override(&mut lists, &certificate(1));
    manager.add_override(&mut lists, &certificate(2));
    manager.add_override(&mut lists, &certificate(1));
    let expected = vec![certificate(1), certificate(2), certificate(1)];
    assert_eq!(format!("{:?}", lists), shown(&[expected]));
}

#[test]
fn clones_of_a_manager_share_its_list() {
    let mut lists = OverrideLists::new();
    let manager = CertificateErrorOverrideManager::new(&mut lists);
    manager.add_override(&mut lists, &certificate(1));
    let clone = manager.clone();
    let fresh = CertificateErrorOverrideManager::new(&mut lists);
    clone.add_override(&mut lists, &certificate(2));
    manager.add_override(&mut lists, &certificate(3));
    let shared = vec![certificate(1), certificate(2), certificate(3)];
    assert_eq!(format!("{:?}", lists), shown(&[shared.clone(), vec![]]));
    fresh.add_override(&mut lists, &certificate(4));
    assert_eq!(format!("{:?}", lists), shown(&[shared, vec![certificate(4)]]));
}

#[test]
fn platform_certificates_are_the_default() {
    assert!(matches!(CACertificates::default(), CACertificates::Default));
    let own = CACertificates::Override(vec![CertificateDer::from(vec![1])]);
    assert!(matches!(own, CACertificates::Override(list) if list.len() == 1));
}

#[test]
fn a_listed_host_resolves_to_its_entry_with_port_zero() {
    let resolver = ServoDnsResolver::new();
    let entry = HostAddress::V4([127, 0, 0, 1]);
    match resolver.resolve("example.test".to_string(), Some(entry)) {
        Resolution::Fixed(endpoints) => {
            assert_eq!(endpoints, vec![Endpoint { host: entry, port: 0 }])
        },
        Resolution::Fallback(_) => panic!("the entry was not used"),
    }
    let entry = HostAddress::V6([0, 0, 0, 0, 0, 0, 0, 0, 0, 0, 0, 0, 0, 0, 0, 1]);
    match resolver.resolve("example.test".to_string(), Some(entry)) {
        Resolution::Fixed(endpoints) => {
            assert_eq!(endpoints, vec![Endpoint { host: entry, port: 0 }])
        },
        Resolution::Fallback(_) => panic!("the entry was not used"),
    }
}

#[test]
fn an_unlisted_host_falls_back_under_its_own_name() {
    match ServoDnsResolver::new().resolve("example.test".to_string(), None) {
        Resolution::Fallback(name) => assert_eq!(name, "example.test"),
        Resolution::Fixed(_) => panic!("there is no entry"),
    }
}

#[test]
fn handshake_facts_can_be_copied() {
    let info = TlsHandshakeInfo {
        protocol_version: Some("TLSv1.3".to_string()),
        cipher_suite: None,
        kea_group_name: None,
        signature_scheme_name: None,
        alpn_protocol: Some("h2".to_string()),
        certificate_chain_der: vec![vec![1, 2], vec![3]],
        used_ech: true,
    };
    assert_eq!(format!("{:?}", info.clone()), format!("{:?}", info));
}
