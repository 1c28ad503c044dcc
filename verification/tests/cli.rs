use fakevpn::cli::Cli;
use fakevpn::keys::{choose_secret_key, default_key_location, stored_secret_key, KeyChoice, KeyLocation};
use fakevpn::server::VpnHandler;
use iroh_base::SecretKey;

fn cli(connect: Option<&str>, tap_ip: Option<&str>) -> Cli {
    Cli {
        device_name: "FC-TAP".to_string(),
        connect: connect.map(|s| s.to_string()),
        tap_ip: tap_ip.map(|s| s.to_string()),
        tap_mtu: 1400,
        key_file: None,
    }
}

#[test]
fn host_defaults_to_first_address() {
    assert_eq!(cli(None, None).tap_ip(), "10.0.0.1");
}

#[test]
fn client_defaults_to_second_address() {
    assert_eq!(cli(Some("anything"), None).tap_ip(), "10.0.0.2");
}

#[test]
fn given_address_wins() {
    assert_eq!(cli(Some("x"), Some("192.168.7.3")).tap_ip(), "192.168.7.3");
    assert_eq!(cli(None, Some("10.9.9.9")).tap_ip(), "10.9.9.9");
}

#[test]
fn host_dials_nobody() {
    assert!(matches!(cli(None, None).parse_connect(), Ok(None)));
}

#[test]
fn client_reads_hex_node_id() {
    let secret = SecretKey::from_bytes(&[7u8; 32]);
    let public = secret.public();
    let text = public.to_string();
    assert_eq!(text.len(), 64);
    let parsed = cli(Some(&text), None).parse_connect().unwrap().unwrap();
    assert_eq!(parsed.bytes(), *public.as_bytes());
    assert_eq!(iroh_base::PublicKey::from_bytes(&parsed.bytes()).unwrap(), public);
}

#[test]
fn client_rejects_text_that_is_no_node_id() {
    assert!(cli(Some("not-a-node-id"), None).parse_connect().is_err());
    assert!(cli(Some(""), None).parse_connect().is_err());
    let bad_hex = "zz".repeat(32);
    assert!(cli(Some(&bad_hex), None).parse_connect().is_err());
}

#[test]
fn handler_takes_options_of_its_role() {
    let c = cli(None, None);
    let h = VpnHandler::from_cli(&c);
    assert_eq!(h.device_name, "FC-TAP");
    assert_eq!(h.tap_ip, "10.0.0.1");
    assert_eq!(h.tap_mtu, 1400);
    let c2 = cli(Some("peer"), None);
    assert_eq!(VpnHandler::from_cli(&c2).tap_ip, "10.0.0.2");
}

#[test]
fn key_file_of_32_bytes_is_reused() {
    let stored: Vec<u8> = (0u8..32).collect();
    assert_eq!(stored_secret_key(&stored).map(|k| k.to_vec()), Some(stored.clone()));
    match choose_secret_key(Some(&stored)) {
        KeyChoice::Stored(k) => assert_eq!(k.to_vec(), stored),
        KeyChoice::Fresh(_) => panic!("a 32-byte key file must be reused"),
    }
    assert!(!choose_secret_key(Some(&stored)).must_be_saved());
}

#[test]
fn key_file_of_wrong_size_is_replaced() {
    assert_eq!(stored_secret_key(&[1u8; 31]), None);
    assert_eq!(stored_secret_key(&[1u8; 33]), None);
    assert_eq!(stored_secret_key(&[]), None);
    let c = choose_secret_key(Some(&[1u8; 31]));
    assert!(matches!(c, KeyChoice::Fresh(_)));
    assert!(c.must_be_saved());
    assert!(choose_secret_key(None).must_be_saved());
}

#[test]
fn saved_key_is_the_next_runs_key() {
    let first = choose_secret_key(None);
    let saved = first.bytes();
    let second = choose_secret_key(Some(&saved));
    assert_eq!(second.bytes(), saved);
    assert!(!second.must_be_saved());
}

#[test]
fn key_location_prefers_the_named_file_then_appdata_then_home() {
    let s = |x: &str| Some(x.to_string());
    assert_eq!(
        default_key_location(s("/k"), s("A"), s("H")),
        Some(KeyLocation::Given("/k".to_string()))
    );
    assert_eq!(
        default_key_location(None, s("A"), s("H")),
        Some(KeyLocation::UnderAppData("A".to_string()))
    );
    assert_eq!(
        default_key_location(None, None, s("H")),
        Some(KeyLocation::UnderHome("H".to_string()))
    );
    assert_eq!(default_key_location(None, None, None), None);
    assert_eq!(KeyLocation::Given("/k".to_string()).dir_name(), None);
    assert_eq!(KeyLocation::UnderAppData("A".to_string()).dir_name(), Some("fakevpn"));
    assert_eq!(KeyLocation::UnderHome("H".to_string()).dir_name(), Some(".fakevpn"));
}
