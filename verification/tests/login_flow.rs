use std::sync::Arc;

use minerider::error::{MineRiderError, RetryClass};
use minerider::minecraft::configuration::{
    store_registry, vanilla_dimension_type, Configuration, ConfigurationAction,
    ConfigurationClientbound, ConfigurationData, DimensionType, PacketRegistryData, RegistryEntry,
};
use minerider::minecraft::coverage::{
    class_name, clientbound_coverage, render_matrix, status_name, timing_name, Clientbound,
    ConfigurationPacket, ConformanceStatus, CoverageClass, LoginPacket, PlayPacket, RegistryRow,
    TimingClass, MATRIX_HEADER,
};
use minerider::minecraft::login::{
    encryption_steps, is_valid_username, login_start, react, EncryptionStep, Login, LoginAction,
    LoginClientbound, PacketEncryptionBegin, PremiumIdentity,
};
use minerider::minecraft::nbt::{Nbt, NbtList};
use minerider::minecraft::resource_pack::{
    answer_offer, check_digest, check_response, check_url, is_web_address, report_download,
    trim, verify_body, Download, DownloadFailure, Failure, PacketCommonAddResourcePack,
    MAX_RESOURCE_PACK_BYTES, STATUS_ACCEPTED, STATUS_DECLINED, STATUS_DOWNLOADED,
    STATUS_FAILED_DOWNLOAD, STATUS_INVALID_URL, STATUS_SUCCESSFULLY_LOADED,
};
use minerider::network::connection::{
    connect_timed_out, error_poisons_connection, timed_out, ConnectionState, ConnectionStatus,
    ConnectionTimeouts, Stage,
};
use minerider::network::socks5::{
    encode_target, parse_port, Awaiting, EnvConfigError, EnvVars, IpLiteral, Negotiation,
    ProxyPassword, ProxySocks5Error, Socks5Credentials, Socks5ProxyConfig, Socks5Reply,
    ATYP_DOMAIN, ATYP_IPV4, ATYP_IPV6, CMD_CONNECT, METHOD_NO_ACCEPTABLE, METHOD_NO_AUTH,
    METHOD_USER_PASS, USER_PASS_SUCCESS, USER_PASS_VERSION, VERSION,
};
use sha1::{Digest, Sha1};

fn compound(entries: Vec<(&str, Nbt)>) -> Nbt {
    Nbt::Compound(Arc::new(
        entries.into_iter().map(|(k, v)| (k.to_string(), v)).collect(),
    ))
}

#[test]
fn accepts_vanilla_shaped_usernames() {
    assert!(is_valid_username("Notch"));
    assert!(is_valid_username("a_b_c"));
    assert!(is_valid_username("abc")); // exactly 3, the minimum
    assert!(is_valid_username(&"a".repeat(16))); // exactly 16, the maximum
}

#[test]
fn rejects_out_of_range_length() {
    assert!(!is_valid_username("ab")); // 2 chars, below minimum
    assert!(!is_valid_username(&"a".repeat(17))); // 17 chars, above maximum
    assert!(!is_valid_username(""));
}

#[test]
fn rejects_disallowed_characters() {
    assert!(!is_valid_username("bad name")); // space
    assert!(!is_valid_username("bad-name")); // hyphen
    assert!(!is_valid_username("bäd")); // non-ASCII
}

#[test]
fn a_bad_username_is_named_in_quotes() {
    match login_start("a\"b c", None) {
        Err(MineRiderError::Protocol(text)) => assert_eq!(
            text,
            "invalid username \"a\\\"b c\": must be 3-16 characters, letters/digits/underscore only"
        ),
        other => panic!("expected a protocol error, got {other:?}"),
    }
    let start = login_start("Notch", None).unwrap();
    assert_eq!((start.username.as_str(), start.player_uuid), ("Notch", 0));
    let premium = PremiumIdentity {
        uuid: 7,
        username: "a name the offline rule would refuse".to_string(),
    };
    let start = login_start("x", Some(&premium)).unwrap();
    assert_eq!(start.player_uuid, 7);
    assert_eq!(start.username, premium.username);
}

#[test]
fn login_packets_lead_to_their_actions() {
    match react(LoginClientbound::Disconnect { reason: "full".to_string() }) {
        LoginAction::Fail(MineRiderError::Disconnected(reason)) => assert_eq!(reason, "full"),
        other => panic!("{other:?}"),
    }
    match react(LoginClientbound::Other { id: 0x0c }) {
        LoginAction::Fail(MineRiderError::Protocol(text)) => {
            assert_eq!(text, "unexpected clientbound login packet id 0x0c")
        }
        other => panic!("{other:?}"),
    }
    match react(LoginClientbound::Other { id: -1 }) {
        LoginAction::Fail(MineRiderError::Protocol(text)) => {
            assert_eq!(text, "unexpected clientbound login packet id 0xffffffff")
        }
        other => panic!("{other:?}"),
    }
    assert!(matches!(
        react(LoginClientbound::Compress { threshold: 256 }),
        LoginAction::SetCompression(256)
    ));
    assert!(matches!(
        react(LoginClientbound::PluginRequest { message_id: 3, channel: "x".to_string() }),
        LoginAction::RefusePlugin { message_id: 3 }
    ));
    assert!(matches!(
        react(LoginClientbound::Success { uuid: 9, username: "Notch".to_string() }),
        LoginAction::Finish(s) if s.uuid == 9 && s.username == "Notch"
    ));
}

#[test]
fn login_gives_up_after_sixty_four_packets() {
    let mut login = Login::new();
    for _ in 0..64 {
        login.next_packet().unwrap();
    }
    match login.next_packet() {
        Err(MineRiderError::Protocol(text)) => {
            assert_eq!(text, "login did not complete within 64 packets")
        }
        other => panic!("{other:?}"),
    }
}

#[test]
fn a_session_is_joined_before_the_response() {
    let request = |should_authenticate| PacketEncryptionBegin {
        server_id: String::new(),
        public_key: vec![1],
        verify_token: vec![2],
        should_authenticate,
    };
    assert_eq!(
        encryption_steps(&request(true), true).unwrap(),
        vec![
            EncryptionStep::JoinSession,
            EncryptionStep::Respond,
            EncryptionStep::EnableEncryption
        ]
    );
    assert_eq!(
        encryption_steps(&request(false), true).unwrap(),
        vec![EncryptionStep::Respond, EncryptionStep::EnableEncryption]
    );
    assert!(matches!(
        encryption_steps(&request(true), false),
        Err(MineRiderError::Protocol(text)) if text.contains("no premium session")
    ));
}

fn overworld_tag(min_y: i32, height: i32) -> Nbt {
    compound(vec![
        ("min_y", Nbt::Int(min_y)),
        ("height", Nbt::Int(height)),
        ("logical_height", Nbt::Int(height)),
        ("coordinate_scale", Nbt::Double((1.0f64).to_bits())),
        ("ultrawarm", Nbt::Byte(0)),
        ("has_ceiling", Nbt::Byte(1)),
    ])
}

fn registry(id: &str, entries: Vec<(&str, Option<Nbt>)>) -> PacketRegistryData {
    PacketRegistryData {
        id: id.to_string(),
        entries: entries
            .into_iter()
            .map(|(key, value)| RegistryEntry { key: key.to_string(), value })
            .collect(),
    }
}

fn protocol_text(res: Result<(), MineRiderError>) -> String {
    match res {
        Err(MineRiderError::Protocol(text)) => text,
        other => panic!("expected a protocol error, got {other:?}"),
    }
}

#[test]
fn dimension_registries_are_stored() {
    let mut data = ConfigurationData::default();
    let packet = registry(
        "minecraft:dimension_type",
        vec![
            ("minecraft:overworld", None),
            ("custom:flat", Some(overworld_tag(-32, 64))),
        ],
    );
    store_registry(&mut data, &packet).unwrap();
    assert_eq!(data.dimension_types.len(), 2);
    let first: &DimensionType = &data.dimension_types[0];
    assert_eq!((first.min_y, first.height, first.logical_height), (-64, 384, 384));
    assert_eq!(first.section_count(), 24);
    assert_eq!(first.min_section_y(), -4);
    assert_eq!(f64::from_bits(first.coordinate_scale), 1.0);
    let second = &data.dimension_types[1];
    assert_eq!(second.key, "custom:flat");
    assert_eq!((second.min_y, second.height), (-32, 64));
    assert!(second.has_ceiling && !second.ultrawarm);

    // Other registries are passed over.
    store_registry(&mut data, &registry("minecraft:biome", vec![("x", None)])).unwrap();
    assert_eq!(data.dimension_types.len(), 2);
}

#[test]
fn dimension_registries_are_checked() {
    let mut data = ConfigurationData::default();
    let id = "minecraft:dimension_type";
    assert_eq!(
        protocol_text(store_registry(&mut data, &registry(id, vec![("x:y", None)]))),
        "unknown dimension_type x:y omitted its inline value"
    );
    assert_eq!(
        protocol_text(store_registry(
            &mut data,
            &registry(id, vec![("x:y", Some(overworld_tag(-60, 384)))])
        )),
        "invalid dimension_type bounds for x:y: min_y -60, height 384"
    );
    assert_eq!(
        protocol_text(store_registry(
            &mut data,
            &registry(id, vec![("x:y", Some(overworld_tag(0, 0)))])
        )),
        "invalid dimension_type bounds for x:y: min_y 0, height 0"
    );
    assert_eq!(
        protocol_text(store_registry(
            &mut data,
            &registry(id, vec![("x:y", Some(compound(vec![("min_y", Nbt::Byte(1))])))])
        )),
        "dimension_type min_y must be an int, got Some(Byte(1))"
    );
    assert_eq!(
        protocol_text(store_registry(
            &mut data,
            &registry(id, vec![("x:y", Some(compound(vec![("min_y", Nbt::Int(0))])))])
        )),
        "dimension_type height must be an int, got None"
    );
    // A nether and an end are known by name.
    let nether = vanilla_dimension_type(&"minecraft:the_nether".to_string()).unwrap();
    assert_eq!(f64::from_bits(nether.coordinate_scale), 8.0);
    assert!(nether.ultrawarm && nether.has_ceiling);
    assert!(vanilla_dimension_type(&"minecraft:the_end".to_string()).is_some());
    assert!(vanilla_dimension_type(&"minecraft:moon".to_string()).is_none());
}

#[test]
fn configuration_packets_lead_to_their_actions() {
    let mut c = Configuration::new();
    assert!(matches!(
        c.react(ConfigurationClientbound::KeepAlive { payload: vec![1, 2] }),
        ConfigurationAction::KeepAlive { payload } if payload == vec![1, 2]
    ));
    assert!(matches!(
        c.react(ConfigurationClientbound::Ping { payload: vec![3] }),
        ConfigurationAction::Pong { payload } if payload == vec![3]
    ));
    match c.react(ConfigurationClientbound::SelectKnownPacks) {
        ConfigurationAction::SelectKnownPacks(packs) => {
            assert_eq!(packs.len(), 1);
            assert_eq!(packs[0].namespace, "minecraft");
            assert_eq!(packs[0].id, "core");
            assert_eq!(packs[0].version, "1.21.4");
        }
        _ => panic!("expected the core pack"),
    }
    assert!(matches!(
        c.react(ConfigurationClientbound::Disconnect { reason: Nbt::String("bye".to_string()) }),
        ConfigurationAction::Fail(MineRiderError::Disconnected(reason)) if reason == "bye"
    ));
    assert!(matches!(
        c.react(ConfigurationClientbound::FinishConfiguration),
        ConfigurationAction::Finish
    ));
    assert!(matches!(
        c.react(ConfigurationClientbound::Other { packet: ConfigurationPacket::Tags }),
        ConfigurationAction::Ignore { warn: true }
    ));
    assert!(matches!(
        c.react(ConfigurationClientbound::Other { packet: ConfigurationPacket::ResetChat }),
        ConfigurationAction::Ignore { warn: false }
    ));
    for _ in 0..512 {
        c.next_packet().unwrap();
    }
    assert_eq!(
        protocol_text(c.next_packet()),
        "configuration did not finish within 512 packets"
    );
}

#[test]
fn coverage_entries_say_what_is_owed() {
    let e = clientbound_coverage(Clientbound::Play(PlayPacket::KeepAlive));
    assert_eq!(e.class, CoverageClass::Handled);
    assert_eq!(e.obligation.responds_with, Some("keep_alive"));
    assert_eq!(e.obligation.timing, TimingClass::Strict);
    let e = clientbound_coverage(Clientbound::Login(LoginPacket::CookieRequest));
    assert_eq!(e.class, CoverageClass::Unsupported);
    assert_eq!(e.obligation.status, ConformanceStatus::NotImplemented);
    let e = clientbound_coverage(Clientbound::Play(PlayPacket::Other));
    assert_eq!(e.class, CoverageClass::IntentionallyIgnored);
    assert_eq!(class_name(CoverageClass::Unsupported), "UNSUPPORTED");
    assert_eq!(timing_name(TimingClass::NoResponse), "—");
    assert_eq!(status_name(ConformanceStatus::Partial), "PARTIAL");
}

#[test]
fn the_matrix_has_a_row_per_packet() {
    let row = |id, name: Option<&str>, packet| RegistryRow {
        id,
        name: name.map(str::to_string),
        packet,
    };
    let login = vec![row(2, Some("success"), Clientbound::Login(LoginPacket::Success))];
    let play = vec![row(99, None, Clientbound::Play(PlayPacket::Other))];
    let text = render_matrix(&login, &vec![], &play);
    assert!(text.starts_with(MATRIX_HEADER));
    assert!(text.contains("## Login\n\n| id | packet |"));
    assert!(text.contains(
        "| 2 | success | handled | login_acknowledged | strict | transition to configuration | PARTIAL | offline_login | mock-server + golden tests + Paper 1.21.4 b232; vanilla capture pending |\n"
    ));
    assert!(text.contains("| 99 | UNKNOWN | ignored | — | — | none | NOT IMPLEMENTED |  | none |\n"));
}

fn offer(url: &str, hash: &str) -> PacketCommonAddResourcePack {
    PacketCommonAddResourcePack {
        uuid: 1,
        url: url.to_string(),
        hash: hash.to_string(),
        forced: false,
        prompt_message: None,
    }
}

#[test]
fn rejects_non_http_urls_as_invalid() {
    let pack = offer("file:///tmp/pack.zip", "");
    assert_eq!(check_url(&pack.url), Err(DownloadFailure::InvalidUrl));
    assert_eq!(check_url("not a url"), Err(DownloadFailure::InvalidUrl));
    assert_eq!(check_url("HTTPS://example.org/pack.zip"), Ok(()));
    assert_eq!(check_url("http://127.0.0.1:8080/pack.zip"), Ok(()));
    assert!(!is_web_address("http", false));
}

#[test]
fn downloads_and_verifies_sha1() {
    let body = b"PK\x03\x04fake-resource-pack";
    let hash = format!("{:x}", Sha1::digest(body));
    let size = body.len() as u64;
    assert_eq!(verify_body(body, size, &hash), Ok(size));
    assert_eq!(verify_body(body, size, &format!("  {} \n", hash.to_uppercase())), Ok(size));
    assert_eq!(verify_body(body, size, "   "), Ok(size));
    assert_eq!(
        verify_body(body, size + 1, &hash),
        Err(DownloadFailure::Failed(Failure::InvalidSize))
    );
    assert_eq!(
        verify_body(body, size, "abc"),
        Err(DownloadFailure::Failed(Failure::InvalidSha1Field))
    );
    assert_eq!(
        verify_body(body, size, &"g".repeat(40)),
        Err(DownloadFailure::Failed(Failure::InvalidSha1Field))
    );
    assert_eq!(
        verify_body(body, size, &"0".repeat(40)),
        Err(DownloadFailure::Failed(Failure::Sha1Mismatch))
    );
}

#[test]
fn a_digest_is_held_against_its_writing() {
    let digest: Vec<u8> = (0..20).collect();
    let text: String = digest.iter().map(|b| format!("{b:02X}")).collect();
    assert_eq!(check_digest(&text, &digest), Ok(()));
    assert_eq!(check_digest("", &digest), Ok(()));
    let mut other = digest.clone();
    other[19] = 0;
    assert_eq!(
        check_digest(&text, &other),
        Err(DownloadFailure::Failed(Failure::Sha1Mismatch))
    );
}

#[test]
fn responses_are_bounded() {
    assert_eq!(check_response(true, Some(10)), Ok(10));
    assert_eq!(
        check_response(true, Some(MAX_RESOURCE_PACK_BYTES)),
        Ok(104_857_600)
    );
    assert_eq!(
        check_response(true, Some(MAX_RESOURCE_PACK_BYTES + 1)),
        Err(DownloadFailure::Failed(Failure::TooLarge))
    );
    assert_eq!(
        check_response(true, None),
        Err(DownloadFailure::Failed(Failure::MissingContentLength))
    );
    assert_eq!(
        check_response(false, Some(10)),
        Err(DownloadFailure::Failed(Failure::Status))
    );
    assert_eq!(Failure::TooLarge.reason(), "pack exceeds 100 MiB limit");
}

#[test]
fn every_offer_is_answered() {
    let pack = offer("http://x/", "");
    assert_eq!(answer_offer(&pack, false).result, STATUS_DECLINED);
    assert_eq!(answer_offer(&pack, true).result, STATUS_ACCEPTED);
    let results = |d| -> Vec<i32> { report_download(1, d).iter().map(|r| r.result).collect() };
    assert_eq!(
        results(Download::Done(5)),
        vec![STATUS_DOWNLOADED, STATUS_SUCCESSFULLY_LOADED]
    );
    assert_eq!(
        results(Download::Failed(DownloadFailure::InvalidUrl)),
        vec![STATUS_INVALID_URL]
    );
    assert_eq!(
        results(Download::Failed(DownloadFailure::Failed(Failure::Body))),
        vec![STATUS_FAILED_DOWNLOAD]
    );
    assert_eq!(results(Download::TimedOut), vec![STATUS_FAILED_DOWNLOAD]);
}

#[test]
fn only_timeouts_poison_the_connection() {
    // A timeout leaves the number of bytes actually written to the peer
    // unknown, so it must poison the connection.
    assert!(error_poisons_connection(&MineRiderError::Timeout(
        "writing packet to socket (write_all)".to_string()
    )));
    // Every other error variant isn't specific to "we don't know how much of
    // the frame made it out", so none of them need the extra guard.
    assert!(!error_poisons_connection(&MineRiderError::Io("reset".to_string())));
    assert!(!error_poisons_connection(&MineRiderError::ConnectionClosed));
    assert!(!error_poisons_connection(&MineRiderError::Disconnected(
        "bye".to_string()
    )));
}

#[test]
fn a_write_timeout_closes_the_latch_for_good() {
    let mut s = ConnectionStatus::new(ConnectionTimeouts::default());
    assert_eq!(s.state(), ConnectionState::Handshaking);
    assert_eq!((s.read_timeout, s.write_timeout), (30_000, 30_000));
    assert!(s.after_send(Err(MineRiderError::ConnectionClosed)).is_err());
    assert!(s.check_not_failed().is_ok());
    match s.after_send(Err(timed_out(Stage::Flush))) {
        Err(MineRiderError::Timeout(text)) => assert!(text.contains("flush")),
        other => panic!("{other:?}"),
    }
    assert!(s.is_write_failed());
    assert!(s.after_send(Ok(())).is_ok());
    s.set_state(ConnectionState::Play);
    assert_eq!(s.state(), ConnectionState::Play);
    match s.check_not_failed() {
        Err(MineRiderError::Timeout(text)) => {
            assert_eq!(text, "connection unusable after a previous write timeout")
        }
        other => panic!("{other:?}"),
    }
    match connect_timed_out("example.org", 25565) {
        MineRiderError::Timeout(text) => assert_eq!(text, "connecting to example.org:25565"),
        other => panic!("{other:?}"),
    }
    match timed_out(Stage::WriteAll) {
        MineRiderError::Timeout(text) => assert!(text.contains("write_all")),
        other => panic!("{other:?}"),
    }
    assert!(matches!(s.after_read(0), Err(MineRiderError::ConnectionClosed)));
    assert!(s.after_read(1).is_ok());
}

#[test]
fn password_debug_is_redacted() {
    let secret = ProxyPassword::new("hunter2");
    assert_eq!(secret.redacted(), "ProxyPassword(<redacted>)");
}

#[test]
fn credentials_debug_redacts_username_and_password() {
    let creds = Socks5Credentials::new("alice", "hunter2");
    let text = creds.redacted();
    assert!(!text.contains("alice"));
    assert!(!text.contains("hunter2"));
}

#[test]
fn proxy_config_debug_never_contains_password() {
    let cfg = Socks5ProxyConfig::new("proxy.example", 1080)
        .with_credentials(Socks5Credentials::new("alice", "hunter2"));
    let text = cfg.redacted();
    assert!(!text.contains("hunter2"));
    assert!(text.contains("proxy.example"));
}

#[test]
fn errors_never_contain_a_planted_password() {
    // No error variant has a field that could even hold a password; this
    // checks the rendered text against a distinctive marker as a regression
    // guard, in case a future edit ever threads a credential into one of them.
    const PLANTED: &str = "s3cr3t-marker";
    let endpoint = "proxy.example:1080".to_string();
    let errors: Vec<ProxySocks5Error> = vec![
        ProxySocks5Error::NoAcceptableAuthMethod {
            endpoint: endpoint.clone(),
        },
        ProxySocks5Error::AuthenticationRejected {
            endpoint: endpoint.clone(),
        },
        ProxySocks5Error::ConnectRefused {
            endpoint: endpoint.clone(),
            target: "mc.example:25565".to_string(),
            reply: Socks5Reply::ConnectionRefused,
        },
    ];
    for error in errors {
        assert!(!error.message().contains(PLANTED));
        assert!(!format!("{error:?}").contains(PLANTED));
    }
}

fn proxy(credentials: Option<(&str, &str)>) -> Socks5ProxyConfig {
    let cfg = Socks5ProxyConfig::new("p", 1);
    match credentials {
        Some((u, p)) => cfg.with_credentials(Socks5Credentials::new(u, p)),
        None => cfg,
    }
}

fn at_head(credentials: Option<(&str, &str)>) -> Negotiation {
    let (mut n, x) = Negotiation::start(proxy(credentials), "h", None, 1).unwrap();
    assert_eq!(x.read, 2);
    let method = if credentials.is_some() { METHOD_USER_PASS } else { METHOD_NO_AUTH };
    let mut x = n.on_reply(&[VERSION, method]).unwrap();
    if credentials.is_some() {
        x = n.on_reply(&[USER_PASS_VERSION, USER_PASS_SUCCESS]).unwrap();
    }
    assert_eq!(x.write, vec![VERSION, CMD_CONNECT, 0, ATYP_DOMAIN, 1, b'h', 0, 1]);
    assert_eq!(x.read, 4);
    n
}

#[test]
fn no_auth_success_full_roundtrip() {
    let (mut n, x) = Negotiation::start(proxy(None), "mc.example", None, 25565).unwrap();
    assert_eq!(x.write, vec![VERSION, 1, METHOD_NO_AUTH]);
    let x = n.on_reply(&[VERSION, METHOD_NO_AUTH]).unwrap();
    let mut want = vec![VERSION, CMD_CONNECT, 0x00, ATYP_DOMAIN, 10];
    want.extend_from_slice(b"mc.example");
    want.extend_from_slice(&25565u16.to_be_bytes());
    assert_eq!(x.write, want);
    let x = n.on_reply(&[VERSION, 0x00, 0x00, ATYP_IPV4]).unwrap();
    assert_eq!((x.write.len(), x.read), (0, 6));
    let x = n.on_reply(&[0; 6]).unwrap();
    assert_eq!((x.write.len(), x.read), (0, 0));
    assert_eq!(n.awaiting, Awaiting::Done);
}

#[test]
fn authenticated_success() {
    let (mut n, x) = Negotiation::start(
        proxy(Some(("alice", "hunter2"))),
        "127.0.0.1",
        Some(IpLiteral::V4(0x7F00_0001)),
        25565,
    )
    .unwrap();
    assert_eq!(x.write, vec![VERSION, 1, METHOD_USER_PASS]);
    let x = n.on_reply(&[VERSION, METHOD_USER_PASS]).unwrap();
    let mut want = vec![USER_PASS_VERSION, 5];
    want.extend_from_slice(b"alice");
    want.push(7);
    want.extend_from_slice(b"hunter2");
    assert_eq!((x.write, x.read), (want, 2));
    let x = n.on_reply(&[USER_PASS_VERSION, USER_PASS_SUCCESS]).unwrap();
    assert_eq!(x.write[3], ATYP_IPV4);
    n.on_reply(&[VERSION, 0x00, 0x00, ATYP_IPV4]).unwrap();
    n.on_reply(&[0; 6]).unwrap();
    assert_eq!(n.awaiting, Awaiting::Done);
}

#[test]
fn rejected_authentication_surfaces_typed_error() {
    let (mut n, _) = Negotiation::start(proxy(Some(("alice", "wrong"))), "h", None, 1).unwrap();
    n.on_reply(&[VERSION, METHOD_USER_PASS]).unwrap();
    match n.on_reply(&[USER_PASS_VERSION, 0x01]) {
        Err(ProxySocks5Error::AuthenticationRejected { .. }) => {}
        other => panic!("expected AuthenticationRejected, got {other:?}"),
    }
    assert_eq!(
        ProxySocks5Error::AuthenticationRejected {
            endpoint: "p:1".into()
        }
        .retry_class(),
        RetryClass::AuthFailure
    );
    match n.on_reply(&[0x09, 0x00]) {
        Err(ProxySocks5Error::Protocol { phase, reason, .. }) => {
            assert_eq!(phase, "authentication reply");
            assert_eq!(reason, "unexpected sub-negotiation version 0x09");
        }
        other => panic!("expected Protocol, got {other:?}"),
    }
}

#[test]
fn no_acceptable_method_surfaces_typed_error() {
    let (mut n, _) = Negotiation::start(proxy(None), "h", None, 1).unwrap();
    match n.on_reply(&[VERSION, METHOD_NO_ACCEPTABLE]) {
        Err(ProxySocks5Error::NoAcceptableAuthMethod { .. }) => {}
        other => panic!("expected NoAcceptableAuthMethod, got {other:?}"),
    }
    match n.on_reply(&[VERSION, METHOD_USER_PASS]) {
        Err(ProxySocks5Error::Protocol { reason, .. }) => {
            assert_eq!(reason, "proxy selected unoffered method 0x02")
        }
        other => panic!("expected Protocol, got {other:?}"),
    }
}

fn connect_reply_case(reply_byte: u8) -> Result<(), ProxySocks5Error> {
    let mut n = at_head(None);
    n.on_reply(&[VERSION, reply_byte, 0x00, ATYP_IPV4])?;
    n.on_reply(&[0; 6])?;
    Ok(())
}

#[test]
fn every_documented_reply_code_is_classified() {
    let cases: &[(u8, Socks5Reply, RetryClass)] = &[
        (0x01, Socks5Reply::GeneralFailure, RetryClass::Transient),
        (
            0x02,
            Socks5Reply::NotAllowedByRuleset,
            RetryClass::ServerRejected,
        ),
        (0x03, Socks5Reply::NetworkUnreachable, RetryClass::Transient),
        (0x04, Socks5Reply::HostUnreachable, RetryClass::Transient),
        (0x05, Socks5Reply::ConnectionRefused, RetryClass::Transient),
        (0x06, Socks5Reply::TtlExpired, RetryClass::Transient),
        (
            0x07,
            Socks5Reply::CommandNotSupported,
            RetryClass::ProtocolIncompatible,
        ),
        (
            0x08,
            Socks5Reply::AddressTypeNotSupported,
            RetryClass::ProtocolIncompatible,
        ),
        (
            0x09,
            Socks5Reply::Unknown(0x09),
            RetryClass::ProtocolIncompatible,
        ),
    ];
    for &(code, expected_reply, expected_class) in cases {
        let result = connect_reply_case(code);
        match result {
            Err(ProxySocks5Error::ConnectRefused { reply, .. }) => {
                assert_eq!(reply, expected_reply, "code 0x{code:02x}");
                assert_eq!(reply.retry_class(), expected_class, "code 0x{code:02x}");
            }
            other => panic!("code 0x{code:02x}: expected ConnectRefused, got {other:?}"),
        }
    }
    assert_eq!(Socks5Reply::Unknown(0x1f).message(), "unknown reply code 0x1f");
}

#[test]
fn succeeded_reply_with_ipv6_bound_address_is_accepted() {
    let mut n = at_head(None);
    let x = n.on_reply(&[VERSION, 0x00, 0x00, ATYP_IPV6]).unwrap();
    assert_eq!(x.read, 18);
    n.on_reply(&[0; 18]).unwrap();
    assert_eq!(n.awaiting, Awaiting::Done);
}

#[test]
fn a_named_bound_address_is_read_to_its_end() {
    let mut n = at_head(Some(("u", "p")));
    assert_eq!(n.on_reply(&[VERSION, 0x00, 0x00, ATYP_DOMAIN]).unwrap().read, 1);
    assert_eq!(n.on_reply(&[3]).unwrap().read, 5);
    n.on_reply(&[0; 5]).unwrap();
    assert_eq!(n.awaiting, Awaiting::Done);
}

#[test]
fn domain_targets_send_no_local_dns_only_the_hostname() {
    let bytes = encode_target("sub.minecraft.example", None).unwrap();
    assert_eq!(bytes[0], ATYP_DOMAIN);
    assert_eq!(bytes[1] as usize, bytes.len() - 2);
    assert_eq!(&bytes[2..], b"sub.minecraft.example");
}

#[test]
fn ipv4_target_is_sent_as_atyp_ipv4_not_domain() {
    let literal = Some(IpLiteral::V4(u32::from_be_bytes([203, 0, 113, 7])));
    let bytes = encode_target("203.0.113.7", literal).unwrap();
    assert_eq!(bytes, vec![ATYP_IPV4, 203, 0, 113, 7]);
}

#[test]
fn ipv6_target_is_sent_as_atyp_ipv6() {
    let bytes = encode_target("::1", Some(IpLiteral::V6(1))).unwrap();
    let mut want = vec![ATYP_IPV6];
    want.extend_from_slice(&1u128.to_be_bytes());
    assert_eq!(bytes, want);
}

#[test]
fn truncated_method_reply_is_a_protocol_error_not_a_hang() {
    let (n, _) = Negotiation::start(proxy(None), "h", None, 1).unwrap();
    match n.truncated() {
        ProxySocks5Error::Protocol { phase, reason, .. } => {
            assert_eq!(phase, "method negotiation");
            assert_eq!(reason, "connection closed with a truncated reply");
        }
        other => panic!("expected Protocol(truncated), got {other:?}"),
    }
}

#[test]
fn truncated_connect_reply_is_a_protocol_error() {
    let n = at_head(None);
    assert_eq!(n.write_phase(), "CONNECT request");
    match n.truncated() {
        ProxySocks5Error::Protocol { phase, .. } => assert_eq!(phase, "CONNECT reply"),
        other => panic!("expected Protocol(truncated), got {other:?}"),
    }
}

#[test]
fn invalid_socks_version_in_method_reply_is_rejected() {
    let (mut n, _) = Negotiation::start(proxy(None), "h", None, 1).unwrap();
    match n.on_reply(&[0x04, METHOD_NO_AUTH]) {
        Err(ProxySocks5Error::Protocol { reason, .. }) => {
            assert!(reason.contains("version"))
        }
        other => panic!("expected Protocol(bad version), got {other:?}"),
    }
}

#[test]
fn invalid_address_type_in_connect_reply_is_rejected() {
    let mut n = at_head(None);
    match n.on_reply(&[VERSION, 0x00, 0x00, 0x7F]) {
        Err(ProxySocks5Error::Protocol { reason, .. }) => {
            assert!(reason.contains("address type"))
        }
        other => panic!("expected Protocol(bad atyp), got {other:?}"),
    }
}

#[test]
fn username_over_255_bytes_is_rejected_before_any_write() {
    let long = "a".repeat(256);
    let result = Negotiation::start(proxy(Some((&long, "p"))), "h", None, 1);
    assert!(matches!(result, Err(ProxySocks5Error::UsernameTooLong)));
}

#[test]
fn password_over_255_bytes_is_rejected_before_any_write() {
    let long = "p".repeat(256);
    let result = Negotiation::start(proxy(Some(("u", &long))), "h", None, 1);
    assert!(matches!(result, Err(ProxySocks5Error::PasswordTooLong)));
}

#[test]
fn domain_over_255_bytes_is_rejected_before_any_write() {
    let long_host = "a".repeat(256);
    let result = Negotiation::start(proxy(None), &long_host, None, 1);
    assert!(matches!(
        result,
        Err(ProxySocks5Error::TargetTooLong { .. })
    ));
}

#[test]
fn proxy_errors_say_what_happened() {
    let cases: Vec<(ProxySocks5Error, &str, RetryClass)> = vec![
        (
            ProxySocks5Error::ProxyConnect { endpoint: "p:1".into(), source: "refused".into() },
            "connecting to SOCKS5 proxy p:1: refused",
            RetryClass::Transient,
        ),
        (
            ProxySocks5Error::Io { endpoint: "p:1".into(), phase: "authentication", source: "x".into() },
            "io error talking to SOCKS5 proxy p:1 during authentication: x",
            RetryClass::Transient,
        ),
        (
            ProxySocks5Error::Timeout { endpoint: "p:1".into(), phase: "CONNECT reply" },
            "timed out talking to SOCKS5 proxy p:1 during CONNECT reply",
            RetryClass::Transient,
        ),
        (
            ProxySocks5Error::TargetTooLong { target: "h\"".into() },
            "target hostname \"h\\\"\" exceeds the SOCKS5 255-byte domain length limit",
            RetryClass::ProtocolIncompatible,
        ),
        (
            ProxySocks5Error::UsernameTooLong,
            "proxy username exceeds the SOCKS5 255-byte length limit",
            RetryClass::AuthFailure,
        ),
    ];
    for (error, text, class) in cases {
        assert_eq!(error.message(), text);
        assert_eq!(error.retry_class(), class);
    }
}

fn vars(
    host: Option<&str>,
    port: Option<&str>,
    username: Option<&str>,
    password: Option<&str>,
) -> EnvVars {
    EnvVars {
        host: host.map(str::to_string),
        port: port.map(str::to_string),
        username: username.map(str::to_string),
        password: password.map(str::to_string),
    }
}

#[test]
fn env_config_absent_when_host_unset() {
    let prefix = "MINERIDER_TEST_ABSENT_SOCKS5_UNIQUE";
    assert!(Socks5ProxyConfig::from_vars(prefix, &vars(None, Some("1"), None, None))
        .unwrap()
        .is_none());
}

#[test]
fn env_config_full_roundtrip() {
    let prefix = "MINERIDER_TEST_FULL_SOCKS5_UNIQUE";
    let config = Socks5ProxyConfig::from_vars(
        prefix,
        &vars(Some("proxy.invalid"), Some("1080"), Some("alice"), Some("hunter2")),
    )
    .unwrap()
    .unwrap();
    assert_eq!(config.host, "proxy.invalid");
    assert_eq!(config.port, 1080);
    assert_eq!(config.endpoint(), "proxy.invalid:1080");
    assert_eq!(
        config.credentials.unwrap().password.expose_secret(),
        "hunter2"
    );
}

#[test]
fn env_config_rejects_partial_credentials() {
    let prefix = "MINERIDER_TEST_PARTIAL_SOCKS5_UNIQUE";
    let result = Socks5ProxyConfig::from_vars(
        prefix,
        &vars(Some("proxy.invalid"), Some("1080"), Some("alice"), None),
    );
    assert!(matches!(result, Err(EnvConfigError::PartialCredentials)));
    match Socks5ProxyConfig::from_vars("X", &vars(Some("h"), None, None, None)) {
        Err(e) => assert_eq!(
            e.message(),
            "environment variable X_PORT is required when the host variable is set"
        ),
        Ok(_) => panic!("a missing port must be refused"),
    }
    assert!(matches!(
        Socks5ProxyConfig::from_vars("X", &vars(Some("h"), Some("65536"), None, None)),
        Err(EnvConfigError::InvalidPort(var)) if var == "X_PORT"
    ));
}

#[test]
fn ports_are_read_as_numbers() {
    assert_eq!(parse_port("0"), Some(0));
    assert_eq!(parse_port("+80"), Some(80));
    assert_eq!(parse_port("00065535"), Some(65535));
    for bad in ["", "+", "-1", "65536", "8 0", "99999999999999999999"] {
        assert_eq!(parse_port(bad), None, "{bad}");
    }
}

#[test]
fn white_space_is_taken_off_both_ends() {
    for text in ["", " ", "a", " a b ", "\u{2003}x\u{a0}", "\t\r\nhash\u{3000}", "\u{200b}y", "\u{85}"] {
        assert_eq!(trim(text), text.trim());
    }
}

#[test]
fn a_wrong_tag_is_written_out() {
    let list = Nbt::List(Arc::new(NbtList {
        tag: 8,
        items: vec![Nbt::String("a\"b".into()), Nbt::Short(-2)],
    }));
    let inner = compound(vec![("k", Nbt::Long(7)), ("l", list), ("e", compound(vec![]))]);
    let arrays = compound(vec![
        ("b", Nbt::ByteArray(Arc::new(vec![1, -1]))),
        ("i", Nbt::IntArray(Arc::new(vec![5]))),
        ("n", Nbt::LongArray(Arc::new(vec![]))),
    ]);
    let written = |tag: Nbt| {
        let mut data = ConfigurationData::default();
        let value = compound(vec![("min_y", tag)]);
        let id = "minecraft:dimension_type";
        protocol_text(store_registry(&mut data, &registry(id, vec![("x:y", Some(value))])))
    };
    assert_eq!(
        written(inner),
        "dimension_type min_y must be an int, got Some(Compound([(\"k\", Long(7)), (\"l\", List(NbtList { tag: 8, items: [String(\"a\\\"b\"), Short(-2)] })), (\"e\", Compound([]))]))"
    );
    assert_eq!(
        written(arrays),
        "dimension_type min_y must be an int, got Some(Compound([(\"b\", ByteArray([1, -1])), (\"i\", IntArray([5])), (\"n\", LongArray([]))]))"
    );
}
