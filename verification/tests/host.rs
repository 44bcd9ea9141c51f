use matter_stack::cli::{parse_args, Args, RawArg};
use matter_stack::error::{invalid, ErrorCode, SdkError};
use matter_stack::identity::{
    check_installable, ensure_identity, generated_identity, serial_is_der_canonical,
    truncate_to_bytes, usable_identity, usable_root, IdentityEvent, IdentityState, Minted,
    ServerIdentity, CONTROLLER_NODE_ID, FABRIC_LABEL_MAX_BYTES,
};
use matter_stack::mdns::{is_unicast_link_local, select_interface, IfAddr, Interface};
use matter_stack::migration::{
    check_preserved_root, identity_from_preserved_ca, matter_micros, rcac_serial_is_der_canonical,
    sdk_err, verify_identity, ChainFindings, MintStep, MintedController, PreservedCa, RootSubject,
};
use matter_stack::stack_api::{StackError, StackErrorKind};
use matter_stack::text::{
    decimal_string, has_prefix, hex_string, parse_tag, same_ignoring_case, trim_text,
};
use matter_stack::tlv::{Member, Tag, Tlv};

fn sdk(code: ErrorCode, text: &str) -> SdkError {
    SdkError { code, text: text.to_string() }
}

// ------------------------------------------------------------------ interfaces

fn v4(name: &str, ip: [u8; 4], index: u32) -> Interface {
    Interface { name: name.into(), addr: IfAddr::V4(ip), index: Some(index) }
}

fn v6(name: &str, ip: [u16; 8], index: u32) -> Interface {
    Interface { name: name.into(), addr: IfAddr::V6(ip), index: Some(index) }
}

/// `fe80::1`
const LINK_LOCAL: [u16; 8] = [0xfe80, 0, 0, 0, 0, 0, 0, 1];

/// `2001:db8::1`
const GLOBAL: [u16; 8] = [0x2001, 0xdb8, 0, 0, 0, 0, 0, 1];

/// `::1`
const LOCALHOST: [u16; 8] = [0, 0, 0, 0, 0, 0, 0, 1];

/// `::`
const UNSPECIFIED: [u16; 8] = [0; 8];

#[test]
fn link_local_detection_covers_the_whole_fe80_10_block() {
    assert!(is_unicast_link_local(LINK_LOCAL));
    assert!(is_unicast_link_local([0xfebf, 0, 0, 0, 0, 0, 0, 1]));
    assert!(!is_unicast_link_local([0xfec0, 0, 0, 0, 0, 0, 0, 1]));
    assert!(!is_unicast_link_local(GLOBAL));
    assert!(!is_unicast_link_local(LOCALHOST));
}

#[test]
fn a_dual_stack_interface_beats_an_ipv4_only_bridge() {
    let all = vec![
        v4("docker0", [172, 17, 0, 1], 3),
        v4("eth0", [192, 168, 1, 10], 2),
        v6("eth0", LINK_LOCAL, 2),
    ];
    let picked = select_interface(&all, None).expect("a dual-stack interface exists");
    assert_eq!(picked.name, "eth0");
    assert_eq!(picked.ipv4, [192, 168, 1, 10]);
    assert_eq!(picked.index, 2);
}

#[test]
fn a_global_ipv6_interface_is_used_when_no_link_local_one_exists() {
    let all = vec![v4("eth0", [192, 168, 1, 10], 2), v6("eth0", GLOBAL, 2)];
    let picked = select_interface(&all, None).expect("a dual-stack interface exists");
    assert_eq!(picked.ipv6, GLOBAL);
}

#[test]
fn an_ipv4_only_ethernet_interface_is_the_last_resort() {
    let all = vec![
        v4("lo", [127, 0, 0, 1], 1),
        v4("docker0", [172, 17, 0, 1], 3),
        v4("eth0", [192, 168, 1, 10], 2),
    ];
    let picked = select_interface(&all, None).expect("eth0 is a fallback candidate");
    assert_eq!(picked.name, "eth0");
    assert_eq!(picked.ipv6, UNSPECIFIED);
}

#[test]
fn nothing_usable_is_an_error_not_a_loopback_advertisement() {
    let all = vec![v4("lo", [127, 0, 0, 1], 1)];
    let e = select_interface(&all, None).expect_err("loopback is not usable for mDNS");
    assert_eq!(e.code, ErrorCode::StdIoError);
}

#[test]
fn primary_interface_overrides_the_heuristic() {
    let all = vec![
        v4("eth0", [192, 168, 1, 10], 2),
        v6("eth0", LINK_LOCAL, 2),
        v4("wlan0", [10, 0, 0, 5], 4),
    ];
    // wlan0 has no IPv6 at all, so the heuristic would never pick it.
    let picked = select_interface(&all, Some("wlan0")).expect("wlan0 has an IPv4 address");
    assert_eq!(picked.name, "wlan0");
    assert_eq!(picked.ipv4, [10, 0, 0, 5]);
    assert_eq!(picked.ipv6, UNSPECIFIED);
    assert_eq!(picked.index, 4);
}

#[test]
fn an_unknown_primary_interface_is_an_error_not_a_fallback() {
    let all = vec![v4("eth0", [192, 168, 1, 10], 2), v6("eth0", LINK_LOCAL, 2)];
    let e = select_interface(&all, Some("eth1")).expect_err("eth1 does not exist");
    assert_eq!(e.code, ErrorCode::StdIoError);
}

#[test]
fn a_primary_interface_without_ipv4_is_rejected() {
    let all = vec![v6("eth0", LINK_LOCAL, 2)];
    select_interface(&all, Some("eth0")).expect_err("no IPv4 address to advertise");
}

#[test]
fn a_loopback_ipv4_address_is_never_advertised() {
    let all = vec![v4("lo0", [127, 0, 0, 1], 1), v6("lo0", LINK_LOCAL, 1)];
    let e = select_interface(&all, None).expect_err("no address reaches beyond this host");
    assert_eq!(e.code, ErrorCode::StdIoError);
    // An operator may still insist.
    assert_eq!(select_interface(&all, Some("lo0")).unwrap().ipv4, [127, 0, 0, 1]);

    // The search goes on past it, on the same interface and on others.
    let all = vec![
        v4("lo0", [127, 0, 0, 1], 1),
        v6("lo0", LINK_LOCAL, 1),
        v4("en0", [127, 0, 0, 2], 2),
        v4("en0", [192, 168, 1, 10], 2),
        v6("en0", LINK_LOCAL, 2),
    ];
    let picked = select_interface(&all, None).unwrap();
    assert_eq!((picked.name.as_str(), picked.ipv4), ("en0", [192, 168, 1, 10]));
}

#[test]
fn loopback_is_told_by_its_address() {
    assert!(v4("x", [127, 3, 2, 1], 1).is_loopback());
    assert!(v6("x", LOCALHOST, 1).is_loopback());
    assert!(!v6("x", [0, 0, 0, 0, 0, 0, 0, 2], 1).is_loopback());
    assert!(!v4("lo", [10, 0, 0, 1], 1).is_loopback());
}

// -------------------------------------------------------------------- identity

#[test]
fn truncate_to_bytes_never_splits_a_char() {
    assert_eq!(truncate_to_bytes("abc", 32), "abc");
    assert_eq!(truncate_to_bytes("ééé", 5), "éé");
    assert_eq!(truncate_to_bytes("é", 1), "");
}

#[test]
fn a_long_label_keeps_what_fits() {
    let label = "é".repeat(32); // 32 chars, 64 bytes
    let kept = truncate_to_bytes(&label, FABRIC_LABEL_MAX_BYTES);
    assert_eq!(kept, "é".repeat(16));
    assert!(kept.len() <= FABRIC_LABEL_MAX_BYTES);
    assert_eq!(truncate_to_bytes("€uro", 0), "");
}

/// The format version the identities of these tests have.
const VERSION: u32 = 9;

fn identity(compressed_fabric_id: u64) -> ServerIdentity {
    let mut id = generated_identity(
        VERSION,
        1,
        0xFFF1,
        Minted {
            ca_private_key: vec![1; 32],
            rcac_tlv: vec![2],
            controller_private_key: vec![3; 32],
            controller_noc_tlv: vec![4],
            ipk: vec![5; 16],
        },
    );
    id.compressed_fabric_id = compressed_fabric_id;
    id
}

#[test]
fn a_first_run_generates_installs_and_stores() {
    let s = ensure_identity(IdentityState::Loading, IdentityEvent::Loaded(Ok(None)));
    assert_eq!(s, IdentityState::Generating);
    // A root with a negative serial number is drawn again.
    assert_eq!(usable_identity(identity(0), &certificate(vec![0x80])), Ok(None));
    let s = ensure_identity(s, IdentityEvent::Generated(Ok(None)));
    assert_eq!(s, IdentityState::Generating);
    let minted = usable_identity(identity(0), &certificate(vec![0x01]));
    let s = ensure_identity(s, IdentityEvent::Generated(minted));
    assert_eq!(s, IdentityState::Installing { identity: identity(0), fresh: true });
    let s = ensure_identity(s, IdentityEvent::Installed(Ok((1, 77))));
    assert_eq!(s, IdentityState::Creating { identity: identity(77), fab_idx: 1 });
    let s = ensure_identity(s, IdentityEvent::Created(Ok(())));
    assert_eq!(s, IdentityState::Labelling { identity: identity(77), fab_idx: 1 });
    let s = ensure_identity(s, IdentityEvent::Labelled);
    assert_eq!(s, IdentityState::Ready { identity: identity(77), fab_idx: 1 });
    assert_eq!(identity(77).controller_node_id, CONTROLLER_NODE_ID);
    assert_eq!(identity(77).version, VERSION);
}

#[test]
fn a_fabric_that_could_not_be_stored_is_taken_out_again() {
    let creating = IdentityState::Creating { identity: identity(77), fab_idx: 1 };
    let io = || sdk(ErrorCode::StdIoError, "StdIoError");
    let s = ensure_identity(creating, IdentityEvent::Created(Err(io())));
    assert_eq!(s, IdentityState::RollingBack { fab_idx: 1, error: io() });
    let s = ensure_identity(s, IdentityEvent::RolledBack);
    assert_eq!(s, IdentityState::Failed { error: io() });
}

#[test]
fn a_stored_identity_is_installed_and_corrected() {
    let load = |compressed| {
        ensure_identity(
            IdentityState::Loading,
            IdentityEvent::Loaded(Ok(Some(identity(compressed)))),
        )
    };
    assert_eq!(load(77), IdentityState::Installing { identity: identity(77), fresh: false });
    // The id that the certificates give is the right one, and is stored.
    let s = ensure_identity(load(0), IdentityEvent::Installed(Ok((1, 77))));
    assert_eq!(s, IdentityState::Saving { identity: identity(77), fab_idx: 1 });
    let s = ensure_identity(s, IdentityEvent::Saved);
    assert_eq!(s, IdentityState::Labelling { identity: identity(77), fab_idx: 1 });
    // Nothing to correct, nothing to store.
    let s = ensure_identity(load(77), IdentityEvent::Installed(Ok((1, 77))));
    assert_eq!(s, IdentityState::Labelling { identity: identity(77), fab_idx: 1 });
}

#[test]
fn an_identity_that_cannot_be_read_is_never_replaced() {
    let s = ensure_identity(IdentityState::Loading, IdentityEvent::Loaded(Err(invalid())));
    assert_eq!(s, IdentityState::Failed { error: invalid() });
    let s = ensure_identity(s, IdentityEvent::Generated(Ok(Some(identity(0)))));
    assert_eq!(s, IdentityState::Failed { error: invalid() });
    let s = ensure_identity(IdentityState::Generating, IdentityEvent::Generated(Err(invalid())));
    assert_eq!(s, IdentityState::Failed { error: invalid() });
}

#[test]
fn the_certificate_must_name_the_node_it_is_installed_for() {
    assert_eq!(check_installable(&identity(0), Ok(CONTROLLER_NODE_ID)), Ok(()));
    assert_eq!(check_installable(&identity(0), Ok(CONTROLLER_NODE_ID + 1)), Err(invalid()));
    let e = || sdk(ErrorCode::NotFound, "NotFound");
    assert_eq!(check_installable(&identity(0), Err(e())), Err(e()));
}

fn certificate(serial: Vec<u8>) -> Tlv {
    Tlv::Struct(vec![Member { tag: Tag::Context(1), value: Tlv::Octets(serial) }])
}

#[test]
fn serial_numbers_are_canonical_integers() {
    for (serial, canonical) in [
        (vec![0x01], true),
        (vec![0x7F, 0xFF], true),
        (vec![0x00, 0x80], true),
        (vec![0x00], true),
        (vec![0x80], false),
        (vec![0x00, 0x7F], false),
        (vec![], false),
    ] {
        assert_eq!(serial_is_der_canonical(&certificate(serial)), Ok(canonical));
    }
    assert_eq!(rcac_serial_is_der_canonical(&certificate(vec![1])), Ok(true));
    let e = rcac_serial_is_der_canonical(&Tlv::Malformed(invalid())).unwrap_err();
    assert_eq!(
        e.message,
        "rcac_tlv does not parse as a Matter TLV certificate: Error::InvalidData"
    );
}

#[test]
fn a_root_is_drawn_until_its_serial_is_canonical() {
    let draw = |serial: u8| usable_root(vec![1], vec![serial], &certificate(vec![serial]));
    assert_eq!(draw(0x80), Ok(None));
    let (key, rcac) = draw(0x7F).unwrap().expect("canonical");
    assert_eq!((key, rcac), (vec![1], vec![0x7F]));
    assert_eq!(rcac_serial_is_der_canonical(&certificate(vec![0x7F])), Ok(true));
    let broken = || sdk(ErrorCode::Other, "TLVTypeMismatch");
    assert_eq!(usable_root(vec![], vec![], &Tlv::Malformed(broken())), Err(broken()));
}

// ------------------------------------------------------------------- migration

fn preserved(fabric_id: u64) -> PreservedCa {
    PreservedCa {
        ca_private_key: vec![1; 32],
        rcac_tlv: vec![2],
        fabric_id,
        vendor_id: 0xFFF1,
        node_id: 112233,
        ipk_epoch_key: vec![0x5a; 16],
    }
}

fn minted() -> MintedController {
    MintedController { private_key: vec![3; 32], noc_tlv: vec![4], compressed_fabric_id: 77 }
}

fn root(fabric_id: Result<u64, SdkError>, has_ca_id: bool) -> RootSubject {
    RootSubject { fabric_id, has_ca_id }
}

fn sound() -> ChainFindings {
    ChainFindings { noc_node_id: Ok(112233), chains: Ok(()), root_verifies: Ok(()) }
}

fn mint_under(
    ca: PreservedCa,
    root: RootSubject,
    minted: Result<MintedController, (MintStep, SdkError)>,
) -> Result<ServerIdentity, StackError> {
    identity_from_preserved_ca(VERSION, ca, root, minted, sound())
}

#[test]
fn a_preserved_authority_is_kept_as_it_is() {
    let id = mint_under(preserved(1), root(Ok(1), true), Ok(minted())).unwrap();
    assert_eq!(id.version, VERSION);
    assert_eq!(id.controller_private_key.len(), 32);
    assert_eq!(verify_identity(&id, sound()), Ok(()));
    assert_eq!((id.fabric_id, id.vendor_id), (1, 0xFFF1));
    assert_eq!(id.controller_node_id, 112233);
    assert_eq!(id.compressed_fabric_id, 77);
    // The preserved inputs are stored verbatim, the epoch key among them.
    assert_eq!(id.ca_private_key, vec![1; 32]);
    assert_eq!(id.rcac_tlv, vec![2]);
    assert_eq!(id.ipk, vec![0x5a; 16]);
    assert_eq!(id.controller_private_key, vec![3; 32]);
    assert_eq!(id.controller_noc_tlv, vec![4]);
}

#[test]
fn a_root_of_another_fabric_is_refused_up_front() {
    let err = mint_under(preserved(42), root(Ok(1), true), Ok(minted())).unwrap_err();
    assert!(err.message.contains("fabric id"), "unhelpful error: {}", err.message);
    assert_eq!(
        err.message,
        "the preserved RCAC carries fabric id 1, not the requested 42"
    );
}

/// A root that names no fabric is fine; one that names nothing is no root.
#[test]
fn a_root_without_a_fabric_is_still_a_root() {
    let absent = || Err(sdk(ErrorCode::NotFound, "NotFound"));
    assert!(check_preserved_root(root(absent(), true), 1).is_ok());
    let e = check_preserved_root(root(absent(), false), 1).unwrap_err();
    assert!(e.message.to_lowercase().contains("certificate"), "{}", e.message);
}

#[test]
fn a_failed_step_of_minting_names_itself() {
    let failed = Err((MintStep::CaKey, invalid()));
    let e = mint_under(preserved(1), root(Ok(1), true), failed).unwrap_err();
    assert_eq!(e.kind, StackErrorKind::Sdk);
    assert_eq!(
        e.message,
        "ca_private_key is not a canonical P-256 secret key: Error::InvalidData"
    );
    assert_eq!(sdk_err(MintStep::Noc.context(), invalid()).message,
        "minting the controller NOC: Error::InvalidData");
}

#[test]
fn verify_identity_catches_a_node_id_that_does_not_match_the_noc() {
    let mut id = mint_under(preserved(1), root(Ok(1), true), Ok(minted())).unwrap();
    assert!(verify_identity(&id, sound()).is_ok());
    id.controller_node_id = 112234;
    assert!(verify_identity(&id, sound()).is_err());
}

#[test]
fn an_identity_that_does_not_chain_is_refused() {
    let id = identity(77);
    let broken = || sdk(ErrorCode::Other, "InvalidSignature");
    for findings in [
        ChainFindings { noc_node_id: Err(invalid()), ..sound() },
        ChainFindings { noc_node_id: Ok(CONTROLLER_NODE_ID), chains: Err(broken()), ..sound() },
        ChainFindings { root_verifies: Err(broken()), ..sound() },
    ] {
        assert_eq!(verify_identity(&id, findings).unwrap_err().kind, StackErrorKind::Sdk);
    }
}

#[test]
fn certificate_time_counts_from_the_matter_epoch() {
    assert_eq!(matter_micros(0), 0);
    assert_eq!(matter_micros(946_684_800), 0);
    assert_eq!(matter_micros(946_684_801), 1_000_000);
    assert_eq!(matter_micros(1_704_067_200), 757_382_400_000_000);
}

// ---------------------------------------------------------------- command line

fn args(texts: &[&str]) -> Vec<RawArg> {
    texts
        .iter()
        .map(|t| RawArg {
            text: t.to_string(),
            addr_error: if t.contains(':') && *t != "MT:X" {
                None
            } else {
                Some("invalid socket address syntax".to_string())
            },
        })
        .collect()
}

#[test]
fn a_command_line_names_a_code_and_options() {
    assert_eq!(
        parse_args(&args(&["34970112332"])),
        Ok(Args { code: "34970112332".to_string(), addr: None, endpoint: 1, toggle: true })
    );
    assert_eq!(
        parse_args(&args(&[
            "--endpoint", "+2", "--no-toggle", "--addr", "192.168.1.50:5540", "MT:X"
        ])),
        Ok(Args {
            code: "MT:X".to_string(),
            addr: Some("192.168.1.50:5540".to_string()),
            endpoint: 2,
            toggle: false,
        })
    );
}

#[test]
fn a_bad_command_line_says_what_is_wrong() {
    let refused = |texts: &[&str]| parse_args(&args(texts)).unwrap_err();
    assert_eq!(refused(&[]), "missing PAIRING_CODE");
    assert_eq!(refused(&["a", "b"]), "unexpected argument: b");
    assert_eq!(refused(&["--addr"]), "--addr needs a value");
    assert_eq!(refused(&["--endpoint"]), "--endpoint needs a value");
    assert_eq!(
        refused(&["--endpoint", "70000"]),
        "--endpoint must be u16: number too large to fit in target type"
    );
    assert_eq!(
        refused(&["--endpoint", "x"]),
        "--endpoint must be u16: invalid digit found in string"
    );
    assert_eq!(
        refused(&["--addr", "192.168.1.50"]),
        "--addr must be IP:PORT (e.g. [fe80::1%2]:5540 or 192.168.1.50:5540): invalid socket \
         address syntax"
    );
}

// ------------------------------------------------------------------------ text

#[test]
fn numbers_and_texts_are_read_and_written() {
    assert_eq!(decimal_string(0), "0");
    assert_eq!(decimal_string(u64::MAX), "18446744073709551615");
    assert_eq!(hex_string(0xab, 2, false), "ab");
    assert_eq!(hex_string(0xab, 4, true), "00AB");
    for (s, tag) in [
        ("0", Some(0)),
        ("255", Some(255)),
        ("+007", Some(7)),
        ("256", None),
        ("", None),
        ("+", None),
        ("-1", None),
        (" 1", None),
    ] {
        assert_eq!(parse_tag(s), tag, "{s:?}");
        assert_eq!(s.parse::<u8>().ok(), tag, "{s:?}");
    }
    assert!(same_ignoring_case("EPOCH_us", "epoch_US"));
    assert!(!same_ignoring_case("é", "É"));
    assert!(has_prefix("MT:x", "MT:") && !has_prefix("MT", "MT:"));
}

#[test]
fn white_space_is_what_unicode_says() {
    for c in '\0'..=char::MAX {
        let padded: String = [c, 'x', c].iter().collect();
        assert_eq!(trim_text(&padded), padded.trim(), "{:x}", c as u32);
    }
    for s in ["", " ", "\t \n", " a b ", "a", "\u{3000}MT:X\u{2028}"] {
        assert_eq!(trim_text(s), s.trim());
    }
}
