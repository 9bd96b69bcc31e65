use std::hash::{DefaultHasher, Hasher};
use dweb_cli::api_dweb::{
    register_builtin_names as register_api_builtin_names, FRIENDS_HISTORY_PUBLIC,
    SCRATCHCHAT_HISTORY_PUBLIC,
};
use dweb_cli::etag::{
    address, address_from_strings, etag_for_address, etag_for_datamap_chunk, format_hex,
    immutable_conditional_response, immutable_if_none_match, response_etag,
};
use dweb_cli::keys::{public_key_from_hex, xor_name_from_hex};
use dweb_cli::names::{
    in_use_message, register_builtin_names, register_status, NameRegistry, RegisterOutcome,
};

const AWESOME: &str = "8650c4284430522a638a6fa37dd3e8d610c65b300f89f0199a95a1a9eab0455287f8c8d137fad390654bd9f19b868a5c";
const G1_GENERATOR: &str = "97f1d3a73197d7942695638c4fa9ac0fc3688c4f9774b905a14e3a3f171bac586c55e83ff97a1aeffb3af00adb22c6bb";

fn s(t: &str) -> String {
    t.to_string()
}

#[test]
fn etag_addresses() {
    assert_eq!(address_from_strings(s("0123456789abcdef"), s("ffffffffffff")), "0123456789");
    assert_eq!(address_from_strings(s(""), s("abcdefabcdef00")), "abcdefabcd");
    assert_eq!(address(None, Some(s("9876543210fedcba"))), "9876543210");
    assert_eq!(address(Some(s("aaaaaaaaaabbbb")), None), "aaaaaaaaaa");
    assert_eq!(address_from_strings(s(""), s("")), "unknown");
    assert_eq!(address(None, None), "unknown");
    assert_eq!(address_from_strings(s("abc"), s("")), "abc");
    assert_eq!(address_from_strings(s("0123456789"), s("")), "0123456789");
}

#[test]
fn etags_of_responses() {
    let t = response_etag(&s("0123456789"), true, Some(3), true, Some(&s("text/html")));
    assert_eq!(t.tag, "mutable-0123456789-version-3-latest-text/html");
    assert!(t.weak);
    let t = response_etag(&s("0123456789"), true, Some(3), false, None);
    assert_eq!(t.tag, "immutable-0123456789-version-3-actual");
    assert!(!t.weak);
    let t = response_etag(&s("0123456789"), false, None, false, Some(&s("image/png")));
    assert_eq!(t.tag, "immutable-0123456789--image/png");
    let t = etag_for_address(&s("abc"));
    assert_eq!(t.tag, "abc");
    assert!(!t.weak);
}

#[test]
fn etag_of_datamap_chunk() {
    let mut h = DefaultHasher::new();
    h.write("00ff".as_bytes());
    let expected = format!("{:x}", h.finish());
    let t = etag_for_datamap_chunk(&s("00ff"));
    assert_eq!(t.tag, expected);
    assert!(!t.tag.contains(' '));
    assert!(!t.weak);
}

#[test]
fn hex_formatting() {
    assert_eq!(format_hex(255), "ff");
    assert_eq!(format_hex(0), "0");
    assert_eq!(format_hex(0x1a2b), "1a2b");
    assert_eq!(format_hex(u64::MAX), format!("{:x}", u64::MAX));
}

#[test]
fn if_none_match_for_immutable_data() {
    assert!(immutable_if_none_match(None));
    assert!(immutable_if_none_match(Some(&b"*"[..])));
    assert!(!immutable_if_none_match(Some(&b"\"abc\""[..])));
    assert!(immutable_if_none_match(Some(&[0xffu8, 0x41][..])));
    assert_eq!(immutable_conditional_response("GET", Some(&b"\"abc\""[..])), Some(304));
    assert_eq!(immutable_conditional_response("HEAD", Some(&b"\"abc\""[..])), Some(304));
    assert_eq!(immutable_conditional_response("POST", Some(&b"\"abc\""[..])), Some(412));
    assert_eq!(immutable_conditional_response("PUT", Some(&b"\"abc\""[..])), Some(412));
    assert_eq!(immutable_conditional_response("PUT", Some(&b"*"[..])), None);
    assert_eq!(immutable_conditional_response("GET", None), None);
}

#[test]
fn hex_addresses() {
    let b = xor_name_from_hex("a9cd8dd0c9f2b9dc71ad548d1f37fcba6597d5eb1be0b8c63793802cc6c7de27").unwrap();
    assert_eq!(b.len(), 32);
    assert_eq!(b[0], 0xa9);
    assert_eq!(b[31], 0x27);
    assert!(xor_name_from_hex("A9CD").is_none());
    assert!(xor_name_from_hex("zz").is_none());
    let k = public_key_from_hex(G1_GENERATOR).unwrap();
    assert_eq!(k.len(), 48);
    assert_eq!(k[0], 0x97);
    assert!(public_key_from_hex(&"00".repeat(48)).is_none());
    assert!(public_key_from_hex("97f1").is_none());
}

#[test]
fn registered_name_resolves() {
    let mut r = NameRegistry::new();
    assert_eq!(r.register("awesome", true, AWESOME), RegisterOutcome::Registered);
    let a = r.lookup("awesome").unwrap();
    assert_eq!(hex::encode(&a), AWESOME);
    assert!(r.lookup("other").is_none());
    assert_eq!(r.register("awesome", true, AWESOME), RegisterOutcome::AlreadyRegistered);
    match r.register("awesome", true, G1_GENERATOR) {
        RegisterOutcome::InUse { existing } => assert_eq!(hex::encode(existing), AWESOME),
        other => panic!("unexpected {other:?}"),
    }
    assert_eq!(hex::encode(r.lookup("awesome").unwrap()), AWESOME);
    assert_eq!(r.list(), vec![(s("awesome"), s(AWESOME))]);
}

#[test]
fn refused_registrations() {
    let mut r = NameRegistry::new();
    assert_eq!(r.register("Bad Name", false, AWESOME), RegisterOutcome::InvalidName);
    assert_eq!(r.register("good", true, "xyz"), RegisterOutcome::InvalidAddress);
    assert_eq!(r.register("good", true, &"00".repeat(48)), RegisterOutcome::InvalidAddress);
    assert!(r.list().is_empty());
    assert_eq!(register_status(&RegisterOutcome::InvalidName), 400);
    assert_eq!(register_status(&RegisterOutcome::InvalidAddress), 400);
    assert_eq!(register_status(&RegisterOutcome::InUse { existing: vec![1] }), 400);
    assert_eq!(register_status(&RegisterOutcome::Registered), 200);
    assert_eq!(register_status(&RegisterOutcome::AlreadyRegistered), 200);
    assert_eq!(
        in_use_message("awesome", &[0xab, 0x01]),
        "DWEB-NAME 'awesome' already in use for HISTORY-ADDRESS 'ab01'"
    );
}

#[test]
fn builtin_names() {
    let mut r = NameRegistry::new();
    register_builtin_names(&mut r, true, AWESOME, G1_GENERATOR);
    assert_eq!(hex::encode(r.lookup("awesome").unwrap()), AWESOME);
    let mut r = NameRegistry::new();
    register_builtin_names(&mut r, false, AWESOME, G1_GENERATOR);
    assert_eq!(hex::encode(r.lookup("awesome").unwrap()), G1_GENERATOR);
}

#[test]
fn builtin_names_of_the_api() {
    let mut r = NameRegistry::new();
    register_api_builtin_names(&mut r, false, AWESOME, G1_GENERATOR);
    assert_eq!(hex::encode(r.lookup("awesome").unwrap()), G1_GENERATOR);
    assert_eq!(hex::encode(r.lookup("friends").unwrap()), FRIENDS_HISTORY_PUBLIC);
    assert_eq!(hex::encode(r.lookup("scratchchat").unwrap()), SCRATCHCHAT_HISTORY_PUBLIC);
    let mut r = NameRegistry::new();
    register_api_builtin_names(&mut r, true, AWESOME, G1_GENERATOR);
    assert!(r.lookup("friends").is_none());
    assert_eq!(hex::encode(r.lookup("awesome").unwrap()), AWESOME);
}

#[test]
fn hex_text_round_trip() {
    let bytes: Vec<u8> = (0u8..32).map(|i| i.wrapping_mul(37)).collect();
    let text = hex::encode(&bytes);
    assert_eq!(xor_name_from_hex(&text), Some(bytes));
    assert_eq!(dweb_cli::names::in_use_message("n", &[0x00, 0xff]), "DWEB-NAME 'n' already in use for HISTORY-ADDRESS '00ff'");
}
