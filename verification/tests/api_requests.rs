use dweb_cli::api_dweb::{
    content_type_or_plain, header_text, MutateHeaders, MutateQueryParams, ParsedRequestParams,
    RequestParamsError,
};
use dweb_cli::objects::{
    fork_counter, scratchpad_type_name, DwebChunk, DwebPointer, DwebScratchpad, DwebType,
    PointerTarget,
};
use dweb_cli::results::{
    make_failed_put_file_result, status_code_or, store_failure_message, MutateResult, PutResult,
    PutResultList, ResponsePlan,
};

const G1_GENERATOR: &str = "97f1d3a73197d7942695638c4fa9ac0fc3688c4f9774b905a14e3a3f171bac586c55e83ff97a1aeffb3af00adb22c6bb";
const SECRET_ONE: &str = "0000000000000000000000000000000000000000000000000000000000000001";

fn no_headers() -> MutateHeaders {
    MutateHeaders { tries: None, object_name: None, owner_secret: None, derivation_index: None, app_id: None }
}

fn no_query() -> MutateQueryParams {
    MutateQueryParams { object_name: None, tries: None, owner_secret: None, type_derivation_key: None }
}

fn bytes(t: &str) -> Option<Vec<u8>> {
    Some(t.as_bytes().to_vec())
}

#[test]
fn header_values_as_text() {
    assert_eq!(header_text(b"abc\tdef"), Some("abc\tdef".to_string()));
    assert_eq!(header_text(b""), Some(String::new()));
    assert_eq!(header_text(&[0x61, 0x0a]), None);
    assert_eq!(header_text(&[0xc3, 0xa9]), None);
}

#[test]
fn default_request_params() {
    let p = ParsedRequestParams::default();
    assert_eq!(p.tries, 1);
    assert!(p.object_name.is_none() && p.owner_secret.is_none());
    assert!(p.type_derivation_index.is_none() && p.app_id.is_none());
}

#[test]
fn query_takes_precedence_over_headers() {
    let mut h = no_headers();
    h.tries = bytes("7");
    h.object_name = bytes("from-header");
    let mut q = no_query();
    q.tries = Some(3);
    q.object_name = Some("from-query".to_string());
    let p = ParsedRequestParams::process_mutable_type_header_and_query_params(5, &h, &q).unwrap();
    assert_eq!(p.tries, 3);
    assert_eq!(p.object_name.as_deref(), Some("from-query"));
    let p = ParsedRequestParams::process_mutable_type_header_and_query_params(5, &h, &no_query()).unwrap();
    assert_eq!(p.tries, 7);
    assert_eq!(p.object_name.as_deref(), Some("from-header"));
}

#[test]
fn tries_default_when_header_unusable() {
    let mut h = no_headers();
    h.tries = bytes("many");
    let p = ParsedRequestParams::process_mutable_type_header_and_query_params(5, &h, &no_query()).unwrap();
    assert_eq!(p.tries, 5);
    let p = ParsedRequestParams::process_mutable_type_header_and_query_params(9, &no_headers(), &no_query()).unwrap();
    assert_eq!(p.tries, 9);
    assert!(p.object_name.is_none());
}

#[test]
fn owner_secret_and_derivation_index() {
    let mut h = no_headers();
    h.owner_secret = bytes(SECRET_ONE);
    h.derivation_index = bytes("0123456789abcdef0123456789abcdef");
    h.app_id = bytes("my-app");
    let p = ParsedRequestParams::process_mutable_type_header_and_query_params(1, &h, &no_query()).unwrap();
    assert!(p.owner_secret.is_some());
    assert_eq!(p.type_derivation_index, Some(*b"0123456789abcdef0123456789abcdef"));
    assert_eq!(p.app_id.as_deref(), Some("my-app"));
}

#[test]
fn query_parameters_override_headers() {
    let mut q = no_query();
    q.owner_secret = Some(SECRET_ONE.to_string());
    q.type_derivation_key = Some(*b"fedcba9876543210fedcba9876543210");
    let p = ParsedRequestParams::process_mutable_type_header_and_query_params(1, &no_headers(), &q).unwrap();
    assert!(p.owner_secret.is_some());
    assert_eq!(p.type_derivation_index, Some(*b"fedcba9876543210fedcba9876543210"));
    let mut h = no_headers();
    h.owner_secret = bytes("not hex");
    h.derivation_index = bytes("short");
    let p = ParsedRequestParams::process_mutable_type_header_and_query_params(1, &h, &q).unwrap();
    assert!(p.owner_secret.is_some());
    assert_eq!(p.type_derivation_index, Some(*b"fedcba9876543210fedcba9876543210"));
    q.owner_secret = Some("not hex".to_string());
    match ParsedRequestParams::process_mutable_type_header_and_query_params(1, &no_headers(), &q) {
        Err(e) => assert!(e.message().starts_with("Query parameter owner_secret is not a valid secret key - ")),
        Ok(_) => panic!("refused"),
    }
}

#[test]
fn secret_keys_below_the_scalar_order() {
    let mut q = no_query();
    q.owner_secret = Some("73eda753299d7d483339d80809a1d80553bda402fffe5bfeffffffff00000000".to_string());
    assert!(ParsedRequestParams::process_mutable_type_header_and_query_params(1, &no_headers(), &q).is_ok());
    q.owner_secret = Some("73eda753299d7d483339d80809a1d80553bda402fffe5bfeffffffff00000001".to_string());
    assert!(ParsedRequestParams::process_mutable_type_header_and_query_params(1, &no_headers(), &q).is_err());
    q.owner_secret = Some("0000000000000000000000000000000000000000000000000000000000000000".to_string());
    assert!(ParsedRequestParams::process_mutable_type_header_and_query_params(1, &no_headers(), &q).is_ok());
    q.owner_secret = Some("00".to_string());
    assert!(ParsedRequestParams::process_mutable_type_header_and_query_params(1, &no_headers(), &q).is_err());
}

#[test]
fn refused_headers() {
    let mut h = no_headers();
    h.owner_secret = bytes("not hex");
    match ParsedRequestParams::process_mutable_type_header_and_query_params(1, &h, &no_query()) {
        Err(RequestParamsError::OwnerSecretInvalid { .. }) => {}
        other => panic!("unexpected {other:?}"),
    }
    h.owner_secret = Some(vec![0x80]);
    match ParsedRequestParams::process_mutable_type_header_and_query_params(1, &h, &no_query()) {
        Err(e) => assert_eq!(
            e.message(),
            "Request header Ant-Owner-Secret is not a string - failed to convert header to a str"
        ),
        Ok(_) => panic!("refused"),
    }
    let mut h = no_headers();
    h.derivation_index = bytes("short");
    match ParsedRequestParams::process_mutable_type_header_and_query_params(1, &h, &no_query()) {
        Err(e) => assert_eq!(
            e.message(),
            "Request header Ant-Derivation-Index is not a 32 character string - could not convert slice to array"
        ),
        Ok(_) => panic!("refused"),
    }
    h.derivation_index = Some(vec![0x01; 32]);
    match ParsedRequestParams::process_mutable_type_header_and_query_params(1, &h, &no_query()) {
        Err(RequestParamsError::DerivationIndexNotString) => {}
        other => panic!("unexpected {other:?}"),
    }
    let mut h = no_headers();
    h.app_id = Some(vec![0x7f]);
    match ParsedRequestParams::process_mutable_type_header_and_query_params(1, &h, &no_query()) {
        Err(e) => assert_eq!(
            e.message(),
            "Request header Ant-App-ID is not a string - failed to convert header to a str"
        ),
        Ok(_) => panic!("refused"),
    }
    assert_eq!(
        RequestParamsError::OwnerSecretInvalid { reason: "bad".to_string() }.message(),
        "Request header Ant-Owner-Secret is not a valid secret key - bad"
    );
    assert_eq!(
        RequestParamsError::DerivationIndexNotString.message(),
        "Request header Ant-Derivation-Index is not a string - failed to convert header to a str"
    );
}

#[test]
fn app_id_header_alone() {
    let mut p = ParsedRequestParams::default();
    assert!(p.parse_app_id_header_params(Some(&b"app-1"[..])).is_ok());
    assert_eq!(p.app_id.as_deref(), Some("app-1"));
    assert_eq!(p.tries, 1);
    let mut p = ParsedRequestParams::default();
    assert!(p.parse_app_id_header_params(None).is_ok());
    assert!(p.app_id.is_none());
}

#[test]
fn pointer_targets() {
    let mut p = DwebPointer::default();
    assert!(p.pointer_target().is_err());
    assert_eq!(p.pointer_target().unwrap_err().message(), "missing or invalid Pointer target");
    p.scratchpad_target_address = G1_GENERATOR.to_string();
    match p.pointer_target().unwrap() {
        PointerTarget::ScratchpadAddress(a) => assert_eq!(hex::encode(a), G1_GENERATOR),
        other => panic!("unexpected {other:?}"),
    }
    p.pointer_target_address = G1_GENERATOR.to_string();
    assert!(matches!(p.pointer_target().unwrap(), PointerTarget::PointerAddress(_)));
    p.graphentry_target_address = G1_GENERATOR.to_string();
    assert!(matches!(p.pointer_target().unwrap(), PointerTarget::GraphEntryAddress(_)));
    p.chunk_target_address = "11".repeat(32);
    assert_eq!(p.pointer_target().unwrap(), PointerTarget::ChunkAddress(vec![0x11; 32]));
    p.chunk_target_address = "11".repeat(31);
    assert!(p.chunk_target_address().is_err());
    assert!(matches!(p.pointer_target().unwrap(), PointerTarget::GraphEntryAddress(_)));
    let d = DwebPointer::default();
    assert_eq!(d.counter, 0);
    assert!(d.pointer_address.is_empty());
}

#[test]
fn scratchpads_and_chunks() {
    let d = DwebScratchpad::default();
    assert_eq!(d.dweb_type, DwebType::PrivateScratchpad);
    assert_eq!((d.data_encoding, d.counter), (0, 0));
    assert!(d.encrypted_data.is_empty() && d.unencrypted_data.is_empty());
    let app = Some("chat".to_string());
    let name = Some("room".to_string());
    assert_eq!(scratchpad_type_name(0, &app, &name), Some("chat-scratchpad-room".to_string()));
    assert_eq!(scratchpad_type_name(0, &app, &None), Some("chat-scratchpad-".to_string()));
    assert_eq!(scratchpad_type_name(3, &app, &name), None);
    assert_eq!(scratchpad_type_name(0, &None, &name), None);
    assert_eq!(fork_counter(41), 42);
    let c = DwebChunk { content: "hello".to_string() };
    assert_eq!(c.content, "hello");
}

#[test]
fn mutate_results() {
    let d = MutateResult::default();
    assert_eq!(d.status_code, 418);
    assert_eq!(d.cost_in_ant, "0.0");
    assert_eq!(d.cost_in_arb_eth, "0.0");
    assert_eq!(d.dweb_type, DwebType::Unknown);
    assert_eq!(d.response_plan(), ResponsePlan::ErrorPage { status: 418 });
    let r = MutateResult::stored(DwebType::Pointer, "/pointer POST".to_string(), 201, None, "ab".to_string());
    assert_eq!(r.status_message, "success");
    assert_eq!((r.cost_in_ant.as_str(), r.cost_in_arb_eth.as_str()), ("unkown", "unknown"));
    assert_eq!(r.response_plan(), ResponsePlan::Json { status: 201 });
    let r = MutateResult::stored(
        DwebType::Pointer,
        "/pointer PUT".to_string(),
        200,
        Some(("1".to_string(), "2".to_string())),
        "cd".to_string(),
    );
    assert_eq!((r.cost_in_ant.as_str(), r.cost_in_arb_eth.as_str()), ("1", "2"));
    assert_eq!(r.network_address, "cd");
    let f = MutateResult::failed(DwebType::Scratchpad, "op".to_string(), 502, "down".to_string());
    assert_eq!(f.response_plan(), ResponsePlan::ErrorPage { status: 502 });
    let odd = MutateResult::failed(DwebType::Scratchpad, "op".to_string(), 42, "?".to_string());
    assert_eq!(odd.response_plan(), ResponsePlan::ErrorPage { status: 502 });
    assert_eq!(status_code_or(1000, 500), 500);
    assert_eq!(status_code_or(299, 500), 299);
    assert_eq!(
        store_failure_message("private Scratchpad", "timeout"),
        "failed store private Scratchpad on the network - timeout"
    );
}

#[test]
fn put_results() {
    let f = make_failed_put_file_result("a.txt".to_string(), 500, "read failed".to_string());
    assert_eq!(f.dweb_type, DwebType::PublicFile);
    assert_eq!((f.status_code, f.cost_in_attos.as_str(), f.file_name.as_str()), (500, "0", "a.txt"));
    let s = PutResult::stored(DwebType::PublicArchive, 200, "12".to_string(), "ff".to_string(), true);
    assert_eq!((s.data_address.as_str(), s.data_map.as_str()), ("ff", ""));
    let s = PutResult::stored(DwebType::PrivateArchive, 200, "12".to_string(), "ee".to_string(), false);
    assert_eq!((s.data_address.as_str(), s.data_map.as_str()), ("", "ee"));
    let e = PutResult::failed(DwebType::PrivateArchive, 502, "no".to_string());
    assert_eq!(e.cost_in_attos, "0");
    let list = PutResultList { put_results: vec![f, s, e] };
    assert_eq!(list.put_results.len(), 3);
    assert_eq!(content_type_or_plain(None), "text/plain");
    assert_eq!(content_type_or_plain(Some("image/png".to_string())), "image/png");
}
