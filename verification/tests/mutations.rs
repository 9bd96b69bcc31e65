use dweb_cli::api_dweb::RequestParamsError;
use dweb_cli::mutations::{ContentTypeChoice, MutateOperation, StoreCall, StoreOutcome};
use dweb_cli::objects::DwebType;
use dweb_cli::results::ResponsePlan;

fn stored(costs: Option<(&str, &str)>) -> StoreOutcome {
    StoreOutcome::Stored {
        address: "abcd".to_string(),
        costs: costs.map(|(a, e)| (a.to_string(), e.to_string())),
    }
}

#[test]
fn pointer_results() {
    let r = MutateOperation::PointerPost.result(stored(Some(("1", "2"))));
    assert_eq!((r.status_code, r.status_message.as_str()), (201, "success"));
    assert_eq!((r.cost_in_ant.as_str(), r.cost_in_arb_eth.as_str()), ("1", "2"));
    assert_eq!(r.network_address, "abcd");
    assert_eq!(r.rest_operation, "/pointer POST");
    assert_eq!(r.dweb_type, DwebType::Pointer);
    assert_eq!(r.response_plan(), ResponsePlan::Json { status: 201 });
    let r = MutateOperation::PointerPut.result(stored(None));
    assert_eq!(r.status_code, 200);
    assert_eq!((r.cost_in_ant.as_str(), r.cost_in_arb_eth.as_str()), ("unkown", "unknown"));
}

#[test]
fn scratchpad_results() {
    let r = MutateOperation::PrivateScratchpadPut.result(stored(Some(("1", "2"))));
    assert_eq!((r.status_code, r.cost_in_ant.as_str(), r.network_address.as_str()), (200, "0.0", ""));
    let r = MutateOperation::PublicScratchpadPut.result(stored(Some(("1", "2"))));
    assert_eq!((r.cost_in_ant.as_str(), r.network_address.as_str()), ("1", ""));
    let r = MutateOperation::PublicScratchpadPost.result(stored(Some(("1", "2"))));
    assert_eq!((r.status_code, r.network_address.as_str()), (201, "abcd"));
    assert_eq!(r.dweb_type, DwebType::PublicScratchpad);
    let r = MutateOperation::PrivateScratchpadPost.result(StoreOutcome::Failed { error: "timeout".to_string() });
    assert_eq!(r.status_code, 502);
    assert_eq!(r.status_message, "failed store private Scratchpad on the network - timeout");
    assert_eq!(r.response_plan(), ResponsePlan::ErrorPage { status: 502 });
    assert_eq!(MutateOperation::ScratchpadPut.rest_handler(), "scratchpad_put()");
    assert_eq!(MutateOperation::PublicScratchpadPut.rest_type(), "public Scratchpad");
}

#[test]
fn chunk_results() {
    let r = MutateOperation::ChunkPost.result(stored(Some(("1", "2"))));
    assert_eq!((r.status_code, r.rest_operation.as_str()), (201, ""));
    assert_eq!((r.cost_in_ant.as_str(), r.network_address.as_str()), ("0.0", "abcd"));
    let r = MutateOperation::ChunkPost.result(StoreOutcome::Failed { error: "e".to_string() });
    assert_eq!(r.status_message, "chunk_post() failed store Chunk on the network - e");
    assert_eq!(MutateOperation::ChunkPost.rest_operation(), "/chunk POST");
}

#[test]
fn refusals_before_storing() {
    let p = MutateOperation::PointerPost.params_refusal(&RequestParamsError::AppIdNotString);
    assert_eq!((p.status, p.heading.as_str()), (400, "/pointer POST"));
    assert_eq!(
        p.message,
        "/pointer POST request error - Request header Ant-App-ID is not a string - failed to convert header to a str"
    );
    let p = MutateOperation::PointerPut.owner_secret_refusal("no key");
    assert_eq!((p.status, p.heading.as_str()), (500, "/pointer PUT"));
    assert_eq!(p.message, "pointer_put() failed to get owner secret for Pointer - no key");
    let p = MutateOperation::PrivateScratchpadPost.owner_secret_refusal("no key");
    assert_eq!((p.status, p.heading.as_str()), (400, "/scratchpad-private POST"));
    assert_eq!(p.message, "scratchpad_private_post() failed to derive owner secret for private Scratchpad - no key");
    let p = MutateOperation::ScratchpadPost.owner_secret_refusal("no key");
    assert_eq!((p.status, p.heading.as_str()), (500, "/scratchpad POST"));
    assert_eq!(p.message, "scratchpad_post() scratchpad_post() failed to load secret key - no key");
    let r = MutateOperation::PointerPost.target_refusal("no target");
    assert_eq!((r.status_code, r.status_message.as_str()), (400, "pointer_post() failed - no target"));
    assert_eq!(r.rest_operation, "/pointer POST");
}

#[test]
fn store_plans() {
    let app = Some("chat".to_string());
    let name = Some("room".to_string());
    let plan = MutateOperation::PrivateScratchpadPost.store_plan(0, 9, &app, &name);
    assert_eq!((plan.call, plan.counter), (StoreCall::Create, None));
    match plan.content_type {
        ContentTypeChoice::DerivedFrom(n) => assert_eq!(n, "chat-scratchpad-room"),
        ContentTypeChoice::Given(_) => panic!("the type is derived from the app"),
    }
    let plan = MutateOperation::PrivateScratchpadPost.store_plan(7, 9, &app, &name);
    assert!(matches!(plan.content_type, ContentTypeChoice::Given(7)));
    let plan = MutateOperation::PrivateScratchpadPut.store_plan(0, 9, &app, &name);
    assert_eq!((plan.call, plan.counter), (StoreCall::Update, None));
    assert!(matches!(plan.content_type, ContentTypeChoice::Given(0)));
    let plan = MutateOperation::PublicScratchpadPost.store_plan(0, 9, &app, &None);
    assert_eq!((plan.call, plan.counter), (StoreCall::Put, Some(0)));
    assert!(matches!(plan.content_type, ContentTypeChoice::Given(0)));
    let plan = MutateOperation::PublicScratchpadPut.store_plan(3, 9, &None, &None);
    assert_eq!((plan.call, plan.counter), (StoreCall::Put, Some(9)));
    let plan = MutateOperation::PointerPut.store_plan(0, 4, &None, &None);
    assert_eq!((plan.call, plan.counter), (StoreCall::Put, Some(4)));
    let plan = MutateOperation::PointerPost.store_plan(0, 4, &None, &None);
    assert_eq!((plan.call, plan.counter), (StoreCall::Create, None));
}
