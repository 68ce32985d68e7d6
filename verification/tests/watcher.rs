use pool_watcher::pool::QueryReply;
use pool_watcher::watcher::{
    block_height, block_height_in, Action, Frame, LoopEvent, LoopState, PoolEvent, PoolWatcher,
    SUBSCRIBE_MSG,
};

const REGULAR: &str = "terra14zhkur7l7ut7tx6kvj28fp5q982lrqns59mnp3";
const PRISM: &str = "terra19d2alknajcngdezrdhq40h6362k92kz23sz62u";

fn regular_body() -> String {
    "{\"query_result\":{\"assets\":[{\"info\":{\"token\":{\"contract_addr\":\"terra1xyz\"}},\"amount\":\"1234\"},{\"info\":{\"native_token\":{\"denom\":\"uusd\"}},\"amount\":\"5678\"}],\"total_share\":\"2650\"}}".to_string()
}

fn prism_body() -> String {
    "{\"query_result\":{\"assets\":[{\"info\":{\"cw20\":\"terra1prism\"},\"amount\":\"900\"}],\"total_share\":\"123\"}}".to_string()
}

fn ok(body: String) -> LoopEvent {
    LoopEvent::Reply(QueryReply::Response { status: 200, body })
}

fn new_block(height: &str) -> LoopEvent {
    LoopEvent::Frame(Frame::Text(format!(
        "{{\"jsonrpc\":\"2.0\",\"id\":0,\"result\":{{\"query\":\"tm.event='NewBlockHeader'\",\"data\":{{\"type\":\"tendermint/event/NewBlockHeader\",\"value\":{{\"header\":{{\"chain_id\":\"columbus-5\",\"height\":\"{}\"}},\"num_txs\":\"0\"}}}}}}}}",
        height
    )))
}

fn watcher(addresses: &[&str]) -> PoolWatcher {
    let pools: Vec<String> = addresses.iter().map(|a| a.to_string()).collect();
    PoolWatcher::new("ws://172.16.0.1:26657/websocket", "http://lcd.terra.dev", &pools)
}

fn url(address: &str) -> String {
    format!(
        "http://lcd.terra.dev/terra/wasm/v1beta1/contracts/{}/store?query_msg=eyJwb29sIjp7fX0=",
        address
    )
}

/// Feeds the events to the loop in order, and gives back the state it ends in and what it asked.
fn drive(w: &PoolWatcher, events: Vec<LoopEvent>) -> (LoopState, Vec<Action>) {
    let mut state = PoolWatcher::initial_state();
    let mut actions = Vec::new();
    for event in events {
        let (next, action) = w.step(state, event);
        state = next;
        actions.push(action);
    }
    (state, actions)
}

#[test]
fn subscribe_message_asks_for_new_block_headers() {
    assert_eq!(
        SUBSCRIBE_MSG,
        "{\"jsonrpc\":\"2.0\",\"method\":\"subscribe\",\"id\":0,\"params\":{\"query\":\"tm.event='NewBlockHeader'\"}}"
    );
    let doc = serde_json::from_str::<serde_json::Value>(SUBSCRIBE_MSG).unwrap();
    assert_eq!(doc["jsonrpc"].as_str(), Some("2.0"));
    assert_eq!(doc["method"].as_str(), Some("subscribe"));
    assert_eq!(doc["id"].as_u64(), Some(0));
    assert_eq!(doc["params"]["query"].as_str(), Some("tm.event='NewBlockHeader'"));
}

#[test]
fn new_keeps_the_configuration() {
    let pools = vec!["terraXXX".to_string(), "terraYYY".to_string()];
    let w = PoolWatcher::new("ws://172.16.0.1:26657/websocket", "http://lcd.terra.dev", &pools);
    assert_eq!(w.websocket_address(), "ws://172.16.0.1:26657/websocket");
    assert_eq!(w.pool_manager().chain_url, "http://lcd.terra.dev");
    assert_eq!(w.pools(), &pools[..]);
}

#[test]
fn new_with_no_pool() {
    let w = PoolWatcher::new("", "", &[]);
    assert_eq!(w.websocket_address(), "");
    assert_eq!(w.pool_manager().chain_url, "");
    assert!(w.pools().is_empty());
}

#[test]
fn block_height_is_the_string_under_the_header() {
    let text = "{\"result\":{\"data\":{\"value\":{\"header\":{\"height\":\"7654321\"}}}}}";
    assert_eq!(block_height(text), Some("7654321".to_string()));
    let doc = serde_json::from_str::<serde_json::Value>(text).unwrap();
    assert_eq!(block_height_in(&doc), Some("7654321".to_string()));
    assert_eq!(block_height("{\"result\":{\"data\":{\"value\":{\"header\":{\"height\":\"\"}}}}}"), Some(String::new()));
}

#[test]
fn block_height_needs_the_whole_path_and_a_string() {
    assert_eq!(block_height(""), None);
    assert_eq!(block_height("hello"), None);
    assert_eq!(block_height("{}"), None);
    assert_eq!(block_height("{\"jsonrpc\":\"2.0\",\"id\":0,\"result\":{}}"), None);
    assert_eq!(block_height("{\"result\":{\"data\":{\"value\":{\"header\":{}}}}}"), None);
    assert_eq!(block_height("{\"result\":{\"data\":{\"value\":{\"header\":{\"height\":7654321}}}}}"), None);
    assert_eq!(block_height("{\"result\":{\"data\":{\"value\":{\"header\":{\"height\":null}}}}}"), None);
    assert_eq!(block_height("{\"data\":{\"value\":{\"header\":{\"height\":\"1\"}}}}"), None);
    assert_eq!(block_height("{\"height\":\"1\"}"), None);
    assert_eq!(block_height("{\"result\":[{\"data\":{\"value\":{\"header\":{\"height\":\"1\"}}}}]}"), None);
}

#[test]
fn loop_starts_waiting_for_a_message() {
    assert!(matches!(PoolWatcher::initial_state(), LoopState::WaitingForMessage));
}

#[test]
fn ping_is_answered_by_one_pong_with_the_same_payload() {
    let w = watcher(&[REGULAR]);
    let payload = vec![0u8, 1, 2, 255, 7];
    let (state, action) = w.step(LoopState::WaitingForMessage, LoopEvent::Frame(Frame::Ping(payload.clone())));
    assert!(matches!(state, LoopState::WaitingForMessage));
    match action {
        Action::SendPong(sent) => assert_eq!(sent, payload),
        other => panic!("unexpected action: {:?}", other),
    }
    let (state, action) = w.step(LoopState::WaitingForMessage, LoopEvent::Frame(Frame::Ping(Vec::new())));
    assert!(matches!(state, LoopState::WaitingForMessage));
    match action {
        Action::SendPong(sent) => assert!(sent.is_empty()),
        other => panic!("unexpected action: {:?}", other),
    }
}

#[test]
fn pong_that_cannot_be_sent_ends_the_loop() {
    let w = watcher(&[REGULAR]);
    let (state, actions) = drive(&w, vec![LoopEvent::Frame(Frame::Ping(vec![1])), LoopEvent::PongFailed]);
    assert!(matches!(state, LoopState::Closed));
    assert!(matches!(actions[0], Action::SendPong(_)));
    assert!(matches!(actions[1], Action::Stop));
}

#[test]
fn close_ends_the_loop_and_nothing_is_published_afterwards() {
    let w = watcher(&[REGULAR]);
    let events = vec![
        LoopEvent::Frame(Frame::Close),
        new_block("10"),
        ok(regular_body()),
        LoopEvent::Frame(Frame::Ping(vec![1])),
        LoopEvent::ReceiveFailed,
        LoopEvent::Frame(Frame::Close),
    ];
    let n = events.len();
    let (state, actions) = drive(&w, events);
    assert!(matches!(state, LoopState::Closed));
    assert_eq!(actions.len(), n);
    for action in actions {
        assert!(matches!(action, Action::Stop));
    }
}

#[test]
fn other_frames_are_passed_over() {
    let w = watcher(&[REGULAR]);
    let events = vec![
        LoopEvent::Frame(Frame::Binary(vec![1, 2, 3])),
        LoopEvent::Frame(Frame::Pong(vec![4])),
        LoopEvent::Frame(Frame::Text("".to_string())),
        LoopEvent::Frame(Frame::Text("{\"jsonrpc\":\"2.0\",\"id\":0,\"result\":{}}".to_string())),
        LoopEvent::ReceiveFailed,
        ok(regular_body()),
    ];
    let (state, actions) = drive(&w, events);
    assert!(matches!(state, LoopState::WaitingForMessage));
    assert_eq!(actions.len(), 6);
    for action in actions {
        assert!(matches!(action, Action::Wait));
    }
}

#[test]
fn new_block_starts_with_the_query_of_the_first_address() {
    let w = watcher(&[REGULAR, PRISM]);
    let (state, action) = w.step(LoopState::WaitingForMessage, new_block("100"));
    match state {
        LoopState::Dispatching { next, pools } => {
            assert_eq!(next, 0);
            assert!(pools.is_empty());
        }
        other => panic!("unexpected state: {:?}", other),
    }
    match action {
        Action::Query(u) => assert_eq!(u, url(REGULAR)),
        other => panic!("unexpected action: {:?}", other),
    }
}

#[test]
fn new_block_with_no_address_publishes_an_empty_snapshot() {
    let w = watcher(&[]);
    let (state, mut actions) = drive(&w, vec![new_block("100")]);
    assert!(matches!(state, LoopState::WaitingForMessage));
    match actions.remove(0) {
        Action::Publish(PoolEvent::UpdatedPool(pools)) => assert!(pools.is_empty()),
        other => panic!("unexpected action: {:?}", other),
    }
}

#[test]
fn frames_are_not_taken_while_a_cycle_is_under_way() {
    let w = watcher(&[REGULAR]);
    let events = vec![
        new_block("100"),
        LoopEvent::Frame(Frame::Ping(vec![9])),
        new_block("101"),
        LoopEvent::Frame(Frame::Close),
        LoopEvent::ReceiveFailed,
        LoopEvent::PongFailed,
    ];
    let (state, actions) = drive(&w, events);
    assert!(matches!(state, LoopState::Dispatching { next: 0, .. }));
    assert!(matches!(actions[0], Action::Query(_)));
    for action in &actions[1..] {
        assert!(matches!(action, Action::Wait));
    }
}

#[test]
fn one_new_block_gives_one_event_with_both_pools() {
    let w = watcher(&[REGULAR, PRISM]);
    let (state, mut actions) = drive(&w, vec![new_block("100"), ok(regular_body()), ok(prism_body())]);
    assert!(matches!(state, LoopState::WaitingForMessage));
    assert_eq!(actions.len(), 3);
    let published = actions.iter().filter(|a| matches!(a, Action::Publish(_))).count();
    assert_eq!(published, 1);
    match &actions[0] {
        Action::Query(u) => assert_eq!(u, &url(REGULAR)),
        other => panic!("unexpected action: {:?}", other),
    }
    match &actions[1] {
        Action::Query(u) => assert_eq!(u, &url(PRISM)),
        other => panic!("unexpected action: {:?}", other),
    }
    match actions.remove(2) {
        Action::Publish(PoolEvent::UpdatedPool(pools)) => {
            assert_eq!(pools.len(), 2);
            let regular = pools.get(REGULAR).unwrap();
            assert_eq!(regular.assets.len(), 2);
            assert_eq!(regular.total_share, "2650");
            let prism = pools.get(PRISM).unwrap();
            assert!(!prism.assets.is_empty());
            assert_eq!(prism.assets.len(), 1);
            assert_eq!(prism.total_share, "123");
        }
        other => panic!("unexpected action: {:?}", other),
    }
}

#[test]
fn two_new_blocks_give_two_cycles_and_two_events_in_order() {
    let w = watcher(&[REGULAR]);
    let second_body = "{\"query_result\":{\"assets\":[1],\"total_share\":\"2700\"}}".to_string();
    let events = vec![
        new_block("100"),
        ok(regular_body()),
        new_block("101"),
        ok(second_body),
    ];
    let (state, actions) = drive(&w, events);
    assert!(matches!(state, LoopState::WaitingForMessage));
    assert_eq!(actions.len(), 4);
    assert!(matches!(actions[0], Action::Query(_)));
    assert!(matches!(actions[2], Action::Query(_)));
    match &actions[1] {
        Action::Publish(PoolEvent::UpdatedPool(pools)) => {
            assert_eq!(pools.get(REGULAR).unwrap().total_share, "2650")
        }
        other => panic!("unexpected action: {:?}", other),
    }
    match &actions[3] {
        Action::Publish(PoolEvent::UpdatedPool(pools)) => {
            assert_eq!(pools.get(REGULAR).unwrap().total_share, "2700")
        }
        other => panic!("unexpected action: {:?}", other),
    }
}

#[test]
fn failed_query_does_not_stop_the_cycle() {
    let w = watcher(&["a", "b", "c"]);
    let events = vec![
        new_block("5"),
        ok(regular_body()),
        LoopEvent::Reply(QueryReply::Failed),
        LoopEvent::Reply(QueryReply::Response { status: 200, body: prism_body() }),
    ];
    let (state, mut actions) = drive(&w, events);
    assert!(matches!(state, LoopState::WaitingForMessage));
    match &actions[2] {
        Action::Query(u) => assert_eq!(u, &url("c")),
        other => panic!("unexpected action: {:?}", other),
    }
    match actions.remove(3) {
        Action::Publish(PoolEvent::UpdatedPool(pools)) => {
            assert_eq!(pools.len(), 2);
            assert!(pools.contains_key("a"));
            assert!(!pools.contains_key("b"));
            assert_eq!(pools.get("c").unwrap().total_share, "123");
        }
        other => panic!("unexpected action: {:?}", other),
    }
}

#[test]
fn cycle_in_which_every_query_fails_publishes_an_empty_snapshot() {
    let w = watcher(&["a", "b"]);
    let events = vec![
        new_block("5"),
        LoopEvent::Reply(QueryReply::Failed),
        LoopEvent::Reply(QueryReply::Response { status: 404, body: regular_body() }),
    ];
    let (_, mut actions) = drive(&w, events);
    match actions.remove(2) {
        Action::Publish(PoolEvent::UpdatedPool(pools)) => assert!(pools.is_empty()),
        other => panic!("unexpected action: {:?}", other),
    }
}

#[test]
fn on_text_and_on_reply_carry_the_step_on() {
    let w = watcher(&["a"]);
    let (state, action) = w.on_text(None);
    assert!(matches!(state, LoopState::WaitingForMessage));
    assert!(matches!(action, Action::Wait));
    let (state, action) = w.on_text(Some("12".to_string()));
    assert!(matches!(action, Action::Query(_)));
    let (next, pools) = match state {
        LoopState::Dispatching { next, pools } => (next, pools),
        other => panic!("unexpected state: {:?}", other),
    };
    let pool = QueryReply::Response { status: 200, body: regular_body() }.pool();
    let (state, action) = w.on_reply(next, pools, pool);
    assert!(matches!(state, LoopState::WaitingForMessage));
    match action {
        Action::Publish(PoolEvent::UpdatedPool(pools)) => {
            assert_eq!(pools.len(), 1);
            assert_eq!(pools.get("a").unwrap().total_share, "2650");
        }
        other => panic!("unexpected action: {:?}", other),
    }
}
