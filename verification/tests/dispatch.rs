use pawn_requests::completion::{CompletionEvent, Delivery, Response, TransportFailure};
use pawn_requests::headers::Headers;
use pawn_requests::method::Method;
use pawn_requests::plugin::{
    request_reply,
    Plugin, AMX_ERR_INIT, AMX_ERR_NONE, FIRST_REQUEST_ID, REQUEST_FAILED,
};
use pawn_requests::request_client::{RequestClient, RequestError};

const GET: i32 = 0;
const POST: i32 = 2;

fn text(s: &str) -> String {
    s.to_string()
}

fn plugin_with_client(endpoint: &str) -> (Plugin, i32) {
    let mut plugin = Plugin::default();
    let handle = plugin.new_requests_client(text(endpoint), Headers::new()).unwrap();
    (plugin, handle)
}

fn answered(request_id: i32, status: u16, body: &str) -> CompletionEvent {
    CompletionEvent::completed(Response {
        request_id,
        status,
        headers: Vec::new(),
        body: body.as_bytes().to_vec(),
    })
}

#[test]
fn load_succeeds_and_statuses_are_the_hosts() {
    let plugin = Plugin::default();
    assert!(plugin.load());
    assert_eq!(plugin.amx_load(true), AMX_ERR_NONE);
    assert_eq!(plugin.amx_load(false), AMX_ERR_INIT);
    assert_eq!(plugin.amx_unload(), AMX_ERR_NONE);
    assert_eq!(AMX_ERR_NONE, 0);
    assert_eq!(AMX_ERR_INIT, 22);
    assert_eq!(REQUEST_FAILED, 1);
    assert_eq!(FIRST_REQUEST_ID, 2);
}

#[test]
fn created_clients_get_distinct_handles_and_resolve() {
    let mut plugin = Plugin::default();
    let mut handles = Vec::new();
    for i in 0..50 {
        let endpoint = format!("https://host{}.example", i);
        let handle = plugin.new_requests_client(endpoint.clone(), Headers::new()).unwrap();
        assert_eq!(plugin.client(handle).unwrap().endpoint(), endpoint);
        assert!(!handles.contains(&handle));
        handles.push(handle);
    }
    assert_eq!(handles[0], 1);
    for (i, handle) in handles.iter().enumerate() {
        assert_eq!(plugin.client(*handle).unwrap().endpoint(), format!("https://host{}.example", i));
    }
}

#[test]
fn client_keeps_its_default_headers() {
    let mut headers = Headers::new();
    headers.insert("User-Agent", "pawn").unwrap();
    let mut plugin = Plugin::default();
    let handle = plugin.new_requests_client(text("http://localhost:8080"), headers).unwrap();
    let client = plugin.client(handle).unwrap();
    assert_eq!(client.headers().get("user-agent"), Some(&text("pawn")));
    assert_eq!(client.headers().len(), 1);
}

#[test]
fn status_request_is_delivered_exactly_once() {
    let (mut plugin, handle) = plugin_with_client("https://example.com");
    let (id, request) =
        plugin.do_request(handle, text("/status"), GET, text("onStatus"), text(""), Headers::new());
    let request = request.expect("the request is to be started");
    assert_eq!(id, 2);
    assert_eq!(request.id, id);
    assert_eq!(request.method, Method::Get);
    assert_eq!(request.url, "https://example.com/status");
    assert_eq!(request.body, "");
    assert_eq!(request.headers.len(), 0);
    assert!(plugin.is_pending(id));
    assert_eq!(plugin.pending_count(), 1);

    let deliveries = plugin.process_tick(vec![answered(id, 200, "ok")]);
    assert_eq!(
        deliveries,
        vec![Delivery {
            callback: text("onStatus"),
            request_id: id,
            outcome: Ok(Response {
                request_id: id,
                status: 200,
                headers: Vec::new(),
                body: b"ok".to_vec(),
            }),
        }]
    );
    assert!(!plugin.is_pending(id));
    assert_eq!(plugin.pending_count(), 0);

    assert_eq!(plugin.process_tick(vec![answered(id, 200, "ok")]), Vec::new());
    assert_eq!(plugin.process_tick(Vec::new()), Vec::new());
}

#[test]
fn request_on_a_handle_never_allocated_fails_and_records_nothing() {
    let mut plugin = Plugin::default();
    let (cell, request) =
        plugin.do_request(4242, text("/status"), GET, text("onStatus"), text(""), Headers::new());
    assert_eq!(cell, REQUEST_FAILED);
    assert_eq!(cell, 1);
    assert!(request.is_none());
    assert_eq!(plugin.pending_count(), 0);

    let (mut plugin, handle) = plugin_with_client("https://example.com");
    for unknown in [handle + 1, 0, -1, i32::MAX, i32::MIN] {
        let (cell, request) =
            plugin.do_request(unknown, text("/"), GET, text("cb"), text(""), Headers::new());
        assert_eq!(cell, REQUEST_FAILED);
        assert!(request.is_none());
        assert_eq!(
            plugin
                .submit(unknown, text("/"), Method::Get, text("cb"), text(""), Headers::new())
                .unwrap_err(),
            RequestError::UnknownClient
        );
    }
    assert_eq!(plugin.pending_count(), 0);
    let (id, _) = plugin.do_request(handle, text("/"), GET, text("cb"), text(""), Headers::new());
    assert_eq!(id, FIRST_REQUEST_ID);
}

#[test]
fn callbacks_fire_in_delivery_order() {
    let (mut plugin, handle) = plugin_with_client("https://example.com");
    let (a, _) = plugin.do_request(handle, text("/a"), GET, text("onA"), text(""), Headers::new());
    let (b, _) = plugin.do_request(handle, text("/b"), GET, text("onB"), text(""), Headers::new());
    assert!(a < b);
    let deliveries = plugin.process_tick(vec![answered(b, 201, "B"), answered(a, 200, "A")]);
    let order: Vec<(String, i32)> =
        deliveries.iter().map(|d| (d.callback.clone(), d.request_id)).collect();
    assert_eq!(order, vec![(text("onB"), b), (text("onA"), a)]);
    assert_eq!(deliveries[0].outcome.as_ref().unwrap().body, b"B".to_vec());
    assert_eq!(deliveries[1].outcome.as_ref().unwrap().status, 200);
    assert_eq!(plugin.pending_count(), 0);
}

#[test]
fn delivery_order_holds_across_ticks() {
    let (mut plugin, handle) = plugin_with_client("https://example.com");
    let (a, _) = plugin.do_request(handle, text("/a"), GET, text("onA"), text(""), Headers::new());
    let (b, _) = plugin.do_request(handle, text("/b"), GET, text("onB"), text(""), Headers::new());
    let first = plugin.process_tick(vec![answered(b, 200, "")]);
    assert_eq!(first.len(), 1);
    assert_eq!(first[0].callback, "onB");
    assert!(plugin.is_pending(a));
    let second = plugin.process_tick(vec![answered(a, 200, "")]);
    assert_eq!(second.len(), 1);
    assert_eq!(second[0].callback, "onA");
}

#[test]
fn request_identifiers_start_at_two_and_increase() {
    let mut plugin = Plugin::default();
    let one = plugin.new_requests_client(text("https://one.example"), Headers::new()).unwrap();
    let two = plugin.new_requests_client(text("https://two.example"), Headers::new()).unwrap();
    let mut seen = Vec::new();
    for i in 0..100 {
        let handle = if i % 2 == 0 { one } else { two };
        let (id, request) =
            plugin.do_request(handle, text("/"), GET, text("cb"), text(""), Headers::new());
        assert!(request.is_some());
        assert_eq!(id, 2 + i);
        assert!(seen.iter().all(|earlier| *earlier < id));
        seen.push(id);
        if i % 3 == 0 {
            plugin.process_tick(vec![answered(id, 204, "")]);
        }
    }
}

#[test]
fn failed_submission_uses_up_no_identifier() {
    let (mut plugin, handle) = plugin_with_client("https://example.com");
    let (first, _) = plugin.do_request(handle, text("/"), GET, text("cb"), text(""), Headers::new());
    let (failed, _) =
        plugin.do_request(handle + 9, text("/"), GET, text("cb"), text(""), Headers::new());
    let (second, _) = plugin.do_request(handle, text("/"), GET, text("cb"), text(""), Headers::new());
    assert_eq!((first, failed, second), (2, 1, 3));
}

#[test]
fn malformed_url_is_an_invalid_request() {
    let (mut plugin, handle) = plugin_with_client("not a url");
    assert_eq!(
        plugin
            .submit(handle, text("/x"), Method::Get, text("cb"), text(""), Headers::new())
            .unwrap_err(),
        RequestError::InvalidRequest
    );
    let (cell, request) =
        plugin.do_request(handle, text("/x"), GET, text("cb"), text(""), Headers::new());
    assert_eq!(cell, REQUEST_FAILED);
    assert!(request.is_none());
    assert_eq!(plugin.pending_count(), 0);

    let (mut plugin, handle) = plugin_with_client("https://example.com:");
    let submitted =
        plugin.submit(handle, text("port"), Method::Get, text("cb"), text(""), Headers::new());
    assert_eq!(submitted.unwrap_err(), RequestError::InvalidRequest);
    let submitted =
        plugin.submit(handle, text("8080/ok"), Method::Get, text("cb"), text(""), Headers::new());
    assert_eq!(submitted.unwrap().url, "https://example.com:8080/ok");
}

#[test]
fn unsupported_method_fails_and_records_nothing() {
    let (mut plugin, handle) = plugin_with_client("https://example.com");
    for code in [-1, 9, 100, i32::MAX, i32::MIN] {
        let (cell, request) =
            plugin.do_request(handle, text("/"), code, text("cb"), text(""), Headers::new());
        assert_eq!(cell, REQUEST_FAILED);
        assert!(request.is_none());
    }
    assert_eq!(plugin.pending_count(), 0);
}

#[test]
fn method_codes_and_tokens() {
    let all = [
        (0, Method::Get, "GET"),
        (1, Method::Head, "HEAD"),
        (2, Method::Post, "POST"),
        (3, Method::Put, "PUT"),
        (4, Method::Delete, "DELETE"),
        (5, Method::Connect, "CONNECT"),
        (6, Method::Options, "OPTIONS"),
        (7, Method::Trace, "TRACE"),
        (8, Method::Patch, "PATCH"),
    ];
    for (code, method, token) in all {
        assert_eq!(Method::from_cell(code), Some(method));
        assert_eq!(method.to_cell(), code);
        assert_eq!(method.as_str(), token);
    }
    assert_eq!(Method::from_cell(-1), None);
    assert_eq!(Method::from_cell(9), None);
}

#[test]
fn request_carries_method_body_and_merged_headers() {
    let mut defaults = Headers::new();
    defaults.insert("Accept", "text/html").unwrap();
    defaults.insert("User-Agent", "pawn").unwrap();
    let mut plugin = Plugin::default();
    let handle = plugin.new_requests_client(text("http://api.example/v1"), defaults).unwrap();
    let mut extra = Headers::new();
    extra.insert("accept", "application/json").unwrap();
    extra.insert("X-Id", "7").unwrap();
    let (id, request) =
        plugin.do_request(handle, text("/items"), POST, text("onItems"), text("{\"a\":1}"), extra);
    let request = request.unwrap();
    assert_eq!(request.id, id);
    assert_eq!(request.method, Method::Post);
    assert_eq!(request.url, "http://api.example/v1/items");
    assert_eq!(request.body, "{\"a\":1}");
    assert_eq!(request.headers.len(), 3);
    assert_eq!(request.headers.get("Accept"), Some(&text("application/json")));
    assert_eq!(request.headers.get("User-Agent"), Some(&text("pawn")));
    assert_eq!(request.headers.get("x-id"), Some(&text("7")));
    let client = plugin.client(handle).unwrap();
    assert_eq!(client.headers().get("accept"), Some(&text("text/html")));
    assert_eq!(client.headers().len(), 2);
}

#[test]
fn tick_without_events_is_a_no_op() {
    let (mut plugin, handle) = plugin_with_client("https://example.com");
    assert_eq!(plugin.process_tick(Vec::new()), Vec::new());
    let (id, _) = plugin.do_request(handle, text("/"), GET, text("cb"), text(""), Headers::new());
    for _ in 0..10 {
        assert_eq!(plugin.process_tick(Vec::new()), Vec::new());
    }
    assert!(plugin.is_pending(id));
    assert_eq!(plugin.pending_count(), 1);
    assert!(plugin.client(handle).is_some());
}

#[test]
fn repeated_events_deliver_at_most_once() {
    let (mut plugin, handle) = plugin_with_client("https://example.com");
    let (id, _) = plugin.do_request(handle, text("/"), GET, text("cb"), text(""), Headers::new());
    let deliveries = plugin.process_tick(vec![
        answered(id, 200, "first"),
        answered(id, 200, "second"),
        CompletionEvent::failed(id, TransportFailure::Timeout),
    ]);
    assert_eq!(deliveries.len(), 1);
    assert_eq!(deliveries[0].outcome.as_ref().unwrap().body, b"first".to_vec());
    assert_eq!(plugin.process_tick(vec![answered(id, 200, "third")]), Vec::new());
}

#[test]
fn events_for_unknown_requests_are_dropped() {
    let (mut plugin, handle) = plugin_with_client("https://example.com");
    let (id, _) = plugin.do_request(handle, text("/"), GET, text("cb"), text(""), Headers::new());
    let deliveries = plugin.process_tick(vec![
        answered(id + 1, 200, ""),
        answered(0, 200, ""),
        answered(REQUEST_FAILED, 200, ""),
        answered(-5, 200, ""),
    ]);
    assert_eq!(deliveries, Vec::new());
    assert!(plugin.is_pending(id));
}

#[test]
fn transport_failures_reach_the_callback() {
    let (mut plugin, handle) = plugin_with_client("https://example.com");
    let failures = [
        TransportFailure::Timeout,
        TransportFailure::Connection,
        TransportFailure::Tls,
        TransportFailure::Decode,
    ];
    for failure in failures {
        let (id, _) =
            plugin.do_request(handle, text("/"), GET, text("onDone"), text(""), Headers::new());
        let deliveries = plugin.process_tick(vec![CompletionEvent::failed(id, failure)]);
        assert_eq!(
            deliveries,
            vec![Delivery { callback: text("onDone"), request_id: id, outcome: Err(failure) }]
        );
    }
}

#[test]
fn correlation_goes_by_the_identifier_of_the_event() {
    let (mut plugin, handle) = plugin_with_client("https://example.com");
    let (id, _) = plugin.do_request(handle, text("/"), GET, text("cb"), text(""), Headers::new());
    let event = CompletionEvent {
        request_id: id,
        outcome: Ok(Response { request_id: 999, status: 500, headers: Vec::new(), body: Vec::new() }),
    };
    let deliveries = plugin.process_tick(vec![event]);
    assert_eq!(deliveries.len(), 1);
    assert_eq!(deliveries[0].request_id, id);
    let event = CompletionEvent::completed(Response {
        request_id: 31,
        status: 200,
        headers: vec![(text("content-type"), text("text/plain"))],
        body: Vec::new(),
    });
    assert_eq!(event.request_id, 31);
}

#[test]
fn settle_takes_one_event() {
    let (mut plugin, handle) = plugin_with_client("https://example.com");
    let (id, _) = plugin.do_request(handle, text("/"), GET, text("cb"), text(""), Headers::new());
    assert_eq!(plugin.settle(answered(id + 1, 200, "")), None);
    let delivery = plugin.settle(answered(id, 404, "no")).unwrap();
    assert_eq!(delivery.callback, "cb");
    assert_eq!(delivery.outcome.unwrap().status, 404);
    assert_eq!(plugin.settle(answered(id, 404, "no")), None);
}

#[test]
fn unload_destroys_clients_and_cancels_pending_requests() {
    let (mut plugin, handle) = plugin_with_client("https://example.com");
    let (id, _) = plugin.do_request(handle, text("/"), GET, text("cb"), text(""), Headers::new());
    plugin.unload();
    assert!(plugin.client(handle).is_none());
    assert_eq!(plugin.pending_count(), 0);
    assert_eq!(plugin.process_tick(vec![answered(id, 200, "late")]), Vec::new());
    let (cell, request) =
        plugin.do_request(handle, text("/"), GET, text("cb"), text(""), Headers::new());
    assert_eq!((cell, request.is_none()), (REQUEST_FAILED, true));
    let again = plugin.new_requests_client(text("https://example.com"), Headers::new()).unwrap();
    assert_ne!(again, handle);
    let (next, _) = plugin.do_request(again, text("/"), GET, text("cb"), text(""), Headers::new());
    assert_eq!(next, id + 1);
}

#[test]
fn request_client_builds_without_a_dispatcher() {
    let client = RequestClient::new(text("https://example.com/api"), Headers::new());
    assert_eq!(client.endpoint(), "https://example.com/api");
    assert_eq!(client.target("/v2"), "https://example.com/api/v2");
    let request = client.request(17, "/v2", Method::Delete, &Headers::new(), text("gone")).unwrap();
    assert_eq!((request.id, request.method), (17, Method::Delete));
    assert_eq!(request.url, "https://example.com/api/v2");
    assert_eq!(request.body, "gone");

    let refused = client.assemble(
        17,
        text("https://example.com/api/v2"),
        false,
        Method::Get,
        &Headers::new(),
        text(""),
    );
    assert_eq!(refused.unwrap_err(), RequestError::InvalidRequest);
    let bad = RequestClient::new(text(""), Headers::new());
    assert_eq!(
        bad.request(1, "/relative", Method::Get, &Headers::new(), text("")).unwrap_err(),
        RequestError::InvalidRequest
    );
}

#[test]
fn callback_status_is_http_status_or_negative_indicator() {
    let delivered = |outcome| Delivery { callback: text("cb"), request_id: 2, outcome };
    let answer = |status| Response { request_id: 2, status, headers: Vec::new(), body: Vec::new() };
    assert_eq!(delivered(Ok(answer(200))).status(), 200);
    assert_eq!(delivered(Ok(answer(0))).status(), 0);
    assert_eq!(delivered(Ok(answer(u16::MAX))).status(), 65535);
    assert_eq!(delivered(Err(TransportFailure::Timeout)).status(), -1);
    assert_eq!(delivered(Err(TransportFailure::Connection)).status(), -2);
    assert_eq!(delivered(Err(TransportFailure::Tls)).status(), -3);
    assert_eq!(delivered(Err(TransportFailure::Decode)).status(), -4);
    assert_eq!(TransportFailure::Decode.to_cell(), -4);
}

#[test]
fn submission_with_a_given_verdict_on_the_url() {
    let (mut plugin, handle) = plugin_with_client("https://example.com");
    let refused = plugin.submit_given(
        handle,
        text("/status"),
        false,
        Method::Get,
        text("cb"),
        text(""),
        Headers::new(),
    );
    assert_eq!(refused.unwrap_err(), RequestError::InvalidRequest);
    assert_eq!(plugin.pending_count(), 0);
    let unknown = plugin.submit_given(
        handle + 1,
        text("/status"),
        true,
        Method::Get,
        text("cb"),
        text(""),
        Headers::new(),
    );
    assert_eq!(unknown.unwrap_err(), RequestError::UnknownClient);
    let request = plugin
        .submit_given(handle, text("/status"), true, Method::Put, text("cb"), text("b"), Headers::new())
        .unwrap();
    assert_eq!((request.id, request.method), (2, Method::Put));
    assert_eq!(request.url, "https://example.com/status");
    assert!(plugin.is_pending(2));
}

#[test]
fn client_tells_whether_a_path_makes_a_url() {
    let good = RequestClient::new(text("https://example.com"), Headers::new());
    assert!(good.accepts("/status"));
    assert!(good.accepts(""));
    assert!(!good.accepts(":not-a-port"));
    let bad = RequestClient::new(text("example"), Headers::new());
    assert!(!bad.accepts("/status"));
    let bare = RequestClient::new(text(""), Headers::new());
    assert!(bare.accepts("http://localhost/x"));
    assert!(!bare.accepts(""));
}

#[test]
fn reply_is_the_identifier_or_the_failure_value() {
    let client = RequestClient::new(text("https://example.com"), Headers::new());
    let request = client.request(40, "/", Method::Get, &Headers::new(), text("")).unwrap();
    let (cell, started) = request_reply(Ok(request));
    assert_eq!(cell, 40);
    assert_eq!(started.unwrap().id, 40);
    for error in [
        RequestError::UnknownClient,
        RequestError::InvalidRequest,
        RequestError::ResourceExhaustion,
    ] {
        let (cell, started) = request_reply(Err(error));
        assert_eq!(cell, 1);
        assert!(started.is_none());
    }
}
