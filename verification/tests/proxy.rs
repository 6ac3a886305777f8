use axum::http::{HeaderMap, HeaderName, HeaderValue};
use codex_egress_relay::config::Config;
use codex_egress_relay::proxy::{
    error_json, health, proxy, response_headers, upstream_url, ProxyAction, ProxyEvent, ProxyState,
    STRIP_RESPONSE,
};

fn relay_cfg() -> Config {
    Config {
        upstream_base_url: "https://upstream.test/codex".to_owned(),
        port: 18092,
        user_agent: "codex-tui/1".to_owned(),
        originator: "codex-tui".to_owned(),
        beta_features: "beta".to_owned(),
        installation_id: "inst".to_owned(),
        accept_encoding: "gzip".to_owned(),
        max_body_bytes: 1234,
        timeout_secs: 120,
    }
}

#[test]
fn url_joins_base_path_and_query() {
    assert_eq!(upstream_url("http://a/b", "/v1/x", &None), "http://a/b/v1/x");
    assert_eq!(
        upstream_url("http://a/b", "/v1/x", &Some("q=1&r".to_owned())),
        "http://a/b/v1/x?q=1&r"
    );
    assert_eq!(
        upstream_url("http://a", "/", &Some(String::new())),
        "http://a/?"
    );
}

#[test]
fn health_reports_the_identity() {
    let reply = health(&relay_cfg());
    assert_eq!(reply.status, 200);
    assert_eq!(reply.content_type, "application/json");
    assert_eq!(
        reply.body,
        "{\"beta_features\":\"beta\",\"egress\":\"rustls-single-process\",\
         \"installation_id\":\"inst\",\"originator\":\"codex-tui\",\"status\":\"ok\",\
         \"ua\":\"codex-tui/1\",\"upstream\":\"https://upstream.test/codex\"}"
    );
}

#[test]
fn errors_are_json_objects() {
    let reply = error_json(418, "kind", "say \"hi\"");
    assert_eq!(reply.status, 418);
    assert_eq!(reply.content_type, "application/json");
    assert_eq!(
        reply.body,
        "{\"error\":{\"message\":\"say \\\"hi\\\"\",\"type\":\"kind\"}}"
    );
}

#[test]
fn response_headers_lose_the_stripped_ones() {
    let mut upstream = HeaderMap::new();
    for name in STRIP_RESPONSE {
        upstream.insert(HeaderName::from_static(name), HeaderValue::from_static("1"));
    }
    upstream.insert("content-encoding", HeaderValue::from_static("gzip"));
    upstream.append("set-cookie", HeaderValue::from_static("a=1"));
    upstream.append("set-cookie", HeaderValue::from_static("b=2"));
    let out = response_headers(&upstream);
    assert_eq!(out.len(), 2);
    assert_eq!(out.get("content-encoding").unwrap(), "gzip");
    let cookies: Vec<&HeaderValue> = out.get_all("set-cookie").iter().collect();
    assert_eq!(cookies, vec!["b=2"]);
}

fn reading(cfg: &Config) -> ProxyState {
    let mut headers = HeaderMap::new();
    headers.insert("x-a", HeaderValue::from_static("1"));
    headers.insert("host", HeaderValue::from_static("h"));
    let head = ProxyEvent::Head {
        path: "/v1/responses".to_owned(),
        query: Some("s=1".to_owned()),
        headers,
    };
    let (state, action) = proxy(cfg, ProxyState::Start, head);
    assert!(matches!(action, ProxyAction::ReadBody { limit: 1234 }));
    state
}

fn sent(cfg: &Config) -> ProxyState {
    let (state, action) = proxy(cfg, reading(cfg), ProxyEvent::BodyRead);
    match action {
        ProxyAction::Send { url, headers } => {
            assert_eq!(url, "https://upstream.test/codex/v1/responses?s=1");
            assert_eq!(headers.get("x-a").unwrap(), "1");
            assert!(headers.get("host").is_none());
            assert_eq!(headers.get("originator").unwrap(), "codex-tui");
        }
        _ => panic!("the request is not sent"),
    }
    state
}

#[test]
fn request_is_sent_and_its_reply_forwarded() {
    let cfg = relay_cfg();
    let mut headers = HeaderMap::new();
    headers.insert("content-length", HeaderValue::from_static("3"));
    headers.insert("content-type", HeaderValue::from_static("text/event-stream"));
    let (state, action) = proxy(
        &cfg,
        sent(&cfg),
        ProxyEvent::Replied {
            status: 429,
            headers,
        },
    );
    assert!(matches!(state, ProxyState::Done));
    match action {
        ProxyAction::Forward { status, headers } => {
            assert_eq!(status, 429);
            assert_eq!(headers.len(), 1);
            assert_eq!(headers.get("content-type").unwrap(), "text/event-stream");
        }
        _ => panic!("the reply is not forwarded"),
    }
}

fn answer(state: ProxyState, event: ProxyEvent) -> (u16, String) {
    let (state, action) = proxy(&relay_cfg(), state, event);
    assert!(matches!(state, ProxyState::Done));
    match action {
        ProxyAction::Answer(reply) => (reply.status, reply.body),
        _ => panic!("no answer"),
    }
}

#[test]
fn failures_are_answered() {
    let cfg = relay_cfg();
    assert_eq!(
        answer(
            reading(&cfg),
            ProxyEvent::BodyFailed {
                reason: "length limit exceeded".to_owned()
            }
        ),
        (
            400,
            "{\"error\":{\"message\":\"read body: length limit exceeded\",\
             \"type\":\"proxy_read_error\"}}"
                .to_owned()
        )
    );
    assert_eq!(
        answer(sent(&cfg), ProxyEvent::TimedOut),
        (
            504,
            "{\"error\":{\"message\":\"Upstream timeout\",\"type\":\"proxy_timeout\"}}".to_owned()
        )
    );
    assert_eq!(
        answer(sent(&cfg), ProxyEvent::Unreachable),
        (
            502,
            "{\"error\":{\"message\":\"Upstream connect error\",\"type\":\"proxy_connect_error\"}}"
                .to_owned()
        )
    );
}

#[test]
fn finished_requests_ignore_events() {
    let cfg = relay_cfg();
    for event in [
        ProxyEvent::BodyRead,
        ProxyEvent::TimedOut,
        ProxyEvent::Unreachable,
    ] {
        let (state, action) = proxy(&cfg, ProxyState::Done, event);
        assert!(matches!(state, ProxyState::Done));
        assert!(matches!(action, ProxyAction::Ignore));
    }
    let (state, action) = proxy(&cfg, ProxyState::Start, ProxyEvent::TimedOut);
    assert!(matches!(state, ProxyState::Start));
    assert!(matches!(action, ProxyAction::Ignore));
}
