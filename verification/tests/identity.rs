use axum::http::{HeaderMap, HeaderName, HeaderValue};
use codex_egress_relay::config::Config;
use codex_egress_relay::identity::{
    build_upstream_headers, is_codex, synthesize_turn_metadata, ClientIdentity, ResolvedIdentity,
    CANONICAL_HEADERS, HOP_BY_HOP, IDENTITY_HEADERS,
};

fn test_cfg() -> Config {
    Config {
        upstream_base_url: "https://upstream.test/codex".to_owned(),
        port: 18092,
        user_agent: "codex-tui/0.145.0 (Debian 12.0.0; x86_64) unknown (codex-tui; 0.145.0)"
            .to_owned(),
        originator: "codex-tui".to_owned(),
        beta_features: "remote_compaction_v2".to_owned(),
        installation_id: "11111111-1111-1111-1111-111111111111".to_owned(),
        accept_encoding: "gzip, deflate".to_owned(),
        max_body_bytes: 10 * 1024 * 1024,
        timeout_secs: 120,
    }
}

fn hv(m: &HeaderMap, k: &str) -> String {
    m.get(k)
        .and_then(|v| v.to_str().ok())
        .unwrap_or("")
        .to_owned()
}

fn is_uuid_v4(id: &str) -> bool {
    let parts: Vec<&str> = id.split('-').collect();
    parts.iter().map(|p| p.len()).collect::<Vec<usize>>() == vec![8, 4, 4, 4, 12]
        && id
            .chars()
            .all(|c| c == '-' || c.is_ascii_digit() || ('a'..='f').contains(&c))
        && parts[2].starts_with('4')
        && ['8', '9', 'a', 'b'].contains(&parts[3].chars().next().unwrap())
}

// --- A client that is not Codex gets a full, coherent identity -------------------------------

#[test]
fn synthesizes_full_identity_for_non_codex_client() {
    let cfg = test_cfg();
    let mut incoming = HeaderMap::new();
    incoming.insert("user-agent", HeaderValue::from_static("curl/8.0"));

    let out = build_upstream_headers(&cfg, &incoming);

    assert_eq!(hv(&out, "user-agent"), cfg.user_agent);
    assert_eq!(hv(&out, "originator"), "codex-tui");
    assert_eq!(hv(&out, "accept-encoding"), "gzip, deflate");
    for h in [
        "session-id",
        "thread-id",
        "x-client-request-id",
        "x-codex-window-id",
        "x-codex-installation-id",
        "x-codex-beta-features",
        "x-codex-turn-metadata",
    ] {
        assert!(!hv(&out, h).is_empty(), "missing identity header {h}");
    }
}

#[test]
fn synthesized_identity_is_session_coherent() {
    let cfg = test_cfg();
    let incoming = HeaderMap::new();

    let out = build_upstream_headers(&cfg, &incoming);

    let session = hv(&out, "session-id");
    assert_eq!(hv(&out, "thread-id"), session);
    assert_eq!(hv(&out, "x-client-request-id"), session);
    assert_eq!(hv(&out, "x-codex-window-id"), format!("{session}:0"));

    let tm: serde_json::Value = serde_json::from_str(&hv(&out, "x-codex-turn-metadata")).unwrap();
    assert_eq!(tm["session_id"], session);
    assert_eq!(tm["thread_id"], session);
    assert_eq!(tm["window_id"], format!("{session}:0"));
    assert_eq!(tm["installation_id"], cfg.installation_id);
    assert_eq!(tm["request_kind"], "turn");
}

// --- A Codex client is not tampered with -----------------------------------------------------

#[test]
fn preserves_genuine_codex_client_identity() {
    let cfg = test_cfg();
    let mut incoming = HeaderMap::new();
    let real_ua = "codex-tui/0.145.0 (Ubuntu 24.04; x86_64) WezTerm (codex-tui; 0.145.0)";
    incoming.insert("user-agent", HeaderValue::from_static(real_ua));
    incoming.insert("originator", HeaderValue::from_static("codex-tui"));
    incoming.insert(
        "session-id",
        HeaderValue::from_static("aaaaaaaa-bbbb-cccc-dddd-eeeeeeeeeeee"),
    );

    let out = build_upstream_headers(&cfg, &incoming);

    assert_eq!(hv(&out, "user-agent"), real_ua);
    assert_eq!(hv(&out, "originator"), "codex-tui");
    assert_eq!(
        hv(&out, "session-id"),
        "aaaaaaaa-bbbb-cccc-dddd-eeeeeeeeeeee"
    );
    assert_eq!(
        hv(&out, "thread-id"),
        "aaaaaaaa-bbbb-cccc-dddd-eeeeeeeeeeee"
    );
    assert_eq!(
        hv(&out, "x-codex-window-id"),
        "aaaaaaaa-bbbb-cccc-dddd-eeeeeeeeeeee:0"
    );
}

// --- Spellings of the client never lead to repeated headers ----------------------------------

#[test]
fn dedups_client_casing_variants() {
    let cfg = test_cfg();
    let mut incoming = HeaderMap::new();
    incoming.insert("Session-Id", HeaderValue::from_static("client-session-xyz"));
    incoming.insert("session_id", HeaderValue::from_static("client-session-xyz"));

    let out = build_upstream_headers(&cfg, &incoming);

    assert_eq!(out.get_all("session-id").iter().count(), 1);
    assert_eq!(hv(&out, "session-id"), "client-session-xyz");
}

// --- Other headers flow through ---------------------------------------------------------------

#[test]
fn passes_through_non_identity_headers() {
    let cfg = test_cfg();
    let mut incoming = HeaderMap::new();
    incoming.insert("authorization", HeaderValue::from_static("Bearer sk-test"));
    incoming.insert("content-type", HeaderValue::from_static("application/json"));

    let out = build_upstream_headers(&cfg, &incoming);

    assert_eq!(hv(&out, "authorization"), "Bearer sk-test");
    assert_eq!(hv(&out, "content-type"), "application/json");
}

#[test]
fn strips_hop_by_hop_headers() {
    let cfg = test_cfg();
    let mut incoming = HeaderMap::new();
    incoming.insert("host", HeaderValue::from_static("proxy.local"));
    incoming.insert("connection", HeaderValue::from_static("keep-alive"));

    let out = build_upstream_headers(&cfg, &incoming);

    assert!(out.get("host").is_none());
    assert!(out.get("connection").is_none());
}

#[test]
fn non_codex_originator_is_replaced() {
    let cfg = test_cfg();
    let mut incoming = HeaderMap::new();
    incoming.insert("originator", HeaderValue::from_static("evilclient"));

    let out = build_upstream_headers(&cfg, &incoming);

    assert_eq!(hv(&out, "originator"), "codex-tui");
}

// --- Further cases ----------------------------------------------------------------------------

#[test]
fn codex_tokens_are_told_by_their_prefix() {
    assert!(is_codex("codex-tui"));
    assert!(is_codex("codex_cli_rs/0.1"));
    assert!(is_codex("codex-"));
    assert!(!is_codex("codex"));
    assert!(!is_codex("Codex-tui"));
    assert!(!is_codex(" codex-tui"));
    assert!(!is_codex(""));
}

#[test]
fn every_canonical_header_is_sent_once() {
    let cfg = test_cfg();
    let mut incoming = HeaderMap::new();
    for name in IDENTITY_HEADERS {
        incoming.append(
            HeaderName::from_static(name),
            HeaderValue::from_static("codex-first"),
        );
        incoming.append(
            HeaderName::from_static(name),
            HeaderValue::from_static("codex-second"),
        );
    }
    let out = build_upstream_headers(&cfg, &incoming);
    for name in CANONICAL_HEADERS {
        assert_eq!(out.get_all(name).iter().count(), 1, "{name}");
    }
    assert_eq!(out.len(), CANONICAL_HEADERS.len());
    // The first value of each name counts, but for the encodings, which are always configured.
    for name in CANONICAL_HEADERS {
        if name == "accept-encoding" {
            assert_eq!(hv(&out, name), "gzip, deflate");
        } else {
            assert_eq!(hv(&out, name), "codex-first");
        }
    }
}

#[test]
fn no_hop_by_hop_header_is_sent() {
    let mut incoming = HeaderMap::new();
    for name in HOP_BY_HOP {
        incoming.insert(HeaderName::from_static(name), HeaderValue::from_static("1"));
    }
    let out = build_upstream_headers(&test_cfg(), &incoming);
    for name in HOP_BY_HOP {
        assert!(!out.contains_key(name), "{name}");
    }
    assert_eq!(out.len(), CANONICAL_HEADERS.len());
}

#[test]
fn other_spellings_are_read_and_dropped() {
    let mut incoming = HeaderMap::new();
    incoming.insert("originator", HeaderValue::from_static("codex-tui"));
    incoming.insert("session_id", HeaderValue::from_static("s-1"));
    incoming.insert("thread_id", HeaderValue::from_static("t-1"));
    let out = build_upstream_headers(&test_cfg(), &incoming);
    assert_eq!(hv(&out, "session-id"), "s-1");
    assert_eq!(hv(&out, "thread-id"), "t-1");
    assert!(!out.contains_key("session_id"));
    assert!(!out.contains_key("thread_id"));
    // The hyphenated spelling goes first, unless it is empty.
    incoming.insert("session-id", HeaderValue::from_static("s-2"));
    incoming.insert("thread-id", HeaderValue::from_static(""));
    let out = build_upstream_headers(&test_cfg(), &incoming);
    assert_eq!(hv(&out, "session-id"), "s-2");
    assert_eq!(hv(&out, "thread-id"), "t-1");
}

#[test]
fn repeated_header_keeps_all_its_values() {
    let mut incoming = HeaderMap::new();
    incoming.append("x-trace", HeaderValue::from_static("one"));
    incoming.append("x-trace", HeaderValue::from_static("two"));
    incoming.append("x-trace", HeaderValue::from_static("three"));
    let out = build_upstream_headers(&test_cfg(), &incoming);
    let values: Vec<&HeaderValue> = out.get_all("x-trace").iter().collect();
    assert_eq!(values, vec!["one", "two", "three"]);
}

#[test]
fn other_client_gets_identifiers_of_its_session() {
    let cfg = test_cfg();
    let mut incoming = HeaderMap::new();
    incoming.insert("user-agent", HeaderValue::from_static("curl/8.0"));
    incoming.insert("session-id", HeaderValue::from_static("s-1"));
    incoming.insert("thread-id", HeaderValue::from_static("t-9"));
    incoming.insert("x-client-request-id", HeaderValue::from_static("r-9"));
    incoming.insert("x-codex-window-id", HeaderValue::from_static("w-9:3"));
    incoming.insert("x-codex-installation-id", HeaderValue::from_static("i-9"));
    incoming.insert("x-codex-beta-features", HeaderValue::from_static("b-9"));
    incoming.insert("x-codex-turn-metadata", HeaderValue::from_static("{}"));
    let out = build_upstream_headers(&cfg, &incoming);
    assert_eq!(hv(&out, "session-id"), "s-1");
    assert_eq!(hv(&out, "thread-id"), "s-1");
    assert_eq!(hv(&out, "x-client-request-id"), "s-1");
    assert_eq!(hv(&out, "x-codex-window-id"), "s-1:0");
    assert_eq!(hv(&out, "x-codex-installation-id"), cfg.installation_id);
    assert_eq!(hv(&out, "x-codex-beta-features"), cfg.beta_features);
    let tm: serde_json::Value = serde_json::from_str(&hv(&out, "x-codex-turn-metadata")).unwrap();
    assert_eq!(tm["session_id"], "s-1");
    assert_eq!(tm["thread_id"], "s-1");
    assert_eq!(tm["window_id"], "s-1:0");
    assert_eq!(tm["installation_id"], cfg.installation_id);
    // Either token makes the same client a Codex client, whose values are kept.
    incoming.insert("originator", HeaderValue::from_static("codex_cli_rs"));
    let out = build_upstream_headers(&cfg, &incoming);
    assert_eq!(hv(&out, "user-agent"), cfg.user_agent);
    assert_eq!(hv(&out, "originator"), "codex_cli_rs");
    assert_eq!(hv(&out, "thread-id"), "t-9");
    assert_eq!(hv(&out, "x-client-request-id"), "r-9");
    assert_eq!(hv(&out, "x-codex-window-id"), "w-9:3");
    assert_eq!(hv(&out, "x-codex-installation-id"), "i-9");
    assert_eq!(hv(&out, "x-codex-beta-features"), "b-9");
    assert_eq!(hv(&out, "x-codex-turn-metadata"), "{}");
}

#[test]
fn kept_values_of_clients() {
    let values = |user_agent: &str| ClientIdentity {
        user_agent: user_agent.to_owned(),
        originator: "o".to_owned(),
        session_id: "s".to_owned(),
        thread_id: "t".to_owned(),
        request_id: "r".to_owned(),
        window_id: "w".to_owned(),
        installation_id: "i".to_owned(),
        beta_features: "b".to_owned(),
        turn_metadata: "m".to_owned(),
    };
    assert!(values("codex-tui/1").is_genuine());
    assert!(!values("curl").is_genuine());
    let kept = values("codex-tui/1").kept();
    assert_eq!(kept.thread_id, "t");
    assert_eq!(kept.turn_metadata, "m");
    let kept = values("curl").kept();
    assert_eq!(kept.user_agent, "curl");
    assert_eq!(kept.originator, "o");
    assert_eq!(kept.session_id, "s");
    assert_eq!(kept.thread_id, "");
    assert_eq!(kept.request_id, "");
    assert_eq!(kept.window_id, "");
    assert_eq!(kept.installation_id, "");
    assert_eq!(kept.beta_features, "");
    assert_eq!(kept.turn_metadata, "");
}

#[test]
fn opaque_values_pass_octet_for_octet() {
    let mut incoming = HeaderMap::new();
    incoming.insert("x-opaque", HeaderValue::from_bytes(b"a\xff\tb").unwrap());
    let out = build_upstream_headers(&test_cfg(), &incoming);
    assert_eq!(out.get("x-opaque").unwrap().as_bytes(), b"a\xff\tb");
}

#[test]
fn unreadable_identity_value_counts_as_absent() {
    let mut incoming = HeaderMap::new();
    incoming.insert("session-id", HeaderValue::from_bytes(b"s\xff").unwrap());
    incoming.insert(
        "user-agent",
        HeaderValue::from_bytes(b"codex-\xff").unwrap(),
    );
    let out = build_upstream_headers(&test_cfg(), &incoming);
    assert!(is_uuid_v4(&hv(&out, "session-id")));
    assert_eq!(hv(&out, "user-agent"), test_cfg().user_agent);
}

#[test]
fn version_and_conversation_come_only_from_the_client() {
    let out = build_upstream_headers(&test_cfg(), &HeaderMap::new());
    assert!(!out.contains_key("version"));
    assert!(!out.contains_key("conversation_id"));
    let mut incoming = HeaderMap::new();
    incoming.insert("version", HeaderValue::from_static("9"));
    let out = build_upstream_headers(&test_cfg(), &incoming);
    assert_eq!(hv(&out, "version"), "9");
}

#[test]
fn config_value_that_is_no_header_value_is_skipped() {
    let mut cfg = test_cfg();
    cfg.beta_features = "a\nb".to_owned();
    let out = build_upstream_headers(&cfg, &HeaderMap::new());
    assert!(!out.contains_key("x-codex-beta-features"));
    assert_eq!(out.len(), CANONICAL_HEADERS.len() - 1);
    // Text outside ASCII goes out as UTF-8.
    cfg.beta_features = "caf\u{e9}\t1".to_owned();
    let out = build_upstream_headers(&cfg, &HeaderMap::new());
    assert_eq!(
        out.get("x-codex-beta-features").unwrap().as_bytes(),
        "caf\u{e9}\t1".as_bytes()
    );
    cfg.beta_features = "\u{7f}".to_owned();
    let out = build_upstream_headers(&cfg, &HeaderMap::new());
    assert!(!out.contains_key("x-codex-beta-features"));
}

#[test]
fn fresh_identifiers_are_random_uuids() {
    let first = build_upstream_headers(&test_cfg(), &HeaderMap::new());
    let second = build_upstream_headers(&test_cfg(), &HeaderMap::new());
    assert!(is_uuid_v4(&hv(&first, "session-id")));
    assert!(is_uuid_v4(&hv(&second, "session-id")));
    assert_ne!(hv(&first, "session-id"), hv(&second, "session-id"));
    let tm: serde_json::Value =
        serde_json::from_str(&hv(&first, "x-codex-turn-metadata")).unwrap();
    assert!(is_uuid_v4(tm["turn_id"].as_str().unwrap()));
    assert_ne!(tm["turn_id"], hv(&first, "session-id"));
    // The clock of the machine is past the year 2020.
    assert!(tm["turn_started_at_unix_ms"].as_u64().unwrap() > 1_577_836_800_000);
}

#[test]
fn turn_metadata_is_compact_json() {
    let text = synthesize_turn_metadata("i\"1", "s", "t", "s:0", "u", 1700000000000);
    assert_eq!(
        text,
        "{\"installation_id\":\"i\\\"1\",\"request_kind\":\"turn\",\"sandbox\":\"none\",\
         \"session_id\":\"s\",\"thread_id\":\"t\",\"thread_source\":\"user\",\"turn_id\":\"u\",\
         \"turn_started_at_unix_ms\":1700000000000,\"window_id\":\"s:0\"}"
    );
}

#[test]
fn turn_metadata_escapes_control_characters() {
    let text = synthesize_turn_metadata("\n\u{1}", "s", "t", "w", "u", 0);
    assert!(text.chars().all(|c| c >= ' ' && c != '\u{7f}'));
    assert!(text.contains("\\n\\u0001"));
    let text = synthesize_turn_metadata("\u{7f}", "s", "t", "w", "u", u64::MAX);
    assert!(text.contains('\u{7f}'));
    assert!(text.contains("18446744073709551615"));
}

#[test]
fn supplied_metadata_is_kept() {
    let mut incoming = HeaderMap::new();
    incoming.insert("user-agent", HeaderValue::from_static("codex-tui/1"));
    incoming.insert(
        "x-codex-turn-metadata",
        HeaderValue::from_static("{\"turn_id\":\"mine\"}"),
    );
    let out = build_upstream_headers(&test_cfg(), &incoming);
    assert_eq!(hv(&out, "x-codex-turn-metadata"), "{\"turn_id\":\"mine\"}");
}

#[test]
fn identity_is_resolved_from_given_values() {
    let client = ClientIdentity {
        user_agent: "curl/8.0".to_owned(),
        originator: "codex_vscode".to_owned(),
        session_id: String::new(),
        thread_id: "t-9".to_owned(),
        request_id: String::new(),
        window_id: String::new(),
        installation_id: String::new(),
        beta_features: "mine".to_owned(),
        turn_metadata: String::new(),
    };
    let id = ResolvedIdentity::resolve_with(&test_cfg(), client, "s-9".to_owned(), "turn-9", 7);
    assert_eq!(id.user_agent, test_cfg().user_agent);
    assert_eq!(id.originator, "codex_vscode");
    assert_eq!(id.accept_encoding, "gzip, deflate");
    assert_eq!(id.session_id, "s-9");
    assert_eq!(id.thread_id, "t-9");
    assert_eq!(id.request_id, "s-9");
    assert_eq!(id.window_id, "s-9:0");
    assert_eq!(id.installation_id, test_cfg().installation_id);
    assert_eq!(id.beta_features, "mine");
    let tm: serde_json::Value = serde_json::from_str(&id.turn_metadata).unwrap();
    assert_eq!(tm["session_id"], "s-9");
    assert_eq!(tm["thread_id"], "t-9");
    assert_eq!(tm["window_id"], "s-9:0");
    assert_eq!(tm["turn_id"], "turn-9");
    assert_eq!(tm["thread_source"], "user");
    assert_eq!(tm["sandbox"], "none");
    assert_eq!(tm["turn_started_at_unix_ms"], 7);
    assert_eq!(tm.as_object().unwrap().len(), 9);
}

#[test]
fn drawn_values_count_where_the_client_supplied_none() {
    let values = |session_id: &str| ClientIdentity {
        user_agent: String::new(),
        originator: String::new(),
        session_id: session_id.to_owned(),
        thread_id: String::new(),
        request_id: String::new(),
        window_id: String::new(),
        installation_id: String::new(),
        beta_features: String::new(),
        turn_metadata: String::new(),
    };
    let draw = |client, read| {
        ResolvedIdentity::resolve_drawn(&test_cfg(), client, "drawn".to_owned(), "turn-1", read)
    };
    let id = draw(values(""), Some(1700000000000));
    assert_eq!(id.session_id, "drawn");
    assert_eq!(id.window_id, "drawn:0");
    assert_eq!(
        id.turn_metadata,
        synthesize_turn_metadata(
            "11111111-1111-1111-1111-111111111111",
            "drawn",
            "drawn",
            "drawn:0",
            "turn-1",
            1700000000000
        )
    );
    let id = draw(values("mine"), None);
    assert_eq!(id.session_id, "mine");
    let tm: serde_json::Value = serde_json::from_str(&id.turn_metadata).unwrap();
    assert_eq!(tm["turn_started_at_unix_ms"], 0);
    assert_eq!(tm["turn_id"], "turn-1");
}

#[test]
fn next_relay_keeps_the_identity() {
    let first = build_upstream_headers(&test_cfg(), &HeaderMap::new());
    let mut next = test_cfg();
    next.user_agent = "codex-other".to_owned();
    next.originator = "codex-other".to_owned();
    next.installation_id = "other".to_owned();
    next.beta_features = "other".to_owned();
    next.accept_encoding = "identity".to_owned();
    let second = build_upstream_headers(&next, &first);
    for name in CANONICAL_HEADERS {
        if name == "accept-encoding" {
            assert_eq!(hv(&second, name), "identity");
        } else {
            assert_eq!(hv(&second, name), hv(&first, name));
        }
    }
    assert_eq!(second.len(), first.len());
}

#[test]
fn relaying_twice_changes_nothing() {
    let mut cfg = test_cfg();
    cfg.beta_features = "caf\u{e9}".to_owned();
    cfg.installation_id = "a\nb".to_owned();
    let mut incoming = HeaderMap::new();
    incoming.insert("user-agent", HeaderValue::from_static("curl/8.0"));
    incoming.append("x-tag", HeaderValue::from_static("a"));
    incoming.append("x-tag", HeaderValue::from_static("b"));
    let out = build_upstream_headers(&cfg, &incoming);
    let again = build_upstream_headers(&cfg, &out);
    assert_eq!(again, out);
    assert!(hv(&out, "x-codex-turn-metadata").contains("a\\nb"));
}

#[test]
fn relaying_twice_fills_in_metadata_of_another_client_anew() {
    let mut cfg = test_cfg();
    cfg.user_agent = "other/1".to_owned();
    cfg.originator = "other".to_owned();
    let mut out = build_upstream_headers(&cfg, &HeaderMap::new());
    let mut again = build_upstream_headers(&cfg, &out);
    assert_ne!(
        hv(&again, "x-codex-turn-metadata"),
        hv(&out, "x-codex-turn-metadata")
    );
    out.remove("x-codex-turn-metadata");
    again.remove("x-codex-turn-metadata");
    assert_eq!(again, out);
}

#[test]
fn very_many_headers_pass() {
    let mut incoming = HeaderMap::new();
    for i in 0..20000 {
        let name = HeaderName::from_bytes(format!("x-n-{i}").as_bytes()).unwrap();
        incoming.insert(name, HeaderValue::from(i));
    }
    let out = build_upstream_headers(&test_cfg(), &incoming);
    assert_eq!(out.len(), 20000 + CANONICAL_HEADERS.len());
    assert_eq!(hv(&out, "x-n-19999"), "19999");
}
