//! The course of one proxied request, and the replies that the relay writes itself.
//!
//! The relay reads a request fully, sends it to the configured upstream under a settled identity,
//! and passes the upstream's reply back. [`proxy`] decides at each point what comes next; what it
//! decides on, the reading and sending, happens outside.

use axum::http::{HeaderMap, HeaderValue};
use vstd::prelude::*;

use crate::config::{Config, ConfigView};
use crate::headers::{
    copy_last_without, header_fields, is_choice_of, last_values, name_set, without, Fields,
    SURE_NAMES,
};
use crate::identity::{build_upstream_headers, is_sent_upstream};
use crate::json::{json_insert, json_object, json_text, json_to_text, JsonField, Member, Members};
use crate::text::ascii_lower;

verus! {

/// The response headers that are not passed back to the client.
pub const STRIP_RESPONSE: [&'static str; 6] = [
    "content-length",
    "connection",
    "keep-alive",
    "transfer-encoding",
    "upgrade",
    "proxy-connection",
];

/// The members of the health report.
pub open spec fn health_members(cfg: ConfigView) -> Members {
    map![
        "status"@ => Member::Text("ok"@),
        "upstream"@ => Member::Text(cfg.upstream_base_url),
        "ua"@ => Member::Text(cfg.user_agent),
        "originator"@ => Member::Text(cfg.originator),
        "beta_features"@ => Member::Text(cfg.beta_features),
        "installation_id"@ => Member::Text(cfg.installation_id),
        "egress"@ => Member::Text("rustls-single-process"@),
    ]
}

/// A reply that the relay writes itself.
pub struct Reply {
    pub status: u16,
    pub content_type: &'static str,
    pub body: String,
}

/// Whether a reply is a JSON object with the given status and members.
pub open spec fn is_json_reply(reply: Reply, status: u16, members: Members) -> bool {
    &&& reply.status == status
    &&& reply.content_type@ == "application/json"@
    &&& reply.body@ == json_text(members)
}

/// Writes the health report: that the relay is up, and the identity that it fills in.
pub fn health(cfg: &Config) -> (reply: Reply)
    ensures
        is_json_reply(reply, 200, health_members(cfg@)),
{
    let mut object = json_object();
    json_insert(&mut object, "status", JsonField::Text("ok"));
    json_insert(&mut object, "upstream", JsonField::Text(cfg.upstream_base_url.as_str()));
    json_insert(&mut object, "ua", JsonField::Text(cfg.user_agent.as_str()));
    json_insert(&mut object, "originator", JsonField::Text(cfg.originator.as_str()));
    json_insert(&mut object, "beta_features", JsonField::Text(cfg.beta_features.as_str()));
    json_insert(&mut object, "installation_id", JsonField::Text(cfg.installation_id.as_str()));
    json_insert(&mut object, "egress", JsonField::Text("rustls-single-process"));
    Reply { status: 200, content_type: "application/json", body: json_to_text(object) }
}

/// The members of an error body: `{"error":{"message":..,"type":..}}`.
pub open spec fn error_members(err_type: Seq<char>, message: Seq<char>) -> Members {
    map![
        "error"@ => Member::Object(
            map![
                "message"@ => Member::Text(message),
                "type"@ => Member::Text(err_type),
            ],
        ),
    ]
}

/// Writes an error reply.
pub fn error_json(status: u16, err_type: &str, message: &str) -> (reply: Reply)
    ensures
        is_json_reply(reply, status, error_members(err_type@, message@)),
{
    let mut error = json_object();
    json_insert(&mut error, "message", JsonField::Text(message));
    json_insert(&mut error, "type", JsonField::Text(err_type));
    let mut object = json_object();
    json_insert(&mut object, "error", JsonField::Object(error));
    Reply { status, content_type: "application/json", body: json_to_text(object) }
}

/// The URL that a request is sent to: the path behind the base, and the query behind a question
/// mark.
pub open spec fn upstream_url_for(
    base: Seq<char>,
    path: Seq<char>,
    query: Option<Seq<char>>,
) -> Seq<char> {
    match query {
        None => base + path,
        Some(query) => base + path + "?"@ + query,
    }
}

/// The characters of a text that may be absent.
pub open spec fn optional_text(text: Option<String>) -> Option<Seq<char>> {
    match text {
        None => None,
        Some(text) => Some(text@),
    }
}

/// Builds the URL that a request is sent to.
pub fn upstream_url(base: &str, path: &str, query: &Option<String>) -> (url: String)
    ensures
        url@ == upstream_url_for(base@, path@, optional_text(*query)),
{
    let mut url = base.to_owned();
    url.append(path);
    if let Some(query) = query {
        url.append("?");
        url.append(query.as_str());
    }
    url
}

/// Whether `out` are the headers of a reply that are passed back: all but the stripped ones, each
/// with its last value. A reply with more names than there is room for may lose headers, though not
/// before so many are passed back that there may be no room; it gains none, and each that is
/// passed back has one of its values.
pub open spec fn is_passed_back(fields: Fields, out: Fields) -> bool {
    let left = without(fields, name_set(STRIP_RESPONSE@));
    &&& fields.dom().len() <= SURE_NAMES ==> out == last_values(left)
    &&& out == last_values(left) || out.dom().len() > SURE_NAMES
    &&& is_choice_of(out, left)
}

/// Takes the headers of a reply that are passed back.
pub fn response_headers(upstream: &HeaderMap<HeaderValue>) -> (out: HeaderMap<HeaderValue>)
    ensures
        header_fields(*upstream).dom().finite(),
        is_passed_back(header_fields(*upstream), header_fields(out)),
{
    copy_last_without(upstream, STRIP_RESPONSE.as_slice())
}

/// How far a request has come.
pub enum ProxyState {
    /// Nothing has been read.
    Start,
    /// The head has been read; the body is being read.
    Reading { url: String, headers: HeaderMap<HeaderValue> },
    /// The request has been sent; the reply is awaited.
    Sent,
    /// The client has its reply.
    Done,
}

/// What has happened to a request.
pub enum ProxyEvent {
    /// The head of the request came.
    Head { path: String, query: Option<String>, headers: HeaderMap<HeaderValue> },
    /// The body of the request was read.
    BodyRead,
    /// The body of the request could not be read.
    BodyFailed { reason: String },
    /// The head of the upstream's reply came.
    Replied { status: u16, headers: HeaderMap<HeaderValue> },
    /// The upstream took too long.
    TimedOut,
    /// The upstream could not be reached.
    Unreachable,
}

/// What is to be done for a request.
pub enum ProxyAction {
    /// Read the body, of at most so many bytes.
    ReadBody { limit: usize },
    /// Send the request, with the body that was read.
    Send { url: String, headers: HeaderMap<HeaderValue> },
    /// Reply with the upstream's body as it comes.
    Forward { status: u16, headers: HeaderMap<HeaderValue> },
    /// Reply with this.
    Answer(Reply),
    /// The event does not belong here; do nothing.
    Ignore,
}

/// Whether a step from `state` on `event` leads to `next` and `action`.
pub open spec fn is_proxy_step(
    cfg: ConfigView,
    state: ProxyState,
    event: ProxyEvent,
    next: ProxyState,
    action: ProxyAction,
) -> bool {
    match (state, event) {
        (ProxyState::Start, ProxyEvent::Head { path, query, headers }) => {
            &&& next matches ProxyState::Reading { url, headers: out }
            &&& url@ == upstream_url_for(cfg.upstream_base_url, path@, optional_text(query))
            &&& is_sent_upstream(cfg, header_fields(headers), header_fields(out))
            &&& action == (ProxyAction::ReadBody { limit: cfg.max_body_bytes })
        },
        (ProxyState::Reading { url, headers }, ProxyEvent::BodyRead) => {
            &&& next is Sent
            &&& action == (ProxyAction::Send { url, headers })
        },
        (ProxyState::Reading { .. }, ProxyEvent::BodyFailed { reason }) => {
            &&& next is Done
            &&& action matches ProxyAction::Answer(reply)
            &&& is_json_reply(
                reply,
                400,
                error_members("proxy_read_error"@, "read body: "@ + reason@),
            )
        },
        (ProxyState::Sent, ProxyEvent::Replied { status, headers }) => {
            &&& next is Done
            &&& action matches ProxyAction::Forward { status: passed, headers: out }
            &&& passed == status
            &&& is_passed_back(header_fields(headers), header_fields(out))
        },
        (ProxyState::Sent, ProxyEvent::TimedOut) => {
            &&& next is Done
            &&& action matches ProxyAction::Answer(reply)
            &&& is_json_reply(reply, 504, error_members("proxy_timeout"@, "Upstream timeout"@))
        },
        (ProxyState::Sent, ProxyEvent::Unreachable) => {
            &&& next is Done
            &&& action matches ProxyAction::Answer(reply)
            &&& is_json_reply(
                reply,
                502,
                error_members("proxy_connect_error"@, "Upstream connect error"@),
            )
        },
        _ => next == state && action is Ignore,
    }
}

/// Decides what comes next for a request: reads its head into what is sent upstream, answers an
/// unreadable body with 400, an upstream that takes too long with 504 and one that cannot be
/// reached with 502, and passes every other reply back.
pub fn proxy(cfg: &Config, state: ProxyState, event: ProxyEvent) -> (step: (
    ProxyState,
    ProxyAction,
))
    ensures
        is_proxy_step(cfg@, state, event, step.0, step.1),
{
    match (state, event) {
        (ProxyState::Start, ProxyEvent::Head { path, query, headers }) => {
            let url = upstream_url(cfg.upstream_base_url.as_str(), path.as_str(), &query);
            let out = build_upstream_headers(cfg, &headers);
            (
                ProxyState::Reading { url, headers: out },
                ProxyAction::ReadBody { limit: cfg.max_body_bytes },
            )
        },
        (ProxyState::Reading { url, headers }, ProxyEvent::BodyRead) => (
            ProxyState::Sent,
            ProxyAction::Send { url, headers },
        ),
        (ProxyState::Reading { .. }, ProxyEvent::BodyFailed { reason }) => {
            let mut message = "read body: ".to_owned();
            message.append(reason.as_str());
            let reply = error_json(400, "proxy_read_error", message.as_str());
            (ProxyState::Done, ProxyAction::Answer(reply))
        },
        (ProxyState::Sent, ProxyEvent::Replied { status, headers }) => {
            let out = response_headers(&headers);
            (ProxyState::Done, ProxyAction::Forward { status, headers: out })
        },
        (ProxyState::Sent, ProxyEvent::TimedOut) => {
            let reply = error_json(504, "proxy_timeout", "Upstream timeout");
            (ProxyState::Done, ProxyAction::Answer(reply))
        },
        (ProxyState::Sent, ProxyEvent::Unreachable) => {
            let reply = error_json(502, "proxy_connect_error", "Upstream connect error");
            (ProxyState::Done, ProxyAction::Answer(reply))
        },
        (state, _) => (state, ProxyAction::Ignore),
    }
}

/// A stripped header is not passed back, in whatever case its name is written.
pub proof fn stripped_headers_are_not_passed_back(
    fields: Fields,
    out: Fields,
    name: Seq<char>,
    i: int,
)
    requires
        is_passed_back(fields, out),
        0 <= i < STRIP_RESPONSE@.len(),
        ascii_lower(name) == ascii_lower(STRIP_RESPONSE@[i]@),
    ensures
        !out.contains_key(name),
{
    assert(name_set(STRIP_RESPONSE@).contains(ascii_lower(name)));
}

/// Every other header of a reply is passed back: one that comes once unchanged, one that comes
/// more than once with its last value.
pub proof fn other_headers_are_passed_back(fields: Fields, out: Fields, name: Seq<char>)
    requires
        is_passed_back(fields, out),
        fields.dom().len() <= SURE_NAMES,
        fields.contains_key(name),
        forall|i: int|
            0 <= i < STRIP_RESPONSE@.len() ==> ascii_lower(name) != #[trigger] STRIP_RESPONSE@[i]@,
    ensures
        out.contains_key(name),
        out[name] == seq![fields[name].last()],
        fields[name].len() == 1 ==> out[name] == fields[name],
{
    lemma_stripped_names_are_lower();
    assert(!name_set(STRIP_RESPONSE@).contains(ascii_lower(name)));
    assert(fields[name].len() == 1 ==> out[name] =~= fields[name]);
}

/// The names of the stripped headers are in lower case.
proof fn lemma_stripped_names_are_lower()
    ensures
        forall|i: int|
            0 <= i < STRIP_RESPONSE@.len() ==> ascii_lower(#[trigger] STRIP_RESPONSE@[i]@)
                == STRIP_RESPONSE@[i]@,
{
    reveal_strlit("content-length");
    reveal_strlit("connection");
    reveal_strlit("keep-alive");
    reveal_strlit("transfer-encoding");
    reveal_strlit("upgrade");
    reveal_strlit("proxy-connection");
    assert forall|i: int| 0 <= i < STRIP_RESPONSE@.len() implies ascii_lower(
        #[trigger] STRIP_RESPONSE@[i]@,
    ) == STRIP_RESPONSE@[i]@ by {
        assert(ascii_lower(STRIP_RESPONSE@[i]@) =~= STRIP_RESPONSE@[i]@);
    }
}

/// A request is sent nowhere but to the configured upstream: its URL is the base, the path and
/// the query of the request, and what is sent is what the head of the request was turned into.
pub proof fn requests_go_to_the_configured_upstream(
    cfg: ConfigView,
    path: String,
    query: Option<String>,
    headers: HeaderMap<HeaderValue>,
    reading: ProxyState,
    read: ProxyAction,
    sent: ProxyState,
    send: ProxyAction,
)
    requires
        is_proxy_step(
            cfg,
            ProxyState::Start,
            ProxyEvent::Head { path, query, headers },
            reading,
            read,
        ),
        is_proxy_step(cfg, reading, ProxyEvent::BodyRead, sent, send),
    ensures
        send matches ProxyAction::Send { url, headers: out } && {
            &&& url@ == upstream_url_for(cfg.upstream_base_url, path@, optional_text(query))
            &&& cfg.upstream_base_url.is_prefix_of(url@)
            &&& is_sent_upstream(cfg, header_fields(headers), header_fields(out))
        },
{
    let url = upstream_url_for(cfg.upstream_base_url, path@, optional_text(query));
    assert(cfg.upstream_base_url =~= url.subrange(0, cfg.upstream_base_url.len() as int));
}

/// A request is sent upstream only once its body has been read, so never with a body that could
/// not be read or that exceeds the limit.
pub proof fn only_read_requests_are_sent(
    cfg: ConfigView,
    state: ProxyState,
    event: ProxyEvent,
    next: ProxyState,
    action: ProxyAction,
)
    requires
        is_proxy_step(cfg, state, event, next, action),
        action is Send,
    ensures
        state is Reading,
        event is BodyRead,
        next is Sent,
{
}

/// A request is answered at most once: the step that replies to the client ends its course, and
/// nothing is done for it afterwards.
pub proof fn requests_are_answered_once(
    cfg: ConfigView,
    state: ProxyState,
    event: ProxyEvent,
    next: ProxyState,
    action: ProxyAction,
)
    requires
        is_proxy_step(cfg, state, event, next, action),
    ensures
        action is Forward || action is Answer ==> next is Done,
        state is Done ==> next is Done && action is Ignore,
        next is Done && !(state is Done) ==> action is Forward || action is Answer,
{
}

/// The URL of a request, character by character: those of the base, then those of the path, and
/// with a query a question mark and those of the query. Nothing is cut, added or changed.
pub proof fn urls_are_base_path_and_query(
    base: Seq<char>,
    path: Seq<char>,
    query: Option<Seq<char>>,
)
    ensures
        ({
            let url = upstream_url_for(base, path, query);
            &&& url.len() == base.len() + path.len() + (match query {
                None => 0,
                Some(q) => 1 + q.len(),
            })
            &&& forall|i: int| 0 <= i < base.len() ==> #[trigger] url[i] == base[i]
            &&& forall|i: int|
                0 <= i < path.len() ==> url[base.len() + i] == #[trigger] path[i]
            &&& query matches Some(q) ==> url[(base.len() + path.len()) as int] == '?' && forall|
                i: int,
            |
                0 <= i < q.len() ==> url[base.len() + path.len() + 1 + i] == #[trigger] q[i]
        }),
{
    reveal_strlit("?");
}

/// A request is sent to the base of the configuration, followed by its own path and, behind a
/// question mark, its own query, character by character; and with the headers that its head was
/// turned into. Its body is read up to the configured limit before.
pub proof fn requests_keep_their_path_and_query(
    cfg: ConfigView,
    path: String,
    query: Option<String>,
    headers: HeaderMap<HeaderValue>,
    reading: ProxyState,
    read: ProxyAction,
    sent: ProxyState,
    send: ProxyAction,
)
    requires
        is_proxy_step(
            cfg,
            ProxyState::Start,
            ProxyEvent::Head { path, query, headers },
            reading,
            read,
        ),
        is_proxy_step(cfg, reading, ProxyEvent::BodyRead, sent, send),
    ensures
        read matches ProxyAction::ReadBody { limit } && limit == cfg.max_body_bytes,
        sent is Sent,
        send matches ProxyAction::Send { url, headers: out } && {
            let base = cfg.upstream_base_url;
            &&& url@.len() == base.len() + path@.len() + (match query {
                None => 0,
                Some(q) => 1 + q@.len(),
            })
            &&& forall|i: int| 0 <= i < base.len() ==> #[trigger] url@[i] == base[i]
            &&& forall|i: int|
                0 <= i < path@.len() ==> url@[base.len() + i] == #[trigger] path@[i]
            &&& query matches Some(q) ==> url@[(base.len() + path@.len()) as int] == '?' && forall|
                i: int,
            |
                0 <= i < q@.len() ==> url@[base.len() + path@.len() + 1 + i] == #[trigger] q@[i]
            &&& is_sent_upstream(cfg, header_fields(headers), header_fields(out))
        },
{
    urls_are_base_path_and_query(cfg.upstream_base_url, path@, optional_text(query));
}

/// The reply to a request that was sent is passed back with the very status that it came with.
pub proof fn replies_keep_their_status(
    cfg: ConfigView,
    status: u16,
    headers: HeaderMap<HeaderValue>,
    next: ProxyState,
    action: ProxyAction,
)
    requires
        is_proxy_step(cfg, ProxyState::Sent, ProxyEvent::Replied { status, headers }, next, action),
    ensures
        next is Done,
        action matches ProxyAction::Forward { status: passed, headers: out } && passed == status
            && is_passed_back(header_fields(headers), header_fields(out)),
{
}

/// Two replies are passed back with the same status only if they came with the same.
pub proof fn different_statuses_stay_different(
    cfg: ConfigView,
    status: u16,
    headers: HeaderMap<HeaderValue>,
    next: ProxyState,
    action: ProxyAction,
    other_status: u16,
    other_headers: HeaderMap<HeaderValue>,
    other_next: ProxyState,
    other_action: ProxyAction,
)
    requires
        is_proxy_step(cfg, ProxyState::Sent, ProxyEvent::Replied { status, headers }, next, action),
        is_proxy_step(
            cfg,
            ProxyState::Sent,
            ProxyEvent::Replied { status: other_status, headers: other_headers },
            other_next,
            other_action,
        ),
        status != other_status,
    ensures
        action->Forward_status != other_action->Forward_status,
{
}

/// The headers of a reply, name by name: the six that concern a connection are not passed back;
/// every other one is, with its last value and no other; and nothing else is.
pub proof fn reply_headers_are_passed_back_one_by_one(
    fields: Fields,
    out: Fields,
    name: Seq<char>,
)
    requires
        is_passed_back(fields, out),
        forall|i: int| 0 <= i < name.len() ==> !('A' <= #[trigger] name[i] <= 'Z'),
    ensures
        ({
            let stripped = name == "content-length"@ || name == "connection"@ || name
                == "keep-alive"@ || name == "transfer-encoding"@ || name == "upgrade"@ || name
                == "proxy-connection"@;
            let last = fields[name][fields[name].len() - 1];
            &&& stripped ==> !out.contains_key(name)
            &&& !fields.contains_key(name) ==> !out.contains_key(name)
            &&& out.contains_key(name) ==> out[name].len() == 1
            &&& !stripped && fields.contains_key(name) && fields.dom().len() <= 6553
                ==> out.contains_key(name) && out[name] == seq![last]
            &&& !stripped && fields.contains_key(name) ==> out.contains_key(name) && out[name]
                == seq![last] || out.dom().len() > 6553
        }),
{
    lemma_stripped_names_are_lower();
    assert(ascii_lower(name) =~= name);
    let stripped = name == "content-length"@ || name == "connection"@ || name == "keep-alive"@
        || name == "transfer-encoding"@ || name == "upgrade"@ || name == "proxy-connection"@;
    assert(STRIP_RESPONSE@[0]@ == "content-length"@);
    assert(STRIP_RESPONSE@[1]@ == "connection"@);
    assert(STRIP_RESPONSE@[2]@ == "keep-alive"@);
    assert(STRIP_RESPONSE@[3]@ == "transfer-encoding"@);
    assert(STRIP_RESPONSE@[4]@ == "upgrade"@);
    assert(STRIP_RESPONSE@[5]@ == "proxy-connection"@);
    assert(name_set(STRIP_RESPONSE@).contains(name) == stripped);
}

/// What the relay answers itself: 400 for a body that cannot be read, with the reason behind
/// `read body: `, 504 for an upstream that takes too long, and 502 for one that cannot be reached;
/// each ends the course of the request.
pub proof fn failures_are_answered_each_in_its_way(
    cfg: ConfigView,
    state: ProxyState,
    event: ProxyEvent,
    next: ProxyState,
    action: ProxyAction,
)
    requires
        is_proxy_step(cfg, state, event, next, action),
        state is Reading && event is BodyFailed || state is Sent && (event is TimedOut
            || event is Unreachable),
    ensures
        next is Done,
        action matches ProxyAction::Answer(reply) && {
            &&& reply.content_type@ == "application/json"@
            &&& reply.status == (match event {
                ProxyEvent::BodyFailed { reason } => 400u16,
                ProxyEvent::TimedOut => 504u16,
                _ => 502u16,
            })
            &&& exists|members: Members|
                {
                    &&& reply.body@ == #[trigger] json_text(members)
                    &&& members.dom() == set!["error"@]
                    &&& members["error"@] matches Member::Object(inner)
                    &&& inner.dom() == set!["message"@, "type"@]
                    &&& inner["type"@] == Member::Text(
                        match event {
                            ProxyEvent::BodyFailed { reason } => "proxy_read_error"@,
                            ProxyEvent::TimedOut => "proxy_timeout"@,
                            _ => "proxy_connect_error"@,
                        },
                    )
                    &&& inner["message"@] == Member::Text(
                        match event {
                            ProxyEvent::BodyFailed { reason } => "read body: "@ + reason@,
                            ProxyEvent::TimedOut => "Upstream timeout"@,
                            _ => "Upstream connect error"@,
                        },
                    )
                }
        },
{
    match event {
        ProxyEvent::BodyFailed { reason } => {
            error_bodies_hold_type_and_message("proxy_read_error"@, "read body: "@ + reason@);
        },
        ProxyEvent::TimedOut => {
            error_bodies_hold_type_and_message("proxy_timeout"@, "Upstream timeout"@);
        },
        _ => {
            error_bodies_hold_type_and_message("proxy_connect_error"@, "Upstream connect error"@);
        },
    }
}

/// An error body holds one object, and that the type and the message and nothing else.
pub proof fn error_bodies_hold_type_and_message(err_type: Seq<char>, message: Seq<char>)
    ensures
        error_members(err_type, message).dom() == set!["error"@],
        error_members(err_type, message)["error"@] matches Member::Object(inner) && {
            &&& inner.dom() == set!["message"@, "type"@]
            &&& inner["message"@] == Member::Text(message)
            &&& inner["type"@] == Member::Text(err_type)
        },
{
    reveal_strlit("message");
    reveal_strlit("type");
    assert("message"@.len() != "type"@.len());
    let members = error_members(err_type, message);
    assert(members.dom() =~= set!["error"@]);
    let inner = members["error"@]->Object_0;
    assert(inner.dom() =~= set!["message"@, "type"@]);
}

/// A reply that the relay writes has the status that it was asked for and the type of JSON, and its
/// body is the text of the members.
pub proof fn replies_are_json(reply: Reply, status: u16, members: Members)
    ensures
        is_json_reply(reply, status, members) <==> reply.status == status
            && reply.content_type@ == "application/json"@ && reply.body@ == json_text(members),
{
}

/// The health report holds seven members: that the relay is up, and what it is configured to be.
pub proof fn health_reports_the_configuration(cfg: ConfigView)
    ensures
        ({
            let members = health_members(cfg);
            &&& members.dom() == set![
                "status"@,
                "upstream"@,
                "ua"@,
                "originator"@,
                "beta_features"@,
                "installation_id"@,
                "egress"@,
            ]
            &&& members["status"@] == Member::Text("ok"@)
            &&& members["upstream"@] == Member::Text(cfg.upstream_base_url)
            &&& members["ua"@] == Member::Text(cfg.user_agent)
            &&& members["originator"@] == Member::Text(cfg.originator)
            &&& members["beta_features"@] == Member::Text(cfg.beta_features)
            &&& members["installation_id"@] == Member::Text(cfg.installation_id)
            &&& members["egress"@] == Member::Text("rustls-single-process"@)
        }),
{
    reveal_strlit("status");
    reveal_strlit("upstream");
    reveal_strlit("ua");
    reveal_strlit("originator");
    reveal_strlit("beta_features");
    reveal_strlit("installation_id");
    reveal_strlit("egress");
    assert("status"@[0] != "egress"@[0]);
    assert("status"@.len() == 6 && "upstream"@.len() == 8 && "ua"@.len() == 2);
    assert("originator"@.len() == 10 && "beta_features"@.len() == 13);
    assert("installation_id"@.len() == 15 && "egress"@.len() == 6);
    assert(health_members(cfg).dom() =~= set![
        "status"@,
        "upstream"@,
        "ua"@,
        "originator"@,
        "beta_features"@,
        "installation_id"@,
        "egress"@,
    ]);
}

/// An event that does not belong to the state of a request changes nothing and does nothing.
pub proof fn events_out_of_place_are_ignored(
    cfg: ConfigView,
    state: ProxyState,
    event: ProxyEvent,
    next: ProxyState,
    action: ProxyAction,
)
    requires
        is_proxy_step(cfg, state, event, next, action),
        state is Start ==> !(event is Head),
        state is Reading ==> !(event is BodyRead) && !(event is BodyFailed),
        state is Sent ==> !(event is Replied) && !(event is TimedOut) && !(event is Unreachable),
    ensures
        next == state,
        action is Ignore,
{
}

} // verus!
