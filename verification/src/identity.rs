//! The identity headers of a turn.
//!
//! A Codex CLI turn carries a fixed set of identity headers, and the relay sends each of them
//! upstream exactly once. What a Codex client supplies is kept; of any other client only its
//! session is. What is not kept is filled in so that all identifiers of the turn belong to one
//! session. The client's own copies of these headers are dropped first, whatever the case of their
//! letters, and so are the headers that concern only the connection to the client. All other
//! headers pass.

use axum::http::{HeaderMap, HeaderValue};
use vstd::prelude::*;

use crate::config::{Config, ConfigView};
use crate::fresh::{
    draw_uuid, is_clock_reading, is_drawn_uuid, is_uuid_v4, read_clock, stamp_of, time_stamp,
};
use crate::headers::{
    all_distinct, copy_without, field_text, header_fields, header_text, is_header_content,
    is_header_name, is_visible_or_empty, is_visible_text, lemma_with_fields, name_set, set_all,
    texts_of, with_fields, without, Fields, SURE_NAMES,
};
use crate::json::{
    has_no_delete, is_ascii_text, json_insert, json_object, json_text, json_to_text, JsonField,
    Member, Members,
};
use crate::laws::identity_headers_are_sent_once;
use crate::text::{ascii_lower, has_prefix};
use crate::wire::codex_tokens_begin_with_codex;

verus! {

/// The identity headers, with the spellings that some clients use for two of them. A client's
/// copies are dropped before the canonical ones are set.
pub const IDENTITY_HEADERS: [&'static str; 12] = [
    "user-agent",
    "originator",
    "session-id",
    "session_id",
    "thread-id",
    "thread_id",
    "x-client-request-id",
    "x-codex-window-id",
    "x-codex-installation-id",
    "x-codex-beta-features",
    "x-codex-turn-metadata",
    "accept-encoding",
];

/// The request headers that concern one connection only and are not sent on.
pub const HOP_BY_HOP: [&'static str; 8] = [
    "host",
    "content-length",
    "connection",
    "keep-alive",
    "transfer-encoding",
    "upgrade",
    "proxy-authorization",
    "proxy-connection",
];

/// The identity headers as they are sent upstream, in the order of [`IdentityView::texts`].
pub const CANONICAL_HEADERS: [&'static str; 10] = [
    "user-agent",
    "originator",
    "accept-encoding",
    "session-id",
    "thread-id",
    "x-client-request-id",
    "x-codex-window-id",
    "x-codex-installation-id",
    "x-codex-beta-features",
    "x-codex-turn-metadata",
];

/// Whether a user agent or an originator names a Codex client.
pub open spec fn names_codex(text: Seq<char>) -> bool {
    "codex-"@.is_prefix_of(text) || "codex_"@.is_prefix_of(text)
}

/// Whether a user agent or an originator names a Codex client.
pub fn is_codex(text: &str) -> (genuine: bool)
    ensures
        genuine == names_codex(text@),
{
    has_prefix(text, "codex-") || has_prefix(text, "codex_")
}

/// The identity values that a client supplied; empty where it supplied none.
pub struct ClientIdentity {
    pub user_agent: String,
    pub originator: String,
    pub session_id: String,
    pub thread_id: String,
    pub request_id: String,
    pub window_id: String,
    pub installation_id: String,
    pub beta_features: String,
    pub turn_metadata: String,
}

/// A client's identity values as the contracts speak of them.
#[verifier::ext_equal]
pub struct ClientView {
    pub user_agent: Seq<char>,
    pub originator: Seq<char>,
    pub session_id: Seq<char>,
    pub thread_id: Seq<char>,
    pub request_id: Seq<char>,
    pub window_id: Seq<char>,
    pub installation_id: Seq<char>,
    pub beta_features: Seq<char>,
    pub turn_metadata: Seq<char>,
}

impl View for ClientIdentity {
    type V = ClientView;

    open spec fn view(&self) -> ClientView {
        ClientView {
            user_agent: self.user_agent@,
            originator: self.originator@,
            session_id: self.session_id@,
            thread_id: self.thread_id@,
            request_id: self.request_id@,
            window_id: self.window_id@,
            installation_id: self.installation_id@,
            beta_features: self.beta_features@,
            turn_metadata: self.turn_metadata@,
        }
    }
}

/// The first of two texts that is not empty.
pub open spec fn or_else(text: Seq<char>, other: Seq<char>) -> Seq<char> {
    if text.len() > 0 {
        text
    } else {
        other
    }
}

/// The identity values that the headers of a request supply.
pub open spec fn client_of(fields: Fields) -> ClientView {
    ClientView {
        user_agent: field_text(fields, "user-agent"@),
        originator: field_text(fields, "originator"@),
        session_id: or_else(
            field_text(fields, "session-id"@),
            field_text(fields, "session_id"@),
        ),
        thread_id: or_else(field_text(fields, "thread-id"@), field_text(fields, "thread_id"@)),
        request_id: field_text(fields, "x-client-request-id"@),
        window_id: field_text(fields, "x-codex-window-id"@),
        installation_id: field_text(fields, "x-codex-installation-id"@),
        beta_features: field_text(fields, "x-codex-beta-features"@),
        turn_metadata: field_text(fields, "x-codex-turn-metadata"@),
    }
}

/// The names of the identity headers are plain header names, and the canonical ones are distinct.
pub proof fn lemma_identity_names()
    ensures
        is_header_name("user-agent"@),
        is_header_name("originator"@),
        is_header_name("accept-encoding"@),
        is_header_name("session-id"@),
        is_header_name("session_id"@),
        is_header_name("thread-id"@),
        is_header_name("thread_id"@),
        is_header_name("x-client-request-id"@),
        is_header_name("x-codex-window-id"@),
        is_header_name("x-codex-installation-id"@),
        is_header_name("x-codex-beta-features"@),
        is_header_name("x-codex-turn-metadata"@),
        all_distinct(CANONICAL_HEADERS@),
{
    reveal_strlit("user-agent");
    reveal_strlit("originator");
    reveal_strlit("accept-encoding");
    reveal_strlit("session-id");
    reveal_strlit("session_id");
    reveal_strlit("thread-id");
    reveal_strlit("thread_id");
    reveal_strlit("x-client-request-id");
    reveal_strlit("x-codex-window-id");
    reveal_strlit("x-codex-installation-id");
    reveal_strlit("x-codex-beta-features");
    reveal_strlit("x-codex-turn-metadata");
    assert("user-agent"@[0] != "originator"@[0]);
    assert("user-agent"@[0] != "session-id"@[0]);
    assert("originator"@[0] != "session-id"@[0]);
    assert("x-codex-beta-features"@[8] != "x-codex-turn-metadata"@[8]);
}

/// Whether the values come from a Codex client: its user agent or its originator says so.
pub open spec fn is_genuine(client: ClientView) -> bool {
    names_codex(client.user_agent) || names_codex(client.originator)
}

/// What of a client's values is kept, beside the user agent and the originator: all of them if it
/// is a Codex client, the session only if it is not.
pub open spec fn kept_values(client: ClientView) -> ClientView {
    if is_genuine(client) {
        client
    } else {
        ClientView {
            thread_id: Seq::empty(),
            request_id: Seq::empty(),
            window_id: Seq::empty(),
            installation_id: Seq::empty(),
            beta_features: Seq::empty(),
            turn_metadata: Seq::empty(),
            ..client
        }
    }
}

impl ClientIdentity {
    /// Whether the values come from a Codex client.
    pub fn is_genuine(&self) -> (genuine: bool)
        ensures
            genuine == is_genuine(self@),
    {
        is_codex(self.user_agent.as_str()) || is_codex(self.originator.as_str())
    }

    /// Takes what is kept of the values.
    pub fn kept(self) -> (kept: ClientIdentity)
        ensures
            kept@ == kept_values(self@),
    {
        if self.is_genuine() {
            self
        } else {
            ClientIdentity {
                user_agent: self.user_agent,
                originator: self.originator,
                session_id: self.session_id,
                thread_id: String::new(),
                request_id: String::new(),
                window_id: String::new(),
                installation_id: String::new(),
                beta_features: String::new(),
                turn_metadata: String::new(),
            }
        }
    }

    /// Reads the identity values that the headers of a request supply.
    pub fn from_headers(headers: &HeaderMap<HeaderValue>) -> (client: ClientIdentity)
        ensures
            client@ == client_of(header_fields(*headers)),
    {
        proof {
            lemma_identity_names();
        }
        let session_id = header_text(headers, "session-id");
        let session_id = if session_id.as_str().is_empty() {
            header_text(headers, "session_id")
        } else {
            session_id
        };
        let thread_id = header_text(headers, "thread-id");
        let thread_id = if thread_id.as_str().is_empty() {
            header_text(headers, "thread_id")
        } else {
            thread_id
        };
        ClientIdentity {
            user_agent: header_text(headers, "user-agent"),
            originator: header_text(headers, "originator"),
            session_id,
            thread_id,
            request_id: header_text(headers, "x-client-request-id"),
            window_id: header_text(headers, "x-codex-window-id"),
            installation_id: header_text(headers, "x-codex-installation-id"),
            beta_features: header_text(headers, "x-codex-beta-features"),
            turn_metadata: header_text(headers, "x-codex-turn-metadata"),
        }
    }
}

/// The identity of one turn, as it is sent upstream.
pub struct ResolvedIdentity {
    pub user_agent: String,
    pub originator: String,
    pub accept_encoding: String,
    pub session_id: String,
    pub thread_id: String,
    pub request_id: String,
    pub window_id: String,
    pub installation_id: String,
    pub beta_features: String,
    pub turn_metadata: String,
}

/// The identity of one turn as the contracts speak of it.
#[verifier::ext_equal]
pub struct IdentityView {
    pub user_agent: Seq<char>,
    pub originator: Seq<char>,
    pub accept_encoding: Seq<char>,
    pub session_id: Seq<char>,
    pub thread_id: Seq<char>,
    pub request_id: Seq<char>,
    pub window_id: Seq<char>,
    pub installation_id: Seq<char>,
    pub beta_features: Seq<char>,
    pub turn_metadata: Seq<char>,
}

impl IdentityView {
    /// The values of [`CANONICAL_HEADERS`], each at the place of its header.
    pub open spec fn texts(self) -> Seq<Seq<char>> {
        seq![
            self.user_agent,
            self.originator,
            self.accept_encoding,
            self.session_id,
            self.thread_id,
            self.request_id,
            self.window_id,
            self.installation_id,
            self.beta_features,
            self.turn_metadata,
        ]
    }

    /// Whether every value can be a header value.
    pub open spec fn is_sendable(self) -> bool {
        forall|i: int| 0 <= i < self.texts().len() ==> is_header_content(#[trigger] self.texts()[i])
    }
}

impl View for ResolvedIdentity {
    type V = IdentityView;

    open spec fn view(&self) -> IdentityView {
        IdentityView {
            user_agent: self.user_agent@,
            originator: self.originator@,
            accept_encoding: self.accept_encoding@,
            session_id: self.session_id@,
            thread_id: self.thread_id@,
            request_id: self.request_id@,
            window_id: self.window_id@,
            installation_id: self.installation_id@,
            beta_features: self.beta_features@,
            turn_metadata: self.turn_metadata@,
        }
    }
}

/// The members of the metadata of a turn.
pub open spec fn turn_members(
    installation_id: Seq<char>,
    session_id: Seq<char>,
    thread_id: Seq<char>,
    window_id: Seq<char>,
    turn_id: Seq<char>,
    started_at: u64,
) -> Members {
    map![
        "installation_id"@ => Member::Text(installation_id),
        "session_id"@ => Member::Text(session_id),
        "thread_id"@ => Member::Text(thread_id),
        "turn_id"@ => Member::Text(turn_id),
        "window_id"@ => Member::Text(window_id),
        "request_kind"@ => Member::Text("turn"@),
        "thread_source"@ => Member::Text("user"@),
        "sandbox"@ => Member::Text("none"@),
        "turn_started_at_unix_ms"@ => Member::Number(started_at),
    ]
}

/// Writes the metadata of a turn: a JSON object with the identifiers of the turn and the time at
/// which it started. The metadata can be a header value unless the delete character stands in an
/// identifier, and is printable ASCII if all identifiers are ASCII without that character.
pub fn synthesize_turn_metadata(
    installation_id: &str,
    session_id: &str,
    thread_id: &str,
    window_id: &str,
    turn_id: &str,
    started_at: u64,
) -> (text: String)
    ensures
        text@ == json_text(
            turn_members(
                installation_id@,
                session_id@,
                thread_id@,
                window_id@,
                turn_id@,
                started_at,
            ),
        ),
        text@.len() > 0,
        has_no_delete(installation_id@) && has_no_delete(session_id@) && has_no_delete(thread_id@)
            && has_no_delete(window_id@) && has_no_delete(turn_id@) ==> is_header_content(text@),
        is_ascii_text(installation_id@) && is_ascii_text(session_id@) && is_ascii_text(thread_id@)
            && is_ascii_text(window_id@) && is_ascii_text(turn_id@) ==> forall|i: int|
            0 <= i < text@.len() ==> ' ' <= #[trigger] text@[i] < '\x7f',
{
    let mut object = json_object();
    json_insert(&mut object, "installation_id", JsonField::Text(installation_id));
    json_insert(&mut object, "session_id", JsonField::Text(session_id));
    json_insert(&mut object, "thread_id", JsonField::Text(thread_id));
    json_insert(&mut object, "turn_id", JsonField::Text(turn_id));
    json_insert(&mut object, "window_id", JsonField::Text(window_id));
    json_insert(&mut object, "request_kind", JsonField::Text("turn"));
    json_insert(&mut object, "thread_source", JsonField::Text("user"));
    json_insert(&mut object, "sandbox", JsonField::Text("none"));
    json_insert(&mut object, "turn_started_at_unix_ms", JsonField::Number(started_at));
    proof {
        reveal_strlit("installation_id");
        reveal_strlit("session_id");
        reveal_strlit("thread_id");
        reveal_strlit("turn_id");
        reveal_strlit("window_id");
        reveal_strlit("request_kind");
        reveal_strlit("thread_source");
        reveal_strlit("sandbox");
        reveal_strlit("turn_started_at_unix_ms");
        reveal_strlit("turn");
        reveal_strlit("user");
        reveal_strlit("none");
    }
    json_to_text(object)
}

/// The identity of a turn in a given session: what is kept of the client's values, and what is
/// filled in.
pub open spec fn resolved(
    cfg: ConfigView,
    client: ClientView,
    session_id: Seq<char>,
    turn_id: Seq<char>,
    started_at: u64,
) -> IdentityView {
    let kept = kept_values(client);
    let thread_id = or_else(kept.thread_id, session_id);
    let installation_id = or_else(kept.installation_id, cfg.installation_id);
    let window_id = or_else(kept.window_id, session_id + ":0"@);
    IdentityView {
        user_agent: if names_codex(client.user_agent) {
            client.user_agent
        } else {
            cfg.user_agent
        },
        originator: if names_codex(client.originator) {
            client.originator
        } else {
            cfg.originator
        },
        accept_encoding: cfg.accept_encoding,
        session_id,
        thread_id,
        request_id: or_else(kept.request_id, session_id),
        window_id,
        installation_id,
        beta_features: or_else(kept.beta_features, cfg.beta_features),
        turn_metadata: or_else(
            kept.turn_metadata,
            json_text(
                turn_members(
                    installation_id,
                    session_id,
                    thread_id,
                    window_id,
                    turn_id,
                    started_at,
                ),
            ),
        ),
    }
}

/// Whether an identity is that of a turn with the given identifier and clock reading. Both were
/// drawn for the turn, unless the client's metadata is kept.
pub open spec fn is_turn(
    cfg: ConfigView,
    client: ClientView,
    id: IdentityView,
    turn_id: Seq<char>,
    read: Option<u128>,
) -> bool {
    &&& kept_values(client).turn_metadata.len() == 0 ==> is_uuid_v4(turn_id) && is_drawn_uuid(
        turn_id,
    ) && is_clock_reading(read)
    &&& id == resolved(cfg, client, id.session_id, turn_id, stamp_of(read))
}

/// Whether an identity is one that a client's turn may get: the session is the client's, or a
/// random one if it has none, and metadata that is filled in has a random turn identifier and the
/// time that the clock told.
pub open spec fn is_resolution(cfg: ConfigView, client: ClientView, id: IdentityView) -> bool {
    &&& if client.session_id.len() > 0 {
        id.session_id == client.session_id
    } else {
        is_uuid_v4(id.session_id) && is_drawn_uuid(id.session_id)
    }
    &&& exists|turn_id: Seq<char>, read: Option<u128>| #[trigger]
        is_turn(cfg, client, id, turn_id, read)
}

/// Whether every value that a configuration puts into headers can be a header value.
pub open spec fn config_is_sendable(cfg: ConfigView) -> bool {
    &&& is_header_content(cfg.user_agent)
    &&& is_header_content(cfg.originator)
    &&& is_header_content(cfg.accept_encoding)
    &&& is_header_content(cfg.installation_id)
    &&& is_header_content(cfg.beta_features)
}

/// Whether every value that a client supplied can be a header value.
pub open spec fn client_is_sendable(client: ClientView) -> bool {
    &&& is_header_content(client.user_agent)
    &&& is_header_content(client.originator)
    &&& is_header_content(client.session_id)
    &&& is_header_content(client.thread_id)
    &&& is_header_content(client.request_id)
    &&& is_header_content(client.window_id)
    &&& is_header_content(client.installation_id)
    &&& is_header_content(client.beta_features)
    &&& is_header_content(client.turn_metadata)
}

/// Whether every value that a client supplied reads back as it is from a header, if it is not
/// empty.
pub open spec fn client_is_readable(client: ClientView) -> bool {
    &&& is_visible_or_empty(client.user_agent)
    &&& is_visible_or_empty(client.originator)
    &&& is_visible_or_empty(client.session_id)
    &&& is_visible_or_empty(client.thread_id)
    &&& is_visible_or_empty(client.request_id)
    &&& is_visible_or_empty(client.window_id)
    &&& is_visible_or_empty(client.installation_id)
    &&& is_visible_or_empty(client.beta_features)
    &&& is_visible_or_empty(client.turn_metadata)
}

/// What reads as text in a header can be a header value again, and reads back from that.
pub proof fn lemma_client_is_readable(fields: Fields)
    ensures
        client_is_sendable(client_of(fields)),
        client_is_readable(client_of(fields)),
{
}

/// What is promised of the metadata of an identity: it is never empty; if the configured
/// installation identifier is free of the delete character it can be a header value, and if that
/// identifier is ASCII besides, it reads back from one.
pub open spec fn metadata_is_sound(cfg: ConfigView, id: IdentityView) -> bool {
    &&& id.turn_metadata.len() > 0
    &&& has_no_delete(cfg.installation_id) ==> is_header_content(id.turn_metadata)
    &&& is_ascii_text(cfg.installation_id) ==> is_visible_text(id.turn_metadata)
}

/// A random UUID can be a header value, and reads back from one.
pub proof fn lemma_uuid_is_readable(id: Seq<char>)
    requires
        is_uuid_v4(id),
    ensures
        is_header_content(id),
        is_visible_text(id),
{
}

impl ResolvedIdentity {
    /// Settles the identity of a turn in a given session. The identifier and the time of the turn
    /// go into its metadata, unless the client supplied that.
    pub fn resolve_with(
        cfg: &Config,
        client: ClientIdentity,
        session_id: String,
        turn_id: &str,
        started_at: u64,
    ) -> (id: ResolvedIdentity)
        ensures
            id@ == resolved(cfg@, client@, session_id@, turn_id@, started_at),
            config_is_sendable(cfg@) && client_is_sendable(client@) && is_header_content(
                session_id@,
            ) && is_header_content(turn_id@) ==> id@.is_sendable(),
            id@.turn_metadata.len() > 0,
            client_is_readable(client@) && is_ascii_text(session_id@) && is_ascii_text(turn_id@)
                ==> metadata_is_sound(cfg@, id@),
    {
        let client = client.kept();
        let user_agent = if is_codex(client.user_agent.as_str()) {
            client.user_agent
        } else {
            cfg.user_agent.clone()
        };
        let originator = if is_codex(client.originator.as_str()) {
            client.originator
        } else {
            cfg.originator.clone()
        };
        let thread_id = if client.thread_id.as_str().is_empty() {
            session_id.clone()
        } else {
            client.thread_id
        };
        let installation_id = if client.installation_id.as_str().is_empty() {
            cfg.installation_id.clone()
        } else {
            client.installation_id
        };
        let window_id = if client.window_id.as_str().is_empty() {
            let mut made = session_id.clone();
            made.append(":0");
            made
        } else {
            client.window_id
        };
        proof {
            reveal_strlit(":0");
        }
        let request_id = if client.request_id.as_str().is_empty() {
            session_id.clone()
        } else {
            client.request_id
        };
        let beta_features = if client.beta_features.as_str().is_empty() {
            cfg.beta_features.clone()
        } else {
            client.beta_features
        };
        let turn_metadata = if client.turn_metadata.as_str().is_empty() {
            synthesize_turn_metadata(
                installation_id.as_str(),
                session_id.as_str(),
                thread_id.as_str(),
                window_id.as_str(),
                turn_id,
                started_at,
            )
        } else {
            client.turn_metadata
        };
        ResolvedIdentity {
            user_agent,
            originator,
            accept_encoding: cfg.accept_encoding.clone(),
            session_id,
            thread_id,
            request_id,
            window_id,
            installation_id,
            beta_features,
            turn_metadata,
        }
    }

    /// Settles the identity of a turn from what was drawn for it: a session, which counts if the
    /// client supplied none, and an identifier and a clock reading for the metadata, which count
    /// unless the client's metadata is kept.
    pub fn resolve_drawn(
        cfg: &Config,
        client: ClientIdentity,
        session_id: String,
        turn_id: &str,
        read: Option<u128>,
    ) -> (id: ResolvedIdentity)
        ensures
            id@ == resolved(
                cfg@,
                client@,
                or_else(client@.session_id, session_id@),
                turn_id@,
                stamp_of(read),
            ),
            config_is_sendable(cfg@) && client_is_sendable(client@) && is_header_content(
                session_id@,
            ) && is_header_content(turn_id@) ==> id@.is_sendable(),
            id@.turn_metadata.len() > 0,
            client_is_readable(client@) && is_ascii_text(session_id@) && is_ascii_text(turn_id@)
                ==> metadata_is_sound(cfg@, id@),
    {
        let session_id = if client.session_id.as_str().is_empty() {
            session_id
        } else {
            client.session_id.clone()
        };
        ResolvedIdentity::resolve_with(cfg, client, session_id, turn_id, time_stamp(read))
    }

    /// Settles the identity of the turn that a request belongs to. A client that supplies no
    /// session gets a random one; metadata that is filled in gets a random turn identifier and the
    /// time of the clock. Which ones come is left to chance and the clock; [`Self::resolve_drawn`]
    /// says what becomes of them.
    pub fn resolve(cfg: &Config, headers: &HeaderMap<HeaderValue>) -> (id: ResolvedIdentity)
        ensures
            is_resolution(cfg@, client_of(header_fields(*headers)), id@),
            config_is_sendable(cfg@) ==> id@.is_sendable(),
            metadata_is_sound(cfg@, id@),
    {
        let client = ClientIdentity::from_headers(headers);
        let mut session_id = String::new();
        if client.session_id.as_str().is_empty() {
            session_id = draw_uuid();
        }
        let mut turn_id = String::new();
        let mut read: Option<u128> = None;
        if !client.is_genuine() || client.turn_metadata.as_str().is_empty() {
            turn_id = draw_uuid();
            read = read_clock();
        }
        proof {
            lemma_client_is_readable(header_fields(*headers));
        }
        let id = ResolvedIdentity::resolve_drawn(cfg, client, session_id, turn_id.as_str(), read);
        assert(is_turn(cfg@, client@, id@, turn_id@, read));
        id
    }
}

/// The request headers that are not sent on as they come, in lower case.
pub open spec fn reserved_names() -> Set<Seq<char>> {
    name_set(HOP_BY_HOP@).union(name_set(IDENTITY_HEADERS@))
}

/// Whether a name is that of a canonical identity header.
pub open spec fn is_canonical(name: Seq<char>) -> bool {
    exists|i: int| 0 <= i < CANONICAL_HEADERS@.len() && #[trigger] CANONICAL_HEADERS@[i]@ == name
}

/// The headers that are sent upstream for a request with the given headers and the given
/// identity: those that pass, and one canonical copy of each identity header.
pub open spec fn upstream_fields(incoming: Fields, id: IdentityView) -> Fields {
    with_fields(without(incoming, reserved_names()), CANONICAL_HEADERS@, id.texts())
}

/// Whether a request has so few header names that the headers sent upstream have room for
/// certain.
pub open spec fn has_room(incoming: Fields) -> bool {
    incoming.dom().len() + CANONICAL_HEADERS@.len() <= SURE_NAMES
}

/// Whether `out` is what is sent upstream. A request with more names than there is room for may
/// lose headers, though not before so many are sent that there may be no room; it gains none, none
/// of its identity headers changes, and of every other header it keeps the first values.
pub open spec fn is_rewritten(incoming: Fields, id: IdentityView, out: Fields) -> bool {
    let wanted = upstream_fields(incoming, id);
    &&& has_room(incoming) ==> out == wanted
    &&& out == wanted || out.dom().len() > SURE_NAMES
    &&& forall|name: Seq<char>| #[trigger]
        out.contains_key(name) ==> {
            &&& wanted.contains_key(name)
            &&& if is_canonical(name) {
                out[name] == wanted[name]
            } else {
                out[name].len() > 0 && out[name].is_prefix_of(incoming[name])
            }
        }
}

/// The canonical identity headers do not pass as they come.
pub proof fn lemma_canonical_is_reserved(name: Seq<char>)
    requires
        is_canonical(name),
    ensures
        reserved_names().contains(ascii_lower(name)),
{
    let i = choose|i: int|
        0 <= i < CANONICAL_HEADERS@.len() && #[trigger] CANONICAL_HEADERS@[i]@ == name;
    let places = seq![0int, 1, 11, 2, 4, 6, 7, 8, 9, 10];
    assert(IDENTITY_HEADERS@[places[i]]@ == name);
}

impl ResolvedIdentity {
    /// Puts the identity into the headers of a request: passes on what is neither reserved nor an
    /// identity header, and sets each canonical identity header once.
    pub fn apply_to_headers(&self, incoming: &HeaderMap<HeaderValue>) -> (out: HeaderMap<
        HeaderValue,
    >)
        ensures
            header_fields(*incoming).dom().finite(),
            is_rewritten(header_fields(*incoming), self@, header_fields(out)),
    {
        let mut out = copy_without(incoming, HOP_BY_HOP.as_slice(), IDENTITY_HEADERS.as_slice());
        let texts: [&str; 10] = [
            self.user_agent.as_str(),
            self.originator.as_str(),
            self.accept_encoding.as_str(),
            self.session_id.as_str(),
            self.thread_id.as_str(),
            self.request_id.as_str(),
            self.window_id.as_str(),
            self.installation_id.as_str(),
            self.beta_features.as_str(),
            self.turn_metadata.as_str(),
        ];
        let ghost source = header_fields(*incoming);
        let ghost copied = header_fields(out);
        let ghost kept = without(source, reserved_names());
        proof {
            lemma_identity_names();
            assert(texts_of(texts@) =~= self@.texts());
        }
        set_all(&mut out, CANONICAL_HEADERS.as_slice(), texts.as_slice());
        proof {
            lemma_with_fields(kept, CANONICAL_HEADERS@, self@.texts());
            lemma_with_fields(copied, CANONICAL_HEADERS@, self@.texts());
            let wanted = upstream_fields(source, self@);
            let made = header_fields(out);
            assert forall|name: Seq<char>| #[trigger] made.contains_key(name) implies {
                &&& wanted.contains_key(name)
                &&& if is_canonical(name) {
                    made[name] == wanted[name]
                } else {
                    made[name].len() > 0 && made[name].is_prefix_of(source[name])
                }
            } by {
                let part = with_fields(copied, CANONICAL_HEADERS@, self@.texts());
                assert(part.contains_key(name));
                if is_canonical(name) {
                    lemma_canonical_is_reserved(name);
                    assert(!copied.contains_key(name));
                    assert(!kept.contains_key(name));
                    let i = choose|i: int|
                        0 <= i < CANONICAL_HEADERS@.len() && #[trigger] CANONICAL_HEADERS@[i]@
                            == name;
                    assert(is_header_content(self@.texts()[i]));
                } else {
                    assert(forall|i: int|
                        0 <= i < CANONICAL_HEADERS@.len() ==> #[trigger] CANONICAL_HEADERS@[i]@
                            != name);
                    assert(copied.contains_key(name));
                    assert(kept.contains_key(name));
                    assert(wanted.contains_key(name) == kept.contains_key(name));
                }
            }
        }
        out
    }
}

/// Whether `out` are headers that may be sent upstream for a request with the given headers.
pub open spec fn is_sent_upstream(cfg: ConfigView, incoming: Fields, out: Fields) -> bool {
    exists|id: IdentityView|
        {
            &&& is_resolution(cfg, client_of(incoming), id)
            &&& config_is_sendable(cfg) ==> id.is_sendable()
            &&& metadata_is_sound(cfg, id)
            &&& #[trigger] is_rewritten(incoming, id, out)
        }
}

/// Builds the headers that are sent upstream for a request: settles the identity of its turn and
/// puts that into its headers. No identity header is ever absent or repeated, provided that the
/// configuration holds values that can be header values.
pub fn build_upstream_headers(cfg: &Config, incoming: &HeaderMap<HeaderValue>) -> (out: HeaderMap<
    HeaderValue,
>)
    ensures
        header_fields(*incoming).dom().finite(),
        is_sent_upstream(cfg@, header_fields(*incoming), header_fields(out)),
        config_is_sendable(cfg@) && has_room(header_fields(*incoming)) ==> forall|i: int|
            0 <= i < CANONICAL_HEADERS@.len() ==> {
                let name = #[trigger] CANONICAL_HEADERS@[i]@;
                header_fields(out).contains_key(name) && header_fields(out)[name].len() == 1
            },
{
    let identity = ResolvedIdentity::resolve(cfg, incoming);
    let out = identity.apply_to_headers(incoming);
    proof {
        if config_is_sendable(cfg@) && has_room(header_fields(*incoming)) {
            identity_headers_are_sent_once(
                header_fields(*incoming),
                identity@,
                header_fields(out),
            );
        }
    }
    out
}

/// The identity of a turn, value by value, whatever the client and the texts: a token that begins
/// with `codex-` or `codex_` is kept and any other replaced; every other value is kept if it is not
/// empty and either token says Codex, and derives from the session or the configuration if not.
pub proof fn identities_are_settled_value_by_value(
    cfg: ConfigView,
    client: ClientView,
    session_id: Seq<char>,
    turn_id: Seq<char>,
    started_at: u64,
)
    ensures
        ({
            let id = resolved(cfg, client, session_id, turn_id, started_at);
            let codex = |text: Seq<char>|
                text.len() >= 6 && text[0] == 'c' && text[1] == 'o' && text[2] == 'd' && text[3]
                    == 'e' && text[4] == 'x' && (text[5] == '-' || text[5] == '_');
            let genuine = codex(client.user_agent) || codex(client.originator);
            &&& is_genuine(client) == genuine
            &&& id.user_agent == (if codex(client.user_agent) {
                client.user_agent
            } else {
                cfg.user_agent
            })
            &&& id.originator == (if codex(client.originator) {
                client.originator
            } else {
                cfg.originator
            })
            &&& id.accept_encoding == cfg.accept_encoding
            &&& id.session_id == session_id
            &&& id.thread_id == (if genuine && client.thread_id.len() > 0 {
                client.thread_id
            } else {
                session_id
            })
            &&& id.request_id == (if genuine && client.request_id.len() > 0 {
                client.request_id
            } else {
                session_id
            })
            &&& if genuine && client.window_id.len() > 0 {
                id.window_id == client.window_id
            } else {
                &&& id.window_id.len() == session_id.len() + 2
                &&& id.window_id.subrange(0, session_id.len() as int) == session_id
                &&& id.window_id[session_id.len() as int] == ':'
                &&& id.window_id[session_id.len() as int + 1] == '0'
            }
            &&& id.installation_id == (if genuine && client.installation_id.len() > 0 {
                client.installation_id
            } else {
                cfg.installation_id
            })
            &&& id.beta_features == (if genuine && client.beta_features.len() > 0 {
                client.beta_features
            } else {
                cfg.beta_features
            })
            &&& if genuine && client.turn_metadata.len() > 0 {
                id.turn_metadata == client.turn_metadata
            } else {
                id.turn_metadata == json_text(
                    turn_members(
                        id.installation_id,
                        session_id,
                        id.thread_id,
                        id.window_id,
                        turn_id,
                        started_at,
                    ),
                )
            }
        }),
{
    codex_tokens_begin_with_codex(client.user_agent);
    codex_tokens_begin_with_codex(client.originator);
    reveal_strlit(":0");
    let made = session_id + ":0"@;
    assert(made.subrange(0, session_id.len() as int) =~= session_id);
}

/// What is kept of a client's values: all of a client one of whose tokens begins with `codex-` or
/// `codex_`; of any other the tokens and the session, and nothing else.
pub proof fn other_clients_keep_their_session_only(client: ClientView)
    ensures
        ({
            let codex = |text: Seq<char>|
                text.len() >= 6 && text[0] == 'c' && text[1] == 'o' && text[2] == 'd' && text[3]
                    == 'e' && text[4] == 'x' && (text[5] == '-' || text[5] == '_');
            let genuine = codex(client.user_agent) || codex(client.originator);
            let kept = kept_values(client);
            &&& genuine ==> kept == client
            &&& !genuine ==> {
                &&& kept.user_agent == client.user_agent
                &&& kept.originator == client.originator
                &&& kept.session_id == client.session_id
                &&& kept.thread_id.len() == 0 && kept.request_id.len() == 0
                &&& kept.window_id.len() == 0 && kept.installation_id.len() == 0
                &&& kept.beta_features.len() == 0 && kept.turn_metadata.len() == 0
            }
        }),
{
    codex_tokens_begin_with_codex(client.user_agent);
    codex_tokens_begin_with_codex(client.originator);
}

/// Which header supplies which value of a client; the hyphenated spelling of the session and the
/// thread goes before the other.
pub proof fn clients_are_read_from_their_headers(fields: Fields)
    ensures
        ({
            let client = client_of(fields);
            let session = field_text(fields, "session-id"@);
            let thread = field_text(fields, "thread-id"@);
            &&& client.user_agent == field_text(fields, "user-agent"@)
            &&& client.originator == field_text(fields, "originator"@)
            &&& session.len() > 0 ==> client.session_id == session
            &&& session.len() == 0 ==> client.session_id == field_text(fields, "session_id"@)
            &&& thread.len() > 0 ==> client.thread_id == thread
            &&& thread.len() == 0 ==> client.thread_id == field_text(fields, "thread_id"@)
            &&& client.request_id == field_text(fields, "x-client-request-id"@)
            &&& client.window_id == field_text(fields, "x-codex-window-id"@)
            &&& client.installation_id == field_text(fields, "x-codex-installation-id"@)
            &&& client.beta_features == field_text(fields, "x-codex-beta-features"@)
            &&& client.turn_metadata == field_text(fields, "x-codex-turn-metadata"@)
        }),
{
}

} // verus!
