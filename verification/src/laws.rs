//! What holds of the headers that are sent upstream, whatever the request and the environment.
//!
//! Throughout, `incoming` are the headers of a request, `id` is the identity that its turn got
//! under the configuration `cfg`, and `out` are the headers that were sent upstream for it.

use vstd::prelude::*;
use vstd::utf8::{
    encode_utf8, encode_utf8_decode_utf8, encode_utf8_first_scalar, is_ascii_chars,
    is_ascii_chars_encode_utf8,
};

use crate::config::{
    config_of, env_text, user_agent_of, ConfigView, ORIGINATOR, UA_OS, UA_TERMINAL, UA_VERSION,
    USER_AGENT,
};
use crate::fresh::{is_clock_reading, is_drawn_uuid, is_uuid_v4, stamp_of};
use crate::headers::{
    field_text, is_header_char, is_header_content, is_header_name, is_visible, is_visible_octet,
    is_visible_text, lemma_with_fields, name_set, octets_text, without, Fields,
};
use crate::identity::{
    client_of, config_is_sendable, has_room, is_canonical, is_genuine, is_resolution, is_rewritten,
    is_sent_upstream, is_turn, kept_values, lemma_canonical_is_reserved, lemma_client_is_readable,
    lemma_identity_names, lemma_uuid_is_readable, metadata_is_sound, names_codex, reserved_names,
    turn_members, upstream_fields, IdentityView, CANONICAL_HEADERS, HOP_BY_HOP,
    IDENTITY_HEADERS,
};
use crate::json::{has_no_delete, is_ascii_text, json_text, Member, Members};
use crate::text::ascii_lower;

verus! {

/// Octets that read as text are the UTF-8 form of that text.
pub proof fn lemma_visible_octets_survive(octets: Seq<u8>)
    requires
        is_visible(octets),
    ensures
        encode_utf8(octets_text(octets)) == octets,
{
    let text = octets_text(octets);
    assert(is_ascii_chars(text));
    is_ascii_chars_encode_utf8(text);
    assert(encode_utf8(text) =~= octets);
}

/// The value that is sent upstream under a canonical identity header.
pub(crate) proof fn lemma_canonical_value(incoming: Fields, id: IdentityView, out: Fields, i: int)
    requires
        is_rewritten(incoming, id, out),
        has_room(incoming),
        0 <= i < CANONICAL_HEADERS@.len(),
        is_header_content(id.texts()[i]),
    ensures
        out.contains_key(CANONICAL_HEADERS@[i]@),
        out[CANONICAL_HEADERS@[i]@] == seq![encode_utf8(id.texts()[i])],
{
    lemma_identity_names();
    lemma_with_fields(without(incoming, reserved_names()), CANONICAL_HEADERS@, id.texts());
}

/// Every identity header is sent upstream, and has exactly one value.
pub proof fn identity_headers_are_sent_once(incoming: Fields, id: IdentityView, out: Fields)
    requires
        is_rewritten(incoming, id, out),
        has_room(incoming),
        id.is_sendable(),
    ensures
        forall|i: int|
            0 <= i < CANONICAL_HEADERS@.len() ==> {
                let name = #[trigger] CANONICAL_HEADERS@[i]@;
                out.contains_key(name) && out[name] == seq![encode_utf8(id.texts()[i])]
            },
{
    assert forall|i: int| 0 <= i < CANONICAL_HEADERS@.len() implies {
        let name = #[trigger] CANONICAL_HEADERS@[i]@;
        out.contains_key(name) && out[name] == seq![encode_utf8(id.texts()[i])]
    } by {
        lemma_canonical_value(incoming, id, out, i);
    }
}

/// No identity header is sent upstream with more than one value.
pub proof fn no_identity_header_is_sent_twice(incoming: Fields, id: IdentityView, out: Fields)
    requires
        is_rewritten(incoming, id, out),
    ensures
        forall|name: Seq<char>| #[trigger]
            out.contains_key(name) && is_canonical(name) ==> out[name].len() == 1,
{
    lemma_identity_names();
    lemma_with_fields(without(incoming, reserved_names()), CANONICAL_HEADERS@, id.texts());
    assert forall|name: Seq<char>| #[trigger]
        out.contains_key(name) && is_canonical(name) implies out[name].len() == 1 by {
        lemma_canonical_is_reserved(name);
        let i = choose|i: int|
            0 <= i < CANONICAL_HEADERS@.len() && #[trigger] CANONICAL_HEADERS@[i]@ == name;
        assert(is_header_content(id.texts()[i]));
    }
}

/// A text that is not empty has octets.
proof fn lemma_text_has_octets(text: Seq<char>)
    requires
        text.len() > 0,
    ensures
        encode_utf8(text).len() > 0,
{
    encode_utf8_first_scalar(text);
}

/// No identity header is sent upstream empty, if nothing that the configuration fills in is
/// empty.
pub proof fn no_identity_header_is_empty(
    cfg: ConfigView,
    incoming: Fields,
    id: IdentityView,
    out: Fields,
)
    requires
        is_resolution(cfg, client_of(incoming), id),
        metadata_is_sound(cfg, id),
        id.is_sendable(),
        is_rewritten(incoming, id, out),
        has_room(incoming),
        cfg.user_agent.len() > 0,
        cfg.originator.len() > 0,
        cfg.accept_encoding.len() > 0,
        cfg.installation_id.len() > 0,
        cfg.beta_features.len() > 0,
    ensures
        forall|i: int|
            0 <= i < CANONICAL_HEADERS@.len() ==> {
                let name = #[trigger] CANONICAL_HEADERS@[i]@;
                out.contains_key(name) && out[name].len() == 1 && out[name][0].len() > 0
            },
{
    reveal_strlit("codex-");
    reveal_strlit("codex_");
    reveal_strlit(":0");
    assert forall|i: int| 0 <= i < CANONICAL_HEADERS@.len() implies {
        let name = #[trigger] CANONICAL_HEADERS@[i]@;
        out.contains_key(name) && out[name].len() == 1 && out[name][0].len() > 0
    } by {
        assert(id.texts()[i].len() > 0);
        lemma_text_has_octets(id.texts()[i]);
        lemma_canonical_value(incoming, id, out, i);
    }
}

/// The names of the canonical identity headers are header names.
proof fn lemma_canonical_is_name(i: int)
    requires
        0 <= i < CANONICAL_HEADERS@.len(),
    ensures
        is_header_name(CANONICAL_HEADERS@[i]@),
{
    lemma_identity_names();
}

/// A header name is in lower case.
proof fn lemma_name_is_lower(name: Seq<char>)
    requires
        is_header_name(name),
    ensures
        ascii_lower(name) == name,
{
    assert(ascii_lower(name) =~= name);
}

/// The names of the headers that concern one connection are header names, and none is canonical.
proof fn lemma_hop_by_hop_names(i: int)
    requires
        0 <= i < HOP_BY_HOP@.len(),
    ensures
        is_header_name(HOP_BY_HOP@[i]@),
        forall|j: int|
            0 <= j < CANONICAL_HEADERS@.len() ==> HOP_BY_HOP@[i]@
                != #[trigger] CANONICAL_HEADERS@[j]@,
{
    reveal_strlit("host");
    reveal_strlit("content-length");
    reveal_strlit("connection");
    reveal_strlit("keep-alive");
    reveal_strlit("transfer-encoding");
    reveal_strlit("upgrade");
    reveal_strlit("proxy-authorization");
    reveal_strlit("proxy-connection");
    reveal_strlit("user-agent");
    reveal_strlit("originator");
    reveal_strlit("accept-encoding");
    reveal_strlit("session-id");
    reveal_strlit("thread-id");
    reveal_strlit("x-client-request-id");
    reveal_strlit("x-codex-window-id");
    reveal_strlit("x-codex-installation-id");
    reveal_strlit("x-codex-beta-features");
    reveal_strlit("x-codex-turn-metadata");
    assert forall|j: int| 0 <= j < CANONICAL_HEADERS@.len() implies HOP_BY_HOP@[i]@
        != #[trigger] CANONICAL_HEADERS@[j]@ by {
        let hop = HOP_BY_HOP@[i]@;
        let canonical = CANONICAL_HEADERS@[j]@;
        assert(hop.len() != canonical.len() || hop[0] != canonical[0]);
    }
}

/// A header that concerns only the connection to the client is not sent upstream, in whatever
/// case its name is written.
pub proof fn hop_by_hop_headers_are_dropped(
    incoming: Fields,
    id: IdentityView,
    out: Fields,
    name: Seq<char>,
    i: int,
)
    requires
        is_rewritten(incoming, id, out),
        0 <= i < HOP_BY_HOP@.len(),
        ascii_lower(name) == ascii_lower(HOP_BY_HOP@[i]@),
    ensures
        !out.contains_key(name),
{
    lemma_identity_names();
    lemma_hop_by_hop_names(i);
    lemma_with_fields(without(incoming, reserved_names()), CANONICAL_HEADERS@, id.texts());
    assert(name_set(HOP_BY_HOP@).contains(ascii_lower(name)));
    assert forall|j: int|
        0 <= j < CANONICAL_HEADERS@.len() implies #[trigger] CANONICAL_HEADERS@[j]@ != name by {
        lemma_canonical_is_name(j);
        lemma_name_is_lower(CANONICAL_HEADERS@[j]@);
        lemma_name_is_lower(HOP_BY_HOP@[i]@);
    }
}

/// A name that differs from each reserved one is not reserved.
proof fn lemma_other_name_is_not_reserved(name: Seq<char>)
    requires
        forall|i: int| 0 <= i < HOP_BY_HOP@.len() ==> name != #[trigger] HOP_BY_HOP@[i]@,
        forall|i: int|
            0 <= i < IDENTITY_HEADERS@.len() ==> name != #[trigger] IDENTITY_HEADERS@[i]@,
    ensures
        !reserved_names().contains(name),
{
    lemma_identity_names();
    assert forall|i: int| 0 <= i < HOP_BY_HOP@.len() implies name != ascii_lower(
        #[trigger] HOP_BY_HOP@[i]@,
    ) by {
        lemma_hop_by_hop_names(i);
        lemma_name_is_lower(HOP_BY_HOP@[i]@);
    }
    assert forall|i: int| 0 <= i < IDENTITY_HEADERS@.len() implies name != ascii_lower(
        #[trigger] IDENTITY_HEADERS@[i]@,
    ) by {
        assert(is_header_name(IDENTITY_HEADERS@[i]@));
        lemma_name_is_lower(IDENTITY_HEADERS@[i]@);
    }
}

/// Every other header passes verbatim, with all its values in their order: one whose name, in lower
/// case, differs from each that concerns a connection and each that tells an identity.
pub proof fn other_headers_pass(
    incoming: Fields,
    id: IdentityView,
    out: Fields,
    name: Seq<char>,
)
    requires
        is_rewritten(incoming, id, out),
        has_room(incoming),
        incoming.contains_key(name),
        forall|i: int|
            0 <= i < HOP_BY_HOP@.len() ==> ascii_lower(name) != #[trigger] HOP_BY_HOP@[i]@,
        forall|i: int|
            0 <= i < IDENTITY_HEADERS@.len() ==> ascii_lower(name)
                != #[trigger] IDENTITY_HEADERS@[i]@,
    ensures
        out.contains_key(name),
        out[name] == incoming[name],
{
    lemma_other_name_is_not_reserved(ascii_lower(name));
    lemma_identity_names();
    lemma_with_fields(without(incoming, reserved_names()), CANONICAL_HEADERS@, id.texts());
    if is_canonical(name) {
        lemma_canonical_is_reserved(name);
    }
    assert(forall|i: int|
        0 <= i < CANONICAL_HEADERS@.len() ==> #[trigger] CANONICAL_HEADERS@[i]@ != name);
    assert(upstream_fields(incoming, id).contains_key(name));
}

/// What should be sent upstream holds every other header as it came.
pub(crate) proof fn lemma_wanted_keeps_others(incoming: Fields, id: IdentityView, name: Seq<char>)
    requires
        incoming.contains_key(name),
        forall|i: int|
            0 <= i < HOP_BY_HOP@.len() ==> ascii_lower(name) != #[trigger] HOP_BY_HOP@[i]@,
        forall|i: int|
            0 <= i < IDENTITY_HEADERS@.len() ==> ascii_lower(name)
                != #[trigger] IDENTITY_HEADERS@[i]@,
    ensures
        upstream_fields(incoming, id).contains_key(name),
        upstream_fields(incoming, id)[name] == incoming[name],
{
    lemma_other_name_is_not_reserved(ascii_lower(name));
    lemma_identity_names();
    lemma_with_fields(without(incoming, reserved_names()), CANONICAL_HEADERS@, id.texts());
    if is_canonical(name) {
        lemma_canonical_is_reserved(name);
    }
    assert(forall|i: int|
        0 <= i < CANONICAL_HEADERS@.len() ==> #[trigger] CANONICAL_HEADERS@[i]@ != name);
    assert(upstream_fields(incoming, id).contains_key(name));
}

/// An identity header whose value cannot be a header value is not sent.
pub(crate) proof fn lemma_unsendable_is_absent(
    incoming: Fields,
    id: IdentityView,
    out: Fields,
    i: int,
)
    requires
        is_rewritten(incoming, id, out),
        0 <= i < CANONICAL_HEADERS@.len(),
        !is_header_content(id.texts()[i]),
    ensures
        !out.contains_key(CANONICAL_HEADERS@[i]@),
{
    let name = CANONICAL_HEADERS@[i]@;
    assert(is_canonical(name));
    lemma_canonical_is_reserved(name);
    lemma_identity_names();
    lemma_with_fields(without(incoming, reserved_names()), CANONICAL_HEADERS@, id.texts());
    assert(!without(incoming, reserved_names()).contains_key(name));
}

/// Nothing is sent upstream but identity headers and headers that the client sent.
pub proof fn no_other_header_is_added(
    incoming: Fields,
    id: IdentityView,
    out: Fields,
    name: Seq<char>,
)
    requires
        is_rewritten(incoming, id, out),
        out.contains_key(name),
    ensures
        is_canonical(name) || incoming.contains_key(name) && !reserved_names().contains(
            ascii_lower(name),
        ),
{
    lemma_identity_names();
    lemma_with_fields(without(incoming, reserved_names()), CANONICAL_HEADERS@, id.texts());
    if !is_canonical(name) {
        assert(forall|i: int|
            0 <= i < CANONICAL_HEADERS@.len() ==> #[trigger] CANONICAL_HEADERS@[i]@ != name);
        assert(upstream_fields(incoming, id).contains_key(name));
    }
}

/// A version or a conversation identifier is never made up: it is sent upstream only if the
/// client sent it.
pub proof fn version_and_conversation_are_not_made_up(
    incoming: Fields,
    id: IdentityView,
    out: Fields,
)
    requires
        is_rewritten(incoming, id, out),
    ensures
        out.contains_key("version"@) ==> incoming.contains_key("version"@),
        out.contains_key("conversation_id"@) ==> incoming.contains_key("conversation_id"@),
{
    lemma_canonical_first_characters();
    reveal_strlit("version");
    reveal_strlit("conversation_id");
    if out.contains_key("version"@) {
        no_other_header_is_added(incoming, id, out, "version"@);
    }
    if out.contains_key("conversation_id"@) {
        no_other_header_is_added(incoming, id, out, "conversation_id"@);
    }
}

/// With which letter the names of the canonical identity headers begin.
proof fn lemma_canonical_first_characters()
    ensures
        forall|i: int|
            0 <= i < CANONICAL_HEADERS@.len() ==> {
                let name = #[trigger] CANONICAL_HEADERS@[i]@;
                name[0] == 'u' || name[0] == 'o' || name[0] == 'a' || name[0] == 's' || name[0]
                    == 't' || name[0] == 'x'
            },
{
    reveal_strlit("user-agent");
    reveal_strlit("originator");
    reveal_strlit("accept-encoding");
    reveal_strlit("session-id");
    reveal_strlit("thread-id");
    reveal_strlit("x-client-request-id");
    reveal_strlit("x-codex-window-id");
    reveal_strlit("x-codex-installation-id");
    reveal_strlit("x-codex-beta-features");
    reveal_strlit("x-codex-turn-metadata");
}

/// The other spellings of the session and thread headers are not sent upstream.
pub proof fn other_spellings_are_dropped(incoming: Fields, id: IdentityView, out: Fields)
    requires
        is_rewritten(incoming, id, out),
    ensures
        !out.contains_key("session_id"@),
        !out.contains_key("thread_id"@),
{
    lemma_identity_names();
    lemma_name_is_lower("session_id"@);
    lemma_name_is_lower("thread_id"@);
    assert(IDENTITY_HEADERS@[3]@ == "session_id"@);
    assert(IDENTITY_HEADERS@[5]@ == "thread_id"@);
    assert(reserved_names().contains(ascii_lower("session_id"@)));
    assert(reserved_names().contains(ascii_lower("thread_id"@)));
    reveal_strlit("user-agent");
    reveal_strlit("originator");
    reveal_strlit("accept-encoding");
    reveal_strlit("session-id");
    reveal_strlit("session_id");
    reveal_strlit("thread-id");
    reveal_strlit("thread_id");
    reveal_strlit("x-client-request-id");
    reveal_strlit("x-codex-window-id");
    reveal_strlit("x-codex-installation-id");
    reveal_strlit("x-codex-beta-features");
    reveal_strlit("x-codex-turn-metadata");
    assert("session-id"@[7] != "session_id"@[7]);
    assert("thread-id"@[6] != "thread_id"@[6]);
    assert(!is_canonical("session_id"@));
    assert(!is_canonical("thread_id"@));
    if out.contains_key("session_id"@) {
        no_other_header_is_added(incoming, id, out, "session_id"@);
    }
    if out.contains_key("thread_id"@) {
        no_other_header_is_added(incoming, id, out, "thread_id"@);
    }
}

/// A text that is read from the first value of a name and sent upstream is sent with the same
/// octets.
proof fn lemma_text_survives(fields: Fields, name: Seq<char>)
    requires
        field_text(fields, name).len() > 0,
    ensures
        is_header_content(field_text(fields, name)),
        encode_utf8(field_text(fields, name)) == fields[name].first(),
{
    lemma_visible_octets_survive(fields[name].first());
}

/// A user agent or an originator that names a Codex client is sent upstream octet for octet.
pub proof fn codex_client_is_kept(cfg: ConfigView, incoming: Fields, id: IdentityView, out: Fields)
    requires
        is_resolution(cfg, client_of(incoming), id),
        is_rewritten(incoming, id, out),
        has_room(incoming),
    ensures
        names_codex(field_text(incoming, "user-agent"@)) ==> out.contains_key("user-agent"@)
            && out["user-agent"@] == seq![incoming["user-agent"@].first()],
        names_codex(field_text(incoming, "originator"@)) ==> out.contains_key("originator"@)
            && out["originator"@] == seq![incoming["originator"@].first()],
{
    reveal_strlit("codex-");
    reveal_strlit("codex_");
    if names_codex(field_text(incoming, "user-agent"@)) {
        lemma_text_survives(incoming, "user-agent"@);
        lemma_canonical_value(incoming, id, out, 0);
    }
    if names_codex(field_text(incoming, "originator"@)) {
        lemma_text_survives(incoming, "originator"@);
        lemma_canonical_value(incoming, id, out, 1);
    }
}

/// A user agent or an originator that does not name a Codex client is replaced by that of the
/// configuration.
pub proof fn other_client_is_replaced(
    cfg: ConfigView,
    incoming: Fields,
    id: IdentityView,
    out: Fields,
)
    requires
        is_resolution(cfg, client_of(incoming), id),
        is_rewritten(incoming, id, out),
        has_room(incoming),
        is_header_content(cfg.user_agent),
        is_header_content(cfg.originator),
    ensures
        !names_codex(field_text(incoming, "user-agent"@)) ==> out.contains_key("user-agent"@)
            && out["user-agent"@] == seq![encode_utf8(cfg.user_agent)],
        !names_codex(field_text(incoming, "originator"@)) ==> out.contains_key("originator"@)
            && out["originator"@] == seq![encode_utf8(cfg.originator)],
{
    if !names_codex(field_text(incoming, "user-agent"@)) {
        lemma_canonical_value(incoming, id, out, 0);
    }
    if !names_codex(field_text(incoming, "originator"@)) {
        lemma_canonical_value(incoming, id, out, 1);
    }
}

/// The accepted encodings are always those of the configuration.
pub proof fn accept_encoding_is_forced(
    cfg: ConfigView,
    incoming: Fields,
    id: IdentityView,
    out: Fields,
)
    requires
        is_resolution(cfg, client_of(incoming), id),
        is_rewritten(incoming, id, out),
        has_room(incoming),
        is_header_content(cfg.accept_encoding),
    ensures
        out.contains_key("accept-encoding"@),
        out["accept-encoding"@] == seq![encode_utf8(cfg.accept_encoding)],
{
    lemma_canonical_value(incoming, id, out, 2);
}

/// Every identifier that a Codex client supplies is sent upstream octet for octet, those of the
/// session and the thread also if the client uses the other spelling.
pub proof fn supplied_identifiers_are_kept(
    cfg: ConfigView,
    incoming: Fields,
    id: IdentityView,
    out: Fields,
)
    requires
        is_resolution(cfg, client_of(incoming), id),
        is_rewritten(incoming, id, out),
        has_room(incoming),
        is_genuine(client_of(incoming)),
    ensures
        forall|i: int|
            3 <= i < CANONICAL_HEADERS@.len() ==> {
                let name = #[trigger] CANONICAL_HEADERS@[i]@;
                field_text(incoming, name).len() > 0 ==> out.contains_key(name) && out[name]
                    == seq![incoming[name].first()]
            },
        field_text(incoming, "thread-id"@).len() == 0 && field_text(incoming, "thread_id"@).len()
            > 0 ==> out.contains_key("thread-id"@) && out["thread-id"@]
            == seq![incoming["thread_id"@].first()],
{
    assert forall|i: int| 3 <= i < CANONICAL_HEADERS@.len() implies {
        let name = #[trigger] CANONICAL_HEADERS@[i]@;
        field_text(incoming, name).len() > 0 ==> out.contains_key(name) && out[name]
            == seq![incoming[name].first()]
    } by {
        let name = CANONICAL_HEADERS@[i]@;
        if field_text(incoming, name).len() > 0 {
            lemma_text_survives(incoming, name);
            assert(id.texts()[i] == field_text(incoming, name));
            lemma_canonical_value(incoming, id, out, i);
        }
    }
    if field_text(incoming, "thread-id"@).len() == 0 && field_text(incoming, "thread_id"@).len()
        > 0 {
        lemma_text_survives(incoming, "thread_id"@);
        lemma_canonical_value(incoming, id, out, 4);
    }
}

/// The session that a client supplies is sent upstream octet for octet, whatever the client and
/// whichever spelling it uses.
pub proof fn supplied_session_is_kept(
    cfg: ConfigView,
    incoming: Fields,
    id: IdentityView,
    out: Fields,
)
    requires
        is_resolution(cfg, client_of(incoming), id),
        is_rewritten(incoming, id, out),
        has_room(incoming),
    ensures
        field_text(incoming, "session-id"@).len() > 0 ==> out.contains_key("session-id"@)
            && out["session-id"@] == seq![incoming["session-id"@].first()],
        field_text(incoming, "session-id"@).len() == 0 && field_text(
            incoming,
            "session_id"@,
        ).len() > 0 ==> out.contains_key("session-id"@) && out["session-id"@]
            == seq![incoming["session_id"@].first()],
{
    if field_text(incoming, "session-id"@).len() > 0 {
        lemma_text_survives(incoming, "session-id"@);
        lemma_canonical_value(incoming, id, out, 3);
    } else if field_text(incoming, "session_id"@).len() > 0 {
        lemma_text_survives(incoming, "session_id"@);
        lemma_canonical_value(incoming, id, out, 3);
    }
}

/// The identifiers of a turn belong to one session: those that are not kept of a client's derive
/// from the session, which is random if the client does not supply it, and metadata that is filled
/// in names the very identifiers that are sent as headers.
pub proof fn identity_is_coherent(cfg: ConfigView, incoming: Fields, id: IdentityView)
    requires
        is_resolution(cfg, client_of(incoming), id),
    ensures
        client_of(incoming).session_id.len() == 0 ==> is_uuid_v4(id.session_id) && is_drawn_uuid(
            id.session_id,
        ),
        kept_values(client_of(incoming)).thread_id.len() == 0 ==> id.thread_id == id.session_id,
        kept_values(client_of(incoming)).request_id.len() == 0 ==> id.request_id == id.session_id,
        kept_values(client_of(incoming)).window_id.len() == 0 ==> id.window_id == id.session_id
            + ":0"@,
        kept_values(client_of(incoming)).turn_metadata.len() == 0 ==> exists|
            turn_id: Seq<char>,
            read: Option<u128>,
        |
            is_uuid_v4(turn_id) && is_drawn_uuid(turn_id) && is_clock_reading(read)
                && id.turn_metadata == json_text(
                #[trigger] turn_members(
                    id.installation_id,
                    id.session_id,
                    id.thread_id,
                    id.window_id,
                    turn_id,
                    stamp_of(read),
                ),
            ),
{
    let client = client_of(incoming);
    let (turn_id, read) = choose|turn_id: Seq<char>, read: Option<u128>| #[trigger]
        is_turn(cfg, client, id, turn_id, read);
    let members = turn_members(
        id.installation_id,
        id.session_id,
        id.thread_id,
        id.window_id,
        turn_id,
        stamp_of(read),
    );
    assert(kept_values(client).turn_metadata.len() == 0 ==> id.turn_metadata == json_text(members));
}

/// A request of which no thread, request or window identifier is kept is sent upstream with one
/// session throughout: the thread and the request carry the session's identifier, and the window
/// carries it with `:0` behind.
pub proof fn bare_request_gets_one_session(
    cfg: ConfigView,
    incoming: Fields,
    id: IdentityView,
    out: Fields,
)
    requires
        is_resolution(cfg, client_of(incoming), id),
        is_rewritten(incoming, id, out),
        has_room(incoming),
        kept_values(client_of(incoming)).thread_id.len() == 0,
        kept_values(client_of(incoming)).request_id.len() == 0,
        kept_values(client_of(incoming)).window_id.len() == 0,
    ensures
        out.contains_key("session-id"@),
        out["session-id"@] == seq![encode_utf8(id.session_id)],
        out.contains_key("thread-id"@),
        out["thread-id"@] == out["session-id"@],
        out.contains_key("x-client-request-id"@),
        out["x-client-request-id"@] == out["session-id"@],
        out.contains_key("x-codex-window-id"@),
        out["x-codex-window-id"@] == seq![encode_utf8(id.session_id + ":0"@)],
{
    lemma_client_is_readable(incoming);
    if client_of(incoming).session_id.len() == 0 {
        lemma_uuid_is_readable(id.session_id);
    }
    reveal_strlit(":0");
    lemma_canonical_value(incoming, id, out, 3);
    lemma_canonical_value(incoming, id, out, 4);
    lemma_canonical_value(incoming, id, out, 5);
    lemma_canonical_value(incoming, id, out, 6);
}

/// A client that is no Codex client gets one session throughout, whatever thread, request and
/// window identifiers, installation, beta features and metadata it sends: installation and beta
/// features are those of the configuration, and the metadata names the identifiers that are sent.
pub proof fn other_client_gets_one_session(
    cfg: ConfigView,
    incoming: Fields,
    id: IdentityView,
    out: Fields,
)
    requires
        is_resolution(cfg, client_of(incoming), id),
        id.is_sendable(),
        is_rewritten(incoming, id, out),
        has_room(incoming),
        !is_genuine(client_of(incoming)),
    ensures
        out.contains_key("session-id"@),
        out["session-id"@] == seq![encode_utf8(id.session_id)],
        out.contains_key("thread-id"@),
        out["thread-id"@] == out["session-id"@],
        out.contains_key("x-client-request-id"@),
        out["x-client-request-id"@] == out["session-id"@],
        out.contains_key("x-codex-window-id"@),
        out["x-codex-window-id"@] == seq![encode_utf8(id.session_id + ":0"@)],
        out.contains_key("x-codex-installation-id"@),
        out["x-codex-installation-id"@] == seq![encode_utf8(cfg.installation_id)],
        out.contains_key("x-codex-beta-features"@),
        out["x-codex-beta-features"@] == seq![encode_utf8(cfg.beta_features)],
        out.contains_key("x-codex-turn-metadata"@),
        exists|turn_id: Seq<char>, read: Option<u128>|
            is_uuid_v4(turn_id) && is_drawn_uuid(turn_id) && is_clock_reading(read)
                && out["x-codex-turn-metadata"@] == seq![
                encode_utf8(
                    json_text(
                        #[trigger] turn_members(
                            cfg.installation_id,
                            id.session_id,
                            id.session_id,
                            id.session_id + ":0"@,
                            turn_id,
                            stamp_of(read),
                        ),
                    ),
                ),
            ],
{
    bare_request_gets_one_session(cfg, incoming, id, out);
    identity_is_coherent(cfg, incoming, id);
    lemma_canonical_value(incoming, id, out, 7);
    lemma_canonical_value(incoming, id, out, 8);
    lemma_canonical_value(incoming, id, out, 9);
}

/// What the metadata of a turn says: nine members, among them the identifiers of the turn.
pub proof fn turn_metadata_names_the_turn(
    members: Members,
    installation_id: Seq<char>,
    session_id: Seq<char>,
    thread_id: Seq<char>,
    window_id: Seq<char>,
    turn_id: Seq<char>,
    started_at: u64,
)
    requires
        members == turn_members(
            installation_id,
            session_id,
            thread_id,
            window_id,
            turn_id,
            started_at,
        ),
    ensures
        members.dom() == set![
            "installation_id"@,
            "session_id"@,
            "thread_id"@,
            "turn_id"@,
            "window_id"@,
            "request_kind"@,
            "thread_source"@,
            "sandbox"@,
            "turn_started_at_unix_ms"@,
        ],
        members["installation_id"@] == Member::Text(installation_id),
        members["session_id"@] == Member::Text(session_id),
        members["thread_id"@] == Member::Text(thread_id),
        members["turn_id"@] == Member::Text(turn_id),
        members["window_id"@] == Member::Text(window_id),
        members["request_kind"@] == Member::Text("turn"@),
        members["thread_source"@] == Member::Text("user"@),
        members["sandbox"@] == Member::Text("none"@),
        members["turn_started_at_unix_ms"@] == Member::Number(started_at),
{
    reveal_strlit("installation_id");
    reveal_strlit("session_id");
    reveal_strlit("thread_id");
    reveal_strlit("turn_id");
    reveal_strlit("window_id");
    reveal_strlit("request_kind");
    reveal_strlit("thread_source");
    reveal_strlit("sandbox");
    reveal_strlit("turn_started_at_unix_ms");
    assert("thread_id"@[0] != "window_id"@[0]);
    assert("turn_id"@[0] != "sandbox"@[0]);
    assert("installation_id"@.len() == 15);
    assert("session_id"@.len() == 10);
    assert("thread_id"@.len() == 9);
    assert("turn_id"@.len() == 7);
    assert("window_id"@.len() == 9);
    assert("request_kind"@.len() == 12);
    assert("thread_source"@.len() == 13);
    assert("sandbox"@.len() == 7);
    assert("turn_started_at_unix_ms"@.len() == 23);
}

/// A visible text that is sent as the one value of a name is read back from it.
proof fn lemma_visible_text_is_read_back(fields: Fields, name: Seq<char>, text: Seq<char>)
    requires
        is_visible_text(text),
        fields.contains_key(name),
        fields[name] == seq![encode_utf8(text)],
    ensures
        field_text(fields, name) == text,
{
    assert(is_ascii_chars(text));
    is_ascii_chars_encode_utf8(text);
    let octets = encode_utf8(text);
    assert(is_visible(octets)) by {
        assert forall|i: int| 0 <= i < octets.len() implies is_visible_octet(
            #[trigger] octets[i],
        ) by {
            assert(text[i] as u8 == octets[i]);
        }
    }
    assert(octets_text(octets) =~= text);
}

/// A request that was sent upstream keeps its identity if it comes to a relay with another
/// configuration: all but the accepted encodings, which are those of that configuration. The
/// identity must be that of a Codex client, with values that read as text.
pub proof fn next_relay_keeps_identity(
    incoming: Fields,
    id: IdentityView,
    out: Fields,
    next: ConfigView,
    next_id: IdentityView,
)
    requires
        is_rewritten(incoming, id, out),
        has_room(incoming),
        names_codex(id.user_agent),
        names_codex(id.originator),
        forall|i: int|
            0 <= i < id.texts().len() && i != 2 ==> is_visible_text(#[trigger] id.texts()[i]),
        is_resolution(next, client_of(out), next_id),
    ensures
        next_id == (IdentityView { accept_encoding: next.accept_encoding, ..id }),
{
    assert forall|i: int| 0 <= i < CANONICAL_HEADERS@.len() && i != 2 implies field_text(
        out,
        #[trigger] CANONICAL_HEADERS@[i]@,
    ) == id.texts()[i] by {
        assert(is_visible_text(id.texts()[i]));
        lemma_canonical_value(incoming, id, out, i);
        lemma_visible_text_is_read_back(out, CANONICAL_HEADERS@[i]@, id.texts()[i]);
    }
    assert(forall|i: int|
        0 <= i < id.texts().len() && i != 2 ==> #[trigger] id.texts()[i].len() > 0);
    assert(CANONICAL_HEADERS@[0]@ == "user-agent"@ && id.texts()[0] == id.user_agent);
    assert(CANONICAL_HEADERS@[1]@ == "originator"@ && id.texts()[1] == id.originator);
    assert(CANONICAL_HEADERS@[3]@ == "session-id"@ && id.texts()[3] == id.session_id);
    assert(CANONICAL_HEADERS@[4]@ == "thread-id"@ && id.texts()[4] == id.thread_id);
    assert(CANONICAL_HEADERS@[5]@ == "x-client-request-id"@ && id.texts()[5] == id.request_id);
    assert(CANONICAL_HEADERS@[6]@ == "x-codex-window-id"@ && id.texts()[6] == id.window_id);
    assert(CANONICAL_HEADERS@[7]@ == "x-codex-installation-id"@ && id.texts()[7]
        == id.installation_id);
    assert(CANONICAL_HEADERS@[8]@ == "x-codex-beta-features"@ && id.texts()[8] == id.beta_features);
    assert(CANONICAL_HEADERS@[9]@ == "x-codex-turn-metadata"@ && id.texts()[9] == id.turn_metadata);
}

/// What is read under a canonical identity header of headers that were sent upstream: the value
/// that was sent, if that reads as text, and nothing otherwise.
proof fn lemma_sent_text(incoming: Fields, id: IdentityView, out: Fields, i: int)
    requires
        is_rewritten(incoming, id, out),
        has_room(incoming),
        0 <= i < CANONICAL_HEADERS@.len(),
    ensures
        field_text(out, CANONICAL_HEADERS@[i]@) == (if is_visible_text(id.texts()[i]) {
            id.texts()[i]
        } else {
            Seq::empty()
        }),
{
    let name = CANONICAL_HEADERS@[i]@;
    let text = id.texts()[i];
    if is_header_content(text) {
        lemma_canonical_value(incoming, id, out, i);
        if is_visible_text(text) {
            lemma_visible_text_is_read_back(out, name, text);
        } else if text.len() == 0 {
            assert(is_ascii_chars(text));
            is_ascii_chars_encode_utf8(text);
            assert(field_text(out, name) =~= Seq::empty());
        } else if is_visible(encode_utf8(text)) {
            let octets = encode_utf8(text);
            lemma_visible_octets_survive(octets);
            encode_utf8_decode_utf8(text);
            encode_utf8_decode_utf8(octets_text(octets));
            assert(text == octets_text(octets));
        }
    } else {
        assert(is_canonical(name));
        lemma_canonical_is_reserved(name);
        lemma_identity_names();
        lemma_with_fields(without(incoming, reserved_names()), CANONICAL_HEADERS@, id.texts());
        assert(!without(incoming, reserved_names()).contains_key(name));
        assert(!is_visible_text(text));
    }
}

/// What passes of headers that were sent upstream is what passed before.
proof fn lemma_passed_again(incoming: Fields, id: IdentityView)
    ensures
        without(upstream_fields(incoming, id), reserved_names()) == without(
            incoming,
            reserved_names(),
        ),
{
    let kept = without(incoming, reserved_names());
    let sent = upstream_fields(incoming, id);
    lemma_identity_names();
    lemma_with_fields(kept, CANONICAL_HEADERS@, id.texts());
    assert forall|name: Seq<char>| !reserved_names().contains(ascii_lower(name)) implies
        #[trigger] sent.contains_key(name) == kept.contains_key(name) && sent[name]
        == kept[name] by {
        if is_canonical(name) {
            lemma_canonical_is_reserved(name);
        }
        assert(forall|i: int|
            0 <= i < CANONICAL_HEADERS@.len() ==> #[trigger] CANONICAL_HEADERS@[i]@ != name);
    }
    assert(without(sent, reserved_names()) =~= kept);
}

/// Headers that were sent upstream get the same identity again under the same configuration; only
/// metadata is filled in anew, unless it reads as text and the headers name a Codex client.
proof fn lemma_same_identity_again(
    cfg: ConfigView,
    incoming: Fields,
    id: IdentityView,
    out: Fields,
    again_id: IdentityView,
)
    requires
        is_resolution(cfg, client_of(incoming), id),
        is_rewritten(incoming, id, out),
        has_room(incoming),
        is_resolution(cfg, client_of(out), again_id),
    ensures
        again_id == (IdentityView { turn_metadata: again_id.turn_metadata, ..id }),
        is_genuine(client_of(out)) && is_visible_text(id.turn_metadata) ==> again_id == id,
{
    let client = client_of(incoming);
    let seen = client_of(out);
    reveal_strlit("codex-");
    reveal_strlit("codex_");
    reveal_strlit(":0");
    lemma_client_is_readable(incoming);
    if client.session_id.len() == 0 {
        lemma_uuid_is_readable(id.session_id);
    }
    assert(is_visible_text(id.session_id));
    lemma_sent_text(incoming, id, out, 0);
    lemma_sent_text(incoming, id, out, 1);
    lemma_sent_text(incoming, id, out, 3);
    lemma_sent_text(incoming, id, out, 4);
    lemma_sent_text(incoming, id, out, 5);
    lemma_sent_text(incoming, id, out, 6);
    lemma_sent_text(incoming, id, out, 7);
    lemma_sent_text(incoming, id, out, 8);
    lemma_sent_text(incoming, id, out, 9);
    assert(id.texts()[0] == id.user_agent);
    assert(id.texts()[1] == id.originator);
    assert(id.texts()[3] == id.session_id);
    assert(id.texts()[4] == id.thread_id);
    assert(id.texts()[5] == id.request_id);
    assert(id.texts()[6] == id.window_id);
    assert(id.texts()[7] == id.installation_id);
    assert(id.texts()[8] == id.beta_features);
    assert(id.texts()[9] == id.turn_metadata);
    assert(is_genuine(client) ==> is_genuine(seen));
    assert(seen.session_id == id.session_id);
    assert(is_visible_text(id.thread_id));
    assert(is_visible_text(id.request_id));
    assert(is_visible_text(id.window_id));
    assert(again_id.user_agent == id.user_agent);
    assert(again_id.originator == id.originator);
    assert(again_id.thread_id == id.thread_id);
    assert(again_id.window_id == id.window_id);
    assert(again_id.installation_id == id.installation_id);
    assert(again_id.beta_features == id.beta_features);
}

/// Relaying twice is relaying once: headers that were sent upstream are sent upstream unchanged,
/// with every name and value, if they come to a relay with the same configuration. Nothing is
/// drawn again, neither the session nor the identifier and the time of the turn. The headers must
/// name a Codex client, or their metadata is filled in anew; and the configured installation
/// identifier must be ASCII, or metadata that was filled in may not read back.
pub proof fn relaying_twice_is_relaying_once(
    cfg: ConfigView,
    incoming: Fields,
    out: Fields,
    again: Fields,
)
    requires
        is_sent_upstream(cfg, incoming, out),
        is_sent_upstream(cfg, out, again),
        incoming.dom().finite(),
        has_room(incoming),
        is_ascii_text(cfg.installation_id),
        is_genuine(client_of(out)),
    ensures
        again == out,
{
    let id = choose|id: IdentityView|
        {
            &&& is_resolution(cfg, client_of(incoming), id)
            &&& config_is_sendable(cfg) ==> id.is_sendable()
            &&& metadata_is_sound(cfg, id)
            &&& #[trigger] is_rewritten(incoming, id, out)
        };
    let again_id = choose|id: IdentityView|
        {
            &&& is_resolution(cfg, client_of(out), id)
            &&& config_is_sendable(cfg) ==> id.is_sendable()
            &&& metadata_is_sound(cfg, id)
            &&& #[trigger] is_rewritten(out, id, again)
        };
    lemma_same_identity_again(cfg, incoming, id, out, again_id);
    lemma_passed_again(incoming, id);
    lemma_room_again(incoming, id, out, again_id, again);
}

/// Headers that were sent upstream have room when they are sent again.
proof fn lemma_room_again(
    incoming: Fields,
    id: IdentityView,
    out: Fields,
    again_id: IdentityView,
    again: Fields,
)
    requires
        is_rewritten(incoming, id, out),
        incoming.dom().finite(),
        has_room(incoming),
        is_rewritten(out, again_id, again),
        upstream_fields(out, again_id).dom() == out.dom(),
    ensures
        again == upstream_fields(out, again_id),
{
    let kept = without(incoming, reserved_names());
    lemma_identity_names();
    assert(kept.dom().subset_of(incoming.dom()));
    vstd::set_lib::lemma_len_subset(kept.dom(), incoming.dom());
    lemma_with_fields(kept, CANONICAL_HEADERS@, id.texts());
    assert(again.dom().subset_of(out.dom()));
    vstd::set_lib::lemma_len_subset(again.dom(), out.dom());
}

/// Headers that are sent upstream name a Codex client if the request does, or if the configured
/// user agent or originator does and reads as text.
pub proof fn sent_headers_name_codex(cfg: ConfigView, incoming: Fields, out: Fields)
    requires
        is_sent_upstream(cfg, incoming, out),
        has_room(incoming),
        is_genuine(client_of(incoming)) || names_codex(cfg.user_agent) && is_visible_text(
            cfg.user_agent,
        ) || names_codex(cfg.originator) && is_visible_text(cfg.originator),
    ensures
        is_genuine(client_of(out)),
{
    let id = choose|id: IdentityView|
        {
            &&& is_resolution(cfg, client_of(incoming), id)
            &&& config_is_sendable(cfg) ==> id.is_sendable()
            &&& metadata_is_sound(cfg, id)
            &&& #[trigger] is_rewritten(incoming, id, out)
        };
    reveal_strlit("codex-");
    reveal_strlit("codex_");
    lemma_client_is_readable(incoming);
    lemma_sent_text(incoming, id, out, 0);
    lemma_sent_text(incoming, id, out, 1);
    assert(id.texts()[0] == id.user_agent);
    assert(id.texts()[1] == id.originator);
}

/// Under the same configuration nothing but the metadata of a turn differs if a request is relayed
/// twice, whatever client it names.
pub proof fn relaying_twice_keeps_all_but_metadata(
    cfg: ConfigView,
    incoming: Fields,
    out: Fields,
    again: Fields,
)
    requires
        is_sent_upstream(cfg, incoming, out),
        is_sent_upstream(cfg, out, again),
        incoming.dom().finite(),
        has_room(incoming),
        has_no_delete(cfg.installation_id),
    ensures
        again.remove("x-codex-turn-metadata"@) == out.remove("x-codex-turn-metadata"@),
        again.dom() == out.dom(),
{
    let id = choose|id: IdentityView|
        {
            &&& is_resolution(cfg, client_of(incoming), id)
            &&& config_is_sendable(cfg) ==> id.is_sendable()
            &&& metadata_is_sound(cfg, id)
            &&& #[trigger] is_rewritten(incoming, id, out)
        };
    let again_id = choose|id: IdentityView|
        {
            &&& is_resolution(cfg, client_of(out), id)
            &&& config_is_sendable(cfg) ==> id.is_sendable()
            &&& metadata_is_sound(cfg, id)
            &&& #[trigger] is_rewritten(out, id, again)
        };
    lemma_same_identity_again(cfg, incoming, id, out, again_id);
    lemma_passed_again(incoming, id);
    let kept = without(incoming, reserved_names());
    let names = CANONICAL_HEADERS@;
    let wanted = upstream_fields(out, again_id);
    assert(names.last()@ == "x-codex-turn-metadata"@);
    assert(id.texts().drop_last() =~= again_id.texts().drop_last());
    assert(id.texts().last() == id.turn_metadata);
    assert(again_id.texts().last() == again_id.turn_metadata);
    assert(wanted.dom() =~= out.dom());
    lemma_room_again(incoming, id, out, again_id, again);
    assert(again.remove("x-codex-turn-metadata"@) =~= out.remove("x-codex-turn-metadata"@));
}

/// A user agent that is derived from the originator names a Codex client if the originator does.
pub proof fn derived_user_agent_names_codex(
    originator: Seq<char>,
    version: Seq<char>,
    os: Seq<char>,
    terminal: Seq<char>,
)
    requires
        names_codex(originator),
    ensures
        names_codex(user_agent_of(originator, version, os, terminal)),
{
    let ua = user_agent_of(originator, version, os, terminal);
    assert(originator =~= ua.subrange(0, originator.len() as int));
    if "codex-"@.is_prefix_of(originator) {
        assert("codex-"@ =~= ua.subrange(0, "codex-"@.len() as int));
    } else {
        assert("codex_"@ =~= ua.subrange(0, "codex_"@.len() as int));
    }
}

/// An environment that sets neither a user agent nor an originator makes a configuration that
/// names a Codex client by both.
pub proof fn default_identity_names_codex(
    vars: Seq<(String, String)>,
    installation_id: Seq<char>,
)
    requires
        env_text(vars, ORIGINATOR@, Seq::empty()).len() == 0,
        env_text(vars, USER_AGENT@, Seq::empty()).len() == 0,
    ensures
        names_codex(config_of(vars, installation_id).originator),
        names_codex(config_of(vars, installation_id).user_agent),
{
    reveal_strlit("codex-tui");
    reveal_strlit("codex-");
    assert("codex-"@ =~= "codex-tui"@.subrange(0, 6));
    derived_user_agent_names_codex(
        "codex-tui"@,
        env_text(vars, UA_VERSION@, "0.145.0"@),
        env_text(vars, UA_OS@, "Debian 12.0.0; x86_64"@),
        env_text(vars, UA_TERMINAL@, "unknown"@),
    );
}

/// Two texts that can be header values can be one together.
proof fn lemma_joined_content(left: Seq<char>, right: Seq<char>)
    requires
        is_header_content(left),
        is_header_content(right),
    ensures
        is_header_content(left + right),
{
    assert forall|i: int| 0 <= i < (left + right).len() implies is_header_char(
        #[trigger] (left + right)[i],
    ) by {
        if i < left.len() {
            assert((left + right)[i] == left[i]);
        } else {
            assert((left + right)[i] == right[i - left.len()]);
        }
    }
}

/// A user agent whose parts can be header values can be one.
proof fn lemma_user_agent_is_sendable(
    originator: Seq<char>,
    version: Seq<char>,
    os: Seq<char>,
    terminal: Seq<char>,
)
    requires
        is_header_content(originator),
        is_header_content(version),
        is_header_content(os),
        is_header_content(terminal),
    ensures
        is_header_content(user_agent_of(originator, version, os, terminal)),
{
    reveal_strlit("/");
    reveal_strlit(" (");
    reveal_strlit(") ");
    reveal_strlit("; ");
    reveal_strlit(")");
    let named = originator + "/"@;
    lemma_joined_content(originator, "/"@);
    lemma_joined_content(named, version);
    lemma_joined_content(named + version, " ("@);
    let system = named + version + " ("@ + os;
    lemma_joined_content(named + version + " ("@, os);
    lemma_joined_content(system, ") "@);
    lemma_joined_content(system + ") "@, terminal);
    let shown = system + ") "@ + terminal + " ("@;
    lemma_joined_content(system + ") "@ + terminal, " ("@);
    lemma_joined_content(shown, originator);
    lemma_joined_content(shown + originator, "; "@);
    lemma_joined_content(shown + originator + "; "@, version);
    lemma_joined_content(shown + originator + "; "@ + version, ")"@);
}

/// A configuration whose every set value can be a header value fills in nothing but header
/// values, so that no identity header is left out for it.
pub proof fn settings_make_sendable_config(
    vars: Seq<(String, String)>,
    installation_id: Seq<char>,
)
    requires
        forall|key: Seq<char>| is_header_content(#[trigger] env_text(vars, key, Seq::empty())),
        is_header_content(installation_id),
    ensures
        config_is_sendable(config_of(vars, installation_id)),
{
    assert forall|key: Seq<char>, default: Seq<char>| is_header_content(default) implies
        is_header_content(#[trigger] env_text(vars, key, default)) by {
        assert(is_header_content(env_text(vars, key, Seq::empty())));
    }
    reveal_strlit("codex-tui");
    reveal_strlit("0.145.0");
    reveal_strlit("Debian 12.0.0; x86_64");
    reveal_strlit("unknown");
    reveal_strlit("remote_compaction_v2");
    reveal_strlit("gzip, deflate");
    let originator = env_text(vars, ORIGINATOR@, "codex-tui"@);
    let version = env_text(vars, UA_VERSION@, "0.145.0"@);
    let os = env_text(vars, UA_OS@, "Debian 12.0.0; x86_64"@);
    let terminal = env_text(vars, UA_TERMINAL@, "unknown"@);
    assert(is_header_content(originator));
    assert(is_header_content(version));
    assert(is_header_content(os));
    assert(is_header_content(terminal));
    lemma_user_agent_is_sendable(originator, version, os, terminal);
}

} // verus!
