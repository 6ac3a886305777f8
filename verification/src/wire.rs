//! What goes over the wire to the upstream, told in octets.
//!
//! The laws here speak of the headers of a request and of the headers that are sent upstream for
//! it, and of nothing between them. Throughout, `incoming` are the headers of a request that came
//! under the configuration `cfg`, and `out` are the headers that were sent upstream for it. Header
//! names are in lower case, as a header collection holds them.

use vstd::prelude::*;
use vstd::utf8::{encode_utf8, is_ascii_chars, is_ascii_chars_encode_utf8};

use crate::config::ConfigView;
use crate::fresh::{is_clock_reading, is_drawn_uuid, stamp_of, stamps_are_milliseconds};
use crate::headers::{field_text, is_header_content, is_visible_text, octets_text, Fields};
use crate::identity::{
    client_of, config_is_sendable, is_canonical, is_resolution, is_rewritten, is_sent_upstream,
    kept_values, lemma_client_is_readable, lemma_uuid_is_readable, metadata_is_sound, names_codex,
    or_else, turn_members, IdentityView, CANONICAL_HEADERS,
};
use crate::json::{json_text, Member, Members};
use crate::laws::{
    hop_by_hop_headers_are_dropped, identity_is_coherent, lemma_canonical_value,
    lemma_unsendable_is_absent, lemma_visible_octets_survive, lemma_wanted_keeps_others,
    no_identity_header_is_sent_twice, no_other_header_is_added, other_headers_pass,
    other_spellings_are_dropped, turn_metadata_names_the_turn,
};
use crate::text::ascii_lower;

verus! {

/// The octets that a client supplies under a name: those of its first value, if all of them are
/// visible ASCII, spaces or tabs; none otherwise.
pub open spec fn client_octets(incoming: Fields, name: Seq<char>) -> Seq<u8> {
    if incoming.contains_key(name) && forall|i: int|
        0 <= i < incoming[name][0].len() ==> 32 <= #[trigger] incoming[name][0][i] < 127
            || incoming[name][0][i] == 9 {
        incoming[name][0]
    } else {
        Seq::empty()
    }
}

/// Whether octets begin with `codex-` or `codex_`.
pub open spec fn says_codex(octets: Seq<u8>) -> bool {
    &&& octets.len() >= 6
    &&& octets[0] == 99 && octets[1] == 111 && octets[2] == 100 && octets[3] == 101
    &&& octets[4] == 120 && (octets[5] == 45 || octets[5] == 95)
}

/// The identity that headers were sent upstream with.
proof fn sent_identity(cfg: ConfigView, incoming: Fields, out: Fields) -> (id: IdentityView)
    requires
        is_sent_upstream(cfg, incoming, out),
    ensures
        is_resolution(cfg, client_of(incoming), id),
        config_is_sendable(cfg) ==> id.is_sendable(),
        metadata_is_sound(cfg, id),
        is_rewritten(incoming, id, out),
{
    choose|id: IdentityView|
        {
            &&& is_resolution(cfg, client_of(incoming), id)
            &&& config_is_sendable(cfg) ==> id.is_sendable()
            &&& metadata_is_sound(cfg, id)
            &&& #[trigger] is_rewritten(incoming, id, out)
        }
}

/// The text that is read under a name is what the client's octets say.
proof fn lemma_client_octets(incoming: Fields, name: Seq<char>)
    ensures
        field_text(incoming, name).len() == client_octets(incoming, name).len(),
        encode_utf8(field_text(incoming, name)) == client_octets(incoming, name),
        names_codex(field_text(incoming, name)) == says_codex(client_octets(incoming, name)),
{
    let text = field_text(incoming, name);
    let octets = client_octets(incoming, name);
    if text.len() > 0 {
        lemma_visible_octets_survive(octets);
        assert(text == octets_text(octets));
    } else {
        assert(is_ascii_chars(text));
        is_ascii_chars_encode_utf8(text);
        assert(octets.len() == 0);
        assert(encode_utf8(text) =~= octets);
    }
    lemma_codex_characters(text);
    assert(forall|i: int| 0 <= i < text.len() ==> #[trigger] text[i] == octets[i] as char);
}

/// A token names a Codex client if its first six characters are `codex-` or `codex_`, and only
/// then.
proof fn lemma_codex_characters(text: Seq<char>)
    ensures
        names_codex(text) <==> text.len() >= 6 && text[0] == 'c' && text[1] == 'o' && text[2] == 'd'
            && text[3] == 'e' && text[4] == 'x' && (text[5] == '-' || text[5] == '_'),
{
    reveal_strlit("codex-");
    reveal_strlit("codex_");
    if text.len() >= 6 && text[0] == 'c' && text[1] == 'o' && text[2] == 'd' && text[3] == 'e'
        && text[4] == 'x' {
        if text[5] == '-' {
            assert("codex-"@ =~= text.subrange(0, 6));
        }
        if text[5] == '_' {
            assert("codex_"@ =~= text.subrange(0, 6));
        }
    }
    if "codex-"@.is_prefix_of(text) {
        assert(forall|i: int| 0 <= i < 6 ==> "codex-"@[i] == #[trigger] text.subrange(0, 6)[i]);
        assert(forall|i: int| 0 <= i < 6 ==> #[trigger] text[i] == text.subrange(0, 6)[i]);
    }
    if "codex_"@.is_prefix_of(text) {
        assert(forall|i: int| 0 <= i < 6 ==> "codex_"@[i] == #[trigger] text.subrange(0, 6)[i]);
        assert(forall|i: int| 0 <= i < 6 ==> #[trigger] text[i] == text.subrange(0, 6)[i]);
    }
}

/// A user agent or an originator names a Codex client exactly if its first five characters are
/// `c`, `o`, `d`, `e` and `x` and the sixth is a hyphen or an underscore.
pub proof fn codex_tokens_begin_with_codex(text: Seq<char>)
    ensures
        names_codex(text) <==> text.len() >= 6 && text[0] == 'c' && text[1] == 'o' && text[2] == 'd'
            && text[3] == 'e' && text[4] == 'x' && (text[5] == '-' || text[5] == '_'),
        text.len() == 0 || text[0] != 'c' ==> !names_codex(text),
{
    lemma_codex_characters(text);
}

/// What is sent under a canonical name: the value of the identity if that can be a header value,
/// and nothing otherwise.
proof fn lemma_canonical_outcome(incoming: Fields, id: IdentityView, out: Fields, i: int)
    requires
        is_rewritten(incoming, id, out),
        incoming.dom().len() <= 6543,
        0 <= i < CANONICAL_HEADERS@.len(),
    ensures
        is_header_content(id.texts()[i]) ==> out.contains_key(CANONICAL_HEADERS@[i]@)
            && out[CANONICAL_HEADERS@[i]@] == seq![encode_utf8(id.texts()[i])],
        !is_header_content(id.texts()[i]) ==> !out.contains_key(CANONICAL_HEADERS@[i]@),
{
    if is_header_content(id.texts()[i]) {
        lemma_canonical_value(incoming, id, out, i);
    } else {
        lemma_unsendable_is_absent(incoming, id, out, i);
    }
}

/// A user agent and an originator are sent on as they came only if they begin with `codex-` or
/// `codex_`; everything else is replaced by what the configuration says. A configured text with a
/// control character in it, which no header can carry, is left out.
pub proof fn only_codex_tokens_are_kept(
    cfg: ConfigView,
    incoming: Fields,
    out: Fields,
    name: Seq<char>,
    configured: Seq<char>,
)
    requires
        is_sent_upstream(cfg, incoming, out),
        incoming.dom().len() <= 6543,
        name == "user-agent"@ && configured == cfg.user_agent || name == "originator"@
            && configured == cfg.originator,
    ensures
        ({
            let first = incoming[name][0];
            let codex = {
                &&& incoming.contains_key(name)
                &&& first.len() >= 6
                &&& first[0] == 99 && first[1] == 111 && first[2] == 100 && first[3] == 101
                &&& first[4] == 120 && (first[5] == 45 || first[5] == 95)
                &&& forall|i: int|
                    0 <= i < first.len() ==> 32 <= #[trigger] first[i] < 127 || first[i] == 9
            };
            let clean = forall|i: int|
                0 <= i < configured.len() ==> #[trigger] configured[i] == '\t' || (configured[i]
                    >= ' ' && configured[i] != '\x7f');
            &&& codex ==> out.contains_key(name) && out[name] == seq![first]
            &&& !codex && clean ==> out.contains_key(name) && out[name] == seq![
                encode_utf8(configured),
            ]
            &&& !codex && !clean ==> !out.contains_key(name)
        }),
{
    let id = sent_identity(cfg, incoming, out);
    let i: int = if name == "user-agent"@ {
        0
    } else {
        1
    };
    reveal_strlit("user-agent");
    reveal_strlit("originator");
    assert("user-agent"@[0] != "originator"@[0]);
    lemma_client_octets(incoming, name);
    lemma_canonical_outcome(incoming, id, out, i);
    lemma_client_is_readable(incoming);
    let first = incoming[name][0];
    assert(client_octets(incoming, name).len() > 0 ==> client_octets(incoming, name) == first);
}

/// The accepted encodings are those of the configuration, whatever the client accepts.
pub proof fn configured_encodings_are_sent(cfg: ConfigView, incoming: Fields, out: Fields)
    requires
        is_sent_upstream(cfg, incoming, out),
        incoming.dom().len() <= 6543,
    ensures
        ({
            let configured = cfg.accept_encoding;
            let clean = forall|i: int|
                0 <= i < configured.len() ==> #[trigger] configured[i] == '\t' || (configured[i]
                    >= ' ' && configured[i] != '\x7f');
            &&& clean ==> out.contains_key("accept-encoding"@) && out["accept-encoding"@] == seq![
                encode_utf8(cfg.accept_encoding),
            ]
            &&& !clean ==> !out.contains_key("accept-encoding"@)
        }),
{
    let id = sent_identity(cfg, incoming, out);
    lemma_canonical_outcome(incoming, id, out, 2);
}

/// The session is the client's, octet for octet, under either spelling; a client that supplies
/// none gets one that was drawn at random.
pub proof fn sessions_are_kept_or_drawn(cfg: ConfigView, incoming: Fields, out: Fields)
    requires
        is_sent_upstream(cfg, incoming, out),
        incoming.dom().len() <= 6543,
    ensures
        out.contains_key("session-id"@),
        ({
            let supplied = client_octets(incoming, "session-id"@);
            let other = client_octets(incoming, "session_id"@);
            &&& supplied.len() > 0 ==> out["session-id"@] == seq![supplied]
            &&& supplied.len() == 0 && other.len() > 0 ==> out["session-id"@] == seq![other]
            &&& supplied.len() == 0 && other.len() == 0 ==> exists|drawn: Seq<char>| #[trigger]
                is_drawn_uuid(drawn) && out["session-id"@] == seq![encode_utf8(drawn)]
        }),
{
    let id = sent_identity(cfg, incoming, out);
    lemma_session(cfg, incoming, id, out);
    lemma_client_octets(incoming, "session-id"@);
    lemma_client_octets(incoming, "session_id"@);
}

/// The session that is sent reads as text.
proof fn lemma_session(cfg: ConfigView, incoming: Fields, id: IdentityView, out: Fields)
    requires
        is_resolution(cfg, client_of(incoming), id),
        is_rewritten(incoming, id, out),
        incoming.dom().len() <= 6543,
    ensures
        is_visible_text(id.session_id),
        out.contains_key("session-id"@),
        out["session-id"@] == seq![encode_utf8(id.session_id)],
{
    lemma_client_is_readable(incoming);
    if client_of(incoming).session_id.len() == 0 {
        lemma_uuid_is_readable(id.session_id);
    }
    assert(is_header_content(id.session_id));
    assert(id.texts()[3] == id.session_id);
    lemma_canonical_outcome(incoming, id, out, 3);
}

/// ASCII texts are encoded one behind the other.
proof fn lemma_joined_octets(left: Seq<char>, right: Seq<char>)
    requires
        is_ascii_chars(left),
        is_ascii_chars(right),
    ensures
        encode_utf8(left + right) == encode_utf8(left) + encode_utf8(right),
{
    let both = left + right;
    assert(is_ascii_chars(both));
    is_ascii_chars_encode_utf8(left);
    is_ascii_chars_encode_utf8(right);
    is_ascii_chars_encode_utf8(both);
    assert forall|i: int| 0 <= i < both.len() implies encode_utf8(both)[i] == (encode_utf8(left)
        + encode_utf8(right))[i] by {
        assert(both[i] as u8 == encode_utf8(both)[i]);
        if i < left.len() {
            assert(left[i] as u8 == encode_utf8(left)[i]);
        } else {
            assert(right[i - left.len()] as u8 == encode_utf8(right)[i - left.len()]);
        }
    }
    assert(encode_utf8(both) =~= encode_utf8(left) + encode_utf8(right));
}

/// The thread, request and window identifiers: those of a Codex client are sent as they came. What
/// it leaves out, and every one of another client, is the session's identifier, with `:0` behind
/// it for the window.
pub proof fn identifiers_are_kept_or_follow_the_session(
    cfg: ConfigView,
    incoming: Fields,
    out: Fields,
)
    requires
        is_sent_upstream(cfg, incoming, out),
        incoming.dom().len() <= 6543,
    ensures
        out.contains_key("session-id"@) && out["session-id"@].len() == 1,
        out.contains_key("thread-id"@),
        out.contains_key("x-client-request-id"@),
        out.contains_key("x-codex-window-id"@),
        ({
            let codex = says_codex(client_octets(incoming, "user-agent"@)) || says_codex(
                client_octets(incoming, "originator"@),
            );
            let thread = client_octets(incoming, "thread-id"@);
            let other_thread = client_octets(incoming, "thread_id"@);
            let request = client_octets(incoming, "x-client-request-id"@);
            let window = client_octets(incoming, "x-codex-window-id"@);
            &&& codex && thread.len() > 0 ==> out["thread-id"@] == seq![thread]
            &&& codex && thread.len() == 0 && other_thread.len() > 0 ==> out["thread-id"@] == seq![
                other_thread,
            ]
            &&& !codex || (thread.len() == 0 && other_thread.len() == 0) ==> out["thread-id"@]
                == out["session-id"@]
            &&& codex && request.len() > 0 ==> out["x-client-request-id"@] == seq![request]
            &&& !codex || request.len() == 0 ==> out["x-client-request-id"@] == out["session-id"@]
            &&& codex && window.len() > 0 ==> out["x-codex-window-id"@] == seq![window]
            &&& !codex || window.len() == 0 ==> out["x-codex-window-id"@] == seq![
                out["session-id"@][0] + seq![58u8, 48u8],
            ]
        }),
{
    let id = sent_identity(cfg, incoming, out);
    let kept = kept_values(client_of(incoming));
    lemma_session(cfg, incoming, id, out);
    lemma_client_is_readable(incoming);
    lemma_client_octets(incoming, "user-agent"@);
    lemma_client_octets(incoming, "originator"@);
    lemma_client_octets(incoming, "thread-id"@);
    lemma_client_octets(incoming, "thread_id"@);
    lemma_client_octets(incoming, "x-client-request-id"@);
    lemma_client_octets(incoming, "x-codex-window-id"@);
    reveal_strlit(":0");
    assert(is_ascii_chars(id.session_id));
    assert(is_ascii_chars(":0"@));
    lemma_joined_octets(id.session_id, ":0"@);
    is_ascii_chars_encode_utf8(":0"@);
    assert(":0"@[0] as u8 == encode_utf8(":0"@)[0]);
    assert(":0"@[1] as u8 == encode_utf8(":0"@)[1]);
    assert(encode_utf8(":0"@) =~= seq![58u8, 48u8]);
    assert(id.thread_id == or_else(kept.thread_id, id.session_id));
    assert(id.request_id == or_else(kept.request_id, id.session_id));
    assert(id.window_id == or_else(kept.window_id, id.session_id + ":0"@));
    assert(is_header_content(id.session_id + ":0"@));
    assert(id.texts()[4] == id.thread_id);
    assert(id.texts()[5] == id.request_id);
    assert(id.texts()[6] == id.window_id);
    lemma_canonical_outcome(incoming, id, out, 4);
    lemma_canonical_outcome(incoming, id, out, 5);
    lemma_canonical_outcome(incoming, id, out, 6);
}

/// The installation identifier and the beta features: those of a Codex client are sent as they
/// came. What it leaves out, and both of another client, are those of the configuration, unless no
/// header can carry them.
pub proof fn installation_and_features_are_kept_or_configured(
    cfg: ConfigView,
    incoming: Fields,
    out: Fields,
    name: Seq<char>,
    configured: Seq<char>,
)
    requires
        is_sent_upstream(cfg, incoming, out),
        incoming.dom().len() <= 6543,
        name == "x-codex-installation-id"@ && configured == cfg.installation_id || name
            == "x-codex-beta-features"@ && configured == cfg.beta_features,
    ensures
        ({
            let codex = says_codex(client_octets(incoming, "user-agent"@)) || says_codex(
                client_octets(incoming, "originator"@),
            );
            let supplied = client_octets(incoming, name);
            let clean = forall|i: int|
                0 <= i < configured.len() ==> #[trigger] configured[i] == '\t' || (configured[i]
                    >= ' ' && configured[i] != '\x7f');
            &&& codex && supplied.len() > 0 ==> out.contains_key(name) && out[name] == seq![
                supplied,
            ]
            &&& (!codex || supplied.len() == 0) && clean ==> out.contains_key(name) && out[name]
                == seq![encode_utf8(configured)]
            &&& (!codex || supplied.len() == 0) && !clean ==> !out.contains_key(name)
        }),
{
    let id = sent_identity(cfg, incoming, out);
    reveal_strlit("x-codex-installation-id");
    reveal_strlit("x-codex-beta-features");
    assert("x-codex-installation-id"@.len() != "x-codex-beta-features"@.len());
    lemma_client_is_readable(incoming);
    lemma_client_octets(incoming, "user-agent"@);
    lemma_client_octets(incoming, "originator"@);
    lemma_client_octets(incoming, name);
    assert(id.texts()[7] == id.installation_id);
    assert(id.texts()[8] == id.beta_features);
    lemma_canonical_outcome(incoming, id, out, 7);
    lemma_canonical_outcome(incoming, id, out, 8);
}

/// The metadata of a Codex client is sent as it came.
pub proof fn supplied_metadata_is_sent(cfg: ConfigView, incoming: Fields, out: Fields)
    requires
        is_sent_upstream(cfg, incoming, out),
        incoming.dom().len() <= 6543,
        says_codex(client_octets(incoming, "user-agent"@)) || says_codex(
            client_octets(incoming, "originator"@),
        ),
        client_octets(incoming, "x-codex-turn-metadata"@).len() > 0,
    ensures
        out.contains_key("x-codex-turn-metadata"@),
        out["x-codex-turn-metadata"@] == seq![client_octets(incoming, "x-codex-turn-metadata"@)],
{
    let id = sent_identity(cfg, incoming, out);
    lemma_client_is_readable(incoming);
    lemma_client_octets(incoming, "user-agent"@);
    lemma_client_octets(incoming, "originator"@);
    lemma_client_octets(incoming, "x-codex-turn-metadata"@);
    assert(id.texts()[9] == id.turn_metadata);
    lemma_canonical_outcome(incoming, id, out, 9);
}

/// Metadata that a Codex client leaves out, and all metadata of another client, is made anew. It is
/// a JSON object of nine members. The session, the thread and the window in it are those that are
/// sent as headers; the installation is the client's if that is sent, and else the configured one.
/// The turn has an identifier that was drawn at random, and the time at which it started is what
/// the clock told, in milliseconds since the Unix epoch.
pub proof fn filled_in_metadata_tells_session_and_time(
    cfg: ConfigView,
    incoming: Fields,
    out: Fields,
)
    requires
        is_sent_upstream(cfg, incoming, out),
        incoming.dom().len() <= 6543,
        !says_codex(client_octets(incoming, "user-agent"@)) && !says_codex(
            client_octets(incoming, "originator"@),
        ) || client_octets(incoming, "x-codex-turn-metadata"@).len() == 0,
        forall|i: int|
            0 <= i < cfg.installation_id.len() ==> #[trigger] cfg.installation_id[i] != '\x7f',
    ensures
        out.contains_key("x-codex-turn-metadata"@),
        exists|
            members: Members,
            session: Seq<char>,
            thread: Seq<char>,
            window: Seq<char>,
            installation: Seq<char>,
            turn: Seq<char>,
            read: Option<u128>,
        |
            {
                &&& out["x-codex-turn-metadata"@] == seq![encode_utf8(json_text(members))]
                &&& #[trigger] says_turn(
                    members,
                    session,
                    thread,
                    window,
                    installation,
                    turn,
                    read,
                )
                &&& out["session-id"@] == seq![encode_utf8(session)]
                &&& out["thread-id"@] == seq![encode_utf8(thread)]
                &&& out["x-codex-window-id"@] == seq![encode_utf8(window)]
                &&& is_drawn_uuid(turn)
                &&& is_clock_reading(read)
                &&& if (says_codex(client_octets(incoming, "user-agent"@)) || says_codex(
                    client_octets(incoming, "originator"@),
                )) && client_octets(incoming, "x-codex-installation-id"@).len() > 0 {
                    encode_utf8(installation) == client_octets(
                        incoming,
                        "x-codex-installation-id"@,
                    )
                } else {
                    installation == cfg.installation_id
                }
            },
{
    let id = sent_identity(cfg, incoming, out);
    lemma_session(cfg, incoming, id, out);
    identifiers_are_kept_or_follow_the_session(cfg, incoming, out);
    lemma_client_is_readable(incoming);
    lemma_client_octets(incoming, "user-agent"@);
    lemma_client_octets(incoming, "originator"@);
    lemma_client_octets(incoming, "x-codex-turn-metadata"@);
    lemma_client_octets(incoming, "x-codex-installation-id"@);
    assert(id.texts()[4] == id.thread_id);
    assert(id.texts()[6] == id.window_id);
    assert(id.texts()[9] == id.turn_metadata);
    lemma_canonical_outcome(incoming, id, out, 4);
    lemma_canonical_outcome(incoming, id, out, 6);
    lemma_canonical_outcome(incoming, id, out, 9);
    identity_is_coherent(cfg, incoming, id);
    let (turn, read) = choose|turn_id: Seq<char>, read: Option<u128>|
        is_drawn_uuid(turn_id) && is_clock_reading(read) && id.turn_metadata == json_text(
            #[trigger] turn_members(
                id.installation_id,
                id.session_id,
                id.thread_id,
                id.window_id,
                turn_id,
                stamp_of(read),
            ),
        );
    let stamp = stamp_of(read);
    let members = turn_members(
        id.installation_id,
        id.session_id,
        id.thread_id,
        id.window_id,
        turn,
        stamp,
    );
    turn_metadata_names_the_turn(
        members,
        id.installation_id,
        id.session_id,
        id.thread_id,
        id.window_id,
        turn,
        stamp,
    );
    stamps_are_milliseconds(read);
    assert(says_turn(
        members,
        id.session_id,
        id.thread_id,
        id.window_id,
        id.installation_id,
        turn,
        read,
    ));
}

/// Whether the members of a JSON object are the nine that tell of a turn with the given
/// identifiers and of the given clock reading in milliseconds.
pub open spec fn says_turn(
    members: Members,
    session: Seq<char>,
    thread: Seq<char>,
    window: Seq<char>,
    installation: Seq<char>,
    turn: Seq<char>,
    read: Option<u128>,
) -> bool {
    &&& members.dom() == set![
        "installation_id"@,
        "session_id"@,
        "thread_id"@,
        "turn_id"@,
        "window_id"@,
        "request_kind"@,
        "thread_source"@,
        "sandbox"@,
        "turn_started_at_unix_ms"@,
    ]
    &&& members["installation_id"@] == Member::Text(installation)
    &&& members["session_id"@] == Member::Text(session)
    &&& members["thread_id"@] == Member::Text(thread)
    &&& members["turn_id"@] == Member::Text(turn)
    &&& members["window_id"@] == Member::Text(window)
    &&& members["request_kind"@] == Member::Text("turn"@)
    &&& members["thread_source"@] == Member::Text("user"@)
    &&& members["sandbox"@] == Member::Text("none"@)
    &&& members["turn_started_at_unix_ms"@] matches Member::Number(stamp) && match read {
        None => stamp == 0,
        Some(ms) => if ms <= u64::MAX {
            stamp as int == ms as int
        } else {
            stamp == u64::MAX
        },
    }
}

/// A header that is neither one of the eight that concern a connection nor one of the twelve that
/// tell an identity is sent upstream verbatim: all its values, octet for octet and in their order.
/// It can be missing only if more names are sent than a header collection takes for certain.
pub proof fn every_other_header_is_sent_verbatim(
    cfg: ConfigView,
    incoming: Fields,
    out: Fields,
    name: Seq<char>,
)
    requires
        is_sent_upstream(cfg, incoming, out),
        incoming.contains_key(name),
        forall|i: int| 0 <= i < name.len() ==> !('A' <= #[trigger] name[i] <= 'Z'),
        name != "host"@,
        name != "content-length"@,
        name != "connection"@,
        name != "keep-alive"@,
        name != "transfer-encoding"@,
        name != "upgrade"@,
        name != "proxy-authorization"@,
        name != "proxy-connection"@,
        name != "user-agent"@,
        name != "originator"@,
        name != "session-id"@,
        name != "session_id"@,
        name != "thread-id"@,
        name != "thread_id"@,
        name != "x-client-request-id"@,
        name != "x-codex-window-id"@,
        name != "x-codex-installation-id"@,
        name != "x-codex-beta-features"@,
        name != "x-codex-turn-metadata"@,
        name != "accept-encoding"@,
    ensures
        incoming.dom().len() <= 6543 ==> out.contains_key(name) && out[name] == incoming[name],
        out.contains_key(name) && out[name] == incoming[name] || out.dom().len() > 6553,
{
    let id = sent_identity(cfg, incoming, out);
    assert(ascii_lower(name) =~= name);
    if incoming.dom().len() <= 6543 {
        other_headers_pass(incoming, id, out, name);
    }
    lemma_wanted_keeps_others(incoming, id, name);
}

/// The headers that concern one connection, and the other spellings of the session and the thread,
/// are never sent upstream.
pub proof fn connection_headers_are_never_sent(cfg: ConfigView, incoming: Fields, out: Fields)
    requires
        is_sent_upstream(cfg, incoming, out),
    ensures
        !out.contains_key("host"@),
        !out.contains_key("content-length"@),
        !out.contains_key("connection"@),
        !out.contains_key("keep-alive"@),
        !out.contains_key("transfer-encoding"@),
        !out.contains_key("upgrade"@),
        !out.contains_key("proxy-authorization"@),
        !out.contains_key("proxy-connection"@),
        !out.contains_key("session_id"@),
        !out.contains_key("thread_id"@),
{
    let id = sent_identity(cfg, incoming, out);
    hop_by_hop_headers_are_dropped(incoming, id, out, "host"@, 0);
    hop_by_hop_headers_are_dropped(incoming, id, out, "content-length"@, 1);
    hop_by_hop_headers_are_dropped(incoming, id, out, "connection"@, 2);
    hop_by_hop_headers_are_dropped(incoming, id, out, "keep-alive"@, 3);
    hop_by_hop_headers_are_dropped(incoming, id, out, "transfer-encoding"@, 4);
    hop_by_hop_headers_are_dropped(incoming, id, out, "upgrade"@, 5);
    hop_by_hop_headers_are_dropped(incoming, id, out, "proxy-authorization"@, 6);
    hop_by_hop_headers_are_dropped(incoming, id, out, "proxy-connection"@, 7);
    other_spellings_are_dropped(incoming, id, out);
}

/// Nothing is sent upstream but what the client sent and the ten identity headers, and none of
/// those more than once.
pub proof fn nothing_is_made_up(cfg: ConfigView, incoming: Fields, out: Fields, name: Seq<char>)
    requires
        is_sent_upstream(cfg, incoming, out),
        out.contains_key(name),
    ensures
        incoming.contains_key(name) && out[name].len() > 0 && out[name].len()
            <= incoming[name].len() || out[name].len() == 1,
        incoming.contains_key(name) || name == "user-agent"@ || name == "originator"@ || name
            == "accept-encoding"@ || name == "session-id"@ || name == "thread-id"@ || name
            == "x-client-request-id"@ || name == "x-codex-window-id"@ || name
            == "x-codex-installation-id"@ || name == "x-codex-beta-features"@ || name
            == "x-codex-turn-metadata"@,
{
    let id = sent_identity(cfg, incoming, out);
    no_other_header_is_added(incoming, id, out, name);
    no_identity_header_is_sent_twice(incoming, id, out);
    if is_canonical(name) {
        let i = choose|i: int|
            0 <= i < CANONICAL_HEADERS@.len() && #[trigger] CANONICAL_HEADERS@[i]@ == name;
        assert(CANONICAL_HEADERS@[i]@ == name);
    }
}

/// Which value of an identity goes into which header, whatever the identity: a value with a control
/// character in it, which no header can carry, is left out, and every other is the only value of
/// its header.
pub proof fn identity_values_go_into_their_headers(
    incoming: Fields,
    id: IdentityView,
    out: Fields,
    name: Seq<char>,
    value: Seq<char>,
)
    requires
        is_rewritten(incoming, id, out),
        incoming.dom().len() <= 6543,
        ({
            ||| name == "user-agent"@ && value == id.user_agent
            ||| name == "originator"@ && value == id.originator
            ||| name == "accept-encoding"@ && value == id.accept_encoding
            ||| name == "session-id"@ && value == id.session_id
            ||| name == "thread-id"@ && value == id.thread_id
            ||| name == "x-client-request-id"@ && value == id.request_id
            ||| name == "x-codex-window-id"@ && value == id.window_id
            ||| name == "x-codex-installation-id"@ && value == id.installation_id
            ||| name == "x-codex-beta-features"@ && value == id.beta_features
            ||| name == "x-codex-turn-metadata"@ && value == id.turn_metadata
        }),
    ensures
        ({
            let clean = forall|i: int|
                0 <= i < value.len() ==> #[trigger] value[i] == '\t' || (value[i] >= ' '
                    && value[i] != '\x7f');
            &&& clean ==> out.contains_key(name) && out[name] == seq![encode_utf8(value)]
            &&& !clean ==> !out.contains_key(name)
        }),
{
    let texts = id.texts();
    assert(texts[0] == id.user_agent && texts[1] == id.originator);
    assert(texts[2] == id.accept_encoding && texts[3] == id.session_id);
    assert(texts[4] == id.thread_id && texts[5] == id.request_id);
    assert(texts[6] == id.window_id && texts[7] == id.installation_id);
    assert(texts[8] == id.beta_features && texts[9] == id.turn_metadata);
    assert(exists|i: int|
        0 <= i < CANONICAL_HEADERS@.len() && #[trigger] CANONICAL_HEADERS@[i]@ == name && texts[i]
            == value) by {
        assert(CANONICAL_HEADERS@[0]@ == "user-agent"@);
        assert(CANONICAL_HEADERS@[1]@ == "originator"@);
        assert(CANONICAL_HEADERS@[2]@ == "accept-encoding"@);
        assert(CANONICAL_HEADERS@[3]@ == "session-id"@);
        assert(CANONICAL_HEADERS@[4]@ == "thread-id"@);
        assert(CANONICAL_HEADERS@[5]@ == "x-client-request-id"@);
        assert(CANONICAL_HEADERS@[6]@ == "x-codex-window-id"@);
        assert(CANONICAL_HEADERS@[7]@ == "x-codex-installation-id"@);
        assert(CANONICAL_HEADERS@[8]@ == "x-codex-beta-features"@);
        assert(CANONICAL_HEADERS@[9]@ == "x-codex-turn-metadata"@);
    }
    let i = choose|i: int|
        0 <= i < CANONICAL_HEADERS@.len() && #[trigger] CANONICAL_HEADERS@[i]@ == name && texts[i]
            == value;
    lemma_canonical_outcome(incoming, id, out, i);
}

} // verus!
