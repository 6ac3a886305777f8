//! Runtime configuration, made of the variables of the environment.
//!
//! Only `CODEX_PROXY_UPSTREAM_URL` is required; every other variable has a default. An empty
//! variable counts as an absent one.

use vstd::prelude::*;

use crate::fresh::{draw_uuid, is_drawn_uuid, is_uuid_v4};
use crate::text::{
    decimal_number, numerals_are_digits_within_a_limit, parse_decimal, same_text, trim_end,
    trimmed_end, trimming_takes_all_marks_and_no_more,
};

verus! {

/// The variable that holds the upstream URL.
pub const UPSTREAM_URL: &'static str = "CODEX_PROXY_UPSTREAM_URL";

/// The variable that holds the port to listen on.
pub const PORT: &'static str = "CODEX_PROXY_PORT";

/// The variable that holds the version in the default user agent.
pub const UA_VERSION: &'static str = "CODEX_PROXY_UA_VERSION";

/// The variable that holds the originator.
pub const ORIGINATOR: &'static str = "CODEX_PROXY_ORIGINATOR";

/// The variable that holds the operating system in the default user agent.
pub const UA_OS: &'static str = "CODEX_PROXY_UA_OS";

/// The variable that holds the terminal in the default user agent.
pub const UA_TERMINAL: &'static str = "CODEX_PROXY_UA_TERMINAL";

/// The variable that holds the whole user agent.
pub const USER_AGENT: &'static str = "CODEX_PROXY_USER_AGENT";

/// The variable that holds the beta features.
pub const BETA_FEATURES: &'static str = "CODEX_PROXY_BETA_FEATURES";

/// The variable that holds the installation identifier.
pub const INSTALLATION_ID: &'static str = "CODEX_PROXY_INSTALLATION_ID";

/// The variable that holds the accepted encodings.
pub const ACCEPT_ENCODING: &'static str = "CODEX_PROXY_ACCEPT_ENCODING";

/// The variable that holds the upstream timeout in seconds.
pub const TIMEOUT: &'static str = "CODEX_PROXY_TIMEOUT";

/// The variable that holds the largest request body in bytes.
pub const MAX_BODY_BYTES: &'static str = "CODEX_PROXY_MAX_BODY_BYTES";

/// The value of a variable: that of its first entry, if it has one.
pub open spec fn env_value(vars: Seq<(String, String)>, key: Seq<char>) -> Option<Seq<char>>
    decreases vars.len(),
{
    if vars.len() == 0 {
        None
    } else if vars[0].0@ == key {
        Some(vars[0].1@)
    } else {
        env_value(vars.drop_first(), key)
    }
}

/// The value of a variable, or a default if the variable is absent or empty.
pub open spec fn env_text(
    vars: Seq<(String, String)>,
    key: Seq<char>,
    default: Seq<char>,
) -> Seq<char> {
    match env_value(vars, key) {
        Some(value) => if value.len() > 0 {
            value
        } else {
            default
        },
        None => default,
    }
}

/// Looks a variable up, treating an empty value as absent.
pub fn env_or(vars: &[(String, String)], key: &str, default: &str) -> (value: String)
    ensures
        value@ == env_text(vars@, key@, default@),
{
    let mut i: usize = 0;
    assert(vars@.skip(0) =~= vars@);
    while i < vars.len()
        invariant
            i <= vars.len(),
            env_value(vars@, key@) == env_value(vars@.skip(i as int), key@),
        decreases vars.len() - i,
    {
        if same_text(vars[i].0.as_str(), key) {
            if vars[i].1.as_str().is_empty() {
                return default.to_owned();
            }
            return vars[i].1.clone();
        }
        assert(vars@.skip(i as int).drop_first() =~= vars@.skip(i + 1));
        i = i + 1;
    }
    default.to_owned()
}

/// The number that a variable holds, or a default if the variable is absent, empty or no decimal
/// number of at most `max`.
pub open spec fn env_number(
    vars: Seq<(String, String)>,
    key: Seq<char>,
    default: nat,
    max: nat,
) -> nat {
    match env_value(vars, key) {
        Some(value) => match decimal_number(value, max) {
            Some(number) => number,
            None => default,
        },
        None => default,
    }
}

/// Looks a number up in the environment.
pub fn env_number_or(vars: &[(String, String)], key: &str, default: u64, max: u64) -> (number: u64)
    ensures
        number == env_number(vars@, key@, default as nat, max as nat),
{
    let value = env_or(vars, key, "");
    proof {
        reveal_strlit("");
        assert(env_value(vars@, key@) is None ==> value@.len() == 0);
    }
    match parse_decimal(value.as_str(), max) {
        Some(number) => number,
        None => default,
    }
}

/// Why no configuration could be made.
#[derive(Clone, Copy, Debug, PartialEq, Eq, Structural)]
pub enum ConfigError {
    /// The upstream URL is absent, empty or made of slashes only.
    MissingUpstreamUrl,
}

impl ConfigError {
    /// The error in words.
    pub fn message(&self) -> (text: String)
        ensures
            text@ == "CODEX_PROXY_UPSTREAM_URL is required. Example: CODEX_PROXY_UPSTREAM_URL=https://new.sharedchat.cc/codex"@,
    {
        "CODEX_PROXY_UPSTREAM_URL is required. Example: CODEX_PROXY_UPSTREAM_URL=https://new.sharedchat.cc/codex".to_owned()
    }
}

/// The configuration of one process, which does not change while it runs.
pub struct Config {
    pub upstream_base_url: String,
    pub port: u16,
    pub user_agent: String,
    pub originator: String,
    pub beta_features: String,
    pub installation_id: String,
    pub accept_encoding: String,
    /// Upper bound on a buffered request body (bytes). The body is read fully before it is sent
    /// on, so this caps the memory that a request in flight takes.
    pub max_body_bytes: usize,
    /// Upstream request timeout (seconds).
    pub timeout_secs: u64,
}

/// A configuration as the contracts speak of it.
#[verifier::ext_equal]
pub struct ConfigView {
    pub upstream_base_url: Seq<char>,
    pub port: u16,
    pub user_agent: Seq<char>,
    pub originator: Seq<char>,
    pub beta_features: Seq<char>,
    pub installation_id: Seq<char>,
    pub accept_encoding: Seq<char>,
    pub max_body_bytes: usize,
    pub timeout_secs: u64,
}

impl View for Config {
    type V = ConfigView;

    open spec fn view(&self) -> ConfigView {
        ConfigView {
            upstream_base_url: self.upstream_base_url@,
            port: self.port,
            user_agent: self.user_agent@,
            originator: self.originator@,
            beta_features: self.beta_features@,
            installation_id: self.installation_id@,
            accept_encoding: self.accept_encoding@,
            max_body_bytes: self.max_body_bytes,
            timeout_secs: self.timeout_secs,
        }
    }
}

/// The upstream URL that an environment sets: without the slashes at its end, and empty if it is
/// not set.
pub open spec fn upstream_url_of(vars: Seq<(String, String)>) -> Seq<char> {
    trimmed_end(env_text(vars, UPSTREAM_URL@, Seq::empty()), '/')
}

/// A user agent: `<originator>/<version> (<os>) <terminal> (<originator>; <version>)`.
pub open spec fn user_agent_of(
    originator: Seq<char>,
    version: Seq<char>,
    os: Seq<char>,
    terminal: Seq<char>,
) -> Seq<char> {
    originator + "/"@ + version + " ("@ + os + ") "@ + terminal + " ("@ + originator + "; "@
        + version + ")"@
}

/// Writes a user agent.
pub fn default_user_agent(originator: &str, version: &str, os: &str, terminal: &str) -> (ua: String)
    ensures
        ua@ == user_agent_of(originator@, version@, os@, terminal@),
{
    let mut ua = originator.to_owned();
    ua.append("/");
    ua.append(version);
    ua.append(" (");
    ua.append(os);
    ua.append(") ");
    ua.append(terminal);
    ua.append(" (");
    ua.append(originator);
    ua.append("; ");
    ua.append(version);
    ua.append(")");
    ua
}

/// The configuration that an environment sets for a given installation identifier.
pub open spec fn config_of(vars: Seq<(String, String)>, installation_id: Seq<char>) -> ConfigView {
    let originator = env_text(vars, ORIGINATOR@, "codex-tui"@);
    ConfigView {
        upstream_base_url: upstream_url_of(vars),
        port: env_number(vars, PORT@, 18092, u16::MAX as nat) as u16,
        user_agent: env_text(
            vars,
            USER_AGENT@,
            user_agent_of(
                originator,
                env_text(vars, UA_VERSION@, "0.145.0"@),
                env_text(vars, UA_OS@, "Debian 12.0.0; x86_64"@),
                env_text(vars, UA_TERMINAL@, "unknown"@),
            ),
        ),
        originator,
        beta_features: env_text(vars, BETA_FEATURES@, "remote_compaction_v2"@),
        installation_id,
        accept_encoding: env_text(vars, ACCEPT_ENCODING@, "gzip, deflate"@),
        max_body_bytes: env_number(vars, MAX_BODY_BYTES@, 10485760, usize::MAX as nat) as usize,
        timeout_secs: env_number(vars, TIMEOUT@, 120, u64::MAX as nat) as u64,
    }
}

/// Whether a configuration is one that an environment makes: its installation identifier is the
/// one that the environment sets, or a random one if it sets none.
pub open spec fn is_made_of(vars: Seq<(String, String)>, made: ConfigView) -> bool {
    let set_id = env_text(vars, INSTALLATION_ID@, Seq::empty());
    &&& made == config_of(vars, made.installation_id)
    &&& if set_id.len() > 0 {
        made.installation_id == set_id
    } else {
        is_uuid_v4(made.installation_id) && is_drawn_uuid(made.installation_id)
    }
}

impl Config {
    /// Makes the configuration that an environment sets. An environment without an installation
    /// identifier gets a random one. The one thing that is refused is an environment without an
    /// upstream URL.
    pub fn from_env(vars: &[(String, String)]) -> (made: Result<Config, ConfigError>)
        ensures
            made is Err <==> upstream_url_of(vars@).len() == 0,
            made matches Ok(config) ==> is_made_of(vars@, config@),
    {
        proof {
            reveal_strlit("");
            assert(""@ =~= Seq::empty());
        }
        let set_id = env_or(vars, INSTALLATION_ID, "");
        let installation_id = if set_id.as_str().is_empty() {
            draw_uuid()
        } else {
            set_id
        };
        Config::with_installation_id(vars, installation_id)
    }

    /// Makes the configuration that an environment sets, with a given installation identifier.
    pub fn with_installation_id(
        vars: &[(String, String)],
        installation_id: String,
    ) -> (made: Result<Config, ConfigError>)
        ensures
            match made {
                Ok(config) => upstream_url_of(vars@).len() > 0 && config@ == config_of(
                    vars@,
                    installation_id@,
                ),
                Err(error) => upstream_url_of(vars@).len() == 0,
            },
    {
        proof {
            reveal_strlit("");
            assert(""@ =~= Seq::empty());
        }
        let upstream_base_url = trim_end(env_or(vars, UPSTREAM_URL, "").as_str(), '/');
        if upstream_base_url.as_str().is_empty() {
            return Err(ConfigError::MissingUpstreamUrl);
        }
        let port: u16 = env_number_or(vars, PORT, 18092, u16::MAX as u64) as u16;
        let ua_version = env_or(vars, UA_VERSION, "0.145.0");
        let originator = env_or(vars, ORIGINATOR, "codex-tui");
        let ua_os = env_or(vars, UA_OS, "Debian 12.0.0; x86_64");
        let ua_terminal = env_or(vars, UA_TERMINAL, "unknown");
        let default_ua = default_user_agent(
            originator.as_str(),
            ua_version.as_str(),
            ua_os.as_str(),
            ua_terminal.as_str(),
        );
        let user_agent = env_or(vars, USER_AGENT, default_ua.as_str());
        let beta_features = env_or(vars, BETA_FEATURES, "remote_compaction_v2");
        let accept_encoding = env_or(vars, ACCEPT_ENCODING, "gzip, deflate");
        let timeout_secs: u64 = env_number_or(vars, TIMEOUT, 120, u64::MAX);
        let max_body_bytes: usize = env_number_or(
            vars,
            MAX_BODY_BYTES,
            10485760,
            usize::MAX as u64,
        ) as usize;
        Ok(
            Config {
                upstream_base_url,
                port,
                user_agent,
                originator,
                beta_features,
                installation_id,
                accept_encoding,
                max_body_bytes,
                timeout_secs,
            },
        )
    }
}

/// An empty variable counts as an absent one: environments that set the same variables to the
/// same values that are not empty make the same configuration.
pub proof fn empty_variables_count_as_absent(
    vars: Seq<(String, String)>,
    others: Seq<(String, String)>,
    installation_id: Seq<char>,
)
    requires
        forall|key: Seq<char>| #[trigger]
            env_text(vars, key, Seq::empty()) == env_text(others, key, Seq::empty()),
    ensures
        config_of(vars, installation_id) == config_of(others, installation_id),
{
    assert forall|key: Seq<char>, default: Seq<char>| #[trigger]
        env_text(vars, key, default) == env_text(others, key, default) by {
        assert(env_text(vars, key, Seq::empty()) == env_text(others, key, Seq::empty()));
    }
    assert forall|key: Seq<char>, default: nat, max: nat| #[trigger]
        env_number(vars, key, default, max) == env_number(others, key, default, max) by {
        assert(env_text(vars, key, Seq::empty()) == env_text(others, key, Seq::empty()));
        assert(forall|value: Seq<char>|
            value.len() == 0 ==> #[trigger] decimal_number(value, max) is None);
    }
}

/// A trimmed text does not end with the mark, begins as the text does, and lacks nothing but
/// marks.
proof fn lemma_trimmed_end(text: Seq<char>, mark: char)
    ensures
        trimmed_end(text, mark).len() > 0 ==> trimmed_end(text, mark).last() != mark,
        trimmed_end(text, mark).is_prefix_of(text),
        forall|i: int| trimmed_end(text, mark).len() <= i < text.len() ==> text[i] == mark,
    decreases text.len(),
{
    if text.len() > 0 && text.last() == mark {
        lemma_trimmed_end(text.drop_last(), mark);
        assert(trimmed_end(text, mark) =~= text.subrange(
            0,
            trimmed_end(text, mark).len() as int,
        ));
        assert forall|i: int| trimmed_end(text, mark).len() <= i < text.len() implies text[i]
            == mark by {
            if i < text.len() - 1 {
                assert(text.drop_last()[i] == mark);
            }
        }
    }
}

/// The upstream URL never ends with a slash, and it is what the environment says up to slashes at
/// the end.
pub proof fn upstream_url_has_no_slash_at_its_end(vars: Seq<(String, String)>)
    ensures
        upstream_url_of(vars).len() > 0 ==> upstream_url_of(vars).last() != '/',
        upstream_url_of(vars).is_prefix_of(env_text(vars, UPSTREAM_URL@, Seq::empty())),
        forall|i: int|
            upstream_url_of(vars).len() <= i < env_text(vars, UPSTREAM_URL@, Seq::empty()).len()
                ==> env_text(vars, UPSTREAM_URL@, Seq::empty())[i] == '/',
{
    lemma_trimmed_end(env_text(vars, UPSTREAM_URL@, Seq::empty()), '/');
}

/// A variable has the value of its first entry.
pub proof fn variables_are_found_by_their_first_entry(
    vars: Seq<(String, String)>,
    key: Seq<char>,
    at: int,
)
    requires
        0 <= at < vars.len(),
        vars[at].0@ == key,
        forall|i: int| 0 <= i < at ==> (#[trigger] vars[i]).0@ != key,
    ensures
        env_value(vars, key) == Some(vars[at].1@),
    decreases at,
{
    if at > 0 {
        let rest = vars.drop_first();
        assert(vars[0].0@ != key);
        assert forall|i: int| 0 <= i < at - 1 implies (#[trigger] rest[i]).0@ != key by {
            assert(rest[i] == vars[i + 1]);
        }
        variables_are_found_by_their_first_entry(rest, key, at - 1);
    }
}

/// A variable without an entry has no value.
pub proof fn variables_without_entry_are_absent(vars: Seq<(String, String)>, key: Seq<char>)
    requires
        forall|i: int| 0 <= i < vars.len() ==> (#[trigger] vars[i]).0@ != key,
    ensures
        env_value(vars, key) is None,
    decreases vars.len(),
{
    if vars.len() > 0 {
        let rest = vars.drop_first();
        assert(vars[0].0@ != key);
        assert forall|i: int| 0 <= i < rest.len() implies (#[trigger] rest[i]).0@ != key by {
            assert(rest[i] == vars[i + 1]);
        }
        variables_without_entry_are_absent(rest, key);
    }
}

/// Every variable that is set to something is taken as it stands; the three numbers are taken if
/// they are decimal and not too large for their type.
pub proof fn set_variables_are_taken(
    vars: Seq<(String, String)>,
    installation_id: Seq<char>,
    key: Seq<char>,
    at: int,
)
    requires
        0 <= at < vars.len(),
        vars[at].0@ == key,
        vars[at].1@.len() > 0,
        forall|i: int| 0 <= i < at ==> (#[trigger] vars[i]).0@ != key,
    ensures
        ({
            let value = vars[at].1@;
            let made = config_of(vars, installation_id);
            &&& key == "CODEX_PROXY_ORIGINATOR"@ ==> made.originator == value
            &&& key == "CODEX_PROXY_USER_AGENT"@ ==> made.user_agent == value
            &&& key == "CODEX_PROXY_BETA_FEATURES"@ ==> made.beta_features == value
            &&& key == "CODEX_PROXY_ACCEPT_ENCODING"@ ==> made.accept_encoding == value
            &&& key == "CODEX_PROXY_PORT"@ ==> match decimal_number(value, 65535) {
                Some(n) => made.port as nat == n,
                None => made.port == 18092,
            }
            &&& key == "CODEX_PROXY_TIMEOUT"@ ==> match decimal_number(value, u64::MAX as nat) {
                Some(n) => made.timeout_secs as nat == n,
                None => made.timeout_secs == 120,
            }
            &&& key == "CODEX_PROXY_MAX_BODY_BYTES"@ ==> match decimal_number(
                value,
                usize::MAX as nat,
            ) {
                Some(n) => made.max_body_bytes as nat == n,
                None => made.max_body_bytes == 10485760,
            }
            &&& key == "CODEX_PROXY_UPSTREAM_URL"@ ==> {
                &&& made.upstream_base_url.len() <= value.len()
                &&& forall|i: int|
                    0 <= i < made.upstream_base_url.len() ==> #[trigger] made.upstream_base_url[i]
                        == value[i]
                &&& forall|i: int|
                    made.upstream_base_url.len() <= i < value.len() ==> #[trigger] value[i] == '/'
                &&& made.upstream_base_url.len() > 0 ==> made.upstream_base_url.last() != '/'
            }
            &&& made.installation_id == installation_id
        }),
{
    variables_are_found_by_their_first_entry(vars, key, at);
    trimming_takes_all_marks_and_no_more(vars[at].1@, '/');
    numerals_are_digits_within_a_limit(vars[at].1@, 65535, 65535, 0);
    numerals_are_digits_within_a_limit(
        vars[at].1@,
        u64::MAX as nat,
        u64::MAX as nat,
        0,
    );
    numerals_are_digits_within_a_limit(
        vars[at].1@,
        usize::MAX as nat,
        usize::MAX as nat,
        0,
    );
}

/// A variable that is absent or empty leaves its default in place; without an upstream URL there
/// is none.
pub proof fn absent_variables_leave_defaults(
    vars: Seq<(String, String)>,
    installation_id: Seq<char>,
    key: Seq<char>,
)
    requires
        forall|i: int| 0 <= i < vars.len() ==> (#[trigger] vars[i]).0@ != key || vars[i].1@.len()
            == 0,
    ensures
        ({
            let made = config_of(vars, installation_id);
            &&& key == "CODEX_PROXY_ORIGINATOR"@ ==> made.originator == "codex-tui"@
            &&& key == "CODEX_PROXY_BETA_FEATURES"@ ==> made.beta_features
                == "remote_compaction_v2"@
            &&& key == "CODEX_PROXY_ACCEPT_ENCODING"@ ==> made.accept_encoding == "gzip, deflate"@
            &&& key == "CODEX_PROXY_PORT"@ ==> made.port == 18092
            &&& key == "CODEX_PROXY_TIMEOUT"@ ==> made.timeout_secs == 120
            &&& key == "CODEX_PROXY_MAX_BODY_BYTES"@ ==> made.max_body_bytes == 10 * 1024 * 1024
            &&& key == "CODEX_PROXY_UPSTREAM_URL"@ ==> made.upstream_base_url.len() == 0
            &&& made.installation_id == installation_id
        }),
{
    lemma_absent_or_empty(vars, key);
    numerals_are_digits_within_a_limit(Seq::empty(), 65535, 65535, 0);
    numerals_are_digits_within_a_limit(
        Seq::empty(),
        u64::MAX as nat,
        u64::MAX as nat,
        0,
    );
    numerals_are_digits_within_a_limit(
        Seq::empty(),
        usize::MAX as nat,
        usize::MAX as nat,
        0,
    );
    assert(forall|value: Seq<char>, max: nat|
        value.len() == 0 ==> #[trigger] decimal_number(value, max) is None);
}

/// A variable whose entries are all empty has no value, or an empty one.
proof fn lemma_absent_or_empty(vars: Seq<(String, String)>, key: Seq<char>)
    requires
        forall|i: int| 0 <= i < vars.len() ==> (#[trigger] vars[i]).0@ != key || vars[i].1@.len()
            == 0,
    ensures
        env_value(vars, key) matches Some(value) ==> value.len() == 0,
    decreases vars.len(),
{
    if vars.len() > 0 {
        let rest = vars.drop_first();
        assert(vars[0].0@ != key || vars[0].1@.len() == 0);
        assert forall|i: int| 0 <= i < rest.len() implies (#[trigger] rest[i]).0@ != key
            || rest[i].1@.len() == 0 by {
            assert(rest[i] == vars[i + 1]);
        }
        lemma_absent_or_empty(rest, key);
    }
}

/// A text lookup gives the value of the first entry, or the default if there is none or it is
/// empty.
pub proof fn lookups_give_value_or_default(
    vars: Seq<(String, String)>,
    key: Seq<char>,
    default: Seq<char>,
    at: int,
)
    ensures
        0 <= at < vars.len() && vars[at].0@ == key && (forall|i: int|
            0 <= i < at ==> (#[trigger] vars[i]).0@ != key) ==> env_text(vars, key, default) == (
        if vars[at].1@.len() > 0 {
            vars[at].1@
        } else {
            default
        }),
        (forall|i: int| 0 <= i < vars.len() ==> (#[trigger] vars[i]).0@ != key) ==> env_text(
            vars,
            key,
            default,
        ) == default,
{
    if 0 <= at < vars.len() && vars[at].0@ == key && (forall|i: int|
        0 <= i < at ==> (#[trigger] vars[i]).0@ != key) {
        variables_are_found_by_their_first_entry(vars, key, at);
    }
    if forall|i: int| 0 <= i < vars.len() ==> (#[trigger] vars[i]).0@ != key {
        variables_without_entry_are_absent(vars, key);
    }
}

/// A number lookup gives the number that the first entry writes, or the default if there is none
/// or it writes no decimal number within the limit.
pub proof fn number_lookups_give_number_or_default(
    vars: Seq<(String, String)>,
    key: Seq<char>,
    default: nat,
    max: nat,
    at: int,
)
    ensures
        0 <= at < vars.len() && vars[at].0@ == key && (forall|i: int|
            0 <= i < at ==> (#[trigger] vars[i]).0@ != key) ==> env_number(vars, key, default, max)
            == (match decimal_number(vars[at].1@, max) {
            Some(number) => number,
            None => default,
        }),
        (forall|i: int| 0 <= i < vars.len() ==> (#[trigger] vars[i]).0@ != key) ==> env_number(
            vars,
            key,
            default,
            max,
        ) == default,
{
    if 0 <= at < vars.len() && vars[at].0@ == key && (forall|i: int|
        0 <= i < at ==> (#[trigger] vars[i]).0@ != key) {
        variables_are_found_by_their_first_entry(vars, key, at);
    }
    if forall|i: int| 0 <= i < vars.len() ==> (#[trigger] vars[i]).0@ != key {
        variables_without_entry_are_absent(vars, key);
    }
}

/// An environment is refused exactly if its upstream URL is absent, or made of slashes only.
pub proof fn only_missing_urls_are_refused(vars: Seq<(String, String)>)
    ensures
        upstream_url_of(vars).len() == 0 <==> (forall|i: int|
            0 <= i < vars.len() ==> (#[trigger] vars[i]).0@ != "CODEX_PROXY_UPSTREAM_URL"@)
            || exists|at: int|
            0 <= at < vars.len() && (#[trigger] vars[at]).0@ == "CODEX_PROXY_UPSTREAM_URL"@ && (
            forall|i: int|
                0 <= i < at ==> (#[trigger] vars[i]).0@ != "CODEX_PROXY_UPSTREAM_URL"@) && forall|
                k: int,
            |
                0 <= k < vars[at].1@.len() ==> #[trigger] vars[at].1@[k] == '/',
{
    let key = "CODEX_PROXY_UPSTREAM_URL"@;
    let value = env_text(vars, UPSTREAM_URL@, Seq::empty());
    trimming_takes_all_marks_and_no_more(value, '/');
    if forall|i: int| 0 <= i < vars.len() ==> (#[trigger] vars[i]).0@ != key {
        variables_without_entry_are_absent(vars, key);
    } else {
        let some = choose|i: int| 0 <= i < vars.len() && (#[trigger] vars[i]).0@ == key;
        let at = lemma_first_entry(vars, key, some);
        variables_are_found_by_their_first_entry(vars, key, at);
        assert(value.len() > 0 ==> value == vars[at].1@);
        assert(value.len() == 0 ==> vars[at].1@.len() == 0);
        if upstream_url_of(vars).len() == 0 {
            assert(forall|k: int| 0 <= k < vars[at].1@.len() ==> #[trigger] vars[at].1@[k] == '/');
        }
        if exists|a: int|
            0 <= a < vars.len() && (#[trigger] vars[a]).0@ == key && (forall|i: int|
                0 <= i < a ==> (#[trigger] vars[i]).0@ != key) && forall|k: int|
                0 <= k < vars[a].1@.len() ==> #[trigger] vars[a].1@[k] == '/' {
            let a = choose|a: int|
                0 <= a < vars.len() && (#[trigger] vars[a]).0@ == key && (forall|i: int|
                    0 <= i < a ==> (#[trigger] vars[i]).0@ != key) && forall|k: int|
                    0 <= k < vars[a].1@.len() ==> #[trigger] vars[a].1@[k] == '/';
            assert(a == at) by {
                if a < at {
                    assert(vars[a].0@ != key);
                }
                if at < a {
                    assert(vars[at].0@ != key);
                }
            }
            let url = upstream_url_of(vars);
            if url.len() > 0 {
                assert(url[url.len() - 1] == value[url.len() - 1]);
                assert(vars[at].1@[url.len() - 1] == '/');
            }
        }
    }
}

/// A variable with an entry has a first one.
proof fn lemma_first_entry(vars: Seq<(String, String)>, key: Seq<char>, some: int) -> (at: int)
    requires
        0 <= some < vars.len(),
        vars[some].0@ == key,
    ensures
        0 <= at <= some,
        vars[at].0@ == key,
        forall|i: int| 0 <= i < at ==> (#[trigger] vars[i]).0@ != key,
    decreases some,
{
    if exists|i: int| 0 <= i < some && (#[trigger] vars[i]).0@ == key {
        let earlier = choose|i: int| 0 <= i < some && (#[trigger] vars[i]).0@ == key;
        lemma_first_entry(vars, key, earlier)
    } else {
        some
    }
}

/// A user agent, piece by piece: the originator, a slash, the version, the system in brackets, the
/// terminal, and in brackets the originator and the version again.
pub proof fn user_agents_have_their_pieces(
    originator: Seq<char>,
    version: Seq<char>,
    os: Seq<char>,
    terminal: Seq<char>,
)
    ensures
        ({
            let ua = user_agent_of(originator, version, os, terminal);
            let o = originator.len() as int;
            let v = version.len() as int;
            let s = os.len() as int;
            let t = terminal.len() as int;
            &&& ua.len() == 2 * o + 2 * v + s + t + 10
            &&& ua.subrange(0, o) == originator
            &&& ua[o] == '/'
            &&& ua.subrange(o + 1, o + 1 + v) == version
            &&& ua[o + v + 1] == ' ' && ua[o + v + 2] == '('
            &&& ua.subrange(o + v + 3, o + v + 3 + s) == os
            &&& ua[o + v + s + 3] == ')' && ua[o + v + s + 4] == ' '
            &&& ua.subrange(o + v + s + 5, o + v + s + 5 + t) == terminal
            &&& ua[o + v + s + t + 5] == ' ' && ua[o + v + s + t + 6] == '('
            &&& ua.subrange(o + v + s + t + 7, 2 * o + v + s + t + 7) == originator
            &&& ua[2 * o + v + s + t + 7] == ';' && ua[2 * o + v + s + t + 8] == ' '
            &&& ua.subrange(2 * o + v + s + t + 9, 2 * o + 2 * v + s + t + 9) == version
            &&& ua[2 * o + 2 * v + s + t + 9] == ')'
        }),
{
    reveal_strlit("/");
    reveal_strlit(" (");
    reveal_strlit(") ");
    reveal_strlit("; ");
    reveal_strlit(")");
    let ua = user_agent_of(originator, version, os, terminal);
    let o = originator.len() as int;
    let v = version.len() as int;
    let s = os.len() as int;
    let t = terminal.len() as int;
    assert(ua.subrange(0, o) =~= originator);
    assert(ua.subrange(o + 1, o + 1 + v) =~= version);
    assert(ua.subrange(o + v + 3, o + v + 3 + s) =~= os);
    assert(ua.subrange(o + v + s + 5, o + v + s + 5 + t) =~= terminal);
    assert(ua.subrange(o + v + s + t + 7, 2 * o + v + s + t + 7) =~= originator);
    assert(ua.subrange(2 * o + v + s + t + 9, 2 * o + 2 * v + s + t + 9) =~= version);
}

/// Without a user agent of its own a configuration has one that is derived from its originator
/// and from the version, system and terminal that the environment sets, or from their defaults.
pub proof fn absent_user_agents_are_derived(
    vars: Seq<(String, String)>,
    installation_id: Seq<char>,
)
    requires
        forall|i: int|
            0 <= i < vars.len() ==> (#[trigger] vars[i]).0@ != "CODEX_PROXY_USER_AGENT"@
                || vars[i].1@.len() == 0,
    ensures
        config_of(vars, installation_id).user_agent == user_agent_of(
            config_of(vars, installation_id).originator,
            env_text(vars, "CODEX_PROXY_UA_VERSION"@, "0.145.0"@),
            env_text(vars, "CODEX_PROXY_UA_OS"@, "Debian 12.0.0; x86_64"@),
            env_text(vars, "CODEX_PROXY_UA_TERMINAL"@, "unknown"@),
        ),
{
    lemma_absent_or_empty(vars, "CODEX_PROXY_USER_AGENT"@);
}

/// The installation identifier of a configuration is the one that the environment sets, whole; if
/// it sets none, or an empty one, it was drawn at random.
pub proof fn installations_are_set_or_drawn(
    vars: Seq<(String, String)>,
    made: ConfigView,
    at: int,
)
    requires
        is_made_of(vars, made),
    ensures
        0 <= at < vars.len() && vars[at].0@ == "CODEX_PROXY_INSTALLATION_ID"@ && vars[at].1@.len()
            > 0 && (forall|i: int|
            0 <= i < at ==> (#[trigger] vars[i]).0@ != "CODEX_PROXY_INSTALLATION_ID"@)
            ==> made.installation_id == vars[at].1@,
        (forall|i: int|
            0 <= i < vars.len() ==> (#[trigger] vars[i]).0@ != "CODEX_PROXY_INSTALLATION_ID"@
                || vars[i].1@.len() == 0) ==> is_drawn_uuid(made.installation_id),
        made == config_of(vars, made.installation_id),
{
    let key = "CODEX_PROXY_INSTALLATION_ID"@;
    if 0 <= at < vars.len() && vars[at].0@ == key && (forall|i: int|
        0 <= i < at ==> (#[trigger] vars[i]).0@ != key) {
        variables_are_found_by_their_first_entry(vars, key, at);
    }
    if forall|i: int|
        0 <= i < vars.len() ==> (#[trigger] vars[i]).0@ != key || vars[i].1@.len() == 0 {
        lemma_absent_or_empty(vars, key);
    }
}

} // verus!
