//! The settings of the operator.

use config::Config;
use vstd::prelude::*;
use crate::text::{parse_unsigned, segments, split_text, unsigned_number, views};

verus! {

/// The prefix of all environment variables that configure the operator.
pub const BW_OPERATOR_ENV_PREFIX: &'static str = "BW_OPERATOR";

/// The environment variable that overrides the path of the configuration file.
pub const ENV_CONFIG_PATH: &'static str = "BW_OPERATOR_CONFIG";

/// The environment variable that overrides how long to wait when there is nothing to do.
pub const ENV_NOOP_REQUEUE_DELAY: &'static str = "BW_OPERATOR_NOOP_REQUEUE_DELAY";

/// The path of the configuration file, without its extension.
pub const DEFAULT_CONFIG_PATH: &'static str = "config/config";

/// How long to wait, in seconds, when there is nothing to do.
pub const DEFAULT_NOOP_REQUEUE_DELAY: u64 = 300;

/// The time between two synchronisations of the vault, in seconds.
pub const VAULT_SYNC_PERIOD: u64 = 300;

/// A configuration that has been read from its sources.
#[verifier::external_type_specification]
#[verifier::external_body]
pub struct ExConfig(Config);

/// The settings of a configuration that can be read as text.
pub uninterp spec fn text_settings(config: Config) -> Map<Seq<char>, Seq<char>>;

/// The settings of a configuration that can be read as an integer.
pub uninterp spec fn integer_settings(config: Config) -> Map<Seq<char>, i64>;

/// The settings of a configuration that can be read as a truth value.
pub uninterp spec fn flag_settings(config: Config) -> Map<Seq<char>, bool>;

/// Calls `config::Config::get_string`, whose result depends on the
/// configuration and the key alone. A key with a subscript is left out: a
/// negative one can lie outside its list, on which the call panics.
#[verifier::external_body]
pub(crate) fn text_setting(config: &Config, key: &str) -> (setting: Option<String>)
    requires
        !key@.contains('['),
    ensures
        setting is Some <==> text_settings(*config).contains_key(key@),
        setting matches Some(text) ==> text@ == text_settings(*config)[key@],
{
    config.get_string(key).ok()
}

/// Calls `config::Config::get_int`, whose result depends on the configuration
/// and the key alone; keys with a subscript are left out as above.
#[verifier::external_body]
pub(crate) fn integer_setting(config: &Config, key: &str) -> (setting: Option<i64>)
    requires
        !key@.contains('['),
    ensures
        setting is Some <==> integer_settings(*config).contains_key(key@),
        setting matches Some(value) ==> value == integer_settings(*config)[key@],
{
    config.get_int(key).ok()
}

/// Calls `config::Config::get_bool`, whose result depends on the configuration
/// and the key alone; keys with a subscript are left out as above.
#[verifier::external_body]
pub(crate) fn flag_setting(config: &Config, key: &str) -> (setting: Option<bool>)
    requires
        !key@.contains('['),
    ensures
        setting is Some <==> flag_settings(*config).contains_key(key@),
        setting matches Some(value) ==> value == flag_settings(*config)[key@],
{
    config.get_bool(key).ok()
}

/// The text setting under `key`, or `default` where there is none.
pub open spec fn text_or(config: Config, key: Seq<char>, default: Seq<char>) -> Seq<char> {
    if text_settings(config).contains_key(key) {
        text_settings(config)[key]
    } else {
        default
    }
}

/// The text setting under `key`, or `default` where there is none.
pub(crate) fn text_setting_or(config: &Config, key: &str, default: &str) -> (setting: String)
    requires
        !key@.contains('['),
    ensures
        setting@ == text_or(*config, key@, default@),
{
    match text_setting(config, key) {
        Some(text) => text,
        None => default.to_owned(),
    }
}

/// Where the certificate of the webserver and its key are.
#[derive(Debug, PartialEq, Eq)]
pub struct TlsSettings {
    pub cert_path: String,
    pub key_path: String,
}

/// Where the webserver listens, and whether it does so with TLS.
#[derive(Debug, PartialEq, Eq)]
pub struct WebserverSettings {
    pub ip: [u8; 4],
    pub port: u16,
    pub tls: Option<TlsSettings>,
}

/// The four numbers of an IP address in dotted decimal notation.
pub open spec fn ip_numbers(text: Seq<char>) -> Option<Seq<u8>> {
    let parts = segments(text, '.');
    if parts.len() == 4 && forall|i: int|
        0 <= i < 4 ==> unsigned_number(#[trigger] parts[i], 255) is Some {
        Some(Seq::new(4, |i: int| unsigned_number(parts[i], 255)->0 as u8))
    } else {
        None
    }
}

/// Reads an IP address in dotted decimal notation.
pub fn parse_ip(text: &str) -> (ip: Option<[u8; 4]>)
    ensures
        ip is Some <==> ip_numbers(text@) is Some,
        ip matches Some(ip) ==> ip_numbers(text@) == Some(ip@),
{
    let parts: Vec<String> = split_text(text, '.');
    let ghost spec_parts = segments(text@, '.');
    assert(views(parts@).len() == parts@.len());
    if parts.len() != 4 {
        return None;
    }
    assert(forall|i: int| 0 <= i < 4 ==> spec_parts[i] == (#[trigger] parts@[i])@);
    let (a, b, c, d) = (
        parse_unsigned(parts[0].as_str(), 255),
        parse_unsigned(parts[1].as_str(), 255),
        parse_unsigned(parts[2].as_str(), 255),
        parse_unsigned(parts[3].as_str(), 255),
    );
    match (a, b, c, d) {
        (Some(a), Some(b), Some(c), Some(d)) => {
            let ip: [u8; 4] = [a as u8, b as u8, c as u8, d as u8];
            assert(ip@ =~= ip_numbers(text@)->0);
            Some(ip)
        },
        _ => {
            assert(unsigned_number(spec_parts[0], 255) is None || unsigned_number(
                spec_parts[1],
                255,
            ) is None || unsigned_number(spec_parts[2], 255) is None || unsigned_number(
                spec_parts[3],
                255,
            ) is None);
            None
        },
    }
}

/// The settings of the webserver, unless its IP address cannot be read.
pub fn webserver_settings(config: &Config) -> (r: Option<WebserverSettings>)
    ensures
        r is Some <==> ip_numbers(text_or(*config, "webserver_ip"@, "0.0.0.0"@)) is Some,
        r matches Some(settings) ==> {
            &&& Some(settings.ip@) == ip_numbers(text_or(*config, "webserver_ip"@, "0.0.0.0"@))
            &&& settings.port == (if integer_settings(*config).contains_key("webserver_port"@) {
                integer_settings(*config)["webserver_port"@] as u16
            } else {
                8080
            })
            &&& settings.tls is Some <==> flag_settings(*config).contains_key("webserver_tls"@)
                && flag_settings(*config)["webserver_tls"@]
            &&& settings.tls matches Some(tls) ==> {
                &&& tls.cert_path@ == text_or(*config, "tls_cert_path"@, "/certs/tls.crt"@)
                &&& tls.key_path@ == text_or(*config, "tls_key_path"@, "/certs/tls.key"@)
            }
        },
{
    proof {
        reveal_strlit("webserver_ip");
        reveal_strlit("webserver_port");
        reveal_strlit("webserver_tls");
        reveal_strlit("tls_cert_path");
        reveal_strlit("tls_key_path");
    }
    let port: u16 = match integer_setting(config, "webserver_port") {
        Some(port) => #[verifier::truncate] (port as u16),
        None => 8080,
    };
    let ip: [u8; 4] = match parse_ip(text_setting_or(config, "webserver_ip", "0.0.0.0").as_str()) {
        Some(ip) => ip,
        None => {
            return None;
        },
    };
    let enabled: bool = match flag_setting(config, "webserver_tls") {
        Some(enabled) => enabled,
        None => false,
    };
    let tls: Option<TlsSettings> = if enabled {
        Some(
            TlsSettings {
                cert_path: text_setting_or(config, "tls_cert_path", "/certs/tls.crt"),
                key_path: text_setting_or(config, "tls_key_path", "/certs/tls.key"),
            },
        )
    } else {
        None
    };
    Some(WebserverSettings { ip, port, tls })
}

/// How long to wait, in seconds, when there is nothing to do: what the
/// environment variable says, if it is set.
pub open spec fn noop_delay(variable: Option<Seq<char>>) -> Option<int> {
    match variable {
        Some(text) => unsigned_number(text, u64::MAX as int),
        None => Some(300),
    }
}

/// How long to wait, in seconds, when there is nothing to do; nothing if the
/// environment variable is set to something that is not a number of 64 bits.
pub fn noop_requeue_delay(variable: &Option<String>) -> (delay: Option<u64>)
    ensures
        delay is Some <==> noop_delay(crate::text::optional(*variable)) is Some,
        delay matches Some(seconds) ==> noop_delay(crate::text::optional(*variable)) == Some(
            seconds as int,
        ),
{
    match variable {
        Some(text) => parse_unsigned(text.as_str(), u64::MAX),
        None => Some(DEFAULT_NOOP_REQUEUE_DELAY),
    }
}

/// An IP address is read back from its dotted decimal notation.
pub proof fn law_ip_numbers(
    a: Seq<char>,
    b: Seq<char>,
    c: Seq<char>,
    d: Seq<char>,
)
    requires
        unsigned_number(a, 255) is Some,
        unsigned_number(b, 255) is Some,
        unsigned_number(c, 255) is Some,
        unsigned_number(d, 255) is Some,
    ensures
        ip_numbers(a.push('.') + b.push('.') + c.push('.') + d) == Some(
            seq![
                unsigned_number(a, 255)->0 as u8,
                unsigned_number(b, 255)->0 as u8,
                unsigned_number(c, 255)->0 as u8,
                unsigned_number(d, 255)->0 as u8,
            ],
        ),
{
    lemma_number_has_no_dot(a);
    lemma_number_has_no_dot(b);
    lemma_number_has_no_dot(c);
    lemma_number_has_no_dot(d);
    let ab = a.push('.') + b;
    let abc = ab.push('.') + c;
    crate::text::lemma_segments_single(a, '.');
    crate::text::lemma_segments_join(a, b, '.');
    crate::text::lemma_segments_join(ab, c, '.');
    crate::text::lemma_segments_join(abc, d, '.');
    let whole = a.push('.') + b.push('.') + c.push('.') + d;
    assert(whole =~= abc.push('.') + d);
    let parts = segments(whole, '.');
    assert(parts =~= seq![a, b, c, d]);
    assert(ip_numbers(whole)->0 =~= seq![
        unsigned_number(a, 255)->0 as u8,
        unsigned_number(b, 255)->0 as u8,
        unsigned_number(c, 255)->0 as u8,
        unsigned_number(d, 255)->0 as u8,
    ]);
}

proof fn lemma_number_has_no_dot(text: Seq<char>)
    requires
        unsigned_number(text, 255) is Some,
    ensures
        !text.contains('.'),
{
    if text.contains('.') {
        let i = text.index_of('.');
        let digits = crate::text::unsigned_digits(text);
        let k = i - (text.len() - digits.len());
        assert(digits[k] == '.');
        assert(crate::text::is_digit(digits[k]));
    }
}

/// A text that is configured is used, and the default only if there is none.
pub proof fn law_configured_text_comes_first(
    config: Config,
    key: Seq<char>,
    default: Seq<char>,
)
    ensures
        text_settings(config).contains_key(key) ==> text_or(config, key, default)
            == text_settings(config)[key],
        !text_settings(config).contains_key(key) ==> text_or(config, key, default) == default,
{
}

/// An IP address is four numbers up to 255 with points in between, and
/// nothing else is one.
pub proof fn law_ip_is_four_numbers(text: Seq<char>)
    ensures
        ip_numbers(text) is Some <==> segments(text, '.').len() == 4 && forall|i: int|
            0 <= i < 4 ==> unsigned_number(#[trigger] segments(text, '.')[i], 255) is Some,
        ip_numbers(text) matches Some(numbers) ==> numbers.len() == 4 && forall|i: int|
            0 <= i < 4 ==> unsigned_number(segments(text, '.')[i], 255) == Some(
                #[trigger] numbers[i] as int,
            ),
{
    let parts = segments(text, '.');
    if ip_numbers(text) is Some {
        assert forall|i: int| 0 <= i < 4 implies unsigned_number(parts[i], 255) == Some(
            #[trigger] ip_numbers(text)->0[i] as int,
        ) by {
            assert(unsigned_number(parts[i], 255) is Some);
            crate::text::law_unsigned_number(parts[i], '0', 255);
        }
    }
}

/// With nothing to do the operator waits for 300 seconds, or for as many as
/// the environment variable says in digits.
pub proof fn law_noop_delay(variable: Seq<char>)
    ensures
        noop_delay(None) == Some(300int),
        noop_delay(Some(variable)) == unsigned_number(variable, 0xffff_ffff_ffff_ffff),
{
}

/// The names and numbers that are fixed.
pub proof fn law_fixed_settings()
    ensures
        BW_OPERATOR_ENV_PREFIX@ == "BW_OPERATOR"@,
        ENV_CONFIG_PATH@ == "BW_OPERATOR_CONFIG"@,
        ENV_NOOP_REQUEUE_DELAY@ == "BW_OPERATOR_NOOP_REQUEUE_DELAY"@,
        DEFAULT_CONFIG_PATH@ == "config/config"@,
        DEFAULT_NOOP_REQUEUE_DELAY == 300,
        VAULT_SYNC_PERIOD == 300,
{
}

} // verus!
