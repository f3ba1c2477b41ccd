//! Startup configuration read from environment entries, with defaults and
//! validation.

use vstd::prelude::*;
use crate::text::{chars_of, decimal, decimal_of, trim, trimmed_of};

verus! {

#[derive(Debug, Clone)]
pub struct InternalApiConfig {
    pub base_url: String,
    pub token: String,
    pub chat_path: String,
    pub embed_path: String,
    pub chat_model: String,
    pub embed_model: String,
    pub llm_timeout_ms: u64,
    pub embed_timeout_ms: u64,
    pub outbound_max_concurrency: usize,
    pub chat_rate_limit_rpm: u32,
    pub chat_burst: u32,
    pub retry_chat_max: u32,
    pub retry_embed_max: u32,
}

#[derive(Debug, Clone)]
pub struct AppConfig {
    pub host: String,
    pub port: u16,
    pub infer_provider: String,
    pub knowledge_dir: String,
    pub vector_store: String,
    pub lancedb_uri: String,
    pub lancedb_table: String,
    pub embedding_vector_size: usize,
    pub chunk_size: usize,
    pub chunk_overlap: usize,
    pub internal_api: InternalApiConfig,
}

#[derive(Debug, Clone, PartialEq, Eq)]
pub enum ConfigError {
    MissingEnv(&'static str),
    InvalidEnv { key: &'static str, value: String, reason: &'static str },
    InvalidSocketAddr { host: String, port: u16, error: String },
}

/// The value of the first entry named `key`.
pub open spec fn env_lookup(vars: Seq<(Seq<char>, Seq<char>)>, key: Seq<char>) -> Option<Seq<char>>
    decreases vars.len(),
{
    if vars.len() == 0 {
        None
    } else if vars[0].0 == key {
        Some(vars[0].1)
    } else {
        env_lookup(vars.drop_first(), key)
    }
}

pub open spec fn vars_view(vars: Seq<(String, String)>) -> Seq<(Seq<char>, Seq<char>)> {
    vars.map_values(|v: (String, String)| (v.0@, v.1@))
}

/// The trimmed value of `key`, when it is set to something besides whitespace.
pub open spec fn env_value(vars: Seq<(Seq<char>, Seq<char>)>, key: Seq<char>) -> Option<Seq<char>> {
    match env_lookup(vars, key) {
        Some(v) => if trimmed_of(v).len() > 0 {
            Some(trimmed_of(v))
        } else {
            None
        },
        None => None,
    }
}

pub open spec fn is_digit(c: char) -> bool {
    '0' <= c && c <= '9'
}

pub open spec fn all_digits(d: Seq<char>) -> bool {
    forall|i: int| 0 <= i < d.len() ==> is_digit(#[trigger] d[i])
}

pub open spec fn digits_value(s: Seq<char>) -> nat
    decreases s.len(),
{
    if s.len() == 0 {
        0
    } else {
        digits_value(s.drop_last()) * 10 + (s.last() as nat - '0' as nat) as nat
    }
}

/// The number an unsigned decimal literal denotes: an optional `+`, then
/// one or more ASCII digits.
pub open spec fn decimal_value(s: Seq<char>) -> Option<nat> {
    let d = if s.len() > 0 && s[0] == '+' { s.drop_first() } else { s };
    if d.len() > 0 && all_digits(d) {
        Some(digits_value(d))
    } else {
        None
    }
}

proof fn lemma_digits_value_prefix(d: Seq<char>, i: int)
    requires
        0 <= i <= d.len(),
        all_digits(d),
    ensures
        digits_value(d.take(i)) <= digits_value(d),
    decreases d.len() - i,
{
    if i < d.len() {
        lemma_digits_value_prefix(d, i + 1);
        assert(d.take(i + 1).drop_last() =~= d.take(i));
    } else {
        assert(d.take(i) =~= d);
    }
}

/// Parses an unsigned decimal literal that is at most `max`.
pub fn parse_decimal(s: &str, max: u64) -> (r: Option<u64>)
    ensures
        r == match decimal_value(s@) {
            Some(v) => if v <= max {
                Some(v as u64)
            } else {
                None::<u64>
            },
            None => None,
        },
{
    let chars = chars_of(s);
    let start: usize = if chars.len() > 0 && chars[0] == '+' {
        1
    } else {
        0
    };
    let ghost d = if chars@.len() > 0 && chars@[0] == '+' {
        chars@.drop_first()
    } else {
        chars@
    };
    proof {
        assert(d =~= chars@.subrange(start as int, chars@.len() as int));
    }
    if start >= chars.len() {
        return None;
    }
    let mut acc: u64 = 0;
    let mut i: usize = start;
    while i < chars.len()
        invariant
            start <= i <= chars.len(),
            chars@ == s@,
            d == (if chars@.len() > 0 && chars@[0] == '+' {
                chars@.drop_first()
            } else {
                chars@
            }),
            d == chars@.subrange(start as int, chars@.len() as int),
            forall|k: int| start <= k < i ==> is_digit(#[trigger] chars@[k]),
            acc as nat == digits_value(d.take(i - start)),
            acc <= max,
        decreases chars.len() - i,
    {
        let c = chars[i];
        proof {
            assert(d.take(i - start + 1).drop_last() =~= d.take(i - start));
            assert(d.take(i - start + 1).last() == c);
        }
        if !('0' <= c && c <= '9') {
            proof {
                assert(d[i - start] == chars@[i as int]);
                assert(!is_digit(d[i - start]));
                assert(!all_digits(d));
            }
            return None;
        }
        let v = (c as u32 - '0' as u32) as u64;
        let next: u128 = acc as u128 * 10 + v as u128;
        proof {
            assert(digits_value(d.take(i - start + 1)) == next);
        }
        if next > max as u128 {
            proof {
                if all_digits(d) {
                    lemma_digits_value_prefix(d, i - start + 1);
                }
            }
            return None;
        }
        acc = next as u64;
        i = i + 1;
    }
    proof {
        assert(d.take(i - start) =~= d);
        assert forall|k: int| 0 <= k < d.len() implies is_digit(#[trigger] d[k]) by {
            assert(d[k] == chars@[start + k]);
        }
        assert(all_digits(d));
    }
    Some(acc)
}

fn find_var<'a>(vars: &'a Vec<(String, String)>, key: &str) -> (r: Option<&'a String>)
    ensures
        match r {
            Some(v) => env_lookup(vars_view(vars@), key@) == Some(v@),
            None => env_lookup(vars_view(vars@), key@) is None,
        },
{
    let ghost vv = vars_view(vars@);
    let target = String::from_str(key);
    let mut i: usize = 0;
    assert(vv.subrange(0, vv.len() as int) =~= vv);
    while i < vars.len()
        invariant
            i <= vars.len(),
            vv == vars_view(vars@),
            target@ == key@,
            env_lookup(vv, key@) == env_lookup(vv.subrange(i as int, vv.len() as int), key@),
        decreases vars.len() - i,
    {
        let ghost rest = vv.subrange(i as int, vv.len() as int);
        assert(rest[0] == vv[i as int]);
        if vars[i].0 == target {
            return Some(&vars[i].1);
        }
        assert(rest.drop_first() =~= vv.subrange(i + 1, vv.len() as int));
        i = i + 1;
    }
    None
}

/// The trimmed value of a variable, when it is set to something besides whitespace.
fn var_value(vars: &Vec<(String, String)>, key: &str) -> (r: Option<String>)
    ensures
        match r {
            Some(v) => env_value(vars_view(vars@), key@) == Some(v@),
            None => env_value(vars_view(vars@), key@) is None,
        },
{
    match find_var(vars, key) {
        None => None,
        Some(raw) => {
            let t = trim(raw.as_str());
            if t.as_str().is_empty() {
                None
            } else {
                Some(t)
            }
        },
    }
}

pub fn required_var(vars: &Vec<(String, String)>, key: &'static str) -> (r: Result<String, ConfigError>)
    ensures
        match env_value(vars_view(vars@), key@) {
            Some(v) => r is Ok && r->Ok_0@ == v,
            None => r == Err::<String, ConfigError>(ConfigError::MissingEnv(key)),
        },
{
    match var_value(vars, key) {
        Some(v) => Ok(v),
        None => Err(ConfigError::MissingEnv(key)),
    }
}

pub fn optional_var(vars: &Vec<(String, String)>, key: &'static str, default: &'static str) -> (r:
    String)
    ensures
        r@ == match env_value(vars_view(vars@), key@) {
            Some(v) => v,
            None => default@,
        },
{
    match var_value(vars, key) {
        Some(v) => v,
        None => String::from_str(default),
    }
}

/// A numeric setting is acceptable when it is unset or a decimal literal of at most `max`.
pub open spec fn setting_ok(vars: Seq<(Seq<char>, Seq<char>)>, key: Seq<char>, max: nat) -> bool {
    match env_value(vars, key) {
        None => true,
        Some(raw) => decimal_value(raw) is Some && decimal_value(raw)->Some_0 <= max,
    }
}

/// The value of a numeric setting, or `default` when it is unset.
pub open spec fn setting_value(vars: Seq<(Seq<char>, Seq<char>)>, key: Seq<char>, default: nat) -> nat {
    match env_value(vars, key) {
        None => default,
        Some(raw) => decimal_value(raw)->Some_0,
    }
}

pub open spec fn invalid_setting(
    vars: Seq<(Seq<char>, Seq<char>)>,
    key: &'static str,
    e: ConfigError,
) -> bool {
    &&& e matches ConfigError::InvalidEnv { key: k, value, .. }
    &&& k == key
    &&& Some(value@) == env_value(vars, key@)
}

fn parse_bounded(
    vars: &Vec<(String, String)>,
    key: &'static str,
    default: u64,
    max: u64,
    reason: &'static str,
) -> (r: Result<u64, ConfigError>)
    requires
        default <= max,
    ensures
        setting_ok(vars_view(vars@), key@, max as nat) ==> r == Ok::<u64, ConfigError>(
            setting_value(vars_view(vars@), key@, default as nat) as u64,
        ),
        !setting_ok(vars_view(vars@), key@, max as nat) ==> r is Err && invalid_setting(
            vars_view(vars@),
            key,
            r->Err_0,
        ),
        r is Ok ==> r->Ok_0 <= max,
{
    match var_value(vars, key) {
        None => Ok(default),
        Some(raw) => match parse_decimal(raw.as_str(), max) {
            Some(v) => Ok(v),
            None => Err(ConfigError::InvalidEnv { key, value: raw, reason }),
        },
    }
}

pub fn parse_u16(vars: &Vec<(String, String)>, key: &'static str, default: u16) -> (r: Result<
    u16,
    ConfigError,
>)
    ensures
        setting_ok(vars_view(vars@), key@, u16::MAX as nat) ==> r == Ok::<u16, ConfigError>(
            setting_value(vars_view(vars@), key@, default as nat) as u16,
        ),
        !setting_ok(vars_view(vars@), key@, u16::MAX as nat) ==> r is Err && invalid_setting(
            vars_view(vars@),
            key,
            r->Err_0,
        ),
{
    match parse_bounded(vars, key, default as u64, u16::MAX as u64, "expected unsigned 16-bit integer") {
        Ok(v) => Ok(v as u16),
        Err(e) => Err(e),
    }
}

pub fn parse_u32(vars: &Vec<(String, String)>, key: &'static str, default: u32) -> (r: Result<
    u32,
    ConfigError,
>)
    ensures
        setting_ok(vars_view(vars@), key@, u32::MAX as nat) ==> r == Ok::<u32, ConfigError>(
            setting_value(vars_view(vars@), key@, default as nat) as u32,
        ),
        !setting_ok(vars_view(vars@), key@, u32::MAX as nat) ==> r is Err && invalid_setting(
            vars_view(vars@),
            key,
            r->Err_0,
        ),
{
    match parse_bounded(vars, key, default as u64, u32::MAX as u64, "expected unsigned 32-bit integer") {
        Ok(v) => Ok(v as u32),
        Err(e) => Err(e),
    }
}

pub fn parse_u64(vars: &Vec<(String, String)>, key: &'static str, default: u64) -> (r: Result<
    u64,
    ConfigError,
>)
    ensures
        setting_ok(vars_view(vars@), key@, u64::MAX as nat) ==> r == Ok::<u64, ConfigError>(
            setting_value(vars_view(vars@), key@, default as nat) as u64,
        ),
        !setting_ok(vars_view(vars@), key@, u64::MAX as nat) ==> r is Err && invalid_setting(
            vars_view(vars@),
            key,
            r->Err_0,
        ),
{
    parse_bounded(vars, key, default, u64::MAX, "expected unsigned 64-bit integer")
}

pub fn parse_usize(vars: &Vec<(String, String)>, key: &'static str, default: usize) -> (r: Result<
    usize,
    ConfigError,
>)
    ensures
        setting_ok(vars_view(vars@), key@, usize::MAX as nat) ==> r == Ok::<usize, ConfigError>(
            setting_value(vars_view(vars@), key@, default as nat) as usize,
        ),
        !setting_ok(vars_view(vars@), key@, usize::MAX as nat) ==> r is Err && invalid_setting(
            vars_view(vars@),
            key,
            r->Err_0,
        ),
{
    match parse_bounded(vars, key, default as u64, usize::MAX as u64, "expected usize integer") {
        Ok(v) => Ok(v as usize),
        Err(e) => Err(e),
    }
}

/// The first setting, in the order they are read, that keeps the
/// configuration from loading: a numeric value that does not parse or does
/// not fit, a required value that is missing, or an overlap that is not
/// smaller than the chunk size.
pub open spec fn config_problem(vars: Seq<(Seq<char>, Seq<char>)>) -> Option<Seq<char>> {
    if !setting_ok(vars, "APP_PORT"@, u16::MAX as nat) {
        Some("APP_PORT"@)
    }     else if env_value(vars, "INTERNAL_API_BASE_URL"@) is None {
        Some("INTERNAL_API_BASE_URL"@)
    }     else if env_value(vars, "INTERNAL_API_TOKEN"@) is None {
        Some("INTERNAL_API_TOKEN"@)
    }     else if !setting_ok(vars, "LLM_TIMEOUT_MS"@, u64::MAX as nat) {
        Some("LLM_TIMEOUT_MS"@)
    }     else if !setting_ok(vars, "EMBED_TIMEOUT_MS"@, u64::MAX as nat) {
        Some("EMBED_TIMEOUT_MS"@)
    }     else if !setting_ok(vars, "OUTBOUND_MAX_CONCURRENCY"@, usize::MAX as nat) {
        Some("OUTBOUND_MAX_CONCURRENCY"@)
    }     else if !setting_ok(vars, "CHAT_RATE_LIMIT_RPM"@, u32::MAX as nat) {
        Some("CHAT_RATE_LIMIT_RPM"@)
    }     else if !setting_ok(vars, "CHAT_BURST"@, u32::MAX as nat) {
        Some("CHAT_BURST"@)
    }     else if !setting_ok(vars, "RETRY_CHAT_MAX"@, u32::MAX as nat) {
        Some("RETRY_CHAT_MAX"@)
    }     else if !setting_ok(vars, "RETRY_EMBED_MAX"@, u32::MAX as nat) {
        Some("RETRY_EMBED_MAX"@)
    }     else if !setting_ok(vars, "EMBEDDING_VECTOR_SIZE"@, usize::MAX as nat) {
        Some("EMBEDDING_VECTOR_SIZE"@)
    }     else if !setting_ok(vars, "CHUNK_SIZE"@, usize::MAX as nat) {
        Some("CHUNK_SIZE"@)
    }     else if !setting_ok(vars, "CHUNK_OVERLAP"@, usize::MAX as nat) {
        Some("CHUNK_OVERLAP"@)
    }     else if setting_value(vars, "CHUNK_OVERLAP"@, 125) >= setting_value(vars, "CHUNK_SIZE"@, 1000) {
        Some("CHUNK_OVERLAP"@)
    }     else {
        None
    }
}

pub open spec fn opt_value(vars: Seq<(Seq<char>, Seq<char>)>, key: Seq<char>, default: Seq<char>) -> Seq<char> {
    match env_value(vars, key) {
        Some(v) => v,
        None => default,
    }
}

impl ConfigError {
    pub open spec fn key(self) -> Seq<char> {
        match self {
            ConfigError::MissingEnv(k) => k@,
            ConfigError::InvalidEnv { key, .. } => key@,
            ConfigError::InvalidSocketAddr { .. } => Seq::empty(),
        }
    }
}

/// The configuration that the variables give, when `config_problem` finds none.
pub open spec fn config_matches(c: AppConfig, vars: Seq<(Seq<char>, Seq<char>)>) -> bool {
    &&& c.host@ == opt_value(vars, "APP_HOST"@, "127.0.0.1"@)
    &&& c.port as nat == setting_value(vars, "APP_PORT"@, 8080)
    &&& c.infer_provider@ == opt_value(vars, "INFER_PROVIDER"@, "internal_api"@)
    &&& c.knowledge_dir@ == opt_value(vars, "KNOWLEDGE_DIR"@, "./knowledge"@)
    &&& c.vector_store@ == opt_value(vars, "VECTOR_STORE"@, "lancedb"@)
    &&& c.lancedb_uri@ == opt_value(vars, "LANCEDB_URI"@, "./data/lancedb"@)
    &&& c.lancedb_table@ == opt_value(vars, "LANCEDB_TABLE"@, "knowledge_chunks"@)
    &&& c.embedding_vector_size as nat == setting_value(vars, "EMBEDDING_VECTOR_SIZE"@, 1536)
    &&& c.chunk_size as nat == setting_value(vars, "CHUNK_SIZE"@, 1000)
    &&& c.chunk_overlap as nat == setting_value(vars, "CHUNK_OVERLAP"@, 125)
    &&& c.chunk_overlap < c.chunk_size
    &&& Some(c.internal_api.base_url@) == env_value(vars, "INTERNAL_API_BASE_URL"@)
    &&& Some(c.internal_api.token@) == env_value(vars, "INTERNAL_API_TOKEN"@)
    &&& c.internal_api.chat_path@ == opt_value(vars, "INTERNAL_API_CHAT_PATH"@, "/v1/chat/completions"@)
    &&& c.internal_api.embed_path@ == opt_value(vars, "INTERNAL_API_EMBED_PATH"@, "/v1/embeddings"@)
    &&& c.internal_api.chat_model@ == opt_value(vars, "INTERNAL_API_CHAT_MODEL"@, "ad-qa-chat-v1"@)
    &&& c.internal_api.embed_model@ == opt_value(vars, "INTERNAL_API_EMBED_MODEL"@, "ad-embed-v1"@)
    &&& c.internal_api.llm_timeout_ms as nat == setting_value(vars, "LLM_TIMEOUT_MS"@, 2200)
    &&& c.internal_api.embed_timeout_ms as nat == setting_value(vars, "EMBED_TIMEOUT_MS"@, 5000)
    &&& c.internal_api.outbound_max_concurrency as nat == setting_value(vars, "OUTBOUND_MAX_CONCURRENCY"@, 8)
    &&& c.internal_api.chat_rate_limit_rpm as nat == setting_value(vars, "CHAT_RATE_LIMIT_RPM"@, 120)
    &&& c.internal_api.chat_burst as nat == setting_value(vars, "CHAT_BURST"@, 10)
    &&& c.internal_api.retry_chat_max as nat == setting_value(vars, "RETRY_CHAT_MAX"@, 1)
    &&& c.internal_api.retry_embed_max as nat == setting_value(vars, "RETRY_EMBED_MAX"@, 3)
}

impl AppConfig {
    /// Reads the configuration from environment entries `(name, value)`.
    /// Values are trimmed; a value of only whitespace counts as unset.
    pub fn from_map(vars: &Vec<(String, String)>) -> (r: Result<Self, ConfigError>)
        ensures
            r is Ok <==> config_problem(vars_view(vars@)) is None,
            r is Ok ==> config_matches(r->Ok_0, vars_view(vars@)),
            r is Err ==> r->Err_0.key() == config_problem(vars_view(vars@))->Some_0,
            r is Err ==> !(r->Err_0 is InvalidSocketAddr),
            r is Err ==> (r->Err_0 is MissingEnv <==> (config_problem(vars_view(vars@))
                == Some("INTERNAL_API_BASE_URL"@) || config_problem(vars_view(vars@)) == Some(
                "INTERNAL_API_TOKEN"@,
            ))),
    {
        proof {
            reveal_strlit("APP_PORT");
            reveal_strlit("INTERNAL_API_BASE_URL");
            reveal_strlit("INTERNAL_API_TOKEN");
            reveal_strlit("LLM_TIMEOUT_MS");
            reveal_strlit("EMBED_TIMEOUT_MS");
            reveal_strlit("OUTBOUND_MAX_CONCURRENCY");
            reveal_strlit("CHAT_RATE_LIMIT_RPM");
            reveal_strlit("CHAT_BURST");
            reveal_strlit("RETRY_CHAT_MAX");
            reveal_strlit("RETRY_EMBED_MAX");
            reveal_strlit("EMBEDDING_VECTOR_SIZE");
            reveal_strlit("CHUNK_SIZE");
            reveal_strlit("CHUNK_OVERLAP");
            assert("APP_PORT"@[0] != 'I');
            assert("LLM_TIMEOUT_MS"@[0] != 'I');
            assert("EMBED_TIMEOUT_MS"@[0] != 'I');
            assert("OUTBOUND_MAX_CONCURRENCY"@[0] != 'I');
            assert("CHAT_RATE_LIMIT_RPM"@[0] != 'I');
            assert("CHAT_BURST"@[0] != 'I');
            assert("RETRY_CHAT_MAX"@[0] != 'I');
            assert("RETRY_EMBED_MAX"@[0] != 'I');
            assert("EMBEDDING_VECTOR_SIZE"@[0] != 'I');
            assert("CHUNK_SIZE"@[0] != 'I');
            assert("CHUNK_OVERLAP"@[0] != 'I');
        }
        let host = optional_var(vars, "APP_HOST", "127.0.0.1");
        let port = match parse_u16(vars, "APP_PORT", 8080) {
            Ok(v) => v,
            Err(e) => return Err(e),
        };
        let base_url = match required_var(vars, "INTERNAL_API_BASE_URL") {
            Ok(v) => v,
            Err(e) => return Err(e),
        };
        let token = match required_var(vars, "INTERNAL_API_TOKEN") {
            Ok(v) => v,
            Err(e) => return Err(e),
        };
        let llm_timeout_ms = match parse_u64(vars, "LLM_TIMEOUT_MS", 2200) {
            Ok(v) => v,
            Err(e) => return Err(e),
        };
        let embed_timeout_ms = match parse_u64(vars, "EMBED_TIMEOUT_MS", 5000) {
            Ok(v) => v,
            Err(e) => return Err(e),
        };
        let outbound_max_concurrency = match parse_usize(vars, "OUTBOUND_MAX_CONCURRENCY", 8) {
            Ok(v) => v,
            Err(e) => return Err(e),
        };
        let chat_rate_limit_rpm = match parse_u32(vars, "CHAT_RATE_LIMIT_RPM", 120) {
            Ok(v) => v,
            Err(e) => return Err(e),
        };
        let chat_burst = match parse_u32(vars, "CHAT_BURST", 10) {
            Ok(v) => v,
            Err(e) => return Err(e),
        };
        let retry_chat_max = match parse_u32(vars, "RETRY_CHAT_MAX", 1) {
            Ok(v) => v,
            Err(e) => return Err(e),
        };
        let retry_embed_max = match parse_u32(vars, "RETRY_EMBED_MAX", 3) {
            Ok(v) => v,
            Err(e) => return Err(e),
        };
        let embedding_vector_size = match parse_usize(vars, "EMBEDDING_VECTOR_SIZE", 1536) {
            Ok(v) => v,
            Err(e) => return Err(e),
        };
        let chunk_size = match parse_usize(vars, "CHUNK_SIZE", 1000) {
            Ok(v) => v,
            Err(e) => return Err(e),
        };
        let chunk_overlap = match parse_usize(vars, "CHUNK_OVERLAP", 125) {
            Ok(v) => v,
            Err(e) => return Err(e),
        };
        if chunk_overlap >= chunk_size {
            return Err(
                ConfigError::InvalidEnv {
                    key: "CHUNK_OVERLAP",
                    value: decimal(chunk_overlap),
                    reason: "expected a value smaller than CHUNK_SIZE",
                },
            );
        }
        let internal_api = InternalApiConfig {
            base_url,
            token,
            chat_path: optional_var(vars, "INTERNAL_API_CHAT_PATH", "/v1/chat/completions"),
            embed_path: optional_var(vars, "INTERNAL_API_EMBED_PATH", "/v1/embeddings"),
            chat_model: optional_var(vars, "INTERNAL_API_CHAT_MODEL", "ad-qa-chat-v1"),
            embed_model: optional_var(vars, "INTERNAL_API_EMBED_MODEL", "ad-embed-v1"),
            llm_timeout_ms,
            embed_timeout_ms,
            outbound_max_concurrency,
            chat_rate_limit_rpm,
            chat_burst,
            retry_chat_max,
            retry_embed_max,
        };
        Ok(
            AppConfig {
                host,
                port,
                infer_provider: optional_var(vars, "INFER_PROVIDER", "internal_api"),
                knowledge_dir: optional_var(vars, "KNOWLEDGE_DIR", "./knowledge"),
                vector_store: optional_var(vars, "VECTOR_STORE", "lancedb"),
                lancedb_uri: optional_var(vars, "LANCEDB_URI", "./data/lancedb"),
                lancedb_table: optional_var(vars, "LANCEDB_TABLE", "knowledge_chunks"),
                embedding_vector_size,
                chunk_size,
                chunk_overlap,
                internal_api,
            },
        )
    }
}

} // verus!
