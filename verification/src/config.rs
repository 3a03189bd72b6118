//! Configuration resolution. The environment and the `app_config` table are
//! read by the application; these functions decide what the values read
//! mean: which source wins, how booleans and numbers are parsed, and which
//! keys are valid.

use vstd::prelude::*;
use crate::error::BackendError;
use crate::num::{parse_i64, parse_signed, parse_u64, parse_unsigned, parse_usize};
use crate::text::{
    ascii_lower, ascii_lower_chars, chars_eq, chars_of, lit, lowercase, lowercase_chars,
    string_of, trim, trim_chars,
};

verus! {

/// An environment key is non-empty and made of upper-case ASCII letters,
/// digits and underscores.
pub open spec fn is_valid_env_key(key: Seq<char>) -> bool {
    key.len() > 0 && forall|i: int| 0 <= i < key.len() ==> {
        let c = #[trigger] key[i];
        ('A' <= c && c <= 'Z') || ('0' <= c && c <= '9') || c == '_'
    }
}

pub fn valid_env_key(key: &str) -> (r: bool)
    ensures
        r == is_valid_env_key(key@),
{
    let v = chars_of(key);
    if v.len() == 0 {
        return false;
    }
    let mut i: usize = 0;
    while i < v.len()
        invariant
            i <= v.len(),
            v@ == key@,
            forall|j: int| 0 <= j < i ==> {
                let c = #[trigger] v@[j];
                ('A' <= c && c <= 'Z') || ('0' <= c && c <= '9') || c == '_'
            },
        decreases v.len() - i,
    {
        let c = v[i];
        if !(('A' <= c && c <= 'Z') || ('0' <= c && c <= '9') || c == '_') {
            return false;
        }
        i = i + 1;
    }
    true
}

/// A value counts as set when something other than white space is left.
pub open spec fn is_configured(value: Option<Seq<char>>) -> bool {
    match value {
        Some(v) => trim(v).len() > 0,
        None => false,
    }
}

pub open spec fn opt_view(o: Option<String>) -> Option<Seq<char>> {
    match o {
        Some(s) => Some(s@),
        None => None,
    }
}

/// Whether an environment value, as read, is set.
pub fn env_is_configured(value: Option<String>) -> (r: bool)
    ensures
        r == is_configured(opt_view(value)),
{
    match value {
        Some(v) => trim_chars(&chars_of(v.as_str())).len() > 0,
        None => false,
    }
}

/// The words that mean `true`: `1`, `true`, `yes` and `on`, in any ASCII case
/// and surrounded by any white space.
pub open spec fn is_true_word(v: Seq<char>) -> bool {
    let n = ascii_lower(trim(v));
    n == "1"@ || n == "true"@ || n == "yes"@ || n == "on"@
}

/// A boolean from an environment value, or the default when it is not set.
pub fn env_bool(value: Option<String>, default_value: bool) -> (r: bool)
    ensures
        r == match opt_view(value) {
            Some(v) => is_true_word(v),
            None => default_value,
        },
{
    match value {
        Some(v) => {
            let n = ascii_lower_chars(&trim_chars(&chars_of(v.as_str())));
            chars_eq(&n, &lit("1")) || chars_eq(&n, &lit("true")) || chars_eq(&n, &lit("yes"))
                || chars_eq(&n, &lit("on"))
        },
        None => default_value,
    }
}

/// A `usize` from an environment value: the trimmed value parsed, or the
/// default when it is not set or does not parse.
pub fn env_usize(value: Option<String>, default_value: usize) -> (r: usize)
    ensures
        r == match opt_view(value) {
            Some(v) => match parse_unsigned(trim(v), usize::MAX as nat) {
                Some(n) => n,
                None => default_value as nat,
            },
            None => default_value as nat,
        },
{
    match value {
        Some(v) => {
            let t = string_of(&trim_chars(&chars_of(v.as_str())));
            match parse_usize(t.as_str()) {
                Some(n) => n,
                None => default_value,
            }
        },
        None => default_value,
    }
}

/// A `u64` from an environment value: the trimmed value parsed, or the
/// default when it is not set or does not parse.
pub fn env_u64(value: Option<String>, default_value: u64) -> (r: u64)
    ensures
        r == match opt_view(value) {
            Some(v) => match parse_unsigned(trim(v), u64::MAX as nat) {
                Some(n) => n,
                None => default_value as nat,
            },
            None => default_value as nat,
        },
{
    match value {
        Some(v) => {
            let t = string_of(&trim_chars(&chars_of(v.as_str())));
            match parse_u64(t.as_str()) {
                Some(n) => n,
                None => default_value,
            }
        },
        None => default_value,
    }
}

/// The trimmed value, when something is left of it.
pub open spec fn non_empty_trimmed(value: Option<Seq<char>>) -> Option<Seq<char>> {
    match value {
        Some(v) => if trim(v).len() > 0 {
            Some(trim(v))
        } else {
            None
        },
        None => None,
    }
}

fn non_empty_trimmed_exec(value: &Option<String>) -> (r: Option<String>)
    ensures
        opt_view(r) == non_empty_trimmed(opt_view(*value)),
{
    match value {
        Some(v) => {
            let t = trim_chars(&chars_of(v.as_str()));
            if t.len() > 0 {
                Some(string_of(&t))
            } else {
                None
            }
        },
        None => None,
    }
}

/// An environment override, else the stored value as it is.
pub fn env_or_db_string(env_value: Option<String>, db_value: Option<String>) -> (r: Option<
    String,
>)
    ensures
        opt_view(r) == match non_empty_trimmed(opt_view(env_value)) {
            Some(v) => Some(v),
            None => opt_view(db_value),
        },
{
    match non_empty_trimmed_exec(&env_value) {
        Some(v) => Some(v),
        None => db_value,
    }
}

/// The environment override, else the stored value, each trimmed and only
/// when something is left, else the default.
pub fn resolve_string_config(
    env_value: Option<String>,
    db_value: Option<String>,
    default: &str,
) -> (r: String)
    ensures
        r@ == match non_empty_trimmed(opt_view(env_value)) {
            Some(v) => v,
            None => match non_empty_trimmed(opt_view(db_value)) {
                Some(v) => v,
                None => default@,
            },
        },
{
    match non_empty_trimmed_exec(&env_value) {
        Some(v) => v,
        None => match non_empty_trimmed_exec(&db_value) {
            Some(v) => v,
            None => crate::text::str_to_string(default),
        },
    }
}

/// `{key} must be a valid integer`.
pub open spec fn invalid_integer_message(key: Seq<char>) -> Seq<char> {
    key + " must be a valid integer"@
}

fn invalid_integer(key: &str) -> (e: BackendError)
    ensures
        e is Validation,
        e.detail() == invalid_integer_message(key@),
{
    let mut m = crate::text::str_to_string(key);
    m.append(" must be a valid integer");
    BackendError::Validation(m)
}

/// The integer that a configuration string holds.
pub open spec fn parsed_i64(v: Seq<char>) -> Option<int> {
    parse_signed(v, i64::MIN as int, i64::MAX as int)
}

/// A stored integer setting: the stored text parsed, when it parses.
pub fn read_app_config_i64(db_value: Option<String>) -> (r: Option<i64>)
    ensures
        match r {
            Some(n) => opt_view(db_value) matches Some(v) && parsed_i64(v) == Some(n as int),
            None => match opt_view(db_value) {
                Some(v) => parsed_i64(v) is None,
                None => true,
            },
        },
{
    match db_value {
        Some(v) => parse_i64(v.as_str()),
        None => None,
    }
}

/// An integer setting: a set environment value must parse, and wins; else
/// the stored integer; else the default.
pub fn resolve_i64_config(
    env_key: &str,
    env_value: Option<String>,
    db_value: Option<i64>,
    default: i64,
) -> (r: Result<i64, BackendError>)
    ensures
        match non_empty_trimmed(opt_view(env_value)) {
            Some(v) => match parsed_i64(v) {
                Some(n) => r == Ok::<i64, BackendError>(n as i64),
                None => r matches Err(e) && e is Validation && e.detail()
                    == invalid_integer_message(env_key@),
            },
            None => r == Ok::<i64, BackendError>(
                match db_value {
                    Some(n) => n,
                    None => default,
                },
            ),
        },
{
    match non_empty_trimmed_exec(&env_value) {
        Some(v) => match parse_i64(v.as_str()) {
            Some(n) => Ok(n),
            None => Err(invalid_integer(env_key)),
        },
        None => match db_value {
            Some(n) => Ok(n),
            None => Ok(default),
        },
    }
}

/// An integer setting without a default: a set environment value must parse,
/// and wins; else the stored integer, if any.
pub fn env_or_db_i64(env_key: &str, env_value: Option<String>, db_value: Option<i64>) -> (r:
    Result<Option<i64>, BackendError>)
    ensures
        match non_empty_trimmed(opt_view(env_value)) {
            Some(v) => match parsed_i64(v) {
                Some(n) => r == Ok::<Option<i64>, BackendError>(Some(n as i64)),
                None => r matches Err(e) && e is Validation && e.detail()
                    == invalid_integer_message(env_key@),
            },
            None => r == Ok::<Option<i64>, BackendError>(db_value),
        },
{
    match non_empty_trimmed_exec(&env_value) {
        Some(v) => match parse_i64(v.as_str()) {
            Some(n) => Ok(Some(n)),
            None => Err(invalid_integer(env_key)),
        },
        None => Ok(db_value),
    }
}

/// The lower-cased trimmed value, when something is left of it.
pub open spec fn mode_value(value: Option<Seq<char>>) -> Option<Seq<char>> {
    match value {
        Some(v) => if lowercase(trim(v)).len() > 0 {
            Some(lowercase(trim(v)))
        } else {
            None
        },
        None => None,
    }
}

fn mode_value_exec(value: &Option<String>) -> (r: Option<String>)
    ensures
        opt_view(r) == mode_value(opt_view(*value)),
{
    match value {
        Some(v) => {
            let t = lowercase_chars(&trim_chars(&chars_of(v.as_str())));
            if t.len() > 0 {
                Some(string_of(&t))
            } else {
                None
            }
        },
        None => None,
    }
}

/// The Notion sync mode: `NOTION_SYNC_MODE`, else the stored mode, each
/// trimmed and lower-cased, else `page_tree`.
pub fn read_notion_sync_mode(env_value: Option<String>, db_value: Option<String>) -> (r: String)
    ensures
        r@ == match mode_value(opt_view(env_value)) {
            Some(m) => m,
            None => match mode_value(opt_view(db_value)) {
                Some(m) => m,
                None => "page_tree"@,
            },
        },
{
    match mode_value_exec(&env_value) {
        Some(m) => m,
        None => match mode_value_exec(&db_value) {
            Some(m) => m,
            None => crate::text::str_to_string("page_tree"),
        },
    }
}

/// `NOTION_TOKEN is required in current process env`.
pub open spec fn token_required_message() -> Seq<char> {
    "NOTION_TOKEN is required in current process env"@
}

/// A required setting. `NOTION_TOKEN` must come from the process
/// environment itself and is trimmed; any other key may come from the shell
/// fallback and is taken as it is. A missing value is a validation error.
pub fn required_env(key: &str, process_value: Option<String>, fallback_value: Option<String>) -> (r:
    Result<String, BackendError>)
    ensures
        key@ == "NOTION_TOKEN"@ ==> match non_empty_trimmed(opt_view(process_value)) {
            Some(v) => r matches Ok(s) && s@ == v,
            None => r matches Err(e) && e is Validation && e.detail() == token_required_message(),
        },
        key@ != "NOTION_TOKEN"@ ==> match fallback_value {
            Some(v) => r matches Ok(s) && s@ == v@,
            None => r matches Err(e) && e is Validation && e.detail() == key@ + " is required"@,
        },
{
    if crate::text::str_eq(key, "NOTION_TOKEN") {
        match non_empty_trimmed_exec(&process_value) {
            Some(v) => Ok(v),
            None => Err(
                BackendError::Validation(
                    crate::text::str_to_string("NOTION_TOKEN is required in current process env"),
                ),
            ),
        }
    } else {
        match fallback_value {
            Some(v) => Ok(v),
            None => {
                let mut m = crate::text::str_to_string(key);
                m.append(" is required");
                Err(BackendError::Validation(m))
            },
        }
    }
}

} // verus!
