//! Reading the bot's settings from environment variables and secret files.
//! The environment and the files are read by the caller; these functions
//! decide what the values mean.

use vstd::prelude::*;
use crate::text::{chars_of, push_str};

verus! {

/// `std::io::Error`, the error of reading a secret file.
#[verifier::external_type_specification]
#[verifier::external_body]
pub struct ExIoError(std::io::Error);

/// Why the settings could not be read.
pub enum ConfigError {
    /// Neither the variable nor its secret file is set.
    MissingVar(String),
    /// The variable does not parse.
    BadVar(String),
    /// The secret file does not parse.
    BadSecret(String),
    /// The secret file could not be read.
    SecretIO(std::io::Error),
}

/// The value of a decimal digit character, if it is one.
pub open spec fn digit_value(c: char) -> Option<int> {
    if 48 <= (c as int) <= 57 {
        Some(c as int - 48)
    } else {
        None
    }
}

/// Whether every character is a decimal digit.
pub open spec fn all_digits(s: Seq<char>) -> bool {
    forall|i: int| 0 <= i < s.len() ==> #[trigger] digit_value(s[i]) is Some
}

/// The number written by decimal digits.
pub open spec fn digits_value(s: Seq<char>) -> int
    decreases s.len(),
{
    if s.len() == 0 {
        0
    } else {
        digits_value(s.drop_last()) * 10 + match digit_value(s.last()) {
            Some(d) => d,
            None => 0,
        }
    }
}

/// What `i64::from_str` accepts: an optional `+` or `-` and at least one
/// decimal digit, nothing else, with a value that fits.
pub open spec fn i64_from_str(s: Seq<char>) -> Option<i64> {
    let neg = s.len() > 0 && s[0] == '-';
    let body = if s.len() > 0 && (s[0] == '-' || s[0] == '+') { s.skip(1) } else { s };
    let v = if neg { -digits_value(body) } else { digits_value(body) };
    if body.len() == 0 || !all_digits(body) || v < i64::MIN || v > i64::MAX {
        None
    } else {
        Some(v as i64)
    }
}

proof fn lemma_digits_value_nonneg(s: Seq<char>)
    ensures
        digits_value(s) >= 0,
    decreases s.len(),
{
    if s.len() > 0 {
        lemma_digits_value_nonneg(s.drop_last());
    }
}

/// Parses a decimal integer as `i64::from_str` does.
pub fn parse_i64(s: &str) -> (r: Option<i64>)
    ensures
        r == i64_from_str(s@),
{
    let cs = chars_of(s);
    let neg = cs.len() > 0 && cs[0] == '-';
    let start: usize = if cs.len() > 0 && (cs[0] == '-' || cs[0] == '+') { 1 } else { 0 };
    let ghost body = if s@.len() > 0 && (s@[0] == '-' || s@[0] == '+') { s@.skip(1) } else { s@ };
    assert(body =~= s@.skip(start as int));
    if start >= cs.len() {
        return None;
    }
    let limit: u64 = 9223372036854775808;
    let mut acc: u64 = 0;
    let mut over = false;
    let mut i = start;
    while i < cs.len()
        invariant
            cs@ == s@,
            limit == 9223372036854775808u64,
            body == s@.skip(start as int),
            body == (if s@.len() > 0 && (s@[0] == '-' || s@[0] == '+') { s@.skip(1) } else { s@ }),
            start <= i <= cs.len(),
            all_digits(body.take(i - start)),
            over ==> digits_value(body.take(i - start)) > limit,
            !over ==> acc == digits_value(body.take(i - start)) && acc <= limit,
        decreases cs.len() - i,
    {
        let c = cs[i];
        assert(body[i - start] == c);
        let code = crate::text::char_code(c);
        if code < 48 || code > 57 {
            assert(!all_digits(body)) by {
                assert(digit_value(body[i - start]) is None);
            }
            return None;
        }
        let d = (code - 48) as u64;
        assert(d <= 9);
        proof {
            let pre = body.take(i - start);
            let next = body.take(i - start + 1);
            assert(next.drop_last() =~= pre);
            assert(next.last() == c);
            assert forall|k: int| 0 <= k < next.len() implies #[trigger] digit_value(next[k]) is Some by {
                if k < pre.len() {
                    assert(next[k] == pre[k]);
                }
            }
            lemma_digits_value_nonneg(pre);
        }
        if !over {
            if acc > (limit - d) / 10 {
                over = true;
            } else {
                acc = acc * 10 + d;
            }
        }
        i = i + 1;
    }
    assert(body.take(cs.len() - start) =~= body);
    if over {
        return None;
    }
    if neg {
        if acc == limit {
            Some(i64::MIN)
        } else {
            Some(-(acc as i64))
        }
    } else {
        if acc == limit {
            None
        } else {
            Some(acc as i64)
        }
    }
}

/// The result of reading a variable that has a default: the default when it
/// is unset, the parsed value when it parses, `BadVar` otherwise. `raw` is
/// `None` when the variable is unset, and `Some(None)` when it did not parse.
pub open spec fn resolved<T>(var: Seq<char>, raw: Option<Option<T>>, default: T) -> Result<T, Seq<char>> {
    match raw {
        None => Ok(default),
        Some(Some(v)) => Ok(v),
        Some(None) => Err(var),
    }
}

/// `BadVar(var)` seen as the variable's name.
pub open spec fn bad_var_name<T>(r: Result<T, ConfigError>) -> Result<T, Seq<char>> {
    match r {
        Ok(v) => Ok(v),
        Err(ConfigError::BadVar(n)) => Err(n@),
        Err(_) => Err(Seq::empty()),
    }
}

fn owned(s: &str) -> (r: String)
    ensures
        r@ == s@,
{
    let mut r = String::new();
    push_str(&mut r, s);
    r
}

/// Reads a variable with a default, given what parsing its value gave.
pub fn var_or_default<T>(var: &str, raw: Option<Option<T>>, default: T) -> (r: Result<T, ConfigError>)
    ensures
        bad_var_name(r) == resolved(var@, raw, default),
        r is Err ==> r->Err_0 is BadVar,
{
    match raw {
        None => Ok(default),
        Some(Some(v)) => Ok(v),
        Some(None) => Err(ConfigError::BadVar(owned(var))),
    }
}

/// Reads an integer variable with a default; `value` is the variable's value
/// if it is set.
pub fn var_or_default_i64(var: &str, value: Option<String>, default: i64) -> (r: Result<i64, ConfigError>)
    ensures
        bad_var_name(r) == resolved(
            var@,
            match value {
                Some(s) => Some(i64_from_str(s@)),
                None => None,
            },
            default,
        ),
        r is Err ==> r->Err_0 is BadVar,
{
    let raw = match value {
        Some(s) => Some(parse_i64(s.as_str())),
        None => None,
    };
    var_or_default(var, raw, default)
}

/// The list of `u64` that `serde_json::from_str::<Vec<u64>>` reads from a text,
/// if it reads one.
pub uninterp spec fn json_u64_list(s: Seq<char>) -> Option<Seq<u64>>;

/// Calls `serde_json::from_str::<Vec<u64>>`; what it accepts is left to the
/// name `json_u64_list`.
#[verifier::external_body]
fn parse_json_u64_list(s: &str) -> (r: Option<Vec<u64>>)
    ensures
        match r {
            Some(v) => json_u64_list(s@) == Some(v@),
            None => json_u64_list(s@) is None,
        },
{
    serde_json::from_str::<Vec<u64>>(s).ok()
}

/// Reads a list of ids written as a JSON array; an unset variable is the
/// empty list.
pub fn var_list(var: &str, value: Option<String>) -> (r: Result<Vec<u64>, ConfigError>)
    ensures
        match value {
            None => r matches Ok(v) && v@.len() == 0,
            Some(s) => match json_u64_list(s@) {
                Some(l) => r matches Ok(v) && v@ == l,
                None => r matches Err(ConfigError::BadVar(n)) && n@ == var@,
            },
        },
{
    match value {
        None => Ok(Vec::new()),
        Some(s) => match parse_json_u64_list(s.as_str()) {
            Some(l) => Ok(l),
            None => Err(ConfigError::BadVar(owned(var))),
        },
    }
}

/// Where a secret comes from.
pub enum SecretSource {
    /// The variable holds it.
    Value(String),
    /// It is the content of the file at this path.
    File(String),
}

/// `"{var} or {secret_var}"`, the name reported when neither is set.
pub open spec fn either_name(var: Seq<char>, secret_var: Seq<char>) -> Seq<char> {
    var + " or "@ + secret_var
}

/// Where a secret comes from: the variable `var` if it is set, else the file
/// named by the variable `secret_var`; `MissingVar` when neither is set.
pub fn secret_source(
    var: &str,
    secret_var: &str,
    value: Option<String>,
    secret_path: Option<String>,
) -> (r: Result<SecretSource, ConfigError>)
    ensures
        match (value, secret_path) {
            (Some(v), _) => r matches Ok(SecretSource::Value(x)) && x == v,
            (None, Some(p)) => r matches Ok(SecretSource::File(x)) && x == p,
            (None, None) => r matches Err(ConfigError::MissingVar(n)) && n@ == either_name(var@, secret_var@),
        },
{
    match value {
        Some(v) => Ok(SecretSource::Value(v)),
        None => match secret_path {
            Some(p) => Ok(SecretSource::File(p)),
            None => {
                let mut n = String::new();
                push_str(&mut n, var);
                push_str(&mut n, " or ");
                push_str(&mut n, secret_var);
                Err(ConfigError::MissingVar(n))
            },
        },
    }
}

/// The secret read from a file: its whole content, or `SecretIO` when it
/// could not be read.
pub fn secret_from_file(contents: Result<String, std::io::Error>) -> (r: Result<String, ConfigError>)
    ensures
        match contents {
            Ok(c) => r matches Ok(x) && x == c,
            Err(e) => r matches Err(ConfigError::SecretIO(x)) && x == e,
        },
{
    match contents {
        Ok(c) => Ok(c),
        Err(e) => Err(ConfigError::SecretIO(e)),
    }
}


/// Whether text-to-speech is set up: it needs a Piper server, and then also a
/// database; a Piper server without a database is `MissingVar("POSTGRES_URL")`.
pub fn tts_enabled(has_piper_server: bool, has_postgres_url: bool) -> (r: Result<bool, ConfigError>)
    ensures
        match r {
            Ok(b) => b == has_piper_server && (has_piper_server ==> has_postgres_url),
            Err(ConfigError::MissingVar(n)) => has_piper_server && !has_postgres_url && n@
                == "POSTGRES_URL"@,
            Err(_) => false,
        },
{
    if has_piper_server {
        if !has_postgres_url {
            return Err(ConfigError::MissingVar(owned("POSTGRES_URL")));
        }
        Ok(true)
    } else {
        Ok(false)
    }
}

} // verus!
