//! Credential extraction: maps a provider's configuration blob and a client
//! kind to the `(api key, base URL)` pair the router needs, or a typed
//! failure. For the second client kind the base URL is scanned out of an
//! embedded configuration text: the first `base_url = "..."` (or `'...'`)
//! assignment wins, and a malformed quoted value is an error distinct from a
//! missing one.

use vstd::prelude::*;
use crate::json::{JsonV, get_str, obj_get};
use crate::model::{AppType, Provider};
use crate::text;

verus! {

/// Why credential extraction failed.
#[derive(Debug, Clone, PartialEq, Eq)]
pub enum ExtractionError {
    /// A required field is absent or has the wrong shape; carries the field
    /// name.
    MissingField(String),
    /// The embedded configuration text mentions `base_url` but no well-formed
    /// quoted value follows it.
    MalformedConfig,
}

/// Model of an extraction failure.
pub enum ExtractionErrorV {
    MissingField(Seq<char>),
    MalformedConfig,
}

impl View for ExtractionError {
    type V = ExtractionErrorV;

    open spec fn view(&self) -> ExtractionErrorV {
        match self {
            ExtractionError::MissingField(f) => ExtractionErrorV::MissingField(f@),
            ExtractionError::MalformedConfig => ExtractionErrorV::MalformedConfig,
        }
    }
}

/// Model of an extraction result.
pub open spec fn cred_result_model(r: Result<(String, String), ExtractionError>) -> Result<
    (Seq<char>, Seq<char>),
    ExtractionErrorV,
> {
    match r {
        Ok(p) => Ok((p.0@, p.1@)),
        Err(e) => Err(e@),
    }
}

/// Whitespace, as the Unicode `White_Space` property classifies it.
pub open spec fn is_ws(c: char) -> bool {
    c == ' ' || c == '\t' || c == '\n' || c == '\r' || c == '\u{b}' || c == '\u{c}' || c
        == '\u{85}' || c == '\u{a0}' || c == '\u{1680}' || ('\u{2000}' <= c && c <= '\u{200a}') || c
        == '\u{2028}' || c == '\u{2029}' || c == '\u{202f}' || c == '\u{205f}' || c == '\u{3000}'
}

/// A single or double quote.
pub open spec fn is_quote(c: char) -> bool {
    c == '"' || c == '\''
}

/// First position at or after `i` holding a non-whitespace character, or the
/// end of the sequence.
pub open spec fn skip_ws(s: Seq<char>, i: int) -> int
    decreases s.len() - i,
{
    if i >= s.len() {
        i
    } else if is_ws(s[i]) {
        skip_ws(s, i + 1)
    } else {
        i
    }
}

/// First position at or after `i` holding a quote character, or the end of
/// the sequence.
pub open spec fn quote_end(s: Seq<char>, i: int) -> int
    decreases s.len() - i,
{
    if i >= s.len() {
        i
    } else if is_quote(s[i]) {
        i
    } else {
        quote_end(s, i + 1)
    }
}

/// The `base_url` assignment pattern anchored at position `i`: the token,
/// optional whitespace, `=`, optional whitespace, a quote, one or more
/// non-quote characters, a quote. Returns the capture's bounds.
pub open spec fn match_at(s: Seq<char>, i: int) -> Option<(int, int)> {
    if !text::occurs_at(s, "base_url"@, i) {
        None
    } else {
        let j = skip_ws(s, i + "base_url"@.len());
        if j < s.len() && s[j] == '=' {
            let k = skip_ws(s, j + 1);
            if k < s.len() && is_quote(s[k]) {
                let e = quote_end(s, k + 1);
                if k + 1 < e && e < s.len() {
                    Some((k + 1, e))
                } else {
                    None
                }
            } else {
                None
            }
        } else {
            None
        }
    }
}

/// Position of the leftmost `base_url` assignment match at or after `from`.
pub open spec fn first_base_url_pos(s: Seq<char>, from: int) -> Option<int>
    decreases s.len() - from,
{
    if from + 1 > s.len() || from + "base_url"@.len() > s.len() {
        None
    } else if match_at(s, from) is Some {
        Some(from)
    } else {
        first_base_url_pos(s, from + 1)
    }
}

/// The captured value of the leftmost `base_url` assignment, if any.
pub open spec fn base_url_capture(s: Seq<char>) -> Option<Seq<char>> {
    match first_base_url_pos(s, 0) {
        Some(i) => match match_at(s, i) {
            Some(c) => Some(s.subrange(c.0, c.1)),
            None => None,
        },
        None => None,
    }
}

/// Credentials of a provider configured for the first client kind: the two
/// named strings under the `env` object.
pub open spec fn claude_credentials(cfg: JsonV) -> Result<
    (Seq<char>, Seq<char>),
    ExtractionErrorV,
> {
    match obj_get(cfg, "env"@) {
        Some(env) => if !(env is Obj) {
            Err(ExtractionErrorV::MissingField("env"@))
        } else {
            match get_str(env, "ANTHROPIC_AUTH_TOKEN"@) {
                Some(key) => match get_str(env, "ANTHROPIC_BASE_URL"@) {
                    Some(url) => Ok((key, url)),
                    None => Err(ExtractionErrorV::MissingField("ANTHROPIC_BASE_URL"@)),
                },
                None => Err(ExtractionErrorV::MissingField("ANTHROPIC_AUTH_TOKEN"@)),
            }
        },
        None => Err(ExtractionErrorV::MissingField("env"@)),
    }
}

/// Credentials of a provider configured for the second client kind: the key
/// under the `auth` object, and the base URL scanned out of the embedded
/// `config` text.
pub open spec fn codex_credentials(cfg: JsonV) -> Result<(Seq<char>, Seq<char>), ExtractionErrorV> {
    match obj_get(cfg, "auth"@) {
        Some(auth) => if !(auth is Obj) {
            Err(ExtractionErrorV::MissingField("auth"@))
        } else {
            match get_str(auth, "OPENAI_API_KEY"@) {
                Some(key) => {
                    let cfg_text = match get_str(cfg, "config"@) {
                        Some(t) => t,
                        None => Seq::empty(),
                    };
                    if !text::contains_seq(cfg_text, "base_url"@) {
                        Err(ExtractionErrorV::MissingField("base_url"@))
                    } else {
                        match base_url_capture(cfg_text) {
                            Some(url) => Ok((key, url)),
                            None => Err(ExtractionErrorV::MalformedConfig),
                        }
                    }
                },
                None => Err(ExtractionErrorV::MissingField("OPENAI_API_KEY"@)),
            }
        },
        None => Err(ExtractionErrorV::MissingField("auth"@)),
    }
}

/// Credentials of a provider for either client kind.
pub open spec fn extracted_credentials(cfg: JsonV, app_type: AppType) -> Result<
    (Seq<char>, Seq<char>),
    ExtractionErrorV,
> {
    match app_type {
        AppType::Claude => claude_credentials(cfg),
        AppType::Codex => codex_credentials(cfg),
    }
}

/// Whitespace test.
fn is_ws_exec(c: char) -> (r: bool)
    ensures
        r == is_ws(c),
{
    c == ' ' || c == '\t' || c == '\n' || c == '\r' || c == '\u{b}' || c == '\u{c}' || c
        == '\u{85}' || c == '\u{a0}' || c == '\u{1680}' || ('\u{2000}' <= c && c <= '\u{200a}') || c
        == '\u{2028}' || c == '\u{2029}' || c == '\u{202f}' || c == '\u{205f}' || c == '\u{3000}'
}

/// Quote test.
fn is_quote_exec(c: char) -> (r: bool)
    ensures
        r == is_quote(c),
{
    c == '"' || c == '\''
}

/// The `base_url` assignment pattern checked at one position.
#[verifier::loop_isolation(false)]
fn try_match_at(cs: &Vec<char>, pat: &Vec<char>, i: usize) -> (r: Option<(usize, usize)>)
    requires
        pat@ == "base_url"@,
        i + pat@.len() <= cs@.len() <= usize::MAX,
    ensures
        match r {
            Some(c) => match_at(cs@, i as int) == Some((c.0 as int, c.1 as int)) && i < c.0 < c.1
                < cs@.len(),
            None => match_at(cs@, i as int) is None,
        },
{
    let mut t: usize = 0;
    while t < pat.len() && cs[i + t] == pat[t]
        invariant
            t <= pat@.len(),
            forall|x: int| 0 <= x < t ==> cs@[i + x] == pat@[x],
        decreases pat@.len() - t,
    {
        t += 1;
    }
    if t < pat.len() {
        proof {
            assert(!text::occurs_at(cs@, "base_url"@, i as int)) by {
                if text::occurs_at(cs@, "base_url"@, i as int) {
                    assert(cs@.subrange(i as int, i + "base_url"@.len())[t as int] == "base_url"@[t as int]);
                }
            }
        }
        return None;
    }
    proof {
        assert(cs@.subrange(i as int, i + "base_url"@.len()) =~= pat@);
        assert(text::occurs_at(cs@, "base_url"@, i as int));
    }
    let mut j: usize = i + pat.len();
    while j < cs.len() && is_ws_exec(cs[j])
        invariant
            i + pat@.len() <= j <= cs@.len(),
            skip_ws(cs@, i + pat@.len()) == skip_ws(cs@, j as int),
        decreases cs@.len() - j,
    {
        j += 1;
    }
    proof {
        assert(skip_ws(cs@, i + pat@.len()) == j);
    }
    if j >= cs.len() || cs[j] != '=' {
        return None;
    }
    let mut k: usize = j + 1;
    while k < cs.len() && is_ws_exec(cs[k])
        invariant
            j + 1 <= k <= cs@.len(),
            skip_ws(cs@, j + 1) == skip_ws(cs@, k as int),
        decreases cs@.len() - k,
    {
        k += 1;
    }
    proof {
        assert(skip_ws(cs@, j + 1) == k);
    }
    if k >= cs.len() || !is_quote_exec(cs[k]) {
        return None;
    }
    let mut e: usize = k + 1;
    while e < cs.len() && !is_quote_exec(cs[e])
        invariant
            k + 1 <= e <= cs@.len(),
            quote_end(cs@, k + 1) == quote_end(cs@, e as int),
        decreases cs@.len() - e,
    {
        e += 1;
    }
    proof {
        assert(quote_end(cs@, k + 1) == e);
    }
    if e < cs.len() && e > k + 1 {
        Some((k + 1, e))
    } else {
        None
    }
}

/// Bounds of the value captured by the leftmost `base_url` assignment.
#[verifier::loop_isolation(false)]
pub fn scan_base_url(cs: &Vec<char>) -> (r: Option<(usize, usize)>)
    ensures
        match r {
            Some(c) => c.0 < c.1 < cs@.len() && base_url_capture(cs@) == Some(
                cs@.subrange(c.0 as int, c.1 as int),
            ),
            None => base_url_capture(cs@) is None,
        },
{
    let pat = text::str_to_chars("base_url");
    proof {
        reveal_strlit("base_url");
    }
    let mut i: usize = 0;
    while i <= cs.len() && pat.len() <= cs.len() - i
        invariant
            pat@ == "base_url"@,
            first_base_url_pos(cs@, 0) == first_base_url_pos(cs@, i as int),
        decreases cs@.len() + 1 - i,
    {
        let m = try_match_at(cs, &pat, i);
        match m {
            Some(c) => {
                proof {
                    assert(first_base_url_pos(cs@, i as int) == Some(i as int));
                }
                return Some(c);
            },
            None => {
                proof {
                    assert(first_base_url_pos(cs@, i as int) == first_base_url_pos(
                        cs@,
                        i as int + 1,
                    ));
                }
                i += 1;
            },
        }
    }
    proof {
        assert(first_base_url_pos(cs@, i as int) is None);
    }
    None
}

/// Tests whether a value is an object.
fn value_is_obj(v: &crate::json::JsonValue) -> (r: bool)
    ensures
        r == (v@ is Obj),
{
    match v {
        crate::json::JsonValue::Obj(_) => true,
        _ => false,
    }
}

/// `(api key, base URL)` of a provider for the given client kind, or the
/// typed extraction failure `extracted_credentials` describes.
pub fn extract_provider_credentials(provider: &Provider, app_type: AppType) -> (r: Result<
    (String, String),
    ExtractionError,
>)
    ensures
        cred_result_model(r) == extracted_credentials(provider.settings_config@, app_type),
{
    match app_type {
        AppType::Claude => {
            let env = match provider.settings_config.get("env") {
                Some(v) => v,
                None => {
                    return Err(ExtractionError::MissingField(String::from_str("env")));
                },
            };
            if !value_is_obj(env) {
                return Err(ExtractionError::MissingField(String::from_str("env")));
            }
            let key = match env.get("ANTHROPIC_AUTH_TOKEN") {
                Some(v) => match v.as_str() {
                    Some(s) => s.clone(),
                    None => {
                        return Err(ExtractionError::MissingField(
                            String::from_str("ANTHROPIC_AUTH_TOKEN"),
                        ));
                    },
                },
                None => {
                    return Err(ExtractionError::MissingField(
                        String::from_str("ANTHROPIC_AUTH_TOKEN"),
                    ));
                },
            };
            let url = match env.get("ANTHROPIC_BASE_URL") {
                Some(v) => match v.as_str() {
                    Some(s) => s.clone(),
                    None => {
                        return Err(ExtractionError::MissingField(
                            String::from_str("ANTHROPIC_BASE_URL"),
                        ));
                    },
                },
                None => {
                    return Err(ExtractionError::MissingField(
                        String::from_str("ANTHROPIC_BASE_URL"),
                    ));
                },
            };
            Ok((key, url))
        },
        AppType::Codex => {
            let auth = match provider.settings_config.get("auth") {
                Some(v) => v,
                None => {
                    return Err(ExtractionError::MissingField(String::from_str("auth")));
                },
            };
            if !value_is_obj(auth) {
                return Err(ExtractionError::MissingField(String::from_str("auth")));
            }
            let key = match auth.get("OPENAI_API_KEY") {
                Some(v) => match v.as_str() {
                    Some(s) => s.clone(),
                    None => {
                        return Err(ExtractionError::MissingField(
                            String::from_str("OPENAI_API_KEY"),
                        ));
                    },
                },
                None => {
                    return Err(ExtractionError::MissingField(String::from_str("OPENAI_API_KEY")));
                },
            };
            let cfg_str: &str = match provider.settings_config.get("config") {
                Some(v) => match v.as_str() {
                    Some(s) => s.as_str(),
                    None => "",
                },
                None => "",
            };
            proof {
                reveal_strlit("");
                assert(""@ =~= Seq::<char>::empty());
            }
            let cs = text::str_to_chars(cfg_str);
            let pat = text::str_to_chars("base_url");
            proof {
                reveal_strlit("base_url");
            }
            if !text::contains_chars(&cs, &pat) {
                return Err(ExtractionError::MissingField(String::from_str("base_url")));
            }
            match scan_base_url(&cs) {
                Some(c) => {
                    let url = String::from_str(cfg_str.substring_char(c.0, c.1));
                    Ok((key, url))
                },
                None => Err(ExtractionError::MalformedConfig),
            }
        },
    }
}

} // verus!
