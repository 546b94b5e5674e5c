//! The pure half of the settings-store collaboration: how the stored
//! configuration-directory override is interpreted, and how a new value is
//! written back. The store itself (its file, format and location) is an
//! external collaborator.

use vstd::prelude::*;
use crate::credentials::{is_ws, skip_ws};
use crate::json::{JsonV, JsonValue};
use crate::text;

verus! {

/// End of `s` with trailing whitespace dropped: the least `b <= i` such
/// that everything from `b` to `i` is whitespace.
pub open spec fn trim_end_idx(s: Seq<char>, i: int) -> int
    decreases i,
{
    if i > 0 && i <= s.len() && is_ws(s[i - 1]) {
        trim_end_idx(s, i - 1)
    } else {
        i
    }
}

/// `s` without leading and trailing whitespace.
pub open spec fn trimmed(s: Seq<char>) -> Seq<char> {
    let a = skip_ws(s, 0);
    let b = trim_end_idx(s, s.len() as int);
    if a <= b {
        s.subrange(a, b)
    } else {
        Seq::empty()
    }
}

/// `s` without leading and trailing whitespace.
#[verifier::loop_isolation(false)]
pub fn trim_exec(s: &str) -> (r: String)
    ensures
        r@ == trimmed(s@),
{
    let cs = text::str_to_chars(s);
    let n = cs.len();
    let mut a: usize = 0;
    while a < n && is_ws_exec(cs[a])
        invariant
            a <= n,
            skip_ws(s@, 0) == skip_ws(s@, a as int),
        decreases n - a,
    {
        a += 1;
    }
    proof {
        assert(skip_ws(s@, a as int) == a);
    }
    let mut b: usize = n;
    while b > 0 && is_ws_exec(cs[b - 1])
        invariant
            b <= n,
            trim_end_idx(s@, n as int) == trim_end_idx(s@, b as int),
        decreases b,
    {
        b -= 1;
    }
    proof {
        assert(trim_end_idx(s@, b as int) == b);
    }
    if a <= b {
        String::from_str(s.substring_char(a, b))
    } else {
        String::new()
    }
}

/// Whitespace test.
fn is_ws_exec(c: char) -> (r: bool)
    ensures
        r == is_ws(c),
{
    c == ' ' || c == '\t' || c == '\n' || c == '\r' || c == '\u{b}' || c == '\u{c}' || c
        == '\u{85}' || c == '\u{a0}' || c == '\u{1680}' || ('\u{2000}' <= c && c <= '\u{200a}') || c
        == '\u{2028}' || c == '\u{2029}' || c == '\u{202f}' || c == '\u{205f}' || c == '\u{3000}'
}

/// How a raw path entry resolves against the user's home directory.
#[derive(Debug, Clone, PartialEq, Eq)]
pub enum ResolvedPath {
    /// The entry is exactly `~`: the home directory itself.
    HomeItself,
    /// The entry starts with `~/` or `~\`: the rest, joined under home.
    UnderHome(String),
    /// Anything else: the entry as it stands.
    Verbatim(String),
}

/// Model of a path resolution.
pub enum ResolvedPathV {
    HomeItself,
    UnderHome(Seq<char>),
    Verbatim(Seq<char>),
}

impl View for ResolvedPath {
    type V = ResolvedPathV;

    open spec fn view(&self) -> ResolvedPathV {
        match self {
            ResolvedPath::HomeItself => ResolvedPathV::HomeItself,
            ResolvedPath::UnderHome(s) => ResolvedPathV::UnderHome(s@),
            ResolvedPath::Verbatim(s) => ResolvedPathV::Verbatim(s@),
        }
    }
}

/// How a raw entry resolves: `~` is home, `~/rest` and `~\rest` are `rest`
/// under home, everything else stands as written.
pub open spec fn resolved_model(raw: Seq<char>) -> ResolvedPathV {
    if raw.len() == 1 && raw[0] == '~' {
        ResolvedPathV::HomeItself
    } else if raw.len() >= 2 && raw[0] == '~' && (raw[1] == '/' || raw[1] == '\\') {
        ResolvedPathV::UnderHome(raw.skip(2))
    } else {
        ResolvedPathV::Verbatim(raw)
    }
}

/// Resolves a raw path entry, as `resolved_model` says. The application
/// joins the result against the real home directory (falling back to the
/// verbatim text when there is none).
pub fn resolve_path(raw: &str) -> (r: ResolvedPath)
    ensures
        r@ == resolved_model(raw@),
{
    let n = raw.unicode_len();
    if n == 1 && raw.get_char(0) == '~' {
        return ResolvedPath::HomeItself;
    }
    if n >= 2 && raw.get_char(0) == '~' {
        let c1 = raw.get_char(1);
        if c1 == '/' || c1 == '\\' {
            proof {
                assert(raw@.subrange(2, n as int) =~= raw@.skip(2));
            }
            return ResolvedPath::UnderHome(String::from_str(raw.substring_char(2, n)));
        }
    }
    ResolvedPath::Verbatim(String::from_str(raw))
}

/// The override a stored entry yields: a string entry whose trimmed text is
/// non-empty; anything else (absent, another shape, or blank) is none.
pub open spec fn config_dir_override_model(v: Option<JsonV>) -> Option<Seq<char>> {
    match v {
        Some(JsonV::Str(s)) => if trimmed(s).len() == 0 {
            None
        } else {
            Some(trimmed(s))
        },
        _ => None,
    }
}

/// The configuration-directory override held in a store entry, as
/// `config_dir_override_model` says. The application still rejects a path
/// that does not exist on disk.
pub fn interpret_config_dir_entry(v: Option<&JsonValue>) -> (r: Option<String>)
    ensures
        match r {
            Some(s) => config_dir_override_model(
                match v {
                    Some(x) => Some(x@),
                    None => None,
                },
            ) == Some(s@),
            None => config_dir_override_model(
                match v {
                    Some(x) => Some(x@),
                    None => None,
                },
            ) is None,
        },
{
    match v {
        Some(x) => match x.as_str() {
            Some(s) => {
                let t = trim_exec(s.as_str());
                if t.as_str().is_empty() {
                    None
                } else {
                    Some(t)
                }
            },
            None => None,
        },
        None => None,
    }
}

/// What is written back to the store for a new override value.
#[derive(Debug, Clone, PartialEq, Eq)]
pub enum StoreAction {
    /// Keep this trimmed, non-empty value.
    Put(String),
    /// Delete the entry (the value was absent or blank).
    Remove,
}

/// The store write for a new override: a value whose trimmed text is
/// non-empty is stored trimmed; an absent or blank value deletes the entry.
pub fn config_dir_store_action(path: Option<&str>) -> (r: StoreAction)
    ensures
        match r {
            StoreAction::Put(s) => path is Some && s@ == trimmed(path->0@) && s@.len() > 0,
            StoreAction::Remove => match path {
                Some(p) => trimmed(p@).len() == 0,
                None => true,
            },
        },
{
    match path {
        Some(p) => {
            let t = trim_exec(p);
            if t.as_str().is_empty() {
                StoreAction::Remove
            } else {
                StoreAction::Put(t)
            }
        },
        None => StoreAction::Remove,
    }
}

} // verus!
