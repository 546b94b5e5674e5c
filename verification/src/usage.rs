//! The pure half of the usage-script executor. The surrounding application
//! evaluates the user's script twice in fresh interpreter instances and
//! performs the HTTP call; everything decidable from plain values lives
//! here: placeholder substitution, the request-descriptor shape, the
//! response gate with its truncated preview, and validation of the extracted
//! usage value.

use vstd::prelude::*;
use crate::json::{JsonV, JsonValue, get_str, jv_entries, jv_seq, lemma_jv_entries, lemma_jv_seq,
    obj_get};
use crate::text;

verus! {

/// Replacement of every occurrence of `pat` in `s` by `sub`, left to right,
/// non-overlapping.
pub open spec fn replace_all(s: Seq<char>, pat: Seq<char>, sub: Seq<char>) -> Seq<char>
    decreases s.len(),
{
    if pat.len() == 0 || s.len() == 0 {
        s
    } else if text::occurs_at(s, pat, 0) {
        sub + replace_all(s.skip(pat.len() as int), pat, sub)
    } else {
        seq![s[0]] + replace_all(s.skip(1), pat, sub)
    }
}

/// The script source with the two placeholders substituted: first every
/// `{{apiKey}}`, then every `{{baseUrl}}` in the result.
pub open spec fn substituted_script(
    code: Seq<char>,
    api_key: Seq<char>,
    base_url: Seq<char>,
) -> Seq<char> {
    replace_all(replace_all(code, "{{apiKey}}"@, api_key), "{{baseUrl}}"@, base_url)
}

/// Whether `pat` occurs in `cs` at position `i`.
fn matches_at(cs: &Vec<char>, pat: &Vec<char>, i: usize) -> (r: bool)
    ensures
        r == text::occurs_at(cs@, pat@, i as int),
{
    if i > cs.len() || pat.len() > cs.len() - i {
        return false;
    }
    let mut j: usize = 0;
    while j < pat.len()
        invariant
            j <= pat@.len(),
            i + pat@.len() <= cs@.len() <= usize::MAX,
            forall|t: int| 0 <= t < j ==> cs@[i + t] == pat@[t],
        decreases pat@.len() - j,
    {
        if cs[i + j] != pat[j] {
            proof {
                assert(!text::occurs_at(cs@, pat@, i as int)) by {
                    if text::occurs_at(cs@, pat@, i as int) {
                        assert(cs@.subrange(i as int, i + pat@.len())[j as int] == pat@[j as int]);
                    }
                }
            }
            return false;
        }
        j += 1;
    }
    proof {
        assert(cs@.subrange(i as int, i + pat@.len()) =~= pat@);
    }
    true
}

/// `s` with every occurrence of `pat` replaced by `sub`.
#[verifier::loop_isolation(false)]
pub fn replace_all_exec(s: &str, pat: &str, sub: &str) -> (r: String)
    ensures
        r@ == replace_all(s@, pat@, sub@),
{
    let cs = text::str_to_chars(s);
    let patv = text::str_to_chars(pat);
    let n = cs.len();
    if patv.len() == 0 {
        return String::from_str(s);
    }
    let mut out = String::new();
    proof {
        assert(s@.skip(0) =~= s@);
        assert(Seq::<char>::empty() + replace_all(s@, pat@, sub@) =~= replace_all(s@, pat@, sub@));
    }
    let mut i: usize = 0;
    while i < n
        invariant
            i <= n,
            replace_all(s@, pat@, sub@) == out@ + replace_all(s@.skip(i as int), pat@, sub@),
        decreases n - i,
    {
        if matches_at(&cs, &patv, i) {
            let ghost prev_out = out@;
            proof {
                let tail = s@.skip(i as int);
                assert(tail.subrange(0, pat@.len() as int) =~= s@.subrange(
                    i as int,
                    i + pat@.len(),
                ));
                assert(text::occurs_at(tail, pat@, 0));
                assert(tail.skip(pat@.len() as int) =~= s@.skip(i + pat@.len()));
            }
            out.append(sub);
            i = i + pat.unicode_len();
            proof {
                assert((prev_out + sub@) + replace_all(s@.skip(i as int), pat@, sub@)
                    =~= prev_out + (sub@ + replace_all(s@.skip(i as int), pat@, sub@)));
            }
        } else {
            let ghost prev_out = out@;
            proof {
                let tail = s@.skip(i as int);
                assert(tail.len() > 0);
                assert(!text::occurs_at(tail, pat@, 0)) by {
                    if text::occurs_at(tail, pat@, 0) {
                        assert(s@.subrange(i as int, i + pat@.len()) =~= tail.subrange(
                            0,
                            pat@.len() as int,
                        ));
                        assert(text::occurs_at(s@, pat@, i as int));
                    }
                }
                assert(tail[0] == s@[i as int]);
                assert(tail.skip(1) =~= s@.skip(i + 1));
            }
            out.append(s.substring_char(i, i + 1));
            i = i + 1;
            proof {
                assert(s@.subrange(i - 1, i as int) =~= seq![s@[i - 1]]);
                assert((prev_out + seq![s@[i - 1]]) + replace_all(s@.skip(i as int), pat@, sub@)
                    =~= prev_out + (seq![s@[i - 1]] + replace_all(s@.skip(i as int), pat@, sub@)));
            }
        }
    }
    proof {
        assert(s@.skip(n as int) =~= Seq::<char>::empty());
        assert(out@ + Seq::<char>::empty() =~= out@);
    }
    out
}

/// The script source with the provider's API key and base URL substituted
/// for the two placeholder tokens.
pub fn substitute_placeholders(code: &str, api_key: &str, base_url: &str) -> (r: String)
    ensures
        r@ == substituted_script(code@, api_key@, base_url@),
{
    let pass1 = replace_all_exec(code, "{{apiKey}}", api_key);
    replace_all_exec(pass1.as_str(), "{{baseUrl}}", base_url)
}

/// Failures of the usage-script pipeline decided here.
#[derive(Debug, Clone, PartialEq, Eq)]
pub enum UsageError {
    /// The script's configuration value does not describe a usable request.
    RequestShape,
    /// The HTTP call came back without success; carries the status and a
    /// truncated body preview.
    Http { status: u16, preview: String },
}

/// The transport-neutral request descriptor a script's `request` field must
/// reduce to.
#[derive(Debug, Clone, PartialEq, Eq)]
pub struct RequestConfig {
    pub url: String,
    pub method: String,
    /// Header map; absent in the script means empty.
    pub headers: Vec<(String, String)>,
    /// Optional body text; `null` and absence both mean none.
    pub body: Option<String>,
}

/// Header entries read from a descriptor object: every value must be a
/// string.
pub open spec fn header_entries(es: Seq<(Seq<char>, JsonV)>) -> Option<Seq<(Seq<char>, Seq<char>)>>
    decreases es.len(),
{
    if es.len() == 0 {
        Some(Seq::empty())
    } else {
        match (header_entries(es.drop_last()), es.last().1) {
            (Some(hs), JsonV::Str(s)) => Some(hs.push((es.last().0, s))),
            _ => None,
        }
    }
}

/// Model of a parsed request descriptor.
pub open spec fn request_model(v: JsonV) -> Option<
    (Seq<char>, Seq<char>, Seq<(Seq<char>, Seq<char>)>, Option<Seq<char>>),
> {
    if !(v is Obj) {
        None
    } else {
        match (get_str(v, "url"@), get_str(v, "method"@)) {
            (Some(url), Some(method)) => {
                let headers = match obj_get(v, "headers"@) {
                    Some(h) => match h {
                        JsonV::Obj(es) => header_entries(es),
                        _ => None,
                    },
                    None => Some(Seq::empty()),
                };
                let body = match obj_get(v, "body"@) {
                    Some(JsonV::Str(b)) => Some(Some(b)),
                    Some(JsonV::Null) => Some(None),
                    Some(_) => None,
                    None => Some(None),
                };
                match (headers, body) {
                    (Some(hs), Some(b)) => Some((url, method, hs, b)),
                    _ => None,
                }
            },
            _ => None,
        }
    }
}

/// Models of an exec header vector.
pub open spec fn header_pairs_model(hs: Seq<(String, String)>) -> Seq<(Seq<char>, Seq<char>)>
    decreases hs.len(),
{
    if hs.len() == 0 {
        Seq::empty()
    } else {
        header_pairs_model(hs.drop_last()).push((hs.last().0@, hs.last().1@))
    }
}

/// Parses a script's `request` value into the request descriptor, exactly
/// when `request_model` accepts it.
#[verifier::loop_isolation(false)]
pub fn parse_request_config(v: &JsonValue) -> (r: Result<RequestConfig, UsageError>)
    ensures
        match r {
            Ok(rc) => request_model(v@) == Some(
                (rc.url@, rc.method@, header_pairs_model(rc.headers@), match rc.body {
                    Some(b) => Some(b@),
                    None => None,
                }),
            ),
            Err(e) => request_model(v@) is None && e is RequestShape,
        },
{
    let is_obj = match v {
        JsonValue::Obj(_) => true,
        _ => false,
    };
    if !is_obj {
        return Err(UsageError::RequestShape);
    }
    let url = match v.get("url") {
        Some(x) => match x.as_str() {
            Some(s) => s.clone(),
            None => {
                return Err(UsageError::RequestShape);
            },
        },
        None => {
            return Err(UsageError::RequestShape);
        },
    };
    let method = match v.get("method") {
        Some(x) => match x.as_str() {
            Some(s) => s.clone(),
            None => {
                return Err(UsageError::RequestShape);
            },
        },
        None => {
            return Err(UsageError::RequestShape);
        },
    };
    let mut headers: Vec<(String, String)> = Vec::new();
    match v.get("headers") {
        Some(h) => {
            match h {
                JsonValue::Obj(es) => {
                    proof {
                        lemma_jv_entries(es@);
                    }
                    let ghost em = jv_entries(es@);
                    let mut i: usize = 0;
                    while i < es.len()
                        invariant
                            i <= es@.len(),
                            header_entries(em.take(i as int)) == Some(
                                header_pairs_model(headers@),
                            ),
                        decreases es@.len() - i,
                    {
                        proof {
                            assert(em.take(i + 1).drop_last() =~= em.take(i as int));
                            assert(em.take(i + 1).last() == em[i as int]);
                        }
                        let value = match es[i].1.as_str() {
                            Some(s) => s.clone(),
                            None => {
                                proof {
                                    lemma_header_entries_bad(em, i as int);
                                }
                                return Err(UsageError::RequestShape);
                            },
                        };
                        let ghost prev = headers@;
                        let name = es[i].0.clone();
                        headers.push((name, value));
                        proof {
                            assert(headers@.drop_last() =~= prev);
                        }
                        i += 1;
                    }
                    proof {
                        assert(em.take(em.len() as int) =~= em);
                    }
                },
                _ => {
                    return Err(UsageError::RequestShape);
                },
            }
        },
        None => {},
    }
    let body: Option<String> = match v.get("body") {
        Some(b) => match b {
            JsonValue::Str(s) => Some(s.clone()),
            JsonValue::Null => None,
            _ => {
                return Err(UsageError::RequestShape);
            },
        },
        None => None,
    };
    Ok(RequestConfig { url, method, headers, body })
}

/// A prefix with a bad value poisons the whole header object.
proof fn lemma_header_entries_bad(es: Seq<(Seq<char>, JsonV)>, i: int)
    requires
        0 <= i < es.len(),
        !(es[i].1 is Str),
    ensures
        header_entries(es) is None,
    decreases es.len(),
{
    if i < es.len() - 1 {
        lemma_header_entries_bad(es.drop_last(), i);
    }
}

/// An HTTP status counts as success in the 2xx range.
pub open spec fn http_success(status: u16) -> bool {
    200 <= status < 300
}

/// The failure preview: at most 200 characters of the body, marked when
/// truncated.
pub open spec fn preview_of(body: Seq<char>) -> Seq<char> {
    if body.len() > 200 {
        body.take(200) + "..."@
    } else {
        body
    }
}

/// Gate on the HTTP response between the two script passes: any non-2xx
/// status is a hard failure carrying the truncated body preview.
pub fn accept_http_response(status: u16, body: &str) -> (r: Result<(), UsageError>)
    ensures
        match r {
            Ok(_) => http_success(status),
            Err(e) => !http_success(status) && (match e {
                UsageError::Http { status: s, preview } => s == status && preview@ == preview_of(
                    body@,
                ),
                _ => false,
            }),
        },
{
    if 200 <= status && status < 300 {
        Ok(())
    } else {
        let n = body.unicode_len();
        let preview = if n > 200 {
            let mut p = String::from_str(body.substring_char(0, 200));
            p.append("...");
            proof {
                assert(body@.subrange(0, 200) =~= body@.take(200));
            }
            p
        } else {
            String::from_str(body)
        };
        Err(UsageError::Http { status, preview })
    }
}

/// Why a usage value failed validation.
#[derive(Debug, Clone, PartialEq, Eq)]
pub enum ValidationError {
    /// The value, or the array element at the index, is not an object.
    NotAnObject { index: Option<usize> },
    /// The returned array is empty.
    EmptyArray,
    /// A recognized field holds the wrong type; names the field and, for
    /// array input, the element index.
    WrongType { index: Option<usize>, field: String },
}

/// Model of a validation failure.
pub enum ValidationErrorV {
    NotAnObject { index: Option<int> },
    EmptyArray,
    WrongType { index: Option<int>, field: Seq<char> },
}

impl View for ValidationError {
    type V = ValidationErrorV;

    open spec fn view(&self) -> ValidationErrorV {
        match self {
            ValidationError::NotAnObject { index } => ValidationErrorV::NotAnObject {
                index: match index {
                    Some(i) => Some(*i as int),
                    None => None,
                },
            },
            ValidationError::EmptyArray => ValidationErrorV::EmptyArray,
            ValidationError::WrongType { index, field } => ValidationErrorV::WrongType {
                index: match index {
                    Some(i) => Some(*i as int),
                    None => None,
                },
                field: field@,
            },
        }
    }
}

/// A recognized field is bad when present, not null, and not of the
/// expected type.
pub open spec fn bad_bool(v: JsonV, name: Seq<char>) -> bool {
    match obj_get(v, name) {
        Some(x) => !(x is Null) && !(x is Bool),
        None => false,
    }
}

pub open spec fn bad_text(v: JsonV, name: Seq<char>) -> bool {
    match obj_get(v, name) {
        Some(x) => !(x is Null) && !(x is Str),
        None => false,
    }
}

pub open spec fn bad_number(v: JsonV, name: Seq<char>) -> bool {
    match obj_get(v, name) {
        Some(x) => !(x is Null) && !(x is Num),
        None => false,
    }
}

/// The first failing check of a single usage object, in the fixed field
/// order; `None` when the value passes (a fully empty object does).
pub open spec fn single_usage_error(v: JsonV) -> Option<Option<Seq<char>>> {
    if !(v is Obj) {
        Some(None)
    } else if bad_bool(v, "isValid"@) {
        Some(Some("isValid"@))
    } else if bad_text(v, "invalidMessage"@) {
        Some(Some("invalidMessage"@))
    } else if bad_number(v, "remaining"@) {
        Some(Some("remaining"@))
    } else if bad_text(v, "unit"@) {
        Some(Some("unit"@))
    } else if bad_number(v, "total"@) {
        Some(Some("total"@))
    } else if bad_number(v, "used"@) {
        Some(Some("used"@))
    } else if bad_text(v, "planName"@) {
        Some(Some("planName"@))
    } else if bad_text(v, "extra"@) {
        Some(Some("extra"@))
    } else {
        None
    }
}

/// The first failing element of a usage array, from position `i` on.
pub open spec fn first_element_error(items: Seq<JsonV>, i: int) -> Option<ValidationErrorV>
    decreases items.len() - i,
{
    if i >= items.len() || i < 0 {
        None
    } else {
        match single_usage_error(items[i]) {
            Some(None) => Some(ValidationErrorV::NotAnObject { index: Some(i) }),
            Some(Some(f)) => Some(ValidationErrorV::WrongType { index: Some(i), field: f }),
            None => first_element_error(items, i + 1),
        }
    }
}

/// The validation verdict for a script's extracted value: a single usage
/// object, or a non-empty array of them; each recognized field, when
/// present, must hold its declared type or null.
pub open spec fn usage_validation_error(v: JsonV) -> Option<ValidationErrorV> {
    match v {
        JsonV::Arr(items) => if items.len() == 0 {
            Some(ValidationErrorV::EmptyArray)
        } else {
            first_element_error(items, 0)
        },
        _ => match single_usage_error(v) {
            Some(None) => Some(ValidationErrorV::NotAnObject { index: None }),
            Some(Some(f)) => Some(ValidationErrorV::WrongType { index: None, field: f }),
            None => None,
        },
    }
}

/// Is this value null?
fn value_is_null(v: &JsonValue) -> (r: bool)
    ensures
        r == (v@ is Null),
{
    match v {
        JsonValue::Null => true,
        _ => false,
    }
}

/// Whether a present, non-null field is not a boolean.
fn bad_bool_exec(v: &JsonValue, name: &str) -> (r: bool)
    ensures
        r == bad_bool(v@, name@),
{
    match v.get(name) {
        Some(x) => {
            if value_is_null(x) {
                false
            } else {
                match x {
                    JsonValue::Bool(_) => false,
                    _ => true,
                }
            }
        },
        None => false,
    }
}

/// Whether a present, non-null field is not a string.
fn bad_text_exec(v: &JsonValue, name: &str) -> (r: bool)
    ensures
        r == bad_text(v@, name@),
{
    match v.get(name) {
        Some(x) => {
            if value_is_null(x) {
                false
            } else {
                match x {
                    JsonValue::Str(_) => false,
                    _ => true,
                }
            }
        },
        None => false,
    }
}

/// Whether a present, non-null field is not a number.
fn bad_number_exec(v: &JsonValue, name: &str) -> (r: bool)
    ensures
        r == bad_number(v@, name@),
{
    match v.get(name) {
        Some(x) => {
            if value_is_null(x) {
                false
            } else {
                match x {
                    JsonValue::Num(_) => false,
                    _ => true,
                }
            }
        },
        None => false,
    }
}

/// The first failing check of one usage object, as `single_usage_error`
/// says, with the given element index reported.
fn validate_single_at(v: &JsonValue, index: Option<usize>) -> (r: Result<(), ValidationError>)
    ensures
        match r {
            Ok(_) => single_usage_error(v@) is None,
            Err(e) => match single_usage_error(v@) {
                Some(None) => e@ == (ValidationErrorV::NotAnObject {
                    index: match index {
                        Some(i) => Some(i as int),
                        None => None,
                    },
                }),
                Some(Some(f)) => e@ == (ValidationErrorV::WrongType {
                    index: match index {
                        Some(i) => Some(i as int),
                        None => None,
                    },
                    field: f,
                }),
                None => false,
            },
        },
{
    let is_obj = match v {
        JsonValue::Obj(_) => true,
        _ => false,
    };
    if !is_obj {
        return Err(ValidationError::NotAnObject { index });
    }
    if bad_bool_exec(v, "isValid") {
        return Err(ValidationError::WrongType { index, field: String::from_str("isValid") });
    }
    if bad_text_exec(v, "invalidMessage") {
        return Err(ValidationError::WrongType { index, field: String::from_str("invalidMessage") });
    }
    if bad_number_exec(v, "remaining") {
        return Err(ValidationError::WrongType { index, field: String::from_str("remaining") });
    }
    if bad_text_exec(v, "unit") {
        return Err(ValidationError::WrongType { index, field: String::from_str("unit") });
    }
    if bad_number_exec(v, "total") {
        return Err(ValidationError::WrongType { index, field: String::from_str("total") });
    }
    if bad_number_exec(v, "used") {
        return Err(ValidationError::WrongType { index, field: String::from_str("used") });
    }
    if bad_text_exec(v, "planName") {
        return Err(ValidationError::WrongType { index, field: String::from_str("planName") });
    }
    if bad_text_exec(v, "extra") {
        return Err(ValidationError::WrongType { index, field: String::from_str("extra") });
    }
    Ok(())
}

/// Validation of one usage object (the single-object form of the verdict).
pub fn validate_single_usage(v: &JsonValue) -> (r: Result<(), ValidationError>)
    ensures
        match r {
            Ok(_) => single_usage_error(v@) is None,
            Err(e) => match single_usage_error(v@) {
                Some(None) => e@ == (ValidationErrorV::NotAnObject { index: None }),
                Some(Some(f)) => e@ == (ValidationErrorV::WrongType { index: None, field: f }),
                None => false,
            },
        },
{
    validate_single_at(v, None)
}

/// Validation of a script's extracted value, as `usage_validation_error`
/// says: accepts a single usage object or a non-empty array of them.
#[verifier::loop_isolation(false)]
pub fn validate_result(v: &JsonValue) -> (r: Result<(), ValidationError>)
    ensures
        match r {
            Ok(_) => usage_validation_error(v@) is None,
            Err(e) => usage_validation_error(v@) == Some(e@),
        },
{
    match v {
        JsonValue::Arr(items) => {
            proof {
                lemma_jv_seq(items@);
            }
            let ghost im = jv_seq(items@);
            proof {
                assert(v@ == JsonV::Arr(im));
            }
            if items.len() == 0 {
                return Err(ValidationError::EmptyArray);
            }
            let mut i: usize = 0;
            while i < items.len()
                invariant
                    i <= items@.len(),
                    first_element_error(im, 0) == first_element_error(im, i as int),
                decreases items@.len() - i,
            {
                match validate_single_at(&items[i], Some(i)) {
                    Ok(_) => {},
                    Err(e) => {
                        return Err(e);
                    },
                }
                i += 1;
            }
            proof {
                assert(first_element_error(im, i as int) is None);
            }
            Ok(())
        },
        _ => validate_single_usage(v),
    }
}

} // verus!
