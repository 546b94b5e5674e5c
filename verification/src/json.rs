//! A structured configuration value: the shape of JSON data, modelled as a
//! recursive datatype. Numbers are carried as their decimal text; the logic
//! here inspects and rearranges values but never computes with numbers.
//! Objects are ordered association lists, as a configuration file is.

use vstd::prelude::*;

verus! {

/// A structured configuration value.
#[derive(Debug, PartialEq, Eq)]
pub enum JsonValue {
    Null,
    Bool(bool),
    Num(String),
    Str(String),
    Arr(Vec<JsonValue>),
    Obj(Vec<(String, JsonValue)>),
}

/// Mathematical model of a `JsonValue`.
#[verifier::ext_equal]
pub enum JsonV {
    Null,
    Bool(bool),
    Num(Seq<char>),
    Str(Seq<char>),
    Arr(Seq<JsonV>),
    Obj(Seq<(Seq<char>, JsonV)>),
}

/// The model of a value.
pub open spec fn jv(v: JsonValue) -> JsonV
    decreases v,
{
    match v {
        JsonValue::Null => JsonV::Null,
        JsonValue::Bool(b) => JsonV::Bool(b),
        JsonValue::Num(s) => JsonV::Num(s@),
        JsonValue::Str(s) => JsonV::Str(s@),
        JsonValue::Arr(items) => JsonV::Arr(jv_seq(items@)),
        JsonValue::Obj(entries) => JsonV::Obj(jv_entries(entries@)),
    }
}

/// The models of a sequence of values.
pub open spec fn jv_seq(s: Seq<JsonValue>) -> Seq<JsonV>
    decreases s,
{
    if s.len() == 0 {
        Seq::empty()
    } else {
        seq![jv(s[0])] + jv_seq(s.subrange(1, s.len() as int))
    }
}

/// The models of a sequence of object entries.
pub open spec fn jv_entries(s: Seq<(String, JsonValue)>) -> Seq<(Seq<char>, JsonV)>
    decreases s,
{
    if s.len() == 0 {
        Seq::empty()
    } else {
        seq![(s[0].0@, jv(s[0].1))] + jv_entries(s.subrange(1, s.len() as int))
    }
}

impl View for JsonValue {
    type V = JsonV;

    open spec fn view(&self) -> JsonV {
        jv(*self)
    }
}

pub proof fn lemma_jv_seq(s: Seq<JsonValue>)
    ensures
        jv_seq(s).len() == s.len(),
        forall|i: int| 0 <= i < s.len() ==> jv_seq(s)[i] == jv(s[i]),
    decreases s,
{
    if s.len() > 0 {
        lemma_jv_seq(s.subrange(1, s.len() as int));
        assert forall|i: int| 0 <= i < s.len() implies jv_seq(s)[i] == jv(s[i]) by {
            if i > 0 {
                assert(s.subrange(1, s.len() as int)[i - 1] == s[i]);
            }
        }
    }
}

pub proof fn lemma_jv_entries(s: Seq<(String, JsonValue)>)
    ensures
        jv_entries(s).len() == s.len(),
        forall|i: int|
            0 <= i < s.len() ==> jv_entries(s)[i] == (s[i].0@, jv(s[i].1)),
    decreases s,
{
    if s.len() > 0 {
        lemma_jv_entries(s.subrange(1, s.len() as int));
        assert forall|i: int|
            0 <= i < s.len() implies jv_entries(s)[i] == (s[i].0@, jv(s[i].1)) by {
            if i > 0 {
                assert(s.subrange(1, s.len() as int)[i - 1] == s[i]);
            }
        }
    }
}

/// First value bound to `key` in an entry sequence.
pub open spec fn entries_lookup(es: Seq<(Seq<char>, JsonV)>, key: Seq<char>) -> Option<JsonV>
    decreases es,
{
    if es.len() == 0 {
        None
    } else if es[0].0 == key {
        Some(es[0].1)
    } else {
        entries_lookup(es.subrange(1, es.len() as int), key)
    }
}

/// Value bound to `key` if `v` is an object holding it.
pub open spec fn obj_get(v: JsonV, key: Seq<char>) -> Option<JsonV> {
    match v {
        JsonV::Obj(es) => entries_lookup(es, key),
        _ => None,
    }
}

/// The string bound to `key` if `v` is an object binding `key` to a string.
pub open spec fn get_str(v: JsonV, key: Seq<char>) -> Option<Seq<char>> {
    match obj_get(v, key) {
        Some(JsonV::Str(s)) => Some(s),
        _ => None,
    }
}

/// Binding `key` to `val`: the first entry for `key` is replaced in place,
/// or the pair is appended if the key is absent.
pub open spec fn entries_set(es: Seq<(Seq<char>, JsonV)>, key: Seq<char>, val: JsonV) -> Seq<
    (Seq<char>, JsonV),
>
    decreases es,
{
    if es.len() == 0 {
        seq![(key, val)]
    } else if es[0].0 == key {
        seq![(es[0].0, val)] + es.subrange(1, es.len() as int)
    } else {
        seq![es[0]] + entries_set(es.subrange(1, es.len() as int), key, val)
    }
}

impl JsonValue {
    /// The value bound to `key`, if this value is an object holding it.
    #[verifier::loop_isolation(false)]
    pub fn get<'a>(&'a self, key: &str) -> (r: Option<&'a JsonValue>)
        ensures
            match r {
                Some(x) => obj_get(self@, key@) == Some(x@),
                None => obj_get(self@, key@) is None,
            },
    {
        match self {
            JsonValue::Obj(entries) => {
                proof {
                    lemma_jv_entries(entries@);
                }
                let ghost full = jv_entries(entries@);
                proof {
                    assert(self@ == JsonV::Obj(full));
                    assert(full.subrange(0, full.len() as int) =~= full);
                }
                let mut i: usize = 0;
                while i < entries.len()
                    invariant
                        i <= entries@.len(),
                        full == jv_entries(entries@),
                        full.len() == entries@.len(),
                        forall|t: int|
                            0 <= t < entries@.len() ==> full[t] == (
                            entries@[t].0@,
                            jv(entries@[t].1),
                            ),
                        entries_lookup(full, key@) == entries_lookup(
                            full.subrange(i as int, full.len() as int),
                            key@,
                        ),
                    decreases entries@.len() - i,
                {
                    let hit = crate::text::str_eq(entries[i].0.as_str(), key);
                    proof {
                        let suf = full.subrange(i as int, full.len() as int);
                        assert(suf[0] == full[i as int]);
                        assert(suf.subrange(1, suf.len() as int) =~= full.subrange(
                            i as int + 1,
                            full.len() as int,
                        ));
                    }
                    if hit {
                        proof {
                            let suf = full.subrange(i as int, full.len() as int);
                            assert(suf[0].0 == key@);
                            assert(entries_lookup(suf, key@) == Some(suf[0].1));
                            assert(entries_lookup(full, key@) == Some(full[i as int].1));
                            assert(obj_get(self@, key@) == Some(jv(entries@[i as int].1)));
                        }
                        return Some(&entries[i].1);
                    }
                    i += 1;
                }
                proof {
                    assert(full.subrange(i as int, full.len() as int) =~= Seq::empty());
                }
                None
            },
            _ => None,
        }
    }

    /// The string content, if this value is a string.
    pub fn as_str<'a>(&'a self) -> (r: Option<&'a String>)
        ensures
            match r {
                Some(s) => self@ == JsonV::Str(s@),
                None => !(self@ is Str),
            },
    {
        match self {
            JsonValue::Str(s) => Some(s),
            _ => None,
        }
    }

    /// A copy of this value with the same model.
    #[verifier::loop_isolation(false)]
    pub fn duplicate(&self) -> (r: JsonValue)
        ensures
            r@ == self@,
        decreases self,
    {
        match self {
            JsonValue::Null => JsonValue::Null,
            JsonValue::Bool(b) => JsonValue::Bool(*b),
            JsonValue::Num(s) => JsonValue::Num(s.clone()),
            JsonValue::Str(s) => JsonValue::Str(s.clone()),
            JsonValue::Arr(items) => {
                let mut out: Vec<JsonValue> = Vec::new();
                let mut i: usize = 0;
                while i < items.len()
                    invariant
                        i <= items@.len(),
                        out@.len() == i,
                        forall|j: int| 0 <= j < i ==> jv(out@[j]) == jv(items@[j]),
                    decreases items@.len() - i,
                {
                    proof {
                        assert(decreases_to!(*self => self->Arr_0));
                        assert(*items == self->Arr_0);
                        assert(decreases_to!(*items => items@[i as int]));
                    }
                    out.push(items[i].duplicate());
                    i += 1;
                }
                proof {
                    lemma_jv_seq(out@);
                    lemma_jv_seq(items@);
                    assert(jv_seq(out@) =~= jv_seq(items@));
                }
                JsonValue::Arr(out)
            },
            JsonValue::Obj(entries) => {
                let mut out: Vec<(String, JsonValue)> = Vec::new();
                let mut i: usize = 0;
                while i < entries.len()
                    invariant
                        i <= entries@.len(),
                        out@.len() == i,
                        forall|j: int|
                            0 <= j < i ==> out@[j].0@ == entries@[j].0@ && jv(out@[j].1) == jv(
                                entries@[j].1,
                            ),
                    decreases entries@.len() - i,
                {
                    proof {
                        assert(decreases_to!(*self => self->Obj_0));
                        assert(*entries == self->Obj_0);
                        assert(decreases_to!(*entries => entries@[i as int]));
                        assert(decreases_to!(entries@[i as int] => entries@[i as int].1));
                    }
                    let k = entries[i].0.clone();
                    let v = entries[i].1.duplicate();
                    out.push((k, v));
                    i += 1;
                }
                proof {
                    lemma_jv_entries(out@);
                    lemma_jv_entries(entries@);
                    assert(jv_entries(out@) =~= jv_entries(entries@));
                }
                JsonValue::Obj(out)
            },
        }
    }
}

/// Binds `key` to `val` in an entry vector, replacing the first entry for
/// `key` in place or appending the pair if the key is absent.
#[verifier::loop_isolation(false)]
pub fn entries_bind(entries: &mut Vec<(String, JsonValue)>, key: String, val: JsonValue)
    ensures
        jv_entries(final(entries)@) == entries_set(jv_entries(old(entries)@), key@, jv(val)),
{
    proof {
        lemma_jv_entries(entries@);
    }
    let ghost orig = entries@;
    let mut i: usize = 0;
    while i < entries.len()
        invariant
            i <= entries@.len(),
            entries@ == orig,
            forall|t: int| 0 <= t < i ==> orig[t].0@ != key@,
        decreases entries@.len() - i,
    {
        let hit = crate::text::str_eq(entries[i].0.as_str(), key.as_str());
        if hit {
            proof {
                lemma_jv_entries(orig);
                assert(jv_entries(orig)[i as int].0 == key@);
            }
            entries[i] = (key, val);
            proof {
                lemma_jv_entries(entries@);
                lemma_jv_entries(orig);
                lemma_entries_set_replace(jv_entries(orig), key@, jv(val), i as int);
                assert(entries@ == orig.update(i as int, (key, val)));
                assert forall|t: int|
                    0 <= t < entries@.len() implies jv_entries(entries@)[t] == entries_set(
                    jv_entries(orig),
                    key@,
                    jv(val),
                )[t] by {
                    if t != i {
                        assert(entries@[t] == orig[t]);
                    }
                }
                assert(jv_entries(entries@) =~= entries_set(jv_entries(orig), key@, jv(val)));
            }
            return ;
        }
        i += 1;
    }
    entries.push((key, val));
    proof {
        lemma_jv_entries(entries@);
        lemma_jv_entries(orig);
        lemma_entries_set_append(jv_entries(orig), key@, jv(val));
        assert(entries@ == orig.push((key, val)));
        assert forall|t: int|
            0 <= t < entries@.len() implies jv_entries(entries@)[t] == jv_entries(orig).push(
            (key@, jv(val)),
        )[t] by {
            if t < orig.len() {
                assert(entries@[t] == orig[t]);
            } else {
                assert(entries@[t] == (key, val));
            }
        }
        assert(jv_entries(entries@) =~= entries_set(jv_entries(orig), key@, jv(val)));
    }
}

/// When `key` is bound first at position `i`, `entries_set` replaces exactly
/// that entry's value.
pub proof fn lemma_entries_set_replace(
    es: Seq<(Seq<char>, JsonV)>,
    key: Seq<char>,
    val: JsonV,
    i: int,
)
    requires
        0 <= i < es.len(),
        es[i].0 == key,
        forall|t: int| 0 <= t < i ==> es[t].0 != key,
    ensures
        entries_set(es, key, val) =~= es.update(i, (es[i].0, val)),
    decreases es.len(),
{
    if i == 0 {
    } else {
        lemma_entries_set_replace(es.subrange(1, es.len() as int), key, val, i - 1);
        assert(entries_set(es, key, val) =~= seq![es[0]] + es.subrange(1, es.len() as int).update(
            i - 1,
            (es[i].0, val),
        ));
    }
}

/// When `key` is unbound, `entries_set` appends the pair.
pub proof fn lemma_entries_set_append(es: Seq<(Seq<char>, JsonV)>, key: Seq<char>, val: JsonV)
    requires
        forall|t: int| 0 <= t < es.len() ==> es[t].0 != key,
    ensures
        entries_set(es, key, val) =~= es.push((key, val)),
    decreases es.len(),
{
    if es.len() > 0 {
        lemma_entries_set_append(es.subrange(1, es.len() as int), key, val);
    }
}

/// `entries_lookup` after `entries_set` finds the new value; other keys are
/// untouched.
pub proof fn lemma_set_then_lookup(es: Seq<(Seq<char>, JsonV)>, key: Seq<char>, val: JsonV)
    ensures
        entries_lookup(entries_set(es, key, val), key) == Some(val),
        forall|k: Seq<char>|
            k != key ==> entries_lookup(entries_set(es, key, val), k) == entries_lookup(es, k),
    decreases es.len(),
{
    let out = entries_set(es, key, val);
    if es.len() == 0 {
        assert(out =~= seq![(key, val)]);
        assert(entries_lookup(out, key) == Some(val));
        assert forall|k: Seq<char>|
            k != key implies entries_lookup(out, k) == entries_lookup(es, k) by {
            let tail = out.subrange(1, out.len() as int);
            assert(entries_lookup(out, k) == entries_lookup(tail, k));
            assert(tail.len() == 0);
            assert(entries_lookup(tail, k) is None);
        }
    } else if es[0].0 == key {
        let tail = es.subrange(1, es.len() as int);
        assert(out.subrange(1, out.len() as int) =~= tail);
        assert(entries_lookup(out, key) == Some(val));
        assert forall|k: Seq<char>|
            k != key implies entries_lookup(out, k) == entries_lookup(es, k) by {
            assert(entries_lookup(out, k) == entries_lookup(tail, k));
            assert(entries_lookup(es, k) == entries_lookup(tail, k));
        }
    } else {
        let tail = es.subrange(1, es.len() as int);
        lemma_set_then_lookup(tail, key, val);
        assert(out.subrange(1, out.len() as int) =~= entries_set(tail, key, val));
        assert(entries_lookup(out, key) == entries_lookup(entries_set(tail, key, val), key));
        assert forall|k: Seq<char>|
            k != key implies entries_lookup(out, k) == entries_lookup(es, k) by {
            if es[0].0 == k {
                assert(entries_lookup(out, k) == Some(out[0].1));
            } else {
                assert(entries_lookup(out, k) == entries_lookup(entries_set(tail, key, val), k));
                assert(entries_lookup(es, k) == entries_lookup(tail, k));
            }
        }
    }
}

} // verus!
