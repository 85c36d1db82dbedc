//! A structured JSON value, owned by the library, together with its
//! mathematical model. Review envelopes travel through the protocol as values
//! of this type; opaque payloads (the admitted object, extra attributes) are
//! carried through unchanged.
use vstd::prelude::*;

verus! {

broadcast use vstd::std_specs::vec::group_vec_axioms;

/// A JSON document. Numbers keep their decimal text so that no precision is
/// lost and none is interpreted; objects keep their entries in order.
#[derive(Debug, PartialEq)]
pub enum JsonValue {
    Null,
    Bool(bool),
    Num(String),
    Str(String),
    Arr(Vec<JsonValue>),
    Obj(Vec<(String, JsonValue)>),
}

/// The mathematical model of a [`JsonValue`].
#[verifier::ext_equal]
pub enum JsonSpec {
    Null,
    Bool(bool),
    Num(Seq<char>),
    Str(Seq<char>),
    Arr(Seq<JsonSpec>),
    Obj(Seq<(Seq<char>, JsonSpec)>),
}

pub open spec fn jspec_of(j: JsonValue) -> JsonSpec
    decreases j,
{
    match j {
        JsonValue::Null => JsonSpec::Null,
        JsonValue::Bool(b) => JsonSpec::Bool(b),
        JsonValue::Num(n) => JsonSpec::Num(n@),
        JsonValue::Str(s) => JsonSpec::Str(s@),
        JsonValue::Arr(items) => JsonSpec::Arr(jspec_of_list(items@)),
        JsonValue::Obj(entries) => JsonSpec::Obj(jspec_of_entries(entries@)),
    }
}

pub open spec fn jspec_of_list(items: Seq<JsonValue>) -> Seq<JsonSpec>
    decreases items,
{
    if items.len() == 0 {
        Seq::empty()
    } else {
        seq![jspec_of(items[0])] + jspec_of_list(items.subrange(1, items.len() as int))
    }
}

pub open spec fn jspec_of_entries(entries: Seq<(String, JsonValue)>) -> Seq<(Seq<char>, JsonSpec)>
    decreases entries,
{
    if entries.len() == 0 {
        Seq::empty()
    } else {
        seq![(entries[0].0@, jspec_of(entries[0].1))]
            + jspec_of_entries(entries.subrange(1, entries.len() as int))
    }
}

impl View for JsonValue {
    type V = JsonSpec;

    open spec fn view(&self) -> JsonSpec {
        jspec_of(*self)
    }
}

/// The value under the first entry named `key`, if any.
pub open spec fn lookup(es: Seq<(Seq<char>, JsonSpec)>, key: Seq<char>) -> Option<JsonSpec>
    decreases es,
{
    if es.len() == 0 {
        Option::None
    } else if es[0].0 == key {
        Option::Some(es[0].1)
    } else {
        lookup(es.subrange(1, es.len() as int), key)
    }
}

pub proof fn lemma_jspec_of_entries(entries: Seq<(String, JsonValue)>)
    ensures
        jspec_of_entries(entries).len() == entries.len(),
        forall|i: int|
            0 <= i < entries.len() ==> #[trigger] jspec_of_entries(entries)[i] == (
            entries[i].0@,
            jspec_of(entries[i].1),
            ),
    decreases entries,
{
    if entries.len() > 0 {
        lemma_jspec_of_entries(entries.subrange(1, entries.len() as int));
    }
}

pub proof fn lemma_jspec_of_list(items: Seq<JsonValue>)
    ensures
        jspec_of_list(items).len() == items.len(),
        forall|i: int|
            0 <= i < items.len() ==> #[trigger] jspec_of_list(items)[i] == jspec_of(items[i]),
    decreases items,
{
    if items.len() > 0 {
        lemma_jspec_of_list(items.subrange(1, items.len() as int));
    }
}

impl JsonValue {
    /// A copy whose model is the model of the original.
    #[verifier::loop_isolation(false)]
    pub fn deep_copy(&self) -> (r: JsonValue)
        ensures
            r@ == self@,
        decreases self,
    {
        match self {
            JsonValue::Null => JsonValue::Null,
            JsonValue::Bool(b) => JsonValue::Bool(*b),
            JsonValue::Num(n) => JsonValue::Num(n.clone()),
            JsonValue::Str(s) => JsonValue::Str(s.clone()),
            JsonValue::Arr(items) => {
                let mut out: Vec<JsonValue> = Vec::new();
                let mut i: usize = 0;
                while i < items.len()
                    invariant
                        i <= items.len(),
                        out.len() == i,
                        forall|k: int|
                            0 <= k < i ==> #[trigger] jspec_of(out@[k]) == jspec_of(items@[k]),
                    decreases items.len() - i,
                {
                    proof {
                        assert(decreases_to!(*self => *items));
                        assert(decreases_to!(*items => items@));
                        assert(decreases_to!(items@ => items@[i as int]));
                    }
                    out.push(items[i].deep_copy());
                    i = i + 1;
                }
                proof {
                    lemma_jspec_of_list(items@);
                    lemma_jspec_of_list(out@);
                    assert(jspec_of_list(out@) =~= jspec_of_list(items@));
                }
                JsonValue::Arr(out)
            },
            JsonValue::Obj(entries) => {
                let mut out: Vec<(String, JsonValue)> = Vec::new();
                let mut i: usize = 0;
                while i < entries.len()
                    invariant
                        i <= entries.len(),
                        out.len() == i,
                        forall|k: int|
                            0 <= k < i ==> out@[k].0@ == entries@[k].0@ && #[trigger] jspec_of(
                                out@[k].1,
                            ) == jspec_of(entries@[k].1),
                    decreases entries.len() - i,
                {
                    proof {
                        assert(decreases_to!(*self => *entries));
                        assert(decreases_to!(*entries => entries@));
                        assert(decreases_to!(entries@ => entries@[i as int]));
                        assert(decreases_to!(entries@[i as int] => entries@[i as int].1));
                    }
                    out.push((entries[i].0.clone(), entries[i].1.deep_copy()));
                    i = i + 1;
                }
                proof {
                    lemma_jspec_of_entries(entries@);
                    lemma_jspec_of_entries(out@);
                    assert(jspec_of_entries(out@) =~= jspec_of_entries(entries@));
                }
                JsonValue::Obj(out)
            },
        }
    }
}

/// The first entry named `key` of an object's entry list, by reference.
pub fn get<'a>(entries: &'a Vec<(String, JsonValue)>, key: &String) -> (r: Option<&'a JsonValue>)
    ensures
        match r {
            Option::Some(v) => lookup(jspec_of_entries(entries@), key@) == Option::Some(v@),
            Option::None => lookup(jspec_of_entries(entries@), key@) is None,
        },
{
    proof {
        lemma_jspec_of_entries(entries@);
        assert(jspec_of_entries(entries@).subrange(0, entries@.len() as int) =~= jspec_of_entries(
            entries@,
        ));
    }
    let mut i: usize = 0;
    while i < entries.len()
        invariant
            i <= entries.len(),
            lookup(jspec_of_entries(entries@), key@) == lookup(
                jspec_of_entries(entries@).subrange(i as int, entries@.len() as int),
                key@,
            ),
            jspec_of_entries(entries@).len() == entries.len(),
            forall|k: int|
                0 <= k < entries.len() ==> #[trigger] jspec_of_entries(entries@)[k] == (
                entries[k].0@,
                jspec_of(entries[k].1),
                ),
        decreases entries.len() - i,
    {
        let ghost pre = jspec_of_entries(entries@).subrange(i as int, entries@.len() as int);
        if entries[i].0 == *key {
            assert(pre[0].0 == key@);
            return Option::Some(&entries[i].1);
        }
        proof {
            assert(pre[0].0 != key@);
            assert(pre.subrange(1, pre.len() as int) =~= jspec_of_entries(entries@).subrange(
                i + 1,
                entries@.len() as int,
            ));
        }
        i = i + 1;
    }
    proof {
        assert(jspec_of_entries(entries@).subrange(
            entries@.len() as int,
            entries@.len() as int,
        ) =~= Seq::<(Seq<char>, JsonSpec)>::empty());
    }
    Option::None
}

} // verus!
