//! Mutating admission: merge the configured annotations into the object under
//! review, and encode the transformed object as a full-replacement patch.
//! The transformation is idempotent, so a retried invocation patches to the
//! same object.
use vstd::prelude::*;
use crate::envelope::AdmissionResponse;
use crate::envelope::AdmissionResponseView;
use crate::envelope::AdmissionReview;
use crate::envelope::AdmissionReviewView;
use crate::decision::Fault;
use crate::json::JsonSpec;
use crate::json::JsonValue;
use crate::json::get;
use crate::json::jspec_of_entries;
use crate::json::lemma_jspec_of_entries;
use crate::json::lookup;
use crate::settings::MutateSettings;

verus! {

broadcast use vstd::std_specs::vec::group_vec_axioms;

/// The entry list with the first entry named `key` replaced by `(key, v)`,
/// or with `(key, v)` appended when no entry bears that name.
pub open spec fn set_entry(
    es: Seq<(Seq<char>, JsonSpec)>,
    key: Seq<char>,
    v: JsonSpec,
) -> Seq<(Seq<char>, JsonSpec)>
    decreases es,
{
    if es.len() == 0 {
        seq![(key, v)]
    } else if es[0].0 == key {
        seq![(key, v)] + es.subrange(1, es.len() as int)
    } else {
        seq![es[0]] + set_entry(es.subrange(1, es.len() as int), key, v)
    }
}

pub proof fn lemma_lookup_set_entry_same(es: Seq<(Seq<char>, JsonSpec)>, key: Seq<char>, v: JsonSpec)
    ensures
        lookup(set_entry(es, key, v), key) == Option::Some(v),
    decreases es,
{
    if es.len() != 0 && es[0].0 != key {
        lemma_lookup_set_entry_same(es.subrange(1, es.len() as int), key, v);
        let r = set_entry(es, key, v);
        assert(r.subrange(1, r.len() as int) =~= set_entry(es.subrange(1, es.len() as int), key, v));
    }
}

pub proof fn lemma_lookup_set_entry_other(
    es: Seq<(Seq<char>, JsonSpec)>,
    key: Seq<char>,
    v: JsonSpec,
    other: Seq<char>,
)
    requires
        other != key,
    ensures
        lookup(set_entry(es, key, v), other) == lookup(es, other),
    decreases es,
{
    if es.len() == 0 {
        let r = set_entry(es, key, v);
        assert(r.subrange(1, r.len() as int) =~= Seq::<(Seq<char>, JsonSpec)>::empty());
        assert(lookup(r, other) == lookup(r.subrange(1, r.len() as int), other));
    } else if es[0].0 == key {
        let r = set_entry(es, key, v);
        assert(r.subrange(1, r.len() as int) =~= es.subrange(1, es.len() as int));
    } else {
        lemma_lookup_set_entry_other(es.subrange(1, es.len() as int), key, v, other);
        let r = set_entry(es, key, v);
        assert(r.subrange(1, r.len() as int) =~= set_entry(es.subrange(1, es.len() as int), key, v));
        if es[0].0 == other {
        }
    }
}

/// Replacing an entry by the value it already carries changes nothing.
pub proof fn lemma_set_entry_noop(es: Seq<(Seq<char>, JsonSpec)>, key: Seq<char>, v: JsonSpec)
    requires
        lookup(es, key) == Option::Some(v),
    ensures
        set_entry(es, key, v) == es,
    decreases es,
{
    if es.len() != 0 {
        if es[0].0 == key {
            assert(set_entry(es, key, v) =~= es);
        } else {
            lemma_set_entry_noop(es.subrange(1, es.len() as int), key, v);
            assert(set_entry(es, key, v) =~= es);
        }
    }
}

/// Setting the same key twice keeps only the later value.
pub proof fn lemma_set_entry_absorb(
    es: Seq<(Seq<char>, JsonSpec)>,
    key: Seq<char>,
    v: JsonSpec,
    w: JsonSpec,
)
    ensures
        set_entry(set_entry(es, key, v), key, w) == set_entry(es, key, w),
    decreases es,
{
    if es.len() == 0 {
        assert(set_entry(set_entry(es, key, v), key, w) =~= set_entry(es, key, w));
    } else if es[0].0 == key {
        let r = set_entry(es, key, v);
        assert(r.subrange(1, r.len() as int) =~= es.subrange(1, es.len() as int));
        assert(set_entry(set_entry(es, key, v), key, w) =~= set_entry(es, key, w));
    } else {
        lemma_set_entry_absorb(es.subrange(1, es.len() as int), key, v, w);
        let r = set_entry(es, key, v);
        assert(r.subrange(1, r.len() as int) =~= set_entry(es.subrange(1, es.len() as int), key, v));
        assert(set_entry(set_entry(es, key, v), key, w) =~= set_entry(es, key, w));
    }
}

/// The entry list after merging each annotation, first to last.
pub open spec fn merge_annotations(
    es: Seq<(Seq<char>, JsonSpec)>,
    anns: Seq<(Seq<char>, Seq<char>)>,
) -> Seq<(Seq<char>, JsonSpec)>
    decreases anns,
{
    if anns.len() == 0 {
        es
    } else {
        merge_annotations(
            set_entry(es, anns[0].0, JsonSpec::Str(anns[0].1)),
            anns.subrange(1, anns.len() as int),
        )
    }
}

/// Merging does not touch entries under keys the annotations do not use.
pub proof fn lemma_merge_lookup_other(
    es: Seq<(Seq<char>, JsonSpec)>,
    anns: Seq<(Seq<char>, Seq<char>)>,
    key: Seq<char>,
)
    requires
        forall|i: int| 0 <= i < anns.len() ==> (#[trigger] anns[i]).0 != key,
    ensures
        lookup(merge_annotations(es, anns), key) == lookup(es, key),
    decreases anns,
{
    if anns.len() != 0 {
        let es1 = set_entry(es, anns[0].0, JsonSpec::Str(anns[0].1));
        lemma_lookup_set_entry_other(es, anns[0].0, JsonSpec::Str(anns[0].1), key);
        lemma_merge_lookup_other(es1, anns.subrange(1, anns.len() as int), key);
    }
}

/// Some annotation bears this key.
pub open spec fn has_key(anns: Seq<(Seq<char>, Seq<char>)>, key: Seq<char>) -> bool {
    exists|j: int| 0 <= j < anns.len() && (#[trigger] anns[j]).0 == key
}

/// When a key is absent, no entry bears it.
proof fn lemma_lookup_none_no_key(es: Seq<(Seq<char>, JsonSpec)>, key: Seq<char>)
    requires
        lookup(es, key) is None,
    ensures
        forall|i: int| 0 <= i < es.len() ==> (#[trigger] es[i]).0 != key,
    decreases es,
{
    if es.len() != 0 {
        let sub = es.subrange(1, es.len() as int);
        lemma_lookup_none_no_key(sub, key);
        assert forall|i: int| 0 <= i < es.len() implies (#[trigger] es[i]).0 != key by {
            if i > 0 {
                assert(es[i] == sub[i - 1]);
            }
        }
    }
}

/// The position of the first entry bearing a key.
spec fn first_index(es: Seq<(Seq<char>, JsonSpec)>, key: Seq<char>) -> int
    decreases es,
{
    if es.len() == 0 {
        0
    } else if es[0].0 == key {
        0
    } else {
        1 + first_index(es.subrange(1, es.len() as int), key)
    }
}

proof fn lemma_first_index(es: Seq<(Seq<char>, JsonSpec)>, key: Seq<char>)
    requires
        lookup(es, key) is Some,
    ensures
        0 <= first_index(es, key) < es.len(),
        es[first_index(es, key)].0 == key,
        forall|i: int| 0 <= i < first_index(es, key) ==> (#[trigger] es[i]).0 != key,
    decreases es,
{
    if es.len() != 0 && es[0].0 != key {
        let sub = es.subrange(1, es.len() as int);
        lemma_first_index(sub, key);
        assert forall|i: int| 0 <= i < first_index(es, key) implies (#[trigger] es[i]).0 != key by {
            if i > 0 {
                assert(es[i] == sub[i - 1]);
            }
        }
    }
}

/// Merging never removes an entry, so a key present before the merge is
/// present after it.
proof fn lemma_merge_preserves_presence(
    es: Seq<(Seq<char>, JsonSpec)>,
    anns: Seq<(Seq<char>, Seq<char>)>,
    key: Seq<char>,
)
    requires
        lookup(es, key) is Some,
    ensures
        lookup(merge_annotations(es, anns), key) is Some,
    decreases anns,
{
    if anns.len() != 0 {
        let es1 = set_entry(es, anns[0].0, JsonSpec::Str(anns[0].1));
        if anns[0].0 == key {
            lemma_lookup_set_entry_same(es, key, JsonSpec::Str(anns[0].1));
        } else {
            lemma_lookup_set_entry_other(es, anns[0].0, JsonSpec::Str(anns[0].1), key);
        }
        lemma_merge_preserves_presence(es1, anns.subrange(1, anns.len() as int), key);
    }
}

/// Rewriting the first entry under a key is forgotten by a merge that sets
/// that key again later: the merge lands on the same position.
proof fn lemma_merge_overwrite(
    m: Seq<(Seq<char>, JsonSpec)>,
    pos: int,
    k: Seq<char>,
    v: JsonSpec,
    rest: Seq<(Seq<char>, Seq<char>)>,
)
    requires
        0 <= pos < m.len(),
        m[pos].0 == k,
        forall|i: int| 0 <= i < pos ==> (#[trigger] m[i]).0 != k,
        has_key(rest, k),
    ensures
        merge_annotations(m.update(pos, (k, v)), rest) == merge_annotations(m, rest),
    decreases rest,
{
    let mp = m.update(pos, (k, v));
    if rest.len() == 0 {
        assert(!has_key(rest, k));
    } else {
        let k1 = rest[0].0;
        let sv1 = JsonSpec::Str(rest[0].1);
        let rp = rest.subrange(1, rest.len() as int);
        if k1 == k {
            lemma_set_entry_prefix(m, k, sv1, pos);
            lemma_set_entry_prefix(mp, k, sv1, pos);
            assert(mp.update(pos, (k, sv1)) =~= m.update(pos, (k, sv1)));
        } else {
            let j = choose|j: int| 0 <= j < rest.len() && (#[trigger] rest[j]).0 == k;
            assert(rp[j - 1].0 == k);
            assert(has_key(rp, k));
            if lookup(m, k1) is Some {
                lemma_first_index(m, k1);
                let q = first_index(m, k1);
                lemma_set_entry_prefix(m, k1, sv1, q);
                lemma_set_entry_prefix(mp, k1, sv1, q);
                let m2 = m.update(q, (k1, sv1));
                assert(mp.update(q, (k1, sv1)) =~= m2.update(pos, (k, v)));
                lemma_merge_overwrite(m2, pos, k, v, rp);
            } else {
                lemma_lookup_none_no_key(m, k1);
                lemma_set_entry_append(m, k1, sv1);
                lemma_set_entry_append(mp, k1, sv1);
                let m3 = m.push((k1, sv1));
                assert(mp.push((k1, sv1)) =~= m3.update(pos, (k, v)));
                lemma_merge_overwrite(m3, pos, k, v, rp);
            }
        }
    }
}

/// Merging the same annotations a second time changes nothing, repeated
/// keys included: a later set of a key lands on the entry the earlier one
/// made.
pub proof fn lemma_merge_idempotent(
    es: Seq<(Seq<char>, JsonSpec)>,
    anns: Seq<(Seq<char>, Seq<char>)>,
)
    ensures
        merge_annotations(merge_annotations(es, anns), anns) == merge_annotations(es, anns),
    decreases anns,
{
    if anns.len() != 0 {
        let k = anns[0].0;
        let v = JsonSpec::Str(anns[0].1);
        let rest = anns.subrange(1, anns.len() as int);
        let es1 = set_entry(es, k, v);
        let merged = merge_annotations(es1, rest);
        lemma_merge_idempotent(es1, rest);
        lemma_lookup_set_entry_same(es, k, v);
        if has_key(rest, k) {
            // The merged list still bears the key; setting it rewrites its
            // first entry, and the repeated set in the rest erases that.
            lemma_merge_preserves_presence(es1, rest, k);
            lemma_first_index(merged, k);
            lemma_set_entry_prefix(merged, k, v, first_index(merged, k));
            lemma_merge_overwrite(merged, first_index(merged, k), k, v, rest);
        } else {
            // The key never reappears, so the merged list still carries the
            // head value and setting it again changes nothing.
            lemma_merge_lookup_other(es1, rest, k);
            lemma_set_entry_noop(merged, k, v);
        }
        assert(merge_annotations(merged, anns) == merge_annotations(
            set_entry(merged, k, v),
            rest,
        ));
    }
}

/// The entries of a member that must be an object when present; `None` when
/// it is present with another shape. An absent or null member counts as an
/// empty object.
pub open spec fn obj_member_entries(es: Seq<(Seq<char>, JsonSpec)>, key: Seq<char>) -> Option<
    Seq<(Seq<char>, JsonSpec)>,
> {
    match lookup(es, key) {
        Option::None => Option::Some(Seq::empty()),
        Option::Some(JsonSpec::Null) => Option::Some(Seq::empty()),
        Option::Some(JsonSpec::Obj(inner)) => Option::Some(inner),
        Option::Some(_) => Option::None,
    }
}

/// The transformed object: the configured annotations merged into
/// `metadata.annotations`, everything else kept. `None` when the object is
/// not the expected shape, which is fatal to the invocation.
pub open spec fn spec_transform(obj: JsonSpec, anns: Seq<(Seq<char>, Seq<char>)>) -> Option<
    JsonSpec,
> {
    match obj {
        JsonSpec::Obj(es) => match obj_member_entries(es, "metadata"@) {
            Option::None => Option::None,
            Option::Some(mes) => match obj_member_entries(mes, "annotations"@) {
                Option::None => Option::None,
                Option::Some(aes) => Option::Some(
                    JsonSpec::Obj(
                        set_entry(
                            es,
                            "metadata"@,
                            JsonSpec::Obj(
                                set_entry(
                                    mes,
                                    "annotations"@,
                                    JsonSpec::Obj(merge_annotations(aes, anns)),
                                ),
                            ),
                        ),
                    ),
                ),
            },
        },
        _ => Option::None,
    }
}

/// Applying the transformation to an already-transformed object yields that
/// object again: a host that retries a mutation patches to the same result.
pub proof fn lemma_transform_idempotent(
    obj: JsonSpec,
    anns: Seq<(Seq<char>, Seq<char>)>,
    once: JsonSpec,
)
    requires
        spec_transform(obj, anns) == Option::Some(once),
    ensures
        spec_transform(once, anns) == Option::Some(once),
{
    let es = obj->Obj_0;
    let mes = obj_member_entries(es, "metadata"@).unwrap();
    let aes = obj_member_entries(mes, "annotations"@).unwrap();
    let merged = merge_annotations(aes, anns);
    let mes1 = set_entry(mes, "annotations"@, JsonSpec::Obj(merged));
    let es1 = set_entry(es, "metadata"@, JsonSpec::Obj(mes1));
    assert(once == JsonSpec::Obj(es1));
    lemma_lookup_set_entry_same(es, "metadata"@, JsonSpec::Obj(mes1));
    lemma_lookup_set_entry_same(mes, "annotations"@, JsonSpec::Obj(merged));
    lemma_merge_idempotent(aes, anns);
    // Setting the members again replaces them with what they already hold.
    lemma_set_entry_absorb(mes, "annotations"@, JsonSpec::Obj(merged), JsonSpec::Obj(merged));
    lemma_set_entry_absorb(es, "metadata"@, JsonSpec::Obj(mes1), JsonSpec::Obj(mes1));
}

fn set_entry_exec(es: &mut Vec<(String, JsonValue)>, key: &String, v: JsonValue)
    ensures
        jspec_of_entries(final(es)@) == set_entry(jspec_of_entries(old(es)@), key@, v@),
{
    proof {
        lemma_jspec_of_entries(es@);
    }
    let ghost original = jspec_of_entries(es@);
    let mut i: usize = 0;
    while i < es.len()
        invariant
            i <= es.len(),
            original == jspec_of_entries(es@),
            original == jspec_of_entries(old(es)@),
            jspec_of_entries(es@).len() == es@.len(),
            forall|k: int|
                0 <= k < es@.len() ==> #[trigger] jspec_of_entries(es@)[k] == (
                es@[k].0@,
                crate::json::jspec_of(es@[k].1),
                ),
            forall|k: int| 0 <= k < i ==> (#[trigger] jspec_of_entries(es@)[k]).0 != key@,
        decreases es.len() - i,
    {
        if es[i].0 == *key {
            proof {
                lemma_set_entry_prefix(original, key@, v@, i as int);
            }
            es.set(i, (key.clone(), v));
            proof {
                lemma_jspec_of_entries(es@);
                assert(jspec_of_entries(es@) =~= original.update(i as int, (key@, v@)));
            }
            return;
        }
        i = i + 1;
    }
    es.push((key.clone(), v));
    proof {
        lemma_set_entry_append(original, key@, v@);
        lemma_jspec_of_entries(es@);
        assert(jspec_of_entries(es@) =~= original.push((key@, v@)));
    }
}

/// When the first entry named `key` stands at `i`, setting the key updates
/// exactly that position.
proof fn lemma_set_entry_prefix(es: Seq<(Seq<char>, JsonSpec)>, key: Seq<char>, v: JsonSpec, i: int)
    requires
        0 <= i < es.len(),
        es[i].0 == key,
        forall|k: int| 0 <= k < i ==> (#[trigger] es[k]).0 != key,
    ensures
        set_entry(es, key, v) == es.update(i, (key, v)),
    decreases i,
{
    if i == 0 {
        assert(set_entry(es, key, v) =~= es.update(0, (key, v)));
    } else {
        lemma_set_entry_prefix(es.subrange(1, es.len() as int), key, v, i - 1);
        assert(set_entry(es, key, v) =~= es.update(i, (key, v)));
    }
}

/// When no entry bears `key`, setting the key appends one.
proof fn lemma_set_entry_append(es: Seq<(Seq<char>, JsonSpec)>, key: Seq<char>, v: JsonSpec)
    requires
        forall|k: int| 0 <= k < es.len() ==> (#[trigger] es[k]).0 != key,
    ensures
        set_entry(es, key, v) == es.push((key, v)),
    decreases es,
{
    if es.len() == 0 {
        assert(set_entry(es, key, v) =~= es.push((key, v)));
    } else {
        lemma_set_entry_append(es.subrange(1, es.len() as int), key, v);
        assert(set_entry(es, key, v) =~= es.push((key, v)));
    }
}

/// The entries of the member named `key`, copied: empty for an absent or
/// null member, a fault for a member of any non-object shape.
fn copy_obj_member(es: &Vec<(String, JsonValue)>, key: &String) -> (r: Result<
    Vec<(String, JsonValue)>,
    Fault,
>)
    ensures
        match r {
            Result::Ok(inner) => obj_member_entries(jspec_of_entries(es@), key@)
                == Option::Some(jspec_of_entries(inner@)),
            Result::Err(f) => obj_member_entries(jspec_of_entries(es@), key@) is None && f
                == Fault::Extraction,
        },
{
    match get(es, key) {
        Option::None => {
            proof {
                assert(jspec_of_entries(Seq::<(String, JsonValue)>::empty()) =~= Seq::<(
                    Seq<char>,
                    JsonSpec,
                )>::empty());
            }
            Result::Ok(Vec::new())
        },
        Option::Some(JsonValue::Null) => {
            proof {
                assert(jspec_of_entries(Seq::<(String, JsonValue)>::empty()) =~= Seq::<(
                    Seq<char>,
                    JsonSpec,
                )>::empty());
            }
            Result::Ok(Vec::new())
        },
        Option::Some(member) => {
            let copied = member.deep_copy();
            match copied {
                JsonValue::Obj(inner) => Result::Ok(inner),
                _ => Result::Err(Fault::Extraction),
            }
        },
    }
}

/// Merge the configured annotations into the object's metadata. An object
/// that does not have the expected shape is an extraction fault.
pub fn transform(obj: &JsonValue, settings: &MutateSettings) -> (r: Result<JsonValue, Fault>)
    ensures
        match r {
            Result::Ok(t) => spec_transform(obj@, settings@.annotations) == Option::Some(t@),
            Result::Err(f) => spec_transform(obj@, settings@.annotations) is None && f
                == Fault::Extraction,
        },
{
    let es_value = obj.deep_copy();
    let mut es = match es_value {
        JsonValue::Obj(es) => es,
        _ => {
            return Result::Err(Fault::Extraction);
        },
    };
    let metadata_key = "metadata".to_string();
    let annotations_key = "annotations".to_string();
    let mes = match copy_obj_member(&es, &metadata_key) {
        Result::Ok(mes) => mes,
        Result::Err(f) => {
            return Result::Err(f);
        },
    };
    let mut aes = match copy_obj_member(&mes, &annotations_key) {
        Result::Ok(aes) => aes,
        Result::Err(f) => {
            return Result::Err(f);
        },
    };
    let ghost aes0 = jspec_of_entries(aes@);
    let ghost anns = settings@.annotations;
    proof {
        assert(anns.subrange(0, anns.len() as int) =~= anns);
    }
    let mut i: usize = 0;
    while i < settings.annotations.len()
        invariant
            i <= settings.annotations.len(),
            anns == settings@.annotations,
            anns.len() == settings.annotations.len(),
            forall|k: int|
                0 <= k < settings.annotations.len() ==> #[trigger] anns[k] == (
                settings.annotations@[k].0@,
                settings.annotations@[k].1@,
                ),
            merge_annotations(aes0, anns) == merge_annotations(
                jspec_of_entries(aes@),
                anns.subrange(i as int, anns.len() as int),
            ),
        decreases settings.annotations.len() - i,
    {
        let ghost before = jspec_of_entries(aes@);
        let value = JsonValue::Str(settings.annotations[i].1.clone());
        let key = settings.annotations[i].0.clone();
        set_entry_exec(&mut aes, &key, value);
        proof {
            let tail = anns.subrange(i as int, anns.len() as int);
            assert(tail[0] == anns[i as int]);
            assert(tail.subrange(1, tail.len() as int) =~= anns.subrange(
                i + 1,
                anns.len() as int,
            ));
        }
        i = i + 1;
    }
    proof {
        assert(anns.subrange(anns.len() as int, anns.len() as int) =~= Seq::<(
            Seq<char>,
            Seq<char>,
        )>::empty());
    }
    let mut mes_owned = mes;
    set_entry_exec(&mut mes_owned, &annotations_key, JsonValue::Obj(aes));
    set_entry_exec(&mut es, &metadata_key, JsonValue::Obj(mes_owned));
    Result::Ok(JsonValue::Obj(es))
}

/// What the mutating module decides for one review envelope: the request's
/// correlation id together with the transformed object, or a fault.
pub open spec fn spec_mutate(ar: AdmissionReviewView, anns: Seq<(Seq<char>, Seq<char>)>) -> Result<
    (Seq<char>, JsonSpec),
    Fault,
> {
    match ar.request {
        Option::None => Result::Err(Fault::Extraction),
        Option::Some(req) => match spec_transform(req.object, anns) {
            Option::None => Result::Err(Fault::Extraction),
            Option::Some(t) => Result::Ok((req.uid, t)),
        },
    }
}

/// Mutating admission, first half: extract the request and transform its
/// object. The caller serializes the transformed object and hands the bytes
/// to [`mutation_review`].
pub fn mutate(ar: &AdmissionReview, settings: &MutateSettings) -> (r: Result<
    (String, JsonValue),
    Fault,
>)
    ensures
        match r {
            Result::Ok(p) => spec_mutate(ar@, settings@.annotations) == Result::Ok::<_, Fault>(
                (p.0@, p.1@),
            ),
            Result::Err(f) => spec_mutate(ar@, settings@.annotations) == Result::Err::<
                (Seq<char>, JsonSpec),
                _,
            >(f),
        },
{
    let req = match &ar.request {
        Option::Some(req) => req,
        Option::None => {
            return Result::Err(Fault::Extraction);
        },
    };
    match transform(&req.object, settings) {
        Result::Ok(t) => Result::Ok((req.uid.clone(), t)),
        Result::Err(f) => Result::Err(f),
    }
}

/// The base64 text of a byte string, as the standard padded alphabet encodes
/// it.
pub uninterp spec fn b64_of(bytes: Seq<u8>) -> Seq<char>;

/// Relies on base64's `Engine::encode` with the standard padded engine: the
/// text depends on the input bytes alone, and an empty input encodes to an
/// empty text.
#[verifier::external_body]
fn b64_encode(bytes: &Vec<u8>) -> (r: String)
    ensures
        r@ == b64_of(bytes@),
        bytes@.len() == 0 ==> r@.len() == 0,
{
    base64::Engine::encode(&base64::engine::general_purpose::STANDARD, bytes)
}

/// A full-replacement patch: the serialized transformed object, base64
/// encoded, under the tag naming that scheme.
pub open spec fn spec_generate_patch(bytes: Seq<u8>) -> (Seq<char>, Seq<char>) {
    (b64_of(bytes), "Full"@)
}

/// Encode serialized object bytes as a patch with its scheme tag.
pub fn generate_patch(object_bytes: &Vec<u8>) -> (r: (String, String))
    ensures
        (r.0@, r.1@) == spec_generate_patch(object_bytes@),
{
    (b64_encode(object_bytes), "Full".to_string())
}

/// The response envelope of a successful mutation: the verdict allows, and
/// the patch carries exactly the base64 text of the serialized transformed
/// object under the full-replacement tag.
pub open spec fn spec_mutation_review(uid: Seq<char>, bytes: Seq<u8>) -> AdmissionReviewView {
    AdmissionReviewView {
        kind: Option::Some("AdmissionReview"@),
        api_version: Option::Some("admission.k8s.io/v1"@),
        request: Option::None,
        response: Option::Some(
            AdmissionResponseView {
                uid,
                allowed: true,
                patch: Option::Some(b64_of(bytes)),
                patch_type: Option::Some("Full"@),
            },
        ),
    }
}

/// Mutating admission, second half: wrap the serialized transformed object
/// into an allowing response under the request's correlation id.
pub fn mutation_review(uid: String, object_bytes: &Vec<u8>) -> (r: AdmissionReview)
    ensures
        r@ == spec_mutation_review(uid@, object_bytes@),
{
    let (patch, patch_type) = generate_patch(object_bytes);
    AdmissionReview {
        kind: Option::Some("AdmissionReview".to_string()),
        api_version: Option::Some("admission.k8s.io/v1".to_string()),
        request: Option::None,
        response: Option::Some(
            AdmissionResponse {
                uid,
                allowed: true,
                patch: Option::Some(patch),
                patch_type: Option::Some(patch_type),
            },
        ),
    }
}

/// The patch of a mutation response is exactly the base64 text of the bytes
/// it was built from: decoding the patch returns the serialized transformed
/// object.
pub proof fn lemma_patch_validity(uid: Seq<char>, bytes: Seq<u8>)
    ensures
        spec_mutation_review(uid, bytes).response matches Option::Some(resp) && resp.patch
            == Option::Some(b64_of(bytes)) && resp.patch_type == Option::Some("Full"@)
            && resp.allowed && resp.uid == uid,
{
}

/// Correlation: the mutating module's decision carries the request's uid,
/// and the response envelope built from it echoes that uid.
pub proof fn lemma_mutate_correlation(ar: AdmissionReviewView, anns: Seq<(Seq<char>, Seq<char>)>)
    requires
        spec_mutate(ar, anns) is Ok,
    ensures
        ar.request matches Option::Some(req) && spec_mutate(ar, anns) matches Result::Ok(p)
            && p.0 == req.uid,
{
}

} // verus!
