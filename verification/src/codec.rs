//! The envelope codec: each envelope encodes to a JSON document under the
//! wire's lower-camel-case member names, and decodes from one tolerantly —
//! unknown members are ignored, absent optional members stay absent, and an
//! ill-typed member is a decode fault. Decoding an encoded envelope gives the
//! envelope back.
use vstd::prelude::*;
use crate::decision::Fault;
use crate::envelope::AdmissionRequest;
use crate::envelope::AdmissionRequestView;
use crate::envelope::AdmissionResponse;
use crate::envelope::AdmissionResponseView;
use crate::envelope::AdmissionReview;
use crate::envelope::AdmissionReviewView;
use crate::envelope::GroupVersionKind;
use crate::envelope::GroupVersionKindView;
use crate::envelope::GroupVersionResource;
use crate::envelope::GroupVersionResourceView;
use crate::envelope::UserInfo;
use crate::envelope::UserInfoView;
use crate::envelope::strings_of;
use crate::json::JsonSpec;
use crate::json::JsonValue;
use crate::json::get;
use crate::json::jspec_of;
use crate::json::jspec_of_entries;
use crate::json::jspec_of_list;
use crate::json::lemma_jspec_of_entries;
use crate::json::lemma_jspec_of_list;
use crate::json::lookup;

verus! {

// ---------------------------------------------------------------------------
// Facts about `lookup` used by every round-trip proof.
// ---------------------------------------------------------------------------

/// When the first entry named `key` stands at `i`, that entry's value is the
/// lookup result.
pub proof fn lemma_lookup_at(es: Seq<(Seq<char>, JsonSpec)>, key: Seq<char>, i: int)
    requires
        0 <= i < es.len(),
        es[i].0 == key,
        forall|k: int| 0 <= k < i ==> (#[trigger] es[k]).0 != key,
    ensures
        lookup(es, key) == Option::Some(es[i].1),
    decreases i,
{
    if i == 0 {
    } else {
        lemma_lookup_at(es.subrange(1, es.len() as int), key, i - 1);
    }
}

/// When no entry bears `key`, the lookup finds nothing.
pub proof fn lemma_lookup_absent(es: Seq<(Seq<char>, JsonSpec)>, key: Seq<char>)
    requires
        forall|k: int| 0 <= k < es.len() ==> (#[trigger] es[k]).0 != key,
    ensures
        lookup(es, key) is None,
    decreases es,
{
    if es.len() != 0 {
        lemma_lookup_absent(es.subrange(1, es.len() as int), key);
    }
}

/// A lookup in a concatenation falls through to the second part when the
/// first has no entry under the key.
pub proof fn lemma_lookup_concat(
    a: Seq<(Seq<char>, JsonSpec)>,
    b: Seq<(Seq<char>, JsonSpec)>,
    key: Seq<char>,
)
    ensures
        lookup(a + b, key) == (match lookup(a, key) {
            Option::Some(v) => Option::Some(v),
            Option::None => lookup(b, key),
        }),
    decreases a,
{
    if a.len() == 0 {
        assert(a + b =~= b);
    } else {
        lemma_lookup_concat(a.subrange(1, a.len() as int), b, key);
        assert((a + b).subrange(1, (a + b).len() as int) =~= a.subrange(1, a.len() as int) + b);
    }
}

// ---------------------------------------------------------------------------
// Spec-level member shapes shared by the envelope codecs. A `None` result is
// a decode fault; absent members take the documented default.
// ---------------------------------------------------------------------------

/// A string member that defaults to the empty text when absent.
pub open spec fn dec_str_default(es: Seq<(Seq<char>, JsonSpec)>, key: Seq<char>) -> Option<
    Seq<char>,
> {
    match lookup(es, key) {
        Option::None => Option::Some(Seq::empty()),
        Option::Some(JsonSpec::Str(s)) => Option::Some(s),
        Option::Some(_) => Option::None,
    }
}

/// A boolean member that defaults to false when absent.
pub open spec fn dec_bool_default(es: Seq<(Seq<char>, JsonSpec)>, key: Seq<char>) -> Option<bool> {
    match lookup(es, key) {
        Option::None => Option::Some(false),
        Option::Some(JsonSpec::Bool(b)) => Option::Some(b),
        Option::Some(_) => Option::None,
    }
}

/// An optional string member: absent and null both mean absent.
pub open spec fn dec_opt_str(es: Seq<(Seq<char>, JsonSpec)>, key: Seq<char>) -> Option<
    Option<Seq<char>>,
> {
    match lookup(es, key) {
        Option::None => Option::Some(Option::None),
        Option::Some(JsonSpec::Null) => Option::Some(Option::None),
        Option::Some(JsonSpec::Str(s)) => Option::Some(Option::Some(s)),
        Option::Some(_) => Option::None,
    }
}

/// An opaque member, kept as it stands; absent means null.
pub open spec fn dec_json(es: Seq<(Seq<char>, JsonSpec)>, key: Seq<char>) -> JsonSpec {
    match lookup(es, key) {
        Option::None => JsonSpec::Null,
        Option::Some(j) => j,
    }
}

/// An open string-keyed map member, empty when absent.
pub open spec fn dec_entries_default(es: Seq<(Seq<char>, JsonSpec)>, key: Seq<char>) -> Option<
    Seq<(Seq<char>, JsonSpec)>,
> {
    match lookup(es, key) {
        Option::None => Option::Some(Seq::empty()),
        Option::Some(JsonSpec::Obj(inner)) => Option::Some(inner),
        Option::Some(_) => Option::None,
    }
}

/// The texts of an array of strings.
pub open spec fn dec_str_items(items: Seq<JsonSpec>) -> Option<Seq<Seq<char>>>
    decreases items,
{
    if items.len() == 0 {
        Option::Some(Seq::empty())
    } else {
        match items[0] {
            JsonSpec::Str(s) => match dec_str_items(items.subrange(1, items.len() as int)) {
                Option::Some(rest) => Option::Some(seq![s] + rest),
                Option::None => Option::None,
            },
            _ => Option::None,
        }
    }
}

/// A member holding an array of strings, empty when absent.
pub open spec fn dec_str_list_default(es: Seq<(Seq<char>, JsonSpec)>, key: Seq<char>) -> Option<
    Seq<Seq<char>>,
> {
    match lookup(es, key) {
        Option::None => Option::Some(Seq::empty()),
        Option::Some(JsonSpec::Arr(items)) => dec_str_items(items),
        Option::Some(_) => Option::None,
    }
}

/// An array of strings, element for element.
pub open spec fn enc_str_items(texts: Seq<Seq<char>>) -> Seq<JsonSpec> {
    texts.map_values(|s: Seq<char>| JsonSpec::Str(s))
}

pub proof fn lemma_str_items_round_trip(texts: Seq<Seq<char>>)
    ensures
        dec_str_items(enc_str_items(texts)) == Option::Some(texts),
    decreases texts,
{
    if texts.len() != 0 {
        lemma_str_items_round_trip(texts.subrange(1, texts.len() as int));
        assert(enc_str_items(texts).subrange(1, texts.len() as int) =~= enc_str_items(
            texts.subrange(1, texts.len() as int),
        ));
        assert(seq![texts[0]] + texts.subrange(1, texts.len() as int) =~= texts);
    }
}

/// The entry for an optional string member: emitted only when present.
pub open spec fn enc_opt_str_entry(key: Seq<char>, o: Option<Seq<char>>) -> Seq<
    (Seq<char>, JsonSpec),
> {
    match o {
        Option::Some(s) => seq![(key, JsonSpec::Str(s))],
        Option::None => Seq::empty(),
    }
}

// ---------------------------------------------------------------------------
// Group/version structures.
// ---------------------------------------------------------------------------

pub open spec fn enc_gvk(v: GroupVersionKindView) -> JsonSpec {
    JsonSpec::Obj(
        seq![
            ("group"@, JsonSpec::Str(v.group)),
            ("version"@, JsonSpec::Str(v.version)),
            ("kind"@, JsonSpec::Str(v.kind)),
        ],
    )
}

pub open spec fn dec_gvk_entries(es: Seq<(Seq<char>, JsonSpec)>) -> Option<GroupVersionKindView> {
    let group = dec_str_default(es, "group"@);
    let version = dec_str_default(es, "version"@);
    let kind = dec_str_default(es, "kind"@);
    if group is Some && version is Some && kind is Some {
        Option::Some(
            GroupVersionKindView {
                group: group.unwrap(),
                version: version.unwrap(),
                kind: kind.unwrap(),
            },
        )
    } else {
        Option::None
    }
}

/// A group/version/kind member defaults to empty texts when absent.
pub open spec fn dec_gvk_default(es: Seq<(Seq<char>, JsonSpec)>, key: Seq<char>) -> Option<
    GroupVersionKindView,
> {
    match lookup(es, key) {
        Option::None => Option::Some(
            GroupVersionKindView {
                group: Seq::empty(),
                version: Seq::empty(),
                kind: Seq::empty(),
            },
        ),
        Option::Some(JsonSpec::Obj(inner)) => dec_gvk_entries(inner),
        Option::Some(_) => Option::None,
    }
}

pub open spec fn enc_gvr(v: GroupVersionResourceView) -> JsonSpec {
    JsonSpec::Obj(
        seq![
            ("group"@, JsonSpec::Str(v.group)),
            ("version"@, JsonSpec::Str(v.version)),
            ("kind"@, JsonSpec::Str(v.kind)),
        ],
    )
}

pub open spec fn dec_gvr_default(es: Seq<(Seq<char>, JsonSpec)>, key: Seq<char>) -> Option<
    GroupVersionResourceView,
> {
    match lookup(es, key) {
        Option::None => Option::Some(
            GroupVersionResourceView {
                group: Seq::empty(),
                version: Seq::empty(),
                kind: Seq::empty(),
            },
        ),
        Option::Some(JsonSpec::Obj(inner)) => match dec_gvk_entries(inner) {
            Option::Some(g) => Option::Some(
                GroupVersionResourceView { group: g.group, version: g.version, kind: g.kind },
            ),
            Option::None => Option::None,
        },
        Option::Some(_) => Option::None,
    }
}

proof fn lemma_gvk_round_trip(v: GroupVersionKindView)
    ensures
        enc_gvk(v) matches JsonSpec::Obj(es) && dec_gvk_entries(es) == Option::Some(v),
{
    let es = enc_gvk(v)->Obj_0;
    reveal_strlit("group");
    reveal_strlit("version");
    reveal_strlit("kind");
    assert(("group"@).len() == 5);
    assert(("version"@).len() == 7);
    assert(("kind"@).len() == 4);
    lemma_lookup_at(es, "group"@, 0);
    lemma_lookup_at(es, "version"@, 1);
    lemma_lookup_at(es, "kind"@, 2);
}

// ---------------------------------------------------------------------------
// UserInfo.
// ---------------------------------------------------------------------------

pub open spec fn enc_user_info(u: UserInfoView) -> JsonSpec {
    JsonSpec::Obj(
        seq![
            ("username"@, JsonSpec::Str(u.username)),
            ("uid"@, JsonSpec::Str(u.uid)),
            ("groups"@, JsonSpec::Arr(enc_str_items(u.groups))),
            ("extra"@, JsonSpec::Obj(u.extra)),
        ],
    )
}

pub open spec fn dec_user_info_entries(es: Seq<(Seq<char>, JsonSpec)>) -> Option<UserInfoView> {
    let username = dec_str_default(es, "username"@);
    let uid = dec_str_default(es, "uid"@);
    let groups = dec_str_list_default(es, "groups"@);
    let extra = dec_entries_default(es, "extra"@);
    if username is Some && uid is Some && groups is Some && extra is Some {
        Option::Some(
            UserInfoView {
                username: username.unwrap(),
                uid: uid.unwrap(),
                groups: groups.unwrap(),
                extra: extra.unwrap(),
            },
        )
    } else {
        Option::None
    }
}

/// A user-info member defaults to an anonymous empty identity when absent.
pub open spec fn dec_user_info_default(es: Seq<(Seq<char>, JsonSpec)>, key: Seq<char>) -> Option<
    UserInfoView,
> {
    match lookup(es, key) {
        Option::None => Option::Some(
            UserInfoView {
                username: Seq::empty(),
                uid: Seq::empty(),
                groups: Seq::empty(),
                extra: Seq::empty(),
            },
        ),
        Option::Some(JsonSpec::Obj(inner)) => dec_user_info_entries(inner),
        Option::Some(_) => Option::None,
    }
}

pub proof fn lemma_user_info_round_trip(u: UserInfoView)
    ensures
        enc_user_info(u) matches JsonSpec::Obj(es) && dec_user_info_entries(es) == Option::Some(u),
{
    let es = enc_user_info(u)->Obj_0;
    reveal_strlit("username");
    reveal_strlit("uid");
    reveal_strlit("groups");
    reveal_strlit("extra");
    assert(("username"@).len() == 8);
    assert(("uid"@).len() == 3);
    assert(("groups"@).len() == 6);
    assert(("extra"@).len() == 5);
    lemma_lookup_at(es, "username"@, 0);
    lemma_lookup_at(es, "uid"@, 1);
    lemma_lookup_at(es, "groups"@, 2);
    lemma_lookup_at(es, "extra"@, 3);
    lemma_str_items_round_trip(u.groups);
}

// ---------------------------------------------------------------------------
// AdmissionResponse.
// ---------------------------------------------------------------------------

pub open spec fn enc_admission_response(p: AdmissionResponseView) -> JsonSpec {
    JsonSpec::Obj(
        seq![("uid"@, JsonSpec::Str(p.uid)), ("allowed"@, JsonSpec::Bool(p.allowed))]
            + enc_opt_str_entry("patch"@, p.patch) + enc_opt_str_entry(
            "patchType"@,
            p.patch_type,
        ),
    )
}

pub open spec fn dec_admission_response_entries(es: Seq<(Seq<char>, JsonSpec)>) -> Option<
    AdmissionResponseView,
> {
    let uid = dec_str_default(es, "uid"@);
    let allowed = dec_bool_default(es, "allowed"@);
    let patch = dec_opt_str(es, "patch"@);
    let patch_type = dec_opt_str(es, "patchType"@);
    if uid is Some && allowed is Some && patch is Some && patch_type is Some {
        Option::Some(
            AdmissionResponseView {
                uid: uid.unwrap(),
                allowed: allowed.unwrap(),
                patch: patch.unwrap(),
                patch_type: patch_type.unwrap(),
            },
        )
    } else {
        Option::None
    }
}

proof fn lemma_admission_response_round_trip(p: AdmissionResponseView)
    ensures
        enc_admission_response(p) matches JsonSpec::Obj(es) && dec_admission_response_entries(es)
            == Option::Some(p),
{
    reveal_strlit("uid");
    reveal_strlit("allowed");
    reveal_strlit("patch");
    reveal_strlit("patchType");
    assert(("uid"@).len() == 3);
    assert(("allowed"@).len() == 7);
    assert(("patch"@).len() == 5);
    assert(("patchType"@).len() == 9);
    let a: Seq<(Seq<char>, JsonSpec)> = seq![
        ("uid"@, JsonSpec::Str(p.uid)),
        ("allowed"@, JsonSpec::Bool(p.allowed)),
    ];
    let b = enc_opt_str_entry("patch"@, p.patch);
    let c = enc_opt_str_entry("patchType"@, p.patch_type);
    let es = a + b + c;
    assert forall|key: Seq<char>|
        key == "uid"@ || key == "allowed"@ || key == "patch"@ || key
            == "patchType"@ implies lookup(es, key) == (if key == "uid"@ || key == "allowed"@ {
        lookup(a, key)
    } else if key == "patch"@ {
        lookup(b, key)
    } else {
        lookup(c, key)
    }) by {
        lemma_lookup_concat(a + b, c, key);
        lemma_lookup_concat(a, b, key);
        assert(a + b + c == es);
        if key != "uid"@ && key != "allowed"@ {
            lemma_lookup_absent(a, key);
        }
        if key != "patch"@ {
            lemma_lookup_absent(b, key);
        }
        if key != "patchType"@ {
            lemma_lookup_absent(c, key);
        }
    }
    lemma_lookup_at(a, "uid"@, 0);
    lemma_lookup_at(a, "allowed"@, 1);
    match p.patch {
        Option::Some(_) => lemma_lookup_at(b, "patch"@, 0),
        Option::None => lemma_lookup_absent(b, "patch"@),
    }
    match p.patch_type {
        Option::Some(_) => lemma_lookup_at(c, "patchType"@, 0),
        Option::None => lemma_lookup_absent(c, "patchType"@),
    }
}

// ---------------------------------------------------------------------------
// AdmissionRequest.
// ---------------------------------------------------------------------------

pub open spec fn enc_admission_request(r: AdmissionRequestView) -> JsonSpec {
    JsonSpec::Obj(
        seq![
            ("uid"@, JsonSpec::Str(r.uid)),
            ("kind"@, enc_gvk(r.kind)),
            ("resource"@, enc_gvr(r.resource)),
            ("subResource"@, JsonSpec::Str(r.sub_resource)),
            ("requestKind"@, enc_gvk(r.request_kind)),
            ("requestResource"@, enc_gvk(r.request_resource)),
            ("requestSubResource"@, JsonSpec::Str(r.request_sub_resource)),
            ("name"@, JsonSpec::Str(r.name)),
            ("namespace"@, JsonSpec::Str(r.namespace)),
            ("operation"@, JsonSpec::Str(r.operation)),
            ("userInfo"@, enc_user_info(r.user_info)),
            ("object"@, r.object),
            ("oldObject"@, r.old_object),
            ("dryRun"@, JsonSpec::Bool(r.dry_run)),
            ("options"@, JsonSpec::Obj(r.options)),
        ],
    )
}

pub open spec fn dec_admission_request(j: JsonSpec) -> Option<AdmissionRequestView> {
    match j {
        JsonSpec::Obj(es) => {
            let uid = dec_str_default(es, "uid"@);
            let kind = dec_gvk_default(es, "kind"@);
            let resource = dec_gvr_default(es, "resource"@);
            let sub_resource = dec_str_default(es, "subResource"@);
            let request_kind = dec_gvk_default(es, "requestKind"@);
            let request_resource = dec_gvk_default(es, "requestResource"@);
            let request_sub_resource = dec_str_default(es, "requestSubResource"@);
            let name = dec_str_default(es, "name"@);
            let namespace = dec_str_default(es, "namespace"@);
            let operation = dec_str_default(es, "operation"@);
            let user_info = dec_user_info_default(es, "userInfo"@);
            let object = dec_json(es, "object"@);
            let old_object = dec_json(es, "oldObject"@);
            let dry_run = dec_bool_default(es, "dryRun"@);
            let options = dec_entries_default(es, "options"@);
            if uid is Some && kind is Some && resource is Some && sub_resource is Some
                && request_kind is Some && request_resource is Some && request_sub_resource is Some
                && name is Some && namespace is Some && operation is Some && user_info is Some
                && dry_run is Some && options is Some {
                Option::Some(
                    AdmissionRequestView {
                        uid: uid.unwrap(),
                        kind: kind.unwrap(),
                        resource: resource.unwrap(),
                        sub_resource: sub_resource.unwrap(),
                        request_kind: request_kind.unwrap(),
                        request_resource: request_resource.unwrap(),
                        request_sub_resource: request_sub_resource.unwrap(),
                        name: name.unwrap(),
                        namespace: namespace.unwrap(),
                        operation: operation.unwrap(),
                        user_info: user_info.unwrap(),
                        object,
                        old_object,
                        dry_run: dry_run.unwrap(),
                        options: options.unwrap(),
                    },
                )
            } else {
                Option::None
            }
        },
        _ => Option::None,
    }
}

proof fn lemma_admission_request_round_trip(r: AdmissionRequestView)
    ensures
        dec_admission_request(enc_admission_request(r)) == Option::Some(r),
{
    let es = enc_admission_request(r)->Obj_0;
    reveal_strlit("uid");
    reveal_strlit("kind");
    reveal_strlit("resource");
    reveal_strlit("subResource");
    reveal_strlit("requestKind");
    reveal_strlit("requestResource");
    reveal_strlit("requestSubResource");
    reveal_strlit("name");
    reveal_strlit("namespace");
    reveal_strlit("operation");
    reveal_strlit("userInfo");
    reveal_strlit("object");
    reveal_strlit("oldObject");
    reveal_strlit("dryRun");
    reveal_strlit("options");
    assert(("uid"@).len() == 3);
    assert(("kind"@).len() == 4 && ("kind"@)[0] == 'k');
    assert(("resource"@).len() == 8 && ("resource"@)[0] == 'r');
    assert(("subResource"@).len() == 11 && ("subResource"@)[0] == 's');
    assert(("requestKind"@).len() == 11 && ("requestKind"@)[0] == 'r');
    assert(("requestResource"@).len() == 15);
    assert(("requestSubResource"@).len() == 18);
    assert(("name"@).len() == 4 && ("name"@)[0] == 'n');
    assert(("namespace"@).len() == 9 && ("namespace"@)[0] == 'n');
    assert(("operation"@).len() == 9 && ("operation"@)[0] == 'o' && ("operation"@)[1] == 'p');
    assert(("userInfo"@).len() == 8 && ("userInfo"@)[0] == 'u');
    assert(("object"@).len() == 6 && ("object"@)[0] == 'o');
    assert(("oldObject"@).len() == 9 && ("oldObject"@)[0] == 'o' && ("oldObject"@)[1] == 'l');
    assert(("dryRun"@).len() == 6 && ("dryRun"@)[0] == 'd');
    assert(("options"@).len() == 7 && ("options"@)[0] == 'o');
    lemma_lookup_at(es, "uid"@, 0);
    lemma_lookup_at(es, "kind"@, 1);
    lemma_lookup_at(es, "resource"@, 2);
    lemma_lookup_at(es, "subResource"@, 3);
    lemma_lookup_at(es, "requestKind"@, 4);
    lemma_lookup_at(es, "requestResource"@, 5);
    lemma_lookup_at(es, "requestSubResource"@, 6);
    lemma_lookup_at(es, "name"@, 7);
    lemma_lookup_at(es, "namespace"@, 8);
    lemma_lookup_at(es, "operation"@, 9);
    lemma_lookup_at(es, "userInfo"@, 10);
    lemma_lookup_at(es, "object"@, 11);
    lemma_lookup_at(es, "oldObject"@, 12);
    lemma_lookup_at(es, "dryRun"@, 13);
    lemma_lookup_at(es, "options"@, 14);
    lemma_gvk_round_trip(r.kind);
    lemma_gvk_round_trip(
        GroupVersionKindView {
            group: r.resource.group,
            version: r.resource.version,
            kind: r.resource.kind,
        },
    );
    lemma_gvk_round_trip(r.request_kind);
    lemma_gvk_round_trip(r.request_resource);
    lemma_user_info_round_trip(r.user_info);
}

// ---------------------------------------------------------------------------
// AdmissionReview.
// ---------------------------------------------------------------------------

pub open spec fn enc_admission_review(v: AdmissionReviewView) -> JsonSpec {
    JsonSpec::Obj(
        enc_opt_str_entry("kind"@, v.kind) + enc_opt_str_entry("apiVersion"@, v.api_version) + (
        match v.request {
            Option::Some(r) => seq![("request"@, enc_admission_request(r))],
            Option::None => Seq::empty(),
        }) + (match v.response {
            Option::Some(p) => seq![("response"@, enc_admission_response(p))],
            Option::None => Seq::empty(),
        }),
    )
}

pub open spec fn dec_admission_review(j: JsonSpec) -> Option<AdmissionReviewView> {
    match j {
        JsonSpec::Obj(es) => {
            let kind = dec_opt_str(es, "kind"@);
            let api_version = dec_opt_str(es, "apiVersion"@);
            let request = match lookup(es, "request"@) {
                Option::None => Option::Some(Option::None),
                Option::Some(JsonSpec::Null) => Option::Some(Option::None),
                Option::Some(rj) => match dec_admission_request(rj) {
                    Option::Some(r) => Option::Some(Option::Some(r)),
                    Option::None => Option::None,
                },
            };
            let response = match lookup(es, "response"@) {
                Option::None => Option::Some(Option::None),
                Option::Some(JsonSpec::Null) => Option::Some(Option::None),
                Option::Some(pj) => match pj {
                    JsonSpec::Obj(pes) => match dec_admission_response_entries(pes) {
                        Option::Some(p) => Option::Some(Option::Some(p)),
                        Option::None => Option::None,
                    },
                    _ => Option::None,
                },
            };
            if kind is Some && api_version is Some && request is Some && response is Some {
                Option::Some(
                    AdmissionReviewView {
                        kind: kind.unwrap(),
                        api_version: api_version.unwrap(),
                        request: request.unwrap(),
                        response: response.unwrap(),
                    },
                )
            } else {
                Option::None
            }
        },
        _ => Option::None,
    }
}

/// Decoding an encoded admission review yields it back: populated members
/// survive unchanged and absent optional members stay absent.
pub proof fn lemma_admission_review_round_trip(v: AdmissionReviewView)
    ensures
        dec_admission_review(enc_admission_review(v)) == Option::Some(v),
{
    reveal_strlit("kind");
    reveal_strlit("apiVersion");
    reveal_strlit("request");
    reveal_strlit("response");
    assert(("kind"@).len() == 4);
    assert(("apiVersion"@).len() == 10);
    assert(("request"@).len() == 7);
    assert(("response"@).len() == 8);
    let a = enc_opt_str_entry("kind"@, v.kind);
    let b = enc_opt_str_entry("apiVersion"@, v.api_version);
    let c: Seq<(Seq<char>, JsonSpec)> = match v.request {
        Option::Some(r) => seq![("request"@, enc_admission_request(r))],
        Option::None => Seq::empty(),
    };
    let d: Seq<(Seq<char>, JsonSpec)> = match v.response {
        Option::Some(p) => seq![("response"@, enc_admission_response(p))],
        Option::None => Seq::empty(),
    };
    let es = a + b + c + d;
    assert forall|key: Seq<char>|
        key == "kind"@ || key == "apiVersion"@ || key == "request"@ || key
            == "response"@ implies lookup(es, key) == (if key == "kind"@ {
        lookup(a, key)
    } else if key == "apiVersion"@ {
        lookup(b, key)
    } else if key == "request"@ {
        lookup(c, key)
    } else {
        lookup(d, key)
    }) by {
        lemma_lookup_concat(a + b + c, d, key);
        lemma_lookup_concat(a + b, c, key);
        lemma_lookup_concat(a, b, key);
        assert(a + b + c + d == es);
        if key != "kind"@ {
            lemma_lookup_absent(a, key);
        }
        if key != "apiVersion"@ {
            lemma_lookup_absent(b, key);
        }
        if key != "request"@ {
            lemma_lookup_absent(c, key);
        }
        if key != "response"@ {
            lemma_lookup_absent(d, key);
        }
    }
    if v.kind is Some {
        lemma_lookup_at(a, "kind"@, 0);
    } else {
        lemma_lookup_absent(a, "kind"@);
    }
    if v.api_version is Some {
        lemma_lookup_at(b, "apiVersion"@, 0);
    } else {
        lemma_lookup_absent(b, "apiVersion"@);
    }
    if v.request is Some {
        lemma_lookup_at(c, "request"@, 0);
        lemma_admission_request_round_trip(v.request.unwrap());
    } else {
        lemma_lookup_absent(c, "request"@);
    }
    if v.response is Some {
        lemma_lookup_at(d, "response"@, 0);
        lemma_admission_response_round_trip(v.response.unwrap());
    } else {
        lemma_lookup_absent(d, "response"@);
    }
}


// ---------------------------------------------------------------------------
// Executable codec, admission family.
// ---------------------------------------------------------------------------

pub(crate) fn encode_str_list(groups: Vec<String>) -> (r: JsonValue)
    ensures
        r@ == JsonSpec::Arr(enc_str_items(strings_of(groups@))),
{
    let mut items: Vec<JsonValue> = Vec::new();
    let mut i: usize = 0;
    while i < groups.len()
        invariant
            i <= groups.len(),
            items.len() == i,
            forall|k: int|
                0 <= k < i ==> #[trigger] jspec_of(items@[k]) == JsonSpec::Str(groups@[k]@),
        decreases groups.len() - i,
    {
        items.push(JsonValue::Str(groups[i].clone()));
        i = i + 1;
    }
    proof {
        lemma_jspec_of_list(items@);
        assert(jspec_of_list(items@) =~= enc_str_items(strings_of(groups@)));
    }
    JsonValue::Arr(items)
}

fn encode_gvk(g: GroupVersionKind) -> (r: JsonValue)
    ensures
        r@ == enc_gvk(g@),
{
    let ghost gv = g@;
    let mut es: Vec<(String, JsonValue)> = Vec::new();
    es.push(("group".to_string(), JsonValue::Str(g.group)));
    es.push(("version".to_string(), JsonValue::Str(g.version)));
    es.push(("kind".to_string(), JsonValue::Str(g.kind)));
    proof {
        lemma_jspec_of_entries(es@);
        assert(jspec_of_entries(es@) =~= enc_gvk(gv)->Obj_0);
    }
    JsonValue::Obj(es)
}

fn encode_gvr(g: GroupVersionResource) -> (r: JsonValue)
    ensures
        r@ == enc_gvr(g@),
{
    let ghost gv = g@;
    let mut es: Vec<(String, JsonValue)> = Vec::new();
    es.push(("group".to_string(), JsonValue::Str(g.group)));
    es.push(("version".to_string(), JsonValue::Str(g.version)));
    es.push(("kind".to_string(), JsonValue::Str(g.kind)));
    proof {
        lemma_jspec_of_entries(es@);
        assert(jspec_of_entries(es@) =~= enc_gvr(gv)->Obj_0);
    }
    JsonValue::Obj(es)
}

pub(crate) fn encode_user_info(u: UserInfo) -> (r: JsonValue)
    ensures
        r@ == enc_user_info(u@),
{
    let ghost uv = u@;
    let mut es: Vec<(String, JsonValue)> = Vec::new();
    es.push(("username".to_string(), JsonValue::Str(u.username)));
    es.push(("uid".to_string(), JsonValue::Str(u.uid)));
    es.push(("groups".to_string(), encode_str_list(u.groups)));
    es.push(("extra".to_string(), JsonValue::Obj(u.extra)));
    proof {
        lemma_jspec_of_entries(es@);
        assert(jspec_of_entries(es@) =~= enc_user_info(uv)->Obj_0);
    }
    JsonValue::Obj(es)
}

fn encode_admission_response(p: AdmissionResponse) -> (r: JsonValue)
    ensures
        r@ == enc_admission_response(p@),
{
    let ghost pv = p@;
    let mut es: Vec<(String, JsonValue)> = Vec::new();
    es.push(("uid".to_string(), JsonValue::Str(p.uid)));
    es.push(("allowed".to_string(), JsonValue::Bool(p.allowed)));
    match p.patch {
        Option::Some(s) => es.push(("patch".to_string(), JsonValue::Str(s))),
        Option::None => (),
    }
    match p.patch_type {
        Option::Some(s) => es.push(("patchType".to_string(), JsonValue::Str(s))),
        Option::None => (),
    }
    proof {
        lemma_jspec_of_entries(es@);
        assert(jspec_of_entries(es@) =~= enc_admission_response(pv)->Obj_0);
    }
    JsonValue::Obj(es)
}

fn encode_admission_request(q: AdmissionRequest) -> (r: JsonValue)
    ensures
        r@ == enc_admission_request(q@),
{
    let ghost qv = q@;
    let mut es: Vec<(String, JsonValue)> = Vec::new();
    es.push(("uid".to_string(), JsonValue::Str(q.uid)));
    es.push(("kind".to_string(), encode_gvk(q.kind)));
    es.push(("resource".to_string(), encode_gvr(q.resource)));
    es.push(("subResource".to_string(), JsonValue::Str(q.sub_resource)));
    es.push(("requestKind".to_string(), encode_gvk(q.request_kind)));
    es.push(("requestResource".to_string(), encode_gvk(q.request_resource)));
    es.push(("requestSubResource".to_string(), JsonValue::Str(q.request_sub_resource)));
    es.push(("name".to_string(), JsonValue::Str(q.name)));
    es.push(("namespace".to_string(), JsonValue::Str(q.namespace)));
    es.push(("operation".to_string(), JsonValue::Str(q.operation)));
    es.push(("userInfo".to_string(), encode_user_info(q.user_info)));
    es.push(("object".to_string(), q.object));
    es.push(("oldObject".to_string(), q.old_object));
    es.push(("dryRun".to_string(), JsonValue::Bool(q.dry_run)));
    es.push(("options".to_string(), JsonValue::Obj(q.options)));
    proof {
        lemma_jspec_of_entries(es@);
        assert(jspec_of_entries(es@) =~= enc_admission_request(qv)->Obj_0);
    }
    JsonValue::Obj(es)
}

/// Encode one admission review envelope, emitting only the populated
/// optional members.
pub fn encode_admission_review(v: AdmissionReview) -> (r: JsonValue)
    ensures
        r@ == enc_admission_review(v@),
{
    let ghost vv = v@;
    let mut es: Vec<(String, JsonValue)> = Vec::new();
    match v.kind {
        Option::Some(s) => es.push(("kind".to_string(), JsonValue::Str(s))),
        Option::None => (),
    }
    match v.api_version {
        Option::Some(s) => es.push(("apiVersion".to_string(), JsonValue::Str(s))),
        Option::None => (),
    }
    match v.request {
        Option::Some(q) => es.push(("request".to_string(), encode_admission_request(q))),
        Option::None => (),
    }
    match v.response {
        Option::Some(p) => es.push(("response".to_string(), encode_admission_response(p))),
        Option::None => (),
    }
    proof {
        lemma_jspec_of_entries(es@);
        assert(jspec_of_entries(es@) =~= enc_admission_review(vv)->Obj_0);
    }
    JsonValue::Obj(es)
}


// ---------------------------------------------------------------------------
// Executable decoding, admission family. A decode fault is fatal.
// ---------------------------------------------------------------------------

fn dec_str_default_x(es: &Vec<(String, JsonValue)>, key: &String) -> (r: Option<String>)
    ensures
        match r {
            Option::Some(s) => dec_str_default(jspec_of_entries(es@), key@) == Option::Some(s@),
            Option::None => dec_str_default(jspec_of_entries(es@), key@) is None,
        },
{
    match get(es, key) {
        Option::None => Option::Some(String::new()),
        Option::Some(JsonValue::Str(s)) => Option::Some(s.clone()),
        Option::Some(_) => Option::None,
    }
}

fn dec_bool_default_x(es: &Vec<(String, JsonValue)>, key: &String) -> (r: Option<bool>)
    ensures
        match r {
            Option::Some(b) => dec_bool_default(jspec_of_entries(es@), key@) == Option::Some(b),
            Option::None => dec_bool_default(jspec_of_entries(es@), key@) is None,
        },
{
    match get(es, key) {
        Option::None => Option::Some(false),
        Option::Some(JsonValue::Bool(b)) => Option::Some(*b),
        Option::Some(_) => Option::None,
    }
}

pub(crate) fn dec_opt_str_x(es: &Vec<(String, JsonValue)>, key: &String) -> (r: Option<Option<String>>)
    ensures
        match r {
            Option::Some(o) => dec_opt_str(jspec_of_entries(es@), key@) == Option::Some(
                crate::envelope::opt_string_of(o),
            ),
            Option::None => dec_opt_str(jspec_of_entries(es@), key@) is None,
        },
{
    match get(es, key) {
        Option::None => Option::Some(Option::None),
        Option::Some(JsonValue::Null) => Option::Some(Option::None),
        Option::Some(JsonValue::Str(s)) => Option::Some(Option::Some(s.clone())),
        Option::Some(_) => Option::None,
    }
}

fn dec_json_x(es: &Vec<(String, JsonValue)>, key: &String) -> (r: JsonValue)
    ensures
        r@ == dec_json(jspec_of_entries(es@), key@),
{
    match get(es, key) {
        Option::None => JsonValue::Null,
        Option::Some(j) => j.deep_copy(),
    }
}

fn dec_entries_default_x(es: &Vec<(String, JsonValue)>, key: &String) -> (r: Option<
    Vec<(String, JsonValue)>,
>)
    ensures
        match r {
            Option::Some(inner) => dec_entries_default(jspec_of_entries(es@), key@)
                == Option::Some(jspec_of_entries(inner@)),
            Option::None => dec_entries_default(jspec_of_entries(es@), key@) is None,
        },
{
    match get(es, key) {
        Option::None => {
            proof {
                assert(jspec_of_entries(Seq::<(String, JsonValue)>::empty()) =~= Seq::<(
                    Seq<char>,
                    JsonSpec,
                )>::empty());
            }
            Option::Some(Vec::new())
        },
        Option::Some(member) => {
            let copied = member.deep_copy();
            match copied {
                JsonValue::Obj(inner) => Option::Some(inner),
                _ => Option::None,
            }
        },
    }
}

pub(crate) fn dec_str_items_x(items: &Vec<JsonValue>) -> (r: Option<Vec<String>>)
    ensures
        match r {
            Option::Some(texts) => dec_str_items(jspec_of_list(items@)) == Option::Some(
                strings_of(texts@),
            ),
            Option::None => dec_str_items(jspec_of_list(items@)) is None,
        },
{
    proof {
        lemma_jspec_of_list(items@);
    }
    let ghost whole = jspec_of_list(items@);
    proof {
        assert(whole.subrange(0, whole.len() as int) =~= whole);
        assert(strings_of(Seq::<String>::empty()) =~= Seq::<Seq<char>>::empty());
        match dec_str_items(whole) {
            Option::Some(rest) => {
                assert(Seq::<Seq<char>>::empty() + rest =~= rest);
            },
            Option::None => {},
        }
    }
    let mut texts: Vec<String> = Vec::new();
    let mut i: usize = 0;
    while i < items.len()
        invariant
            i <= items.len(),
            texts.len() == i,
            whole == jspec_of_list(items@),
            whole.len() == items@.len(),
            forall|k: int| 0 <= k < items@.len() ==> #[trigger] whole[k] == jspec_of(items@[k]),
            forall|k: int| 0 <= k < i ==> #[trigger] whole[k] == JsonSpec::Str(texts@[k]@),
            dec_str_items(whole) == (match dec_str_items(whole.subrange(i as int, whole.len() as int)) {
                Option::Some(rest) => Option::Some(strings_of(texts@) + rest),
                Option::None => Option::None::<Seq<Seq<char>>>,
            }),
        decreases items.len() - i,
    {
        let ghost pre = whole.subrange(i as int, whole.len() as int);
        match &items[i] {
            JsonValue::Str(s) => {
                let ghost texts0 = texts@;
                texts.push(s.clone());
                proof {
                    assert(pre[0] == whole[i as int]);
                    assert(pre.subrange(1, pre.len() as int) =~= whole.subrange(
                        i + 1,
                        whole.len() as int,
                    ));
                    assert(texts@.subrange(0, i as int) =~= texts0);
                    lemma_dec_str_items_prepend(whole, texts@, i as int);
                }
            },
            _ => {
                proof {
                    assert(pre[0] == whole[i as int]);
                }
                return Option::None;
            },
        }
        i = i + 1;
    }
    proof {
        assert(whole.subrange(whole.len() as int, whole.len() as int) =~= Seq::<JsonSpec>::empty());
        assert(strings_of(texts@) + Seq::<Seq<char>>::empty() =~= strings_of(texts@));
    }
    Option::Some(texts)
}

/// Splitting one decoded string off the front keeps the combined result.
proof fn lemma_dec_str_items_prepend(whole: Seq<JsonSpec>, texts: Seq<String>, i: int)
    requires
        0 <= i < whole.len(),
        texts.len() == i + 1,
        whole[i] == JsonSpec::Str(texts[i]@),
        dec_str_items(whole) == (match dec_str_items(whole.subrange(i, whole.len() as int)) {
            Option::Some(rest) => Option::Some(strings_of(texts.subrange(0, i)) + rest),
            Option::None => Option::None::<Seq<Seq<char>>>,
        }),
    ensures
        dec_str_items(whole) == (match dec_str_items(whole.subrange(i + 1, whole.len() as int)) {
            Option::Some(rest) => Option::Some(strings_of(texts) + rest),
            Option::None => Option::None::<Seq<Seq<char>>>,
        }),
{
    let pre = whole.subrange(i, whole.len() as int);
    assert(pre[0] == whole[i]);
    assert(pre.subrange(1, pre.len() as int) =~= whole.subrange(i + 1, whole.len() as int));
    match dec_str_items(whole.subrange(i + 1, whole.len() as int)) {
        Option::Some(rest) => {
            assert(strings_of(texts.subrange(0, i)) + (seq![texts[i]@] + rest) =~= strings_of(
                texts,
            ) + rest);
        },
        Option::None => {},
    }
}

fn dec_str_list_default_x(es: &Vec<(String, JsonValue)>, key: &String) -> (r: Option<Vec<String>>)
    ensures
        match r {
            Option::Some(texts) => dec_str_list_default(jspec_of_entries(es@), key@)
                == Option::Some(strings_of(texts@)),
            Option::None => dec_str_list_default(jspec_of_entries(es@), key@) is None,
        },
{
    match get(es, key) {
        Option::None => {
            proof {
                assert(strings_of(Seq::<String>::empty()) =~= Seq::<Seq<char>>::empty());
            }
            Option::Some(Vec::new())
        },
        Option::Some(JsonValue::Arr(items)) => dec_str_items_x(items),
        Option::Some(_) => Option::None,
    }
}

fn dec_gvk_default_x(es: &Vec<(String, JsonValue)>, key: &String) -> (r: Option<GroupVersionKind>)
    ensures
        match r {
            Option::Some(g) => dec_gvk_default(jspec_of_entries(es@), key@) == Option::Some(g@),
            Option::None => dec_gvk_default(jspec_of_entries(es@), key@) is None,
        },
{
    match get(es, key) {
        Option::None => Option::Some(
            GroupVersionKind {
                group: String::new(),
                version: String::new(),
                kind: String::new(),
            },
        ),
        Option::Some(JsonValue::Obj(inner)) => {
            let group = dec_str_default_x(inner, &"group".to_string());
            let version = dec_str_default_x(inner, &"version".to_string());
            let kind = dec_str_default_x(inner, &"kind".to_string());
            match (group, version, kind) {
                (Option::Some(group), Option::Some(version), Option::Some(kind)) => Option::Some(
                    GroupVersionKind { group, version, kind },
                ),
                _ => Option::None,
            }
        },
        Option::Some(_) => Option::None,
    }
}

fn dec_gvr_default_x(es: &Vec<(String, JsonValue)>, key: &String) -> (r: Option<
    GroupVersionResource,
>)
    ensures
        match r {
            Option::Some(g) => dec_gvr_default(jspec_of_entries(es@), key@) == Option::Some(g@),
            Option::None => dec_gvr_default(jspec_of_entries(es@), key@) is None,
        },
{
    match get(es, key) {
        Option::None => Option::Some(
            GroupVersionResource {
                group: String::new(),
                version: String::new(),
                kind: String::new(),
            },
        ),
        Option::Some(JsonValue::Obj(inner)) => {
            let group = dec_str_default_x(inner, &"group".to_string());
            let version = dec_str_default_x(inner, &"version".to_string());
            let kind = dec_str_default_x(inner, &"kind".to_string());
            match (group, version, kind) {
                (Option::Some(group), Option::Some(version), Option::Some(kind)) => Option::Some(
                    GroupVersionResource { group, version, kind },
                ),
                _ => Option::None,
            }
        },
        Option::Some(_) => Option::None,
    }
}

fn dec_user_info_default_x(es: &Vec<(String, JsonValue)>, key: &String) -> (r: Option<UserInfo>)
    ensures
        match r {
            Option::Some(u) => dec_user_info_default(jspec_of_entries(es@), key@) == Option::Some(
                u@,
            ),
            Option::None => dec_user_info_default(jspec_of_entries(es@), key@) is None,
        },
{
    match get(es, key) {
        Option::None => {
            proof {
                assert(strings_of(Seq::<String>::empty()) =~= Seq::<Seq<char>>::empty());
                assert(jspec_of_entries(Seq::<(String, JsonValue)>::empty()) =~= Seq::<(
                    Seq<char>,
                    JsonSpec,
                )>::empty());
            }
            Option::Some(
                UserInfo {
                    username: String::new(),
                    uid: String::new(),
                    groups: Vec::new(),
                    extra: Vec::new(),
                },
            )
        },
        Option::Some(JsonValue::Obj(inner)) => dec_user_info_entries_x(inner),
        Option::Some(_) => Option::None,
    }
}

pub(crate) fn dec_user_info_entries_x(es: &Vec<(String, JsonValue)>) -> (r: Option<UserInfo>)
    ensures
        match r {
            Option::Some(u) => dec_user_info_entries(jspec_of_entries(es@)) == Option::Some(u@),
            Option::None => dec_user_info_entries(jspec_of_entries(es@)) is None,
        },
{
    let username = dec_str_default_x(es, &"username".to_string());
    let uid = dec_str_default_x(es, &"uid".to_string());
    let groups = dec_str_list_default_x(es, &"groups".to_string());
    let extra = dec_entries_default_x(es, &"extra".to_string());
    match (username, uid, groups, extra) {
        (
            Option::Some(username),
            Option::Some(uid),
            Option::Some(groups),
            Option::Some(extra),
        ) => Option::Some(UserInfo { username, uid, groups, extra }),
        _ => Option::None,
    }
}

fn dec_admission_response_x(es: &Vec<(String, JsonValue)>) -> (r: Option<AdmissionResponse>)
    ensures
        match r {
            Option::Some(p) => dec_admission_response_entries(jspec_of_entries(es@))
                == Option::Some(p@),
            Option::None => dec_admission_response_entries(jspec_of_entries(es@)) is None,
        },
{
    let uid = dec_str_default_x(es, &"uid".to_string());
    let allowed = dec_bool_default_x(es, &"allowed".to_string());
    let patch = dec_opt_str_x(es, &"patch".to_string());
    let patch_type = dec_opt_str_x(es, &"patchType".to_string());
    match (uid, allowed, patch, patch_type) {
        (Option::Some(uid), Option::Some(allowed), Option::Some(patch), Option::Some(patch_type)) =>
            Option::Some(AdmissionResponse { uid, allowed, patch, patch_type }),
        _ => Option::None,
    }
}

fn dec_admission_request_x(j: &JsonValue) -> (r: Option<AdmissionRequest>)
    ensures
        match r {
            Option::Some(q) => dec_admission_request(j@) == Option::Some(q@),
            Option::None => dec_admission_request(j@) is None,
        },
{
    let es = match j {
        JsonValue::Obj(es) => es,
        _ => {
            return Option::None;
        },
    };
    let uid = dec_str_default_x(es, &"uid".to_string());
    let kind = dec_gvk_default_x(es, &"kind".to_string());
    let resource = dec_gvr_default_x(es, &"resource".to_string());
    let sub_resource = dec_str_default_x(es, &"subResource".to_string());
    let request_kind = dec_gvk_default_x(es, &"requestKind".to_string());
    let request_resource = dec_gvk_default_x(es, &"requestResource".to_string());
    let request_sub_resource = dec_str_default_x(es, &"requestSubResource".to_string());
    let name = dec_str_default_x(es, &"name".to_string());
    let namespace = dec_str_default_x(es, &"namespace".to_string());
    let operation = dec_str_default_x(es, &"operation".to_string());
    let user_info = dec_user_info_default_x(es, &"userInfo".to_string());
    let object = dec_json_x(es, &"object".to_string());
    let old_object = dec_json_x(es, &"oldObject".to_string());
    let dry_run = dec_bool_default_x(es, &"dryRun".to_string());
    let options = dec_entries_default_x(es, &"options".to_string());
    match (uid, kind, resource, sub_resource, request_kind, request_resource) {
        (
            Option::Some(uid),
            Option::Some(kind),
            Option::Some(resource),
            Option::Some(sub_resource),
            Option::Some(request_kind),
            Option::Some(request_resource),
        ) => match (request_sub_resource, name, namespace, operation, user_info, dry_run, options) {
            (
                Option::Some(request_sub_resource),
                Option::Some(name),
                Option::Some(namespace),
                Option::Some(operation),
                Option::Some(user_info),
                Option::Some(dry_run),
                Option::Some(options),
            ) => Option::Some(
                AdmissionRequest {
                    uid,
                    kind,
                    resource,
                    sub_resource,
                    request_kind,
                    request_resource,
                    request_sub_resource,
                    name,
                    namespace,
                    operation,
                    user_info,
                    object,
                    old_object,
                    dry_run,
                    options,
                },
            ),
            _ => Option::None,
        },
        _ => Option::None,
    }
}

/// Decode one admission review envelope. Unknown members are ignored; an
/// ill-typed member is a decode fault.
pub fn decode_admission_review(j: &JsonValue) -> (r: Result<AdmissionReview, Fault>)
    ensures
        match r {
            Result::Ok(v) => dec_admission_review(j@) == Option::Some(v@),
            Result::Err(f) => dec_admission_review(j@) is None && f == Fault::Decode,
        },
{
    let es = match j {
        JsonValue::Obj(es) => es,
        _ => {
            return Result::Err(Fault::Decode);
        },
    };
    let kind = match dec_opt_str_x(es, &"kind".to_string()) {
        Option::Some(kind) => kind,
        Option::None => {
            return Result::Err(Fault::Decode);
        },
    };
    let api_version = match dec_opt_str_x(es, &"apiVersion".to_string()) {
        Option::Some(api_version) => api_version,
        Option::None => {
            return Result::Err(Fault::Decode);
        },
    };
    let request = match get(es, &"request".to_string()) {
        Option::None => Option::None,
        Option::Some(JsonValue::Null) => Option::None,
        Option::Some(rj) => match dec_admission_request_x(rj) {
            Option::Some(q) => Option::Some(q),
            Option::None => {
                return Result::Err(Fault::Decode);
            },
        },
    };
    let response = match get(es, &"response".to_string()) {
        Option::None => Option::None,
        Option::Some(JsonValue::Null) => Option::None,
        Option::Some(JsonValue::Obj(pes)) => match dec_admission_response_x(pes) {
            Option::Some(p) => Option::Some(p),
            Option::None => {
                return Result::Err(Fault::Decode);
            },
        },
        Option::Some(_) => {
            return Result::Err(Fault::Decode);
        },
    };
    Result::Ok(AdmissionReview { kind, api_version, request, response })
}

} // verus!
