//! The codec for the token review and subject access review envelopes. Every
//! member of these envelopes is optional on the wire: absent and null mean
//! absent, a populated member must bear its expected type, and only populated
//! members are emitted.
use vstd::prelude::*;
use crate::codec::dec_opt_str;
use crate::codec::dec_str_items;
use crate::codec::dec_user_info_entries;
use crate::codec::enc_opt_str_entry;
use crate::codec::enc_str_items;
use crate::codec::enc_user_info;
use crate::codec::lemma_lookup_absent;
use crate::codec::lemma_lookup_at;
use crate::codec::lemma_lookup_concat;
use crate::codec::lemma_str_items_round_trip;
use crate::codec::lemma_user_info_round_trip;
use crate::codec::dec_opt_str_x;
use crate::codec::dec_str_items_x;
use crate::codec::dec_user_info_entries_x;
use crate::codec::encode_str_list;
use crate::codec::encode_user_info;
use crate::decision::Fault;
use crate::envelope::Metadata;
use crate::envelope::MetadataView;
use crate::envelope::ResourceAttributes;
use crate::envelope::ResourceAttributesView;
use crate::envelope::SubjectAccessReview;
use crate::envelope::SubjectAccessReviewSpec;
use crate::envelope::SubjectAccessReviewSpecView;
use crate::envelope::SubjectAccessReviewStatus;
use crate::envelope::SubjectAccessReviewStatusView;
use crate::envelope::SubjectAccessReviewView;
use crate::envelope::TokenReview;
use crate::envelope::TokenReviewSpec;
use crate::envelope::TokenReviewSpecView;
use crate::envelope::TokenReviewStatus;
use crate::envelope::TokenReviewStatusView;
use crate::envelope::TokenReviewView;
use crate::json::JsonSpec;
use crate::json::JsonValue;
use crate::json::get;
use crate::json::jspec_of_entries;
use crate::json::lemma_jspec_of_entries;
use crate::json::lookup;

verus! {

/// An optional boolean member: absent and null both mean absent.
pub open spec fn dec_opt_bool(es: Seq<(Seq<char>, JsonSpec)>, key: Seq<char>) -> Option<
    Option<bool>,
> {
    match lookup(es, key) {
        Option::None => Option::Some(Option::None),
        Option::Some(JsonSpec::Null) => Option::Some(Option::None),
        Option::Some(JsonSpec::Bool(b)) => Option::Some(Option::Some(b)),
        Option::Some(_) => Option::None,
    }
}

/// An optional array-of-strings member.
pub open spec fn dec_opt_str_list(es: Seq<(Seq<char>, JsonSpec)>, key: Seq<char>) -> Option<
    Option<Seq<Seq<char>>>,
> {
    match lookup(es, key) {
        Option::None => Option::Some(Option::None),
        Option::Some(JsonSpec::Null) => Option::Some(Option::None),
        Option::Some(JsonSpec::Arr(items)) => match dec_str_items(items) {
            Option::Some(texts) => Option::Some(Option::Some(texts)),
            Option::None => Option::None,
        },
        Option::Some(_) => Option::None,
    }
}

// ---------------------------------------------------------------------------
// Metadata.
// ---------------------------------------------------------------------------

pub open spec fn enc_metadata(m: MetadataView) -> JsonSpec {
    JsonSpec::Obj(enc_opt_str_entry("uid"@, m.uid))
}

pub open spec fn dec_metadata_entries(es: Seq<(Seq<char>, JsonSpec)>) -> Option<MetadataView> {
    match dec_opt_str(es, "uid"@) {
        Option::Some(uid) => Option::Some(MetadataView { uid }),
        Option::None => Option::None,
    }
}

proof fn lemma_metadata_round_trip(m: MetadataView)
    ensures
        enc_metadata(m) matches JsonSpec::Obj(es) && dec_metadata_entries(es) == Option::Some(m),
{
    let es = enc_metadata(m)->Obj_0;
    reveal_strlit("uid");
    match m.uid {
        Option::Some(_) => lemma_lookup_at(es, "uid"@, 0),
        Option::None => lemma_lookup_absent(es, "uid"@),
    }
}

fn dec_metadata_entries_x(es: &Vec<(String, JsonValue)>) -> (r: Option<Metadata>)
    ensures
        match r {
            Option::Some(m) => dec_metadata_entries(jspec_of_entries(es@)) == Option::Some(m@),
            Option::None => dec_metadata_entries(jspec_of_entries(es@)) is None,
        },
{
    match dec_opt_str_x(es, &"uid".to_string()) {
        Option::Some(uid) => Option::Some(Metadata { uid }),
        Option::None => Option::None,
    }
}

fn encode_metadata(m: Metadata) -> (r: JsonValue)
    ensures
        r@ == enc_metadata(m@),
{
    let ghost mv = m@;
    let mut es: Vec<(String, JsonValue)> = Vec::new();
    match m.uid {
        Option::Some(s) => es.push(("uid".to_string(), JsonValue::Str(s))),
        Option::None => (),
    }
    proof {
        lemma_jspec_of_entries(es@);
        assert(jspec_of_entries(es@) =~= enc_metadata(mv)->Obj_0);
    }
    JsonValue::Obj(es)
}

// ---------------------------------------------------------------------------
// Token review.
// ---------------------------------------------------------------------------

pub open spec fn enc_token_review_spec(s: TokenReviewSpecView) -> JsonSpec {
    JsonSpec::Obj(enc_opt_str_entry("token"@, s.token))
}

pub open spec fn dec_token_review_spec_entries(es: Seq<(Seq<char>, JsonSpec)>) -> Option<
    TokenReviewSpecView,
> {
    match dec_opt_str(es, "token"@) {
        Option::Some(token) => Option::Some(TokenReviewSpecView { token }),
        Option::None => Option::None,
    }
}

proof fn lemma_token_review_spec_round_trip(s: TokenReviewSpecView)
    ensures
        enc_token_review_spec(s) matches JsonSpec::Obj(es) && dec_token_review_spec_entries(es)
            == Option::Some(s),
{
    let es = enc_token_review_spec(s)->Obj_0;
    reveal_strlit("token");
    match s.token {
        Option::Some(_) => lemma_lookup_at(es, "token"@, 0),
        Option::None => lemma_lookup_absent(es, "token"@),
    }
}

pub open spec fn enc_token_review_status(st: TokenReviewStatusView) -> JsonSpec {
    JsonSpec::Obj(
        (match st.authenticated {
            Option::Some(b) => seq![("authenticated"@, JsonSpec::Bool(b))],
            Option::None => Seq::empty(),
        }) + (match st.user {
            Option::Some(u) => seq![("user"@, enc_user_info(u))],
            Option::None => Seq::empty(),
        }) + enc_opt_str_entry("error"@, st.error),
    )
}

pub open spec fn dec_token_review_status_entries(es: Seq<(Seq<char>, JsonSpec)>) -> Option<
    TokenReviewStatusView,
> {
    let authenticated = dec_opt_bool(es, "authenticated"@);
    let user = match lookup(es, "user"@) {
        Option::None => Option::Some(Option::None),
        Option::Some(JsonSpec::Null) => Option::Some(Option::None),
        Option::Some(JsonSpec::Obj(ues)) => match dec_user_info_entries(ues) {
            Option::Some(u) => Option::Some(Option::Some(u)),
            Option::None => Option::None,
        },
        Option::Some(_) => Option::None,
    };
    let error = dec_opt_str(es, "error"@);
    if authenticated is Some && user is Some && error is Some {
        Option::Some(
            TokenReviewStatusView {
                authenticated: authenticated.unwrap(),
                user: user.unwrap(),
                error: error.unwrap(),
            },
        )
    } else {
        Option::None
    }
}

proof fn lemma_token_review_status_round_trip(st: TokenReviewStatusView)
    ensures
        enc_token_review_status(st) matches JsonSpec::Obj(es) && dec_token_review_status_entries(
            es,
        ) == Option::Some(st),
{
    reveal_strlit("authenticated");
    reveal_strlit("user");
    reveal_strlit("error");
    assert(("authenticated"@).len() == 13);
    assert(("user"@).len() == 4);
    assert(("error"@).len() == 5);
    let a: Seq<(Seq<char>, JsonSpec)> = match st.authenticated {
        Option::Some(b) => seq![("authenticated"@, JsonSpec::Bool(b))],
        Option::None => Seq::empty(),
    };
    let b: Seq<(Seq<char>, JsonSpec)> = match st.user {
        Option::Some(u) => seq![("user"@, enc_user_info(u))],
        Option::None => Seq::empty(),
    };
    let c = enc_opt_str_entry("error"@, st.error);
    let es = a + b + c;
    assert forall|key: Seq<char>|
        key == "authenticated"@ || key == "user"@ || key == "error"@ implies lookup(es, key) == (
    if key == "authenticated"@ {
        lookup(a, key)
    } else if key == "user"@ {
        lookup(b, key)
    } else {
        lookup(c, key)
    }) by {
        lemma_lookup_concat(a + b, c, key);
        lemma_lookup_concat(a, b, key);
        assert(a + b + c == es);
        if key != "authenticated"@ {
            lemma_lookup_absent(a, key);
        }
        if key != "user"@ {
            lemma_lookup_absent(b, key);
        }
        if key != "error"@ {
            lemma_lookup_absent(c, key);
        }
    }
    match st.authenticated {
        Option::Some(_) => lemma_lookup_at(a, "authenticated"@, 0),
        Option::None => lemma_lookup_absent(a, "authenticated"@),
    }
    match st.user {
        Option::Some(u) => {
            lemma_lookup_at(b, "user"@, 0);
            lemma_user_info_round_trip(u);
        },
        Option::None => lemma_lookup_absent(b, "user"@),
    }
    match st.error {
        Option::Some(_) => lemma_lookup_at(c, "error"@, 0),
        Option::None => lemma_lookup_absent(c, "error"@),
    }
}

pub open spec fn enc_token_review(tr: TokenReviewView) -> JsonSpec {
    JsonSpec::Obj(
        enc_opt_str_entry("kind"@, tr.kind) + enc_opt_str_entry("apiVersion"@, tr.api_version) + (
        match tr.metadata {
            Option::Some(m) => seq![("metadata"@, enc_metadata(m))],
            Option::None => Seq::empty(),
        }) + (match tr.spec {
            Option::Some(s) => seq![("spec"@, enc_token_review_spec(s))],
            Option::None => Seq::empty(),
        }) + (match tr.status {
            Option::Some(st) => seq![("status"@, enc_token_review_status(st))],
            Option::None => Seq::empty(),
        }),
    )
}

pub open spec fn dec_token_review(j: JsonSpec) -> Option<TokenReviewView> {
    match j {
        JsonSpec::Obj(es) => {
            let kind = dec_opt_str(es, "kind"@);
            let api_version = dec_opt_str(es, "apiVersion"@);
            let metadata = match lookup(es, "metadata"@) {
                Option::None => Option::Some(Option::None),
                Option::Some(JsonSpec::Null) => Option::Some(Option::None),
                Option::Some(JsonSpec::Obj(mes)) => match dec_metadata_entries(mes) {
                    Option::Some(m) => Option::Some(Option::Some(m)),
                    Option::None => Option::None,
                },
                Option::Some(_) => Option::None,
            };
            let spec = match lookup(es, "spec"@) {
                Option::None => Option::Some(Option::None),
                Option::Some(JsonSpec::Null) => Option::Some(Option::None),
                Option::Some(JsonSpec::Obj(ses)) => match dec_token_review_spec_entries(ses) {
                    Option::Some(sv) => Option::Some(Option::Some(sv)),
                    Option::None => Option::None,
                },
                Option::Some(_) => Option::None,
            };
            let status = match lookup(es, "status"@) {
                Option::None => Option::Some(Option::None),
                Option::Some(JsonSpec::Null) => Option::Some(Option::None),
                Option::Some(JsonSpec::Obj(stes)) => match dec_token_review_status_entries(stes) {
                    Option::Some(sv) => Option::Some(Option::Some(sv)),
                    Option::None => Option::None,
                },
                Option::Some(_) => Option::None,
            };
            if kind is Some && api_version is Some && metadata is Some && spec is Some
                && status is Some {
                Option::Some(
                    TokenReviewView {
                        kind: kind.unwrap(),
                        api_version: api_version.unwrap(),
                        metadata: metadata.unwrap(),
                        spec: spec.unwrap(),
                        status: status.unwrap(),
                    },
                )
            } else {
                Option::None
            }
        },
        _ => Option::None,
    }
}

/// Decoding an encoded token review yields it back.
pub proof fn lemma_token_review_round_trip(tr: TokenReviewView)
    ensures
        dec_token_review(enc_token_review(tr)) == Option::Some(tr),
{
    reveal_strlit("kind");
    reveal_strlit("apiVersion");
    reveal_strlit("metadata");
    reveal_strlit("spec");
    reveal_strlit("status");
    assert(("kind"@).len() == 4 && ("kind"@)[0] == 'k');
    assert(("apiVersion"@).len() == 10);
    assert(("metadata"@).len() == 8);
    assert(("spec"@).len() == 4 && ("spec"@)[0] == 's');
    assert(("status"@).len() == 6);
    let a = enc_opt_str_entry("kind"@, tr.kind);
    let b = enc_opt_str_entry("apiVersion"@, tr.api_version);
    let c: Seq<(Seq<char>, JsonSpec)> = match tr.metadata {
        Option::Some(m) => seq![("metadata"@, enc_metadata(m))],
        Option::None => Seq::empty(),
    };
    let d: Seq<(Seq<char>, JsonSpec)> = match tr.spec {
        Option::Some(s) => seq![("spec"@, enc_token_review_spec(s))],
        Option::None => Seq::empty(),
    };
    let e: Seq<(Seq<char>, JsonSpec)> = match tr.status {
        Option::Some(st) => seq![("status"@, enc_token_review_status(st))],
        Option::None => Seq::empty(),
    };
    let es = a + b + c + d + e;
    assert forall|key: Seq<char>|
        key == "kind"@ || key == "apiVersion"@ || key == "metadata"@ || key == "spec"@ || key
            == "status"@ implies lookup(es, key) == (if key == "kind"@ {
        lookup(a, key)
    } else if key == "apiVersion"@ {
        lookup(b, key)
    } else if key == "metadata"@ {
        lookup(c, key)
    } else if key == "spec"@ {
        lookup(d, key)
    } else {
        lookup(e, key)
    }) by {
        lemma_lookup_concat(a + b + c + d, e, key);
        lemma_lookup_concat(a + b + c, d, key);
        lemma_lookup_concat(a + b, c, key);
        lemma_lookup_concat(a, b, key);
        assert(a + b + c + d + e == es);
        if key != "kind"@ {
            lemma_lookup_absent(a, key);
        }
        if key != "apiVersion"@ {
            lemma_lookup_absent(b, key);
        }
        if key != "metadata"@ {
            lemma_lookup_absent(c, key);
        }
        if key != "spec"@ {
            lemma_lookup_absent(d, key);
        }
        if key != "status"@ {
            lemma_lookup_absent(e, key);
        }
    }
    match tr.kind {
        Option::Some(_) => lemma_lookup_at(a, "kind"@, 0),
        Option::None => lemma_lookup_absent(a, "kind"@),
    }
    match tr.api_version {
        Option::Some(_) => lemma_lookup_at(b, "apiVersion"@, 0),
        Option::None => lemma_lookup_absent(b, "apiVersion"@),
    }
    match tr.metadata {
        Option::Some(m) => {
            lemma_lookup_at(c, "metadata"@, 0);
            lemma_metadata_round_trip(m);
        },
        Option::None => lemma_lookup_absent(c, "metadata"@),
    }
    match tr.spec {
        Option::Some(s) => {
            lemma_lookup_at(d, "spec"@, 0);
            lemma_token_review_spec_round_trip(s);
        },
        Option::None => lemma_lookup_absent(d, "spec"@),
    }
    match tr.status {
        Option::Some(st) => {
            lemma_lookup_at(e, "status"@, 0);
            lemma_token_review_status_round_trip(st);
        },
        Option::None => lemma_lookup_absent(e, "status"@),
    }
}

/// Encode one token review envelope.
pub fn encode_token_review(tr: TokenReview) -> (r: JsonValue)
    ensures
        r@ == enc_token_review(tr@),
{
    let ghost tv = tr@;
    let mut es: Vec<(String, JsonValue)> = Vec::new();
    match tr.kind {
        Option::Some(s) => es.push(("kind".to_string(), JsonValue::Str(s))),
        Option::None => (),
    }
    match tr.api_version {
        Option::Some(s) => es.push(("apiVersion".to_string(), JsonValue::Str(s))),
        Option::None => (),
    }
    match tr.metadata {
        Option::Some(m) => es.push(("metadata".to_string(), encode_metadata(m))),
        Option::None => (),
    }
    match tr.spec {
        Option::Some(s) => {
            let ghost sv = s@;
            let mut ses: Vec<(String, JsonValue)> = Vec::new();
            match s.token {
                Option::Some(t) => ses.push(("token".to_string(), JsonValue::Str(t))),
                Option::None => (),
            }
            proof {
                lemma_jspec_of_entries(ses@);
                assert(jspec_of_entries(ses@) =~= enc_token_review_spec(sv)->Obj_0);
            }
            es.push(("spec".to_string(), JsonValue::Obj(ses)));
        },
        Option::None => (),
    }
    match tr.status {
        Option::Some(st) => es.push(("status".to_string(), encode_token_review_status(st))),
        Option::None => (),
    }
    proof {
        lemma_jspec_of_entries(es@);
        assert(jspec_of_entries(es@) =~= enc_token_review(tv)->Obj_0);
    }
    JsonValue::Obj(es)
}

fn encode_token_review_status(st: TokenReviewStatus) -> (r: JsonValue)
    ensures
        r@ == enc_token_review_status(st@),
{
    let ghost sv = st@;
    let mut es: Vec<(String, JsonValue)> = Vec::new();
    match st.authenticated {
        Option::Some(b) => es.push(("authenticated".to_string(), JsonValue::Bool(b))),
        Option::None => (),
    }
    match st.user {
        Option::Some(u) => es.push(("user".to_string(), encode_user_info(u))),
        Option::None => (),
    }
    match st.error {
        Option::Some(s) => es.push(("error".to_string(), JsonValue::Str(s))),
        Option::None => (),
    }
    proof {
        lemma_jspec_of_entries(es@);
        assert(jspec_of_entries(es@) =~= enc_token_review_status(sv)->Obj_0);
    }
    JsonValue::Obj(es)
}

/// Decode one token review envelope.
pub fn decode_token_review(j: &JsonValue) -> (r: Result<TokenReview, Fault>)
    ensures
        match r {
            Result::Ok(v) => dec_token_review(j@) == Option::Some(v@),
            Result::Err(f) => dec_token_review(j@) is None && f == Fault::Decode,
        },
{
    let es = match j {
        JsonValue::Obj(es) => es,
        _ => {
            return Result::Err(Fault::Decode);
        },
    };
    let kind = match dec_opt_str_x(es, &"kind".to_string()) {
        Option::Some(kind) => kind,
        Option::None => {
            return Result::Err(Fault::Decode);
        },
    };
    let api_version = match dec_opt_str_x(es, &"apiVersion".to_string()) {
        Option::Some(api_version) => api_version,
        Option::None => {
            return Result::Err(Fault::Decode);
        },
    };
    let metadata = match get(es, &"metadata".to_string()) {
        Option::None => Option::None,
        Option::Some(JsonValue::Null) => Option::None,
        Option::Some(JsonValue::Obj(mes)) => match dec_metadata_entries_x(mes) {
            Option::Some(m) => Option::Some(m),
            Option::None => {
                return Result::Err(Fault::Decode);
            },
        },
        Option::Some(_) => {
            return Result::Err(Fault::Decode);
        },
    };
    let spec = match get(es, &"spec".to_string()) {
        Option::None => Option::None,
        Option::Some(JsonValue::Null) => Option::None,
        Option::Some(JsonValue::Obj(ses)) => match dec_opt_str_x(ses, &"token".to_string()) {
            Option::Some(token) => Option::Some(TokenReviewSpec { token }),
            Option::None => {
                return Result::Err(Fault::Decode);
            },
        },
        Option::Some(_) => {
            return Result::Err(Fault::Decode);
        },
    };
    let status = match get(es, &"status".to_string()) {
        Option::None => Option::None,
        Option::Some(JsonValue::Null) => Option::None,
        Option::Some(JsonValue::Obj(stes)) => match dec_token_review_status_x(stes) {
            Option::Some(st) => Option::Some(st),
            Option::None => {
                return Result::Err(Fault::Decode);
            },
        },
        Option::Some(_) => {
            return Result::Err(Fault::Decode);
        },
    };
    Result::Ok(TokenReview { kind, api_version, metadata, spec, status })
}

fn dec_token_review_status_x(es: &Vec<(String, JsonValue)>) -> (r: Option<TokenReviewStatus>)
    ensures
        match r {
            Option::Some(st) => dec_token_review_status_entries(jspec_of_entries(es@))
                == Option::Some(st@),
            Option::None => dec_token_review_status_entries(jspec_of_entries(es@)) is None,
        },
{
    let authenticated = match get(es, &"authenticated".to_string()) {
        Option::None => Option::None,
        Option::Some(JsonValue::Null) => Option::None,
        Option::Some(JsonValue::Bool(b)) => Option::Some(*b),
        Option::Some(_) => {
            return Option::None;
        },
    };
    let user = match get(es, &"user".to_string()) {
        Option::None => Option::None,
        Option::Some(JsonValue::Null) => Option::None,
        Option::Some(JsonValue::Obj(ues)) => match dec_user_info_entries_x(ues) {
            Option::Some(u) => Option::Some(u),
            Option::None => {
                return Option::None;
            },
        },
        Option::Some(_) => {
            return Option::None;
        },
    };
    let error = match dec_opt_str_x(es, &"error".to_string()) {
        Option::Some(error) => error,
        Option::None => {
            return Option::None;
        },
    };
    Option::Some(TokenReviewStatus { authenticated, user, error })
}


// ---------------------------------------------------------------------------
// Subject access review.
// ---------------------------------------------------------------------------

pub open spec fn enc_resource_attributes(ra: ResourceAttributesView) -> JsonSpec {
    JsonSpec::Obj(
        enc_opt_str_entry("group"@, ra.group) + enc_opt_str_entry("namespace"@, ra.namespace)
            + enc_opt_str_entry("name"@, ra.name) + enc_opt_str_entry("resource"@, ra.resource)
            + enc_opt_str_entry("verb"@, ra.verb),
    )
}

pub open spec fn dec_resource_attributes_entries(es: Seq<(Seq<char>, JsonSpec)>) -> Option<
    ResourceAttributesView,
> {
    let group = dec_opt_str(es, "group"@);
    let namespace = dec_opt_str(es, "namespace"@);
    let name = dec_opt_str(es, "name"@);
    let resource = dec_opt_str(es, "resource"@);
    let verb = dec_opt_str(es, "verb"@);
    if group is Some && namespace is Some && name is Some && resource is Some && verb is Some {
        Option::Some(
            ResourceAttributesView {
                group: group.unwrap(),
                namespace: namespace.unwrap(),
                name: name.unwrap(),
                resource: resource.unwrap(),
                verb: verb.unwrap(),
            },
        )
    } else {
        Option::None
    }
}

proof fn lemma_resource_attributes_round_trip(ra: ResourceAttributesView)
    ensures
        enc_resource_attributes(ra) matches JsonSpec::Obj(es) && dec_resource_attributes_entries(
            es,
        ) == Option::Some(ra),
{
    reveal_strlit("group");
    reveal_strlit("namespace");
    reveal_strlit("name");
    reveal_strlit("resource");
    reveal_strlit("verb");
    assert(("group"@).len() == 5);
    assert(("namespace"@).len() == 9);
    assert(("name"@).len() == 4 && ("name"@)[0] == 'n');
    assert(("resource"@).len() == 8);
    assert(("verb"@).len() == 4 && ("verb"@)[0] == 'v');
    let a = enc_opt_str_entry("group"@, ra.group);
    let b = enc_opt_str_entry("namespace"@, ra.namespace);
    let c = enc_opt_str_entry("name"@, ra.name);
    let d = enc_opt_str_entry("resource"@, ra.resource);
    let e = enc_opt_str_entry("verb"@, ra.verb);
    let es = a + b + c + d + e;
    assert forall|key: Seq<char>|
        key == "group"@ || key == "namespace"@ || key == "name"@ || key == "resource"@ || key
            == "verb"@ implies lookup(es, key) == (if key == "group"@ {
        lookup(a, key)
    } else if key == "namespace"@ {
        lookup(b, key)
    } else if key == "name"@ {
        lookup(c, key)
    } else if key == "resource"@ {
        lookup(d, key)
    } else {
        lookup(e, key)
    }) by {
        lemma_lookup_concat(a + b + c + d, e, key);
        lemma_lookup_concat(a + b + c, d, key);
        lemma_lookup_concat(a + b, c, key);
        lemma_lookup_concat(a, b, key);
        assert(a + b + c + d + e == es);
        if key != "group"@ {
            lemma_lookup_absent(a, key);
        }
        if key != "namespace"@ {
            lemma_lookup_absent(b, key);
        }
        if key != "name"@ {
            lemma_lookup_absent(c, key);
        }
        if key != "resource"@ {
            lemma_lookup_absent(d, key);
        }
        if key != "verb"@ {
            lemma_lookup_absent(e, key);
        }
    }
    match ra.group {
        Option::Some(_) => lemma_lookup_at(a, "group"@, 0),
        Option::None => lemma_lookup_absent(a, "group"@),
    }
    match ra.namespace {
        Option::Some(_) => lemma_lookup_at(b, "namespace"@, 0),
        Option::None => lemma_lookup_absent(b, "namespace"@),
    }
    match ra.name {
        Option::Some(_) => lemma_lookup_at(c, "name"@, 0),
        Option::None => lemma_lookup_absent(c, "name"@),
    }
    match ra.resource {
        Option::Some(_) => lemma_lookup_at(d, "resource"@, 0),
        Option::None => lemma_lookup_absent(d, "resource"@),
    }
    match ra.verb {
        Option::Some(_) => lemma_lookup_at(e, "verb"@, 0),
        Option::None => lemma_lookup_absent(e, "verb"@),
    }
}

pub open spec fn enc_sar_spec(s: SubjectAccessReviewSpecView) -> JsonSpec {
    JsonSpec::Obj(
        enc_opt_str_entry("user"@, s.user) + (match s.groups {
            Option::Some(gs) => seq![("groups"@, JsonSpec::Arr(enc_str_items(gs)))],
            Option::None => Seq::empty(),
        }) + (match s.resource_attributes {
            Option::Some(ra) => seq![("resourceAttributes"@, enc_resource_attributes(ra))],
            Option::None => Seq::empty(),
        }),
    )
}

pub open spec fn dec_sar_spec_entries(es: Seq<(Seq<char>, JsonSpec)>) -> Option<
    SubjectAccessReviewSpecView,
> {
    let user = dec_opt_str(es, "user"@);
    let groups = dec_opt_str_list(es, "groups"@);
    let resource_attributes = match lookup(es, "resourceAttributes"@) {
        Option::None => Option::Some(Option::None),
        Option::Some(JsonSpec::Null) => Option::Some(Option::None),
        Option::Some(JsonSpec::Obj(res)) => match dec_resource_attributes_entries(res) {
            Option::Some(ra) => Option::Some(Option::Some(ra)),
            Option::None => Option::None,
        },
        Option::Some(_) => Option::None,
    };
    if user is Some && groups is Some && resource_attributes is Some {
        Option::Some(
            SubjectAccessReviewSpecView {
                user: user.unwrap(),
                groups: groups.unwrap(),
                resource_attributes: resource_attributes.unwrap(),
            },
        )
    } else {
        Option::None
    }
}

proof fn lemma_sar_spec_round_trip(s: SubjectAccessReviewSpecView)
    ensures
        enc_sar_spec(s) matches JsonSpec::Obj(es) && dec_sar_spec_entries(es) == Option::Some(s),
{
    reveal_strlit("user");
    reveal_strlit("groups");
    reveal_strlit("resourceAttributes");
    assert(("user"@).len() == 4);
    assert(("groups"@).len() == 6);
    assert(("resourceAttributes"@).len() == 18);
    let a = enc_opt_str_entry("user"@, s.user);
    let b: Seq<(Seq<char>, JsonSpec)> = match s.groups {
        Option::Some(gs) => seq![("groups"@, JsonSpec::Arr(enc_str_items(gs)))],
        Option::None => Seq::empty(),
    };
    let c: Seq<(Seq<char>, JsonSpec)> = match s.resource_attributes {
        Option::Some(ra) => seq![("resourceAttributes"@, enc_resource_attributes(ra))],
        Option::None => Seq::empty(),
    };
    let es = a + b + c;
    assert forall|key: Seq<char>|
        key == "user"@ || key == "groups"@ || key == "resourceAttributes"@ implies lookup(es, key)
            == (if key == "user"@ {
        lookup(a, key)
    } else if key == "groups"@ {
        lookup(b, key)
    } else {
        lookup(c, key)
    }) by {
        lemma_lookup_concat(a + b, c, key);
        lemma_lookup_concat(a, b, key);
        assert(a + b + c == es);
        if key != "user"@ {
            lemma_lookup_absent(a, key);
        }
        if key != "groups"@ {
            lemma_lookup_absent(b, key);
        }
        if key != "resourceAttributes"@ {
            lemma_lookup_absent(c, key);
        }
    }
    match s.user {
        Option::Some(_) => lemma_lookup_at(a, "user"@, 0),
        Option::None => lemma_lookup_absent(a, "user"@),
    }
    match s.groups {
        Option::Some(gs) => {
            lemma_lookup_at(b, "groups"@, 0);
            lemma_str_items_round_trip(gs);
        },
        Option::None => lemma_lookup_absent(b, "groups"@),
    }
    match s.resource_attributes {
        Option::Some(ra) => {
            lemma_lookup_at(c, "resourceAttributes"@, 0);
            lemma_resource_attributes_round_trip(ra);
        },
        Option::None => lemma_lookup_absent(c, "resourceAttributes"@),
    }
}

pub open spec fn enc_sar_status(st: SubjectAccessReviewStatusView) -> JsonSpec {
    JsonSpec::Obj(
        seq![("allowed"@, JsonSpec::Bool(st.allowed))] + (match st.denied {
            Option::Some(b) => seq![("denied"@, JsonSpec::Bool(b))],
            Option::None => Seq::empty(),
        }) + enc_opt_str_entry("reason"@, st.reason) + enc_opt_str_entry(
            "evaluationError"@,
            st.evaluation_error,
        ),
    )
}

/// A present status must say whether the request is allowed: when the
/// `allowed` member is missing or ill-typed, decoding fails rather than
/// assuming false.
pub open spec fn dec_sar_status_entries(es: Seq<(Seq<char>, JsonSpec)>) -> Option<
    SubjectAccessReviewStatusView,
> {
    let allowed = match lookup(es, "allowed"@) {
        Option::Some(JsonSpec::Bool(b)) => Option::Some(b),
        _ => Option::None,
    };
    let denied = dec_opt_bool(es, "denied"@);
    let reason = dec_opt_str(es, "reason"@);
    let evaluation_error = dec_opt_str(es, "evaluationError"@);
    if allowed is Some && denied is Some && reason is Some && evaluation_error is Some {
        Option::Some(
            SubjectAccessReviewStatusView {
                allowed: allowed.unwrap(),
                denied: denied.unwrap(),
                reason: reason.unwrap(),
                evaluation_error: evaluation_error.unwrap(),
            },
        )
    } else {
        Option::None
    }
}

proof fn lemma_sar_status_round_trip(st: SubjectAccessReviewStatusView)
    ensures
        enc_sar_status(st) matches JsonSpec::Obj(es) && dec_sar_status_entries(es) == Option::Some(
            st,
        ),
{
    reveal_strlit("allowed");
    reveal_strlit("denied");
    reveal_strlit("reason");
    reveal_strlit("evaluationError");
    assert(("allowed"@).len() == 7);
    assert(("denied"@).len() == 6 && ("denied"@)[0] == 'd');
    assert(("reason"@).len() == 6 && ("reason"@)[0] == 'r');
    assert(("evaluationError"@).len() == 15);
    let a: Seq<(Seq<char>, JsonSpec)> = seq![("allowed"@, JsonSpec::Bool(st.allowed))];
    let b: Seq<(Seq<char>, JsonSpec)> = match st.denied {
        Option::Some(x) => seq![("denied"@, JsonSpec::Bool(x))],
        Option::None => Seq::empty(),
    };
    let c = enc_opt_str_entry("reason"@, st.reason);
    let d = enc_opt_str_entry("evaluationError"@, st.evaluation_error);
    let es = a + b + c + d;
    assert forall|key: Seq<char>|
        key == "allowed"@ || key == "denied"@ || key == "reason"@ || key
            == "evaluationError"@ implies lookup(es, key) == (if key == "allowed"@ {
        lookup(a, key)
    } else if key == "denied"@ {
        lookup(b, key)
    } else if key == "reason"@ {
        lookup(c, key)
    } else {
        lookup(d, key)
    }) by {
        lemma_lookup_concat(a + b + c, d, key);
        lemma_lookup_concat(a + b, c, key);
        lemma_lookup_concat(a, b, key);
        assert(a + b + c + d == es);
        if key != "allowed"@ {
            lemma_lookup_absent(a, key);
        }
        if key != "denied"@ {
            lemma_lookup_absent(b, key);
        }
        if key != "reason"@ {
            lemma_lookup_absent(c, key);
        }
        if key != "evaluationError"@ {
            lemma_lookup_absent(d, key);
        }
    }
    lemma_lookup_at(a, "allowed"@, 0);
    match st.denied {
        Option::Some(_) => lemma_lookup_at(b, "denied"@, 0),
        Option::None => lemma_lookup_absent(b, "denied"@),
    }
    match st.reason {
        Option::Some(_) => lemma_lookup_at(c, "reason"@, 0),
        Option::None => lemma_lookup_absent(c, "reason"@),
    }
    match st.evaluation_error {
        Option::Some(_) => lemma_lookup_at(d, "evaluationError"@, 0),
        Option::None => lemma_lookup_absent(d, "evaluationError"@),
    }
}

pub open spec fn enc_sar(v: SubjectAccessReviewView) -> JsonSpec {
    JsonSpec::Obj(
        enc_opt_str_entry("kind"@, v.kind) + enc_opt_str_entry("apiVersion"@, v.api_version) + (
        match v.metadata {
            Option::Some(m) => seq![("metadata"@, enc_metadata(m))],
            Option::None => Seq::empty(),
        }) + (match v.spec {
            Option::Some(s) => seq![("spec"@, enc_sar_spec(s))],
            Option::None => Seq::empty(),
        }) + (match v.status {
            Option::Some(st) => seq![("status"@, enc_sar_status(st))],
            Option::None => Seq::empty(),
        }),
    )
}

pub open spec fn dec_sar(j: JsonSpec) -> Option<SubjectAccessReviewView> {
    match j {
        JsonSpec::Obj(es) => {
            let kind = dec_opt_str(es, "kind"@);
            let api_version = dec_opt_str(es, "apiVersion"@);
            let metadata = match lookup(es, "metadata"@) {
                Option::None => Option::Some(Option::None),
                Option::Some(JsonSpec::Null) => Option::Some(Option::None),
                Option::Some(JsonSpec::Obj(mes)) => match dec_metadata_entries(mes) {
                    Option::Some(m) => Option::Some(Option::Some(m)),
                    Option::None => Option::None,
                },
                Option::Some(_) => Option::None,
            };
            let spec = match lookup(es, "spec"@) {
                Option::None => Option::Some(Option::None),
                Option::Some(JsonSpec::Null) => Option::Some(Option::None),
                Option::Some(JsonSpec::Obj(ses)) => match dec_sar_spec_entries(ses) {
                    Option::Some(sv) => Option::Some(Option::Some(sv)),
                    Option::None => Option::None,
                },
                Option::Some(_) => Option::None,
            };
            let status = match lookup(es, "status"@) {
                Option::None => Option::Some(Option::None),
                Option::Some(JsonSpec::Null) => Option::Some(Option::None),
                Option::Some(JsonSpec::Obj(stes)) => match dec_sar_status_entries(stes) {
                    Option::Some(sv) => Option::Some(Option::Some(sv)),
                    Option::None => Option::None,
                },
                Option::Some(_) => Option::None,
            };
            if kind is Some && api_version is Some && metadata is Some && spec is Some
                && status is Some {
                Option::Some(
                    SubjectAccessReviewView {
                        kind: kind.unwrap(),
                        api_version: api_version.unwrap(),
                        metadata: metadata.unwrap(),
                        spec: spec.unwrap(),
                        status: status.unwrap(),
                    },
                )
            } else {
                Option::None
            }
        },
        _ => Option::None,
    }
}

/// Decoding an encoded subject access review yields it back.
pub proof fn lemma_sar_round_trip(v: SubjectAccessReviewView)
    ensures
        dec_sar(enc_sar(v)) == Option::Some(v),
{
    reveal_strlit("kind");
    reveal_strlit("apiVersion");
    reveal_strlit("metadata");
    reveal_strlit("spec");
    reveal_strlit("status");
    assert(("kind"@).len() == 4 && ("kind"@)[0] == 'k');
    assert(("apiVersion"@).len() == 10);
    assert(("metadata"@).len() == 8);
    assert(("spec"@).len() == 4 && ("spec"@)[0] == 's');
    assert(("status"@).len() == 6);
    let a = enc_opt_str_entry("kind"@, v.kind);
    let b = enc_opt_str_entry("apiVersion"@, v.api_version);
    let c: Seq<(Seq<char>, JsonSpec)> = match v.metadata {
        Option::Some(m) => seq![("metadata"@, enc_metadata(m))],
        Option::None => Seq::empty(),
    };
    let d: Seq<(Seq<char>, JsonSpec)> = match v.spec {
        Option::Some(s) => seq![("spec"@, enc_sar_spec(s))],
        Option::None => Seq::empty(),
    };
    let e: Seq<(Seq<char>, JsonSpec)> = match v.status {
        Option::Some(st) => seq![("status"@, enc_sar_status(st))],
        Option::None => Seq::empty(),
    };
    let es = a + b + c + d + e;
    assert forall|key: Seq<char>|
        key == "kind"@ || key == "apiVersion"@ || key == "metadata"@ || key == "spec"@ || key
            == "status"@ implies lookup(es, key) == (if key == "kind"@ {
        lookup(a, key)
    } else if key == "apiVersion"@ {
        lookup(b, key)
    } else if key == "metadata"@ {
        lookup(c, key)
    } else if key == "spec"@ {
        lookup(d, key)
    } else {
        lookup(e, key)
    }) by {
        lemma_lookup_concat(a + b + c + d, e, key);
        lemma_lookup_concat(a + b + c, d, key);
        lemma_lookup_concat(a + b, c, key);
        lemma_lookup_concat(a, b, key);
        assert(a + b + c + d + e == es);
        if key != "kind"@ {
            lemma_lookup_absent(a, key);
        }
        if key != "apiVersion"@ {
            lemma_lookup_absent(b, key);
        }
        if key != "metadata"@ {
            lemma_lookup_absent(c, key);
        }
        if key != "spec"@ {
            lemma_lookup_absent(d, key);
        }
        if key != "status"@ {
            lemma_lookup_absent(e, key);
        }
    }
    match v.kind {
        Option::Some(_) => lemma_lookup_at(a, "kind"@, 0),
        Option::None => lemma_lookup_absent(a, "kind"@),
    }
    match v.api_version {
        Option::Some(_) => lemma_lookup_at(b, "apiVersion"@, 0),
        Option::None => lemma_lookup_absent(b, "apiVersion"@),
    }
    match v.metadata {
        Option::Some(m) => {
            lemma_lookup_at(c, "metadata"@, 0);
            lemma_metadata_round_trip(m);
        },
        Option::None => lemma_lookup_absent(c, "metadata"@),
    }
    match v.spec {
        Option::Some(s) => {
            lemma_lookup_at(d, "spec"@, 0);
            lemma_sar_spec_round_trip(s);
        },
        Option::None => lemma_lookup_absent(d, "spec"@),
    }
    match v.status {
        Option::Some(st) => {
            lemma_lookup_at(e, "status"@, 0);
            lemma_sar_status_round_trip(st);
        },
        Option::None => lemma_lookup_absent(e, "status"@),
    }
}

fn encode_resource_attributes(ra: ResourceAttributes) -> (r: JsonValue)
    ensures
        r@ == enc_resource_attributes(ra@),
{
    let ghost rv = ra@;
    let mut es: Vec<(String, JsonValue)> = Vec::new();
    match ra.group {
        Option::Some(s) => es.push(("group".to_string(), JsonValue::Str(s))),
        Option::None => (),
    }
    match ra.namespace {
        Option::Some(s) => es.push(("namespace".to_string(), JsonValue::Str(s))),
        Option::None => (),
    }
    match ra.name {
        Option::Some(s) => es.push(("name".to_string(), JsonValue::Str(s))),
        Option::None => (),
    }
    match ra.resource {
        Option::Some(s) => es.push(("resource".to_string(), JsonValue::Str(s))),
        Option::None => (),
    }
    match ra.verb {
        Option::Some(s) => es.push(("verb".to_string(), JsonValue::Str(s))),
        Option::None => (),
    }
    proof {
        lemma_jspec_of_entries(es@);
        assert(jspec_of_entries(es@) =~= enc_resource_attributes(rv)->Obj_0);
    }
    JsonValue::Obj(es)
}

fn encode_sar_spec(s: SubjectAccessReviewSpec) -> (r: JsonValue)
    ensures
        r@ == enc_sar_spec(s@),
{
    let ghost sv = s@;
    let mut es: Vec<(String, JsonValue)> = Vec::new();
    match s.user {
        Option::Some(u) => es.push(("user".to_string(), JsonValue::Str(u))),
        Option::None => (),
    }
    match s.groups {
        Option::Some(gs) => es.push(("groups".to_string(), encode_str_list(gs))),
        Option::None => (),
    }
    match s.resource_attributes {
        Option::Some(ra) => es.push(
            ("resourceAttributes".to_string(), encode_resource_attributes(ra)),
        ),
        Option::None => (),
    }
    proof {
        lemma_jspec_of_entries(es@);
        assert(jspec_of_entries(es@) =~= enc_sar_spec(sv)->Obj_0);
    }
    JsonValue::Obj(es)
}

fn encode_sar_status(st: SubjectAccessReviewStatus) -> (r: JsonValue)
    ensures
        r@ == enc_sar_status(st@),
{
    let ghost sv = st@;
    let mut es: Vec<(String, JsonValue)> = Vec::new();
    es.push(("allowed".to_string(), JsonValue::Bool(st.allowed)));
    match st.denied {
        Option::Some(b) => es.push(("denied".to_string(), JsonValue::Bool(b))),
        Option::None => (),
    }
    match st.reason {
        Option::Some(s) => es.push(("reason".to_string(), JsonValue::Str(s))),
        Option::None => (),
    }
    match st.evaluation_error {
        Option::Some(s) => es.push(("evaluationError".to_string(), JsonValue::Str(s))),
        Option::None => (),
    }
    proof {
        lemma_jspec_of_entries(es@);
        assert(jspec_of_entries(es@) =~= enc_sar_status(sv)->Obj_0);
    }
    JsonValue::Obj(es)
}

/// Encode one subject access review envelope.
pub fn encode_sar(v: SubjectAccessReview) -> (r: JsonValue)
    ensures
        r@ == enc_sar(v@),
{
    let ghost vv = v@;
    let mut es: Vec<(String, JsonValue)> = Vec::new();
    match v.kind {
        Option::Some(s) => es.push(("kind".to_string(), JsonValue::Str(s))),
        Option::None => (),
    }
    match v.api_version {
        Option::Some(s) => es.push(("apiVersion".to_string(), JsonValue::Str(s))),
        Option::None => (),
    }
    match v.metadata {
        Option::Some(m) => es.push(("metadata".to_string(), encode_metadata(m))),
        Option::None => (),
    }
    match v.spec {
        Option::Some(s) => es.push(("spec".to_string(), encode_sar_spec(s))),
        Option::None => (),
    }
    match v.status {
        Option::Some(st) => es.push(("status".to_string(), encode_sar_status(st))),
        Option::None => (),
    }
    proof {
        lemma_jspec_of_entries(es@);
        assert(jspec_of_entries(es@) =~= enc_sar(vv)->Obj_0);
    }
    JsonValue::Obj(es)
}

fn dec_resource_attributes_entries_x(es: &Vec<(String, JsonValue)>) -> (r: Option<
    ResourceAttributes,
>)
    ensures
        match r {
            Option::Some(ra) => dec_resource_attributes_entries(jspec_of_entries(es@))
                == Option::Some(ra@),
            Option::None => dec_resource_attributes_entries(jspec_of_entries(es@)) is None,
        },
{
    let group = dec_opt_str_x(es, &"group".to_string());
    let namespace = dec_opt_str_x(es, &"namespace".to_string());
    let name = dec_opt_str_x(es, &"name".to_string());
    let resource = dec_opt_str_x(es, &"resource".to_string());
    let verb = dec_opt_str_x(es, &"verb".to_string());
    match (group, namespace, name, resource, verb) {
        (
            Option::Some(group),
            Option::Some(namespace),
            Option::Some(name),
            Option::Some(resource),
            Option::Some(verb),
        ) => Option::Some(ResourceAttributes { group, namespace, name, resource, verb }),
        _ => Option::None,
    }
}

fn dec_sar_spec_entries_x(es: &Vec<(String, JsonValue)>) -> (r: Option<SubjectAccessReviewSpec>)
    ensures
        match r {
            Option::Some(s) => dec_sar_spec_entries(jspec_of_entries(es@)) == Option::Some(s@),
            Option::None => dec_sar_spec_entries(jspec_of_entries(es@)) is None,
        },
{
    let user = match dec_opt_str_x(es, &"user".to_string()) {
        Option::Some(user) => user,
        Option::None => {
            return Option::None;
        },
    };
    let groups = match get(es, &"groups".to_string()) {
        Option::None => Option::None,
        Option::Some(JsonValue::Null) => Option::None,
        Option::Some(JsonValue::Arr(items)) => match dec_str_items_x(items) {
            Option::Some(texts) => Option::Some(texts),
            Option::None => {
                return Option::None;
            },
        },
        Option::Some(_) => {
            return Option::None;
        },
    };
    let resource_attributes = match get(es, &"resourceAttributes".to_string()) {
        Option::None => Option::None,
        Option::Some(JsonValue::Null) => Option::None,
        Option::Some(JsonValue::Obj(res)) => match dec_resource_attributes_entries_x(res) {
            Option::Some(ra) => Option::Some(ra),
            Option::None => {
                return Option::None;
            },
        },
        Option::Some(_) => {
            return Option::None;
        },
    };
    Option::Some(SubjectAccessReviewSpec { user, groups, resource_attributes })
}

fn dec_sar_status_entries_x(es: &Vec<(String, JsonValue)>) -> (r: Option<SubjectAccessReviewStatus>)
    ensures
        match r {
            Option::Some(st) => dec_sar_status_entries(jspec_of_entries(es@)) == Option::Some(st@),
            Option::None => dec_sar_status_entries(jspec_of_entries(es@)) is None,
        },
{
    let allowed = match get(es, &"allowed".to_string()) {
        Option::Some(JsonValue::Bool(b)) => *b,
        _ => {
            return Option::None;
        },
    };
    let denied = match get(es, &"denied".to_string()) {
        Option::None => Option::None,
        Option::Some(JsonValue::Null) => Option::None,
        Option::Some(JsonValue::Bool(b)) => Option::Some(*b),
        Option::Some(_) => {
            return Option::None;
        },
    };
    let reason = match dec_opt_str_x(es, &"reason".to_string()) {
        Option::Some(reason) => reason,
        Option::None => {
            return Option::None;
        },
    };
    let evaluation_error = match dec_opt_str_x(es, &"evaluationError".to_string()) {
        Option::Some(evaluation_error) => evaluation_error,
        Option::None => {
            return Option::None;
        },
    };
    Option::Some(SubjectAccessReviewStatus { allowed, denied, reason, evaluation_error })
}

/// Decode one subject access review envelope.
pub fn decode_sar(j: &JsonValue) -> (r: Result<SubjectAccessReview, Fault>)
    ensures
        match r {
            Result::Ok(v) => dec_sar(j@) == Option::Some(v@),
            Result::Err(f) => dec_sar(j@) is None && f == Fault::Decode,
        },
{
    let es = match j {
        JsonValue::Obj(es) => es,
        _ => {
            return Result::Err(Fault::Decode);
        },
    };
    let kind = match dec_opt_str_x(es, &"kind".to_string()) {
        Option::Some(kind) => kind,
        Option::None => {
            return Result::Err(Fault::Decode);
        },
    };
    let api_version = match dec_opt_str_x(es, &"apiVersion".to_string()) {
        Option::Some(api_version) => api_version,
        Option::None => {
            return Result::Err(Fault::Decode);
        },
    };
    let metadata = match get(es, &"metadata".to_string()) {
        Option::None => Option::None,
        Option::Some(JsonValue::Null) => Option::None,
        Option::Some(JsonValue::Obj(mes)) => match dec_metadata_entries_x(mes) {
            Option::Some(m) => Option::Some(m),
            Option::None => {
                return Result::Err(Fault::Decode);
            },
        },
        Option::Some(_) => {
            return Result::Err(Fault::Decode);
        },
    };
    let spec = match get(es, &"spec".to_string()) {
        Option::None => Option::None,
        Option::Some(JsonValue::Null) => Option::None,
        Option::Some(JsonValue::Obj(ses)) => match dec_sar_spec_entries_x(ses) {
            Option::Some(s) => Option::Some(s),
            Option::None => {
                return Result::Err(Fault::Decode);
            },
        },
        Option::Some(_) => {
            return Result::Err(Fault::Decode);
        },
    };
    let status = match get(es, &"status".to_string()) {
        Option::None => Option::None,
        Option::Some(JsonValue::Null) => Option::None,
        Option::Some(JsonValue::Obj(stes)) => match dec_sar_status_entries_x(stes) {
            Option::Some(st) => Option::Some(st),
            Option::None => {
                return Result::Err(Fault::Decode);
            },
        },
        Option::Some(_) => {
            return Result::Err(Fault::Decode);
        },
    };
    Result::Ok(SubjectAccessReview { kind, api_version, metadata, spec, status })
}

} // verus!
