//! The entry-point dispatcher: one boundary operation per capability. Each
//! handler takes the invocation document `{ "request": ..., "settings"?: ... }`,
//! decodes the envelope, resolves the settings, runs the decision and encodes
//! the response document `{ "response": ..., "error": null }`. The host picks
//! the handler through an immutable capability table.
use vstd::prelude::*;
use crate::codec::dec_str_items;
use crate::codec::dec_str_items_x;
use crate::codec::decode_admission_review;
use crate::codec::dec_admission_review;
use crate::codec::enc_admission_review;
use crate::codec::encode_admission_review;
use crate::codec_review::dec_sar;
use crate::codec_review::dec_token_review;
use crate::codec_review::decode_sar;
use crate::codec_review::decode_token_review;
use crate::codec_review::enc_sar;
use crate::codec_review::enc_token_review;
use crate::codec_review::encode_sar;
use crate::codec_review::encode_token_review;
use crate::decision::Fault;
use crate::decision::authn;
use crate::decision::authz;
use crate::decision::member;
use crate::decision::spec_authn;
use crate::decision::spec_authz;
use crate::decision::spec_validate;
use crate::decision::validate;
use crate::json::JsonSpec;
use crate::json::JsonValue;
use crate::json::get;
use crate::json::jspec_of;
use crate::json::jspec_of_entries;
use crate::json::lemma_jspec_of_entries;
use crate::json::lookup;
use crate::mutation::mutate;
use crate::mutation::mutation_review;
use crate::mutation::spec_mutate;
use crate::mutation::spec_mutation_review;
use crate::settings::AuthnSettings;
use crate::settings::AuthnSettingsView;
use crate::settings::AuthzSettings;
use crate::settings::AuthzSettingsView;
use crate::settings::MutateSettings;
use crate::settings::MutateSettingsView;
use crate::settings::default_authn_settings;
use crate::settings::default_authz_settings;
use crate::settings::default_mutate_settings;

verus! {

// ---------------------------------------------------------------------------
// Settings payloads. A present payload is deserialized strictly: a missing
// required member or an ill-typed member is a settings fault.
// ---------------------------------------------------------------------------

/// A required string member of a settings payload.
pub open spec fn dec_req_str(es: Seq<(Seq<char>, JsonSpec)>, key: Seq<char>) -> Option<Seq<char>> {
    match lookup(es, key) {
        Option::Some(JsonSpec::Str(s)) => Option::Some(s),
        _ => Option::None,
    }
}

/// A required boolean member of a settings payload.
pub open spec fn dec_req_bool(es: Seq<(Seq<char>, JsonSpec)>, key: Seq<char>) -> Option<bool> {
    match lookup(es, key) {
        Option::Some(JsonSpec::Bool(b)) => Option::Some(b),
        _ => Option::None,
    }
}

/// The authentication settings a payload carries.
pub open spec fn dec_authn_settings(j: JsonSpec) -> Option<AuthnSettingsView> {
    match j {
        JsonSpec::Obj(es) => {
            let token = dec_req_str(es, "token"@);
            let uid = dec_req_str(es, "uid"@);
            let user = dec_req_str(es, "user"@);
            let groups = match lookup(es, "groups"@) {
                Option::Some(JsonSpec::Arr(items)) => dec_str_items(items),
                _ => Option::None,
            };
            if token is Some && uid is Some && user is Some && groups is Some {
                Option::Some(
                    AuthnSettingsView {
                        token: token.unwrap(),
                        uid: uid.unwrap(),
                        user: user.unwrap(),
                        groups: groups.unwrap(),
                    },
                )
            } else {
                Option::None
            }
        },
        _ => Option::None,
    }
}

pub fn decode_authn_settings(j: &JsonValue) -> (r: Result<AuthnSettings, Fault>)
    ensures
        match r {
            Result::Ok(s) => dec_authn_settings(j@) == Option::Some(s@),
            Result::Err(f) => dec_authn_settings(j@) is None && f == Fault::Settings,
        },
{
    let es = match j {
        JsonValue::Obj(es) => es,
        _ => {
            return Result::Err(Fault::Settings);
        },
    };
    let token = match get(es, &"token".to_string()) {
        Option::Some(JsonValue::Str(s)) => s.clone(),
        _ => {
            return Result::Err(Fault::Settings);
        },
    };
    let uid = match get(es, &"uid".to_string()) {
        Option::Some(JsonValue::Str(s)) => s.clone(),
        _ => {
            return Result::Err(Fault::Settings);
        },
    };
    let user = match get(es, &"user".to_string()) {
        Option::Some(JsonValue::Str(s)) => s.clone(),
        _ => {
            return Result::Err(Fault::Settings);
        },
    };
    let groups = match get(es, &"groups".to_string()) {
        Option::Some(JsonValue::Arr(items)) => match dec_str_items_x(items) {
            Option::Some(texts) => texts,
            Option::None => {
                return Result::Err(Fault::Settings);
            },
        },
        _ => {
            return Result::Err(Fault::Settings);
        },
    };
    Result::Ok(AuthnSettings { token, uid, user, groups })
}

/// The authorization settings a payload carries. The privileged group and
/// name stay absent unless configured.
pub open spec fn dec_authz_settings(j: JsonSpec) -> Option<AuthzSettingsView> {
    match j {
        JsonSpec::Obj(es) => {
            let allow_all = dec_req_bool(es, "allowAll"@);
            let magic_group = crate::codec::dec_opt_str(es, "magicGroup"@);
            let magic_name = crate::codec::dec_opt_str(es, "magicName"@);
            if allow_all is Some && magic_group is Some && magic_name is Some {
                Option::Some(
                    AuthzSettingsView {
                        allow_all: allow_all.unwrap(),
                        magic_group: magic_group.unwrap(),
                        magic_name: magic_name.unwrap(),
                    },
                )
            } else {
                Option::None
            }
        },
        _ => Option::None,
    }
}

pub fn decode_authz_settings(j: &JsonValue) -> (r: Result<AuthzSettings, Fault>)
    ensures
        match r {
            Result::Ok(s) => dec_authz_settings(j@) == Option::Some(s@),
            Result::Err(f) => dec_authz_settings(j@) is None && f == Fault::Settings,
        },
{
    let es = match j {
        JsonValue::Obj(es) => es,
        _ => {
            return Result::Err(Fault::Settings);
        },
    };
    let allow_all = match get(es, &"allowAll".to_string()) {
        Option::Some(JsonValue::Bool(b)) => *b,
        _ => {
            return Result::Err(Fault::Settings);
        },
    };
    let magic_group = match crate::codec::dec_opt_str_x(es, &"magicGroup".to_string()) {
        Option::Some(o) => o,
        Option::None => {
            return Result::Err(Fault::Settings);
        },
    };
    let magic_name = match crate::codec::dec_opt_str_x(es, &"magicName".to_string()) {
        Option::Some(o) => o,
        Option::None => {
            return Result::Err(Fault::Settings);
        },
    };
    Result::Ok(AuthzSettings { allow_all, magic_group, magic_name })
}

/// The annotation entries of a mutation settings payload, in order. Every
/// value must be a string.
pub open spec fn dec_ann_items(aes: Seq<(Seq<char>, JsonSpec)>) -> Option<
    Seq<(Seq<char>, Seq<char>)>,
>
    decreases aes,
{
    if aes.len() == 0 {
        Option::Some(Seq::empty())
    } else {
        match aes[0].1 {
            JsonSpec::Str(v) => match dec_ann_items(aes.subrange(1, aes.len() as int)) {
                Option::Some(rest) => Option::Some(seq![(aes[0].0, v)] + rest),
                Option::None => Option::None,
            },
            _ => Option::None,
        }
    }
}

/// The mutation settings a payload carries: the annotations member is
/// required and holds string values.
pub open spec fn dec_mutate_settings(j: JsonSpec) -> Option<MutateSettingsView> {
    match j {
        JsonSpec::Obj(es) => match lookup(es, "annotations"@) {
            Option::Some(JsonSpec::Obj(aes)) => match dec_ann_items(aes) {
                Option::Some(annotations) => Option::Some(MutateSettingsView { annotations }),
                Option::None => Option::None,
            },
            _ => Option::None,
        },
        _ => Option::None,
    }
}

#[verifier::loop_isolation(false)]
pub fn decode_mutate_settings(j: &JsonValue) -> (r: Result<MutateSettings, Fault>)
    ensures
        match r {
            Result::Ok(s) => dec_mutate_settings(j@) == Option::Some(s@),
            Result::Err(f) => dec_mutate_settings(j@) is None && f == Fault::Settings,
        },
{
    let es = match j {
        JsonValue::Obj(es) => es,
        _ => {
            return Result::Err(Fault::Settings);
        },
    };
    let aes = match get(es, &"annotations".to_string()) {
        Option::Some(JsonValue::Obj(aes)) => aes,
        _ => {
            return Result::Err(Fault::Settings);
        },
    };
    proof {
        lemma_jspec_of_entries(aes@);
    }
    let ghost whole = jspec_of_entries(aes@);
    proof {
        assert(whole.subrange(0, whole.len() as int) =~= whole);
        assert(crate::settings::string_pairs_of(Seq::<(String, String)>::empty()) =~= Seq::<(
            Seq<char>,
            Seq<char>,
        )>::empty());
        match dec_ann_items(whole) {
            Option::Some(rest) => {
                assert(Seq::<(Seq<char>, Seq<char>)>::empty() + rest =~= rest);
            },
            Option::None => {},
        }
    }
    let mut annotations: Vec<(String, String)> = Vec::new();
    let mut i: usize = 0;
    while i < aes.len()
        invariant
            i <= aes.len(),
            annotations.len() == i,
            whole == jspec_of_entries(aes@),
            whole.len() == aes@.len(),
            forall|k: int|
                0 <= k < aes@.len() ==> #[trigger] whole[k] == (aes@[k].0@, jspec_of(aes@[k].1)),
            dec_ann_items(whole) == (match dec_ann_items(
                whole.subrange(i as int, whole.len() as int),
            ) {
                Option::Some(rest) => Option::Some(
                    crate::settings::string_pairs_of(annotations@) + rest,
                ),
                Option::None => Option::None::<Seq<(Seq<char>, Seq<char>)>>,
            }),
        decreases aes.len() - i,
    {
        let ghost pre = whole.subrange(i as int, whole.len() as int);
        proof {
            assert(pre[0] == whole[i as int]);
            assert(pre.subrange(1, pre.len() as int) =~= whole.subrange(
                i + 1,
                whole.len() as int,
            ));
        }
        match &aes[i].1 {
            JsonValue::Str(v) => {
                let ghost anns0 = annotations@;
                annotations.push((aes[i].0.clone(), v.clone()));
                proof {
                    assert(annotations@.subrange(0, i as int) =~= anns0);
                    match dec_ann_items(whole.subrange(i + 1, whole.len() as int)) {
                        Option::Some(rest) => {
                            assert(crate::settings::string_pairs_of(anns0) + (seq![
                                (aes@[i as int].0@, v@),
                            ] + rest) =~= crate::settings::string_pairs_of(annotations@) + rest);
                        },
                        Option::None => {},
                    }
                }
            },
            _ => {
                return Result::Err(Fault::Settings);
            },
        }
        i = i + 1;
    }
    proof {
        assert(whole.subrange(whole.len() as int, whole.len() as int) =~= Seq::<(
            Seq<char>,
            JsonSpec,
        )>::empty());
        assert(crate::settings::string_pairs_of(annotations@) + Seq::<(
            Seq<char>,
            Seq<char>,
        )>::empty() =~= crate::settings::string_pairs_of(annotations@));
    }
    Result::Ok(MutateSettings { annotations })
}

// ---------------------------------------------------------------------------
// The invocation documents.
// ---------------------------------------------------------------------------

/// The response document: the populated envelope, and no reported error —
/// every fault is fatal rather than reported.
pub open spec fn enc_output_doc(resp: JsonSpec) -> JsonSpec {
    JsonSpec::Obj(seq![("response"@, resp), ("error"@, JsonSpec::Null)])
}

fn output_doc(resp: JsonValue) -> (r: JsonValue)
    ensures
        r@ == enc_output_doc(resp@),
{
    let ghost rv = resp@;
    let mut es: Vec<(String, JsonValue)> = Vec::new();
    es.push(("response".to_string(), resp));
    es.push(("error".to_string(), JsonValue::Null));
    proof {
        lemma_jspec_of_entries(es@);
        assert(jspec_of_entries(es@) =~= enc_output_doc(rv)->Obj_0);
    }
    JsonValue::Obj(es)
}

/// The settings payload of an invocation document: absent or null resolves
/// to the module default, and the document itself must be an object holding
/// a request.
pub open spec fn doc_settings(doc: JsonSpec) -> Option<JsonSpec> {
    match member(doc, "settings"@) {
        Option::Some(JsonSpec::Null) => Option::None,
        other => other,
    }
}

fn doc_parts<'a>(doc: &'a JsonValue) -> (r: Option<(&'a JsonValue, Option<&'a JsonValue>)>)
    ensures
        match r {
            Option::Some(p) => member(doc@, "request"@) == Option::Some(p.0@) && (match p.1 {
                Option::Some(s) => doc_settings(doc@) == Option::Some(s@) && !(s@ is Null),
                Option::None => doc_settings(doc@) is None,
            }),
            Option::None => member(doc@, "request"@) is None,
        },
{
    let es = match doc {
        JsonValue::Obj(es) => es,
        _ => {
            return Option::None;
        },
    };
    let request = match get(es, &"request".to_string()) {
        Option::Some(rj) => rj,
        Option::None => {
            return Option::None;
        },
    };
    let settings = match get(es, &"settings".to_string()) {
        Option::None => Option::None,
        Option::Some(JsonValue::Null) => Option::None,
        Option::Some(sj) => Option::Some(sj),
    };
    Option::Some((request, settings))
}

/// The validating admission capability over one invocation document.
pub open spec fn spec_handle_validate(doc: JsonSpec) -> Result<JsonSpec, Fault> {
    match member(doc, "request"@) {
        Option::None => Result::Err(Fault::Decode),
        Option::Some(rj) => match dec_admission_review(rj) {
            Option::None => Result::Err(Fault::Decode),
            Option::Some(ar) => match spec_validate(ar) {
                Result::Err(f) => Result::Err(f),
                Result::Ok(out) => Result::Ok(enc_output_doc(enc_admission_review(out))),
            },
        },
    }
}

/// Read one validation document, decide, and write one response document.
pub fn handle_validate(doc: &JsonValue) -> (r: Result<JsonValue, Fault>)
    ensures
        match r {
            Result::Ok(out) => spec_handle_validate(doc@) == Result::Ok::<_, Fault>(out@),
            Result::Err(f) => spec_handle_validate(doc@) == Result::Err::<JsonSpec, _>(f),
        },
{
    let (request, _settings) = match doc_parts(doc) {
        Option::Some(p) => p,
        Option::None => {
            return Result::Err(Fault::Decode);
        },
    };
    let ar = match decode_admission_review(request) {
        Result::Ok(ar) => ar,
        Result::Err(f) => {
            return Result::Err(f);
        },
    };
    let out = match validate(&ar) {
        Result::Ok(out) => out,
        Result::Err(f) => {
            return Result::Err(f);
        },
    };
    Result::Ok(output_doc(encode_admission_review(out)))
}

/// The mutating admission capability, up to the serialization of the
/// transformed object: the correlation id and the transformed object.
pub open spec fn spec_handle_mutate(doc: JsonSpec) -> Result<(Seq<char>, JsonSpec), Fault> {
    match member(doc, "request"@) {
        Option::None => Result::Err(Fault::Decode),
        Option::Some(rj) => match dec_admission_review(rj) {
            Option::None => Result::Err(Fault::Decode),
            Option::Some(ar) => {
                let settings = match doc_settings(doc) {
                    Option::None => Option::Some(default_mutate_settings()),
                    Option::Some(sj) => dec_mutate_settings(sj),
                };
                match settings {
                    Option::None => Result::Err(Fault::Settings),
                    Option::Some(s) => spec_mutate(ar, s.annotations),
                }
            },
        },
    }
}

/// Read one mutation document and transform the object under review. The
/// caller serializes the transformed object and passes the bytes to
/// [`mutation_output`].
pub fn handle_mutate(doc: &JsonValue) -> (r: Result<(String, JsonValue), Fault>)
    ensures
        match r {
            Result::Ok(p) => spec_handle_mutate(doc@) == Result::Ok::<_, Fault>((p.0@, p.1@)),
            Result::Err(f) => spec_handle_mutate(doc@) == Result::Err::<(Seq<char>, JsonSpec), _>(
                f,
            ),
        },
{
    let (request, settings_json) = match doc_parts(doc) {
        Option::Some(p) => p,
        Option::None => {
            return Result::Err(Fault::Decode);
        },
    };
    let ar = match decode_admission_review(request) {
        Result::Ok(ar) => ar,
        Result::Err(f) => {
            return Result::Err(f);
        },
    };
    let settings = match settings_json {
        Option::None => MutateSettings::default(),
        Option::Some(sj) => match decode_mutate_settings(sj) {
            Result::Ok(s) => s,
            Result::Err(f) => {
                return Result::Err(f);
            },
        },
    };
    mutate(&ar, &settings)
}

/// Wrap the serialized transformed object into the mutation's response
/// document.
pub fn mutation_output(uid: String, object_bytes: &Vec<u8>) -> (r: JsonValue)
    ensures
        r@ == enc_output_doc(
            enc_admission_review(spec_mutation_review(uid@, object_bytes@)),
        ),
{
    output_doc(encode_admission_review(mutation_review(uid, object_bytes)))
}

/// The authentication capability over one invocation document.
pub open spec fn spec_handle_authn(doc: JsonSpec) -> Result<JsonSpec, Fault> {
    match member(doc, "request"@) {
        Option::None => Result::Err(Fault::Decode),
        Option::Some(rj) => match dec_token_review(rj) {
            Option::None => Result::Err(Fault::Decode),
            Option::Some(tr) => {
                let settings = match doc_settings(doc) {
                    Option::None => Option::Some(default_authn_settings()),
                    Option::Some(sj) => dec_authn_settings(sj),
                };
                match settings {
                    Option::None => Result::Err(Fault::Settings),
                    Option::Some(s) => match spec_authn(tr, s) {
                        Result::Err(f) => Result::Err(f),
                        Result::Ok(out) => Result::Ok(enc_output_doc(enc_token_review(out))),
                    },
                }
            },
        },
    }
}

/// Read one token review document, decide, and write one response document.
pub fn handle_authn(doc: &JsonValue) -> (r: Result<JsonValue, Fault>)
    ensures
        match r {
            Result::Ok(out) => spec_handle_authn(doc@) == Result::Ok::<_, Fault>(out@),
            Result::Err(f) => spec_handle_authn(doc@) == Result::Err::<JsonSpec, _>(f),
        },
{
    let (request, settings_json) = match doc_parts(doc) {
        Option::Some(p) => p,
        Option::None => {
            return Result::Err(Fault::Decode);
        },
    };
    let tr = match decode_token_review(request) {
        Result::Ok(tr) => tr,
        Result::Err(f) => {
            return Result::Err(f);
        },
    };
    let settings = match settings_json {
        Option::None => AuthnSettings::default(),
        Option::Some(sj) => match decode_authn_settings(sj) {
            Result::Ok(s) => s,
            Result::Err(f) => {
                return Result::Err(f);
            },
        },
    };
    let out = match authn(&tr, &settings) {
        Result::Ok(out) => out,
        Result::Err(f) => {
            return Result::Err(f);
        },
    };
    Result::Ok(output_doc(encode_token_review(out)))
}

/// The authorization capability over one invocation document.
pub open spec fn spec_handle_authz(doc: JsonSpec) -> Result<JsonSpec, Fault> {
    match member(doc, "request"@) {
        Option::None => Result::Err(Fault::Decode),
        Option::Some(rj) => match dec_sar(rj) {
            Option::None => Result::Err(Fault::Decode),
            Option::Some(sar) => {
                let settings = match doc_settings(doc) {
                    Option::None => Option::Some(default_authz_settings()),
                    Option::Some(sj) => dec_authz_settings(sj),
                };
                match settings {
                    Option::None => Result::Err(Fault::Settings),
                    Option::Some(s) => Result::Ok(enc_output_doc(enc_sar(spec_authz(sar, s)))),
                }
            },
        },
    }
}

/// Read one subject access review document, decide, and write one response
/// document.
pub fn handle_authz(doc: &JsonValue) -> (r: Result<JsonValue, Fault>)
    ensures
        match r {
            Result::Ok(out) => spec_handle_authz(doc@) == Result::Ok::<_, Fault>(out@),
            Result::Err(f) => spec_handle_authz(doc@) == Result::Err::<JsonSpec, _>(f),
        },
{
    let (request, settings_json) = match doc_parts(doc) {
        Option::Some(p) => p,
        Option::None => {
            return Result::Err(Fault::Decode);
        },
    };
    let sar = match decode_sar(request) {
        Result::Ok(sar) => sar,
        Result::Err(f) => {
            return Result::Err(f);
        },
    };
    let settings = match settings_json {
        Option::None => AuthzSettings::default(),
        Option::Some(sj) => match decode_authz_settings(sj) {
            Result::Ok(s) => s,
            Result::Err(f) => {
                return Result::Err(f);
            },
        },
    };
    Result::Ok(output_doc(encode_sar(authz(&sar, &settings))))
}

// ---------------------------------------------------------------------------
// The capability table.
// ---------------------------------------------------------------------------

/// The capabilities a host can name when it calls a module.
#[derive(Clone, Copy, Debug, PartialEq, Eq, Structural)]
pub enum Capability {
    Validate,
    Mutate,
    Authn,
    Authz,
}

/// The immutable registration table: which exported name serves which
/// capability.
pub open spec fn spec_capability_of(name: Seq<char>) -> Option<Capability> {
    if name == "validate"@ {
        Option::Some(Capability::Validate)
    } else if name == "mutate"@ {
        Option::Some(Capability::Mutate)
    } else if name == "authn"@ {
        Option::Some(Capability::Authn)
    } else if name == "authz"@ {
        Option::Some(Capability::Authz)
    } else {
        Option::None
    }
}

/// Look one exported function name up in the capability table.
pub fn capability_of(name: &String) -> (r: Option<Capability>)
    ensures
        r == spec_capability_of(name@),
{
    if *name == "validate".to_string() {
        Option::Some(Capability::Validate)
    } else if *name == "mutate".to_string() {
        Option::Some(Capability::Mutate)
    } else if *name == "authn".to_string() {
        Option::Some(Capability::Authn)
    } else if *name == "authz".to_string() {
        Option::Some(Capability::Authz)
    } else {
        Option::None
    }
}

// ---------------------------------------------------------------------------
// The echo capability.
// ---------------------------------------------------------------------------

/// The uppercase form of a text, as Unicode uppercasing maps it.
pub uninterp spec fn upper_of(s: Seq<char>) -> Seq<char>;

/// Relies on str::to_uppercase: the result depends on the characters alone,
/// and an empty text stays empty.
#[verifier::external_body]
fn to_uppercase_x(s: &str) -> (r: String)
    ensures
        r@ == upper_of(s@),
        s@.len() == 0 ==> r@.len() == 0,
{
    s.to_uppercase()
}

/// The echo module's decision: answer the uppercased message.
pub fn run(msg: &str) -> (r: String)
    ensures
        r@ == upper_of(msg@),
{
    to_uppercase_x(msg)
}

} // verus!
