//! The decision engines: one pure function per review kind, from request and
//! settings to a response, together with the fault taxonomy. Every response
//! carries the request's correlation id, and a denying admission response
//! never carries a patch.
use vstd::prelude::*;
use crate::envelope::AdmissionResponse;
use crate::envelope::AdmissionResponseView;
use crate::envelope::AdmissionReview;
use crate::envelope::AdmissionReviewView;
use crate::envelope::Metadata;
use crate::envelope::MetadataView;
use crate::envelope::SubjectAccessReview;
use crate::envelope::SubjectAccessReviewSpecView;
use crate::envelope::SubjectAccessReviewStatus;
use crate::envelope::SubjectAccessReviewStatusView;
use crate::envelope::SubjectAccessReviewView;
use crate::envelope::TokenReview;
use crate::envelope::TokenReviewStatus;
use crate::envelope::TokenReviewStatusView;
use crate::envelope::TokenReviewView;
use crate::envelope::UserInfo;
use crate::envelope::UserInfoView;
use crate::envelope::strings_of;
use crate::json::JsonSpec;
use crate::json::JsonValue;
use crate::json::get;
use crate::json::lookup;
use crate::settings::AuthnSettings;
use crate::settings::AuthnSettingsView;
use crate::settings::AuthzSettings;
use crate::settings::AuthzSettingsView;

verus! {

/// The faults that abort an invocation. A fault never turns into a negative
/// verdict, so callers can always tell a broken envelope from a denial.
#[derive(Clone, Copy, Debug, PartialEq, Eq, Structural)]
pub enum Fault {
    /// The input bytes do not form the expected envelope shape.
    Decode,
    /// A field the decision depends on is absent or ill-typed.
    Extraction,
    /// A settings payload is present but does not deserialize.
    Settings,
}

/// The view of a fallible result whose success value has a view.
pub open spec fn res_view<T: View>(r: Result<T, Fault>) -> Result<T::V, Fault> {
    match r {
        Result::Ok(t) => Result::Ok(t@),
        Result::Err(f) => Result::Err(f),
    }
}

/// The value of a named member, if the document is an object holding one.
pub open spec fn member(j: JsonSpec, key: Seq<char>) -> Option<JsonSpec> {
    match j {
        JsonSpec::Obj(es) => lookup(es, key),
        _ => Option::None,
    }
}

/// The text of a named string member, if present with that type.
pub open spec fn str_member(j: JsonSpec, key: Seq<char>) -> Option<Seq<char>> {
    match member(j, key) {
        Option::Some(JsonSpec::Str(s)) => Option::Some(s),
        _ => Option::None,
    }
}

/// The namespace recorded in an object's metadata.
pub open spec fn object_namespace(obj: JsonSpec) -> Option<Seq<char>> {
    match member(obj, "metadata"@) {
        Option::Some(m) => str_member(m, "namespace"@),
        Option::None => Option::None,
    }
}

/// The name recorded in an object's metadata.
pub open spec fn object_name(obj: JsonSpec) -> Option<Seq<char>> {
    match member(obj, "metadata"@) {
        Option::Some(m) => str_member(m, "name"@),
        Option::None => Option::None,
    }
}

/// Reads `metadata.<key>` of the object as a string, by reference.
fn extract_metadata_str<'a>(obj: &'a JsonValue, key: &String) -> (r: Option<&'a String>)
    ensures
        match r {
            Option::Some(s) => member(obj@, "metadata"@) matches Option::Some(m) && str_member(
                m,
                key@,
            ) == Option::Some(s@),
            Option::None => match member(obj@, "metadata"@) {
                Option::Some(m) => str_member(m, key@) is None,
                Option::None => true,
            },
        },
        r is None <==> (match member(obj@, "metadata"@) {
            Option::Some(m) => str_member(m, key@) is None,
            Option::None => true,
        }),
{
    let metadata_key = "metadata".to_string();
    match obj {
        JsonValue::Obj(es) => {
            match get(es, &metadata_key) {
                Option::Some(JsonValue::Obj(mes)) => {
                    match get(mes, key) {
                        Option::Some(JsonValue::Str(s)) => Option::Some(s),
                        _ => Option::None,
                    }
                },
                _ => Option::None,
            }
        },
        _ => Option::None,
    }
}

/// The verdict of the validating admission module: in the `default`
/// namespace only one pod name passes; everywhere else everything passes.
pub open spec fn spec_validate_verdict(namespace: Seq<char>, name: Seq<char>) -> bool {
    !(namespace == "default"@ && name != "allowed-pod-name"@)
}

/// The validating admission decision on one request view.
pub open spec fn spec_validate_request(req: crate::envelope::AdmissionRequestView) -> Result<
    AdmissionResponseView,
    Fault,
> {
    match (object_namespace(req.object), object_name(req.object)) {
        (Option::Some(namespace), Option::Some(name)) => Result::Ok(
            AdmissionResponseView {
                uid: req.uid,
                allowed: spec_validate_verdict(namespace, name),
                patch: Option::None,
                patch_type: Option::None,
            },
        ),
        _ => Result::Err(Fault::Extraction),
    }
}

/// The validating admission decision on one review envelope: the response
/// envelope names the admission kind, echoes the request's uid, and never
/// carries a patch.
pub open spec fn spec_validate(ar: AdmissionReviewView) -> Result<AdmissionReviewView, Fault> {
    match ar.request {
        Option::None => Result::Err(Fault::Extraction),
        Option::Some(req) => match spec_validate_request(req) {
            Result::Err(f) => Result::Err(f),
            Result::Ok(resp) => Result::Ok(
                AdmissionReviewView {
                    kind: Option::Some("AdmissionReview"@),
                    api_version: Option::Some("admission.k8s.io/v1"@),
                    request: Option::None,
                    response: Option::Some(resp),
                },
            ),
        },
    }
}

/// Validating admission. A missing request or a request whose object lacks
/// the fields the predicate reads is an extraction fault, never a silent
/// deny.
pub fn validate(ar: &AdmissionReview) -> (r: Result<AdmissionReview, Fault>)
    ensures
        res_view(r) == spec_validate(ar@),
{
    let req = match &ar.request {
        Option::Some(req) => req,
        Option::None => {
            return Result::Err(Fault::Extraction);
        },
    };
    let namespace_key = "namespace".to_string();
    let name_key = "name".to_string();
    let namespace = match extract_metadata_str(&req.object, &namespace_key) {
        Option::Some(s) => s,
        Option::None => {
            return Result::Err(Fault::Extraction);
        },
    };
    let name = match extract_metadata_str(&req.object, &name_key) {
        Option::Some(s) => s,
        Option::None => {
            return Result::Err(Fault::Extraction);
        },
    };
    let allowed = !(*namespace == "default".to_string() && !(*name == "allowed-pod-name".to_string()));
    let response = AdmissionResponse {
        uid: req.uid.clone(),
        allowed,
        patch: Option::None,
        patch_type: Option::None,
    };
    Result::Ok(
        AdmissionReview {
            kind: Option::Some("AdmissionReview".to_string()),
            api_version: Option::Some("admission.k8s.io/v1".to_string()),
            request: Option::None,
            response: Option::Some(response),
        },
    )
}

/// The status the authentication module answers with: on a token match, the
/// identity from the settings; on a mismatch, an error text. User and error
/// are never populated together.
pub open spec fn spec_authn_status(token: Seq<char>, s: AuthnSettingsView) -> TokenReviewStatusView {
    if token == s.token {
        TokenReviewStatusView {
            authenticated: Option::Some(true),
            user: Option::Some(
                UserInfoView {
                    username: s.user,
                    uid: s.uid,
                    groups: s.groups,
                    extra: Seq::empty(),
                },
            ),
            error: Option::None,
        }
    } else {
        TokenReviewStatusView {
            authenticated: Option::Some(false),
            user: Option::None,
            error: Option::Some("invalid token"@),
        }
    }
}

/// The authentication decision on one review envelope. A missing token is an
/// extraction fault.
pub open spec fn spec_authn(tr: TokenReviewView, s: AuthnSettingsView) -> Result<
    TokenReviewView,
    Fault,
> {
    let token = match tr.spec {
        Option::Some(spec) => spec.token,
        Option::None => Option::None,
    };
    match token {
        Option::None => Result::Err(Fault::Extraction),
        Option::Some(t) => Result::Ok(
            TokenReviewView {
                kind: Option::None,
                api_version: Option::None,
                metadata: Option::None,
                spec: Option::None,
                status: Option::Some(spec_authn_status(t, s)),
            },
        ),
    }
}

fn copy_strings(v: &Vec<String>) -> (r: Vec<String>)
    ensures
        strings_of(r@) == strings_of(v@),
{
    let mut r: Vec<String> = Vec::new();
    let mut i: usize = 0;
    while i < v.len()
        invariant
            i <= v.len(),
            r.len() == i,
            forall|k: int| 0 <= k < i ==> #[trigger] r@[k]@ == v@[k]@,
        decreases v.len() - i,
    {
        r.push(v[i].clone());
        i = i + 1;
    }
    proof {
        assert(strings_of(r@) =~= strings_of(v@));
    }
    r
}

/// Authentication: compare the presented token with the expected one and
/// vouch for the configured identity on a match.
pub fn authn(tr: &TokenReview, settings: &AuthnSettings) -> (r: Result<TokenReview, Fault>)
    ensures
        res_view(r) == spec_authn(tr@, settings@),
{
    let token = match &tr.spec {
        Option::Some(spec) => match &spec.token {
            Option::Some(t) => t,
            Option::None => {
                return Result::Err(Fault::Extraction);
            },
        },
        Option::None => {
            return Result::Err(Fault::Extraction);
        },
    };
    let status = if *token == settings.token {
        TokenReviewStatus {
            authenticated: Option::Some(true),
            user: Option::Some(
                UserInfo {
                    username: settings.user.clone(),
                    uid: settings.uid.clone(),
                    groups: copy_strings(&settings.groups),
                    extra: Vec::new(),
                },
            ),
            error: Option::None,
        }
    } else {
        TokenReviewStatus {
            authenticated: Option::Some(false),
            user: Option::None,
            error: Option::Some("invalid token".to_string()),
        }
    };
    proof {
        assert(crate::json::jspec_of_entries(Seq::<(String, JsonValue)>::empty()) =~= Seq::<(
            Seq<char>,
            JsonSpec,
        )>::empty());
    }
    Result::Ok(
        TokenReview {
            kind: Option::None,
            api_version: Option::None,
            metadata: Option::None,
            spec: Option::None,
            status: Option::Some(status),
        },
    )
}

/// The base rule of the authorization module: the subject belongs to the
/// configured privileged group and asks about the configured resource name.
/// False whenever either configured value is absent, and false when the
/// request names no resource.
pub open spec fn spec_base_allowed(s: SubjectAccessReviewSpecView, st: AuthzSettingsView) -> bool {
    match (st.magic_group, st.magic_name) {
        (Option::Some(group), Option::Some(name)) => {
            let groups = match s.groups {
                Option::Some(gs) => gs,
                Option::None => Seq::empty(),
            };
            &&& groups.contains(group)
            &&& match s.resource_attributes {
                Option::Some(ra) => match ra.name {
                    Option::Some(n) => n == name,
                    Option::None => false,
                },
                Option::None => false,
            }
        },
        _ => false,
    }
}

/// The verdict the authorization module answers with: when the allow-all
/// switch is set, every request passes, whatever the base rule says.
pub open spec fn spec_authz_allowed(s: SubjectAccessReviewSpecView, st: AuthzSettingsView) -> bool {
    st.allow_all || spec_base_allowed(s, st)
}

/// The authorization decision on one review envelope: the verdict, with the
/// refinement fields left unset, under the request's correlation id.
pub open spec fn spec_authz(sar: SubjectAccessReviewView, st: AuthzSettingsView) -> SubjectAccessReviewView {
    let s = match sar.spec {
        Option::Some(s) => s,
        Option::None => SubjectAccessReviewSpecView {
            user: Option::None,
            groups: Option::None,
            resource_attributes: Option::None,
        },
    };
    SubjectAccessReviewView {
        kind: Option::None,
        api_version: Option::None,
        metadata: Option::Some(
            MetadataView {
                uid: match sar.metadata {
                    Option::Some(m) => m.uid,
                    Option::None => Option::None,
                },
            },
        ),
        spec: Option::None,
        status: Option::Some(
            SubjectAccessReviewStatusView {
                allowed: spec_authz_allowed(s, st),
                denied: Option::None,
                reason: Option::None,
                evaluation_error: Option::None,
            },
        ),
    }
}

fn contains_string(v: &Vec<String>, s: &String) -> (r: bool)
    ensures
        r == strings_of(v@).contains(s@),
{
    let mut i: usize = 0;
    while i < v.len()
        invariant
            i <= v.len(),
            forall|k: int| 0 <= k < i ==> strings_of(v@)[k] != s@,
        decreases v.len() - i,
    {
        if v[i] == *s {
            assert(strings_of(v@)[i as int] == s@);
            return true;
        }
        i = i + 1;
    }
    proof {
        if strings_of(v@).contains(s@) {
            let k = choose|k: int| 0 <= k < strings_of(v@).len() && strings_of(v@)[k] == s@;
            assert(strings_of(v@)[k] != s@);
        }
    }
    false
}

/// Authorization: a total decision, with the correlation id copied from the
/// request envelope's metadata.
pub fn authz(sar: &SubjectAccessReview, settings: &AuthzSettings) -> (r: SubjectAccessReview)
    ensures
        r@ == spec_authz(sar@, settings@),
{
    let base_allowed = match (&settings.magic_group, &settings.magic_name) {
        (Option::Some(group), Option::Some(name)) => {
            let in_group = match &sar.spec {
                Option::Some(s) => match &s.groups {
                    Option::Some(gs) => contains_string(gs, group),
                    Option::None => false,
                },
                Option::None => false,
            };
            if !in_group {
                false
            } else {
                match &sar.spec {
                    Option::Some(s) => match &s.resource_attributes {
                        Option::Some(ra) => match &ra.name {
                            Option::Some(n) => *n == *name,
                            Option::None => false,
                        },
                        Option::None => false,
                    },
                    Option::None => false,
                }
            }
        },
        _ => false,
    };
    let allowed = settings.allow_all || base_allowed;
    let uid = match &sar.metadata {
        Option::Some(m) => match &m.uid {
            Option::Some(u) => Option::Some(u.clone()),
            Option::None => Option::None,
        },
        Option::None => Option::None,
    };
    SubjectAccessReview {
        kind: Option::None,
        api_version: Option::None,
        metadata: Option::Some(Metadata { uid }),
        spec: Option::None,
        status: Option::Some(
            SubjectAccessReviewStatus {
                allowed,
                denied: Option::None,
                reason: Option::None,
                evaluation_error: Option::None,
            },
        ),
    }
}


/// Correlation: every admission response the validator produces carries the
/// request's uid.
pub proof fn lemma_validate_correlation(ar: AdmissionReviewView)
    requires
        spec_validate(ar) is Ok,
    ensures
        ar.request matches Option::Some(req) && spec_validate(ar) matches Result::Ok(out)
            && out.response matches Option::Some(resp) && resp.uid == req.uid,
{
}

/// Correlation: the authorization response's metadata carries the request
/// envelope's uid, whatever the settings.
pub proof fn lemma_authz_correlation(sar: SubjectAccessReviewView, st: AuthzSettingsView)
    ensures
        spec_authz(sar, st).metadata matches Option::Some(m) && m.uid == (match sar.metadata {
            Option::Some(m0) => m0.uid,
            Option::None => Option::None,
        }),
{
}

/// A validating admission response never carries a patch or a patch type,
/// whether it allows or denies.
pub proof fn lemma_validate_no_patch(ar: AdmissionReviewView)
    requires
        spec_validate(ar) is Ok,
    ensures
        spec_validate(ar) matches Result::Ok(out) && out.response matches Option::Some(resp)
            && resp.patch is None && resp.patch_type is None,
{
}

/// The authentication status never carries a resolved user and an error at
/// once: a match yields the user, a mismatch yields the error.
pub proof fn lemma_authn_user_error_exclusive(token: Seq<char>, s: AuthnSettingsView)
    ensures
        !(spec_authn_status(token, s).user is Some && spec_authn_status(token, s).error is Some),
        spec_authn_status(token, s).user is Some <==> token == s.token,
{
}

} // verus!
