//! The review envelopes: admission review, token review and subject access
//! review, with the substructures they share. Each type has a mathematical
//! view over sequences of characters and JSON models, which the codec and the
//! decision contracts speak of.
use vstd::prelude::*;
use crate::json::JsonValue;
use crate::json::JsonSpec;
use crate::json::jspec_of_entries;

verus! {

/// Group, version and kind of the resource under review.
#[derive(Debug, Clone, PartialEq)]
pub struct GroupVersionKind {
    pub group: String,
    pub version: String,
    pub kind: String,
}

#[verifier::ext_equal]
pub struct GroupVersionKindView {
    pub group: Seq<char>,
    pub version: Seq<char>,
    pub kind: Seq<char>,
}

impl View for GroupVersionKind {
    type V = GroupVersionKindView;

    open spec fn view(&self) -> GroupVersionKindView {
        GroupVersionKindView { group: self.group@, version: self.version@, kind: self.kind@ }
    }
}

/// Group, version and kind of the stored resource form.
#[derive(Debug, Clone, PartialEq)]
pub struct GroupVersionResource {
    pub group: String,
    pub version: String,
    pub kind: String,
}

#[verifier::ext_equal]
pub struct GroupVersionResourceView {
    pub group: Seq<char>,
    pub version: Seq<char>,
    pub kind: Seq<char>,
}

impl View for GroupVersionResource {
    type V = GroupVersionResourceView;

    open spec fn view(&self) -> GroupVersionResourceView {
        GroupVersionResourceView { group: self.group@, version: self.version@, kind: self.kind@ }
    }
}

/// The user on whose behalf a request is made. Group names are kept without
/// duplicates; the extra attributes are an open map that the core preserves
/// but never interprets.
#[derive(Debug, PartialEq)]
pub struct UserInfo {
    pub username: String,
    pub uid: String,
    pub groups: Vec<String>,
    pub extra: Vec<(String, JsonValue)>,
}

#[verifier::ext_equal]
pub struct UserInfoView {
    pub username: Seq<char>,
    pub uid: Seq<char>,
    pub groups: Seq<Seq<char>>,
    pub extra: Seq<(Seq<char>, JsonSpec)>,
}

pub open spec fn strings_of(v: Seq<String>) -> Seq<Seq<char>> {
    v.map_values(|s: String| s@)
}

impl View for UserInfo {
    type V = UserInfoView;

    open spec fn view(&self) -> UserInfoView {
        UserInfoView {
            username: self.username@,
            uid: self.uid@,
            groups: strings_of(self.groups@),
            extra: jspec_of_entries(self.extra@),
        }
    }
}

/// One admission request: the operation under review, the identity of the
/// target, the invoking user and the object itself as an opaque JSON value.
#[derive(Debug, PartialEq)]
pub struct AdmissionRequest {
    pub uid: String,
    pub kind: GroupVersionKind,
    pub resource: GroupVersionResource,
    pub sub_resource: String,
    pub request_kind: GroupVersionKind,
    pub request_resource: GroupVersionKind,
    pub request_sub_resource: String,
    pub name: String,
    pub namespace: String,
    pub operation: String,
    pub user_info: UserInfo,
    pub object: JsonValue,
    pub old_object: JsonValue,
    pub dry_run: bool,
    pub options: Vec<(String, JsonValue)>,
}

#[verifier::ext_equal]
pub struct AdmissionRequestView {
    pub uid: Seq<char>,
    pub kind: GroupVersionKindView,
    pub resource: GroupVersionResourceView,
    pub sub_resource: Seq<char>,
    pub request_kind: GroupVersionKindView,
    pub request_resource: GroupVersionKindView,
    pub request_sub_resource: Seq<char>,
    pub name: Seq<char>,
    pub namespace: Seq<char>,
    pub operation: Seq<char>,
    pub user_info: UserInfoView,
    pub object: JsonSpec,
    pub old_object: JsonSpec,
    pub dry_run: bool,
    pub options: Seq<(Seq<char>, JsonSpec)>,
}

impl View for AdmissionRequest {
    type V = AdmissionRequestView;

    open spec fn view(&self) -> AdmissionRequestView {
        AdmissionRequestView {
            uid: self.uid@,
            kind: self.kind@,
            resource: self.resource@,
            sub_resource: self.sub_resource@,
            request_kind: self.request_kind@,
            request_resource: self.request_resource@,
            request_sub_resource: self.request_sub_resource@,
            name: self.name@,
            namespace: self.namespace@,
            operation: self.operation@,
            user_info: self.user_info@,
            object: self.object@,
            old_object: self.old_object@,
            dry_run: self.dry_run,
            options: jspec_of_entries(self.options@),
        }
    }
}

/// One admission verdict. The patch carries base64 text and is present only
/// on an allowing, mutating response.
#[derive(Debug, Clone, PartialEq)]
pub struct AdmissionResponse {
    pub uid: String,
    pub allowed: bool,
    pub patch: Option<String>,
    pub patch_type: Option<String>,
}

#[verifier::ext_equal]
pub struct AdmissionResponseView {
    pub uid: Seq<char>,
    pub allowed: bool,
    pub patch: Option<Seq<char>>,
    pub patch_type: Option<Seq<char>>,
}

pub open spec fn opt_string_of(o: Option<String>) -> Option<Seq<char>> {
    match o {
        Option::Some(s) => Option::Some(s@),
        Option::None => Option::None,
    }
}

impl View for AdmissionResponse {
    type V = AdmissionResponseView;

    open spec fn view(&self) -> AdmissionResponseView {
        AdmissionResponseView {
            uid: self.uid@,
            allowed: self.allowed,
            patch: opt_string_of(self.patch),
            patch_type: opt_string_of(self.patch_type),
        }
    }
}

/// The admission review envelope: exactly one of `request` and `response` is
/// populated per direction, and both stay optional so that unknown shapes can
/// round-trip.
#[derive(Debug, PartialEq)]
pub struct AdmissionReview {
    pub kind: Option<String>,
    pub api_version: Option<String>,
    pub request: Option<AdmissionRequest>,
    pub response: Option<AdmissionResponse>,
}

#[verifier::ext_equal]
pub struct AdmissionReviewView {
    pub kind: Option<Seq<char>>,
    pub api_version: Option<Seq<char>>,
    pub request: Option<AdmissionRequestView>,
    pub response: Option<AdmissionResponseView>,
}

impl View for AdmissionReview {
    type V = AdmissionReviewView;

    open spec fn view(&self) -> AdmissionReviewView {
        AdmissionReviewView {
            kind: opt_string_of(self.kind),
            api_version: opt_string_of(self.api_version),
            request: match self.request {
                Option::Some(r) => Option::Some(r@),
                Option::None => Option::None,
            },
            response: match self.response {
                Option::Some(r) => Option::Some(r@),
                Option::None => Option::None,
            },
        }
    }
}

/// Object metadata, of which the protocol reads only the correlation id.
#[derive(Debug, Clone, PartialEq)]
pub struct Metadata {
    pub uid: Option<String>,
}

#[verifier::ext_equal]
pub struct MetadataView {
    pub uid: Option<Seq<char>>,
}

impl View for Metadata {
    type V = MetadataView;

    open spec fn view(&self) -> MetadataView {
        MetadataView { uid: opt_string_of(self.uid) }
    }
}

/// The token under review.
#[derive(Debug, Clone, PartialEq)]
pub struct TokenReviewSpec {
    pub token: Option<String>,
}

#[verifier::ext_equal]
pub struct TokenReviewSpecView {
    pub token: Option<Seq<char>>,
}

impl View for TokenReviewSpec {
    type V = TokenReviewSpecView;

    open spec fn view(&self) -> TokenReviewSpecView {
        TokenReviewSpecView { token: opt_string_of(self.token) }
    }
}

/// The verdict on a token: either an authenticated user, or an error. The
/// two are never populated together.
#[derive(Debug, PartialEq)]
pub struct TokenReviewStatus {
    pub authenticated: Option<bool>,
    pub user: Option<UserInfo>,
    pub error: Option<String>,
}

#[verifier::ext_equal]
pub struct TokenReviewStatusView {
    pub authenticated: Option<bool>,
    pub user: Option<UserInfoView>,
    pub error: Option<Seq<char>>,
}

impl View for TokenReviewStatus {
    type V = TokenReviewStatusView;

    open spec fn view(&self) -> TokenReviewStatusView {
        TokenReviewStatusView {
            authenticated: self.authenticated,
            user: match self.user {
                Option::Some(u) => Option::Some(u@),
                Option::None => Option::None,
            },
            error: opt_string_of(self.error),
        }
    }
}

/// The token review envelope.
#[derive(Debug, PartialEq)]
pub struct TokenReview {
    pub kind: Option<String>,
    pub api_version: Option<String>,
    pub metadata: Option<Metadata>,
    pub spec: Option<TokenReviewSpec>,
    pub status: Option<TokenReviewStatus>,
}

#[verifier::ext_equal]
pub struct TokenReviewView {
    pub kind: Option<Seq<char>>,
    pub api_version: Option<Seq<char>>,
    pub metadata: Option<MetadataView>,
    pub spec: Option<TokenReviewSpecView>,
    pub status: Option<TokenReviewStatusView>,
}

impl View for TokenReview {
    type V = TokenReviewView;

    open spec fn view(&self) -> TokenReviewView {
        TokenReviewView {
            kind: opt_string_of(self.kind),
            api_version: opt_string_of(self.api_version),
            metadata: match self.metadata {
                Option::Some(m) => Option::Some(m@),
                Option::None => Option::None,
            },
            spec: match self.spec {
                Option::Some(s) => Option::Some(s@),
                Option::None => Option::None,
            },
            status: match self.status {
                Option::Some(s) => Option::Some(s@),
                Option::None => Option::None,
            },
        }
    }
}

/// The resource identity that an authorization check speaks of.
#[derive(Debug, Clone, PartialEq)]
pub struct ResourceAttributes {
    pub group: Option<String>,
    pub namespace: Option<String>,
    pub name: Option<String>,
    pub resource: Option<String>,
    pub verb: Option<String>,
}

#[verifier::ext_equal]
pub struct ResourceAttributesView {
    pub group: Option<Seq<char>>,
    pub namespace: Option<Seq<char>>,
    pub name: Option<Seq<char>>,
    pub resource: Option<Seq<char>>,
    pub verb: Option<Seq<char>>,
}

impl View for ResourceAttributes {
    type V = ResourceAttributesView;

    open spec fn view(&self) -> ResourceAttributesView {
        ResourceAttributesView {
            group: opt_string_of(self.group),
            namespace: opt_string_of(self.namespace),
            name: opt_string_of(self.name),
            resource: opt_string_of(self.resource),
            verb: opt_string_of(self.verb),
        }
    }
}

/// The subject and the action an authorization check asks about.
#[derive(Debug, Clone, PartialEq)]
pub struct SubjectAccessReviewSpec {
    pub user: Option<String>,
    pub groups: Option<Vec<String>>,
    pub resource_attributes: Option<ResourceAttributes>,
}

#[verifier::ext_equal]
pub struct SubjectAccessReviewSpecView {
    pub user: Option<Seq<char>>,
    pub groups: Option<Seq<Seq<char>>>,
    pub resource_attributes: Option<ResourceAttributesView>,
}

impl View for SubjectAccessReviewSpec {
    type V = SubjectAccessReviewSpecView;

    open spec fn view(&self) -> SubjectAccessReviewSpecView {
        SubjectAccessReviewSpecView {
            user: opt_string_of(self.user),
            groups: match self.groups {
                Option::Some(g) => Option::Some(strings_of(g@)),
                Option::None => Option::None,
            },
            resource_attributes: match self.resource_attributes {
                Option::Some(r) => Option::Some(r@),
                Option::None => Option::None,
            },
        }
    }
}

/// The verdict of an authorization check.
#[derive(Debug, Clone, PartialEq)]
pub struct SubjectAccessReviewStatus {
    pub allowed: bool,
    pub denied: Option<bool>,
    pub reason: Option<String>,
    pub evaluation_error: Option<String>,
}

#[verifier::ext_equal]
pub struct SubjectAccessReviewStatusView {
    pub allowed: bool,
    pub denied: Option<bool>,
    pub reason: Option<Seq<char>>,
    pub evaluation_error: Option<Seq<char>>,
}

impl View for SubjectAccessReviewStatus {
    type V = SubjectAccessReviewStatusView;

    open spec fn view(&self) -> SubjectAccessReviewStatusView {
        SubjectAccessReviewStatusView {
            allowed: self.allowed,
            denied: self.denied,
            reason: opt_string_of(self.reason),
            evaluation_error: opt_string_of(self.evaluation_error),
        }
    }
}

/// The subject access review envelope.
#[derive(Debug, Clone, PartialEq)]
pub struct SubjectAccessReview {
    pub kind: Option<String>,
    pub api_version: Option<String>,
    pub metadata: Option<Metadata>,
    pub spec: Option<SubjectAccessReviewSpec>,
    pub status: Option<SubjectAccessReviewStatus>,
}

#[verifier::ext_equal]
pub struct SubjectAccessReviewView {
    pub kind: Option<Seq<char>>,
    pub api_version: Option<Seq<char>>,
    pub metadata: Option<MetadataView>,
    pub spec: Option<SubjectAccessReviewSpecView>,
    pub status: Option<SubjectAccessReviewStatusView>,
}

impl View for SubjectAccessReview {
    type V = SubjectAccessReviewView;

    open spec fn view(&self) -> SubjectAccessReviewView {
        SubjectAccessReviewView {
            kind: opt_string_of(self.kind),
            api_version: opt_string_of(self.api_version),
            metadata: match self.metadata {
                Option::Some(m) => Option::Some(m@),
                Option::None => Option::None,
            },
            spec: match self.spec {
                Option::Some(s) => Option::Some(s@),
                Option::None => Option::None,
            },
            status: match self.status {
                Option::Some(s) => Option::Some(s@),
                Option::None => Option::None,
            },
        }
    }
}

} // verus!
