use review_protocol::AdmissionRequest;
use review_protocol::AdmissionResponse;
use review_protocol::AdmissionReview;
use review_protocol::AuthnSettings;
use review_protocol::AuthzSettings;
use review_protocol::Capability;
use review_protocol::Fault;
use review_protocol::GroupVersionKind;
use review_protocol::GroupVersionResource;
use review_protocol::JsonValue;
use review_protocol::Metadata;
use review_protocol::MutateSettings;
use review_protocol::ResourceAttributes;
use review_protocol::SubjectAccessReview;
use review_protocol::SubjectAccessReviewSpec;
use review_protocol::TokenReview;
use review_protocol::TokenReviewSpec;
use review_protocol::UserInfo;
use review_protocol::authn;
use review_protocol::authz;
use review_protocol::capability_of;
use review_protocol::decode_admission_review;
use review_protocol::decode_authn_settings;
use review_protocol::decode_authz_settings;
use review_protocol::decode_mutate_settings;
use review_protocol::decode_sar;
use review_protocol::decode_token_review;
use review_protocol::encode_admission_review;
use review_protocol::encode_sar;
use review_protocol::encode_token_review;
use review_protocol::handle_authn;
use review_protocol::handle_authz;
use review_protocol::handle_mutate;
use review_protocol::handle_validate;
use review_protocol::mutation_output;
use review_protocol::resolve_authn_settings;
use review_protocol::resolve_authz_settings;
use review_protocol::run;
use review_protocol::transform;
use review_protocol::validate;

fn s(x: &str) -> JsonValue {
    JsonValue::Str(x.to_string())
}

fn obj(entries: Vec<(&str, JsonValue)>) -> JsonValue {
    JsonValue::Obj(entries.into_iter().map(|(k, v)| (k.to_string(), v)).collect())
}

fn pod_object(namespace: &str, name: &str) -> JsonValue {
    obj(vec![("metadata", obj(vec![("namespace", s(namespace)), ("name", s(name))]))])
}

fn sample_request(uid: &str, object: JsonValue) -> AdmissionRequest {
    AdmissionRequest {
        uid: uid.to_string(),
        kind: GroupVersionKind {
            group: String::new(),
            version: "v1".to_string(),
            kind: "Pod".to_string(),
        },
        resource: GroupVersionResource {
            group: String::new(),
            version: "v1".to_string(),
            kind: "pods".to_string(),
        },
        sub_resource: String::new(),
        request_kind: GroupVersionKind {
            group: String::new(),
            version: "v1".to_string(),
            kind: "Pod".to_string(),
        },
        request_resource: GroupVersionKind {
            group: String::new(),
            version: "v1".to_string(),
            kind: "pods".to_string(),
        },
        request_sub_resource: String::new(),
        name: "a-pod".to_string(),
        namespace: "team-a".to_string(),
        operation: "CREATE".to_string(),
        user_info: UserInfo {
            username: "jane".to_string(),
            uid: "u-77".to_string(),
            groups: vec!["system:authenticated".to_string(), "dev".to_string()],
            extra: vec![("scopes".to_string(), s("all"))],
        },
        object,
        old_object: JsonValue::Null,
        dry_run: false,
        options: vec![("fieldManager".to_string(), s("kubectl"))],
    }
}

fn request_envelope(uid: &str, object: JsonValue) -> AdmissionReview {
    AdmissionReview {
        kind: Some("AdmissionReview".to_string()),
        api_version: Some("admission.k8s.io/v1".to_string()),
        request: Some(sample_request(uid, object)),
        response: None,
    }
}

fn to_serde(v: &JsonValue) -> serde_json::Value {
    match v {
        JsonValue::Null => serde_json::Value::Null,
        JsonValue::Bool(b) => serde_json::Value::Bool(*b),
        JsonValue::Num(n) => {
            serde_json::Value::Number(n.parse().expect("number text"))
        }
        JsonValue::Str(s) => serde_json::Value::String(s.clone()),
        JsonValue::Arr(items) => serde_json::Value::Array(items.iter().map(to_serde).collect()),
        JsonValue::Obj(entries) => {
            let mut map = serde_json::Map::new();
            for (k, v) in entries {
                map.insert(k.clone(), to_serde(v));
            }
            serde_json::Value::Object(map)
        }
    }
}

fn member<'a>(v: &'a JsonValue, key: &str) -> Option<&'a JsonValue> {
    match v {
        JsonValue::Obj(entries) => entries.iter().find(|(k, _)| k == key).map(|(_, v)| v),
        _ => None,
    }
}

// Round trips: decoding an encoded envelope yields the same value, with
// absent optional members staying absent.

#[test]
fn round_trip_admission_review_with_request() {
    let v = request_envelope("uid-1", pod_object("default", "allowed-pod-name"));
    let encoded = encode_admission_review(AdmissionReview {
        kind: v.kind.clone(),
        api_version: v.api_version.clone(),
        request: Some(sample_request("uid-1", pod_object("default", "allowed-pod-name"))),
        response: None,
    });
    let decoded = decode_admission_review(&encoded).expect("decodes");
    assert_eq!(decoded, v);
}

#[test]
fn round_trip_admission_review_with_response() {
    let v = AdmissionReview {
        kind: None,
        api_version: None,
        request: None,
        response: Some(AdmissionResponse {
            uid: "uid-2".to_string(),
            allowed: true,
            patch: Some("AAECAw==".to_string()),
            patch_type: Some("Full".to_string()),
        }),
    };
    let encoded = encode_admission_review(AdmissionReview {
        kind: None,
        api_version: None,
        request: None,
        response: v.response.clone(),
    });
    let decoded = decode_admission_review(&encoded).expect("decodes");
    assert_eq!(decoded, v);
    assert!(decoded.kind.is_none());
    assert!(decoded.request.is_none());
}

#[test]
fn round_trip_token_review() {
    let v = TokenReview {
        kind: Some("TokenReview".to_string()),
        api_version: Some("authentication.k8s.io/v1".to_string()),
        metadata: Some(Metadata { uid: Some("m-1".to_string()) }),
        spec: Some(TokenReviewSpec { token: Some("secret".to_string()) }),
        status: None,
    };
    let encoded = encode_token_review(TokenReview {
        kind: v.kind.clone(),
        api_version: v.api_version.clone(),
        metadata: v.metadata.clone(),
        spec: v.spec.clone(),
        status: None,
    });
    let decoded = decode_token_review(&encoded).expect("decodes");
    assert_eq!(decoded, v);
}

#[test]
fn round_trip_subject_access_review() {
    let v = SubjectAccessReview {
        kind: None,
        api_version: None,
        metadata: Some(Metadata { uid: Some("sar-9".to_string()) }),
        spec: Some(SubjectAccessReviewSpec {
            user: Some("jane".to_string()),
            groups: Some(vec!["g".to_string(), "h".to_string()]),
            resource_attributes: Some(ResourceAttributes {
                group: None,
                namespace: Some("ns".to_string()),
                name: Some("n".to_string()),
                resource: Some("pods".to_string()),
                verb: Some("update".to_string()),
            }),
        }),
        status: None,
    };
    let encoded = encode_sar(SubjectAccessReview {
        kind: None,
        api_version: None,
        metadata: v.metadata.clone(),
        spec: v.spec.clone(),
        status: None,
    });
    let decoded = decode_sar(&encoded).expect("decodes");
    assert_eq!(decoded, v);
}

#[test]
fn decode_tolerates_unknown_members_and_null_optionals() {
    let doc = obj(vec![
        ("kind", JsonValue::Null),
        ("somethingElse", s("ignored")),
        ("response", obj(vec![
            ("uid", s("u")),
            ("allowed", JsonValue::Bool(false)),
            ("patch", JsonValue::Null),
            ("extraMember", JsonValue::Bool(true)),
        ])),
    ]);
    let decoded = decode_admission_review(&doc).expect("decodes");
    assert_eq!(decoded.kind, None);
    let resp = decoded.response.expect("response");
    assert_eq!(resp.uid, "u");
    assert!(!resp.allowed);
    assert_eq!(resp.patch, None);
    assert_eq!(resp.patch_type, None);
}

#[test]
fn decode_fault_on_ill_typed_member() {
    let doc = obj(vec![("kind", JsonValue::Bool(true))]);
    assert_eq!(decode_admission_review(&doc).unwrap_err(), Fault::Decode);
    assert_eq!(decode_token_review(&s("nope")).unwrap_err(), Fault::Decode);
}

// Validating admission.

#[test]
fn validate_allows_outside_default_namespace() {
    let ar = request_envelope("uid-7", pod_object("team-a", "anything"));
    let out = validate(&ar).expect("decides");
    let resp = out.response.expect("response");
    assert!(resp.allowed);
    assert_eq!(resp.uid, "uid-7");
    assert_eq!(resp.patch, None);
    assert_eq!(resp.patch_type, None);
    assert_eq!(out.kind.as_deref(), Some("AdmissionReview"));
    assert_eq!(out.api_version.as_deref(), Some("admission.k8s.io/v1"));
}

#[test]
fn validate_denies_wrong_name_in_default_namespace() {
    let ar = request_envelope("uid-8", pod_object("default", "other-pod"));
    let out = validate(&ar).expect("decides");
    let resp = out.response.expect("response");
    assert!(!resp.allowed);
    assert_eq!(resp.uid, "uid-8");
    assert_eq!(resp.patch, None);
    assert_eq!(resp.patch_type, None);
}

#[test]
fn validate_allows_named_pod_in_default_namespace() {
    let ar = request_envelope("uid-9", pod_object("default", "allowed-pod-name"));
    let out = validate(&ar).expect("decides");
    assert!(out.response.expect("response").allowed);
}

#[test]
fn validate_missing_namespace_is_extraction_fault() {
    let object = obj(vec![("metadata", obj(vec![("name", s("x"))]))]);
    let ar = request_envelope("uid-10", object);
    assert_eq!(validate(&ar).unwrap_err(), Fault::Extraction);
}

#[test]
fn validate_missing_request_is_extraction_fault() {
    let ar = AdmissionReview { kind: None, api_version: None, request: None, response: None };
    assert_eq!(validate(&ar).unwrap_err(), Fault::Extraction);
}

// Authentication.

#[test]
fn authn_matching_token_authenticates() {
    let settings = AuthnSettings {
        token: "T".to_string(),
        uid: "42".to_string(),
        user: "alice".to_string(),
        groups: vec!["system:masters".to_string()],
    };
    let tr = TokenReview {
        kind: None,
        api_version: None,
        metadata: None,
        spec: Some(TokenReviewSpec { token: Some("T".to_string()) }),
        status: None,
    };
    let out = authn(&tr, &settings).expect("decides");
    let status = out.status.expect("status");
    assert_eq!(status.authenticated, Some(true));
    let user = status.user.expect("user");
    assert_eq!(user.username, "alice");
    assert_eq!(user.uid, "42");
    assert_eq!(user.groups, vec!["system:masters".to_string()]);
    assert!(status.error.is_none());
}

#[test]
fn authn_mismatched_token_reports_error() {
    let settings = AuthnSettings {
        token: "T".to_string(),
        uid: "42".to_string(),
        user: "alice".to_string(),
        groups: vec![],
    };
    let tr = TokenReview {
        kind: None,
        api_version: None,
        metadata: None,
        spec: Some(TokenReviewSpec { token: Some("X".to_string()) }),
        status: None,
    };
    let out = authn(&tr, &settings).expect("decides");
    let status = out.status.expect("status");
    assert_eq!(status.authenticated, Some(false));
    assert!(status.user.is_none());
    assert_eq!(status.error.as_deref(), Some("invalid token"));
}

#[test]
fn authn_missing_token_is_extraction_fault() {
    let settings = resolve_authn_settings(None);
    let tr = TokenReview { kind: None, api_version: None, metadata: None, spec: None, status: None };
    assert_eq!(authn(&tr, &settings).unwrap_err(), Fault::Extraction);
}

#[test]
fn authn_default_settings_have_documented_values() {
    let settings = resolve_authn_settings(None);
    assert_eq!(settings.token, "my-test-token");
    assert_eq!(settings.uid, "1337");
    assert_eq!(settings.user, "my-user");
    assert_eq!(settings.groups, vec!["system:masters".to_string()]);
    let explicit = AuthnSettings {
        token: "my-test-token".to_string(),
        uid: "1337".to_string(),
        user: "my-user".to_string(),
        groups: vec!["system:masters".to_string()],
    };
    assert_eq!(settings, explicit);
    let tr = TokenReview {
        kind: None,
        api_version: None,
        metadata: None,
        spec: Some(TokenReviewSpec { token: Some("my-test-token".to_string()) }),
        status: None,
    };
    let a = authn(&tr, &settings).expect("decides");
    let b = authn(&tr, &explicit).expect("decides");
    assert_eq!(a, b);
    assert_eq!(a.status.expect("status").authenticated, Some(true));
}

// Authorization.

fn sar_with(uid: &str, groups: Vec<&str>, name: Option<&str>) -> SubjectAccessReview {
    SubjectAccessReview {
        kind: None,
        api_version: None,
        metadata: Some(Metadata { uid: Some(uid.to_string()) }),
        spec: Some(SubjectAccessReviewSpec {
            user: Some("jane".to_string()),
            groups: Some(groups.into_iter().map(|g| g.to_string()).collect()),
            resource_attributes: name.map(|n| ResourceAttributes {
                group: None,
                namespace: None,
                name: Some(n.to_string()),
                resource: None,
                verb: None,
            }),
        }),
        status: None,
    }
}

#[test]
fn authz_tie_break_rules() {
    let settings = AuthzSettings {
        allow_all: false,
        magic_group: Some("g".to_string()),
        magic_name: Some("n".to_string()),
    };
    let allowed = authz(&sar_with("u1", vec!["g"], Some("n")), &settings);
    assert!(allowed.status.expect("status").allowed);
    let denied = authz(&sar_with("u2", vec!["g"], Some("m")), &settings);
    assert!(!denied.status.expect("status").allowed);
    let wrong_group = authz(&sar_with("u3", vec!["h"], Some("n")), &settings);
    assert!(!wrong_group.status.expect("status").allowed);
    let override_all = AuthzSettings {
        allow_all: true,
        magic_group: Some("g".to_string()),
        magic_name: Some("n".to_string()),
    };
    let anybody = authz(&sar_with("u4", vec!["other"], Some("m")), &override_all);
    assert!(anybody.status.expect("status").allowed);
}

#[test]
fn authz_copies_correlation_id() {
    let settings = resolve_authz_settings(None);
    let out = authz(&sar_with("sar-uid-5", vec![], None), &settings);
    assert_eq!(out.metadata.expect("metadata").uid.as_deref(), Some("sar-uid-5"));
    let status = out.status.expect("status");
    assert!(status.allowed);
    assert!(status.denied.is_none());
    assert!(status.reason.is_none());
    assert!(status.evaluation_error.is_none());
}

#[test]
fn authz_default_settings_allow_everything() {
    let settings = resolve_authz_settings(None);
    assert!(settings.allow_all);
    assert!(settings.magic_group.is_none());
    assert!(settings.magic_name.is_none());
    let explicit = AuthzSettings { allow_all: true, magic_group: None, magic_name: None };
    assert_eq!(settings, explicit);
    let out = authz(&sar_with("u", vec![], None), &settings);
    assert!(out.status.expect("status").allowed);
}

// Mutation.

#[test]
fn transform_inserts_annotation() {
    let settings = MutateSettings::default();
    let object = pod_object("ns", "p");
    let transformed = transform(&object, &settings).expect("transforms");
    let annotations = member(member(&transformed, "metadata").expect("metadata"), "annotations")
        .expect("annotations");
    assert_eq!(
        member(annotations, "puzzle.ch/test-annotation"),
        Some(&s("foo"))
    );
    // The rest of the object is untouched.
    assert_eq!(
        member(member(&transformed, "metadata").expect("metadata"), "namespace"),
        Some(&s("ns"))
    );
}

#[test]
fn transform_is_idempotent_on_concrete_object() {
    let settings = MutateSettings {
        annotations: vec![
            ("a".to_string(), "1".to_string()),
            ("b".to_string(), "2".to_string()),
        ],
    };
    let object = obj(vec![
        ("metadata", obj(vec![("annotations", obj(vec![("a", s("old")), ("c", s("3"))]))])),
        ("spec", obj(vec![("replicas", JsonValue::Num("2".to_string()))])),
    ]);
    let once = transform(&object, &settings).expect("transforms");
    let twice = transform(&once, &settings).expect("transforms");
    assert_eq!(once, twice);
    let annotations = member(member(&once, "metadata").expect("metadata"), "annotations")
        .expect("annotations");
    assert_eq!(member(annotations, "a"), Some(&s("1")));
    assert_eq!(member(annotations, "b"), Some(&s("2")));
    assert_eq!(member(annotations, "c"), Some(&s("3")));
}

#[test]
fn transform_rejects_non_object() {
    let settings = MutateSettings::default();
    assert_eq!(transform(&s("not-an-object"), &settings).unwrap_err(), Fault::Extraction);
    let bad_metadata = obj(vec![("metadata", s("nope"))]);
    assert_eq!(transform(&bad_metadata, &settings).unwrap_err(), Fault::Extraction);
}

#[test]
fn mutation_patch_decodes_to_serialized_object() {
    let doc = obj(vec![(
        "request",
        encode_admission_review(request_envelope("mut-1", pod_object("ns", "p"))),
    )]);
    let (uid, transformed) = handle_mutate(&doc).expect("mutates");
    assert_eq!(uid, "mut-1");
    let serde_value = to_serde(&transformed);
    let bytes = serde_json::to_vec(&serde_value).expect("serializes");
    let out = mutation_output(uid, &bytes);
    let response = member(member(&out, "response").expect("response"), "response")
        .expect("admission response");
    assert_eq!(member(response, "allowed"), Some(&JsonValue::Bool(true)));
    assert_eq!(member(response, "patchType"), Some(&s("Full")));
    assert_eq!(member(response, "uid"), Some(&s("mut-1")));
    let patch = match member(response, "patch").expect("patch") {
        JsonValue::Str(p) => p.clone(),
        other => panic!("patch should be text, got {:?}", other),
    };
    let decoded =
        base64::Engine::decode(&base64::engine::general_purpose::STANDARD, patch.as_bytes())
            .expect("base64");
    assert_eq!(decoded, bytes);
    let reparsed: serde_json::Value = serde_json::from_slice(&decoded).expect("parses");
    assert_eq!(reparsed, serde_value);
    // The error member of the output document reports nothing.
    assert_eq!(member(&out, "error"), Some(&JsonValue::Null));
}

// Settings payload decoding.

#[test]
fn settings_payload_faults() {
    let missing_token = obj(vec![
        ("uid", s("1")),
        ("user", s("u")),
        ("groups", JsonValue::Arr(vec![])),
    ]);
    assert_eq!(decode_authn_settings(&missing_token).unwrap_err(), Fault::Settings);
    let bad_allow_all = obj(vec![("allowAll", s("yes"))]);
    assert_eq!(decode_authz_settings(&bad_allow_all).unwrap_err(), Fault::Settings);
    let bad_annotations = obj(vec![("annotations", obj(vec![("k", JsonValue::Bool(true))]))]);
    assert_eq!(decode_mutate_settings(&bad_annotations).unwrap_err(), Fault::Settings);
}

#[test]
fn settings_payloads_decode() {
    let authn_payload = obj(vec![
        ("token", s("T")),
        ("uid", s("9")),
        ("user", s("u")),
        ("groups", JsonValue::Arr(vec![s("a"), s("b")])),
    ]);
    let settings = decode_authn_settings(&authn_payload).expect("decodes");
    assert_eq!(settings.token, "T");
    assert_eq!(settings.groups, vec!["a".to_string(), "b".to_string()]);
    let authz_payload = obj(vec![
        ("allowAll", JsonValue::Bool(false)),
        ("magicGroup", s("g")),
        ("magicName", JsonValue::Null),
    ]);
    let settings = decode_authz_settings(&authz_payload).expect("decodes");
    assert!(!settings.allow_all);
    assert_eq!(settings.magic_group.as_deref(), Some("g"));
    assert_eq!(settings.magic_name, None);
    let mutate_payload = obj(vec![("annotations", obj(vec![("k", s("v"))]))]);
    let settings = decode_mutate_settings(&mutate_payload).expect("decodes");
    assert_eq!(settings.annotations, vec![("k".to_string(), "v".to_string())]);
}

// Document handlers.

#[test]
fn handle_validate_document_end_to_end() {
    let doc = obj(vec![(
        "request",
        encode_admission_review(request_envelope("doc-1", pod_object("default", "bad"))),
    )]);
    let out = handle_validate(&doc).expect("handles");
    let response = member(member(&out, "response").expect("response"), "response")
        .expect("admission response");
    assert_eq!(member(response, "allowed"), Some(&JsonValue::Bool(false)));
    assert_eq!(member(response, "uid"), Some(&s("doc-1")));
    assert_eq!(member(response, "patch"), None);
    assert_eq!(member(response, "patchType"), None);
    assert_eq!(member(&out, "error"), Some(&JsonValue::Null));
}

#[test]
fn handle_authn_uses_default_settings_when_payload_absent() {
    let tr = TokenReview {
        kind: None,
        api_version: None,
        metadata: None,
        spec: Some(TokenReviewSpec { token: Some("my-test-token".to_string()) }),
        status: None,
    };
    let doc = obj(vec![("request", encode_token_review(tr))]);
    let out = handle_authn(&doc).expect("handles");
    let status = member(member(&out, "response").expect("response"), "status").expect("status");
    assert_eq!(member(status, "authenticated"), Some(&JsonValue::Bool(true)));
    let user = member(status, "user").expect("user");
    assert_eq!(member(user, "username"), Some(&s("my-user")));
}

#[test]
fn handle_authz_with_settings_payload() {
    let doc = obj(vec![
        ("request", encode_sar(sar_with("z-1", vec!["g"], Some("n")))),
        (
            "settings",
            obj(vec![
                ("allowAll", JsonValue::Bool(false)),
                ("magicGroup", s("g")),
                ("magicName", s("n")),
            ]),
        ),
    ]);
    let out = handle_authz(&doc).expect("handles");
    let response = member(&out, "response").expect("response");
    let status = member(response, "status").expect("status");
    assert_eq!(member(status, "allowed"), Some(&JsonValue::Bool(true)));
    assert_eq!(
        member(member(response, "metadata").expect("metadata"), "uid"),
        Some(&s("z-1"))
    );
}

#[test]
fn handle_document_without_request_is_decode_fault() {
    let doc = obj(vec![("settings", JsonValue::Null)]);
    assert_eq!(handle_validate(&doc).unwrap_err(), Fault::Decode);
    assert_eq!(handle_authn(&doc).unwrap_err(), Fault::Decode);
    assert_eq!(handle_authz(&doc).unwrap_err(), Fault::Decode);
    assert_eq!(handle_mutate(&doc).unwrap_err(), Fault::Decode);
}

#[test]
fn handle_bad_settings_is_settings_fault() {
    let doc = obj(vec![
        ("request", encode_sar(sar_with("z", vec![], None))),
        ("settings", s("garbage")),
    ]);
    assert_eq!(handle_authz(&doc).unwrap_err(), Fault::Settings);
}

// The capability table and the echo capability.

#[test]
fn capability_table_maps_exported_names() {
    assert_eq!(capability_of(&"validate".to_string()), Some(Capability::Validate));
    assert_eq!(capability_of(&"mutate".to_string()), Some(Capability::Mutate));
    assert_eq!(capability_of(&"authn".to_string()), Some(Capability::Authn));
    assert_eq!(capability_of(&"authz".to_string()), Some(Capability::Authz));
    assert_eq!(capability_of(&"unknown".to_string()), None);
}

#[test]
fn run_uppercases_its_input() {
    assert_eq!(run("hello world"), "HELLO WORLD");
    assert_eq!(run(""), "");
    assert_eq!(run("MiXeD 123"), "MIXED 123");
}

#[test]
fn settings_validate_accepts_any_value() {
    let settings = MutateSettings { annotations: vec![] };
    assert!(settings.validate().is_ok());
}

#[test]
fn encoded_validation_response_omits_absent_patch_members() {
    let ar = request_envelope("uid-11", pod_object("team-a", "p"));
    let out = validate(&ar).expect("decides");
    let encoded = encode_admission_review(out);
    let response = member(&encoded, "response").expect("response");
    assert_eq!(member(response, "patch"), None);
    assert_eq!(member(response, "patchType"), None);
    assert_eq!(member(&encoded, "request"), None);
    // Nothing in the response object is null.
    match response {
        JsonValue::Obj(entries) => {
            for (_, v) in entries {
                assert_ne!(v, &JsonValue::Null);
            }
        }
        other => panic!("response should be an object, got {:?}", other),
    }
}

#[test]
fn transform_is_idempotent_with_repeated_keys() {
    let settings = MutateSettings {
        annotations: vec![
            ("a".to_string(), "1".to_string()),
            ("a".to_string(), "2".to_string()),
        ],
    };
    let object = obj(vec![("metadata", obj(vec![]))]);
    let once = transform(&object, &settings).expect("transforms");
    let twice = transform(&once, &settings).expect("transforms");
    assert_eq!(once, twice);
    let annotations = member(member(&once, "metadata").expect("metadata"), "annotations")
        .expect("annotations");
    // The later value for the repeated key wins.
    assert_eq!(member(annotations, "a"), Some(&s("2")));
}

#[test]
fn authz_absent_resource_name_fails_the_base_rule() {
    // Even with the privileged name configured as the empty text, a request
    // that names no resource does not satisfy the rule.
    let settings = AuthzSettings {
        allow_all: false,
        magic_group: Some("g".to_string()),
        magic_name: Some(String::new()),
    };
    let nameless = SubjectAccessReview {
        kind: None,
        api_version: None,
        metadata: None,
        spec: Some(SubjectAccessReviewSpec {
            user: Some("jane".to_string()),
            groups: Some(vec!["g".to_string()]),
            resource_attributes: Some(ResourceAttributes {
                group: None,
                namespace: None,
                name: None,
                resource: Some("pods".to_string()),
                verb: None,
            }),
        }),
        status: None,
    };
    let out = authz(&nameless, &settings);
    assert!(!out.status.expect("status").allowed);
    // A present empty name does equal the empty configured name.
    let empty_named = authz(&sar_with("u", vec!["g"], Some("")), &settings);
    assert!(empty_named.status.expect("status").allowed);
}

#[test]
fn sar_status_without_verdict_is_decode_fault() {
    let doc = obj(vec![("status", obj(vec![("reason", s("why"))]))]);
    assert_eq!(decode_sar(&doc).unwrap_err(), Fault::Decode);
    let good = obj(vec![("status", obj(vec![("allowed", JsonValue::Bool(true))]))]);
    let decoded = decode_sar(&good).expect("decodes");
    assert!(decoded.status.expect("status").allowed);
}
