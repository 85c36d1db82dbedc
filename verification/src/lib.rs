//! A verified core for Kubernetes review modules: the envelope model shared by
//! admission, authentication and authorization reviews, the decision functions,
//! settings defaulting, and patch generation.
pub mod codec;
pub mod codec_review;
pub mod decision;
pub mod dispatch;
pub mod envelope;
pub mod mutation;
pub mod json;
pub mod settings;

pub use envelope::AdmissionRequest;
pub use envelope::AdmissionRequestView;
pub use envelope::AdmissionResponse;
pub use envelope::AdmissionResponseView;
pub use envelope::AdmissionReview;
pub use envelope::AdmissionReviewView;
pub use envelope::GroupVersionKind;
pub use envelope::GroupVersionKindView;
pub use envelope::GroupVersionResource;
pub use envelope::GroupVersionResourceView;
pub use envelope::Metadata;
pub use envelope::MetadataView;
pub use envelope::ResourceAttributes;
pub use envelope::ResourceAttributesView;
pub use envelope::SubjectAccessReview;
pub use envelope::SubjectAccessReviewSpec;
pub use envelope::SubjectAccessReviewSpecView;
pub use envelope::SubjectAccessReviewStatus;
pub use envelope::SubjectAccessReviewStatusView;
pub use envelope::SubjectAccessReviewView;
pub use envelope::TokenReview;
pub use envelope::TokenReviewSpec;
pub use envelope::TokenReviewSpecView;
pub use envelope::TokenReviewStatus;
pub use envelope::TokenReviewStatusView;
pub use envelope::TokenReviewView;
pub use envelope::UserInfo;
pub use envelope::UserInfoView;
pub use codec::decode_admission_review;
pub use codec::encode_admission_review;
pub use codec::lemma_admission_review_round_trip;
pub use codec_review::decode_sar;
pub use codec_review::decode_token_review;
pub use codec_review::encode_sar;
pub use codec_review::lemma_sar_round_trip;
pub use codec_review::encode_token_review;
pub use codec_review::lemma_token_review_round_trip;
pub use decision::Fault;
pub use decision::authn;
pub use decision::authz;
pub use decision::lemma_authn_user_error_exclusive;
pub use decision::lemma_authz_correlation;
pub use decision::lemma_validate_correlation;
pub use decision::lemma_validate_no_patch;
pub use decision::validate;
pub use dispatch::Capability;
pub use dispatch::capability_of;
pub use dispatch::decode_authn_settings;
pub use dispatch::decode_authz_settings;
pub use dispatch::decode_mutate_settings;
pub use dispatch::handle_authn;
pub use dispatch::handle_authz;
pub use dispatch::handle_mutate;
pub use dispatch::handle_validate;
pub use dispatch::mutation_output;
pub use dispatch::run;
pub use json::JsonSpec;
pub use json::JsonValue;
pub use mutation::generate_patch;
pub use mutation::lemma_mutate_correlation;
pub use mutation::lemma_patch_validity;
pub use mutation::lemma_transform_idempotent;
pub use mutation::mutate;
pub use mutation::mutation_review;
pub use mutation::transform;
pub use settings::AuthnSettings;
pub use settings::AuthnSettingsView;
pub use settings::AuthzSettings;
pub use settings::AuthzSettingsView;
pub use settings::MutateSettings;
pub use settings::MutateSettingsView;
pub use settings::lemma_authn_settings_defaulting;
pub use settings::lemma_authz_settings_defaulting;
pub use settings::resolve_authn_settings;
pub use settings::resolve_authz_settings;
pub use settings::resolve_mutate_settings;