//! Per-module settings: their shapes, their compiled-in defaults, and the
//! resolver that supplies a default when no payload accompanies a request.
use vstd::prelude::*;

verus! {

/// Settings of the token-review module: the expected token and the identity
/// vouched for on a match.
#[derive(Debug, Clone, PartialEq)]
pub struct AuthnSettings {
    pub token: String,
    pub uid: String,
    pub user: String,
    pub groups: Vec<String>,
}

#[verifier::ext_equal]
pub struct AuthnSettingsView {
    pub token: Seq<char>,
    pub uid: Seq<char>,
    pub user: Seq<char>,
    pub groups: Seq<Seq<char>>,
}

impl View for AuthnSettings {
    type V = AuthnSettingsView;

    open spec fn view(&self) -> AuthnSettingsView {
        AuthnSettingsView {
            token: self.token@,
            uid: self.uid@,
            user: self.user@,
            groups: crate::envelope::strings_of(self.groups@),
        }
    }
}

/// The documented default identity of the token-review module.
pub open spec fn default_authn_settings() -> AuthnSettingsView {
    AuthnSettingsView {
        token: "my-test-token"@,
        uid: "1337"@,
        user: "my-user"@,
        groups: seq!["system:masters"@],
    }
}

impl Default for AuthnSettings {
    /// The compiled-in default, a valid settings value in its own right.
    fn default() -> (r: AuthnSettings)
        ensures
            r@ == default_authn_settings(),
    {
        let mut groups: Vec<String> = Vec::new();
        groups.push("system:masters".to_string());
        let r = AuthnSettings {
            token: "my-test-token".to_string(),
            uid: "1337".to_string(),
            user: "my-user".to_string(),
            groups,
        };
        proof {
            assert(r@.groups =~= default_authn_settings().groups);
        }
        r
    }
}

/// Settings of the authorization module: an overriding allow-all switch and
/// an optional privileged group paired with a privileged resource name.
#[derive(Debug, Clone, PartialEq)]
pub struct AuthzSettings {
    pub allow_all: bool,
    pub magic_group: Option<String>,
    pub magic_name: Option<String>,
}

#[verifier::ext_equal]
pub struct AuthzSettingsView {
    pub allow_all: bool,
    pub magic_group: Option<Seq<char>>,
    pub magic_name: Option<Seq<char>>,
}

impl View for AuthzSettings {
    type V = AuthzSettingsView;

    open spec fn view(&self) -> AuthzSettingsView {
        AuthzSettingsView {
            allow_all: self.allow_all,
            magic_group: crate::envelope::opt_string_of(self.magic_group),
            magic_name: crate::envelope::opt_string_of(self.magic_name),
        }
    }
}

/// The documented default of the authorization module: allow everything, no
/// privileged exception configured.
pub open spec fn default_authz_settings() -> AuthzSettingsView {
    AuthzSettingsView { allow_all: true, magic_group: Option::None, magic_name: Option::None }
}

impl Default for AuthzSettings {
    fn default() -> (r: AuthzSettings)
        ensures
            r@ == default_authz_settings(),
    {
        AuthzSettings { allow_all: true, magic_group: Option::None, magic_name: Option::None }
    }
}

/// Settings of the mutating admission module: the annotations to merge into
/// the object under review, first to last.
#[derive(Debug, Clone, PartialEq)]
pub struct MutateSettings {
    pub annotations: Vec<(String, String)>,
}

#[verifier::ext_equal]
pub struct MutateSettingsView {
    pub annotations: Seq<(Seq<char>, Seq<char>)>,
}

pub open spec fn string_pairs_of(v: Seq<(String, String)>) -> Seq<(Seq<char>, Seq<char>)> {
    v.map_values(|p: (String, String)| (p.0@, p.1@))
}

impl View for MutateSettings {
    type V = MutateSettingsView;

    open spec fn view(&self) -> MutateSettingsView {
        MutateSettingsView { annotations: string_pairs_of(self.annotations@) }
    }
}

impl MutateSettings {
    /// The settings shape itself places no further constraint on its values.
    pub fn validate(&self) -> (r: Result<(), String>)
        ensures
            r is Ok,
    {
        Result::Ok(())
    }
}

/// The documented default of the mutating module: one marker annotation.
pub open spec fn default_mutate_settings() -> MutateSettingsView {
    MutateSettingsView { annotations: seq![("puzzle.ch/test-annotation"@, "foo"@)] }
}

impl Default for MutateSettings {
    fn default() -> (r: MutateSettings)
        ensures
            r@ == default_mutate_settings(),
    {
        let mut annotations: Vec<(String, String)> = Vec::new();
        annotations.push(("puzzle.ch/test-annotation".to_string(), "foo".to_string()));
        let r = MutateSettings { annotations };
        proof {
            assert(r@.annotations =~= default_mutate_settings().annotations);
        }
        r
    }
}

/// An absent settings payload resolves to the compiled-in default; a present
/// one is taken as it is.
pub open spec fn spec_resolve_authn(o: Option<AuthnSettingsView>) -> AuthnSettingsView {
    match o {
        Option::Some(s) => s,
        Option::None => default_authn_settings(),
    }
}

pub fn resolve_authn_settings(o: Option<AuthnSettings>) -> (r: AuthnSettings)
    ensures
        r@ == spec_resolve_authn(match o {
            Option::Some(s) => Option::Some(s@),
            Option::None => Option::None,
        }),
{
    match o {
        Option::Some(s) => s,
        Option::None => AuthnSettings::default(),
    }
}

pub open spec fn spec_resolve_authz(o: Option<AuthzSettingsView>) -> AuthzSettingsView {
    match o {
        Option::Some(s) => s,
        Option::None => default_authz_settings(),
    }
}

pub fn resolve_authz_settings(o: Option<AuthzSettings>) -> (r: AuthzSettings)
    ensures
        r@ == spec_resolve_authz(match o {
            Option::Some(s) => Option::Some(s@),
            Option::None => Option::None,
        }),
{
    match o {
        Option::Some(s) => s,
        Option::None => AuthzSettings::default(),
    }
}

pub open spec fn spec_resolve_mutate(o: Option<MutateSettingsView>) -> MutateSettingsView {
    match o {
        Option::Some(s) => s,
        Option::None => default_mutate_settings(),
    }
}

pub fn resolve_mutate_settings(o: Option<MutateSettings>) -> (r: MutateSettings)
    ensures
        r@ == spec_resolve_mutate(match o {
            Option::Some(s) => Option::Some(s@),
            Option::None => Option::None,
        }),
{
    match o {
        Option::Some(s) => s,
        Option::None => MutateSettings::default(),
    }
}

/// Resolving an absent authentication payload yields exactly the documented
/// field values, so a decision made without settings equals one made with the
/// default spelled out.
pub proof fn lemma_authn_settings_defaulting()
    ensures
        spec_resolve_authn(Option::None) == (AuthnSettingsView {
            token: "my-test-token"@,
            uid: "1337"@,
            user: "my-user"@,
            groups: seq!["system:masters"@],
        }),
{
}

/// Resolving an absent authorization payload yields exactly the documented
/// field values.
pub proof fn lemma_authz_settings_defaulting()
    ensures
        spec_resolve_authz(Option::None) == (AuthzSettingsView {
            allow_all: true,
            magic_group: Option::None,
            magic_name: Option::None,
        }),
{
}

} // verus!
