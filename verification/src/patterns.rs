use vstd::prelude::*;

verus! {

/// The catalog of glob patterns for files that commonly hold secrets or
/// local-only configuration. Each is injected as a negation when a matcher is
/// compiled, so that matching files are never reported as ignored.
pub open spec fn default_catalog() -> Seq<Seq<char>> {
    seq![
        ".env"@,
        ".env.*"@,
        "*.secret"@,
        "*.secrets.*"@,
        "*.keys"@,
        "*.key"@,
        "*.pem"@,
        "*.crt"@,
        "secrets.*"@,
        "credentials.*"@,
        "auth.*"@,
        "config.local.*"@,
        "settings.local.*"@,
        ".npmrc"@,
        ".npmrc.*"@,
        "config/local.*"@,
        "firebase-service-account.json"@,
        "local_settings.py"@,
        "settings_local.py"@,
        "secrets.json"@,
        "config/master.key"@,
        "config/credentials.yml.enc"@,
        "config/secrets.yml"@,
        "application-local.*"@,
        "application-dev.*"@,
        "secrets.properties"@,
        ".env.*.local"@,
        "config/secrets/*/*/*.php"@,
        "appsettings.Development.json"@,
        "appsettings.*.json"@,
        "secrets.json"@,
        "docker-compose.override.yml"@,
        "*.override.yml"@,
        "kubeconfig"@,
        "secrets.yaml"@,
        "terraform.tfvars"@,
        "terraform.tfvars.json"@,
        ".terraform/*"@,
        "google-services.json"@,
        "GoogleService-Info.plist"@,
        "*.jks"@,
        "*.p12"@,
    ]
}

/// The default protected patterns, as strings, in catalog order.
pub fn default_ignores() -> (v: Vec<String>)
    ensures
        v.deep_view() == default_catalog(),
{
    let mut v: Vec<String> = Vec::new();
    v.push(".env".to_owned());
    v.push(".env.*".to_owned());
    v.push("*.secret".to_owned());
    v.push("*.secrets.*".to_owned());
    v.push("*.keys".to_owned());
    v.push("*.key".to_owned());
    v.push("*.pem".to_owned());
    v.push("*.crt".to_owned());
    v.push("secrets.*".to_owned());
    v.push("credentials.*".to_owned());
    v.push("auth.*".to_owned());
    v.push("config.local.*".to_owned());
    v.push("settings.local.*".to_owned());
    v.push(".npmrc".to_owned());
    v.push(".npmrc.*".to_owned());
    v.push("config/local.*".to_owned());
    v.push("firebase-service-account.json".to_owned());
    v.push("local_settings.py".to_owned());
    v.push("settings_local.py".to_owned());
    v.push("secrets.json".to_owned());
    v.push("config/master.key".to_owned());
    v.push("config/credentials.yml.enc".to_owned());
    v.push("config/secrets.yml".to_owned());
    v.push("application-local.*".to_owned());
    v.push("application-dev.*".to_owned());
    v.push("secrets.properties".to_owned());
    v.push(".env.*.local".to_owned());
    v.push("config/secrets/*/*/*.php".to_owned());
    v.push("appsettings.Development.json".to_owned());
    v.push("appsettings.*.json".to_owned());
    v.push("secrets.json".to_owned());
    v.push("docker-compose.override.yml".to_owned());
    v.push("*.override.yml".to_owned());
    v.push("kubeconfig".to_owned());
    v.push("secrets.yaml".to_owned());
    v.push("terraform.tfvars".to_owned());
    v.push("terraform.tfvars.json".to_owned());
    v.push(".terraform/*".to_owned());
    v.push("google-services.json".to_owned());
    v.push("GoogleService-Info.plist".to_owned());
    v.push("*.jks".to_owned());
    v.push("*.p12".to_owned());
    proof {
        assert(v.deep_view() =~= default_catalog());
    }
    v
}

/// Every catalog entry is a tame pattern: nonempty and ending in a
/// printable, non-space character, so each keeps its meaning as a negation.
pub proof fn lemma_catalog_tame()
    ensures
        crate::rules::all_tame(default_catalog()),
{
    reveal_strlit(".env");
    reveal_strlit(".env.*");
    reveal_strlit("*.secret");
    reveal_strlit("*.secrets.*");
    reveal_strlit("*.keys");
    reveal_strlit("*.key");
    reveal_strlit("*.pem");
    reveal_strlit("*.crt");
    reveal_strlit("secrets.*");
    reveal_strlit("credentials.*");
    reveal_strlit("auth.*");
    reveal_strlit("config.local.*");
    reveal_strlit("settings.local.*");
    reveal_strlit(".npmrc");
    reveal_strlit(".npmrc.*");
    reveal_strlit("config/local.*");
    reveal_strlit("firebase-service-account.json");
    reveal_strlit("local_settings.py");
    reveal_strlit("settings_local.py");
    reveal_strlit("secrets.json");
    reveal_strlit("config/master.key");
    reveal_strlit("config/credentials.yml.enc");
    reveal_strlit("config/secrets.yml");
    reveal_strlit("application-local.*");
    reveal_strlit("application-dev.*");
    reveal_strlit("secrets.properties");
    reveal_strlit(".env.*.local");
    reveal_strlit("config/secrets/*/*/*.php");
    reveal_strlit("appsettings.Development.json");
    reveal_strlit("appsettings.*.json");
    reveal_strlit("docker-compose.override.yml");
    reveal_strlit("*.override.yml");
    reveal_strlit("kubeconfig");
    reveal_strlit("secrets.yaml");
    reveal_strlit("terraform.tfvars");
    reveal_strlit("terraform.tfvars.json");
    reveal_strlit(".terraform/*");
    reveal_strlit("google-services.json");
    reveal_strlit("GoogleService-Info.plist");
    reveal_strlit("*.jks");
    reveal_strlit("*.p12");
    assert(crate::rules::tame_pattern("*.crt"@));
    assert(crate::rules::tame_pattern("*.jks"@));
    assert(crate::rules::tame_pattern("*.key"@));
    assert(crate::rules::tame_pattern("*.keys"@));
    assert(crate::rules::tame_pattern("*.override.yml"@));
    assert(crate::rules::tame_pattern("*.p12"@));
    assert(crate::rules::tame_pattern("*.pem"@));
    assert(crate::rules::tame_pattern("*.secret"@));
    assert(crate::rules::tame_pattern("*.secrets.*"@));
    assert(crate::rules::tame_pattern(".env"@));
    assert(crate::rules::tame_pattern(".env.*"@));
    assert(crate::rules::tame_pattern(".env.*.local"@));
    assert(crate::rules::tame_pattern(".npmrc"@));
    assert(crate::rules::tame_pattern(".npmrc.*"@));
    assert(crate::rules::tame_pattern(".terraform/*"@));
    assert(crate::rules::tame_pattern("GoogleService-Info.plist"@));
    assert(crate::rules::tame_pattern("application-dev.*"@));
    assert(crate::rules::tame_pattern("application-local.*"@));
    assert(crate::rules::tame_pattern("appsettings.*.json"@));
    assert(crate::rules::tame_pattern("appsettings.Development.json"@));
    assert(crate::rules::tame_pattern("auth.*"@));
    assert(crate::rules::tame_pattern("config.local.*"@));
    assert(crate::rules::tame_pattern("config/credentials.yml.enc"@));
    assert(crate::rules::tame_pattern("config/local.*"@));
    assert(crate::rules::tame_pattern("config/master.key"@));
    assert(crate::rules::tame_pattern("config/secrets.yml"@));
    assert(crate::rules::tame_pattern("config/secrets/*/*/*.php"@));
    assert(crate::rules::tame_pattern("credentials.*"@));
    assert(crate::rules::tame_pattern("docker-compose.override.yml"@));
    assert(crate::rules::tame_pattern("firebase-service-account.json"@));
    assert(crate::rules::tame_pattern("google-services.json"@));
    assert(crate::rules::tame_pattern("kubeconfig"@));
    assert(crate::rules::tame_pattern("local_settings.py"@));
    assert(crate::rules::tame_pattern("secrets.*"@));
    assert(crate::rules::tame_pattern("secrets.json"@));
    assert(crate::rules::tame_pattern("secrets.properties"@));
    assert(crate::rules::tame_pattern("secrets.yaml"@));
    assert(crate::rules::tame_pattern("settings.local.*"@));
    assert(crate::rules::tame_pattern("settings_local.py"@));
    assert(crate::rules::tame_pattern("terraform.tfvars"@));
    assert(crate::rules::tame_pattern("terraform.tfvars.json"@));
    assert forall|i: int| 0 <= i < default_catalog().len() implies crate::rules::tame_pattern(
        #[trigger] default_catalog()[i],
    ) by {
        let p = default_catalog()[i];
        assert(crate::rules::tame_pattern(p));
    }
}

} // verus!

