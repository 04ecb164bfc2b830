use std::str::FromStr;
use wasix_net::config::{
    apply_set, bool_text, cflags_line, libs_line, pkg_config_text, retrieve_field, BoolString,
    FieldOutput, RetrievableConfigField, Settings, SetProxyUrl, SetRegistryToken, SetRegistryUrl,
    SetTelemetryEnabled, SetUpdateNotificationsEnabled, StorableConfigField,
};

fn sample_settings() -> Settings {
    Settings {
        registry_url: "https://registry.example.com/graphql".to_string(),
        registry_token: None,
        telemetry_enabled: true,
        update_notifications_enabled: false,
        proxy_url: Some("http://proxy.example.com:3128".to_string()),
    }
}

#[test]
fn retrieve_stored_fields() {
    let s = sample_settings();
    assert_eq!(
        retrieve_field(&s, &RetrievableConfigField::RegistryUrl),
        FieldOutput::Text("https://registry.example.com/graphql".to_string())
    );
    // Not logged in: the token query prints nothing rather than failing.
    assert_eq!(
        retrieve_field(&s, &RetrievableConfigField::RegistryToken),
        FieldOutput::Silent
    );
    assert_eq!(
        retrieve_field(&s, &RetrievableConfigField::TelemetryEnabled),
        FieldOutput::Text("true".to_string())
    );
    assert_eq!(
        retrieve_field(&s, &RetrievableConfigField::UpdateNotificationsEnabled),
        FieldOutput::Text("false".to_string())
    );
    assert_eq!(
        retrieve_field(&s, &RetrievableConfigField::ProxyUrl),
        FieldOutput::Text("http://proxy.example.com:3128".to_string())
    );

    let mut unset = s;
    unset.proxy_url = None;
    unset.registry_token = Some("SECRET-REDACTED".to_string());
    assert_eq!(
        retrieve_field(&unset, &RetrievableConfigField::ProxyUrl),
        FieldOutput::Silent
    );
    assert_eq!(
        retrieve_field(&unset, &RetrievableConfigField::RegistryToken),
        FieldOutput::Text("SECRET-REDACTED".to_string())
    );
}

#[test]
fn retrieve_derived_fields_are_external() {
    let s = sample_settings();
    for field in [
        RetrievableConfigField::Prefix,
        RetrievableConfigField::Bindir,
        RetrievableConfigField::Includedir,
        RetrievableConfigField::Libdir,
        RetrievableConfigField::Libs,
        RetrievableConfigField::Cflags,
        RetrievableConfigField::PkgConfig,
        RetrievableConfigField::ConfigPath,
    ] {
        assert_eq!(retrieve_field(&s, &field), FieldOutput::External);
    }
}

#[test]
fn apply_set_replaces_exactly_one_field() {
    let mut s = sample_settings();
    apply_set(
        &mut s,
        &StorableConfigField::RegistryUrl(SetRegistryUrl {
            url: "https://other.example.com".to_string(),
        }),
    );
    assert_eq!(s.registry_url, "https://other.example.com");
    assert_eq!(s.telemetry_enabled, true);

    apply_set(
        &mut s,
        &StorableConfigField::RegistryToken(SetRegistryToken {
            token: "SECRET-REDACTED".to_string(),
        }),
    );
    assert_eq!(s.registry_token.as_deref(), Some("SECRET-REDACTED"));

    apply_set(
        &mut s,
        &StorableConfigField::TelemetryEnabled(SetTelemetryEnabled {
            enabled: BoolString(false),
        }),
    );
    assert_eq!(s.telemetry_enabled, false);

    apply_set(
        &mut s,
        &StorableConfigField::UpdateNotificationsEnabled(SetUpdateNotificationsEnabled {
            enabled: BoolString(true),
        }),
    );
    assert_eq!(s.update_notifications_enabled, true);

    // An empty proxy setting clears the proxy.
    apply_set(&mut s, &StorableConfigField::ProxyUrl(SetProxyUrl { url: None }));
    assert_eq!(s.proxy_url, None);
    apply_set(
        &mut s,
        &StorableConfigField::ProxyUrl(SetProxyUrl {
            url: Some("socks5://localhost:1080".to_string()),
        }),
    );
    assert_eq!(s.proxy_url.as_deref(), Some("socks5://localhost:1080"));
    assert_eq!(s.registry_url, "https://other.example.com");
}

#[test]
fn bool_string_parses_only_true_and_false() {
    assert_eq!(BoolString::from_str("true"), Ok(BoolString(true)));
    assert_eq!(BoolString::from_str("false"), Ok(BoolString(false)));
    assert!(BoolString::from_str("yes").is_err());
    assert!(BoolString::from_str("True").is_err());
    assert!(BoolString::from_str("").is_err());
}

#[test]
fn flag_lines_match_directories() {
    assert_eq!(bool_text(true), "true");
    assert_eq!(bool_text(false), "false");
    assert_eq!(cflags_line(&"/opt/wasmer/include".to_string()), "-I/opt/wasmer/include");
    assert_eq!(libs_line(&"/opt/wasmer/lib".to_string()), "-L/opt/wasmer/lib -lwasmer");
}

#[test]
fn pkg_config_stanza() {
    let text = pkg_config_text(
        &"/opt/wasmer".to_string(),
        &"/opt/wasmer/bin".to_string(),
        &"/opt/wasmer/include".to_string(),
        &"/opt/wasmer/lib".to_string(),
        &"3.1.0".to_string(),
        &"-I/opt/wasmer/include".to_string(),
        &"-L/opt/wasmer/lib -lwasmer".to_string(),
    );
    let expected = "prefix=/opt/wasmer\n\
                    exec_prefix=/opt/wasmer/bin\n\
                    includedir=/opt/wasmer/include\n\
                    libdir=/opt/wasmer/lib\n\
                    \n\
                    Name: wasmer\n\
                    Description: The Wasmer library for running WebAssembly\n\
                    Version: 3.1.0\n\
                    Cflags: -I/opt/wasmer/include\n\
                    Libs: -L/opt/wasmer/lib -lwasmer";
    assert_eq!(text, expected);
}
