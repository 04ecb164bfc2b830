//! Data model and decision logic of the user-level configuration command.
//!
//! The command either prints one value (`get`) or stores one value (`set`).
//! [`Settings`] models the stored user settings: the active registry URL
//! and its login token, the two feature flags, and the optional proxy URL.
//! The logic here decides which stored field a query names, what exactly a
//! store replaces, and how the installation-path answers are assembled; the
//! reading and writing of the settings file, the environment and the
//! terminal stay outside this crate.
//!
//! Absence of an optional value is not a failure: querying an unset token
//! or proxy URL prints nothing, by design.

use vstd::prelude::*;
use vstd::string::StringExecFns;

verus! {

/// The stored user settings that the configuration command reads and
/// writes, as plain owned values.
pub struct Settings {
    /// URL of the currently active registry.
    pub registry_url: String,
    /// Login token for the currently active registry, if logged in.
    pub registry_token: Option<String>,
    /// Whether telemetry is enabled.
    pub telemetry_enabled: bool,
    /// Whether update notifications are enabled.
    pub update_notifications_enabled: bool,
    /// Proxy URL, if one is configured.
    pub proxy_url: Option<String>,
}

/// Mathematical image of [`Settings`]: every text as a character sequence.
pub ghost struct SettingsView {
    pub registry_url: Seq<char>,
    pub registry_token: Option<Seq<char>>,
    pub telemetry_enabled: bool,
    pub update_notifications_enabled: bool,
    pub proxy_url: Option<Seq<char>>,
}

impl View for Settings {
    type V = SettingsView;

    open spec fn view(&self) -> SettingsView {
        SettingsView {
            registry_url: self.registry_url@,
            registry_token: match self.registry_token {
                Option::Some(t) => Option::Some(t@),
                Option::None => Option::None,
            },
            telemetry_enabled: self.telemetry_enabled,
            update_notifications_enabled: self.update_notifications_enabled,
            proxy_url: match self.proxy_url {
                Option::Some(u) => Option::Some(u@),
                Option::None => Option::None,
            },
        }
    }
}

/// The options of the configuration subcommand: get a value or set one.
#[derive(Debug, Clone, PartialEq, Eq)]
pub enum Config {
    /// Query a value from the current settings or installation.
    Get(RetrievableConfigField),
    /// Store a value in the current settings.
    Store(StorableConfigField),
}

/// Value that can be queried by the configuration command.
#[derive(Debug, Clone, PartialEq, Eq, PartialOrd, Ord)]
pub enum RetrievableConfigField {
    /// The installation prefix directory.
    Prefix,
    /// The `bin` directory under the prefix.
    Bindir,
    /// The `include` directory under the prefix.
    Includedir,
    /// The `lib` directory under the prefix.
    Libdir,
    /// The linker flags for linking against the runtime library.
    Libs,
    /// The compiler flags for building against the runtime library.
    Cflags,
    /// The whole pkg-config stanza.
    PkgConfig,
    /// The path of the settings file itself.
    ConfigPath,
    /// The URL of the currently active registry.
    RegistryUrl,
    /// The login token of the currently active registry, if any.
    RegistryToken,
    /// Whether telemetry is enabled.
    TelemetryEnabled,
    /// Whether update notifications are enabled.
    UpdateNotificationsEnabled,
    /// The proxy URL, if one is set.
    ProxyUrl,
}

/// Setting that can be stored by the configuration command.
#[derive(Debug, Clone, PartialEq, Eq, PartialOrd, Ord)]
pub enum StorableConfigField {
    RegistryUrl(SetRegistryUrl),
    RegistryToken(SetRegistryToken),
    TelemetryEnabled(SetTelemetryEnabled),
    UpdateNotificationsEnabled(SetUpdateNotificationsEnabled),
    ProxyUrl(SetProxyUrl),
}

/// Set the currently active registry URL.
#[derive(Debug, Clone, PartialEq, Eq, PartialOrd, Ord)]
pub struct SetRegistryUrl {
    pub url: String,
}

/// Set or change the login token for the currently active registry.
#[derive(Debug, Clone, PartialEq, Eq, PartialOrd, Ord)]
pub struct SetRegistryToken {
    pub token: String,
}

/// Enable or disable update notifications.
#[derive(Debug, Clone, PartialEq, Eq, PartialOrd, Ord)]
pub struct SetUpdateNotificationsEnabled {
    pub enabled: BoolString,
}

/// "true" or "false", as the command line hands booleans over.
#[derive(Debug, Clone, PartialEq, Eq, PartialOrd, Ord)]
pub struct BoolString(pub bool);

/// The input was neither "true" nor "false".
#[derive(Debug, Clone, PartialEq, Eq)]
pub struct BoolStringError;

impl core::str::FromStr for BoolString {
    type Err = BoolStringError;

    fn from_str(s: &str) -> Result<Self, Self::Err> {
        let owned = s.to_owned();
        if owned == "true".to_owned() {
            Ok(BoolString(true))
        } else if owned == "false".to_owned() {
            Ok(BoolString(false))
        } else {
            Err(BoolStringError)
        }
    }
}

/// Enable or disable telemetry.
#[derive(Debug, Clone, PartialEq, Eq, PartialOrd, Ord)]
pub struct SetTelemetryEnabled {
    pub enabled: BoolString,
}

/// Set or clear the proxy URL (no URL clears it).
#[derive(Debug, Clone, PartialEq, Eq, PartialOrd, Ord)]
pub struct SetProxyUrl {
    pub url: Option<String>,
}

/// The answer to one query against the stored settings.
#[derive(Debug, Clone, PartialEq, Eq)]
pub enum FieldOutput {
    /// The value to print.
    Text(String),
    /// The queried optional value is unset; print nothing, by design.
    Silent,
    /// The field is not stored in the settings: it is derived from the
    /// installation prefix or from the settings file's own location.
    External,
}

/// The textual form of a boolean, as the command prints it.
pub fn bool_text(b: bool) -> (r: String)
    ensures
        b ==> r@ == "true"@,
        !b ==> r@ == "false"@,
{
    if b {
        "true".to_owned()
    } else {
        "false".to_owned()
    }
}

/// Which stored field a query names and what is printed for it: the exact
/// stored text for the registry fields and the proxy URL, the textual
/// boolean for the two flags, silence for an unset optional value, and
/// `External` for every field that is not part of the stored settings.
pub fn retrieve_field(settings: &Settings, field: &RetrievableConfigField) -> (r: FieldOutput)
    ensures
        match *field {
            RetrievableConfigField::RegistryUrl => r matches FieldOutput::Text(s) && s@
                == settings.registry_url@,
            RetrievableConfigField::RegistryToken => match settings.registry_token {
                Option::Some(t) => r matches FieldOutput::Text(s) && s@ == t@,
                Option::None => r == FieldOutput::Silent,
            },
            RetrievableConfigField::TelemetryEnabled => r matches FieldOutput::Text(s) && s@ == (
            if settings.telemetry_enabled {
                "true"@
            } else {
                "false"@
            }),
            RetrievableConfigField::UpdateNotificationsEnabled => r matches FieldOutput::Text(s)
                && s@ == (if settings.update_notifications_enabled {
                "true"@
            } else {
                "false"@
            }),
            RetrievableConfigField::ProxyUrl => match settings.proxy_url {
                Option::Some(u) => r matches FieldOutput::Text(s) && s@ == u@,
                Option::None => r == FieldOutput::Silent,
            },
            _ => r == FieldOutput::External,
        },
{
    match field {
        RetrievableConfigField::RegistryUrl => FieldOutput::Text(settings.registry_url.clone()),
        RetrievableConfigField::RegistryToken => match &settings.registry_token {
            Option::Some(t) => FieldOutput::Text(t.clone()),
            Option::None => FieldOutput::Silent,
        },
        RetrievableConfigField::TelemetryEnabled => FieldOutput::Text(
            bool_text(settings.telemetry_enabled),
        ),
        RetrievableConfigField::UpdateNotificationsEnabled => FieldOutput::Text(
            bool_text(settings.update_notifications_enabled),
        ),
        RetrievableConfigField::ProxyUrl => match &settings.proxy_url {
            Option::Some(u) => FieldOutput::Text(u.clone()),
            Option::None => FieldOutput::Silent,
        },
        _ => FieldOutput::External,
    }
}

/// What storing one value replaces: exactly the named field, everything
/// else untouched. Storing a registry token records it for the active
/// registry; storing no proxy URL clears the proxy.
pub fn apply_set(settings: &mut Settings, field: &StorableConfigField)
    ensures
        match *field {
            StorableConfigField::RegistryUrl(s) => final(settings)@ == (SettingsView {
                registry_url: s.url@,
                ..old(settings)@
            }),
            StorableConfigField::RegistryToken(t) => final(settings)@ == (SettingsView {
                registry_token: Option::Some(t.token@),
                ..old(settings)@
            }),
            StorableConfigField::TelemetryEnabled(t) => final(settings)@ == (SettingsView {
                telemetry_enabled: t.enabled.0,
                ..old(settings)@
            }),
            StorableConfigField::UpdateNotificationsEnabled(u) => final(settings)@
                == (SettingsView { update_notifications_enabled: u.enabled.0, ..old(settings)@ }),
            StorableConfigField::ProxyUrl(p) => final(settings)@ == (SettingsView {
                proxy_url: match p.url {
                    Option::Some(u) => Option::Some(u@),
                    Option::None => Option::None,
                },
                ..old(settings)@
            }),
        },
{
    match field {
        StorableConfigField::RegistryUrl(s) => {
            settings.registry_url = s.url.clone();
        },
        StorableConfigField::RegistryToken(t) => {
            settings.registry_token = Some(t.token.clone());
        },
        StorableConfigField::TelemetryEnabled(t) => {
            settings.telemetry_enabled = t.enabled.0;
        },
        StorableConfigField::UpdateNotificationsEnabled(u) => {
            settings.update_notifications_enabled = u.enabled.0;
        },
        StorableConfigField::ProxyUrl(p) => {
            settings.proxy_url = match &p.url {
                Option::Some(u) => Some(u.clone()),
                Option::None => None,
            };
        },
    }
}

/// The compiler-flags line printed for `cflags`: the include directory
/// behind `-I`.
pub fn cflags_line(includedir: &String) -> (r: String)
    ensures
        r@ == "-I"@ + includedir@,
{
    let mut s = "-I".to_owned();
    s.append(includedir.as_str());
    s
}

/// The linker-flags line printed for `libs`: the library directory behind
/// `-L`, then the runtime library itself.
pub fn libs_line(libdir: &String) -> (r: String)
    ensures
        r@ == "-L"@ + libdir@ + " -lwasmer"@,
{
    let mut s = "-L".to_owned();
    s.append(libdir.as_str());
    s.append(" -lwasmer");
    s
}

/// The whole pkg-config stanza printed for `pkg-config`, assembled from the
/// derived directories, the version and the two flag lines.
pub fn pkg_config_text(
    prefixdir: &String,
    bindir: &String,
    includedir: &String,
    libdir: &String,
    version: &String,
    cflags: &String,
    libs: &String,
) -> (r: String)
    ensures
        r@ == "prefix="@ + prefixdir@ + "\nexec_prefix="@ + bindir@ + "\nincludedir="@
            + includedir@ + "\nlibdir="@ + libdir@
            + "\n\nName: wasmer\nDescription: The Wasmer library for running WebAssembly\nVersion: "@
            + version@ + "\nCflags: "@ + cflags@ + "\nLibs: "@ + libs@,
{
    let mut s = "prefix=".to_owned();
    s.append(prefixdir.as_str());
    s.append("\nexec_prefix=");
    s.append(bindir.as_str());
    s.append("\nincludedir=");
    s.append(includedir.as_str());
    s.append("\nlibdir=");
    s.append(libdir.as_str());
    s.append("\n\nName: wasmer\nDescription: The Wasmer library for running WebAssembly\nVersion: ");
    s.append(version.as_str());
    s.append("\nCflags: ");
    s.append(cflags.as_str());
    s.append("\nLibs: ");
    s.append(libs.as_str());
    s
}

} // verus!
