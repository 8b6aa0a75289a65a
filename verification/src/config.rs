//! Start-up settings and the rules that bind them.
use crate::definitions::DEFAULT_DEFINITION_PROVIDER_BASE_URL;
use crate::text::{self, ascii_lower, blank, decimal_text, joined, read_number, same_text, starts_with};
use crate::urls::{self, url_joined, url_parts, UrlParts, UrlView};
use vstd::prelude::*;

verus! {

/// A setting that the service cannot start with.
#[derive(Debug, Clone, Copy, PartialEq, Eq, Structural)]
pub enum ConfigError {
    MissingGoogleCredentials,
    EmptyGoogleCredentials,
    InvalidBaseUrl,
    InsecureBaseUrl,
    CallbackUrl,
    /// The port is not a decimal number below 65536.
    InvalidPort,
    InsecureInProduction,
    ExclusiveModes,
    DevelopmentNeedsInsecure,
    InsecureNeedsDevelopment,
    MissingBaseUrl,
    EmptyDatabasePath,
    MissingDatabasePath,
    /// The definition timeout is not a decimal number of milliseconds.
    InvalidTimeout,
    DefinitionsSetting,
    IncompleteBootstrap,
    BootstrapOutsideDevelopment,
    IssuerOutsideDevelopment,
}

impl ConfigError {
    pub open spec fn message_of(self) -> Seq<char> {
        match self {
            ConfigError::MissingGoogleCredentials =>
                "WWMTF_GOOGLE_CLIENT_ID and WWMTF_GOOGLE_CLIENT_SECRET are required"@,
            ConfigError::EmptyGoogleCredentials =>
                "WWMTF_GOOGLE_CLIENT_ID and WWMTF_GOOGLE_CLIENT_SECRET must not be empty"@,
            ConfigError::InvalidBaseUrl =>
                "WWMTF_PUBLIC_BASE_URL must be an absolute HTTP(S) origin"@,
            ConfigError::InsecureBaseUrl =>
                "WWMTF_PUBLIC_BASE_URL must use https in production mode"@,
            ConfigError::CallbackUrl => "Google callback URL could not be constructed"@,
            ConfigError::InvalidPort => "WWMTF_PORT must be a port number"@,
            ConfigError::InsecureInProduction =>
                "the insecure feature may not run in production mode"@,
            ConfigError::ExclusiveModes =>
                "production mode and development mode are mutually exclusive"@,
            ConfigError::DevelopmentNeedsInsecure =>
                "WWMTF_DEV_MODE requires building with --features insecure"@,
            ConfigError::InsecureNeedsDevelopment =>
                "the insecure feature may only run with WWMTF_DEV_MODE=true"@,
            ConfigError::MissingBaseUrl =>
                "WWMTF_PUBLIC_BASE_URL is required in production mode"@,
            ConfigError::EmptyDatabasePath => "WWMTF_DATABASE_PATH must not be empty"@,
            ConfigError::MissingDatabasePath =>
                "WWMTF_DATABASE_PATH is required in production mode"@,
            ConfigError::InvalidTimeout => "WWMTF_DEFINITION_TIMEOUT_MS must be a number"@,
            ConfigError::DefinitionsSetting =>
                "WWMTF_DEFINITIONS_ENABLED must be true/false, yes/no, or 1/0 when specified"@,
            ConfigError::IncompleteBootstrap =>
                "development bootstrap username and password must be supplied together"@,
            ConfigError::BootstrapOutsideDevelopment =>
                "development account bootstrap is allowed only in development mode"@,
            ConfigError::IssuerOutsideDevelopment =>
                "WWMTF_DEVELOPMENT_OIDC_ISSUER is only allowed in development mode"@,
        }
    }

    pub fn message(self) -> (message: &'static str)
        ensures
            message@ == self.message_of(),
    {
        match self {
            ConfigError::MissingGoogleCredentials =>
                "WWMTF_GOOGLE_CLIENT_ID and WWMTF_GOOGLE_CLIENT_SECRET are required",
            ConfigError::EmptyGoogleCredentials =>
                "WWMTF_GOOGLE_CLIENT_ID and WWMTF_GOOGLE_CLIENT_SECRET must not be empty",
            ConfigError::InvalidBaseUrl =>
                "WWMTF_PUBLIC_BASE_URL must be an absolute HTTP(S) origin",
            ConfigError::InsecureBaseUrl =>
                "WWMTF_PUBLIC_BASE_URL must use https in production mode",
            ConfigError::CallbackUrl => "Google callback URL could not be constructed",
            ConfigError::InvalidPort => "WWMTF_PORT must be a port number",
            ConfigError::InsecureInProduction =>
                "the insecure feature may not run in production mode",
            ConfigError::ExclusiveModes =>
                "production mode and development mode are mutually exclusive",
            ConfigError::DevelopmentNeedsInsecure =>
                "WWMTF_DEV_MODE requires building with --features insecure",
            ConfigError::InsecureNeedsDevelopment =>
                "the insecure feature may only run with WWMTF_DEV_MODE=true",
            ConfigError::MissingBaseUrl =>
                "WWMTF_PUBLIC_BASE_URL is required in production mode",
            ConfigError::EmptyDatabasePath => "WWMTF_DATABASE_PATH must not be empty",
            ConfigError::MissingDatabasePath =>
                "WWMTF_DATABASE_PATH is required in production mode",
            ConfigError::InvalidTimeout => "WWMTF_DEFINITION_TIMEOUT_MS must be a number",
            ConfigError::DefinitionsSetting =>
                "WWMTF_DEFINITIONS_ENABLED must be true/false, yes/no, or 1/0 when specified",
            ConfigError::IncompleteBootstrap =>
                "development bootstrap username and password must be supplied together",
            ConfigError::BootstrapOutsideDevelopment =>
                "development account bootstrap is allowed only in development mode",
            ConfigError::IssuerOutsideDevelopment =>
                "WWMTF_DEVELOPMENT_OIDC_ISSUER is only allowed in development mode",
        }
    }
}

/// Whether the parts are those of an absolute HTTP(S) origin and nothing more.
pub open spec fn is_origin(parts: Option<UrlView>) -> bool {
    parts matches Some(parts) && (parts.scheme == "http"@ || parts.scheme == "https"@)
        && parts.host is Some && parts.username.len() == 0 && parts.password is None && parts.query
        is None && parts.fragment is None && parts.path == "/"@
}

/// What is wrong with a public base address, if anything.
pub open spec fn base_url_error(parts: Option<UrlView>, production: bool) -> Option<ConfigError> {
    if !is_origin(parts) {
        Some(ConfigError::InvalidBaseUrl)
    } else if production && parts->0.scheme != "https"@ {
        Some(ConfigError::InsecureBaseUrl)
    } else {
        None
    }
}

/// Checks the parts of a public base address.
pub fn check_base_url(parts: &Option<UrlParts>, production_mode: bool) -> (checked: Result<
    (),
    ConfigError,
>)
    ensures
        checked == (match base_url_error(urls::opt_url_view(*parts), production_mode) {
            Some(error) => Err::<(), ConfigError>(error),
            None => Ok(()),
        }),
{
    let parts = match parts {
        Some(parts) => parts,
        None => return Err(ConfigError::InvalidBaseUrl),
    };
    let scheme = parts.scheme.as_str();
    if !(same_text(scheme, "http") || same_text(scheme, "https")) || parts.host.is_none()
        || parts.username.as_str().unicode_len() > 0 || parts.password.is_some()
        || parts.query.is_some() || parts.fragment.is_some() || !same_text(
        parts.path.as_str(),
        "/",
    ) {
        return Err(ConfigError::InvalidBaseUrl);
    }
    if production_mode && !same_text(scheme, "https") {
        return Err(ConfigError::InsecureBaseUrl);
    }
    Ok(())
}

/// Google client identity, client secret and callback address, given what is known of the base
/// address.
pub open spec fn google_config_of(
    client_id: Option<Seq<char>>,
    client_secret: Option<Seq<char>>,
    parts: Option<UrlView>,
    callback: Option<Seq<char>>,
    production: bool,
) -> Result<(Seq<char>, Seq<char>, Seq<char>), ConfigError> {
    match (client_id, client_secret) {
        (Some(client_id), Some(client_secret)) => if text::is_blank(client_id) || text::is_blank(
            client_secret,
        ) {
            Err(ConfigError::EmptyGoogleCredentials)
        } else {
            match base_url_error(parts, production) {
                Some(error) => Err(error),
                None => match callback {
                    Some(callback) => Ok((client_id, client_secret, callback)),
                    None => Err(ConfigError::CallbackUrl),
                },
            }
        },
        _ => Err(ConfigError::MissingGoogleCredentials),
    }
}

pub open spec fn google_config_view(config: Result<(String, String, String), ConfigError>) -> Result<
    (Seq<char>, Seq<char>, Seq<char>),
    ConfigError,
> {
    match config {
        Ok(config) => Ok((config.0@, config.1@, config.2@)),
        Err(error) => Err(error),
    }
}

/// Google client identity, client secret and callback address under the public base address.
pub fn google_runtime_config(
    client_id: Option<String>,
    client_secret: Option<String>,
    public_base_url: &str,
    production_mode: bool,
) -> (config: Result<(String, String, String), ConfigError>)
    ensures
        google_config_view(config) == google_config_of(
            text::opt_view(client_id),
            text::opt_view(client_secret),
            urls::url_parts_of(public_base_url@),
            urls::url_joined_of(public_base_url@, "auth/google/callback"@),
            production_mode,
        ),
{
    let (client_id, client_secret): (String, String) = match (client_id, client_secret) {
        (Some(client_id), Some(client_secret)) => (client_id, client_secret),
        _ => return Err(ConfigError::MissingGoogleCredentials),
    };
    if blank(client_id.as_str()) || blank(client_secret.as_str()) {
        return Err(ConfigError::EmptyGoogleCredentials);
    }
    check_base_url(&url_parts(public_base_url), production_mode)?;
    match url_joined(public_base_url, "auth/google/callback") {
        Some(callback) => Ok((client_id, client_secret, callback)),
        None => Err(ConfigError::CallbackUrl),
    }
}

/// Whether definitions are looked up: unless a setting says no; nothing where the setting is
/// neither yes nor no.
pub open spec fn definitions_setting(value: Option<Seq<char>>) -> Option<bool> {
    match value {
        None => Some(true),
        Some(value) => {
            let lowered = text::ascii_lowered(value);
            if value == "1"@ || lowered == "true"@ || lowered == "yes"@ {
                Some(true)
            } else if value == "0"@ || lowered == "false"@ || lowered == "no"@ {
                Some(false)
            } else {
                None
            }
        },
    }
}

/// Reads the setting that turns definitions on or off.
pub fn definitions_enabled(value: Option<&str>) -> (enabled: Result<bool, &'static str>)
    ensures
        match definitions_setting(
            match value {
                Some(value) => Some(value@),
                None => None,
            },
        ) {
            Some(setting) => enabled == Ok::<bool, &'static str>(setting),
            None => enabled matches Err(message) && message@
                == ConfigError::DefinitionsSetting.message_of(),
        },
{
    let value = match value {
        Some(value) => value,
        None => return Ok(true),
    };
    let lowered = ascii_lower(value);
    if same_text(value, "1") || same_text(lowered.as_str(), "true") || same_text(
        lowered.as_str(),
        "yes",
    ) {
        Ok(true)
    } else if same_text(value, "0") || same_text(lowered.as_str(), "false") || same_text(
        lowered.as_str(),
        "no",
    ) {
        Ok(false)
    } else {
        Err(ConfigError::DefinitionsSetting.message())
    }
}

/// Whether a mode setting turns the mode on.
pub open spec fn is_switched_on(value: Option<Seq<char>>) -> bool {
    value matches Some(value) && (value == "1"@ || value == "true"@ || value == "TRUE"@ || value
        == "yes"@ || value == "YES"@)
}

/// Reads a mode setting.
pub fn switched_on(value: &Option<String>) -> (on: bool)
    ensures
        on == is_switched_on(text::opt_view(*value)),
{
    match value {
        None => false,
        Some(value) => same_text(value.as_str(), "1") || same_text(value.as_str(), "true")
            || same_text(value.as_str(), "TRUE") || same_text(value.as_str(), "yes") || same_text(
            value.as_str(),
            "YES",
        ),
    }
}

/// The settings as the environment gives them.
#[derive(Debug, Clone, PartialEq, Eq)]
pub struct Settings {
    pub production_mode: Option<String>,
    pub development_mode: Option<String>,
    pub bind_address: Option<String>,
    pub port: Option<String>,
    pub public_base_url: Option<String>,
    pub database_path: Option<String>,
    pub google_client_id: Option<String>,
    pub google_client_secret: Option<String>,
}

/// The mathematical content of [`Settings`].
#[verifier::ext_equal]
pub struct SettingsView {
    pub production_mode: Option<Seq<char>>,
    pub development_mode: Option<Seq<char>>,
    pub bind_address: Option<Seq<char>>,
    pub port: Option<Seq<char>>,
    pub public_base_url: Option<Seq<char>>,
    pub database_path: Option<Seq<char>>,
    pub google_client_id: Option<Seq<char>>,
    pub google_client_secret: Option<Seq<char>>,
}

impl View for Settings {
    type V = SettingsView;

    open spec fn view(&self) -> SettingsView {
        SettingsView {
            production_mode: text::opt_view(self.production_mode),
            development_mode: text::opt_view(self.development_mode),
            bind_address: text::opt_view(self.bind_address),
            port: text::opt_view(self.port),
            public_base_url: text::opt_view(self.public_base_url),
            database_path: text::opt_view(self.database_path),
            google_client_id: text::opt_view(self.google_client_id),
            google_client_secret: text::opt_view(self.google_client_secret),
        }
    }
}

/// The checked configuration of a run.
#[derive(Debug, Clone, PartialEq, Eq)]
pub struct RuntimeConfig {
    pub address: String,
    pub port: u16,
    pub database_path: String,
    pub public_base_url: String,
    pub google_client_id: String,
    pub google_client_secret: String,
    pub google_callback_url: String,
    pub production_mode: bool,
    pub development_mode: bool,
}

/// The mathematical content of a [`RuntimeConfig`].
#[verifier::ext_equal]
pub struct ConfigView {
    pub address: Seq<char>,
    pub port: u16,
    pub database_path: Seq<char>,
    pub public_base_url: Seq<char>,
    pub google_client_id: Seq<char>,
    pub google_client_secret: Seq<char>,
    pub google_callback_url: Seq<char>,
    pub production_mode: bool,
    pub development_mode: bool,
}

impl View for RuntimeConfig {
    type V = ConfigView;

    open spec fn view(&self) -> ConfigView {
        ConfigView {
            address: self.address@,
            port: self.port,
            database_path: self.database_path@,
            public_base_url: self.public_base_url@,
            google_client_id: self.google_client_id@,
            google_client_secret: self.google_client_secret@,
            google_callback_url: self.google_callback_url@,
            production_mode: self.production_mode,
            development_mode: self.development_mode,
        }
    }
}

/// The port that a setting names; 8343 where there is none.
pub open spec fn port_of(value: Option<Seq<char>>) -> Option<u16> {
    match value {
        None => Some(8343),
        Some(value) => match text::number_in(value) {
            Some(number) => if number <= u16::MAX {
                Some(number as u16)
            } else {
                None
            },
            None => None,
        },
    }
}

fn read_port(value: &Option<String>) -> (port: Option<u16>)
    ensures
        port == port_of(text::opt_view(*value)),
{
    match value {
        None => Some(8343),
        Some(value) => match read_number(value.as_str()) {
            Some(number) => if number <= u16::MAX as u64 {
                Some(number as u16)
            } else {
                None
            },
            None => None,
        },
    }
}

/// What is wrong with the modes, if anything.
pub open spec fn mode_error(
    production: bool,
    development: bool,
    insecure: bool,
    base_url: Option<Seq<char>>,
) -> Option<ConfigError> {
    if production && insecure {
        Some(ConfigError::InsecureInProduction)
    } else if production && development {
        Some(ConfigError::ExclusiveModes)
    } else if development && !insecure {
        Some(ConfigError::DevelopmentNeedsInsecure)
    } else if !development && insecure {
        Some(ConfigError::InsecureNeedsDevelopment)
    } else if production {
        match base_url {
            None => Some(ConfigError::MissingBaseUrl),
            Some(base_url) => if text::begins_with(base_url, "https://"@) {
                None
            } else {
                Some(ConfigError::InsecureBaseUrl)
            },
        }
    } else {
        None
    }
}

/// Checks that the modes fit the build and the base address.
pub fn check_modes(
    production_mode: bool,
    development_mode: bool,
    insecure: bool,
    public_base_url: &Option<String>,
) -> (checked: Result<(), ConfigError>)
    ensures
        checked == (match mode_error(
            production_mode,
            development_mode,
            insecure,
            text::opt_view(*public_base_url),
        ) {
            Some(error) => Err::<(), ConfigError>(error),
            None => Ok(()),
        }),
{
    if production_mode && insecure {
        return Err(ConfigError::InsecureInProduction);
    }
    if production_mode && development_mode {
        return Err(ConfigError::ExclusiveModes);
    }
    if development_mode && !insecure {
        return Err(ConfigError::DevelopmentNeedsInsecure);
    }
    if !development_mode && insecure {
        return Err(ConfigError::InsecureNeedsDevelopment);
    }
    if production_mode {
        match public_base_url {
            None => return Err(ConfigError::MissingBaseUrl),
            Some(base_url) => if !starts_with(base_url.as_str(), "https://") {
                return Err(ConfigError::InsecureBaseUrl);
            },
        }
    }
    Ok(())
}

/// The database path of a setting; production has no default.
pub open spec fn database_path_of(value: Option<Seq<char>>, production: bool) -> Result<
    Seq<char>,
    ConfigError,
> {
    match value {
        Some(path) => if text::is_blank(path) {
            Err(ConfigError::EmptyDatabasePath)
        } else {
            Ok(path)
        },
        None => if production {
            Err(ConfigError::MissingDatabasePath)
        } else {
            Ok("wwmtf.db"@)
        },
    }
}

fn read_database_path(value: &Option<String>, production_mode: bool) -> (path: Result<
    String,
    ConfigError,
>)
    ensures
        (match path {
            Ok(path) => Ok::<Seq<char>, ConfigError>(path@),
            Err(error) => Err(error),
        }) == database_path_of(text::opt_view(*value), production_mode),
{
    match value {
        Some(path) => if blank(path.as_str()) {
            Err(ConfigError::EmptyDatabasePath)
        } else {
            Ok(path.clone())
        },
        None => if production_mode {
            Err(ConfigError::MissingDatabasePath)
        } else {
            Ok("wwmtf.db".to_owned())
        },
    }
}

/// The configuration that settings give a build, or the first thing that is wrong with them.
pub open spec fn config_of(settings: SettingsView, insecure: bool) -> Result<
    ConfigView,
    ConfigError,
> {
    let production_mode = is_switched_on(settings.production_mode);
    let development_mode = is_switched_on(settings.development_mode);
    let address = match settings.bind_address {
        Some(address) => address,
        None => "0.0.0.0"@,
    };
    match port_of(settings.port) {
        None => Err(ConfigError::InvalidPort),
        Some(port) => match mode_error(
            production_mode,
            development_mode,
            insecure,
            settings.public_base_url,
        ) {
            Some(error) => Err(error),
            None => {
                let public_base_url = match settings.public_base_url {
                    Some(url) => url,
                    None => "http://"@ + address + ":"@ + text::decimal(port as nat),
                };
                match database_path_of(settings.database_path, production_mode) {
                    Err(error) => Err(error),
                    Ok(database_path) => match google_config_of(
                        settings.google_client_id,
                        settings.google_client_secret,
                        urls::url_parts_of(public_base_url),
                        urls::url_joined_of(public_base_url, "auth/google/callback"@),
                        production_mode,
                    ) {
                        Err(error) => Err(error),
                        Ok((google_client_id, google_client_secret, google_callback_url)) => Ok(
                            ConfigView {
                                address,
                                port,
                                database_path,
                                public_base_url,
                                google_client_id,
                                google_client_secret,
                                google_callback_url,
                                production_mode,
                                development_mode,
                            },
                        ),
                    },
                }
            },
        },
    }
}

fn copied(value: &Option<String>) -> (copy: Option<String>)
    ensures
        text::opt_view(copy) == text::opt_view(*value),
{
    match value {
        Some(value) => Some(value.clone()),
        None => None,
    }
}

impl RuntimeConfig {
    /// Checks settings for a build with or without the insecure feature.
    pub fn from_settings(settings: &Settings, insecure: bool) -> (config: Result<
        RuntimeConfig,
        ConfigError,
    >)
        ensures
            (match config {
                Ok(config) => Ok::<ConfigView, ConfigError>(config@),
                Err(error) => Err(error),
            }) == config_of(settings@, insecure),
    {
        let production_mode = switched_on(&settings.production_mode);
        let development_mode = switched_on(&settings.development_mode);
        let address: String = match &settings.bind_address {
            Some(address) => address.clone(),
            None => "0.0.0.0".to_owned(),
        };
        let port: u16 = match read_port(&settings.port) {
            Some(port) => port,
            None => return Err(ConfigError::InvalidPort),
        };
        let public_base_url: String = match &settings.public_base_url {
            Some(url) => url.clone(),
            None => joined("http://", address.as_str()).concat(":").concat(
                decimal_text(port as u64).as_str(),
            ),
        };
        check_modes(production_mode, development_mode, insecure, &settings.public_base_url)?;
        let database_path = read_database_path(&settings.database_path, production_mode)?;
        let (google_client_id, google_client_secret, google_callback_url) = google_runtime_config(
            copied(&settings.google_client_id),
            copied(&settings.google_client_secret),
            public_base_url.as_str(),
            production_mode,
        )?;
        Ok(
            RuntimeConfig {
                address,
                port,
                database_path,
                public_base_url,
                google_client_id,
                google_client_secret,
                google_callback_url,
                production_mode,
                development_mode,
            },
        )
    }
}

/// An accepted production configuration has a secure public origin, an explicit database, and no
/// development mode.
pub proof fn production_is_strict(settings: SettingsView, insecure: bool)
    requires
        config_of(settings, insecure) is Ok,
        config_of(settings, insecure)->Ok_0.production_mode,
    ensures
        !insecure,
        !config_of(settings, insecure)->Ok_0.development_mode,
        settings.public_base_url == Some(config_of(settings, insecure)->Ok_0.public_base_url),
        settings.database_path == Some(config_of(settings, insecure)->Ok_0.database_path),
        text::begins_with(config_of(settings, insecure)->Ok_0.public_base_url, "https://"@),
        is_origin(urls::url_parts_of(config_of(settings, insecure)->Ok_0.public_base_url)),
{
}

/// The account to bootstrap, if both of its settings are there.
pub open spec fn bootstrap_of<T>(
    username: Option<T>,
    password: Option<T>,
    development: bool,
) -> Result<Option<(T, T)>, ConfigError> {
    match (username, password) {
        (Some(username), Some(password)) => if development {
            Ok(Some((username, password)))
        } else {
            Err(ConfigError::BootstrapOutsideDevelopment)
        },
        (None, None) => Ok(None),
        _ => Err(ConfigError::IncompleteBootstrap),
    }
}

/// Which development account to register at start-up, if any.
pub fn bootstrap_account(
    username: Option<String>,
    password: Option<String>,
    development_mode: bool,
) -> (account: Result<Option<(String, String)>, ConfigError>)
    ensures
        account == bootstrap_of(username, password, development_mode),
{
    match (username, password) {
        (Some(username), Some(password)) => if development_mode {
            Ok(Some((username, password)))
        } else {
            Err(ConfigError::BootstrapOutsideDevelopment)
        },
        (None, None) => Ok(None),
        _ => Err(ConfigError::IncompleteBootstrap),
    }
}

/// The issuer to discover: the configured one in development mode, otherwise `default`.
pub fn issuer_choice(configured: Option<String>, development_mode: bool, default: &str) -> (issuer:
    Result<String, ConfigError>)
    ensures
        match issuer {
            Ok(issuer) => match configured {
                Some(configured) => development_mode && issuer@ == configured@,
                None => issuer@ == default@,
            },
            Err(error) => configured is Some && !development_mode && error
                == ConfigError::IssuerOutsideDevelopment,
        },
{
    match configured {
        Some(configured) => if development_mode {
            Ok(configured)
        } else {
            Err(ConfigError::IssuerOutsideDevelopment)
        },
        None => Ok(default.to_owned()),
    }
}

/// The definition provider's base address and its timeout in milliseconds.
pub fn definition_provider_settings(base_url: Option<String>, timeout_ms: &Option<String>) -> (
    settings: Result<(String, u64), ConfigError>)
    ensures
        match settings {
            Ok((url, timeout)) => {
                &&& url@ == (match base_url {
                    Some(base_url) => base_url@,
                    None => DEFAULT_DEFINITION_PROVIDER_BASE_URL@,
                })
                &&& match timeout_ms {
                    Some(value) => text::number_in(value@) == Some(timeout as nat),
                    None => timeout == 3000,
                }
            },
            Err(error) => error == ConfigError::InvalidTimeout && (timeout_ms matches Some(value)
                && match text::number_in(value@) {
                Some(number) => number > u64::MAX,
                None => true,
            }),
        },
{
    let timeout: u64 = match timeout_ms {
        None => 3000,
        Some(value) => match read_number(value.as_str()) {
            Some(timeout) => timeout,
            None => return Err(ConfigError::InvalidTimeout),
        },
    };
    let url: String = match base_url {
        Some(base_url) => base_url,
        None => DEFAULT_DEFINITION_PROVIDER_BASE_URL.to_owned(),
    };
    Ok((url, timeout))
}

} // verus!
