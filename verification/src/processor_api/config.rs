//! The configuration of the ingress, as the environment gives it.
use crate::text::{join, number_value, parse_number, NumberError};
use vstd::prelude::*;

verus! {

/// Why a configuration could not be made.
#[derive(Debug, PartialEq)]
pub enum ConfigError {
    /// A variable could not be understood.
    ParseError(String),
    /// A variable could not be read.
    EnvVarError(String),
}

/// The value of a [`ConfigError`].
pub ghost enum ConfigFailure {
    Parse(Seq<char>),
    EnvVar(Seq<char>),
}

impl View for ConfigError {
    type V = ConfigFailure;

    open spec fn view(&self) -> ConfigFailure {
        match self {
            ConfigError::ParseError(e) => ConfigFailure::Parse(e@),
            ConfigError::EnvVarError(e) => ConfigFailure::EnvVar(e@),
        }
    }
}

impl ConfigError {
    /// The line that reports the error.
    pub fn to_string(&self) -> (r: String)
        ensures
            r@ == match self@ {
                ConfigFailure::Parse(e) => "Configuration parse error: "@ + e,
                ConfigFailure::EnvVar(e) => "Environment variable error: "@ + e,
            },
    {
        match self {
            ConfigError::ParseError(e) => join("Configuration parse error: ", e.as_str()),
            ConfigError::EnvVarError(e) => join("Environment variable error: ", e.as_str()),
        }
    }
}

/// The configuration of the ingress.
#[derive(Debug, Default, PartialEq, Eq, Clone)]
pub struct AppConfig {
    pub serverhostname: String,
    pub serverport: u16,
    pub kafkabootstrapservers: String,
    pub kafkamessagetimeoutms: String,
    pub kafkatopic: String,
}

/// What the environment gives for each of the variables of the ingress: the
/// value, or what the environment said in place of one.
#[derive(Debug)]
pub struct Environment {
    pub serverhostname: Result<String, String>,
    pub serverport: Result<String, String>,
    pub kafkabootstrapservers: Result<String, String>,
    pub kafkamessagetimeoutms: Result<String, String>,
    pub kafkatopic: Result<String, String>,
}

/// The value of a variable, or `otherwise` where it cannot be read.
pub open spec fn or_default(value: Result<String, String>, otherwise: Seq<char>) -> Seq<char> {
    match value {
        Ok(v) => v@,
        Err(_) => otherwise,
    }
}

/// The failure that the environment leads to, if it leads to one. The port
/// is read first, then the broker's variables in a fixed order.
pub open spec fn config_failure(env: Environment) -> Option<ConfigFailure> {
    if number_value(or_default(env.serverport, "8080"@), u16::MAX as nat) is Err {
        Some(
            ConfigFailure::Parse(
                "Invalid port: "@ + number_value(
                    or_default(env.serverport, "8080"@),
                    u16::MAX as nat,
                )->Err_0.spec_text(),
            ),
        )
    } else if env.kafkabootstrapservers is Err {
        Some(
            ConfigFailure::EnvVar(
                "Missing KAFKABOOTSTRAPSERVERS: "@ + env.kafkabootstrapservers->Err_0@,
            ),
        )
    } else if env.kafkamessagetimeoutms is Err {
        Some(
            ConfigFailure::EnvVar(
                "Missing KAFKAMESSAGETIMEOUTMS: "@ + env.kafkamessagetimeoutms->Err_0@,
            ),
        )
    } else if env.kafkatopic is Err {
        Some(ConfigFailure::EnvVar("Missing KAFKATOPIC: "@ + env.kafkatopic->Err_0@))
    } else {
        None
    }
}

/// Makes the configuration of the ingress of what the environment gives. The
/// host name is `127.0.0.1` and the port 8080 where their variables cannot be
/// read.
pub fn load_config(env: Environment) -> (r: Result<AppConfig, ConfigError>)
    ensures
        r is Err == config_failure(env) is Some,
        r matches Err(e) ==> Some(e@) == config_failure(env),
        r matches Ok(config) ==> {
            &&& config.serverhostname@ == or_default(env.serverhostname, "127.0.0.1"@)
            &&& number_value(or_default(env.serverport, "8080"@), u16::MAX as nat) == Ok::<
                nat,
                NumberError,
            >(config.serverport as nat)
            &&& config.kafkabootstrapservers@ == env.kafkabootstrapservers->Ok_0@
            &&& config.kafkamessagetimeoutms@ == env.kafkamessagetimeoutms->Ok_0@
            &&& config.kafkatopic@ == env.kafkatopic->Ok_0@
        },
{
    let serverhostname = match env.serverhostname {
        Ok(v) => v,
        Err(_) => String::from_str("127.0.0.1"),
    };
    let port = match env.serverport {
        Ok(v) => v,
        Err(_) => String::from_str("8080"),
    };
    let serverport = match parse_number(port.as_str(), 65535) {
        Ok(n) => n as u16,
        Err(e) => {
            return Err(ConfigError::ParseError(join("Invalid port: ", e.text())));
        },
    };
    let kafkabootstrapservers = match env.kafkabootstrapservers {
        Ok(v) => v,
        Err(e) => {
            return Err(
                ConfigError::EnvVarError(join("Missing KAFKABOOTSTRAPSERVERS: ", e.as_str())),
            );
        },
    };
    let kafkamessagetimeoutms = match env.kafkamessagetimeoutms {
        Ok(v) => v,
        Err(e) => {
            return Err(
                ConfigError::EnvVarError(join("Missing KAFKAMESSAGETIMEOUTMS: ", e.as_str())),
            );
        },
    };
    let kafkatopic = match env.kafkatopic {
        Ok(v) => v,
        Err(e) => {
            return Err(ConfigError::EnvVarError(join("Missing KAFKATOPIC: ", e.as_str())));
        },
    };
    Ok(
        AppConfig {
            serverhostname,
            serverport,
            kafkabootstrapservers,
            kafkamessagetimeoutms,
            kafkatopic,
        },
    )
}

} // verus!
