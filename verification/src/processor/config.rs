//! The worker's configuration, as the environment gives it.
use crate::json::keys_view;
use crate::text::{join, number_value, parse_number, split, split_on, NumberError};
use vstd::prelude::*;

verus! {

/// Why a configuration could not be made.
#[derive(Debug, PartialEq)]
pub enum ConfigError {
    /// A variable could not be read: what the environment said.
    EnvVarError(String),
    /// A variable could not be understood.
    ParseError(String),
}

/// The value of a [`ConfigError`].
pub ghost enum ConfigFailure {
    EnvVar(Seq<char>),
    Parse(Seq<char>),
}

impl View for ConfigError {
    type V = ConfigFailure;

    open spec fn view(&self) -> ConfigFailure {
        match self {
            ConfigError::EnvVarError(e) => ConfigFailure::EnvVar(e@),
            ConfigError::ParseError(e) => ConfigFailure::Parse(e@),
        }
    }
}

impl ConfigError {
    /// The line that reports the error.
    pub fn to_string(&self) -> (r: String)
        ensures
            r@ == match self@ {
                ConfigFailure::EnvVar(e) => "Environment variable error: "@ + e,
                ConfigFailure::Parse(e) => "Parse error: "@ + e,
            },
    {
        match self {
            ConfigError::EnvVarError(e) => join("Environment variable error: ", e.as_str()),
            ConfigError::ParseError(e) => join("Parse error: ", e.as_str()),
        }
    }
}

/// The worker's configuration.
#[derive(Debug, Default, PartialEq, Eq, Clone)]
pub struct AppConfig {
    pub kafkabootstrapservers: String,
    pub kafkagroupid: String,
    pub maxconcurrency: usize,
    pub mongodburi: String,
    pub mongodbdatabase: String,
    pub workflowids: Vec<String>,
}

/// What the environment gives for each of the worker's variables: the value,
/// or what the environment said in place of one.
#[derive(Debug)]
pub struct Environment {
    pub kafkabootstrapservers: Result<String, String>,
    pub kafkagroupid: Result<String, String>,
    pub maxconcurrency: Result<String, String>,
    pub mongodburi: Result<String, String>,
    pub mongodbdatabase: Result<String, String>,
    pub workflowids: Result<String, String>,
}

/// The text of the concurrency bound: the variable's, or `1` where the
/// variable cannot be read.
pub open spec fn concurrency_text(env: Environment) -> Seq<char> {
    match env.maxconcurrency {
        Ok(t) => t@,
        Err(_) => "1"@,
    }
}

/// The failure that the environment leads to, if it leads to one. The
/// variables are read in a fixed order, and the first that fails decides.
pub open spec fn config_failure(env: Environment) -> Option<ConfigFailure> {
    if env.kafkabootstrapservers is Err {
        Some(ConfigFailure::EnvVar(env.kafkabootstrapservers->Err_0@))
    } else if env.kafkagroupid is Err {
        Some(ConfigFailure::EnvVar(env.kafkagroupid->Err_0@))
    } else if number_value(concurrency_text(env), usize::MAX as nat) is Err {
        Some(
            ConfigFailure::Parse(
                "Invalid batch size: "@ + number_value(
                    concurrency_text(env),
                    usize::MAX as nat,
                )->Err_0.spec_text(),
            ),
        )
    } else if env.mongodburi is Err {
        Some(ConfigFailure::EnvVar(env.mongodburi->Err_0@))
    } else if env.mongodbdatabase is Err {
        Some(ConfigFailure::EnvVar(env.mongodbdatabase->Err_0@))
    } else if env.workflowids is Err {
        Some(ConfigFailure::EnvVar(env.workflowids->Err_0@))
    } else {
        None
    }
}

/// Makes the worker's configuration of what the environment gives. The
/// concurrency bound is 1 where its variable cannot be read; the workflow
/// identifiers are the parts of their variable between commas.
pub fn load_config(env: Environment) -> (r: Result<AppConfig, ConfigError>)
    ensures
        r is Err == config_failure(env) is Some,
        r matches Err(e) ==> Some(e@) == config_failure(env),
        r matches Ok(config) ==> {
            &&& config.kafkabootstrapservers@ == env.kafkabootstrapservers->Ok_0@
            &&& config.kafkagroupid@ == env.kafkagroupid->Ok_0@
            &&& number_value(concurrency_text(env), usize::MAX as nat) == Ok::<nat, NumberError>(
                config.maxconcurrency as nat,
            )
            &&& config.mongodburi@ == env.mongodburi->Ok_0@
            &&& config.mongodbdatabase@ == env.mongodbdatabase->Ok_0@
            &&& keys_view(config.workflowids@) == split_on(env.workflowids->Ok_0@, ',')
        },
{
    let kafkabootstrapservers = match env.kafkabootstrapservers {
        Ok(v) => v,
        Err(e) => {
            return Err(ConfigError::EnvVarError(e));
        },
    };
    let kafkagroupid = match env.kafkagroupid {
        Ok(v) => v,
        Err(e) => {
            return Err(ConfigError::EnvVarError(e));
        },
    };
    let bound = match env.maxconcurrency {
        Ok(t) => t,
        Err(_) => String::from_str("1"),
    };
    let maxconcurrency = match parse_number(bound.as_str(), usize::MAX as u64) {
        Ok(n) => n as usize,
        Err(e) => {
            return Err(ConfigError::ParseError(join("Invalid batch size: ", e.text())));
        },
    };
    let mongodburi = match env.mongodburi {
        Ok(v) => v,
        Err(e) => {
            return Err(ConfigError::EnvVarError(e));
        },
    };
    let mongodbdatabase = match env.mongodbdatabase {
        Ok(v) => v,
        Err(e) => {
            return Err(ConfigError::EnvVarError(e));
        },
    };
    let workflowids = match env.workflowids {
        Ok(v) => split(v.as_str(), ','),
        Err(e) => {
            return Err(ConfigError::EnvVarError(e));
        },
    };
    Ok(
        AppConfig {
            kafkabootstrapservers,
            kafkagroupid,
            maxconcurrency,
            mongodburi,
            mongodbdatabase,
            workflowids,
        },
    )
}

} // verus!
