//! Settings read from environment variables: what a lookup and a parse come to.
use vstd::prelude::*;

use crate::text::push_str;

verus! {

/// What reading and parsing one environment variable gave.
#[derive(Debug)]
pub enum EnvValue<T> {
    /// The variable is not set.
    NotPresent,
    /// The variable is set but is not valid Unicode; its lossy text.
    NotUnicode(String),
    /// The variable is set but does not parse as the requested type.
    Unparsable,
    /// The variable is set and parsed.
    Parsed(T),
}

/// Why a variable could not be used.
#[derive(Clone, Debug)]
pub enum EnvError {
    /// The value does not parse as the requested type.
    Unparsable { name: String },
    /// The value is not valid Unicode.
    NotUnicode { name: String, value: String },
}

impl EnvError {
    /// The message that reports the error.
    pub open spec fn message_spec(&self) -> Seq<char> {
        match self {
            EnvError::Unparsable { name } => "Env variable `"@ + name@
                + "` could not be parsed to requested type"@,
            EnvError::NotUnicode { name, value } => "Env variable `"@ + name@
                + "` could not be parsed to String. Original value is \""@ + value@ + "\""@,
        }
    }

    /// The message that reports the error.
    pub fn message(&self) -> (r: String)
        ensures
            r@ == self.message_spec(),
    {
        let mut r = String::new();
        match self {
            EnvError::Unparsable { name } => {
                push_str(&mut r, "Env variable `");
                push_str(&mut r, name.as_str());
                push_str(&mut r, "` could not be parsed to requested type");
            },
            EnvError::NotUnicode { name, value } => {
                push_str(&mut r, "Env variable `");
                push_str(&mut r, name.as_str());
                push_str(&mut r, "` could not be parsed to String. Original value is \"");
                push_str(&mut r, value.as_str());
                push_str(&mut r, "\"");
            },
        }
        r
    }
}

fn copy_str(s: &str) -> (r: String)
    ensures
        r@ == s@,
{
    let mut r = String::new();
    push_str(&mut r, s);
    r
}

/// The error that `value` stands for, naming the variable, if any.
pub open spec fn env_error_for<T>(name: Seq<char>, value: EnvValue<T>, e: EnvError) -> bool {
    match value {
        EnvValue::Unparsable => e matches EnvError::Unparsable { name: n } && n@ == name,
        EnvValue::NotUnicode(v) => e matches EnvError::NotUnicode { name: n, value: w } && n@ == name
            && w@ == v@,
        _ => false,
    }
}

fn try_parse_env_variable<T>(env_variable_name: &str, value: EnvValue<T>) -> (r: Result<Option<T>, EnvError>)
    ensures
        value matches EnvValue::Parsed(v) ==> r == Ok::<Option<T>, EnvError>(Some(v)),
        value is NotPresent ==> r == Ok::<Option<T>, EnvError>(None),
        (value is Unparsable || value is NotUnicode) ==> (r matches Err(e) && env_error_for(
            env_variable_name@,
            value,
            e,
        )),
{
    match value {
        EnvValue::Parsed(v) => Ok(Some(v)),
        EnvValue::NotPresent => Ok(None),
        EnvValue::Unparsable => Err(EnvError::Unparsable { name: copy_str(env_variable_name) }),
        EnvValue::NotUnicode(v) => Err(
            EnvError::NotUnicode { name: copy_str(env_variable_name), value: v },
        ),
    }
}

/// The variable's parsed value, `None` when it is not set, or the error.
pub fn try_parse_optional_env_variable<T>(env_variable_name: &str, value: EnvValue<T>) -> (r: Result<
    Option<T>,
    EnvError,
>)
    ensures
        value matches EnvValue::Parsed(v) ==> r == Ok::<Option<T>, EnvError>(Some(v)),
        value is NotPresent ==> r == Ok::<Option<T>, EnvError>(None),
        (value is Unparsable || value is NotUnicode) ==> (r matches Err(e) && env_error_for(
            env_variable_name@,
            value,
            e,
        )),
{
    try_parse_env_variable(env_variable_name, value)
}

/// The variable's parsed value, `default` when it is not set, or the error.
pub fn try_parse_env_variable_with_default<T>(env_variable_name: &str, value: EnvValue<T>, default: T) -> (r:
    Result<T, EnvError>)
    ensures
        value matches EnvValue::Parsed(v) ==> r == Ok::<T, EnvError>(v),
        value is NotPresent ==> r == Ok::<T, EnvError>(default),
        (value is Unparsable || value is NotUnicode) ==> (r matches Err(e) && env_error_for(
            env_variable_name@,
            value,
            e,
        )),
{
    match try_parse_env_variable(env_variable_name, value) {
        Ok(Some(v)) => Ok(v),
        Ok(None) => Ok(default),
        Err(e) => Err(e),
    }
}

} // verus!
