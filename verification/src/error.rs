//! The error type of the library.
use vstd::prelude::*;

use crate::text::{append_chars, chars_of, concat, string_of};

verus! {

/// Why a pipeline operation failed.
#[derive(Clone, Debug, PartialEq, Eq)]
pub enum PipelineError {
    /// An I/O operation failed; `detail` is the system's description.
    Io { context: String, detail: String },
    /// The configuration is invalid.
    InvalidConfig(String),
    /// TOML configuration text could not be decoded.
    TomlDecode(String),
    /// The configuration could not be encoded as TOML.
    TomlEncode(String),
    /// An external command exited unsuccessfully.
    CommandFailed { command: String, status: String },
    /// A required path does not exist.
    MissingPath(String),
    /// Processing was interrupted cleanly.
    Interrupted,
    /// Any other failure.
    Message(String),
}

/// The result type of the library.
pub type Result<T> = core::result::Result<T, PipelineError>;

/// How an error reads to a person.
pub open spec fn spec_describe(e: PipelineError) -> Seq<char> {
    match e {
        PipelineError::Io { context, detail } => context@ + ": "@ + detail@,
        PipelineError::InvalidConfig(m) => "invalid configuration: "@ + m@,
        PipelineError::TomlDecode(m) => "cannot decode TOML configuration: "@ + m@,
        PipelineError::TomlEncode(m) => "cannot encode TOML configuration: "@ + m@,
        PipelineError::CommandFailed { command, status } => "external command failed ("@
            + status@ + "): "@ + command@,
        PipelineError::MissingPath(p) => "required path does not exist: "@ + p@,
        PipelineError::Interrupted => "processing was interrupted cleanly"@,
        PipelineError::Message(m) => m@,
    }
}

impl PipelineError {
    /// How the error reads to a person.
    pub fn describe(&self) -> (r: String)
        ensures
            r@ == spec_describe(*self),
    {
        match self {
            PipelineError::Io { context, detail } => {
                let mut v = chars_of(context.as_str());
                append_chars(&mut v, &chars_of(": "));
                append_chars(&mut v, &chars_of(detail.as_str()));
                string_of(&v)
            },
            PipelineError::InvalidConfig(m) => text_with("invalid configuration: ", &chars_of(m.as_str())),
            PipelineError::TomlDecode(m) => text_with(
                "cannot decode TOML configuration: ",
                &chars_of(m.as_str()),
            ),
            PipelineError::TomlEncode(m) => text_with(
                "cannot encode TOML configuration: ",
                &chars_of(m.as_str()),
            ),
            PipelineError::CommandFailed { command, status } => {
                let mut v = chars_of("external command failed (");
                append_chars(&mut v, &chars_of(status.as_str()));
                append_chars(&mut v, &chars_of("): "));
                append_chars(&mut v, &chars_of(command.as_str()));
                string_of(&v)
            },
            PipelineError::MissingPath(p) => text_with(
                "required path does not exist: ",
                &chars_of(p.as_str()),
            ),
            PipelineError::Interrupted => "processing was interrupted cleanly".to_owned(),
            PipelineError::Message(m) => string_of(&chars_of(m.as_str())),
        }
    }

    /// An I/O failure with its context.
    pub fn io(context: String, detail: String) -> (r: Self)
        ensures
            r == (PipelineError::Io { context, detail }),
    {
        PipelineError::Io { context, detail }
    }
}

/// A string made of a literal followed by a value.
pub fn text_with(prefix: &str, value: &[char]) -> (r: String)
    ensures
        r@ == prefix@ + value@,
{
    let p = chars_of(prefix);
    let all = concat(&p, value);
    string_of(&all)
}

/// A string holding a literal.
pub fn text(s: &str) -> (r: String)
    ensures
        r@ == s@,
{
    s.to_owned()
}

/// A `Message` error made of a literal followed by a value.
pub fn message_with(prefix: &str, value: &[char]) -> (r: PipelineError)
    ensures
        r matches PipelineError::Message(m) && m@ == prefix@ + value@,
{
    PipelineError::Message(text_with(prefix, value))
}

/// A `Message` error holding a literal.
pub fn message(s: &str) -> (r: PipelineError)
    ensures
        r matches PipelineError::Message(m) && m@ == s@,
{
    PipelineError::Message(text(s))
}

/// An `InvalidConfig` error made of a literal followed by a value.
pub fn invalid_with(prefix: &str, value: &[char]) -> (r: PipelineError)
    ensures
        r matches PipelineError::InvalidConfig(m) && m@ == prefix@ + value@,
{
    PipelineError::InvalidConfig(text_with(prefix, value))
}

/// An `InvalidConfig` error holding a literal.
pub fn invalid(s: &str) -> (r: PipelineError)
    ensures
        r matches PipelineError::InvalidConfig(m) && m@ == s@,
{
    PipelineError::InvalidConfig(text(s))
}

} // verus!
