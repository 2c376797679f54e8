//! Errors as the user interface receives them, and the kinds of failure of an
//! installation job.
use vstd::prelude::*;

verus! {

/// An error for display: a stable kind tag and a free-text detail.
#[derive(Debug)]
pub struct UiError {
    pub name: String,
    pub message: String,
}

impl From<String> for UiError {
    fn from(s: String) -> (r: UiError)
        ensures
            r.name@ == "UNKNOWN"@,
            r.message@ == s@,
    {
        UiError { name: String::from_str("UNKNOWN"), message: s }
    }
}

impl vstd::std_specs::convert::FromSpecImpl<String> for UiError {
    open spec fn obeys_from_spec() -> bool {
        false
    }

    open spec fn from_spec(v: String) -> UiError {
        arbitrary()
    }
}

impl<'a> From<&'a str> for UiError {
    fn from(s: &'a str) -> (r: UiError)
        ensures
            r.name@ == "UNKNOWN"@,
            r.message@ == s@,
    {
        UiError { name: String::from_str("UNKNOWN"), message: String::from_str(s) }
    }
}

impl<'a> vstd::std_specs::convert::FromSpecImpl<&'a str> for UiError {
    open spec fn obeys_from_spec() -> bool {
        false
    }

    open spec fn from_spec(v: &'a str) -> UiError {
        arbitrary()
    }
}

/// What went wrong in an installation job.
#[derive(Debug, Clone, Copy, PartialEq, Eq, Structural)]
pub enum InstallError {
    /// The server answered with a status that is not a success.
    Http(u16),
    /// Reading the response failed while it streamed.
    Stream,
    /// A file or directory could not be created, written or removed.
    Io,
    /// An archive entry would land outside the destination.
    UnsafePath,
    /// The external archive tool exited with a failure.
    ToolFailed,
    /// No launcher was found after extraction.
    ExecutableNotFound,
    /// A progress notification could not be delivered.
    Emit,
    /// A zip archive was to be extracted with no directory to extract into.
    MissingExtractDir,
}

/// The stable tag of each kind of failure.
pub open spec fn spec_kind_tag(e: InstallError) -> Seq<char> {
    match e {
        InstallError::Http(_) => "http"@,
        InstallError::Stream => "stream"@,
        InstallError::Io => "io"@,
        InstallError::UnsafePath => "unsafe_path"@,
        InstallError::ToolFailed => "tool_failed"@,
        InstallError::ExecutableNotFound => "executable_not_found"@,
        InstallError::Emit => "emit"@,
        InstallError::MissingExtractDir => "missing_extract_dir"@,
    }
}

impl InstallError {
    /// The stable tag of this kind of failure.
    pub fn kind_tag(&self) -> (r: String)
        ensures
            r@ == spec_kind_tag(*self),
    {
        match self {
            InstallError::Http(_) => String::from_str("http"),
            InstallError::Stream => String::from_str("stream"),
            InstallError::Io => String::from_str("io"),
            InstallError::UnsafePath => String::from_str("unsafe_path"),
            InstallError::ToolFailed => String::from_str("tool_failed"),
            InstallError::ExecutableNotFound => String::from_str("executable_not_found"),
            InstallError::Emit => String::from_str("emit"),
            InstallError::MissingExtractDir => String::from_str("missing_extract_dir"),
        }
    }

    /// The error as the user interface receives it, with `detail` as its text.
    pub fn to_ui_error(&self, detail: String) -> (r: UiError)
        ensures
            r.name@ == spec_kind_tag(*self),
            r.message@ == detail@,
    {
        UiError { name: self.kind_tag(), message: detail }
    }
}

} // verus!
