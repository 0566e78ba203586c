//! Refusals: a fixed machine-readable code and a detail for people.

use vstd::prelude::*;

verus! {

/// What a refusal says.
pub struct Failure {
    pub code: Seq<char>,
    pub detail: Seq<char>,
}

/// The refusal with this code and detail.
pub open spec fn failure(code: Seq<char>, detail: Seq<char>) -> Failure {
    Failure { code, detail }
}

/// The kinds of system error that the protocols tell apart.
#[derive(Clone, Copy, Debug, PartialEq, Eq, Structural)]
pub enum OsErrorKind {
    NotFound,
    AlreadyExists,
    Interrupted,
    Other,
}

/// A system error as the operating system reported it.
#[derive(Debug)]
pub struct OsFailure {
    pub kind: OsErrorKind,
    pub errno: Option<i32>,
    pub text: String,
}

/// The detail of a refusal that a system error caused.
pub open spec fn io_detail(context: Seq<char>, error: Seq<char>) -> Seq<char> {
    context + ": "@ + error
}

/// What the standard debug formatting of a string writes: the string in
/// quotes, with its escapes.
pub uninterp spec fn debug_quoted(text: Seq<char>) -> Seq<char>;

/// Formats a string with `{:?}`, that is `<str as Debug>::fmt`. The result is
/// the named quoted form.
#[verifier::external_body]
pub(crate) fn debug_text(text: &str) -> (quoted: String)
    ensures
        quoted@ == debug_quoted(text@),
{
    format!("{text:?}")
}

/// A refusal of the service descriptor protocol.
#[derive(Debug)]
pub struct DescriptorError {
    pub code: &'static str,
    pub detail: String,
    pub errno: Option<i32>,
}

impl View for DescriptorError {
    type V = Failure;

    open spec fn view(&self) -> Failure {
        Failure { code: self.code@, detail: self.detail@ }
    }
}

impl DescriptorError {
    pub fn new(code: &'static str, detail: String) -> (error: Self)
        ensures
            error@ == failure(code@, detail@),
            error.errno is None,
    {
        DescriptorError { code, detail, errno: None }
    }

    pub fn io(code: &'static str, context: &str, error: &OsFailure) -> (result: Self)
        ensures
            result@ == failure(code@, io_detail(context@, error.text@)),
            result.errno == error.errno,
    {
        let detail = context.to_owned().concat(": ").concat(error.text.as_str());
        DescriptorError { code, detail, errno: error.errno }
    }

    pub fn code(&self) -> (code: &'static str)
        ensures
            code@ == self@.code,
    {
        self.code
    }

    /// The refusal as one line.
    pub fn to_string(&self) -> (text: String)
        ensures
            text@ == "dmux_descriptor_"@ + self@.code + ": "@ + self@.detail,
    {
        "dmux_descriptor_".to_owned().concat(self.code).concat(": ").concat(self.detail.as_str())
    }
}

/// A refusal of the recovery spool protocol.
#[derive(Debug)]
pub struct RecoverySpoolError {
    pub code: &'static str,
    pub detail: String,
}

impl View for RecoverySpoolError {
    type V = Failure;

    open spec fn view(&self) -> Failure {
        Failure { code: self.code@, detail: self.detail@ }
    }
}

impl RecoverySpoolError {
    pub fn new(code: &'static str, detail: String) -> (error: Self)
        ensures
            error@ == failure(code@, detail@),
    {
        RecoverySpoolError { code, detail }
    }

    pub fn from_descriptor(error: DescriptorError) -> (result: Self)
        ensures
            result@ == error@,
    {
        RecoverySpoolError { code: error.code, detail: error.detail }
    }

    /// The refusal as one line.
    pub fn to_string(&self) -> (text: String)
        ensures
            text@ == "dmux_recovery_spool_"@ + self@.code + ": "@ + self@.detail,
    {
        "dmux_recovery_spool_".to_owned().concat(self.code).concat(": ").concat(
            self.detail.as_str(),
        )
    }
}

/// A refusal of the recovery manifest protocol.
#[derive(Debug)]
pub struct RecoveryManifestError {
    pub code: &'static str,
    pub detail: String,
}

impl View for RecoveryManifestError {
    type V = Failure;

    open spec fn view(&self) -> Failure {
        Failure { code: self.code@, detail: self.detail@ }
    }
}

impl RecoveryManifestError {
    pub fn new(code: &'static str, detail: String) -> (error: Self)
        ensures
            error@ == failure(code@, detail@),
    {
        RecoveryManifestError { code, detail }
    }

    pub fn from_descriptor(error: DescriptorError) -> (result: Self)
        ensures
            result@ == error@,
    {
        RecoveryManifestError { code: error.code, detail: error.detail }
    }

    /// The refusal as one line.
    pub fn to_string(&self) -> (text: String)
        ensures
            text@ == "dmux_recovery_manifest_"@ + self@.code + ": "@ + self@.detail,
    {
        "dmux_recovery_manifest_".to_owned().concat(self.code).concat(": ").concat(
            self.detail.as_str(),
        )
    }
}

/// A refusal of the GUI bridge protocol.
#[derive(Debug)]
pub struct BridgeFsError {
    pub code: &'static str,
    pub detail: String,
}

impl View for BridgeFsError {
    type V = Failure;

    open spec fn view(&self) -> Failure {
        Failure { code: self.code@, detail: self.detail@ }
    }
}

impl BridgeFsError {
    pub fn new(code: &'static str, detail: String) -> (error: Self)
        ensures
            error@ == failure(code@, detail@),
    {
        BridgeFsError { code, detail }
    }

    pub fn io(code: &'static str, context: &str, error: &OsFailure) -> (result: Self)
        ensures
            result@ == failure(code@, io_detail(context@, error.text@)),
    {
        let detail = context.to_owned().concat(": ").concat(error.text.as_str());
        BridgeFsError { code, detail }
    }

    /// The refusal as one line.
    pub fn to_string(&self) -> (text: String)
        ensures
            text@ == "dmux_bridge_"@ + self@.code + ": "@ + self@.detail,
    {
        "dmux_bridge_".to_owned().concat(self.code).concat(": ").concat(self.detail.as_str())
    }
}

} // verus!
