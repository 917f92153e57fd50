use vstd::prelude::*;

verus! {

/// The condition under which a stage of the pipeline gave up.
#[derive(Clone, Copy, Debug, PartialEq, Eq, Structural)]
pub enum ErrorKind {
    /// A source file is present but does not parse against the schema.
    MalformedSource,
    /// An expected manifest or override file is absent.
    MissingSource,
    /// A manifest name disagrees with the service it was requested as.
    IdentityMismatch,
    /// A referenced region is absent from the global config.
    UnknownRegion,
    /// The service's own region list does not hold the requested region.
    UnsupportedRegion,
    /// A hard failure of manifest validation.
    ValidationFailure,
    /// A malformed host alias in an override.
    InvalidHostAlias,
    /// The secret store has no value for a placeholder.
    SecretNotFound,
    /// The template renderer failed.
    TemplateFailure,
}

/// An error with its kind and a human readable reason.
#[derive(Clone, Debug)]
pub struct ManifestError {
    pub kind: ErrorKind,
    pub reason: String,
}

impl ManifestError {
    pub fn new(kind: ErrorKind, reason: &str) -> (r: ManifestError)
        ensures
            r.kind == kind,
            r.reason@ == reason@,
    {
        ManifestError { kind, reason: String::from_str(reason) }
    }

    /// The same error, its reason followed by the subject it concerns.
    pub fn about(self, subject: &String) -> (r: ManifestError)
        ensures
            r.kind == self.kind,
            r.reason@ == self.reason@ + ": "@ + subject@,
            names_subject(r, subject@),
    {
        let r = ManifestError { kind: self.kind, reason: self.reason.concat(": ").concat(subject.as_str()) };
        assert((self.reason@ + ": "@ + subject@).subrange(
            (self.reason@ + ": "@).len() as int,
            (self.reason@ + ": "@ + subject@).len() as int,
        ) =~= subject@);
        r
    }

    /// The error message.
    pub fn message(&self) -> (r: String)
        ensures
            r@ == self.reason@,
    {
        self.reason.clone()
    }
}

/// The outcome of a fallible stage.
pub type ManifestResult<T> = Result<T, ManifestError>;

/// Whether the reason of `e` ends with `subject`.
pub open spec fn names_subject(e: ManifestError, subject: Seq<char>) -> bool {
    &&& e.reason@.len() >= subject.len()
    &&& e.reason@.subrange(e.reason@.len() - subject.len(), e.reason@.len() as int) == subject
}

/// Whether `r` failed with an error of kind `k`.
pub open spec fn fails_with<T>(r: ManifestResult<T>, k: ErrorKind) -> bool {
    r is Err && r->Err_0.kind == k
}

} // verus!
