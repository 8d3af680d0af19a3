//! What can go wrong.
use vstd::prelude::*;

verus! {

/// Why an operation on a sandbox did not come about.
#[derive(Debug)]
pub enum Error {
    /// The running kernel lacks a feature.
    KernelFeatureMissing { feature: &'static str, min_kernel: &'static str },
    CgroupSetup(String),
    NamespaceSetup(String),
    MountSetup(String),
    LaunchFailed(String),
    OomKilled,
    Timeout,
    AlreadyTerminated,
    /// An operating-system error, as it describes itself.
    Io(String),
    /// A document that could not be read, as its reader describes it.
    Serde(String),
    PolicyInvalid(String),
    LimitParse(String),
    Unsupported(String),
}

/// An error as plain values.
#[verifier::ext_equal]
pub enum ErrorModel {
    KernelFeatureMissing { feature: Seq<char>, min_kernel: Seq<char> },
    CgroupSetup(Seq<char>),
    NamespaceSetup(Seq<char>),
    MountSetup(Seq<char>),
    LaunchFailed(Seq<char>),
    OomKilled,
    Timeout,
    AlreadyTerminated,
    Io(Seq<char>),
    Serde(Seq<char>),
    PolicyInvalid(Seq<char>),
    LimitParse(Seq<char>),
    Unsupported(Seq<char>),
}

impl View for Error {
    type V = ErrorModel;

    open spec fn view(&self) -> ErrorModel {
        match *self {
            Error::KernelFeatureMissing { feature, min_kernel } => ErrorModel::KernelFeatureMissing {
                feature: feature@,
                min_kernel: min_kernel@,
            },
            Error::CgroupSetup(m) => ErrorModel::CgroupSetup(m@),
            Error::NamespaceSetup(m) => ErrorModel::NamespaceSetup(m@),
            Error::MountSetup(m) => ErrorModel::MountSetup(m@),
            Error::LaunchFailed(m) => ErrorModel::LaunchFailed(m@),
            Error::OomKilled => ErrorModel::OomKilled,
            Error::Timeout => ErrorModel::Timeout,
            Error::AlreadyTerminated => ErrorModel::AlreadyTerminated,
            Error::Io(m) => ErrorModel::Io(m@),
            Error::Serde(m) => ErrorModel::Serde(m@),
            Error::PolicyInvalid(m) => ErrorModel::PolicyInvalid(m@),
            Error::LimitParse(m) => ErrorModel::LimitParse(m@),
            Error::Unsupported(m) => ErrorModel::Unsupported(m@),
        }
    }
}

/// Whether a result is the wanted one, a value or an error.
pub open spec fn gives<T: View>(r: Result<T, Error>, want: Result<T::V, ErrorModel>) -> bool {
    match (r, want) {
        (Ok(t), Ok(m)) => t@ == m,
        (Err(e), Err(m)) => e@ == m,
        _ => false,
    }
}

/// The sentence that describes an error.
pub open spec fn described(e: ErrorModel) -> Seq<char> {
    match e {
        ErrorModel::KernelFeatureMissing { feature, min_kernel } => "kernel feature missing: "@ + feature
            + " (min kernel: "@ + min_kernel + ")"@,
        ErrorModel::CgroupSetup(m) => "cgroup setup failed: "@ + m,
        ErrorModel::NamespaceSetup(m) => "namespace setup failed: "@ + m,
        ErrorModel::MountSetup(m) => "mount setup failed: "@ + m,
        ErrorModel::LaunchFailed(m) => "launch failed: "@ + m,
        ErrorModel::OomKilled => "sandbox OOM killed"@,
        ErrorModel::Timeout => "sandbox timeout exceeded"@,
        ErrorModel::AlreadyTerminated => "sandbox already terminated"@,
        ErrorModel::Io(m) => "I/O error: "@ + m,
        ErrorModel::Serde(m) => "serialization error: "@ + m,
        ErrorModel::PolicyInvalid(m) => "invalid policy: "@ + m,
        ErrorModel::LimitParse(m) => "resource limit parse error: "@ + m,
        ErrorModel::Unsupported(m) => "not supported: "@ + m,
    }
}

impl Error {

    /// The sentence that describes the error.
    pub fn to_string(&self) -> (r: String)
        ensures
            r@ == described(self@),
    {
        match self {
            Error::KernelFeatureMissing { feature, min_kernel } => crate::text::cat5(
                "kernel feature missing: ",
                feature,
                " (min kernel: ",
                min_kernel,
                ")",
            ),
            Error::CgroupSetup(m) => prefixed("cgroup setup failed: ", m.as_str()),
            Error::NamespaceSetup(m) => prefixed("namespace setup failed: ", m.as_str()),
            Error::MountSetup(m) => prefixed("mount setup failed: ", m.as_str()),
            Error::LaunchFailed(m) => prefixed("launch failed: ", m.as_str()),
            Error::OomKilled => "sandbox OOM killed".to_owned(),
            Error::Timeout => "sandbox timeout exceeded".to_owned(),
            Error::AlreadyTerminated => "sandbox already terminated".to_owned(),
            Error::Io(m) => prefixed("I/O error: ", m.as_str()),
            Error::Serde(m) => prefixed("serialization error: ", m.as_str()),
            Error::PolicyInvalid(m) => prefixed("invalid policy: ", m.as_str()),
            Error::LimitParse(m) => prefixed("resource limit parse error: ", m.as_str()),
            Error::Unsupported(m) => prefixed("not supported: ", m.as_str()),
        }
    }
}

/// `what` with `lead` before it.
fn prefixed(lead: &str, what: &str) -> (r: String)
    ensures
        r@ == lead@ + what@,
{
    let mut out = lead.to_owned();
    out.append(what);
    out
}

} // verus!
