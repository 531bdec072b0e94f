//! Reconciliation core of an operator that keeps one externally reachable
//! network endpoint per replica of a peer-to-peer storage cluster.
//!
//! The library decides; a thin asynchronous shell performs. Every call to the
//! control plane is described here as a plain value (a query, a batch of object
//! definitions, a batch of names), and every answer comes back as a plain value
//! from which the next decision is taken.
use vstd::prelude::*;
use vstd::string::*;

pub mod fanout;
pub mod model;
pub mod string_map;
pub mod text;
pub mod types;

use crate::string_map::StringMap;

verus! {

/// What the control plane answers when it refuses a request.
#[derive(Debug, PartialEq, Eq)]
pub struct ErrorResponse {
    pub status: String,
    pub message: String,
    pub reason: String,
    pub code: u16,
}

pub struct ErrorResponseView {
    pub status: Seq<char>,
    pub message: Seq<char>,
    pub reason: Seq<char>,
    pub code: u16,
}

impl View for ErrorResponse {
    type V = ErrorResponseView;

    open spec fn view(&self) -> ErrorResponseView {
        ErrorResponseView {
            status: self.status@,
            message: self.message@,
            reason: self.reason@,
            code: self.code,
        }
    }
}

/// A failed call to the control plane: either the control plane answered with
/// a refusal, or the call broke down otherwise (transport, encoding), of which
/// only a description is kept.
#[derive(Debug, PartialEq, Eq)]
pub enum KubeFailure {
    Api(ErrorResponse),
    Other(String),
}

pub enum KubeFailureView {
    Api(ErrorResponseView),
    Other(Seq<char>),
}

impl View for KubeFailure {
    type V = KubeFailureView;

    open spec fn view(&self) -> KubeFailureView {
        match self {
            KubeFailure::Api(response) => KubeFailureView::Api(response@),
            KubeFailure::Other(description) => KubeFailureView::Other(description@),
        }
    }
}

/// Everything that can go wrong in this crate.
#[derive(Debug, PartialEq, Eq)]
pub enum Error {
    /// An object representation was malformed.
    SerializationError(String),
    /// A call to the control plane failed.
    KubeError { source: KubeFailure },
    /// The finalizer lifecycle around a reconciliation failed.
    FinalizerError(String),
    /// The caller's desired state is not a legal one.
    IllegalDocument,
    /// No external address was assigned in time.
    IPTimeout,
    /// The endpoint's address list is there and holds nothing.
    IngressListEmpty,
    /// The endpoint's address list is not there.
    IngressListMissing,
    /// A concurrent unit of work ended without producing a result.
    JoinError { source: String },
    /// The watch behind a condition wait failed.
    WaitError { source: String },
    /// The deadline of a condition wait passed.
    WaitTimeout,
    /// Inputs that a node needs were not given.
    MissingNodeInputs(String),
    /// A configuration object was not found or holds no data.
    ConfigMapError(String),
}

pub enum ErrorView {
    SerializationError(Seq<char>),
    KubeError { source: KubeFailureView },
    FinalizerError(Seq<char>),
    IllegalDocument,
    IPTimeout,
    IngressListEmpty,
    IngressListMissing,
    JoinError { source: Seq<char> },
    WaitError { source: Seq<char> },
    WaitTimeout,
    MissingNodeInputs(Seq<char>),
    ConfigMapError(Seq<char>),
}

impl View for Error {
    type V = ErrorView;

    open spec fn view(&self) -> ErrorView {
        match self {
            Error::SerializationError(s) => ErrorView::SerializationError(s@),
            Error::KubeError { source } => ErrorView::KubeError { source: source@ },
            Error::FinalizerError(s) => ErrorView::FinalizerError(s@),
            Error::IllegalDocument => ErrorView::IllegalDocument,
            Error::IPTimeout => ErrorView::IPTimeout,
            Error::IngressListEmpty => ErrorView::IngressListEmpty,
            Error::IngressListMissing => ErrorView::IngressListMissing,
            Error::JoinError { source } => ErrorView::JoinError { source: source@ },
            Error::WaitError { source } => ErrorView::WaitError { source: source@ },
            Error::WaitTimeout => ErrorView::WaitTimeout,
            Error::MissingNodeInputs(s) => ErrorView::MissingNodeInputs(s@),
            Error::ConfigMapError(s) => ErrorView::ConfigMapError(s@),
        }
    }
}

/// Which reconciliation a caller asks for: a first rollout, or a re-sync of an
/// endpoint fleet that may already exist.
#[derive(Debug, Clone, Copy, PartialEq, Eq)]
pub enum ActionType {
    Create,
    Update,
}

/// The labels by which a workload of cluster instance `name` of flavour `kind`
/// is selected.
pub open spec fn selector_labels_spec(name: Seq<char>, kind: Seq<char>) -> Map<
    Seq<char>,
    Seq<char>,
> {
    Map::<Seq<char>, Seq<char>>::empty().insert(
        "app.kubernetes.io/name"@,
        "ipfs-"@ + kind + "-cluster"@,
    ).insert("app.kubernetes.io/instance"@, name)
}

/// The ownership labels of an object that belongs to cluster instance `name`:
/// the selector labels, the version and the managing system.
pub open spec fn labels_spec(name: Seq<char>, kind: Seq<char>) -> Map<Seq<char>, Seq<char>> {
    selector_labels_spec(name, kind).insert("app.kubernetes.io/version"@, "0.1.0"@).insert(
        "app.kubernetes.io/managed-by"@,
        "ipfs-operator"@,
    )
}

/// The name of the object that records the external addresses of `name`.
pub open spec fn external_address_name_spec(name: Seq<char>) -> Seq<char> {
    name + "-external-addresses"@
}

/// Ownership labels of cluster instance `name` of flavour `kind`.
pub fn labels(name: String, kind: String) -> (labels: StringMap)
    ensures
        labels@ == labels_spec(name@, kind@),
{
    let mut labels = selector_labels(name, kind);
    labels.insert(String::from_str("app.kubernetes.io/version"), String::from_str("0.1.0"));
    labels.insert(
        String::from_str("app.kubernetes.io/managed-by"),
        String::from_str("ipfs-operator"),
    );
    labels
}

/// Selector labels of cluster instance `name` of flavour `kind`.
pub fn selector_labels(name: String, kind: String) -> (labels: StringMap)
    ensures
        labels@ == selector_labels_spec(name@, kind@),
{
    let mut labels = StringMap::new();
    labels.insert(
        String::from_str("app.kubernetes.io/name"),
        text::join3("ipfs-", kind.as_str(), "-cluster"),
    );
    labels.insert(String::from_str("app.kubernetes.io/instance"), name);
    labels
}

/// Name of the object that records the external addresses of `name`.
pub fn external_address_name(name: &str) -> (full: String)
    ensures
        full@ == external_address_name_spec(name@),
{
    text::join2(name, "-external-addresses")
}

} // verus!
