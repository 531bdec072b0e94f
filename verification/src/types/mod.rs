//! The object kinds the operator manages, and the one rule that every deletion
//! of a single object goes through.
use vstd::prelude::*;
use vstd::string::*;

pub mod configmap;
pub mod load_balancer;
pub mod service;

use crate::{KubeFailure, KubeFailureView};

verus! {

/// The control plane refused a request because the object does not exist.
pub open spec fn is_not_found(failure: KubeFailureView) -> bool {
    failure matches KubeFailureView::Api(response) && response.reason == "NotFound"@
}

/// What a deletion amounts to, given what the control plane answered: an
/// object that was already gone counts as deleted, any other failure stands.
pub open spec fn delete_outcome_spec(answer: Result<(), KubeFailure>) -> Result<(), KubeFailure> {
    match answer {
        Ok(_) => Ok(()),
        Err(failure) => if is_not_found(failure@) {
            Ok(())
        } else {
            Err(failure)
        },
    }
}

/// Tells whether `failure` says that the object does not exist.
pub fn not_found(failure: &KubeFailure) -> (b: bool)
    ensures
        b == is_not_found(failure@),
{
    match failure {
        KubeFailure::Api(response) => response.reason == String::from_str("NotFound"),
        KubeFailure::Other(_) => false,
    }
}

/// Turns the control plane's answer to a delete request into the outcome of
/// the deletion. Every deletion of a single object, of whatever kind, ends
/// here.
pub fn delete_outcome(answer: Result<(), KubeFailure>) -> (outcome: Result<(), KubeFailure>)
    ensures
        outcome == delete_outcome_spec(answer),
{
    match answer {
        Ok(_) => Ok(()),
        Err(failure) => {
            if not_found(&failure) {
                Ok(())
            } else {
                Err(failure)
            }
        },
    }
}

} // verus!
