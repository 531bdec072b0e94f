use ipfs_operator::types::load_balancer::{deletion_targets, fleet_delete_verdict};
use ipfs_operator::types::service::ObservedService;
use ipfs_operator::types::{delete_outcome, not_found};
use ipfs_operator::{ErrorResponse, KubeFailure};

fn refusal(reason: &str, code: u16) -> KubeFailure {
    KubeFailure::Api(ErrorResponse {
        status: "Failure".to_string(),
        message: "refused".to_string(),
        reason: reason.to_string(),
        code,
    })
}

fn aggregate(message: &str) -> KubeFailure {
    KubeFailure::Api(ErrorResponse {
        status: "Failed".to_string(),
        message: message.to_string(),
        reason: "Failed to join set while deleting load balancers".to_string(),
        code: 418,
    })
}

#[test]
fn deleting_what_exists_succeeds() {
    assert_eq!(delete_outcome(Ok(())), Ok(()));
}

#[test]
fn deleting_what_is_gone_succeeds() {
    assert_eq!(delete_outcome(Err(refusal("NotFound", 404))), Ok(()));
}

#[test]
fn not_found_goes_by_the_reason_alone() {
    assert!(not_found(&refusal("NotFound", 404)));
    assert!(not_found(&refusal("NotFound", 500)));
    assert!(!not_found(&refusal("notfound", 404)));
    assert!(!not_found(&refusal("", 404)));
    assert!(!not_found(&refusal("Forbidden", 403)));
    assert!(!not_found(&KubeFailure::Other("NotFound".to_string())));
}

#[test]
fn any_other_failure_of_a_deletion_stands() {
    assert_eq!(
        delete_outcome(Err(refusal("Forbidden", 403))),
        Err(refusal("Forbidden", 403))
    );
    assert_eq!(
        delete_outcome(Err(refusal("Conflict", 404))),
        Err(refusal("Conflict", 404))
    );
    assert_eq!(
        delete_outcome(Err(KubeFailure::Other("NotFound".to_string()))),
        Err(KubeFailure::Other("NotFound".to_string()))
    );
}

#[test]
fn deleting_twice_never_fails() {
    let mut store = vec!["ipfs-p2p-0".to_string()];
    for _ in 0..2 {
        let answer = match store.iter().position(|n| n == "ipfs-p2p-0") {
            Some(at) => {
                store.remove(at);
                Ok(())
            }
            None => Err(refusal("NotFound", 404)),
        };
        assert_eq!(delete_outcome(answer), Ok(()));
    }
    assert!(store.is_empty());
}

#[test]
fn deletion_targets_are_the_listed_names() {
    let listed = vec![
        ObservedService {
            name: "ipfs-p2p-0".to_string(),
            status: None,
        },
        ObservedService {
            name: "drifted".to_string(),
            status: None,
        },
        ObservedService {
            name: "ipfs-p2p-7".to_string(),
            status: None,
        },
    ];
    assert_eq!(
        deletion_targets(&listed),
        vec!["ipfs-p2p-0", "drifted", "ipfs-p2p-7"]
    );
    assert!(deletion_targets(&Vec::new()).is_empty());
}

#[test]
fn fleet_delete_succeeds_when_every_deletion_did() {
    assert_eq!(fleet_delete_verdict(Vec::new()), Ok(()));
    assert_eq!(fleet_delete_verdict(vec![Ok(()), Ok(()), Ok(())]), Ok(()));
}

#[test]
fn fleet_delete_reports_one_aggregate_failure() {
    let outcomes = vec![
        Ok(()),
        Err("first refusal".to_string()),
        Ok(()),
        Err("second refusal".to_string()),
        Err("third refusal".to_string()),
    ];
    assert_eq!(
        fleet_delete_verdict(outcomes),
        Err(aggregate("first refusal"))
    );
}

#[test]
fn fleet_delete_fails_on_a_single_late_failure() {
    let outcomes = vec![Ok(()), Ok(()), Ok(()), Ok(()), Err("late".to_string())];
    assert_eq!(fleet_delete_verdict(outcomes), Err(aggregate("late")));
}

#[test]
fn fleet_delete_twice_never_fails() {
    let mut store: Vec<String> = (0..5).map(|i| format!("ipfs-p2p-{}", i)).collect();
    let listing: Vec<ObservedService> = store
        .iter()
        .map(|n| ObservedService {
            name: n.clone(),
            status: None,
        })
        .collect();
    for _ in 0..2 {
        let mut outcomes = Vec::new();
        for name in deletion_targets(&listing) {
            let answer = match store.iter().position(|n| *n == name) {
                Some(at) => {
                    store.remove(at);
                    Ok(())
                }
                None => Err(refusal("NotFound", 404)),
            };
            outcomes.push(match delete_outcome(answer) {
                Ok(()) => Ok(()),
                Err(failure) => Err(format!("{:?}", failure)),
            });
        }
        assert_eq!(outcomes.len(), 5);
        assert_eq!(fleet_delete_verdict(outcomes), Ok(()));
    }
    assert!(store.is_empty());
}

#[test]
fn fleet_delete_attempts_every_member_and_aggregates() {
    let listing: Vec<ObservedService> = (0..5)
        .map(|i| ObservedService {
            name: format!("ipfs-p2p-{}", i),
            status: None,
        })
        .collect();
    let targets = deletion_targets(&listing);
    assert_eq!(targets.len(), 5);
    let mut attempted = Vec::new();
    let mut outcomes = Vec::new();
    for (i, name) in targets.into_iter().enumerate() {
        let answer = if i % 2 == 0 {
            Err(refusal("Forbidden", 403))
        } else {
            Ok(())
        };
        outcomes.push(match delete_outcome(answer) {
            Ok(()) => Ok(()),
            Err(_) => Err(format!("cannot delete {}", name)),
        });
        attempted.push(name);
    }
    assert_eq!(attempted.len(), 5);
    assert_eq!(outcomes.iter().filter(|o| o.is_err()).count(), 3);
    assert_eq!(
        fleet_delete_verdict(outcomes),
        Err(aggregate("cannot delete ipfs-p2p-0"))
    );
}
