use std::collections::BTreeMap;

use ipfs_operator::fanout::JoinFailure;
use ipfs_operator::types::load_balancer::{
    after_list, begin, creation_batch, deletion_batch, endpoint_definition, judge_unit, settle,
    Command,
};
use ipfs_operator::types::service::{ObservedService, ServiceDefinition};
use ipfs_operator::types::delete_outcome;
use ipfs_operator::{ActionType, Error, ErrorResponse, KubeFailure};

type Unit = Result<Result<(), KubeFailure>, JoinFailure>;

fn observed(name: &str) -> ObservedService {
    ObservedService {
        name: name.to_string(),
        status: None,
    }
}

fn not_found(name: &str) -> KubeFailure {
    KubeFailure::Api(ErrorResponse {
        status: "Failure".to_string(),
        message: format!("services \"{}\" not found", name),
        reason: "NotFound".to_string(),
        code: 404,
    })
}

fn forbidden() -> KubeFailure {
    KubeFailure::Api(ErrorResponse {
        status: "Failure".to_string(),
        message: "forbidden".to_string(),
        reason: "Forbidden".to_string(),
        code: 403,
    })
}

fn names_of(batch: &[ServiceDefinition]) -> Vec<String> {
    batch.iter().map(|d| d.name.clone()).collect()
}

/// A control plane that holds services by name and never fails on its own.
fn carry_out(store: &mut BTreeMap<String, String>, command: Command) -> Result<(), Error> {
    match command {
        Command::Finish(verdict) => verdict,
        Command::List(_) => panic!("a listing is answered by the caller"),
        Command::Apply(batch) => {
            let mut outcomes: Vec<Unit> = Vec::new();
            for definition in batch {
                store.insert(definition.name.clone(), definition.namespace.clone());
                outcomes.push(Ok(Ok(())));
            }
            settle(outcomes)
        }
        Command::Delete(names) => {
            let mut outcomes: Vec<Unit> = Vec::new();
            for name in names {
                let answer = match store.remove(&name) {
                    Some(_) => Ok(()),
                    None => Err(not_found(&name)),
                };
                outcomes.push(Ok(delete_outcome(answer)));
            }
            settle(outcomes)
        }
    }
}

fn reconcile(
    store: &mut BTreeMap<String, String>,
    name: &str,
    replicas: i32,
    action: ActionType,
) -> Result<(), Error> {
    match begin(name, "ns", "private", replicas, 4001, action) {
        Command::List(query) => {
            assert_eq!(
                query.label_selector,
                format!("app.kubernetes.io/instance={}", name)
            );
            let found: Vec<ObservedService> = store.keys().map(|k| observed(k)).collect();
            let next = after_list(name, "ns", "private", replicas, 4001, Ok(found));
            carry_out(store, next)
        }
        command => carry_out(store, command),
    }
}

fn fleet(name: &str, count: usize) -> Vec<String> {
    (0..count).map(|i| format!("{}-p2p-{}", name, i)).collect()
}

fn held(store: &BTreeMap<String, String>) -> Vec<String> {
    let mut names: Vec<String> = store.keys().cloned().collect();
    names.sort();
    names
}

fn sorted(mut names: Vec<String>) -> Vec<String> {
    names.sort();
    names
}

#[test]
fn begin_create_applies_every_index() {
    match begin("ipfs", "ns", "private", 3, 4001, ActionType::Create) {
        Command::Apply(batch) => {
            assert_eq!(
                names_of(&batch),
                vec!["ipfs-p2p-0", "ipfs-p2p-1", "ipfs-p2p-2"]
            );
        }
        other => panic!("unexpected command {:?}", other),
    }
}

#[test]
fn begin_create_of_zero_replicas_applies_nothing() {
    match begin("ipfs", "ns", "private", 0, 4001, ActionType::Create) {
        Command::Apply(batch) => assert!(batch.is_empty()),
        other => panic!("unexpected command {:?}", other),
    }
}

#[test]
fn begin_update_lists_the_fleet() {
    match begin("ipfs", "ns", "private", 3, 4001, ActionType::Update) {
        Command::List(query) => {
            assert_eq!(query.label_selector, "app.kubernetes.io/instance=ipfs");
            assert_eq!(query.field_selector, "spec.type=LoadBalancer");
            assert_eq!(query.timeout, 300);
            assert!(query.match_any);
        }
        other => panic!("unexpected command {:?}", other),
    }
}

#[test]
fn begin_rejects_a_negative_replica_count() {
    for action in [ActionType::Create, ActionType::Update] {
        match begin("ipfs", "ns", "private", -1, 4001, action) {
            Command::Finish(verdict) => assert_eq!(verdict, Err(Error::IllegalDocument)),
            other => panic!("unexpected command {:?}", other),
        }
    }
    match begin("ipfs", "ns", "private", i32::MIN, 4001, ActionType::Update) {
        Command::Finish(verdict) => assert_eq!(verdict, Err(Error::IllegalDocument)),
        other => panic!("unexpected command {:?}", other),
    }
}

#[test]
fn after_list_deletes_the_surplus_by_name() {
    let found = vec![observed("a"), observed("b"), observed("c")];
    match after_list("ipfs", "ns", "private", 1, 4001, Ok(found)) {
        Command::Delete(names) => assert_eq!(names, vec!["ipfs-p2p-1", "ipfs-p2p-2"]),
        other => panic!("unexpected command {:?}", other),
    }
}

#[test]
fn after_list_creates_the_shortfall() {
    let found = vec![observed("ipfs-p2p-0")];
    match after_list("ipfs", "ns", "private", 3, 4001, Ok(found)) {
        Command::Apply(batch) => assert_eq!(names_of(&batch), vec!["ipfs-p2p-1", "ipfs-p2p-2"]),
        other => panic!("unexpected command {:?}", other),
    }
}

#[test]
fn after_list_leaves_a_converged_fleet_alone() {
    let found = vec![observed("ipfs-p2p-0"), observed("ipfs-p2p-1")];
    match after_list("ipfs", "ns", "private", 2, 4001, Ok(found)) {
        Command::Finish(verdict) => assert_eq!(verdict, Ok(())),
        other => panic!("unexpected command {:?}", other),
    }
    match after_list("ipfs", "ns", "private", 0, 4001, Ok(Vec::new())) {
        Command::Finish(verdict) => assert_eq!(verdict, Ok(())),
        other => panic!("unexpected command {:?}", other),
    }
}

#[test]
fn after_list_reports_a_failed_listing() {
    match after_list("ipfs", "ns", "private", 2, 4001, Err(forbidden())) {
        Command::Finish(verdict) => assert_eq!(
            verdict,
            Err(Error::KubeError {
                source: forbidden()
            })
        ),
        other => panic!("unexpected command {:?}", other),
    }
    let broken = KubeFailure::Other("connection reset".to_string());
    match after_list("ipfs", "ns", "private", 2, 4001, Err(broken)) {
        Command::Finish(verdict) => assert_eq!(
            verdict,
            Err(Error::KubeError {
                source: KubeFailure::Other("connection reset".to_string())
            })
        ),
        other => panic!("unexpected command {:?}", other),
    }
}

#[test]
fn after_list_rejects_a_negative_replica_count() {
    match after_list("ipfs", "ns", "private", -3, 4001, Ok(vec![observed("a")])) {
        Command::Finish(verdict) => assert_eq!(verdict, Err(Error::IllegalDocument)),
        other => panic!("unexpected command {:?}", other),
    }
}

#[test]
fn endpoint_definition_is_pinned_to_one_pod() {
    let d = endpoint_definition("ipfs", "storage", "private", 4001, 2);
    assert_eq!(d.name, "ipfs-p2p-2");
    assert_eq!(d.namespace, "storage");
    assert_eq!(d.service_type, "LoadBalancer");
    assert_eq!(d.ports.len(), 1);
    assert_eq!(d.ports[0].name, "p2p");
    assert_eq!(d.ports[0].port, 4001);
    assert_eq!(d.ports[0].protocol, "TCP");
    assert_eq!(d.ports[0].target_port, 4001);
    assert_eq!(d.labels.len(), 4);
    assert_eq!(
        d.labels.get("app.kubernetes.io/instance"),
        Some(&"ipfs".to_string())
    );
    assert_eq!(
        d.labels.get("app.kubernetes.io/managed-by"),
        Some(&"ipfs-operator".to_string())
    );
    assert_eq!(d.labels.get("statefulset.kubernetes.io/pod-name"), None);
    assert_eq!(d.selector.len(), 3);
    assert_eq!(
        d.selector.get("app.kubernetes.io/name"),
        Some(&"ipfs-private-cluster".to_string())
    );
    assert_eq!(
        d.selector.get("app.kubernetes.io/instance"),
        Some(&"ipfs".to_string())
    );
    assert_eq!(
        d.selector.get("statefulset.kubernetes.io/pod-name"),
        Some(&"ipfs-p2p-2".to_string())
    );
}

#[test]
fn batches_cover_a_range_in_rising_order() {
    let batch = creation_batch("x", "ns", "k", 80, 2, 5);
    assert_eq!(names_of(&batch), vec!["x-p2p-2", "x-p2p-3", "x-p2p-4"]);
    assert_eq!(
        deletion_batch("x", 9, 12),
        vec!["x-p2p-9", "x-p2p-10", "x-p2p-11"]
    );
}

#[test]
fn batches_of_an_empty_range_are_empty() {
    assert!(creation_batch("x", "ns", "k", 80, 3, 3).is_empty());
    assert!(creation_batch("x", "ns", "k", 80, 5, 2).is_empty());
    assert!(deletion_batch("x", 3, 3).is_empty());
    assert!(deletion_batch("x", 5, 2).is_empty());
}

#[test]
fn judge_unit_tells_the_three_outcomes_apart() {
    assert_eq!(judge_unit(Ok(Ok(()))), Ok(()));
    assert_eq!(
        judge_unit(Ok(Err(forbidden()))),
        Err(Error::KubeError {
            source: forbidden()
        })
    );
    assert_eq!(
        judge_unit(Err(JoinFailure {
            description: "cancelled".to_string()
        })),
        Err(Error::JoinError {
            source: "cancelled".to_string()
        })
    );
}

#[test]
fn settle_succeeds_when_every_unit_did() {
    assert_eq!(settle(Vec::new()), Ok(()));
    assert_eq!(settle(vec![Ok(Ok(())), Ok(Ok(())), Ok(Ok(()))]), Ok(()));
}

#[test]
fn settle_fails_as_the_first_failing_unit_did() {
    let outcomes: Vec<Unit> = vec![
        Ok(Ok(())),
        Err(JoinFailure {
            description: "panicked".to_string(),
        }),
        Ok(Err(forbidden())),
    ];
    assert_eq!(
        settle(outcomes),
        Err(Error::JoinError {
            source: "panicked".to_string()
        })
    );
    let outcomes: Vec<Unit> = vec![Ok(Err(forbidden())), Ok(Ok(()))];
    assert_eq!(
        settle(outcomes),
        Err(Error::KubeError {
            source: forbidden()
        })
    );
}

#[test]
fn scale_up_from_an_empty_fleet() {
    let mut store = BTreeMap::new();
    assert_eq!(reconcile(&mut store, "ipfs", 3, ActionType::Update), Ok(()));
    assert_eq!(held(&store), sorted(fleet("ipfs", 3)));
    assert_eq!(store.len(), 3);
}

#[test]
fn first_rollout_creates_the_whole_fleet() {
    let mut store = BTreeMap::new();
    assert_eq!(reconcile(&mut store, "ipfs", 3, ActionType::Create), Ok(()));
    assert_eq!(held(&store), sorted(fleet("ipfs", 3)));
}

#[test]
fn scale_down_deletes_from_the_top() {
    let mut store = BTreeMap::new();
    for name in fleet("ipfs", 3) {
        store.insert(name, "ns".to_string());
    }
    assert_eq!(reconcile(&mut store, "ipfs", 1, ActionType::Update), Ok(()));
    assert_eq!(held(&store), vec!["ipfs-p2p-0"]);
}

#[test]
fn update_converges_from_every_contiguous_fleet() {
    for existing in 0..13usize {
        for desired in 0..13usize {
            let mut store = BTreeMap::new();
            for name in fleet("c", existing) {
                store.insert(name, "ns".to_string());
            }
            assert_eq!(
                reconcile(&mut store, "c", desired as i32, ActionType::Update),
                Ok(())
            );
            assert_eq!(held(&store), sorted(fleet("c", desired)));
        }
    }
}

#[test]
fn update_of_a_converged_fleet_changes_nothing() {
    let mut store = BTreeMap::new();
    assert_eq!(reconcile(&mut store, "ipfs", 4, ActionType::Update), Ok(()));
    let before = store.clone();
    assert_eq!(reconcile(&mut store, "ipfs", 4, ActionType::Update), Ok(()));
    assert_eq!(store, before);
}

#[test]
fn shrinking_goes_by_name_and_not_by_listing() {
    let mut store = BTreeMap::new();
    store.insert("ipfs-p2p-0".to_string(), "ns".to_string());
    store.insert("ipfs-p2p-2".to_string(), "ns".to_string());
    store.insert("ipfs-p2p-5".to_string(), "ns".to_string());
    assert_eq!(reconcile(&mut store, "ipfs", 1, ActionType::Update), Ok(()));
    assert_eq!(held(&store), vec!["ipfs-p2p-0", "ipfs-p2p-5"]);
}

#[test]
fn applying_a_definition_again_changes_nothing() {
    let mut store = BTreeMap::new();
    let first = endpoint_definition("ipfs", "ns", "private", 4001, 0);
    let second = endpoint_definition("ipfs", "ns", "private", 4001, 0);
    assert_eq!(first.name, second.name);
    assert_eq!(first.namespace, second.namespace);
    assert_eq!(first.service_type, second.service_type);
    assert_eq!(first.ports, second.ports);
    assert_eq!(sorted_pairs(&first), sorted_pairs(&second));
    assert_eq!(carry_out(&mut store, Command::Apply(vec![first])), Ok(()));
    let once = store.clone();
    assert_eq!(carry_out(&mut store, Command::Apply(vec![second])), Ok(()));
    assert_eq!(store, once);
}

fn sorted_pairs(d: &ServiceDefinition) -> (Vec<(String, String)>, Vec<(String, String)>) {
    let mut labels = d.labels.pairs();
    labels.sort();
    let mut selector = d.selector.pairs();
    selector.sort();
    (labels, selector)
}
