//! The fleet of external endpoints of one cluster instance: one load-balanced
//! service per replica, named by the replica's index.
//!
//! Every function here is one decision of the reconciler. The shell asks what
//! to do, does it against the control plane, and comes back with what it saw.
use vstd::prelude::*;
use vstd::string::*;

use crate::fanout::{
    collect_all, fail_fast, first_failure, first_failure_at, lemma_first_failure, JoinFailure,
};
use crate::string_map::map_of;
use crate::string_map::StringMap;
use crate::text::{decimal, join2, join3, render_index};
use crate::types::service::{
    definition, definition_spec, LoadBalancerIngress, ObservedService, Port, PortView,
    ServiceDefinition, ServiceDefinitionView,
};
use crate::{
    labels, labels_spec, selector_labels, selector_labels_spec, ActionType, Error, ErrorResponse,
    ErrorResponseView, ErrorView, KubeFailure, KubeFailureView,
};

verus! {

/// Seconds that a fleet listing, and the wait for an external address, may take.
pub const TIMEOUT_SECS: u32 = 300;

/// The name of the endpoint of replica `index` of cluster instance `name`.
pub open spec fn endpoint_name_spec(name: Seq<char>, index: nat) -> Seq<char> {
    name + "-p2p-"@ + decimal(index)
}

/// The key under which the address of replica `index` is reported.
pub open spec fn address_key_spec(name: Seq<char>, index: nat) -> Seq<char> {
    name + "-"@ + decimal(index)
}

/// Name of the endpoint of replica `index` of cluster instance `name`.
pub fn endpoint_name(name: &str, index: usize) -> (full: String)
    ensures
        full@ == endpoint_name_spec(name@, index as nat),
{
    let digits = render_index(index);
    join3(name, "-p2p-", digits.as_str())
}

/// Key under which the address of replica `index` is reported.
pub fn address_key(name: &str, index: usize) -> (key: String)
    ensures
        key@ == address_key_spec(name@, index as nat),
{
    let digits = render_index(index);
    join3(name, "-", digits.as_str())
}

/// Which objects a fleet listing asks for.
#[derive(Debug, PartialEq, Eq)]
pub struct FleetQuery {
    /// Restricts the listing by labels.
    pub label_selector: String,
    /// Restricts the listing by fields.
    pub field_selector: String,
    /// Seconds after which the listing is given up.
    pub timeout: u32,
    /// Whether data at any resource version may be served.
    pub match_any: bool,
}

pub struct FleetQueryView {
    pub label_selector: Seq<char>,
    pub field_selector: Seq<char>,
    pub timeout: u32,
    pub match_any: bool,
}

impl View for FleetQuery {
    type V = FleetQueryView;

    open spec fn view(&self) -> FleetQueryView {
        FleetQueryView {
            label_selector: self.label_selector@,
            field_selector: self.field_selector@,
            timeout: self.timeout,
            match_any: self.match_any,
        }
    }
}

/// The listing of the fleet of cluster instance `name`: the load-balanced
/// services that carry its instance label.
pub open spec fn fleet_query_spec(name: Seq<char>) -> FleetQueryView {
    FleetQueryView {
        label_selector: "app.kubernetes.io/instance="@ + name,
        field_selector: "spec.type=LoadBalancer"@,
        timeout: 300,
        match_any: true,
    }
}

/// The listing by which the fleet of cluster instance `name` is found.
pub fn fleet_query(name: &str) -> (query: FleetQuery)
    ensures
        query@ == fleet_query_spec(name@),
{
    FleetQuery {
        label_selector: join2("app.kubernetes.io/instance=", name),
        field_selector: String::from_str("spec.type=LoadBalancer"),
        timeout: TIMEOUT_SECS,
        match_any: true,
    }
}

/// The definition of the endpoint of replica `index`: a load-balanced service
/// that exposes `port` as "p2p" over TCP, carries the instance's ownership
/// labels, and selects exactly the pod of that replica.
pub open spec fn endpoint_definition_spec(
    name: Seq<char>,
    namespace: Seq<char>,
    kind: Seq<char>,
    port: i32,
    index: nat,
) -> ServiceDefinitionView {
    definition_spec(
        endpoint_name_spec(name, index),
        namespace,
        "LoadBalancer"@,
        seq![PortView { name: "p2p"@, port, protocol: "TCP"@ }],
        labels_spec(name, kind),
        selector_labels_spec(name, kind).insert(
            "statefulset.kubernetes.io/pod-name"@,
            endpoint_name_spec(name, index),
        ),
    )
}

/// Builds the definition of the endpoint of replica `index`.
pub fn endpoint_definition(name: &str, namespace: &str, kind: &str, port: i32, index: usize) -> (d:
    ServiceDefinition)
    ensures
        d@ == endpoint_definition_spec(name@, namespace@, kind@, port, index as nat),
{
    let mut selector = selector_labels(String::from_str(name), String::from_str(kind));
    selector.insert(
        String::from_str("statefulset.kubernetes.io/pod-name"),
        endpoint_name(name, index),
    );
    let ports = vec![Port { name: String::from_str("p2p"), port, protocol: "TCP" }];
    let own = labels(String::from_str(name), String::from_str(kind));
    proof {
        assert(Seq::new(ports@.len(), |i: int| ports@[i]@) =~= seq![
            PortView { name: "p2p"@, port, protocol: "TCP"@ },
        ]);
    }
    definition(
        endpoint_name(name, index),
        String::from_str(namespace),
        "LoadBalancer",
        ports,
        (own, selector),
    )
}

/// The views of a list of definitions.
pub open spec fn definition_views(list: Seq<ServiceDefinition>) -> Seq<ServiceDefinitionView> {
    Seq::new(list.len(), |i: int| list[i]@)
}

/// The views of a list of texts.
pub open spec fn text_views(list: Seq<String>) -> Seq<Seq<char>> {
    Seq::new(list.len(), |i: int| list[i]@)
}

/// The definitions of the endpoints of replicas `lower` up to, not including,
/// `upper`, in rising order.
pub open spec fn creation_batch_spec(
    name: Seq<char>,
    namespace: Seq<char>,
    kind: Seq<char>,
    port: i32,
    lower: nat,
    upper: nat,
) -> Seq<ServiceDefinitionView> {
    Seq::new(
        if lower <= upper {
            (upper - lower) as nat
        } else {
            0
        },
        |i: int| endpoint_definition_spec(name, namespace, kind, port, (lower + i) as nat),
    )
}

/// The names of the endpoints of replicas `lower` up to, not including,
/// `upper`, in rising order.
pub open spec fn deletion_batch_spec(name: Seq<char>, lower: nat, upper: nat) -> Seq<Seq<char>> {
    Seq::new(
        if lower <= upper {
            (upper - lower) as nat
        } else {
            0
        },
        |i: int| endpoint_name_spec(name, (lower + i) as nat),
    )
}

/// Builds the definitions of the endpoints of replicas `lower..upper`.
pub fn creation_batch(
    name: &str,
    namespace: &str,
    kind: &str,
    port: i32,
    lower: usize,
    upper: usize,
) -> (batch: Vec<ServiceDefinition>)
    ensures
        definition_views(batch@) == creation_batch_spec(
            name@,
            namespace@,
            kind@,
            port,
            lower as nat,
            upper as nat,
        ),
{
    let mut batch: Vec<ServiceDefinition> = Vec::new();
    let mut index: usize = lower;
    while index < upper
        invariant
            lower <= index,
            index <= upper || index == lower,
            batch@.len() == index - lower,
            forall|i: int|
                0 <= i < batch@.len() ==> (#[trigger] batch@[i])@ == endpoint_definition_spec(
                    name@,
                    namespace@,
                    kind@,
                    port,
                    (lower + i) as nat,
                ),
        decreases upper - index,
    {
        batch.push(endpoint_definition(name, namespace, kind, port, index));
        index = index + 1;
    }
    assert(definition_views(batch@) =~= creation_batch_spec(
        name@,
        namespace@,
        kind@,
        port,
        lower as nat,
        upper as nat,
    ));
    batch
}

/// Builds the names of the endpoints of replicas `lower..upper`.
pub fn deletion_batch(name: &str, lower: usize, upper: usize) -> (batch: Vec<String>)
    ensures
        text_views(batch@) == deletion_batch_spec(name@, lower as nat, upper as nat),
{
    let mut batch: Vec<String> = Vec::new();
    let mut index: usize = lower;
    while index < upper
        invariant
            lower <= index,
            index <= upper || index == lower,
            batch@.len() == index - lower,
            forall|i: int|
                0 <= i < batch@.len() ==> (#[trigger] batch@[i])@ == endpoint_name_spec(
                    name@,
                    (lower + i) as nat,
                ),
        decreases upper - index,
    {
        batch.push(endpoint_name(name, index));
        index = index + 1;
    }
    assert(text_views(batch@) =~= deletion_batch_spec(name@, lower as nat, upper as nat));
    batch
}

/// What the reconciler asks the shell to do next.
#[derive(Debug)]
pub enum Command {
    /// List the fleet, and come back with what was found.
    List(FleetQuery),
    /// Apply each of these definitions, concurrently, and come back with how
    /// each went.
    Apply(Vec<ServiceDefinition>),
    /// Delete each of the services so named, and come back with how each went.
    Delete(Vec<String>),
    /// Nothing is left to do: report this.
    Finish(Result<(), Error>),
}

pub enum CommandView {
    List(FleetQueryView),
    Apply(Seq<ServiceDefinitionView>),
    Delete(Seq<Seq<char>>),
    Finish(Result<(), ErrorView>),
}

/// The view of a reconciliation's result.
pub open spec fn verdict_view(verdict: Result<(), Error>) -> Result<(), ErrorView> {
    match verdict {
        Ok(_) => Ok(()),
        Err(e) => Err(e@),
    }
}

impl View for Command {
    type V = CommandView;

    open spec fn view(&self) -> CommandView {
        match self {
            Command::List(query) => CommandView::List(query@),
            Command::Apply(batch) => CommandView::Apply(definition_views(batch@)),
            Command::Delete(names) => CommandView::Delete(text_views(names@)),
            Command::Finish(verdict) => CommandView::Finish(verdict_view(*verdict)),
        }
    }
}

/// How a fleet of `existing` endpoints is brought to `desired`: the surplus is
/// deleted from the top by name, the shortfall is created above what exists,
/// and a fleet of the right size is left alone.
pub open spec fn plan_spec(
    name: Seq<char>,
    namespace: Seq<char>,
    kind: Seq<char>,
    port: i32,
    existing: nat,
    desired: nat,
) -> CommandView {
    if existing > desired {
        CommandView::Delete(deletion_batch_spec(name, desired, existing))
    } else if existing < desired {
        CommandView::Apply(creation_batch_spec(name, namespace, kind, port, existing, desired))
    } else {
        CommandView::Finish(Ok(()))
    }
}

/// The first command of a reconciliation. A negative replica count is no
/// legal desired state. A first rollout creates every endpoint; a re-sync
/// starts by listing what exists.
pub open spec fn begin_spec(
    name: Seq<char>,
    namespace: Seq<char>,
    kind: Seq<char>,
    replicas: i32,
    port: i32,
    action: ActionType,
) -> CommandView {
    if replicas < 0 {
        CommandView::Finish(Err(ErrorView::IllegalDocument))
    } else {
        match action {
            ActionType::Create => CommandView::Apply(
                creation_batch_spec(name, namespace, kind, port, 0, replicas as nat),
            ),
            ActionType::Update => CommandView::List(fleet_query_spec(name)),
        }
    }
}

/// The command that follows the listing of a re-sync. A failed listing ends
/// the reconciliation with that failure; a listing of `n` endpoints is
/// planned for as `plan_spec` says.
pub open spec fn after_list_spec(
    name: Seq<char>,
    namespace: Seq<char>,
    kind: Seq<char>,
    replicas: i32,
    port: i32,
    listed: Result<nat, KubeFailureView>,
) -> CommandView {
    if replicas < 0 {
        CommandView::Finish(Err(ErrorView::IllegalDocument))
    } else {
        match listed {
            Err(failure) => CommandView::Finish(Err(ErrorView::KubeError { source: failure })),
            Ok(existing) => plan_spec(name, namespace, kind, port, existing, replicas as nat),
        }
    }
}

/// What a listing amounts to for the plan: how many endpoints it found.
pub open spec fn listing_view(listed: Result<Vec<ObservedService>, KubeFailure>) -> Result<
    nat,
    KubeFailureView,
> {
    match listed {
        Ok(found) => Ok(found@.len()),
        Err(failure) => Err(failure@),
    }
}

/// Starts a reconciliation of the fleet of cluster instance `name`.
pub fn begin(
    name: &str,
    namespace: &str,
    kind: &str,
    replicas: i32,
    port: i32,
    action: ActionType,
) -> (command: Command)
    ensures
        command@ == begin_spec(name@, namespace@, kind@, replicas, port, action),
{
    if replicas < 0 {
        return Command::Finish(Err(Error::IllegalDocument));
    }
    match action {
        ActionType::Create => Command::Apply(
            creation_batch(name, namespace, kind, port, 0, replicas as usize),
        ),
        ActionType::Update => Command::List(fleet_query(name)),
    }
}

/// Continues a re-sync with what the listing of the fleet returned.
pub fn after_list(
    name: &str,
    namespace: &str,
    kind: &str,
    replicas: i32,
    port: i32,
    listed: Result<Vec<ObservedService>, KubeFailure>,
) -> (command: Command)
    ensures
        command@ == after_list_spec(
            name@,
            namespace@,
            kind@,
            replicas,
            port,
            listing_view(listed),
        ),
{
    if replicas < 0 {
        return Command::Finish(Err(Error::IllegalDocument));
    }
    let desired = replicas as usize;
    match listed {
        Err(failure) => Command::Finish(Err(Error::KubeError { source: failure })),
        Ok(found) => {
            let existing = found.len();
            if existing > desired {
                Command::Delete(deletion_batch(name, desired, existing))
            } else if existing < desired {
                Command::Apply(creation_batch(name, namespace, kind, port, existing, desired))
            } else {
                Command::Finish(Ok(()))
            }
        },
    }
}

/// What one unit of a batch amounts to: success, the failure of its request,
/// or a join failure where it produced no result.
pub open spec fn unit_verdict(unit: Result<Result<(), KubeFailure>, JoinFailure>) -> Result<
    (),
    Error,
> {
    match unit {
        Ok(Ok(_)) => Ok(()),
        Ok(Err(failure)) => Err(Error::KubeError { source: failure }),
        Err(failure) => Err(Error::JoinError { source: failure.description }),
    }
}

/// Judges one unit of a batch.
pub fn judge_unit(unit: Result<Result<(), KubeFailure>, JoinFailure>) -> (verdict: Result<
    (),
    Error,
>)
    ensures
        verdict == unit_verdict(unit),
{
    match unit {
        Ok(Ok(_)) => Ok(()),
        Ok(Err(failure)) => Err(Error::KubeError { source: failure }),
        Err(failure) => Err(Error::JoinError { source: failure.description }),
    }
}

/// How a reconciliation ends, given how the units of its batch went in the
/// order in which they completed: it succeeds if every unit did, and else
/// fails as the first failing unit did.
pub open spec fn settle_spec(outcomes: Seq<Result<Result<(), KubeFailure>, JoinFailure>>) -> Result<
    (),
    Error,
> {
    match first_failure(outcomes.map_values(|u| unit_verdict(u))) {
        None => Ok(()),
        Some(e) => Err(e),
    }
}

/// Ends a reconciliation with how the units of its batch went.
pub fn settle(outcomes: Vec<Result<Result<(), KubeFailure>, JoinFailure>>) -> (verdict: Result<
    (),
    Error,
>)
    ensures
        verdict == settle_spec(outcomes@),
{
    let ghost verdicts = outcomes@.map_values(|u| unit_verdict(u));
    let mut judged: Vec<Result<(), Error>> = Vec::new();
    for unit in it: outcomes
        invariant
            it.seq() == outcomes@,
            judged@ == verdicts.subrange(0, it.index() as int),
            verdicts == outcomes@.map_values(|u| unit_verdict(u)),
    {
        judged.push(judge_unit(unit));
        assert(judged@ =~= verdicts.subrange(0, it.index() + 1));
    }
    assert(judged@ =~= verdicts);
    match fail_fast(judged) {
        Ok(_) => Ok(()),
        Err(e) => Err(e),
    }
}

/// One endpoint to wait for: the service to watch, and the key under which
/// its address is reported.
#[derive(Debug, PartialEq, Eq)]
pub struct WaitTarget {
    pub endpoint: String,
    pub key: String,
}

/// Target `i` of `targets` is that of replica `i`, for each of `count` replicas.
pub open spec fn targets_of(name: Seq<char>, count: nat, targets: Seq<WaitTarget>) -> bool {
    &&& targets.len() == count
    &&& forall|i: int|
        0 <= i < count ==> (#[trigger] targets[i]).endpoint@ == endpoint_name_spec(name, i as nat)
            && targets[i].key@ == address_key_spec(name, i as nat)
}

/// The endpoints whose addresses a discovery for `replicas` replicas waits
/// for, in rising order of index; none where `replicas` is not positive.
pub fn discovery_targets(name: &str, replicas: i32) -> (targets: Vec<WaitTarget>)
    ensures
        targets_of(
            name@,
            if replicas > 0 {
                replicas as nat
            } else {
                0
            },
            targets@,
        ),
{
    let mut targets: Vec<WaitTarget> = Vec::new();
    if replicas <= 0 {
        return targets;
    }
    let count = replicas as usize;
    let mut index: usize = 0;
    while index < count
        invariant
            index <= count,
            targets_of(name@, index as nat, targets@),
        decreases count - index,
    {
        targets.push(
            WaitTarget { endpoint: endpoint_name(name, index), key: address_key(name, index) },
        );
        index = index + 1;
    }
    targets
}

/// The observation behind a borrowed one.
pub open spec fn observed_value(observed: Option<&ObservedService>) -> Option<ObservedService> {
    match observed {
        Some(service) => Some(*service),
        None => None,
    }
}

/// The address list that an observed service carries, if it carries one: the
/// service exists, has a status, the status has a load-balancer part, and
/// that part has a list.
pub open spec fn address_list(observed: Option<ObservedService>) -> Option<
    Seq<LoadBalancerIngress>,
> {
    match observed {
        Some(service) => match service.status {
            Some(status) => match status.load_balancer {
                Some(balancer) => match balancer.ingress {
                    Some(list) => Some(list@),
                    None => None,
                },
                None => None,
            },
            None => None,
        },
        None => None,
    }
}

/// An endpoint is ready once its address list is there, is not empty, and
/// its first entry holds an address.
pub open spec fn ready(observed: Option<ObservedService>) -> bool {
    match address_list(observed) {
        Some(list) => list.len() > 0 && list[0].ip is Some,
        None => false,
    }
}

/// The address read off an observed service: the first entry's address where
/// the endpoint is ready. An address list that is there and empty is one
/// anomaly; a list that is not there, or whose first entry holds no address,
/// is another.
pub open spec fn address_spec(observed: Option<ObservedService>) -> Result<Seq<char>, ErrorView> {
    match address_list(observed) {
        Some(list) => if list.len() == 0 {
            Err(ErrorView::IngressListEmpty)
        } else {
            match list[0].ip {
                Some(ip) => Ok(ip@),
                None => Err(ErrorView::IngressListMissing),
            }
        },
        None => Err(ErrorView::IngressListMissing),
    }
}

/// The condition that a wait for an external address waits for.
pub fn external_ip_exists(observed: Option<&ObservedService>) -> (exists: bool)
    ensures
        exists == ready(observed_value(observed)),
{
    if let Some(service) = observed {
        if let Some(status) = &service.status {
            if let Some(balancer) = &status.load_balancer {
                if let Some(list) = &balancer.ingress {
                    if list.len() > 0 {
                        return list[0].ip.is_some();
                    }
                }
            }
        }
    }
    false
}

/// Reads the external address off an observed service.
pub fn external_address(observed: Option<&ObservedService>) -> (address: Result<String, Error>)
    ensures
        address_view(address) == address_spec(observed_value(observed)),
{
    if let Some(service) = observed {
        if let Some(status) = &service.status {
            if let Some(balancer) = &status.load_balancer {
                if let Some(list) = &balancer.ingress {
                    if list.len() == 0 {
                        return Err(Error::IngressListEmpty);
                    }
                    return match &list[0].ip {
                        Some(ip) => Ok(ip.clone()),
                        None => Err(Error::IngressListMissing),
                    };
                }
            }
        }
    }
    Err(Error::IngressListMissing)
}

/// How the wait for the external address of one endpoint ended.
#[derive(Debug, PartialEq, Eq)]
pub enum WaitOutcome {
    /// The deadline passed before the condition held.
    Elapsed,
    /// The watch on the service failed; its description.
    ProbeFailed(String),
    /// The condition held of this observation.
    Matched(Option<ObservedService>),
}

/// The view of an address, or of the error in its place.
pub open spec fn address_view(address: Result<String, Error>) -> Result<Seq<char>, ErrorView> {
    match address {
        Ok(ip) => Ok(ip@),
        Err(e) => Err(e@),
    }
}

/// What a wait amounts to: a timeout where the deadline passed, a wait error
/// where the watch failed, and else what the matched observation holds.
pub open spec fn wait_result_spec(outcome: WaitOutcome) -> Result<Seq<char>, ErrorView> {
    match outcome {
        WaitOutcome::Elapsed => Err(ErrorView::WaitTimeout),
        WaitOutcome::ProbeFailed(description) => Err(ErrorView::WaitError { source: description@ }),
        WaitOutcome::Matched(observed) => address_spec(observed),
    }
}

/// Turns the end of a wait into the endpoint's address, or into the error
/// that stands for what went wrong.
pub fn wait_result(outcome: WaitOutcome) -> (address: Result<String, Error>)
    ensures
        address_view(address) == wait_result_spec(outcome),
{
    match outcome {
        WaitOutcome::Elapsed => Err(Error::WaitTimeout),
        WaitOutcome::ProbeFailed(description) => Err(Error::WaitError { source: description }),
        WaitOutcome::Matched(observed) => external_address(observed.as_ref()),
    }
}

/// One step of address discovery: a discovered address is recorded under its
/// key and discovery goes on; a failed unit ends discovery with its error.
pub fn record_address(addresses: &mut StringMap, unit: Result<(String, String), Error>) -> (step:
    Result<(), Error>)
    ensures
        match unit {
            Ok(entry) => step is Ok && final(addresses)@ == old(addresses)@.insert(
                entry.0@,
                entry.1@,
            ),
            Err(e) => step == Err::<(), Error>(e) && final(addresses)@ == old(addresses)@,
        },
{
    match unit {
        Ok(entry) => {
            addresses.insert(entry.0, entry.1);
            Ok(())
        },
        Err(e) => Err(e),
    }
}

/// What each unit of a run produced; meaningful where every unit succeeded.
pub open spec fn produced<T, E>(units: Seq<Result<T, E>>) -> Seq<T> {
    Seq::new(units.len(), |i: int| units[i]->Ok_0)
}

/// The address map of a whole discovery, from how its units went in the order
/// in which they completed: the first failure where a unit failed, and else
/// every discovered address under its key.
pub open spec fn discovery_spec(units: Seq<Result<(String, String), Error>>) -> Result<
    Map<Seq<char>, Seq<char>>,
    Error,
> {
    match first_failure(units) {
        Some(e) => Err(e),
        None => Ok(map_of(produced(units))),
    }
}

/// The view of a discovery's result.
pub open spec fn discovery_view(addresses: Result<StringMap, Error>) -> Result<
    Map<Seq<char>, Seq<char>>,
    Error,
> {
    match addresses {
        Ok(map) => Ok(map@),
        Err(e) => Err(e),
    }
}

/// Builds the address map of a whole discovery.
pub fn collect_addresses(units: Vec<Result<(String, String), Error>>) -> (addresses: Result<
    StringMap,
    Error,
>)
    ensures
        discovery_view(addresses) == discovery_spec(units@),
{
    match fail_fast(units) {
        Err(e) => Err(e),
        Ok(entries) => {
            assert(entries@ =~= produced(units@));
            let mut map = StringMap::new();
            for entry in it: entries
                invariant
                    it.seq() == entries@,
                    map@ == map_of(entries@.subrange(0, it.index() as int)),
            {
                proof {
                    let i = it.index() as int;
                    assert(entries@.subrange(0, i + 1).drop_last() =~= entries@.subrange(0, i));
                }
                let _ = record_address(&mut map, Ok(entry));
            }
            assert(entries@.subrange(0, entries@.len() as int) =~= entries@);
            Ok(map)
        },
    }
}

/// The names under which the listed services are deleted: each listed
/// service's own name, in listing order.
pub fn deletion_targets(listed: &Vec<ObservedService>) -> (names: Vec<String>)
    ensures
        names@.len() == listed@.len(),
        forall|i: int| 0 <= i < listed@.len() ==> (#[trigger] names@[i])@ == listed@[i].name@,
{
    let mut names: Vec<String> = Vec::new();
    let mut i: usize = 0;
    while i < listed.len()
        invariant
            i <= listed.len(),
            names@.len() == i,
            forall|j: int| 0 <= j < i ==> (#[trigger] names@[j])@ == listed@[j].name@,
        decreases listed.len() - i,
    {
        names.push(listed[i].name.clone());
        i = i + 1;
    }
    names
}

/// The one failure that stands for every failed deletion of a fleet delete;
/// it carries the description of the first.
pub open spec fn aggregate_failure_spec(description: Seq<char>) -> KubeFailureView {
    KubeFailureView::Api(
        ErrorResponseView {
            status: "Failed"@,
            message: description,
            reason: "Failed to join set while deleting load balancers"@,
            code: 418,
        },
    )
}

/// The view of a fleet delete's result.
pub open spec fn fleet_delete_view(verdict: Result<(), KubeFailure>) -> Result<
    (),
    KubeFailureView,
> {
    match verdict {
        Ok(_) => Ok(()),
        Err(failure) => Err(failure@),
    }
}

/// How a fleet delete ends, given how each deletion went, a failed one being
/// given by its description: every deletion counts, and where any failed the
/// whole fails with the one aggregate failure.
pub open spec fn fleet_delete_spec(outcomes: Seq<Result<(), String>>) -> Result<
    (),
    KubeFailureView,
> {
    match first_failure(outcomes) {
        None => Ok(()),
        Some(description) => Err(aggregate_failure_spec(description@)),
    }
}

/// Ends a fleet delete with how each deletion went.
pub fn fleet_delete_verdict(outcomes: Vec<Result<(), String>>) -> (verdict: Result<
    (),
    KubeFailure,
>)
    ensures
        fleet_delete_view(verdict) == fleet_delete_spec(outcomes@),
{
    match collect_all(outcomes) {
        Ok(_) => Ok(()),
        Err(mut failed) => {
            let description = failed.swap_remove(0);
            Err(
                KubeFailure::Api(
                    ErrorResponse {
                        status: String::from_str("Failed"),
                        message: description,
                        reason: String::from_str(
                            "Failed to join set while deleting load balancers",
                        ),
                        code: 418,
                    },
                ),
            )
        },
    }
}

/// Fail-fast discovery. Where the wait for some replica timed out and no unit
/// failed in another way, discovery fails with a timeout, whatever the other
/// replicas reported and in whatever order the units completed.
pub proof fn lemma_discovery_times_out(units: Seq<Result<(String, String), Error>>, k: int)
    requires
        0 <= k < units.len(),
        units[k] == Err::<(String, String), Error>(Error::WaitTimeout),
        forall|i: int|
            0 <= i < units.len() && units[i] is Err ==> units[i]->Err_0 == Error::WaitTimeout,
    ensures
        discovery_spec(units) == Err::<Map<Seq<char>, Seq<char>>, Error>(Error::WaitTimeout),
{
    lemma_first_failure(units);
    assert(units[k] is Err);
    let i = choose|i: int| #[trigger]
        first_failure_at(units, i) && units[i] == Err::<(String, String), Error>(
            first_failure(units)->Some_0,
        );
    assert(units[i] is Err);
}

/// A discovery in which every unit succeeded reports every address, a later
/// report for a key overriding an earlier one.
pub proof fn lemma_discovery_of_successes(units: Seq<Result<(String, String), Error>>)
    requires
        forall|i: int| 0 <= i < units.len() ==> units[i] is Ok,
    ensures
        discovery_spec(units) == Ok::<Map<Seq<char>, Seq<char>>, Error>(map_of(produced(units))),
{
    lemma_first_failure(units);
}

/// Collect-all aggregation. Where any deletion of a fleet delete failed, the
/// whole fails with the one aggregate failure: its status, reason and code
/// are fixed, and its message is the description of the first failure. No
/// individual failure is handed out in its place.
pub proof fn lemma_fleet_delete_aggregates(outcomes: Seq<Result<(), String>>, k: int)
    requires
        0 <= k < outcomes.len(),
        outcomes[k] is Err,
    ensures
        fleet_delete_spec(outcomes) is Err,
        exists|i: int| #[trigger]
            first_failure_at(outcomes, i) && fleet_delete_spec(outcomes)->Err_0
                == aggregate_failure_spec(outcomes[i]->Err_0@),
{
    lemma_first_failure(outcomes);
    let i = choose|i: int| #[trigger]
        first_failure_at(outcomes, i) && outcomes[i] == Err::<(), String>(
            first_failure(outcomes)->Some_0,
        );
    assert(first_failure_at(outcomes, i) && fleet_delete_spec(outcomes)->Err_0
        == aggregate_failure_spec(outcomes[i]->Err_0@));
}

/// A fleet delete succeeds exactly when every deletion did.
pub proof fn lemma_fleet_delete_succeeds(outcomes: Seq<Result<(), String>>)
    ensures
        fleet_delete_spec(outcomes) is Ok <==> forall|i: int|
            0 <= i < outcomes.len() ==> outcomes[i] is Ok,
{
    lemma_first_failure(outcomes);
}

/// A reconciliation's batch succeeds exactly when every unit of it did.
pub proof fn lemma_settle_succeeds(outcomes: Seq<Result<Result<(), KubeFailure>, JoinFailure>>)
    ensures
        settle_spec(outcomes) is Ok <==> forall|i: int|
            0 <= i < outcomes.len() ==> unit_verdict(#[trigger] outcomes[i]) is Ok,
{
    let verdicts = outcomes.map_values(|u| unit_verdict(u));
    lemma_first_failure(verdicts);
    if settle_spec(outcomes) is Ok {
        assert forall|i: int| 0 <= i < outcomes.len() implies unit_verdict(
            #[trigger] outcomes[i],
        ) is Ok by {
            assert(verdicts[i] is Ok);
        }
    }
    if forall|i: int| 0 <= i < outcomes.len() ==> unit_verdict(#[trigger] outcomes[i]) is Ok {
        assert forall|i: int| 0 <= i < verdicts.len() implies verdicts[i] is Ok by {
            assert(unit_verdict(outcomes[i]) is Ok);
        }
    }
}

} // verus!
