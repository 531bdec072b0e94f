//! A model of the control plane, as far as one fleet goes, and what the
//! reconciler's decisions achieve on it.
//!
//! The control plane holds objects by name. Applying a definition puts the
//! object there under its name, whatever was there; deleting a name removes
//! the object, and is refused as "not found" where there is none.
use vstd::prelude::*;

use crate::text::{decimal, lemma_decimal_injective};
use crate::types::load_balancer::{
    after_list_spec, begin_spec, creation_batch_spec, deletion_batch_spec, endpoint_name_spec,
    fleet_delete_spec, lemma_fleet_delete_succeeds, CommandView,
};
use crate::types::service::ServiceDefinitionView;
use crate::types::{delete_outcome_spec, is_not_found};
use crate::{ActionType, KubeFailure};

verus! {

/// The endpoint objects of one cluster instance, by name.
pub type Store = Map<Seq<char>, ServiceDefinitionView>;

/// The store after `definition` was applied.
pub open spec fn applied(store: Store, definition: ServiceDefinitionView) -> Store {
    store.insert(definition.name, definition)
}

/// The store after the object `name` was deleted.
pub open spec fn deleted(store: Store, name: Seq<char>) -> Store {
    store.remove(name)
}

/// `answer` is what the control plane says to the request to delete `name`:
/// success where the object is there, "not found" where it is not.
pub open spec fn answers_delete(store: Store, name: Seq<char>, answer: Result<(), KubeFailure>) -> bool {
    if store.contains_key(name) {
        answer is Ok
    } else {
        answer is Err && is_not_found(answer->Err_0@)
    }
}

/// The store after every definition of `batch` was applied.
pub open spec fn applied_all(store: Store, batch: Seq<ServiceDefinitionView>) -> Store
    decreases batch.len(),
{
    if batch.len() == 0 {
        store
    } else {
        applied(applied_all(store, batch.drop_last()), batch.last())
    }
}

/// The store after every object named in `names` was deleted.
pub open spec fn deleted_all(store: Store, names: Seq<Seq<char>>) -> Store
    decreases names.len(),
{
    if names.len() == 0 {
        store
    } else {
        deleted(deleted_all(store, names.drop_last()), names.last())
    }
}

/// The store after the shell carried out `command` and every request of it
/// succeeded.
pub open spec fn carried_out(store: Store, command: CommandView) -> Store {
    match command {
        CommandView::List(_) => store,
        CommandView::Apply(batch) => applied_all(store, batch),
        CommandView::Delete(names) => deleted_all(store, names),
        CommandView::Finish(_) => store,
    }
}

/// The store after a reconciliation in which every request succeeded: the
/// first command is carried out, and where it is a listing, the command that
/// follows the listing of what the store holds.
pub open spec fn reconciled(
    store: Store,
    name: Seq<char>,
    namespace: Seq<char>,
    kind: Seq<char>,
    replicas: i32,
    port: i32,
    action: ActionType,
) -> Store {
    match begin_spec(name, namespace, kind, replicas, port, action) {
        CommandView::List(_) => carried_out(
            store,
            after_list_spec(name, namespace, kind, replicas, port, Ok(store.dom().len())),
        ),
        command => carried_out(store, command),
    }
}

/// The names of the endpoints of replicas `0` up to, not including, `count`.
pub open spec fn fleet_names(name: Seq<char>, count: nat) -> Set<Seq<char>> {
    Set::new(|s: Seq<char>| exists|i: nat| i < count && s == #[trigger] endpoint_name_spec(name, i))
}

/// Distinct replicas have distinct endpoint names.
pub proof fn lemma_endpoint_name_injective(name: Seq<char>, i: nat, j: nat)
    requires
        endpoint_name_spec(name, i) == endpoint_name_spec(name, j),
    ensures
        i == j,
{
    let head = name + "-p2p-"@;
    let a = head + decimal(i);
    let b = head + decimal(j);
    assert(a.subrange(head.len() as int, a.len() as int) =~= decimal(i));
    assert(b.subrange(head.len() as int, b.len() as int) =~= decimal(j));
    lemma_decimal_injective(i, j);
}

/// A fleet of `count` replicas has `count` endpoint names.
pub proof fn lemma_fleet_names_len(name: Seq<char>, count: nat)
    ensures
        fleet_names(name, count).finite(),
        fleet_names(name, count).len() == count,
    decreases count,
{
    if count == 0 {
        assert(fleet_names(name, 0) =~= Set::<Seq<char>>::empty());
    } else {
        let fewer = (count - 1) as nat;
        lemma_fleet_names_len(name, fewer);
        let top = endpoint_name_spec(name, fewer);
        assert(!fleet_names(name, fewer).contains(top)) by {
            if fleet_names(name, fewer).contains(top) {
                let i = choose|i: nat| i < fewer && top == #[trigger] endpoint_name_spec(name, i);
                lemma_endpoint_name_injective(name, i, fewer);
            }
        }
        assert(fleet_names(name, count) =~= fleet_names(name, fewer).insert(top)) by {
            assert forall|s: Seq<char>| fleet_names(name, count).contains(s) implies fleet_names(
                name,
                fewer,
            ).insert(top).contains(s) by {
                let i = choose|i: nat| i < count && s == #[trigger] endpoint_name_spec(name, i);
                if i < fewer {
                    assert(fleet_names(name, fewer).contains(s));
                }
            }
            assert forall|s: Seq<char>| fleet_names(name, fewer).insert(top).contains(
                s,
            ) implies fleet_names(name, count).contains(s) by {
                if s == top {
                    assert(s == endpoint_name_spec(name, fewer));
                } else {
                    let i = choose|i: nat| i < fewer && s == #[trigger] endpoint_name_spec(name, i);
                    assert(i < count);
                }
            }
        }
    }
}

/// The names of the definitions of a batch.
pub open spec fn names_of(batch: Seq<ServiceDefinitionView>) -> Seq<Seq<char>> {
    Seq::new(batch.len(), |i: int| batch[i].name)
}

/// Applying a batch adds the names of its definitions, and takes none away.
pub proof fn lemma_applied_all_dom(store: Store, batch: Seq<ServiceDefinitionView>, s: Seq<char>)
    ensures
        applied_all(store, batch).contains_key(s) <==> store.contains_key(s) || names_of(
            batch,
        ).contains(s),
    decreases batch.len(),
{
    if batch.len() > 0 {
        let front = batch.drop_last();
        let n = batch.len() - 1;
        lemma_applied_all_dom(store, front, s);
        assert(applied_all(store, batch) == applied(applied_all(store, front), batch.last()));
        if names_of(front).contains(s) {
            let i = choose|i: int| 0 <= i < front.len() && names_of(front)[i] == s;
            assert(names_of(batch)[i] == s);
        }
        if names_of(batch).contains(s) {
            let i = choose|i: int| 0 <= i < batch.len() && names_of(batch)[i] == s;
            if i < n {
                assert(names_of(front)[i] == s);
            } else {
                assert(batch.last().name == s);
            }
        }
        if s == batch.last().name {
            assert(names_of(batch)[n] == s);
        }
    } else {
        assert(!names_of(batch).contains(s));
    }
}

/// Deleting a batch takes the names of the batch away, and no others.
pub proof fn lemma_deleted_all_dom(store: Store, names: Seq<Seq<char>>, s: Seq<char>)
    ensures
        deleted_all(store, names).contains_key(s) <==> store.contains_key(s) && !names.contains(s),
    decreases names.len(),
{
    if names.len() > 0 {
        let front = names.drop_last();
        let n = names.len() - 1;
        lemma_deleted_all_dom(store, front, s);
        assert(deleted_all(store, names) == deleted(deleted_all(store, front), names.last()));
        if front.contains(s) {
            let i = choose|i: int| 0 <= i < front.len() && front[i] == s;
            assert(names[i] == s);
        }
        if names.contains(s) {
            let i = choose|i: int| 0 <= i < names.len() && names[i] == s;
            if i < n {
                assert(front[i] == s);
            } else {
                assert(names.last() == s);
            }
        }
        if s == names.last() {
            assert(names[n] == s);
        }
    } else {
        assert(!names.contains(s));
    }
}

/// Convergence. A re-sync of a fleet whose endpoints are those of replicas
/// `0..existing`, in which every request succeeds, leaves exactly the
/// endpoints of replicas `0..replicas`.
pub proof fn lemma_update_converges(
    store: Store,
    name: Seq<char>,
    namespace: Seq<char>,
    kind: Seq<char>,
    existing: nat,
    replicas: i32,
    port: i32,
)
    requires
        replicas >= 0,
        store.dom() == fleet_names(name, existing),
    ensures
        reconciled(store, name, namespace, kind, replicas, port, ActionType::Update).dom()
            == fleet_names(name, replicas as nat),
{
    let desired = replicas as nat;
    lemma_fleet_names_len(name, existing);
    let after = reconciled(store, name, namespace, kind, replicas, port, ActionType::Update);
    if existing > desired {
        let names = deletion_batch_spec(name, desired, existing);
        assert forall|s: Seq<char>| after.contains_key(s) <==> fleet_names(name, desired).contains(
            s,
        ) by {
            lemma_deleted_all_dom(store, names, s);
            if after.contains_key(s) {
                assert(store.dom().contains(s));
                let i = choose|i: nat| i < existing && s == #[trigger] endpoint_name_spec(name, i);
                if i >= desired {
                    assert(names[i - desired] == s);
                }
            }
            if fleet_names(name, desired).contains(s) {
                let i = choose|i: nat| i < desired && s == #[trigger] endpoint_name_spec(name, i);
                assert(i < existing);
                assert(store.dom().contains(s));
                if names.contains(s) {
                    let k = choose|k: int| 0 <= k < names.len() && names[k] == s;
                    lemma_endpoint_name_injective(name, i, (desired + k) as nat);
                }
            }
        }
        assert(after.dom() =~= fleet_names(name, desired));
    } else if existing < desired {
        let batch = creation_batch_spec(name, namespace, kind, port, existing, desired);
        assert forall|s: Seq<char>| after.contains_key(s) <==> fleet_names(name, desired).contains(
            s,
        ) by {
            lemma_applied_all_dom(store, batch, s);
            if after.contains_key(s) {
                if store.contains_key(s) {
                    assert(store.dom().contains(s));
                    let i = choose|i: nat|
                        i < existing && s == #[trigger] endpoint_name_spec(name, i);
                    assert(i < desired);
                } else {
                    let k = choose|k: int| 0 <= k < batch.len() && names_of(batch)[k] == s;
                    assert(s == endpoint_name_spec(name, (existing + k) as nat));
                }
            }
            if fleet_names(name, desired).contains(s) {
                let i = choose|i: nat| i < desired && s == #[trigger] endpoint_name_spec(name, i);
                if i < existing {
                    assert(store.dom().contains(s));
                } else {
                    assert(names_of(batch)[i - existing] == s);
                }
            }
        }
        assert(after.dom() =~= fleet_names(name, desired));
    }
}

/// Convergence needs a fleet without gaps or strangers: a re-sync in which
/// every request succeeds ends with exactly the endpoints of replicas
/// `0..replicas` only where it began with exactly those of replicas
/// `0..n`, for the `n` that the listing counted.
pub proof fn lemma_update_converges_only_from_a_prefix(
    store: Store,
    name: Seq<char>,
    namespace: Seq<char>,
    kind: Seq<char>,
    replicas: i32,
    port: i32,
)
    requires
        replicas >= 0,
        store.dom().finite(),
        reconciled(store, name, namespace, kind, replicas, port, ActionType::Update).dom()
            == fleet_names(name, replicas as nat),
    ensures
        store.dom() == fleet_names(name, store.dom().len()),
{
    let desired = replicas as nat;
    let existing = store.dom().len();
    let after = reconciled(store, name, namespace, kind, replicas, port, ActionType::Update);
    let whole = fleet_names(name, existing);
    lemma_fleet_names_len(name, existing);
    if existing > desired {
        let names = deletion_batch_spec(name, desired, existing);
        assert forall|s: Seq<char>| store.dom().contains(s) implies whole.contains(s) by {
            lemma_deleted_all_dom(store, names, s);
            if names.contains(s) {
                let k = choose|k: int| 0 <= k < names.len() && names[k] == s;
                assert(s == endpoint_name_spec(name, (desired + k) as nat));
            } else {
                assert(after.dom().contains(s));
                let i = choose|i: nat| i < desired && s == #[trigger] endpoint_name_spec(name, i);
                assert(i < existing);
            }
        }
        assert(store.dom().subset_of(whole));
        vstd::set_lib::lemma_subset_equality(store.dom(), whole);
    } else if existing < desired {
        let batch = creation_batch_spec(name, namespace, kind, port, existing, desired);
        assert forall|s: Seq<char>| whole.contains(s) implies store.dom().contains(s) by {
            lemma_applied_all_dom(store, batch, s);
            let i = choose|i: nat| i < existing && s == #[trigger] endpoint_name_spec(name, i);
            assert(i < desired);
            assert(fleet_names(name, desired).contains(s));
            assert(after.contains_key(s));
            if names_of(batch).contains(s) {
                let k = choose|k: int| 0 <= k < batch.len() && names_of(batch)[k] == s;
                lemma_endpoint_name_injective(name, i, (existing + k) as nat);
            }
        }
        assert(whole.subset_of(store.dom()));
        vstd::set_lib::lemma_subset_equality(whole, store.dom());
    }
}

/// Idempotent delete. Deleting an object that is not there changes nothing
/// and, once the answer went through the deletion rule, is no error.
pub proof fn lemma_delete_absent_succeeds(
    store: Store,
    name: Seq<char>,
    answer: Result<(), KubeFailure>,
)
    requires
        !store.contains_key(name),
        answers_delete(store, name, answer),
    ensures
        deleted(store, name) == store,
        delete_outcome_spec(answer) is Ok,
{
    assert(deleted(store, name) =~= store);
}

/// Deleting twice is deleting once: the second answer, whatever the first
/// was, amounts to success and leaves the store as the first left it.
pub proof fn lemma_delete_twice(
    store: Store,
    name: Seq<char>,
    first: Result<(), KubeFailure>,
    second: Result<(), KubeFailure>,
)
    requires
        answers_delete(store, name, first),
        answers_delete(deleted(store, name), name, second),
    ensures
        delete_outcome_spec(first) is Ok,
        delete_outcome_spec(second) is Ok,
        deleted(deleted(store, name), name) == deleted(store, name),
{
    assert(deleted(deleted(store, name), name) =~= deleted(store, name));
}

/// Deleting a fleet again is no error: where every member of the listing is
/// either still there or already gone, every deletion amounts to success, and
/// so does the fleet delete.
pub proof fn lemma_fleet_delete_again(
    answers: Seq<Result<(), KubeFailure>>,
    outcomes: Seq<Result<(), String>>,
)
    requires
        outcomes.len() == answers.len(),
        forall|i: int|
            0 <= i < answers.len() ==> (#[trigger] answers[i]) is Ok || is_not_found(
                answers[i]->Err_0@,
            ),
        forall|i: int|
            0 <= i < answers.len() ==> ((#[trigger] outcomes[i]) is Ok <==> delete_outcome_spec(
                answers[i],
            ) is Ok),
    ensures
        fleet_delete_spec(outcomes) is Ok,
{
    lemma_fleet_delete_succeeds(outcomes);
    assert forall|i: int| 0 <= i < outcomes.len() implies outcomes[i] is Ok by {
        assert(answers[i] is Ok || is_not_found(answers[i]->Err_0@));
    }
}

/// Idempotent apply. Applying a definition a second time leaves the store as
/// the first application left it, and the object observed under the
/// definition's name is the definition both times.
pub proof fn lemma_apply_twice(store: Store, definition: ServiceDefinitionView)
    ensures
        applied(applied(store, definition), definition) == applied(store, definition),
        applied(store, definition)[definition.name] == definition,
        applied(applied(store, definition), definition)[definition.name] == definition,
{
    assert(applied(applied(store, definition), definition) =~= applied(store, definition));
}

} // verus!
