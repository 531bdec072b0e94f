//! Fan-in of concurrent units of work. The shell runs the units and hands
//! their results over in the order in which they completed; the two policies
//! below say what the whole amounts to.
use vstd::prelude::*;

use crate::Error;

verus! {

/// A unit of work that ended without producing a result (it panicked or was
/// cancelled); only its description is kept.
#[derive(Debug, PartialEq, Eq)]
pub struct JoinFailure {
    pub description: String,
}

/// What a joined unit amounts to: its own result, or a join failure where it
/// produced none.
pub open spec fn joined_spec<T>(unit: Result<Result<T, Error>, JoinFailure>) -> Result<T, Error> {
    match unit {
        Ok(result) => result,
        Err(failure) => Err(Error::JoinError { source: failure.description }),
    }
}

/// Flattens the result of joining one unit.
pub fn joined<T>(unit: Result<Result<T, Error>, JoinFailure>) -> (result: Result<T, Error>)
    ensures
        result == joined_spec(unit),
{
    match unit {
        Ok(result) => result,
        Err(failure) => Err(Error::JoinError { source: failure.description }),
    }
}

/// Position `i` holds the first failure of `outcomes`.
pub open spec fn first_failure_at<T, E>(outcomes: Seq<Result<T, E>>, i: int) -> bool {
    &&& 0 <= i < outcomes.len()
    &&& outcomes[i] is Err
    &&& forall|j: int| 0 <= j < i ==> outcomes[j] is Ok
}

/// The failure of the first unit of `outcomes` that failed, if any did.
pub open spec fn first_failure<T, E>(outcomes: Seq<Result<T, E>>) -> Option<E>
    decreases outcomes.len(),
{
    if outcomes.len() == 0 {
        None
    } else {
        match outcomes.first() {
            Err(e) => Some(e),
            Ok(_) => first_failure(outcomes.drop_first()),
        }
    }
}

/// `first_failure` is what its name says: it is there exactly when some unit
/// failed, and it is the failure of the unit before which none failed.
pub proof fn lemma_first_failure<T, E>(outcomes: Seq<Result<T, E>>)
    ensures
        first_failure(outcomes) is None <==> forall|i: int|
            0 <= i < outcomes.len() ==> outcomes[i] is Ok,
        first_failure(outcomes) is Some ==> exists|i: int| #[trigger]
            first_failure_at(outcomes, i) && outcomes[i] == Err::<T, E>(
                first_failure(outcomes)->Some_0,
            ),
        forall|i: int| #[trigger]
            first_failure_at(outcomes, i) ==> outcomes[i] == Err::<T, E>(
                first_failure(outcomes)->Some_0,
            ) && first_failure(outcomes) is Some,
    decreases outcomes.len(),
{
    if outcomes.len() > 0 {
        let rest = outcomes.drop_first();
        lemma_first_failure(rest);
        match outcomes.first() {
            Err(e) => {
                assert(outcomes[0] is Err);
                assert(first_failure_at(outcomes, 0));
                assert forall|i: int| #[trigger] first_failure_at(outcomes, i) implies i == 0 by {
                    if i > 0 {
                        assert(outcomes[0] is Ok);
                    }
                }
            },
            Ok(_) => {
                if first_failure(outcomes) is None {
                    assert forall|i: int| 0 <= i < outcomes.len() implies outcomes[i] is Ok by {
                        if i > 0 {
                            assert(rest[i - 1] is Ok);
                        }
                    }
                }
                if forall|i: int| 0 <= i < outcomes.len() ==> outcomes[i] is Ok {
                    assert forall|i: int| 0 <= i < rest.len() implies rest[i] is Ok by {
                        assert(outcomes[i + 1] is Ok);
                    }
                }
                if first_failure(outcomes) is Some {
                    let i = choose|i: int| #[trigger]
                        first_failure_at(rest, i) && rest[i] == Err::<T, E>(
                            first_failure(rest)->Some_0,
                        );
                    assert forall|j: int| 0 <= j < i + 1 implies outcomes[j] is Ok by {
                        if j > 0 {
                            assert(rest[j - 1] is Ok);
                        }
                    }
                    assert(outcomes[i + 1] == rest[i]);
                    assert(first_failure_at(outcomes, i + 1));
                }
                assert forall|i: int| #[trigger] first_failure_at(outcomes, i) implies outcomes[i]
                    == Err::<T, E>(first_failure(outcomes)->Some_0) && first_failure(
                    outcomes,
                ) is Some by {
                    assert(i > 0);
                    assert forall|j: int| 0 <= j < i - 1 implies rest[j] is Ok by {
                        assert(outcomes[j + 1] is Ok);
                    }
                    assert(rest[i - 1] == outcomes[i]);
                    assert(first_failure_at(rest, i - 1));
                }
            },
        }
    }
}

/// Every unit of `outcomes` succeeded, and `values` holds what they produced,
/// in the same order.
pub open spec fn all_succeeded<T, E>(outcomes: Seq<Result<T, E>>, values: Seq<T>) -> bool {
    &&& values.len() == outcomes.len()
    &&& forall|i: int| 0 <= i < outcomes.len() ==> outcomes[i] == Ok::<T, E>(#[trigger] values[i])
}

/// The failures among `outcomes`, in order.
pub open spec fn failures<T, E>(outcomes: Seq<Result<T, E>>) -> Seq<E>
    decreases outcomes.len(),
{
    if outcomes.len() == 0 {
        Seq::empty()
    } else {
        match outcomes.last() {
            Ok(_) => failures(outcomes.drop_last()),
            Err(e) => failures(outcomes.drop_last()).push(e),
        }
    }
}

/// There is no failure exactly when every unit succeeded; and where there is
/// one, the list of failures starts with the first.
pub proof fn lemma_failures<T, E>(outcomes: Seq<Result<T, E>>)
    ensures
        failures(outcomes).len() <= outcomes.len(),
        failures(outcomes).len() == 0 <==> forall|i: int|
            0 <= i < outcomes.len() ==> outcomes[i] is Ok,
        forall|i: int| #[trigger]
            first_failure_at(outcomes, i) ==> failures(outcomes).len() > 0 && outcomes[i] == Err::<
                T,
                E,
            >(failures(outcomes)[0]),
    decreases outcomes.len(),
{
    if outcomes.len() > 0 {
        let front = outcomes.drop_last();
        lemma_failures(front);
        let n = outcomes.len() - 1;
        if failures(outcomes).len() == 0 {
            assert forall|i: int| 0 <= i < outcomes.len() implies outcomes[i] is Ok by {
                if i < n {
                    assert(front[i] is Ok);
                }
            }
        }
        if forall|i: int| 0 <= i < outcomes.len() ==> outcomes[i] is Ok {
            assert(outcomes[n] is Ok);
            assert forall|i: int| 0 <= i < front.len() implies front[i] is Ok by {
                assert(outcomes[i] is Ok);
            }
        }
        assert forall|i: int| #[trigger] first_failure_at(outcomes, i) implies failures(
            outcomes,
        ).len() > 0 && outcomes[i] == Err::<T, E>(failures(outcomes)[0]) by {
            if i < n {
                assert forall|j: int| 0 <= j < i implies front[j] is Ok by {
                    assert(outcomes[j] is Ok);
                }
                assert(first_failure_at(front, i));
            } else {
                assert forall|j: int| 0 <= j < front.len() implies front[j] is Ok by {
                    assert(outcomes[j] is Ok);
                }
                assert(failures(front).len() == 0);
            }
        }
    }
}

/// One step of the fail-fast policy: a success is kept and the run goes on, a
/// failure is handed back and ends the run.
pub fn fail_fast_step<T, E>(values: &mut Vec<T>, unit: Result<T, E>) -> (stop: Option<E>)
    ensures
        match unit {
            Ok(v) => stop is None && final(values)@ == old(values)@.push(v),
            Err(e) => stop == Some(e) && final(values)@ == old(values)@,
        },
{
    match unit {
        Ok(v) => {
            values.push(v);
            None
        },
        Err(e) => Some(e),
    }
}

/// The fail-fast policy over a whole run: the first failure, if there is one,
/// and else what every unit produced.
pub fn fail_fast<T, E>(outcomes: Vec<Result<T, E>>) -> (verdict: Result<Vec<T>, E>)
    ensures
        match verdict {
            Ok(values) => first_failure(outcomes@) is None && all_succeeded(outcomes@, values@),
            Err(e) => first_failure(outcomes@) == Some(e),
        },
{
    proof {
        lemma_first_failure(outcomes@);
    }
    let mut values: Vec<T> = Vec::new();
    for unit in it: outcomes
        invariant
            it.seq() == outcomes@,
            all_succeeded(outcomes@.subrange(0, it.index() as int), values@),
            forall|i: int| #[trigger]
                first_failure_at(outcomes@, i) ==> outcomes@[i] == Err::<T, E>(
                    first_failure(outcomes@)->Some_0,
                ) && first_failure(outcomes@) is Some,
            first_failure(outcomes@) is None <==> forall|i: int|
                0 <= i < outcomes@.len() ==> outcomes@[i] is Ok,
    {
        let ghost i = it.index() as int;
        let ghost before = values@;
        match fail_fast_step(&mut values, unit) {
            None => {
                assert(all_succeeded(outcomes@.subrange(0, i + 1), values@)) by {
                    assert forall|j: int| 0 <= j < i + 1 implies outcomes@.subrange(0, i + 1)[j]
                        == Ok::<T, E>(#[trigger] values@[j]) by {
                        if j < i {
                            assert(outcomes@.subrange(0, i)[j] == Ok::<T, E>(before[j]));
                        }
                    }
                }
            },
            Some(e) => {
                proof {
                    assert forall|j: int| 0 <= j < i implies outcomes@[j] is Ok by {
                        assert(outcomes@.subrange(0, i)[j] == Ok::<T, E>(before[j]));
                    }
                    assert(first_failure_at(outcomes@, i));
                }
                return Err(e);
            },
        }
    }
    assert(outcomes@.subrange(0, outcomes@.len() as int) =~= outcomes@);
    assert forall|i: int| 0 <= i < outcomes@.len() implies outcomes@[i] is Ok by {
        assert(outcomes@[i] == Ok::<T, E>(values@[i]));
    }
    Ok(values)
}

/// The collect-all policy: every unit is taken into account. What the units
/// produced, if all succeeded; else every failure, in order.
pub fn collect_all<T, E>(outcomes: Vec<Result<T, E>>) -> (verdict: Result<Vec<T>, Vec<E>>)
    ensures
        match verdict {
            Ok(values) => first_failure(outcomes@) is None && all_succeeded(outcomes@, values@),
            Err(failed) => failed@ == failures(outcomes@) && failed@.len() > 0 && first_failure(
                outcomes@,
            ) == Some(failed@[0]),
        },
{
    let mut values: Vec<T> = Vec::new();
    let mut failed: Vec<E> = Vec::new();
    for unit in it: outcomes
        invariant
            it.seq() == outcomes@,
            failed@ == failures(outcomes@.subrange(0, it.index() as int)),
            failed@.len() == 0 ==> all_succeeded(
                outcomes@.subrange(0, it.index() as int),
                values@,
            ),
    {
        let ghost i = it.index() as int;
        let ghost before = values@;
        proof {
            assert(outcomes@.subrange(0, i + 1).drop_last() =~= outcomes@.subrange(0, i));
        }
        match unit {
            Ok(v) => {
                values.push(v);
                proof {
                    if failed@.len() == 0 {
                        assert forall|j: int| 0 <= j < i + 1 implies outcomes@.subrange(
                            0,
                            i + 1,
                        )[j] == Ok::<T, E>(#[trigger] values@[j]) by {
                            if j < i {
                                assert(outcomes@.subrange(0, i)[j] == Ok::<T, E>(before[j]));
                            }
                        }
                    }
                }
            },
            Err(e) => {
                failed.push(e);
            },
        }
    }
    assert(outcomes@.subrange(0, outcomes@.len() as int) =~= outcomes@);
    proof {
        lemma_first_failure(outcomes@);
        lemma_failures(outcomes@);
    }
    if failed.len() == 0 {
        Ok(values)
    } else {
        Err(failed)
    }
}

} // verus!
