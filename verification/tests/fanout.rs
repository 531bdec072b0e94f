use ipfs_operator::fanout::{collect_all, fail_fast, fail_fast_step, joined, JoinFailure};
use ipfs_operator::Error;

#[test]
fn fail_fast_returns_every_value_when_all_succeed() {
    let outcomes: Vec<Result<u32, String>> = vec![Ok(1), Ok(2), Ok(3)];
    assert_eq!(fail_fast(outcomes), Ok(vec![1, 2, 3]));
}

#[test]
fn fail_fast_returns_the_first_failure() {
    let outcomes: Vec<Result<u32, String>> = vec![
        Ok(1),
        Err("second".to_string()),
        Ok(3),
        Err("fourth".to_string()),
    ];
    assert_eq!(fail_fast(outcomes), Err("second".to_string()));
}

#[test]
fn fail_fast_of_nothing_succeeds() {
    let outcomes: Vec<Result<u32, String>> = Vec::new();
    assert_eq!(fail_fast(outcomes), Ok(Vec::new()));
}

#[test]
fn fail_fast_step_keeps_a_success_and_stops_on_a_failure() {
    let mut values: Vec<u32> = vec![5];
    let go_on: Option<String> = fail_fast_step(&mut values, Ok(6));
    assert_eq!(go_on, None);
    assert_eq!(values, vec![5, 6]);
    let stop = fail_fast_step(&mut values, Err("no".to_string()));
    assert_eq!(stop, Some("no".to_string()));
    assert_eq!(values, vec![5, 6]);
}

#[test]
fn collect_all_returns_every_value_when_all_succeed() {
    let outcomes: Vec<Result<u32, String>> = vec![Ok(1), Ok(2)];
    assert_eq!(collect_all(outcomes), Ok(vec![1, 2]));
}

#[test]
fn collect_all_returns_every_failure_in_order() {
    let outcomes: Vec<Result<u32, String>> = vec![
        Err("a".to_string()),
        Ok(1),
        Err("b".to_string()),
        Ok(2),
        Err("c".to_string()),
    ];
    assert_eq!(
        collect_all(outcomes),
        Err(vec!["a".to_string(), "b".to_string(), "c".to_string()])
    );
}

#[test]
fn collect_all_of_nothing_succeeds() {
    let outcomes: Vec<Result<u32, String>> = Vec::new();
    assert_eq!(collect_all(outcomes), Ok(Vec::new()));
}

#[test]
fn joined_passes_a_result_through() {
    let ok: Result<Result<u32, Error>, JoinFailure> = Ok(Ok(4));
    assert_eq!(joined(ok), Ok(4));
    let failed: Result<Result<u32, Error>, JoinFailure> = Ok(Err(Error::IngressListEmpty));
    assert_eq!(joined(failed), Err(Error::IngressListEmpty));
}

#[test]
fn joined_turns_a_join_failure_into_a_join_error() {
    let aborted: Result<Result<u32, Error>, JoinFailure> = Err(JoinFailure {
        description: "task 7 panicked".to_string(),
    });
    assert_eq!(
        joined(aborted),
        Err(Error::JoinError {
            source: "task 7 panicked".to_string()
        })
    );
}
