use rmcp::model::CreateMessageRequestParams;
use sampling_approval::routes::sampling::SamplingRequest;
use sampling_approval::state::{AppState, RegistryError};
use tokio::sync::oneshot::error::TryRecvError;

fn request(id: &str) -> SamplingRequest {
    SamplingRequest {
        id: id.to_string(),
        extension_name: "developer".to_string(),
        params: CreateMessageRequestParams::new(Vec::new(), 64),
    }
}

fn pending_ids(state: &AppState) -> Vec<String> {
    let mut ids: Vec<String> =
        state.get_pending_sampling_requests().into_iter().map(|r| r.id).collect();
    ids.sort();
    ids
}

#[test]
fn approval_reaches_the_waiter() {
    let mut state = AppState::new();
    let mut rx = state.add_sampling_request(request("r1")).ok().unwrap();
    assert_eq!(rx.try_recv(), Err(TryRecvError::Empty));
    assert!(state.respond_to_sampling_request("r1", true).is_ok());
    assert_eq!(rx.try_recv(), Ok(true));
}

#[test]
fn rejection_reaches_the_waiter() {
    let mut state = AppState::new();
    let rx = state.add_sampling_request(request("r1")).ok().unwrap();
    assert!(state.respond_to_sampling_request("r1", false).is_ok());
    assert_eq!(rx.blocking_recv().ok(), Some(false));
}

#[test]
fn unknown_id_is_not_found_and_changes_nothing() {
    let mut state = AppState::new();
    let mut rx = state.add_sampling_request(request("a")).ok().unwrap();
    match state.respond_to_sampling_request("nope", true) {
        Err(RegistryError::NotFound(id)) => assert_eq!(id, "nope"),
        _ => panic!("expected NotFound"),
    }
    assert_eq!(pending_ids(&state), vec!["a".to_string()]);
    assert_eq!(rx.try_recv(), Err(TryRecvError::Empty));
}

#[test]
fn unknown_id_on_an_empty_registry() {
    let mut state = AppState::new();
    assert!(matches!(
        state.respond_to_sampling_request("", false),
        Err(RegistryError::NotFound(_))
    ));
    assert!(state.get_pending_sampling_requests().is_empty());
}

#[test]
fn second_resolution_is_not_found() {
    let mut state = AppState::new();
    let mut rx = state.add_sampling_request(request("r1")).ok().unwrap();
    assert!(state.respond_to_sampling_request("r1", true).is_ok());
    match state.respond_to_sampling_request("r1", false) {
        Err(RegistryError::NotFound(id)) => assert_eq!(id, "r1"),
        _ => panic!("expected NotFound"),
    }
    assert_eq!(rx.try_recv(), Ok(true));
    assert_eq!(rx.try_recv(), Err(TryRecvError::Closed));
}

#[test]
fn list_holds_what_is_left() {
    let mut state = AppState::new();
    let _a = state.add_sampling_request(request("a")).ok().unwrap();
    let _b = state.add_sampling_request(request("b")).ok().unwrap();
    assert_eq!(pending_ids(&state), vec!["a".to_string(), "b".to_string()]);
    assert!(state.respond_to_sampling_request("a", true).is_ok());
    let listed = state.get_pending_sampling_requests();
    assert_eq!(listed.len(), 1);
    assert_eq!(listed[0].id, "b");
    assert_eq!(listed[0].extension_name, "developer");
}

#[test]
fn list_of_a_new_state_is_empty() {
    let state = AppState::new();
    assert!(state.get_pending_sampling_requests().is_empty());
}

#[test]
fn listed_request_equals_the_registered_one() {
    let mut state = AppState::new();
    let params = CreateMessageRequestParams::new(Vec::new(), 512)
        .with_system_prompt("be brief")
        .with_stop_sequences(vec!["END".to_string()]);
    let given = SamplingRequest {
        id: "x".to_string(),
        extension_name: "memory".to_string(),
        params: params.clone(),
    };
    let _rx = state.add_sampling_request(given).ok().unwrap();
    let listed = state.get_pending_sampling_requests();
    assert_eq!(listed.len(), 1);
    assert_eq!(listed[0].id, "x");
    assert_eq!(listed[0].extension_name, "memory");
    assert_eq!(listed[0].params, params);
    assert_eq!(listed[0].params.max_tokens, 512);
}

#[test]
fn clone_of_a_request_keeps_every_field() {
    let given = SamplingRequest {
        id: "x".to_string(),
        extension_name: "memory".to_string(),
        params: CreateMessageRequestParams::new(Vec::new(), 7).with_system_prompt("p"),
    };
    let copy = given.clone();
    assert_eq!(copy.id, given.id);
    assert_eq!(copy.extension_name, given.extension_name);
    assert_eq!(copy.params, given.params);
}

#[test]
fn duplicate_id_is_refused() {
    let mut state = AppState::new();
    let mut first = state.add_sampling_request(request("dup")).ok().unwrap();
    match state.add_sampling_request(request("dup")) {
        Err(RegistryError::DuplicateId(id)) => assert_eq!(id, "dup"),
        _ => panic!("expected DuplicateId"),
    }
    assert_eq!(pending_ids(&state), vec!["dup".to_string()]);
    assert!(state.respond_to_sampling_request("dup", true).is_ok());
    assert_eq!(first.try_recv(), Ok(true));
}

#[test]
fn id_can_be_used_again_after_resolution() {
    let mut state = AppState::new();
    let _first = state.add_sampling_request(request("again")).ok().unwrap();
    assert!(state.respond_to_sampling_request("again", false).is_ok());
    let mut second = state.add_sampling_request(request("again")).ok().unwrap();
    assert!(state.respond_to_sampling_request("again", true).is_ok());
    assert_eq!(second.try_recv(), Ok(true));
}

#[test]
fn dropped_producer_closes_the_channel() {
    let mut state = AppState::new();
    let mut rx = state.add_sampling_request(request("r1")).ok().unwrap();
    drop(state);
    assert_eq!(rx.try_recv(), Err(TryRecvError::Closed));
}

#[test]
fn withdrawal_closes_the_channel() {
    let mut state = AppState::new();
    let rx = state.add_sampling_request(request("gone")).ok().unwrap();
    let _kept = state.add_sampling_request(request("kept")).ok().unwrap();
    let withdrawn = state.withdraw_sampling_request("gone").ok().unwrap();
    assert_eq!(withdrawn.id, "gone");
    assert!(rx.blocking_recv().is_err());
    assert_eq!(pending_ids(&state), vec!["kept".to_string()]);
    assert!(matches!(
        state.withdraw_sampling_request("gone"),
        Err(RegistryError::NotFound(_))
    ));
    assert!(matches!(
        state.respond_to_sampling_request("gone", true),
        Err(RegistryError::NotFound(_))
    ));
}

#[test]
fn every_waiter_is_resolved_once() {
    let n: usize = 64;
    let mut state = AppState::new();
    let mut waiters = Vec::new();
    for i in 0..n {
        let rx = state.add_sampling_request(request(&format!("req-{i}"))).ok().unwrap();
        waiters.push(rx);
    }
    assert_eq!(state.get_pending_sampling_requests().len(), n);
    // 37 is coprime to 64, so this visits every index once, out of order.
    for k in 0..n {
        let i = (k * 37 + 11) % n;
        assert!(state.respond_to_sampling_request(&format!("req-{i}"), i % 3 == 0).is_ok());
    }
    assert!(state.get_pending_sampling_requests().is_empty());
    for (i, rx) in waiters.iter_mut().enumerate() {
        assert_eq!(rx.try_recv(), Ok(i % 3 == 0));
        assert_eq!(rx.try_recv(), Err(TryRecvError::Closed));
    }
    for i in 0..n {
        assert!(matches!(
            state.respond_to_sampling_request(&format!("req-{i}"), true),
            Err(RegistryError::NotFound(_))
        ));
    }
}

#[test]
fn resolution_leaves_other_waiters_waiting() {
    let mut state = AppState::new();
    let mut a = state.add_sampling_request(request("a")).ok().unwrap();
    let mut b = state.add_sampling_request(request("b")).ok().unwrap();
    assert!(state.respond_to_sampling_request("b", false).is_ok());
    assert_eq!(a.try_recv(), Err(TryRecvError::Empty));
    assert_eq!(b.try_recv(), Ok(false));
}

#[test]
fn resolution_succeeds_though_the_waiter_gave_up() {
    let mut state = AppState::new();
    let rx = state.add_sampling_request(request("r1")).ok().unwrap();
    drop(rx);
    assert!(state.respond_to_sampling_request("r1", true).is_ok());
    assert!(state.get_pending_sampling_requests().is_empty());
}

#[test]
fn registry_error_messages() {
    assert_eq!(
        RegistryError::NotFound("abc".to_string()).message(),
        "Sampling request not found: abc"
    );
    assert_eq!(
        RegistryError::DuplicateId("abc".to_string()).message(),
        "Sampling request already pending: abc"
    );
}

#[test]
fn recipe_run_is_marked_once() {
    let mut state = AppState::new();
    assert!(state.mark_recipe_run_if_absent("s1"));
    assert!(!state.mark_recipe_run_if_absent("s1"));
    assert!(state.mark_recipe_run_if_absent("s2"));
    assert!(!state.mark_recipe_run_if_absent("s2"));
    assert!(!state.mark_recipe_run_if_absent("s1"));
}

#[test]
fn recipe_files_can_be_replaced() {
    let mut state = AppState::new();
    let mut files = std::collections::HashMap::new();
    files.insert("h1".to_string(), std::path::PathBuf::from("/recipes/one.yaml"));
    state.set_recipe_file_hash_map(files);
    assert!(state.mark_recipe_run_if_absent("s1"));
    assert!(state.get_pending_sampling_requests().is_empty());
}

#[test]
fn recipe_files_are_kept_as_given() {
    let mut state = AppState::new();
    assert!(state.recipe_file_hash_map().is_empty());
    let mut files = std::collections::HashMap::new();
    files.insert("h1".to_string(), std::path::PathBuf::from("/recipes/one.yaml"));
    files.insert("h2".to_string(), std::path::PathBuf::from("/recipes/two.yaml"));
    state.set_recipe_file_hash_map(files.clone());
    assert_eq!(state.recipe_file_hash_map(), &files);
    state.set_recipe_file_hash_map(std::collections::HashMap::new());
    assert!(state.recipe_file_hash_map().is_empty());
}

#[test]
fn refused_registration_leaves_the_first_waiter_waiting() {
    let mut state = AppState::new();
    let mut first = state.add_sampling_request(request("d")).ok().unwrap();
    assert!(matches!(
        state.add_sampling_request(request("d")),
        Err(RegistryError::DuplicateId(_))
    ));
    assert_eq!(first.try_recv(), Err(TryRecvError::Empty));
    assert_eq!(state.get_pending_sampling_requests().len(), 1);
    assert!(state.respond_to_sampling_request("d", true).is_ok());
    assert_eq!(first.try_recv(), Ok(true));
}
