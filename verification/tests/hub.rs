use rmcp::model::CreateMessageRequestParams;
use sampling_approval::routes::sampling::SamplingRequest;
use sampling_approval::state::{AppState, HUB_CAPACITY};
use tokio::sync::broadcast::error::TryRecvError;

fn request(id: &str) -> SamplingRequest {
    SamplingRequest {
        id: id.to_string(),
        extension_name: "developer".to_string(),
        params: CreateMessageRequestParams::new(Vec::new(), 64),
    }
}

#[test]
fn subscriber_is_told_of_a_later_registration() {
    let mut state = AppState::new();
    let mut observer = state.subscribe_to_sampling_requests();
    let _rx = state.add_sampling_request(request("x")).ok().unwrap();
    let told = observer.try_recv().ok().unwrap();
    assert_eq!(told.id, "x");
    assert_eq!(told.extension_name, "developer");
    assert_eq!(told.params, CreateMessageRequestParams::new(Vec::new(), 64));
    assert!(matches!(observer.try_recv(), Err(TryRecvError::Empty)));
}

#[test]
fn late_subscriber_is_told_nothing_of_the_past() {
    let mut state = AppState::new();
    let _rx = state.add_sampling_request(request("x")).ok().unwrap();
    assert!(state.respond_to_sampling_request("x", true).is_ok());
    let mut observer = state.subscribe_to_sampling_requests();
    assert!(matches!(observer.try_recv(), Err(TryRecvError::Empty)));
}

#[test]
fn subscriber_between_registration_and_resolution_is_told_nothing() {
    let mut state = AppState::new();
    let _rx = state.add_sampling_request(request("x")).ok().unwrap();
    let mut observer = state.subscribe_to_sampling_requests();
    assert!(state.respond_to_sampling_request("x", false).is_ok());
    assert!(matches!(observer.try_recv(), Err(TryRecvError::Empty)));
}

#[test]
fn every_subscriber_is_told_in_the_order_of_registration() {
    let mut state = AppState::new();
    let mut first = state.subscribe_to_sampling_requests();
    let mut second = state.subscribe_to_sampling_requests();
    let _a = state.add_sampling_request(request("a")).ok().unwrap();
    let _b = state.add_sampling_request(request("b")).ok().unwrap();
    assert_eq!(first.try_recv().ok().unwrap().id, "a");
    assert_eq!(first.try_recv().ok().unwrap().id, "b");
    assert_eq!(second.try_recv().ok().unwrap().id, "a");
    assert_eq!(second.try_recv().ok().unwrap().id, "b");
}

#[test]
fn registration_without_subscribers_succeeds() {
    let mut state = AppState::new();
    let mut rx = state.add_sampling_request(request("alone")).ok().unwrap();
    assert_eq!(state.get_pending_sampling_requests().len(), 1);
    assert!(state.respond_to_sampling_request("alone", true).is_ok());
    assert_eq!(rx.try_recv(), Ok(true));
}

#[test]
fn refused_registration_is_not_announced() {
    let mut state = AppState::new();
    let _rx = state.add_sampling_request(request("dup")).ok().unwrap();
    let mut observer = state.subscribe_to_sampling_requests();
    assert!(state.add_sampling_request(request("dup")).is_err());
    assert!(matches!(observer.try_recv(), Err(TryRecvError::Empty)));
}

#[test]
fn idle_subscriber_does_not_hold_up_decisions() {
    let mut state = AppState::new();
    let mut idle = state.subscribe_to_sampling_requests();
    let n = HUB_CAPACITY * 3;
    let mut waiters = Vec::new();
    for i in 0..n {
        waiters.push(state.add_sampling_request(request(&format!("r{i}"))).ok().unwrap());
    }
    for i in 0..n {
        assert!(state.respond_to_sampling_request(&format!("r{i}"), i % 2 == 0).is_ok());
    }
    for (i, rx) in waiters.iter_mut().enumerate() {
        assert_eq!(rx.try_recv(), Ok(i % 2 == 0));
    }
    // The idle subscriber lost the oldest notifications and nothing else.
    match idle.try_recv() {
        Err(TryRecvError::Lagged(missed)) => assert!(missed > 0),
        _ => panic!("expected the subscriber to have fallen behind"),
    }
    assert!(idle.try_recv().is_ok());
}

#[test]
fn hub_keeps_a_hundred_notifications() {
    assert_eq!(HUB_CAPACITY, 100);
    let mut state = AppState::new();
    let mut observer = state.subscribe_to_sampling_requests();
    for i in 0..HUB_CAPACITY {
        let _ = state.add_sampling_request(request(&format!("r{i}"))).ok().unwrap();
    }
    for i in 0..HUB_CAPACITY {
        assert_eq!(observer.try_recv().ok().unwrap().id, format!("r{i}"));
    }
    assert!(matches!(observer.try_recv(), Err(TryRecvError::Empty)));
}

#[test]
fn subscriber_is_told_of_what_comes_after_it_only() {
    let mut state = AppState::new();
    let _a = state.add_sampling_request(request("a")).ok().unwrap();
    let _b = state.add_sampling_request(request("b")).ok().unwrap();
    let mut observer = state.subscribe_to_sampling_requests();
    let _c = state.add_sampling_request(request("c")).ok().unwrap();
    assert_eq!(observer.try_recv().ok().unwrap().id, "c");
    assert!(matches!(observer.try_recv(), Err(TryRecvError::Empty)));
}

#[test]
fn subscribers_of_two_states_are_told_apart() {
    let mut first = AppState::new();
    let mut second = AppState::new();
    let mut on_first = first.subscribe_to_sampling_requests();
    let mut on_second = second.subscribe_to_sampling_requests();
    let _a = first.add_sampling_request(request("a")).ok().unwrap();
    assert_eq!(on_first.try_recv().ok().unwrap().id, "a");
    assert!(matches!(on_second.try_recv(), Err(TryRecvError::Empty)));
    let _b = second.add_sampling_request(request("b")).ok().unwrap();
    assert_eq!(on_second.try_recv().ok().unwrap().id, "b");
    assert!(matches!(on_first.try_recv(), Err(TryRecvError::Empty)));
}

#[test]
fn registration_while_nobody_is_subscribed_is_not_kept_for_later() {
    let mut state = AppState::new();
    let _a = state.add_sampling_request(request("a")).ok().unwrap();
    let mut observer = state.subscribe_to_sampling_requests();
    assert!(matches!(observer.try_recv(), Err(TryRecvError::Empty)));
    let _b = state.add_sampling_request(request("b")).ok().unwrap();
    assert_eq!(observer.try_recv().ok().unwrap().id, "b");
    drop(observer);
    let _c = state.add_sampling_request(request("c")).ok().unwrap();
    let mut later = state.subscribe_to_sampling_requests();
    assert!(matches!(later.try_recv(), Err(TryRecvError::Empty)));
    assert_eq!(state.get_pending_sampling_requests().len(), 3);
}
