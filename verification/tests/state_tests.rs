use noobaa_source_controller::state::{poll_escalation, FooResource, PollAction, State};

#[test]
fn foo_resource_is_named_by_its_name_field() {
    let foo = FooResource {
        name: "foo-1".to_string(),
        info: "some info".to_string(),
    };
    assert_eq!(foo.name(), "foo-1");
}

#[test]
fn cache_starts_empty_and_holds_the_last_snapshot() {
    let mut s = State::new();
    assert!(s.foos().is_empty());
    s.refresh(vec![
        FooResource {
            name: "a".to_string(),
            info: "first".to_string(),
        },
        FooResource {
            name: "b".to_string(),
            info: "second".to_string(),
        },
    ]);
    let cached = s.foos();
    assert_eq!(cached.len(), 2);
    assert_eq!(cached[0].name, "a");
    assert_eq!(cached[0].info, "first");
    assert_eq!(cached[1].name, "b");
    s.refresh(vec![]);
    assert!(s.foos().is_empty());
}

#[test]
fn poll_failure_escalates() {
    assert_eq!(poll_escalation(true), PollAction::Continue);
    assert_eq!(poll_escalation(false), PollAction::Escalate);
}

#[test]
fn cache_keys_entries_by_name_last_wins() {
    let mut s = State::new();
    s.refresh(vec![
        FooResource {
            name: "a".to_string(),
            info: "first".to_string(),
        },
        FooResource {
            name: "a".to_string(),
            info: "second".to_string(),
        },
        FooResource {
            name: "b".to_string(),
            info: "other".to_string(),
        },
    ]);
    let cached = s.foos();
    assert_eq!(cached.len(), 2);
    assert_eq!(cached[0].name, "a");
    assert_eq!(cached[0].info, "second");
    assert_eq!(cached[1].name, "b");
}
