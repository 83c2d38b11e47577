use process_supervisor::ids::ProcessId;
use process_supervisor::registry::Registry;
use process_supervisor::relay::{relay_all, ChildEvent, Notification, Relay};
use process_supervisor::spawner::complete_spawn;
use process_supervisor::terminator::kill;

#[test]
fn new_registry_is_empty() {
    let registry: Registry<&str> = Registry::new();
    assert_eq!(registry.len(), 0);
    assert!(!registry.contains(ProcessId(1)));
}

#[test]
fn register_then_contains() {
    let mut registry: Registry<&str> = Registry::new();
    assert_eq!(registry.register(ProcessId(10), "a"), None);
    assert!(registry.contains(ProcessId(10)));
    assert!(!registry.contains(ProcessId(11)));
    assert_eq!(registry.len(), 1);
}

#[test]
fn register_same_id_displaces_old_handle() {
    let mut registry: Registry<&str> = Registry::new();
    registry.register(ProcessId(10), "old");
    assert_eq!(registry.register(ProcessId(10), "new"), Some("old"));
    assert_eq!(registry.len(), 1);
    assert_eq!(registry.remove(ProcessId(10)), Some("new"));
}

#[test]
fn remove_hands_out_the_handle_once() {
    let mut registry: Registry<&str> = Registry::new();
    registry.register(ProcessId(10), "a");
    registry.register(ProcessId(20), "b");
    assert_eq!(registry.remove(ProcessId(10)), Some("a"));
    assert_eq!(registry.remove(ProcessId(10)), None);
    assert_eq!(registry.len(), 1);
    assert!(registry.contains(ProcessId(20)));
}

#[test]
fn spawned_process_is_registered_until_its_exit_is_delivered() {
    let mut registry: Registry<&str> = Registry::new();
    let mut relay = complete_spawn(&mut registry, Ok((ProcessId(4242), "child"))).unwrap();
    assert_eq!(relay.process(), ProcessId(4242));
    assert!(!relay.is_finished());
    assert!(registry.contains(ProcessId(4242)));

    let out = relay.on_event(ChildEvent::Stdout("working".to_string()));
    assert!(out.is_some());
    assert!(registry.contains(ProcessId(4242)));

    let exit = relay.on_event(ChildEvent::Terminated { code: Some(0), signal: None });
    assert!(exit.is_some());
    assert!(relay.is_finished());
    relay.retire(&mut registry);
    assert!(!registry.contains(ProcessId(4242)));
    assert_eq!(registry.len(), 0);
}

#[test]
fn failed_spawn_leaves_registry_unchanged() {
    let mut registry: Registry<&str> = Registry::new();
    registry.register(ProcessId(1), "running");
    let result = complete_spawn(&mut registry, Err("No such file or directory (os error 2)".to_string()));
    match result {
        Ok(_) => panic!("a failed spawn must not give a relay"),
        Err(e) => assert_eq!(e.message, "No such file or directory (os error 2)"),
    }
    assert_eq!(registry.len(), 1);
    assert!(registry.contains(ProcessId(1)));
}

#[test]
fn failed_spawn_on_empty_registry_adds_nothing() {
    let mut registry: Registry<u8> = Registry::new();
    assert!(complete_spawn(&mut registry, Err("permission denied".to_string())).is_err());
    assert_eq!(registry.len(), 0);
}

#[test]
fn kill_registered_process_hands_out_its_handle() {
    let mut registry: Registry<&str> = Registry::new();
    registry.register(ProcessId(77), "seventy-seven");
    registry.register(ProcessId(78), "seventy-eight");
    assert_eq!(kill(&mut registry, "77"), Some("seventy-seven"));
    assert!(!registry.contains(ProcessId(77)));
    assert!(registry.contains(ProcessId(78)));
    assert_eq!(registry.len(), 1);
}

#[test]
fn kill_unknown_id_changes_nothing() {
    let mut registry: Registry<&str> = Registry::new();
    registry.register(ProcessId(5), "five");
    assert_eq!(kill(&mut registry, "6"), None);
    assert_eq!(registry.len(), 1);
    assert!(registry.contains(ProcessId(5)));
}

#[test]
fn kill_twice_terminates_once() {
    let mut registry: Registry<&str> = Registry::new();
    registry.register(ProcessId(900), "h");
    let first = kill(&mut registry, "900");
    let second = kill(&mut registry, "900");
    assert_eq!(first, Some("h"));
    assert_eq!(second, None);
    assert_eq!(registry.len(), 0);
}

#[test]
fn kill_after_exit_is_a_silent_no_op() {
    let mut registry: Registry<&str> = Registry::new();
    let mut relay = complete_spawn(&mut registry, Ok((ProcessId(321), "h"))).unwrap();
    relay.on_event(ChildEvent::Terminated { code: Some(1), signal: None });
    relay.retire(&mut registry);
    assert_eq!(kill(&mut registry, "321"), None);
    assert_eq!(registry.len(), 0);
}

#[test]
fn relay_retires_after_kill_without_effect() {
    let mut registry: Registry<&str> = Registry::new();
    let relay = complete_spawn(&mut registry, Ok((ProcessId(55), "h"))).unwrap();
    registry.register(ProcessId(56), "other");
    assert_eq!(kill(&mut registry, "55"), Some("h"));
    relay.retire(&mut registry);
    assert_eq!(registry.len(), 1);
    assert!(registry.contains(ProcessId(56)));
}

#[test]
fn kill_with_text_that_names_no_process() {
    let mut registry: Registry<&str> = Registry::new();
    registry.register(ProcessId(7), "seven");
    assert_eq!(kill(&mut registry, "007"), None);
    assert_eq!(kill(&mut registry, "+7"), None);
    assert_eq!(kill(&mut registry, " 7"), None);
    assert_eq!(kill(&mut registry, "seven"), None);
    assert_eq!(kill(&mut registry, ""), None);
    assert_eq!(kill(&mut registry, "99999999999"), None);
    assert!(registry.contains(ProcessId(7)));
    assert_eq!(kill(&mut registry, "7"), Some("seven"));
}

#[test]
fn relay_forwards_stdout() {
    let mut relay = Relay::new(ProcessId(12));
    let notice = relay.on_event(ChildEvent::Stdout("BUILD SUCCESSFUL".to_string()));
    assert_eq!(
        notice,
        Some(Notification::Stdout { pid: "12".to_string(), data: "BUILD SUCCESSFUL".to_string() })
    );
    assert!(!relay.is_finished());
}

#[test]
fn relay_forwards_stderr_and_read_errors_alike() {
    let mut relay = Relay::new(ProcessId(12));
    assert_eq!(
        relay.on_event(ChildEvent::Stderr("warning".to_string())),
        Some(Notification::Stderr { pid: "12".to_string(), data: "warning".to_string() })
    );
    assert_eq!(
        relay.on_event(ChildEvent::Error("broken pipe".to_string())),
        Some(Notification::Stderr { pid: "12".to_string(), data: "broken pipe".to_string() })
    );
    assert!(!relay.is_finished());
}

#[test]
fn relay_reports_exit_with_code_and_signal() {
    let mut relay = Relay::new(ProcessId(12));
    assert_eq!(
        relay.on_event(ChildEvent::Terminated { code: Some(137), signal: Some(9) }),
        Some(Notification::Exit {
            pid: "12".to_string(),
            code: "137".to_string(),
            signal: "9".to_string()
        })
    );
    assert!(relay.is_finished());
}

#[test]
fn relay_reports_zero_for_what_the_system_left_out() {
    let mut relay = Relay::new(ProcessId(3));
    assert_eq!(
        relay.on_event(ChildEvent::Terminated { code: None, signal: None }),
        Some(Notification::Exit { pid: "3".to_string(), code: "0".to_string(), signal: "0".to_string() })
    );
    let mut other = Relay::new(ProcessId(4));
    assert_eq!(
        other.on_event(ChildEvent::Terminated { code: Some(-1), signal: None }),
        Some(Notification::Exit { pid: "4".to_string(), code: "-1".to_string(), signal: "0".to_string() })
    );
}

#[test]
fn relay_delivers_nothing_after_the_exit() {
    let mut relay = Relay::new(ProcessId(3));
    relay.on_event(ChildEvent::Terminated { code: Some(0), signal: None });
    assert_eq!(relay.on_event(ChildEvent::Stdout("late".to_string())), None);
    assert_eq!(relay.on_event(ChildEvent::Terminated { code: Some(1), signal: None }), None);
    assert!(relay.is_finished());
}

#[test]
fn relay_ends_when_the_channel_closes() {
    let mut relay = Relay::new(ProcessId(3));
    relay.on_event(ChildEvent::Stdout("partial".to_string()));
    relay.on_closed();
    assert!(relay.is_finished());
    assert_eq!(relay.on_event(ChildEvent::Stdout("late".to_string())), None);
}

#[test]
fn relay_keeps_the_order_of_the_stream() {
    let events = vec![
        ChildEvent::Stdout("one".to_string()),
        ChildEvent::Stderr("two".to_string()),
        ChildEvent::Stdout("three".to_string()),
        ChildEvent::Terminated { code: Some(0), signal: None },
        ChildEvent::Stdout("never".to_string()),
    ];
    let notices = relay_all(ProcessId(8), &events);
    assert_eq!(
        notices,
        vec![
            Notification::Stdout { pid: "8".to_string(), data: "one".to_string() },
            Notification::Stderr { pid: "8".to_string(), data: "two".to_string() },
            Notification::Stdout { pid: "8".to_string(), data: "three".to_string() },
            Notification::Exit { pid: "8".to_string(), code: "0".to_string(), signal: "0".to_string() },
        ]
    );
}

#[test]
fn relay_of_a_stream_without_exit_delivers_everything() {
    let events = vec![ChildEvent::Stdout("a".to_string()), ChildEvent::Error("b".to_string())];
    let notices = relay_all(ProcessId(8), &events);
    assert_eq!(notices.len(), 2);
    assert_eq!(relay_all(ProcessId(8), &Vec::new()), Vec::new());
}

#[test]
fn two_processes_have_separate_streams() {
    let first = vec![
        ChildEvent::Stdout("from first".to_string()),
        ChildEvent::Terminated { code: Some(0), signal: None },
    ];
    let second = vec![
        ChildEvent::Stdout("from second".to_string()),
        ChildEvent::Stderr("still second".to_string()),
    ];
    let mut a = Relay::new(ProcessId(100));
    let mut b = Relay::new(ProcessId(200));
    let mut seen: Vec<Notification> = Vec::new();
    seen.push(b.on_event(second[0].duplicate()).unwrap());
    seen.push(a.on_event(first[0].duplicate()).unwrap());
    seen.push(a.on_event(first[1].duplicate()).unwrap());
    seen.push(b.on_event(second[1].duplicate()).unwrap());
    assert!(a.is_finished());
    assert!(!b.is_finished());
    for notice in &seen {
        match notice {
            Notification::Stdout { pid, data } | Notification::Stderr { pid, data } => {
                if data.contains("first") {
                    assert_eq!(pid, "100");
                } else {
                    assert_eq!(pid, "200");
                }
            }
            Notification::Exit { pid, .. } => assert_eq!(pid, "100"),
        }
    }
}

#[test]
fn notices_go_out_under_their_event_names() {
    let mut relay = Relay::new(ProcessId(1));
    let out = relay.on_event(ChildEvent::Stdout(String::new())).unwrap();
    let err = relay.on_event(ChildEvent::Stderr(String::new())).unwrap();
    let exit = relay.on_event(ChildEvent::Terminated { code: None, signal: None }).unwrap();
    assert_eq!(out.event_name(), "child-process-stdout");
    assert_eq!(err.event_name(), "child-process-stderr");
    assert_eq!(exit.event_name(), "child-process-exit");
}

#[test]
fn duplicate_copies_an_event() {
    let event = ChildEvent::Terminated { code: Some(2), signal: Some(15) };
    assert_eq!(event.duplicate(), event);
    let text = ChildEvent::Stdout("x".to_string());
    assert_eq!(text.duplicate(), text);
}
