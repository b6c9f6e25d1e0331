use statusbar::channel::{ChannelId, Channels, Subscription};
use statusbar::listeners::{
    select_backend, FileWatchStep, ListenerError, Listeners, StartPlan, Trigger, WorkspaceListener,
};

/// Runs the timer loop of `reg` until `total` milliseconds have passed,
/// counting the notifications that each subscription reads.
fn run_for(reg: &mut Listeners, subs: &[Subscription], total: u64) -> Vec<u64> {
    let mut counts = vec![0u64; subs.len()];
    let mut elapsed: u64 = 0;
    while let Some(d) = reg.next_sleep() {
        if elapsed + d > total {
            break;
        }
        reg.time_passed(d);
        elapsed += d;
        for (k, s) in subs.iter().enumerate() {
            if reg.try_recv(s) {
                counts[k] += 1;
            }
        }
    }
    counts
}

/// Registers `path` the way a driver does: asks for an OS watch only when
/// the registry says one is needed, and counts those requests.
fn register_file(reg: &mut Listeners, path: &str, os_watches: &mut u32) -> Subscription {
    let path = path.to_string();
    let watch = match reg.file_watch_step(&path) {
        FileWatchStep::Shared => None,
        FileWatchStep::CreateInstance | FileWatchStep::AddWatch => {
            *os_watches += 1;
            Some(*os_watches as i32)
        }
    };
    reg.new_file_change_listener(&path, watch).unwrap()
}

#[test]
fn timers_fire_floor_of_elapsed_over_interval() {
    let mut reg = Listeners::new();
    let intervals = [30u64, 70, 110, 1000];
    let subs: Vec<Subscription> = intervals
        .iter()
        .map(|i| reg.new_time_passed_listener(*i).unwrap())
        .collect();
    let counts = run_for(&mut reg, &subs, 5000);
    for (k, i) in intervals.iter().enumerate() {
        assert_eq!(counts[k], 5000 / i);
    }
}

#[test]
fn short_and_long_timer_fire_independently() {
    let mut reg = Listeners::new();
    let short = reg.subscribe(&Trigger::TimePassed(100), None, None).unwrap();
    let long = reg.subscribe(&Trigger::TimePassed(100000), None, None).unwrap();
    let counts = run_for(&mut reg, &[short, long], 90000);
    assert!(counts[0] >= 900);
    assert_eq!(counts[0], 900);
    assert_eq!(counts[1], 0);
}

#[test]
fn equal_intervals_get_separate_entries() {
    let mut reg = Listeners::new();
    let a = reg.new_time_passed_listener(5000).unwrap();
    let b = reg.new_time_passed_listener(5000).unwrap();
    assert_ne!(a, b);
    let counts = run_for(&mut reg, &[a, b], 10000);
    assert_eq!(counts, vec![2, 2]);
}

#[test]
fn zero_interval_is_refused() {
    let mut reg = Listeners::new();
    assert_eq!(reg.new_time_passed_listener(0), Err(ListenerError::ZeroInterval));
    assert_eq!(reg.next_sleep(), None);
}

#[test]
fn no_timer_no_timer_loop() {
    let reg = Listeners::new();
    assert_eq!(
        reg.start_listeners(),
        StartPlan { timer: false, file_change: false, workspace: None }
    );
}

#[test]
fn same_path_twice_makes_one_os_watch() {
    let mut reg = Listeners::new();
    let mut os_watches = 0u32;
    assert_eq!(reg.file_watch_step(&"/tmp/x".to_string()), FileWatchStep::CreateInstance);
    let a = register_file(&mut reg, "/tmp/x", &mut os_watches);
    assert_eq!(reg.file_watch_step(&"/tmp/x".to_string()), FileWatchStep::Shared);
    let b = register_file(&mut reg, "/tmp/x", &mut os_watches);
    assert_eq!(os_watches, 1);
    assert_eq!(reg.file_watch_step(&"/tmp/y".to_string()), FileWatchStep::AddWatch);
    let c = register_file(&mut reg, "/tmp/y", &mut os_watches);
    assert_eq!(os_watches, 2);

    reg.file_changed(1);
    assert!(reg.try_recv(&a));
    assert!(reg.try_recv(&b));
    assert!(!reg.try_recv(&c));

    reg.file_changed(2);
    assert!(!reg.try_recv(&a));
    assert!(reg.try_recv(&c));
}

#[test]
fn file_without_watch_is_refused() {
    let mut reg = Listeners::new();
    let r = reg.new_file_change_listener(&"/tmp/x".to_string(), None);
    assert_eq!(r, Err(ListenerError::WatchUnavailable));
    assert_eq!(reg.file_watch_step(&"/tmp/x".to_string()), FileWatchStep::CreateInstance);
    let r = reg.subscribe(&Trigger::FileChange("/tmp/x".to_string()), None, None);
    assert_eq!(r, Err(ListenerError::WatchUnavailable));
}

#[test]
fn dropped_then_new_subscriber_sees_no_stale_change() {
    let mut reg = Listeners::new();
    let mut os_watches = 0u32;
    let old = register_file(&mut reg, "/tmp/x", &mut os_watches);
    reg.unsubscribe(&old);
    reg.file_changed(1);
    assert!(!reg.try_recv(&old));
    let late = register_file(&mut reg, "/tmp/x", &mut os_watches);
    assert_eq!(os_watches, 1);
    assert!(!reg.is_pending(&late));
    assert!(!reg.try_recv(&late));
    reg.file_changed(1);
    assert!(reg.try_recv(&late));
    assert!(!reg.try_recv(&old));
}

#[test]
fn workspace_listener_is_shared() {
    let mut reg = Listeners::new();
    let a = reg.new_workspace_listener(Some(WorkspaceListener::Hyprland));
    let b = reg.new_workspace_listener(Some(WorkspaceListener::Sway));
    assert_eq!(
        reg.start_listeners().workspace,
        Some(WorkspaceListener::Hyprland)
    );
    reg.workspace_changed();
    assert!(reg.try_recv(&a));
    assert!(reg.try_recv(&b));
}

#[test]
fn backend_selection() {
    assert_eq!(select_backend(true, false), Some(WorkspaceListener::Hyprland));
    assert_eq!(select_backend(true, true), Some(WorkspaceListener::Hyprland));
    assert_eq!(select_backend(false, true), Some(WorkspaceListener::Sway));
    assert_eq!(select_backend(false, false), None);
}

#[test]
fn mixed_triggers_without_compositor() {
    let mut reg = Listeners::new();
    let mut os_watches = 0u32;
    let backend = select_backend(false, false);
    let timer = reg.subscribe(&Trigger::TimePassed(60000), None, backend).unwrap();
    let file = register_file(&mut reg, "/tmp/x", &mut os_watches);
    let ws = reg.subscribe(&Trigger::WorkspaceChanged, None, backend).unwrap();
    assert_eq!(
        reg.start_listeners(),
        StartPlan { timer: true, file_change: true, workspace: None }
    );

    reg.workspace_changed();
    assert!(!reg.try_recv(&ws));

    reg.file_changed(1);
    assert!(reg.try_recv(&file));
    assert!(!reg.try_recv(&ws));

    let counts = run_for(&mut reg, &[timer, ws], 60000);
    assert_eq!(counts, vec![1, 0]);
    assert!(!reg.try_recv(&file));
}

#[test]
fn channel_keeps_only_the_latest() {
    let mut ch = Channels::new();
    let s = ch.subscribe(ChannelId::Timer(0));
    ch.publish(ChannelId::Timer(0));
    ch.publish(ChannelId::Timer(0));
    assert!(ch.try_recv(&s));
    assert!(!ch.try_recv(&s));
}

#[test]
fn channel_subscriber_added_between_publishes_sees_the_second() {
    let mut ch = Channels::new();
    ch.publish(ChannelId::File(0));
    let s = ch.subscribe(ChannelId::File(0));
    assert!(!ch.is_pending(&s));
    ch.publish(ChannelId::File(0));
    assert!(ch.try_recv(&s));
    assert!(!ch.try_recv(&s));
}

#[test]
fn channel_publish_reaches_only_its_receivers() {
    let mut ch = Channels::new();
    let a = ch.subscribe(ChannelId::File(0));
    let b = ch.subscribe(ChannelId::File(1));
    let c = ch.subscribe(ChannelId::Silent);
    ch.publish(ChannelId::File(1));
    assert!(!ch.try_recv(&a));
    assert!(ch.try_recv(&b));
    assert!(!ch.try_recv(&c));
    ch.close(&b);
    ch.publish(ChannelId::File(1));
    assert!(!ch.try_recv(&b));
    assert_eq!(ch.len(), 3);
}

#[test]
fn unknown_subscription_reads_nothing() {
    let mut reg = Listeners::new();
    let s = Subscription { index: 7 };
    assert!(!reg.try_recv(&s));
    reg.unsubscribe(&s);
}

#[test]
fn subscribe_dispatches_file_triggers() {
    let mut reg = Listeners::new();
    let t = Trigger::FileChange("/tmp/x".to_string());
    let a = reg.subscribe(&t, Some(5), None).unwrap();
    let b = reg.subscribe(&t, None, None).unwrap();
    assert_eq!(a, Subscription { index: 0 });
    assert_eq!(b, Subscription { index: 1 });
    assert_eq!(
        reg.start_listeners(),
        StartPlan { timer: false, file_change: true, workspace: None }
    );
    reg.file_changed(5);
    assert!(reg.try_recv(&a));
    assert!(reg.try_recv(&b));
}
