use statusbar::timer::TimerSchedule;

#[test]
fn schedule_sleeps_to_the_earliest_deadline() {
    let mut sched = TimerSchedule::new();
    assert_eq!(sched.next_sleep(), None);
    assert_eq!(sched.add(30), 0);
    assert_eq!(sched.add(70), 1);
    assert_eq!(sched.len(), 2);
    assert_eq!(sched.next_sleep(), Some(30));
    assert_eq!(sched.advance(30), vec![true, false]);
    assert_eq!(sched.next_sleep(), Some(30));
    assert_eq!(sched.advance(30), vec![true, false]);
    assert_eq!(sched.next_sleep(), Some(10));
    assert_eq!(sched.advance(10), vec![false, true]);
    assert_eq!(sched.next_sleep(), Some(20));
}

#[test]
fn partial_sleep_counts_down_without_firing() {
    let mut sched = TimerSchedule::new();
    sched.add(100);
    assert_eq!(sched.advance(40), vec![false]);
    assert_eq!(sched.next_sleep(), Some(60));
    assert_eq!(sched.advance(60), vec![true]);
    assert_eq!(sched.next_sleep(), Some(100));
}
