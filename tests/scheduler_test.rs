use xfinder::scheduler::Scheduler;

#[test]
fn test_scheduler_new() {
    let scheduler = Scheduler::new(14, 30);
    assert_eq!(scheduler.get_schedule(), (14, 30));
    assert!(!scheduler.is_enabled());
}

#[test]
fn test_scheduler_clamp_values() {
    let scheduler = Scheduler::new(25, 70);
    assert_eq!(scheduler.get_schedule(), (23, 59));
}

#[test]
fn test_scheduler_set_schedule() {
    let mut scheduler = Scheduler::new(10, 0);
    scheduler.set_schedule(15, 45);
    assert_eq!(scheduler.get_schedule(), (15, 45));
}

#[test]
fn test_scheduler_default() {
    let scheduler = Scheduler::default();
    assert_eq!(scheduler.get_schedule(), (2, 0));
}

#[test]
fn test_scheduler_last_run_initially_none() {
    let scheduler = Scheduler::new(10, 0);
    assert!(scheduler.last_run().is_none());
}

#[test]
fn test_scheduler_start_stop() {
    let mut scheduler = Scheduler::new(10, 0);
    scheduler.start();
    assert!(scheduler.is_enabled());
    scheduler.stop();
    assert!(!scheduler.is_enabled());
}

#[test]
fn scheduler_fires_once_per_day() {
    let mut s = Scheduler::new(10, 0);
    assert!(!s.tick(10, 0, 100));
    s.start();
    assert!(!s.tick(9, 59, 100));
    assert!(s.tick(10, 0, 100));
    assert!(!s.tick(10, 0, 100));
    assert_eq!(s.last_run(), Some(100));
    assert!(s.tick(10, 0, 101));
}
