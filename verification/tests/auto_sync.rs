use greader_sync::auto_sync::{
    trigger_soon, AutoSync, QueuedAction, QueuedSync, AUTO_SYNC_DEBOUNCE_SECS,
};

#[test]
fn triggers_join_one_waiter() {
    let mut auto = AutoSync::new();
    assert_eq!(auto.trigger(), Some(0));
    assert_eq!(auto.trigger(), None);
    auto.drained();
    assert_eq!(auto.trigger(), None);
    assert!(!auto.wake(0));
    assert_eq!(auto.trigger(), Some(1));
}

#[test]
fn waiter_runs_unless_the_queue_was_drained() {
    let mut auto = AutoSync::new();
    let waiting = trigger_soon(&mut auto).unwrap();
    assert_eq!(
        waiting.action(),
        QueuedAction::Sleep { secs: AUTO_SYNC_DEBOUNCE_SECS }
    );
    assert_eq!(AUTO_SYNC_DEBOUNCE_SECS, 5);
    assert!(trigger_soon(&mut auto).is_none());
    let checking = waiting.woke(&mut auto);
    assert!(!auto.scheduled);
    assert_eq!(checking.action(), QueuedAction::LookUpConnection);
    let running = checking.looked_up(true);
    assert_eq!(running.action(), QueuedAction::Synchronise { expected: 0 });
    assert!(auto.begin(Some(0)));
    auto.drained();
    let announcing = running.ran(true);
    assert_eq!(announcing.action(), QueuedAction::Announce);
    assert_eq!(announcing.announced().action(), QueuedAction::End);
}

#[test]
fn drained_queue_makes_the_waiter_stand_down() {
    let mut auto = AutoSync::new();
    let waiting = trigger_soon(&mut auto).unwrap();
    assert!(auto.begin(None));
    assert!(!auto.scheduled);
    auto.drained();
    assert_eq!(waiting.woke(&mut auto).action(), QueuedAction::End);
    assert!(!auto.begin(Some(0)));
    assert!(auto.begin(Some(1)));
    assert_eq!(auto.generation, 1);
}

#[test]
fn stale_run_leaves_the_waiter_alone() {
    let mut auto = AutoSync::new();
    auto.drained();
    assert_eq!(auto.trigger(), Some(1));
    assert!(!auto.begin(Some(0)));
    assert!(auto.scheduled);
}

#[test]
fn manual_run_frees_the_waiter() {
    let mut auto = AutoSync::new();
    assert_eq!(auto.trigger(), Some(0));
    assert!(auto.begin(None));
    assert_eq!(auto.trigger(), Some(0));
}

#[test]
fn nothing_is_shown_without_a_finished_run() {
    let running = QueuedSync::Running { scheduled_at: 3 };
    assert_eq!(running.ran(false), QueuedSync::Over);
    assert_eq!(QueuedSync::Checking { scheduled_at: 3 }.looked_up(false), QueuedSync::Over);
    assert_eq!(running.looked_up(false), running);
    assert_eq!(running.announced(), running);
    assert_eq!(QueuedSync::Over.ran(true), QueuedSync::Over);
}

#[test]
fn generation_wraps() {
    let mut auto = AutoSync { scheduled: false, generation: u64::MAX };
    auto.drained();
    assert_eq!(auto.generation, 0);
}
