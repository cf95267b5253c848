//! The scheduler model: dispatch, preemption, reentrancy, spawn capacity and
//! the priority-ceiling exclusion.

use r3tl::sched::{ResourceId, Sched, TaskId};

#[test]
fn pending_task_starts_on_an_idle_processor() {
    let mut s = Sched::new();
    s.interrupt(TaskId::FrameTick);
    assert!(s.is_pending(TaskId::FrameTick));
    assert!(s.try_start(TaskId::FrameTick));
    assert!(!s.is_pending(TaskId::FrameTick));
    assert_eq!(s.stack.len(), 1);
}

#[test]
fn a_task_that_is_not_pending_does_not_start() {
    let mut s = Sched::new();
    assert!(!s.try_start(TaskId::FrameTick));
    assert_eq!(s.stack.len(), 0);
}

#[test]
fn no_reentrant_execution() {
    let mut s = Sched::new();
    s.interrupt(TaskId::FrameTick);
    assert!(s.try_start(TaskId::FrameTick));
    // The same interrupt fires again while the task still runs: it stays
    // pending, it does not start a second instance.
    s.interrupt(TaskId::FrameTick);
    assert!(!s.try_start(TaskId::FrameTick));
    assert_eq!(s.stack.len(), 1);
    assert!(s.is_pending(TaskId::FrameTick));
}

#[test]
fn peers_do_not_preempt_each_other() {
    let mut s = Sched::new();
    s.interrupt(TaskId::FrameTick);
    assert!(s.try_start(TaskId::FrameTick));
    s.interrupt(TaskId::ButtonClick);
    // Same static priority: must wait for the running task to finish.
    assert!(!s.try_start(TaskId::ButtonClick));
    s.finish();
    assert!(s.try_start(TaskId::ButtonClick));
}

#[test]
fn higher_priority_preempts() {
    let mut s = Sched::new();
    s.interrupt(TaskId::FrameTick);
    assert!(s.try_start(TaskId::FrameTick));
    s.interrupt(TaskId::SoundTick);
    assert!(s.try_start(TaskId::SoundTick));
    assert_eq!(s.stack.len(), 2);
    s.finish();
    assert_eq!(s.stack.len(), 1);
}

#[test]
fn held_ceiling_excludes_the_sharing_task() {
    let mut s = Sched::new();
    s.interrupt(TaskId::FrameTick);
    assert!(s.try_start(TaskId::FrameTick));
    s.lock(ResourceId::PlayerState);
    // The sound task shares the player; while the ceiling is held it cannot
    // start, so it can never observe a half-updated player.
    s.interrupt(TaskId::SoundTick);
    assert!(!s.try_start(TaskId::SoundTick));
    s.unlock();
    assert!(s.try_start(TaskId::SoundTick));
}

#[test]
fn low_ceiling_does_not_block_unrelated_tasks() {
    let mut s = Sched::new();
    s.interrupt(TaskId::ButtonClick);
    assert!(s.try_start(TaskId::ButtonClick));
    s.lock(ResourceId::RotationCounter);
    // The sound task does not share the counter; its priority beats the
    // counter's ceiling, so it still preempts.
    s.interrupt(TaskId::SoundTick);
    assert!(s.try_start(TaskId::SoundTick));
}

#[test]
fn spawn_queue_holds_exactly_one_invocation() {
    let mut s = Sched::new();
    assert!(s.spawn(TaskId::PlayRingtone));
    // A second spawn while the first is still queued is the fatal case.
    assert!(!s.spawn(TaskId::PlayRingtone));
    assert!(s.try_start(TaskId::PlayRingtone));
    s.finish();
    assert!(s.spawn(TaskId::PlayRingtone));
}
