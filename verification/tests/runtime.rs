use osaka::runtime::handle::{try_current_from, TryCurrentError};
use osaka::runtime::scheduler::{
    block_on_result, next_task, shutdown, spawn_task, BlockOn, BlockOnStep, Core, Shared,
    UntilDeadlock,
};
use osaka::runtime::task::{get_next_id, Id, IdCounter, JoinError, OwnedTasks};
use osaka::runtime::BlockOnError;

#[test]
fn ids_count_up_and_wrap() {
    let mut counter = IdCounter::new(u64::MAX - 1);
    assert_eq!(Id::next(&mut counter).as_u64(), u64::MAX - 1);
    assert_eq!(Id::next(&mut counter).as_u64(), u64::MAX);
    assert_eq!(Id::next(&mut counter).as_u64(), 0);
    assert_eq!(counter.take(), 1);
}

#[test]
fn task_ids_start_at_one_and_differ() {
    let mut counter = IdCounter::for_tasks();
    let ids: Vec<u64> = (0..100).map(|_| Id::next(&mut counter).as_u64()).collect();
    assert_eq!(ids[0], 1);
    for (i, a) in ids.iter().enumerate() {
        assert_ne!(*a, 0);
        for b in &ids[i + 1..] {
            assert_ne!(a, b);
        }
    }
}

#[test]
fn list_ids_skip_zero() {
    let mut next = 0;
    assert_eq!(get_next_id(&mut next), 1);
    assert_eq!(next, 2);
    assert_eq!(get_next_id(&mut next), 2);
}

#[test]
fn join_errors() {
    let cancelled: JoinError<&str> = JoinError::cancelled(Id::next(&mut IdCounter::new(4)));
    assert!(cancelled.is_cancelled());
    assert!(!cancelled.is_panic());
    assert_eq!(cancelled.id().as_u64(), 4);
    assert!(cancelled.try_into_panic().is_err());
    let panicked: JoinError<&str> = JoinError::panic(Id::next(&mut IdCounter::new(5)), "boom");
    assert!(panicked.is_panic());
    assert!(!panicked.is_cancelled());
    assert_eq!(panicked.into_panic(), "boom");
    let again: JoinError<&str> = JoinError::panic(Id::next(&mut IdCounter::new(6)), "bang");
    assert_eq!(again.try_into_panic().ok(), Some("bang"));
}

#[test]
fn try_current_errors() {
    assert_eq!(try_current_from(Some(Some(3))), Ok(3));
    let missing = try_current_from::<u8>(Some(None)).unwrap_err();
    assert!(missing.is_missing_context());
    assert!(!missing.is_thread_local_destroyed());
    let destroyed = try_current_from::<u8>(None).unwrap_err();
    assert!(destroyed.is_thread_local_destroyed());
    assert_eq!(destroyed, TryCurrentError::new_thread_local_destroyed());
    assert_eq!(missing, TryCurrentError::new_no_context());
}

#[test]
fn try_current_error_messages() {
    assert_eq!(
        TryCurrentError::new_no_context().message(),
        "there is no reactor running, must be called from the context of a Osaka1.x runtime"
    );
    assert_eq!(
        TryCurrentError::new_thread_local_destroyed().message(),
        "The Osakacontext thread-local variable has been destroyed."
    );
}

#[test]
fn block_on_results() {
    assert_eq!(block_on_result(Some(1)), Ok(1));
    assert_eq!(block_on_result::<u8>(None), Err(BlockOnError::Deadlock));
    assert_eq!(BlockOnError::Deadlock.message(), "BlockOnError::Deadlock");
}

#[test]
fn every_fifth_tick_serves_the_outside_queue_first() {
    let mut core: Core<u32> = Core::new();
    let mut shared: Shared<u32> = Shared::new();
    let mut none: Option<Core<u32>> = None;
    core.push_task(1);
    core.push_task(2);
    assert_eq!(shared.schedule(&mut none, false, 10), None);
    assert_eq!(shared.schedule(&mut none, false, 11), None);
    // Tick 0 takes from outside first, ticks 1 to 4 from the local queue.
    assert_eq!(next_task(&mut core, &mut shared), Some(10));
    assert_eq!(next_task(&mut core, &mut shared), Some(1));
    assert_eq!(next_task(&mut core, &mut shared), Some(2));
    assert_eq!(next_task(&mut core, &mut shared), Some(11));
    assert_eq!(next_task(&mut core, &mut shared), None);
}

#[test]
fn schedule_on_this_scheduler_goes_to_the_core() {
    let mut shared: Shared<u32> = Shared::new();
    let mut core = Some(Core::new());
    assert_eq!(shared.schedule(&mut core, true, 5), None);
    let mut c = core.take().unwrap();
    assert_eq!(c.pop_task(), Some(5));
    assert_eq!(c.pop_task(), None);
    // Without a core the task is handed back.
    assert_eq!(shared.schedule(&mut core, true, 6), Some(6));
}

#[test]
fn until_deadlock_stops_when_out_of_work() {
    let mut core: Core<u32> = Core::new();
    let mut shared: Shared<u32> = Shared::new();
    let mut none: Option<Core<u32>> = None;
    core.push_task(1);
    let _ = shared.schedule(&mut none, false, 2);
    let mut run = UntilDeadlock::new();
    let mut ran = Vec::new();
    while let Some(t) = run.step(&mut core, &mut shared) {
        ran.push(t);
    }
    assert_eq!(ran, vec![2, 1]);
}

#[test]
fn until_deadlock_stops_on_unhandled_panic() {
    let mut core: Core<u32> = Core::new();
    let mut shared: Shared<u32> = Shared::new();
    core.push_task(1);
    core.set_unhandled_panic();
    assert!(core.unhandled_panic());
    let mut run = UntilDeadlock::new();
    assert_eq!(run.step(&mut core, &mut shared), None);
}

#[test]
fn block_on_polls_first_then_runs_tasks() {
    let mut core: Core<u32> = Core::new();
    let mut shared: Shared<u32> = Shared::new();
    core.push_task(7);
    let mut state = BlockOn::new(&mut shared);
    assert!(matches!(state.step(&mut core, &mut shared), BlockOnStep::PollFuture));
    assert!(matches!(state.step(&mut core, &mut shared), BlockOnStep::RunTask(7)));
    // The task woke the future: it is polled again.
    shared.wake();
    assert!(matches!(state.step(&mut core, &mut shared), BlockOnStep::PollFuture));
    // Nothing is left and the future is not woken: a deadlock.
    assert!(matches!(state.step(&mut core, &mut shared), BlockOnStep::Deadlock));
}

#[test]
fn block_on_yields_after_a_full_round() {
    let mut core: Core<u32> = Core::new();
    let mut shared: Shared<u32> = Shared::new();
    for t in 0..11 {
        core.push_task(t);
    }
    let mut state = BlockOn::new(&mut shared);
    assert!(matches!(state.step(&mut core, &mut shared), BlockOnStep::PollFuture));
    for t in 0..10 {
        assert!(matches!(state.step(&mut core, &mut shared), BlockOnStep::RunTask(x) if x == t));
    }
    assert!(matches!(state.step(&mut core, &mut shared), BlockOnStep::ParkYield));
}

#[test]
fn owned_tasks_bind_remove_and_close() {
    let mut owned: OwnedTasks<&str> = OwnedTasks::new(3);
    assert!(owned.is_empty());
    assert_eq!(owned.bind(1, "a"), None);
    assert_eq!(owned.bind(2, "b"), None);
    assert_eq!(owned.bind(3, "c"), None);
    assert_eq!(owned.assert_owner(3, 9), 9);
    assert_eq!(owned.remove(0, 2), None);
    assert_eq!(owned.remove(3, 2), Some("b"));
    assert_eq!(owned.remove(3, 2), None);
    let shut = owned.close_and_shutdown_all();
    assert_eq!(shut, vec!["a", "c"]);
    assert!(owned.is_empty());
    assert!(owned.is_closed());
    assert_eq!(owned.bind(4, "d"), Some("d"));
}

#[test]
fn spawn_and_shutdown() {
    let mut owned: OwnedTasks<&str> = OwnedTasks::new(1);
    let mut shared: Shared<u32> = Shared::new();
    let mut core = Some(Core::new());
    assert_eq!(spawn_task(&mut owned, &mut shared, &mut core, false, 1, "a", 1), (None, None));
    assert_eq!(spawn_task(&mut owned, &mut shared, &mut core, true, 2, "b", 2), (None, None));
    let mut c = core.take().unwrap();
    let (tasks, local, remote) = shutdown(&mut c, &mut shared, &mut owned);
    assert_eq!(tasks, vec!["a", "b"]);
    assert_eq!(local, vec![2]);
    assert_eq!(remote, vec![1]);
    assert!(shared.close_queue().is_none());
    assert_eq!(spawn_task(&mut owned, &mut shared, &mut core, false, 3, "c", 3), (Some("c"), Some(3)));
}
