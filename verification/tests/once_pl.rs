use once_cell::imp_pl::mutex::Mutex;
use once_cell::imp_pl::{
    is_complete, settled, store_on_drop, Action, Attempt, Event, InitError, OnceCell, Outcome, COMPLETE,
    EMPTY, RUNNING,
};
use once_cell::order::Order;
use once_cell::slot::fill;
use std::cell::RefCell;
use std::sync::atomic::{AtomicUsize, Ordering};

#[test]
fn the_latch_runs_one_initializer() {
    let cell = OnceCell::new();
    let mut a = 0;
    assert!(!cell.is_initialized());
    assert_eq!(cell.initialize(|_held| {
        a += 1;
        Ok::<(), u8>(())
    }), Ok(()));
    assert_eq!(a, 1);
    assert!(cell.is_initialized());
    assert_eq!(cell.initialize(|_held| {
        a += 1;
        Ok::<(), u8>(())
    }), Ok(()));
    assert_eq!(a, 1);
    assert_eq!(cell.initialize(|_held| Err::<(), u8>(3)), Ok(()));
}

#[test]
fn a_failed_initializer_reopens_the_latch() {
    let cell = OnceCell::new();
    assert_eq!(cell.initialize(|_held| Err::<(), u8>(3)), Err(InitError::Failed(3)));
    assert!(!cell.is_initialized());
    assert_eq!(cell.initialize(|_held| Err::<(), u8>(4)), Err(InitError::Failed(4)));
    assert_eq!(cell.initialize(|_held| Ok::<(), u8>(())), Ok(()));
    assert!(cell.is_initialized());
}

#[test]
fn the_initializer_fills_the_slot() {
    let cell = OnceCell::new();
    let slot: RefCell<Option<u32>> = RefCell::new(None);
    let run = |outcome: Result<u32, u8>| {
        cell.initialize(|_held| fill(&mut slot.borrow_mut(), outcome))
    };
    assert_eq!(run(Err(9)), Err(InitError::Failed(9)));
    assert_eq!(*slot.borrow(), None);
    assert_eq!(run(Ok(1)), Ok(()));
    assert_eq!(*slot.borrow(), Some(1));
    assert_eq!(run(Ok(2)), Ok(()));
    assert_eq!(*slot.borrow(), Some(1));
}

#[test]
fn a_call_from_within_the_initializer_is_reported() {
    let cell = OnceCell::new();
    let mut inner = None;
    let outer = cell.initialize(|_held| {
        inner = Some(cell.initialize(|_held| Ok::<(), u8>(())));
        Err::<(), u8>(5)
    });
    assert_eq!(inner, Some(Err(InitError::Reentrant)));
    assert_eq!(outer, Err(InitError::Failed(5)));
    assert_eq!(cell.initialize(|_held| Ok::<(), u8>(())), Ok(()));
}

/// A call that has the mutex and is about to claim the cell.
fn at_swap() -> Attempt {
    let mut call = Attempt::new();
    call.advance(Event::State(EMPTY));
    call.advance(Event::Finished);
    call
}

#[test]
fn what_follows_from_the_state_that_was_found() {
    let cell = OnceCell::new();
    let held = cell.lock();
    let mut call = at_swap();
    assert_eq!(
        cell.resume(&held, &mut call, RUNNING, |_held| Ok::<(), u8>(())),
        Err(InitError::Reentrant)
    );
    assert_eq!(call.action(), Action::Unlock);
    call.advance(Event::Finished);
    assert_eq!(call.action(), Action::Return(Outcome::Reentrant));

    let mut call = at_swap();
    assert_eq!(cell.resume(&held, &mut call, COMPLETE, |_held| Err::<(), u8>(1)), Ok(()));
    call.advance(Event::Finished);
    assert_eq!(call.action(), Action::Return(Outcome::Ready));

    let mut call = at_swap();
    assert_eq!(
        cell.resume(&held, &mut call, EMPTY, |_held| Err::<(), u8>(1)),
        Err(InitError::Failed(1))
    );
    assert!(!cell.is_initialized());
    call.advance(Event::Finished);
    assert_eq!(call.action(), Action::Return(Outcome::Failed));

    let mut call = at_swap();
    assert_eq!(cell.resume(&held, &mut call, EMPTY, |_held| Ok::<(), u8>(())), Ok(()));
    assert!(cell.is_initialized());
    call.advance(Event::Finished);
    assert_eq!(call.action(), Action::Return(Outcome::Ready));
}

#[test]
fn the_operations_of_a_call() {
    let mut call = Attempt::new();
    assert_eq!(call.action(), Action::Load(Order::Acquire));
    call.advance(Event::State(RUNNING));
    assert_eq!(call.action(), Action::Lock);
    call.advance(Event::Finished);
    assert_eq!(
        call.action(),
        Action::CompareAndSwap { current: 2, new: 1, order: Order::Relaxed }
    );
    call.advance(Event::State(EMPTY));
    assert_eq!(call.action(), Action::Run);
    call.advance(Event::Ran(false));
    assert_eq!(call.action(), Action::Store { new: 2, order: Order::Relaxed });
    call.advance(Event::Finished);
    assert_eq!(call.action(), Action::Unlock);

    let mut call = at_swap();
    call.advance(Event::State(EMPTY));
    call.advance(Event::Ran(true));
    assert_eq!(call.action(), Action::Store { new: 0, order: Order::Release });

    let mut call = Attempt::new();
    call.advance(Event::State(COMPLETE));
    assert_eq!(call.action(), Action::Return(Outcome::Ready));
}

#[test]
fn what_a_call_does_to_the_state() {
    let cell = OnceCell::new();
    let mut call = Attempt::new();
    assert_eq!(cell.perform(None, &call), Event::State(EMPTY));
    call.advance(Event::State(EMPTY));
    let held = cell.lock();
    call.advance(Event::Finished);
    assert_eq!(cell.perform(Some(&held), &call), Event::State(EMPTY));
    assert_eq!(cell.state.load(Ordering::Relaxed), RUNNING);
    // A second call that has the mutex finds the state that the first one has left.
    assert_eq!(cell.perform(Some(&held), &at_swap()), Event::State(RUNNING));
    call.advance(Event::State(EMPTY));
    call.advance(Event::Ran(true));
    assert_eq!(cell.perform(Some(&held), &call), Event::Finished);
    assert_eq!(cell.state.load(Ordering::Relaxed), COMPLETE);
    assert_eq!(cell.perform(Some(&held), &at_swap()), Event::State(COMPLETE));
}

#[test]
fn the_state_that_a_call_leaves_behind() {
    let cell = OnceCell::new();
    assert_eq!(cell.state.load(Ordering::Relaxed), EMPTY);
    assert_eq!(
        cell.initialize(|_held| {
            assert_eq!(cell.state.load(Ordering::Relaxed), RUNNING);
            Err::<(), u8>(1)
        }),
        Err(InitError::Failed(1))
    );
    assert_eq!(cell.state.load(Ordering::Relaxed), EMPTY);
    assert_eq!(cell.initialize(|_held| Ok::<(), u8>(())), Ok(()));
    assert_eq!(cell.state.load(Ordering::Relaxed), COMPLETE);
}

#[test]
fn the_states_of_the_latch() {
    assert_eq!((EMPTY, RUNNING, COMPLETE), (2, 1, 0));
    assert!(is_complete(COMPLETE));
    assert!(!is_complete(RUNNING));
    assert!(!is_complete(EMPTY));
    assert_eq!(settled(true), COMPLETE);
    assert_eq!(settled(false), EMPTY);
}

#[test]
fn a_dropped_guard_stores() {
    let atomic = AtomicUsize::new(1);
    let guard = store_on_drop(&atomic, 7, Order::Relaxed);
    assert_eq!(atomic.load(Ordering::Relaxed), 1);
    drop(guard);
    assert_eq!(atomic.load(Ordering::Relaxed), 7);
    drop(store_on_drop(&atomic, 8, Order::Release));
    assert_eq!(atomic.load(Ordering::Relaxed), 8);
    drop(store_on_drop(&atomic, 9, Order::SeqCst));
    assert_eq!(atomic.load(Ordering::Relaxed), 9);
}

#[test]
fn a_cancelled_guard_does_not_store() {
    let atomic = AtomicUsize::new(1);
    let guard = store_on_drop(&atomic, 7, Order::Relaxed);
    {
        let _kept = guard.cancel();
        assert_eq!(atomic.load(Ordering::Relaxed), 1);
    }
    assert_eq!(atomic.load(Ordering::Relaxed), 1);
}

#[test]
fn a_filled_cell_does_not_ask_the_initializer() {
    let cell = OnceCell::new();
    assert_eq!(cell.initialize(|_held| Ok::<(), &str>(())), Ok(()));
    let mut n = 0;
    let result = cell.initialize(|_held| {
        n += 1;
        Err("x")
    });
    assert_eq!(result, Ok(()));
    assert_eq!(n, 0);
}

#[test]
fn a_mutex_can_be_locked_again_when_its_guard_is_gone() {
    let mutex = Mutex::new();
    let guard = mutex.lock();
    drop(guard);
    drop(mutex.lock());
}
