use once_cell::imp_std::{
    is_claimed, is_complete, is_initialized, perform, Action, Event, Initializer, OnceCell, COMPLETE,
    INCOMPLETE, RUNNING, STATE_MASK,
};
use once_cell::order::Order;
use once_cell::slot::fill;
use std::collections::{HashMap, HashSet};
use std::mem::size_of;
use std::sync::atomic::{AtomicUsize, Ordering};

enum Void {}

impl std::fmt::Debug for Void {
    fn fmt(&self, _: &mut std::fmt::Formatter<'_>) -> std::fmt::Result {
        Ok(())
    }
}

fn init<T>(cell: &mut OnceCell<T>, f: impl FnOnce() -> T) {
    let _ = cell.initialize(|| Ok::<T, Void>(f()));
}

/// The memory that stepped calls share.
struct Memory {
    word: usize,
    links: HashMap<usize, usize>,
    signals: HashMap<usize, bool>,
    handles: HashSet<usize>,
    tokens: HashSet<usize>,
    signaled: Vec<usize>,
}

/// One stepped call, its node's address, and what its initializer does.
struct Call {
    me: usize,
    steps: Initializer,
    succeeds: bool,
    ran: bool,
    result: Option<bool>,
}

impl Memory {
    fn new() -> Memory {
        Memory {
            word: INCOMPLETE,
            links: HashMap::new(),
            signals: HashMap::new(),
            handles: HashSet::new(),
            tokens: HashSet::new(),
            signaled: Vec::new(),
        }
    }
}

impl Call {
    fn new(me: usize, succeeds: bool) -> Call {
        Call { me, steps: Initializer::new(me), succeeds, ran: false, result: None }
    }

    /// Performs one operation; `false` if the call is over or sleeps.
    fn step(&mut self, memory: &mut Memory) -> bool {
        let event = match self.steps.action() {
            Action::Load(_) => Event::Word(memory.word),
            Action::CompareAndSwap { current, new, .. } => {
                let old = memory.word;
                if old == current {
                    memory.word = new;
                }
                Event::Word(old)
            }
            Action::Run => {
                self.ran = true;
                Event::Ran(self.succeeds)
            }
            Action::Swap { new, .. } => {
                let old = memory.word;
                memory.word = new;
                assert_eq!(old & STATE_MASK, RUNNING);
                Event::Word(old)
            }
            Action::Visit { node } => {
                assert!(memory.handles.remove(&node));
                Event::Link(memory.links[&node])
            }
            Action::Signal { node, .. } => {
                memory.signals.insert(node, true);
                memory.signaled.push(node);
                Event::Finished
            }
            Action::Unpark { node } => {
                memory.tokens.insert(node);
                Event::Finished
            }
            Action::Enqueue { next, current, new, .. } => {
                memory.links.insert(self.me, next);
                memory.signals.insert(self.me, false);
                memory.handles.insert(self.me);
                let old = memory.word;
                if old == current {
                    memory.word = new;
                }
                Event::Word(old)
            }
            Action::Check(_) => Event::Flag(memory.signals[&self.me]),
            Action::Park => {
                if !memory.tokens.remove(&self.me) {
                    return false;
                }
                Event::Finished
            }
            Action::Return(result) => {
                self.result = Some(result);
                return false;
            }
        };
        self.steps.advance(event);
        true
    }

    fn finish(&mut self, memory: &mut Memory) {
        while self.step(memory) {}
    }
}

#[test]
fn smoke_once() {
    let mut o: OnceCell<()> = OnceCell::new();
    let mut a = 0;
    init(&mut o, || a += 1);
    assert_eq!(a, 1);
    init(&mut o, || a += 1);
    assert_eq!(a, 1);

    // the same on a cell that can be shared
    let word = AtomicUsize::new(INCOMPLETE);
    let mut a = 0;
    for _ in 0..2 {
        let (success, ran) = run_alone(&word, true);
        assert!(success);
        if ran {
            a += 1;
        }
        assert_eq!(a, 1);
    }
}

#[test]
fn calls_wait_while_an_initializer_runs() {
    let mut memory = Memory::new();
    let mut first = Call::new(64, true);
    while first.steps.action() != Action::Run {
        first.step(&mut memory);
    }
    let mut second = Call::new(128, true);
    let mut third = Call::new(192, false);
    second.finish(&mut memory);
    third.finish(&mut memory);
    assert_eq!((second.result, second.ran), (None, false));
    assert_eq!((third.result, third.ran), (None, false));
    first.finish(&mut memory);
    assert_eq!(memory.signaled, vec![192, 128]);
    second.finish(&mut memory);
    third.finish(&mut memory);
    assert_eq!((second.result, second.ran), (Some(true), false));
    assert_eq!((third.result, third.ran), (Some(true), false));
}

#[test]
fn what_a_call_does_to_a_word_in_memory() {
    let word = AtomicUsize::new(INCOMPLETE);
    let mut steps = Initializer::new(64);
    assert_eq!(perform(&word, &steps), Some(INCOMPLETE));
    steps.advance(Event::Word(INCOMPLETE));
    assert_eq!(perform(&word, &steps), Some(INCOMPLETE));
    assert_eq!(word.load(Ordering::SeqCst), RUNNING);
    steps.advance(Event::Word(INCOMPLETE));
    steps.advance(Event::Ran(false));
    assert_eq!(perform(&word, &steps), Some(RUNNING));
    assert_eq!(word.load(Ordering::SeqCst), INCOMPLETE);
}

#[test]
fn stampede_once() {
    let mut memory = Memory::new();
    let mut calls: Vec<Call> = Vec::new();
    for i in 0..10 + 1 {
        calls.push(Call::new(64 + 8 * i, true));
    }
    let mut going = true;
    while going {
        going = false;
        for call in calls.iter_mut() {
            if call.step(&mut memory) {
                going = true;
            }
        }
    }
    let mut run = 0;
    for call in calls.iter() {
        if call.ran {
            run += 1;
        }
        assert_eq!(call.result, Some(true));
    }
    assert_eq!(run, 1);
    assert_eq!(memory.word, COMPLETE);
}

#[test]
fn poison_bad() {
    let mut memory = Memory::new();

    // poison the once
    let mut t = Call::new(64, false);
    t.finish(&mut memory);
    assert!(t.ran);
    assert_eq!(t.result, Some(false));
    assert_eq!(memory.word, INCOMPLETE);

    // we can subvert poisoning, however
    let mut called = Call::new(64, true);
    called.finish(&mut memory);
    assert!(called.ran);
    assert_eq!(called.result, Some(true));

    // once any success happens, we stop propagating the poison
    let mut last = Call::new(64, true);
    last.finish(&mut memory);
    assert!(!last.ran);
    assert_eq!(last.result, Some(true));
}

#[test]
fn wait_for_force_to_finish() {
    let mut memory = Memory::new();

    // poison the once
    let mut t = Call::new(64, false);
    t.finish(&mut memory);
    assert_eq!(t.result, Some(false));

    // make sure someone's inside the once
    let mut t1 = Call::new(128, true);
    while t1.steps.action() != Action::Run {
        t1.step(&mut memory);
    }

    // put another waiter on the once
    let mut t2 = Call::new(192, true);
    t2.finish(&mut memory);
    assert_eq!(t2.result, None);
    assert_eq!(t2.steps.action(), Action::Park);
    assert_eq!(memory.word, 192 | RUNNING);

    t1.finish(&mut memory);
    assert_eq!(t1.result, Some(true));
    t2.finish(&mut memory);
    assert_eq!(t2.result, Some(true));
    assert!(!t2.ran);
}

#[test]
fn imp_std_test_size() {
    if size_of::<usize>() == 8 {
        assert_eq!(size_of::<OnceCell<u32>>(), 4 * size_of::<u32>());
    }
}

#[test]
fn failure_leaves_the_cell_empty() {
    let mut o: OnceCell<u32> = OnceCell::new();
    assert!(!o.is_initialized());
    assert_eq!(o.value(), None);
    assert_eq!(o.initialize(|| Err(7u8)), Err(7u8));
    assert!(!o.is_initialized());
    assert_eq!(o.value(), None);
    assert_eq!(o.initialize(|| Ok::<u32, u8>(92)), Ok(()));
    assert!(o.is_initialized());
    assert_eq!(o.value(), Some(&92));
    assert_eq!(o.initialize(|| Err(7u8)), Ok(()));
    assert_eq!(o.value(), Some(&92));
}

#[test]
fn fill_changes_the_slot_on_success_only() {
    let mut slot: Option<u32> = None;
    assert_eq!(fill(&mut slot, Err::<u32, u8>(3)), Err(3));
    assert_eq!(slot, None);
    assert_eq!(fill(&mut slot, Ok::<u32, u8>(5)), Ok(()));
    assert_eq!(slot, Some(5));
}

#[test]
fn waiting_calls_are_signaled_newest_first() {
    let mut memory = Memory::new();
    let mut runner = Call::new(64, true);
    while runner.steps.action() != Action::Run {
        runner.step(&mut memory);
    }
    let mut waiters: Vec<Call> = Vec::new();
    for i in 2..6 {
        let mut waiter = Call::new(64 * i, true);
        waiter.finish(&mut memory);
        assert_eq!(waiter.result, None);
        waiters.push(waiter);
    }
    runner.finish(&mut memory);
    assert_eq!(memory.signaled, vec![320, 256, 192, 128]);
    for waiter in waiters.iter_mut() {
        waiter.finish(&mut memory);
        assert_eq!(waiter.result, Some(true));
        assert!(!waiter.ran);
    }
}

#[test]
fn a_waiting_call_tries_itself_after_a_failure() {
    let mut memory = Memory::new();
    let mut runner = Call::new(64, false);
    while runner.steps.action() != Action::Run {
        runner.step(&mut memory);
    }
    let mut waiter = Call::new(128, true);
    waiter.finish(&mut memory);
    runner.finish(&mut memory);
    assert_eq!(runner.result, Some(false));
    waiter.finish(&mut memory);
    assert!(waiter.ran);
    assert_eq!(waiter.result, Some(true));
    assert_eq!(memory.word, COMPLETE);
}

#[test]
fn a_spurious_wakeup_parks_again() {
    let mut memory = Memory::new();
    memory.word = RUNNING;
    let mut waiter = Call::new(128, true);
    waiter.finish(&mut memory);
    assert_eq!(waiter.steps.action(), Action::Park);
    memory.tokens.insert(128);
    waiter.finish(&mut memory);
    assert_eq!(waiter.steps.action(), Action::Park);
    assert_eq!(waiter.result, None);
}

#[test]
fn the_memory_orders_of_a_call() {
    let mut steps = Initializer::new(64);
    assert_eq!(steps.action(), Action::Load(Order::SeqCst));
    steps.advance(Event::Word(RUNNING | 128));
    assert_eq!(
        steps.action(),
        Action::Enqueue {
            next: 128,
            current: RUNNING | 128,
            new: RUNNING | 64,
            order: Order::Release
        }
    );
    steps.advance(Event::Word(COMPLETE));
    assert_eq!(steps.action(), Action::Load(Order::Acquire));
    steps.advance(Event::Word(INCOMPLETE));
    assert_eq!(
        steps.action(),
        Action::CompareAndSwap { current: INCOMPLETE, new: RUNNING, order: Order::SeqCst }
    );
    steps.advance(Event::Word(INCOMPLETE));
    assert_eq!(steps.action(), Action::Run);
    steps.advance(Event::Ran(true));
    assert_eq!(steps.action(), Action::Swap { new: COMPLETE, order: Order::SeqCst });
    steps.advance(Event::Word(RUNNING | 128));
    assert_eq!(steps.action(), Action::Visit { node: 128 });
    steps.advance(Event::Link(0));
    assert_eq!(steps.action(), Action::Signal { node: 128, order: Order::SeqCst });
    steps.advance(Event::Finished);
    assert_eq!(steps.action(), Action::Unpark { node: 128 });
    steps.advance(Event::Finished);
    assert_eq!(steps.action(), Action::Return(true));
}

#[test]
fn a_state_that_is_neither_is_read_again() {
    let mut steps = Initializer::new(64);
    steps.advance(Event::Word(128));
    assert_eq!(steps.action(), Action::Load(Order::Acquire));
    steps.advance(Event::Word(RUNNING));
    steps.advance(Event::Word(RUNNING | 192));
    assert_eq!(
        steps.action(),
        Action::Enqueue {
            next: 192,
            current: RUNNING | 192,
            new: RUNNING | 64,
            order: Order::Release
        }
    );
}

/// Runs a call on a word that nobody else uses.
fn run_alone(word: &AtomicUsize, succeeds: bool) -> (bool, bool) {
    let mut steps = Initializer::new(64);
    let mut ran = false;
    loop {
        let event = match perform(word, &steps) {
            Some(found) => Event::Word(found),
            None => match steps.action() {
                Action::Run => {
                    assert!(is_claimed(word.load(Ordering::SeqCst)));
                    ran = true;
                    Event::Ran(succeeds)
                }
                Action::Return(success) => return (success, ran),
                _ => panic!(),
            },
        };
        steps.advance(event);
    }
}

#[test]
fn calls_on_a_word_in_memory() {
    let word = AtomicUsize::new(INCOMPLETE);
    assert!(!is_initialized(&word));
    assert_eq!(run_alone(&word, false), (false, true));
    assert_eq!(word.load(Ordering::SeqCst), INCOMPLETE);
    assert_eq!(run_alone(&word, true), (true, true));
    assert_eq!(word.load(Ordering::SeqCst), COMPLETE);
    assert!(is_initialized(&word));
    assert_eq!(run_alone(&word, true), (true, false));
}

#[test]
fn a_node_is_put_into_a_word_in_memory() {
    let word = AtomicUsize::new(RUNNING | 128);
    let mut steps = Initializer::new(64);
    let found = perform(&word, &steps);
    assert_eq!(found, Some(RUNNING | 128));
    steps.advance(Event::Word(RUNNING | 128));
    assert_eq!(perform(&word, &steps), Some(RUNNING | 128));
    assert_eq!(word.load(Ordering::SeqCst), RUNNING | 64);
    steps.advance(Event::Word(RUNNING | 128));
    assert_eq!(steps.action(), Action::Check(Order::Acquire));
    assert_eq!(perform(&word, &steps), None);
}

#[test]
fn the_states_of_the_word() {
    assert_eq!((INCOMPLETE, RUNNING, COMPLETE, STATE_MASK), (0, 1, 2, 3));
    assert!(is_complete(COMPLETE) && !is_complete(INCOMPLETE) && !is_complete(RUNNING));
    assert!(is_claimed(RUNNING) && is_claimed(RUNNING | 64));
    assert!(!is_claimed(COMPLETE) && !is_claimed(INCOMPLETE));
}
