use once_cell::order::Order;
use once_cell::thread_parker::address::{AddressFutex, Compare};
use once_cell::thread_parker::posix::QueueFutex;
use once_cell::thread_parker::posix_parker::{on_flag, ParkerAction, ParkerEvent};
use once_cell::thread_parker::results::{
    futex_wait_expected, futex_wake_expected, pthread_destroy_expected, pthread_expected,
    redox_wait_expected, redox_wake_expected, umtx_expected, wait_on_address_expected,
    wasm_wait_expected, ErrorCodes,
};
use once_cell::thread_parker::spin_loop::SpinFutex;
use once_cell::thread_parker::windows_keyed::KeyedFutex;
use once_cell::thread_parker::{
    as_u32_priv, as_u32_pub, compare_half, perform_park, perform_unpark, Endian, Futex, ParkAction, ParkEvent, ParkerWithState,
    PosixParker, UnparkAction, UnparkEvent, Wait, FREE_BITS, RESERVED_BITS, RESERVED_MASK,
};
use std::collections::HashMap;
use std::mem::size_of;
use std::sync::atomic::{AtomicUsize, Ordering};

/// The lowest public bit, and the one above it.
const LOW: usize = 1 << RESERVED_BITS;
const HIGH: usize = 2 << RESERVED_BITS;

fn is_64() -> bool {
    size_of::<usize>() == 8
}

#[test]
fn the_bits_of_the_word() {
    assert_eq!(FREE_BITS, 5);
    assert_eq!(RESERVED_BITS, size_of::<usize>() * 8 - 5);
    assert_eq!(RESERVED_MASK, (1 << RESERVED_BITS) - 1);
    assert_eq!(!RESERVED_MASK, 31 << RESERVED_BITS);
}

#[test]
fn the_halves_of_the_word() {
    if is_64() {
        assert_eq!(as_u32_pub(1000, Endian::Little), 1004);
        assert_eq!(as_u32_priv(1000, Endian::Little), 1000);
        assert_eq!(as_u32_pub(1000, Endian::Big), 1000);
        assert_eq!(as_u32_priv(1000, Endian::Big), 1004);
        assert_eq!(compare_half(0x0123_4567_89ab_cdef), 0x0123_4567);
    } else {
        assert_eq!(as_u32_pub(1000, Endian::Little), 1000);
        assert_eq!(compare_half(0x0123_4567), 0x0123_4567);
    }
}

#[test]
fn a_read_at_the_public_half_gives_the_compared_number() {
    let word = LOW | HIGH | 77;
    let bytes = word.to_ne_bytes();
    let endian = if 1u16.to_ne_bytes()[0] == 1 { Endian::Little } else { Endian::Big };
    let offset = as_u32_pub(0, endian);
    let half = [bytes[offset], bytes[offset + 1], bytes[offset + 2], bytes[offset + 3]];
    assert_eq!(u32::from_ne_bytes(half), compare_half(word));
    if is_64() {
        let offset = as_u32_priv(0, endian);
        let half = [bytes[offset], bytes[offset + 1], bytes[offset + 2], bytes[offset + 3]];
        assert_eq!(u32::from_ne_bytes(half), 77);
    }
}

#[test]
fn parking_on_an_address() {
    let mut half = AddressFutex { compare: Compare::Half };
    let parks = |bits: usize| bits == LOW;
    assert_eq!(half.park(ParkEvent::Start, parks), ParkAction::Load(Order::Relaxed));
    let seen = LOW | 3;
    assert_eq!(
        half.park(ParkEvent::Loaded(seen), parks),
        ParkAction::Wait(Wait::WhileHalf(compare_half(seen)))
    );
    assert_eq!(half.park(ParkEvent::Woken, parks), ParkAction::Load(Order::Relaxed));
    assert_eq!(half.park(ParkEvent::Loaded(HIGH | 3), parks), ParkAction::Return);

    let mut word = AddressFutex { compare: Compare::Word };
    assert_eq!(
        word.park(ParkEvent::Loaded(seen), parks),
        ParkAction::Wait(Wait::WhileWord(seen))
    );
    assert_eq!(
        word.store_and_unpark(UnparkEvent::Start, HIGH),
        UnparkAction::Store { new: HIGH, order: Order::Release }
    );
    assert_eq!(word.store_and_unpark(UnparkEvent::Stored, HIGH), UnparkAction::WakeAll);
    assert_eq!(word.store_and_unpark(UnparkEvent::Finished, HIGH), UnparkAction::Return);
}

#[test]
fn a_change_of_the_public_bits_changes_the_compared_half() {
    for bits in 1..32 {
        let public: usize = bits << RESERVED_BITS;
        assert_ne!(compare_half(9), compare_half(public | 9));
    }
}

#[test]
fn spinning() {
    let mut spin = SpinFutex;
    let parks = |bits: usize| bits == LOW;
    assert_eq!(spin.park(ParkEvent::Start, parks), ParkAction::Load(Order::Relaxed));
    assert_eq!(spin.park(ParkEvent::Loaded(LOW | 1), parks), ParkAction::Wait(Wait::Spin));
    assert_eq!(spin.park(ParkEvent::Woken, parks), ParkAction::Load(Order::Relaxed));
    assert_eq!(spin.park(ParkEvent::Loaded(1), parks), ParkAction::Return);
    assert_eq!(
        spin.store_and_unpark(UnparkEvent::Start, 5),
        UnparkAction::Store { new: 5, order: Order::Release }
    );
    assert_eq!(spin.store_and_unpark(UnparkEvent::Stored, 5), UnparkAction::Return);
}

/// Parks a stepped call on a word, up to where it sleeps or returns.
fn park_queued(
    call: &mut QueueFutex,
    me: usize,
    first: ParkEvent,
    word: &mut usize,
    links: &mut HashMap<usize, usize>,
) -> ParkAction {
    let parks = |bits: usize| bits == LOW;
    let mut event = first;
    loop {
        match call.park(event, parks) {
            ParkAction::Load(_) => event = ParkEvent::Loaded(*word),
            ParkAction::Enqueue { link, current, new, .. } => {
                links.insert(me, link);
                let old = *word;
                if old == current {
                    *word = new;
                }
                event = ParkEvent::Swapped(old);
            }
            other => return other,
        }
    }
}

#[test]
fn the_last_to_register_is_the_first_to_be_unparked() {
    let mut word = LOW;
    let mut links: HashMap<usize, usize> = HashMap::new();
    let mut calls: Vec<(usize, QueueFutex)> = Vec::new();
    for me in [1024usize, 2048, 4096] {
        let mut call = QueueFutex::new(me);
        let action = park_queued(&mut call, me, ParkEvent::Start, &mut word, &mut links);
        assert_eq!(action, ParkAction::Wait(Wait::Node));
        calls.push((me, call));
    }
    assert_eq!(word, LOW | (4096 >> FREE_BITS));

    let mut unparked: Vec<usize> = Vec::new();
    let mut waker = QueueFutex::new(32);
    let mut event = UnparkEvent::Start;
    loop {
        match waker.store_and_unpark(event, HIGH) {
            UnparkAction::Swap { new, order } => {
                assert_eq!((new, order), (HIGH, Order::AcqRel));
                event = UnparkEvent::Swapped(word);
                word = new;
            }
            UnparkAction::Visit { node } => event = UnparkEvent::Link(links[&node]),
            UnparkAction::Unpark { node } => {
                unparked.push(node);
                event = UnparkEvent::Finished;
            }
            other => {
                assert_eq!(other, UnparkAction::Return);
                break;
            }
        }
    }
    assert_eq!(unparked, vec![4096, 2048, 1024]);
    for (me, call) in calls.iter_mut() {
        let action = park_queued(call, *me, ParkEvent::Woken, &mut word, &mut links);
        assert_eq!(action, ParkAction::Return);
    }
    assert_eq!(word, HIGH);
}

#[test]
fn a_thread_that_lost_the_exchange_looks_again() {
    let mut call = QueueFutex::new(1024);
    let parks = |bits: usize| bits == LOW;
    assert_eq!(call.park(ParkEvent::Start, parks), ParkAction::Load(Order::Relaxed));
    assert_eq!(
        call.park(ParkEvent::Loaded(LOW), parks),
        ParkAction::Enqueue {
            link: LOW,
            current: LOW,
            new: LOW | 32,
            order: Order::Release
        }
    );
    assert_eq!(
        call.park(ParkEvent::Swapped(LOW | 64), parks),
        ParkAction::Enqueue {
            link: LOW | 64,
            current: LOW | 64,
            new: LOW | 32,
            order: Order::Release
        }
    );
    assert_eq!(call.park(ParkEvent::Swapped(HIGH), parks), ParkAction::Return);
}

#[test]
fn a_keyed_event_is_released_once_for_each_waiter() {
    let parks = |bits: usize| bits == LOW;
    let mut word = LOW;
    for waiters in 0..3 {
        let mut call = KeyedFutex::new();
        assert_eq!(call.park(ParkEvent::Start, parks), ParkAction::Load(Order::Relaxed));
        assert_eq!(
            call.park(ParkEvent::Loaded(word), parks),
            ParkAction::CompareAndSwap {
                current: LOW | waiters,
                new: LOW | (waiters + 1),
                order: Order::Relaxed
            }
        );
        assert_eq!(call.park(ParkEvent::Swapped(word), parks), ParkAction::Wait(Wait::Keyed));
        word = LOW | (waiters + 1);
    }
    let mut waker = KeyedFutex::new();
    assert_eq!(
        waker.store_and_unpark(UnparkEvent::Start, HIGH),
        UnparkAction::Swap { new: HIGH, order: Order::Release }
    );
    let mut action = waker.store_and_unpark(UnparkEvent::Swapped(word), HIGH);
    let mut released = 0;
    while action == UnparkAction::Release {
        released += 1;
        action = waker.store_and_unpark(UnparkEvent::Finished, HIGH);
    }
    assert_eq!(action, UnparkAction::Return);
    assert_eq!(released, 3);
}

#[test]
fn a_keyed_event_is_not_released_without_waiters() {
    let mut waker = KeyedFutex::new();
    waker.store_and_unpark(UnparkEvent::Start, HIGH);
    assert_eq!(
        waker.store_and_unpark(UnparkEvent::Swapped(LOW), HIGH),
        UnparkAction::Return
    );
}

#[test]
fn a_full_count_does_not_matter_to_a_thread_that_need_not_park() {
    let parks = |bits: usize| bits == LOW;
    let mut call = KeyedFutex::new();
    call.park(ParkEvent::Start, parks);
    assert_eq!(
        call.park(ParkEvent::Loaded(HIGH | RESERVED_MASK), parks),
        ParkAction::Return
    );
}

#[test]
fn a_woken_keyed_thread_looks_again() {
    let parks = |bits: usize| bits == LOW;
    let mut call = KeyedFutex::new();
    call.park(ParkEvent::Start, parks);
    call.park(ParkEvent::Loaded(LOW), parks);
    call.park(ParkEvent::Swapped(LOW), parks);
    assert_eq!(call.park(ParkEvent::Woken, parks), ParkAction::Load(Order::Relaxed));
    assert_eq!(
        call.park(ParkEvent::Loaded(LOW), parks),
        ParkAction::CompareAndSwap { current: LOW, new: LOW | 1, order: Order::Relaxed }
    );
    assert_eq!(call.park(ParkEvent::Swapped(HIGH), parks), ParkAction::Return);
}

#[test]
fn a_woken_thread_is_asked_about_the_current_word() {
    let parks = |bits: usize| bits == LOW;
    let mut keyed = KeyedFutex::new();
    keyed.park(ParkEvent::Start, parks);
    keyed.park(ParkEvent::Loaded(LOW), parks);
    keyed.park(ParkEvent::Swapped(LOW), parks);
    assert_eq!(keyed.park(ParkEvent::Woken, parks), ParkAction::Load(Order::Relaxed));
    assert_eq!(keyed.park(ParkEvent::Loaded(HIGH), parks), ParkAction::Return);

    let mut queued = QueueFutex::new(1024);
    queued.park(ParkEvent::Start, parks);
    queued.park(ParkEvent::Loaded(LOW), parks);
    assert_eq!(queued.park(ParkEvent::Swapped(LOW), parks), ParkAction::Wait(Wait::Node));
    assert_eq!(queued.park(ParkEvent::Woken, parks), ParkAction::Load(Order::Relaxed));
    assert_eq!(queued.park(ParkEvent::Loaded(HIGH), parks), ParkAction::Return);

    let mut address = AddressFutex { compare: Compare::Word };
    address.park(ParkEvent::Start, parks);
    assert_eq!(
        address.park(ParkEvent::Loaded(LOW), parks),
        ParkAction::Wait(Wait::WhileWord(LOW))
    );
    assert_eq!(address.park(ParkEvent::Woken, parks), ParkAction::Load(Order::Relaxed));
    assert_eq!(address.park(ParkEvent::Loaded(HIGH), parks), ParkAction::Return);
}

#[test]
fn a_parker_sleeps_until_it_is_unparked() {
    let parker = PosixParker::new();
    assert_eq!(parker.park(ParkerEvent::Start), ParkerAction::Lock);
    assert_eq!(parker.park(ParkerEvent::Locked), ParkerAction::Wait);
    assert_eq!(parker.park(ParkerEvent::Woken), ParkerAction::Wait);
    assert_eq!(parker.unpark(ParkerEvent::Start), ParkerAction::Lock);
    assert_eq!(parker.unpark(ParkerEvent::Locked), ParkerAction::Signal);
    assert_eq!(parker.unpark(ParkerEvent::Signaled), ParkerAction::Unlock);
    assert_eq!(parker.unpark(ParkerEvent::Unlocked), ParkerAction::Return);
    assert_eq!(parker.park(ParkerEvent::Woken), ParkerAction::Unlock);
    assert_eq!(parker.park(ParkerEvent::Unlocked), ParkerAction::Return);
}

#[test]
fn a_parker_that_was_unparked_does_not_sleep() {
    let parker = PosixParker::new();
    parker.unpark(ParkerEvent::Locked);
    for _ in 0..3 {
        assert_eq!(parker.park(ParkerEvent::Start), ParkerAction::Lock);
        assert_eq!(parker.park(ParkerEvent::Locked), ParkerAction::Unlock);
        assert_eq!(parker.park(ParkerEvent::Unlocked), ParkerAction::Return);
        parker.unpark(ParkerEvent::Locked);
    }
    assert_eq!(on_flag(true), ParkerAction::Wait);
    assert_eq!(on_flag(false), ParkerAction::Unlock);
}

#[test]
fn the_expected_results() {
    let codes = ErrorCodes { eintr: 4, eagain: 11, etimedout: 110, efault: 14, einval: 22 };
    assert!(futex_wait_expected(0, 0, false, codes));
    assert!(futex_wait_expected(-1, 4, false, codes));
    assert!(futex_wait_expected(-1, 11, false, codes));
    assert!(futex_wait_expected(-1, 110, true, codes));
    assert!(!futex_wait_expected(-1, 110, false, codes));
    assert!(!futex_wait_expected(-1, 14, true, codes));
    assert!(!futex_wait_expected(1, 0, false, codes));

    assert!(futex_wake_expected(0, 0, i32::MAX, codes));
    assert!(futex_wake_expected(3, 0, 3, codes));
    assert!(!futex_wake_expected(4, 0, 3, codes));
    assert!(futex_wake_expected(-1, 14, 3, codes));
    assert!(!futex_wake_expected(-1, 4, 3, codes));
    assert!(!futex_wake_expected(-2, 14, 3, codes));

    assert!(umtx_expected(0) && umtx_expected(-1) && !umtx_expected(1));

    assert!(redox_wait_expected(Ok(0), codes));
    assert!(!redox_wait_expected(Ok(1), codes));
    assert!(redox_wait_expected(Err(4), codes));
    assert!(redox_wait_expected(Err(11), codes));
    assert!(redox_wait_expected(Err(110), codes));
    assert!(!redox_wait_expected(Err(14), codes));
    assert!(redox_wake_expected(Ok(2), 2, codes));
    assert!(!redox_wake_expected(Ok(3), 2, codes));
    assert!(redox_wake_expected(Err(14), 2, codes));
    assert!(!redox_wake_expected(Err(4), 2, codes));

    assert!(wasm_wait_expected(0) && wasm_wait_expected(1) && wasm_wait_expected(2));
    assert!(!wasm_wait_expected(3) && !wasm_wait_expected(-1));
    assert!(wait_on_address_expected(1) && !wait_on_address_expected(0));

    assert!(pthread_expected(0) && !pthread_expected(22));
    assert!(pthread_destroy_expected(0, false, codes));
    assert!(pthread_destroy_expected(22, true, codes));
    assert!(!pthread_destroy_expected(22, false, codes));
    assert!(!pthread_destroy_expected(4, true, codes));
}

#[test]
fn operations_on_a_word_in_memory() {
    let word = AtomicUsize::new(LOW);
    assert_eq!(
        perform_park(&word, ParkAction::Load(Order::Relaxed)),
        Some(ParkEvent::Loaded(LOW))
    );
    let swap = ParkAction::CompareAndSwap { current: LOW, new: LOW | 1, order: Order::Relaxed };
    assert_eq!(perform_park(&word, swap), Some(ParkEvent::Swapped(LOW)));
    assert_eq!(perform_park(&word, swap), Some(ParkEvent::Swapped(LOW | 1)));
    assert_eq!(word.load(Ordering::Relaxed), LOW | 1);
    let enqueue = ParkAction::Enqueue {
        link: LOW | 1,
        current: LOW | 1,
        new: LOW | 2,
        order: Order::Release,
    };
    assert_eq!(perform_park(&word, enqueue), Some(ParkEvent::Swapped(LOW | 1)));
    assert_eq!(word.load(Ordering::Relaxed), LOW | 2);
    assert_eq!(perform_park(&word, ParkAction::Wait(Wait::Node)), None);
    assert_eq!(perform_park(&word, ParkAction::Return), None);

    let swap = UnparkAction::Swap { new: HIGH, order: Order::AcqRel };
    assert_eq!(perform_unpark(&word, swap), Some(UnparkEvent::Swapped(LOW | 2)));
    let store = UnparkAction::Store { new: 5, order: Order::Release };
    assert_eq!(perform_unpark(&word, store), Some(UnparkEvent::Stored));
    assert_eq!(word.load(Ordering::Relaxed), 5);
    assert_eq!(perform_unpark(&word, UnparkAction::WakeAll), None);
    assert_eq!(perform_unpark(&word, UnparkAction::Return), None);
}
