use once_cell::thread_parker::windows::{
    library_name, probe_keyed_event, probe_wait_address, symbol_name, AvailableBackend, Backend,
    KeyedEvent, Library, Symbol, WaitAddress, DESIRED_ACCESS, STATUS_SUCCESS,
};
use std::cell::RefCell;

const WAIT: WaitAddress = WaitAddress { wait_on_address: 11, wake_by_address_all: 12 };
const KEYED: KeyedEvent =
    KeyedEvent { handle: 99, nt_release_keyed_event: 23, nt_wait_for_keyed_event: 22 };

fn address(symbol: Symbol) -> usize {
    match symbol {
        Symbol::WaitOnAddress => 11,
        Symbol::WakeByAddressAll => 12,
        Symbol::NtCreateKeyedEvent => 21,
        Symbol::NtWaitForKeyedEvent => 22,
        Symbol::NtReleaseKeyedEvent => 23,
    }
}

/// Looks everything up but for `missing`, and gives the symbols that were asked for.
fn wait_without(dll: usize, missing: Option<Symbol>) -> (Option<WaitAddress>, Vec<Symbol>) {
    let asked = RefCell::new(Vec::new());
    let found = probe_wait_address(
        |library| {
            assert_eq!(library, Library::Synch);
            dll
        },
        |module, symbol| {
            assert_eq!(module, dll);
            asked.borrow_mut().push(symbol);
            if Some(symbol) == missing { 0 } else { address(symbol) }
        },
    );
    (found, asked.into_inner())
}

fn keyed_without(
    dll: usize,
    missing: Option<Symbol>,
    status: i32,
) -> (Option<KeyedEvent>, Vec<Symbol>, bool) {
    let asked = RefCell::new(Vec::new());
    let made = RefCell::new(false);
    let found = probe_keyed_event(
        |library| {
            assert_eq!(library, Library::Ntdll);
            dll
        },
        |module, symbol| {
            assert_eq!(module, dll);
            asked.borrow_mut().push(symbol);
            if Some(symbol) == missing { 0 } else { address(symbol) }
        },
        |function, access, flags| {
            assert_eq!((function, access, flags), (21, DESIRED_ACCESS, 0));
            *made.borrow_mut() = true;
            (status, 99)
        },
    );
    (found, asked.into_inner(), made.into_inner())
}

#[test]
fn the_functions_for_addresses() {
    let both = vec![Symbol::WaitOnAddress, Symbol::WakeByAddressAll];
    assert_eq!(wait_without(7, None), (Some(WAIT), both.clone()));
    assert_eq!(wait_without(0, None), (None, vec![]));
    assert_eq!(
        wait_without(7, Some(Symbol::WaitOnAddress)),
        (None, vec![Symbol::WaitOnAddress])
    );
    assert_eq!(wait_without(7, Some(Symbol::WakeByAddressAll)), (None, both));
}

#[test]
fn the_functions_for_keyed_events() {
    let all = vec![
        Symbol::NtCreateKeyedEvent,
        Symbol::NtWaitForKeyedEvent,
        Symbol::NtReleaseKeyedEvent,
    ];
    assert_eq!(keyed_without(7, None, STATUS_SUCCESS), (Some(KEYED), all.clone(), true));
    assert_eq!(keyed_without(7, None, -1), (None, all.clone(), true));
    assert_eq!(keyed_without(0, None, STATUS_SUCCESS), (None, vec![], false));
    for i in 0..3 {
        assert_eq!(
            keyed_without(7, Some(all[i]), STATUS_SUCCESS),
            (None, all[..i + 1].to_vec(), false)
        );
    }
}

#[test]
fn the_backend_is_looked_up_once() {
    let mut backend = Backend::new();
    assert!(!backend.initialized);
    assert_eq!(
        backend.get(|| Some(WAIT), || unreachable!()),
        Some(AvailableBackend::Wait(WAIT))
    );
    assert_eq!(
        backend.get(|| unreachable!(), || unreachable!()),
        Some(AvailableBackend::Wait(WAIT))
    );
}

#[test]
fn keyed_events_are_the_second_choice() {
    let mut backend = Backend::new();
    assert_eq!(backend.get(|| None, || Some(KEYED)), Some(AvailableBackend::Keyed(KEYED)));
    assert_eq!(
        backend.get(|| unreachable!(), || unreachable!()),
        Some(AvailableBackend::Keyed(KEYED))
    );
}

#[test]
fn without_either_there_is_no_backend() {
    let mut backend = Backend::new();
    assert_eq!(backend.get(|| None, || None), None);
    assert_eq!(backend, Backend::new());
    assert_eq!(backend.get(|| Some(WAIT), || None), Some(AvailableBackend::Wait(WAIT)));
}

#[test]
fn the_names_that_are_looked_up() {
    assert_eq!(library_name(Library::Synch), "api-ms-win-core-synch-l1-2-0.dll\0");
    assert_eq!(library_name(Library::Ntdll), "ntdll.dll\0");
    assert_eq!(symbol_name(Symbol::WaitOnAddress), "WaitOnAddress\0");
    assert_eq!(symbol_name(Symbol::WakeByAddressAll), "WakeByAddressAll\0");
    assert_eq!(symbol_name(Symbol::NtCreateKeyedEvent), "NtCreateKeyedEvent\0");
    assert_eq!(symbol_name(Symbol::NtWaitForKeyedEvent), "NtWaitForKeyedEvent\0");
    assert_eq!(symbol_name(Symbol::NtReleaseKeyedEvent), "NtReleaseKeyedEvent\0");
}
