//! Which functions of Windows threads are parked with.
//!
//! `WaitOnAddress` and `WakeByAddressAll` are there from Windows 8 on; keyed events have been there
//! since Windows XP. Both have to be looked up when the program runs. Handles and addresses are numbers
//! here, 0 where there is none.

use vstd::prelude::*;

verus! {

/// A library that is looked up.
#[derive(Clone, Copy, Debug, PartialEq, Eq, Structural)]
pub enum Library {
    /// The one that holds `WaitOnAddress` and `WakeByAddressAll`.
    Synch,
    /// The one that holds keyed events.
    Ntdll,
}

/// A function that is looked up in a library.
#[derive(Clone, Copy, Debug, PartialEq, Eq, Structural)]
pub enum Symbol {
    WaitOnAddress,
    WakeByAddressAll,
    NtCreateKeyedEvent,
    NtWaitForKeyedEvent,
    NtReleaseKeyedEvent,
}

/// The name of a library, with the null character at its end.
pub fn library_name(library: Library) -> (name: &'static str)
    ensures
        name@ == (match library {
            Library::Synch => "api-ms-win-core-synch-l1-2-0.dll\0"@,
            Library::Ntdll => "ntdll.dll\0"@,
        }),
{
    match library {
        Library::Synch => "api-ms-win-core-synch-l1-2-0.dll\0",
        Library::Ntdll => "ntdll.dll\0",
    }
}

/// The name of a function, with the null character at its end.
pub fn symbol_name(symbol: Symbol) -> (name: &'static str)
    ensures
        name@ == (match symbol {
            Symbol::WaitOnAddress => "WaitOnAddress\0"@,
            Symbol::WakeByAddressAll => "WakeByAddressAll\0"@,
            Symbol::NtCreateKeyedEvent => "NtCreateKeyedEvent\0"@,
            Symbol::NtWaitForKeyedEvent => "NtWaitForKeyedEvent\0"@,
            Symbol::NtReleaseKeyedEvent => "NtReleaseKeyedEvent\0"@,
        }),
{
    match symbol {
        Symbol::WaitOnAddress => "WaitOnAddress\0",
        Symbol::WakeByAddressAll => "WakeByAddressAll\0",
        Symbol::NtCreateKeyedEvent => "NtCreateKeyedEvent\0",
        Symbol::NtWaitForKeyedEvent => "NtWaitForKeyedEvent\0",
        Symbol::NtReleaseKeyedEvent => "NtReleaseKeyedEvent\0",
    }
}

/// The status of a call that succeeded.
pub const STATUS_SUCCESS: i32 = 0;

/// The access to a keyed event that is asked for: `GENERIC_READ` and `GENERIC_WRITE`.
pub const DESIRED_ACCESS: u32 = 0xc000_0000;

/// The addresses of the functions that park threads on an address.
#[derive(Clone, Copy, Debug, PartialEq, Eq, Structural)]
pub struct WaitAddress {
    pub wait_on_address: usize,
    pub wake_by_address_all: usize,
}

/// A keyed event, and the addresses of the functions that park threads on it.
#[derive(Clone, Copy, Debug, PartialEq, Eq, Structural)]
pub struct KeyedEvent {
    pub handle: usize,
    pub nt_release_keyed_event: usize,
    pub nt_wait_for_keyed_event: usize,
}

/// What the lookup of the functions that park threads on an address comes to.
pub open spec fn found_wait_address(dll: usize, wait: usize, wake: usize) -> Option<WaitAddress> {
    if dll != 0 && wait != 0 && wake != 0 {
        Some(WaitAddress { wait_on_address: wait, wake_by_address_all: wake })
    } else {
        None
    }
}

/// Looks up the functions that park threads on an address. `module` gives the handle of a library,
/// `symbol` the address of a function in it. Nothing more is looked up once something is missing.
pub fn probe_wait_address<M, S>(module: M, symbol: S) -> (found: Option<WaitAddress>) where
    M: Fn(Library) -> usize,
    S: Fn(usize, Symbol) -> usize,

    requires
        module.requires((Library::Synch,)),
        forall|dll: usize|
            dll != 0 && #[trigger] module.ensures((Library::Synch,), dll) ==> symbol.requires(
                (dll, Symbol::WaitOnAddress),
            ),
        forall|dll: usize, wait: usize|
            dll != 0 && wait != 0 && module.ensures((Library::Synch,), dll)
                && #[trigger] symbol.ensures((dll, Symbol::WaitOnAddress), wait) ==> symbol.requires(
                (dll, Symbol::WakeByAddressAll),
            ),
    ensures
        exists|dll: usize, wait: usize, wake: usize|
            {
                &&& module.ensures((Library::Synch,), dll)
                &&& dll != 0 ==> symbol.ensures((dll, Symbol::WaitOnAddress), wait)
                &&& dll != 0 && wait != 0 ==> symbol.ensures((dll, Symbol::WakeByAddressAll), wake)
                &&& found == #[trigger] found_wait_address(dll, wait, wake)
            },
{
    let dll = module(Library::Synch);
    if dll == 0 {
        assert(found_wait_address(dll, 0, 0) is None);
        return None;
    }
    let wait = symbol(dll, Symbol::WaitOnAddress);
    if wait == 0 {
        assert(found_wait_address(dll, wait, 0) is None);
        return None;
    }
    let wake = symbol(dll, Symbol::WakeByAddressAll);
    if wake == 0 {
        assert(found_wait_address(dll, wait, wake) is None);
        return None;
    }
    let found = Some(WaitAddress { wait_on_address: wait, wake_by_address_all: wake });
    assert(found == found_wait_address(dll, wait, wake));
    found
}

/// What the lookup of the functions that park threads on a keyed event comes to. `made` is the status
/// of the call that makes the event, and the event's handle.
pub open spec fn found_keyed_event(
    dll: usize,
    create: usize,
    wait: usize,
    release: usize,
    made: (i32, usize),
) -> Option<KeyedEvent> {
    if dll != 0 && create != 0 && wait != 0 && release != 0 && made.0 == STATUS_SUCCESS {
        Some(
            KeyedEvent {
                handle: made.1,
                nt_release_keyed_event: release,
                nt_wait_for_keyed_event: wait,
            },
        )
    } else {
        None
    }
}

/// Looks up the functions that park threads on a keyed event, and makes the event. `module` gives the
/// handle of a library, `symbol` the address of a function in it; `create` calls the function that
/// makes a keyed event, with an access and with flags, and gives its status and the event's handle.
/// Nothing more is done once something is missing.
pub fn probe_keyed_event<M, S, C>(module: M, symbol: S, create: C) -> (found: Option<
    KeyedEvent,
>) where
    M: Fn(Library) -> usize,
    S: Fn(usize, Symbol) -> usize,
    C: FnOnce(usize, u32, u32) -> (i32, usize),

    requires
        module.requires((Library::Ntdll,)),
        forall|dll: usize|
            dll != 0 && #[trigger] module.ensures((Library::Ntdll,), dll) ==> symbol.requires(
                (dll, Symbol::NtCreateKeyedEvent),
            ),
        forall|dll: usize, make: usize|
            dll != 0 && make != 0 && module.ensures((Library::Ntdll,), dll)
                && #[trigger] symbol.ensures((dll, Symbol::NtCreateKeyedEvent), make)
                ==> symbol.requires((dll, Symbol::NtWaitForKeyedEvent)),
        forall|dll: usize, make: usize, wait: usize|
            dll != 0 && make != 0 && wait != 0 && module.ensures((Library::Ntdll,), dll)
                && #[trigger] symbol.ensures((dll, Symbol::NtCreateKeyedEvent), make)
                && #[trigger] symbol.ensures((dll, Symbol::NtWaitForKeyedEvent), wait)
                ==> symbol.requires((dll, Symbol::NtReleaseKeyedEvent)),
        forall|dll: usize, make: usize, wait: usize, release: usize|
            dll != 0 && make != 0 && wait != 0 && release != 0 && module.ensures(
                (Library::Ntdll,),
                dll,
            ) && #[trigger] symbol.ensures((dll, Symbol::NtCreateKeyedEvent), make)
                && #[trigger] symbol.ensures((dll, Symbol::NtWaitForKeyedEvent), wait)
                && #[trigger] symbol.ensures((dll, Symbol::NtReleaseKeyedEvent), release)
                ==> create.requires((make, DESIRED_ACCESS, 0)),
    ensures
        exists|dll: usize, make: usize, wait: usize, release: usize, made: (i32, usize)|
            {
                &&& module.ensures((Library::Ntdll,), dll)
                &&& dll != 0 ==> symbol.ensures((dll, Symbol::NtCreateKeyedEvent), make)
                &&& dll != 0 && make != 0 ==> symbol.ensures(
                    (dll, Symbol::NtWaitForKeyedEvent),
                    wait,
                )
                &&& dll != 0 && make != 0 && wait != 0 ==> symbol.ensures(
                    (dll, Symbol::NtReleaseKeyedEvent),
                    release,
                )
                &&& dll != 0 && make != 0 && wait != 0 && release != 0 ==> create.ensures(
                    (make, DESIRED_ACCESS, 0),
                    made,
                )
                &&& found == #[trigger] found_keyed_event(dll, make, wait, release, made)
            },
{
    let dll = module(Library::Ntdll);
    if dll == 0 {
        assert(found_keyed_event(dll, 0, 0, 0, (0, 0)) is None);
        return None;
    }
    let make = symbol(dll, Symbol::NtCreateKeyedEvent);
    if make == 0 {
        assert(found_keyed_event(dll, make, 0, 0, (0, 0)) is None);
        return None;
    }
    let wait = symbol(dll, Symbol::NtWaitForKeyedEvent);
    if wait == 0 {
        assert(found_keyed_event(dll, make, wait, 0, (0, 0)) is None);
        return None;
    }
    let release = symbol(dll, Symbol::NtReleaseKeyedEvent);
    if release == 0 {
        assert(found_keyed_event(dll, make, wait, release, (0, 0)) is None);
        return None;
    }
    let made = create(make, DESIRED_ACCESS, 0);
    if made.0 != STATUS_SUCCESS {
        assert(found_keyed_event(dll, make, wait, release, made) is None);
        return None;
    }
    let found = Some(
        KeyedEvent {
            handle: made.1,
            nt_release_keyed_event: release,
            nt_wait_for_keyed_event: wait,
        },
    );
    assert(found == found_keyed_event(dll, make, wait, release, made));
    found
}

/// What threads are parked with.
#[derive(Clone, Copy, Debug, PartialEq, Eq, Structural)]
pub enum AvailableBackend {
    /// Nothing was looked up yet.
    Unknown,
    /// The functions that park threads on an address.
    Wait(WaitAddress),
    /// A keyed event.
    Keyed(KeyedEvent),
}

/// What threads are parked with, looked up once.
#[derive(Clone, Copy, Debug, PartialEq, Eq, Structural)]
pub struct Backend {
    pub initialized: bool,
    pub backend: AvailableBackend,
}

/// Which of the two ways is taken: keyed events only where threads cannot be parked on an address.
pub open spec fn preferred(
    wait: Option<WaitAddress>,
    keyed: Option<KeyedEvent>,
) -> Option<AvailableBackend> {
    match wait {
        Some(wait) => Some(AvailableBackend::Wait(wait)),
        None => match keyed {
            Some(keyed) => Some(AvailableBackend::Keyed(keyed)),
            None => None,
        },
    }
}

impl Backend {
    /// What was looked up is there.
    pub open spec fn wf(self) -> bool {
        self.initialized ==> self.backend !is Unknown
    }

    /// Nothing was looked up yet.
    pub fn new() -> (backend: Self)
        ensures
            backend == (Backend { initialized: false, backend: AvailableBackend::Unknown }),
            backend.wf(),
    {
        Backend { initialized: false, backend: AvailableBackend::Unknown }
    }

    /// What threads are parked with. Looks it up at the first call, and keyed events only if threads
    /// cannot be parked on an address. Returns `None` if there is neither; a later call looks again.
    pub fn get<W, K>(&mut self, probe_wait: W, probe_keyed: K) -> (found: Option<
        AvailableBackend,
    >) where W: FnOnce() -> Option<WaitAddress>, K: FnOnce() -> Option<KeyedEvent>
        requires
            old(self).wf(),
            !old(self).initialized ==> probe_wait.requires(()),
            !old(self).initialized && probe_wait.ensures((), None) ==> probe_keyed.requires(()),
        ensures
            final(self).wf(),
            found matches Some(backend) ==> backend !is Unknown,
            old(self).initialized ==> found == Some(old(self).backend) && *final(self) == *old(
                self,
            ),
            !old(self).initialized ==> exists|wait: Option<WaitAddress>, keyed: Option<KeyedEvent>|
                {
                    &&& probe_wait.ensures((), wait)
                    &&& wait is None ==> probe_keyed.ensures((), keyed)
                    &&& found == #[trigger] preferred(wait, keyed)
                    &&& *final(self) == match found {
                        Some(backend) => Backend { initialized: true, backend },
                        None => *old(self),
                    }
                },
    {
        if !self.initialized {
            let backend = if let Some(wait) = probe_wait() {
                assert(Some(AvailableBackend::Wait(wait)) == preferred(Some(wait), None));
                AvailableBackend::Wait(wait)
            } else if let Some(keyed) = probe_keyed() {
                assert(Some(AvailableBackend::Keyed(keyed)) == preferred(None, Some(keyed)));
                AvailableBackend::Keyed(keyed)
            } else {
                assert(preferred(None, None) is None);
                return None;
            };
            self.backend = backend;
            self.initialized = true;
        }
        Some(self.backend)
    }
}

} // verus!
