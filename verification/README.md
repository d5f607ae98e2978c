# once_cell

The verified core of a cell that is written once and read many times, and of the primitives that park
threads on a word in memory.

`src/` is the library. It decides, operation by operation, what a thread does next, and proves what holds
when any number of threads follow these decisions in any order:

- `imp_std`: a cell whose waiting threads form a linked list in its state word; `imp_std/protocol.rs` has
  the laws.
- `imp_pl`: a cell whose waiting threads block on a reentrant mutex of `parking_lot`;
  `imp_pl/protocol.rs` has the laws. `imp_pl/mutex.rs` is a mutex that protects no data, made of
  `imp_pl/raw.rs`.
- `thread_parker`: parking threads on a word, in the way that each platform offers. `address` is for
  platforms that put a thread to sleep on an address, `posix` with `posix_parker` and `posix_queue` for
  those with mutexes and condition variables, `windows` and `windows_keyed` for Windows, `spin_loop` for
  all others. `results` tells which results of system calls are expected.
- `chain`: linked lists that share their nodes. `order`, `word`: operations on words that threads share.
  `slot`: the place of a cell's value.

The laws assume that all threads see all operations in one order. The memory orders that the operations
are given with are part of the decisions, and the functions that perform the operations are held to them;
what follows from weaker orders is not reasoned about.

`app/` runs the decisions on real threads: it makes the system calls, and reads and writes memory that is
shared by address. `tests/` runs the library.
