[package]
name = "once_cell"
version = "0.1.0"
edition = "2021"
publish = false

[dependencies]
libc = "=0.2.191"
parking_lot = "=0.10.2"
redox_syscall = "=0.2.16"
winapi = { version = "=0.3.9", features = ["basetsd", "libloaderapi", "minwindef", "ntdef", "ntstatus", "winbase", "winnt"] }
