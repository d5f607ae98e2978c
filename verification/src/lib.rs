//! The verified core of a cell that is written once and read many times, and of the parking
//! primitives that let threads wait for the write.

pub mod chain;
pub mod imp_pl;
pub mod imp_std;
pub mod operation;
pub mod order;
pub mod slot;
pub mod thread_parker;
pub mod word;
