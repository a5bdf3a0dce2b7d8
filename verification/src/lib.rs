//! Verified decision logic of a family of small session-typed programs:
//! a greeter, an adder, a coin exchange, a calculator, an ATM and three
//! kinds of queue.  Each module holds the state and the decisions of one
//! program's processes; the channels that connect them live outside the
//! library.
pub mod adder;
pub mod atm;
pub mod coin_exchange;
pub mod hello;
pub mod linear_queue;
pub mod shared_queue;
pub mod simple_calculator;
pub mod vec_queue;
