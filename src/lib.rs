//! A pomodoro timer: a ticking engine, a set of output sinks that render the
//! remaining time, and the decisions that drive one session end to end.
//!
//! Everything here is pure decision logic over plain values; the program around
//! it performs the effects (sleeping, reading the clock, drawing, writing files).
pub mod config;
pub mod output;
pub mod session;
pub mod timer;
