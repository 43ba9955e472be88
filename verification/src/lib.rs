//! Automatic screen brightness: decisions, parsing and state machines of the
//! `wluma` daemon, each with a contract that Verus proves.

pub mod text;
pub mod brightness;
pub mod control;
pub mod maps;
pub mod als;
pub mod config;
pub mod predictor;
pub mod cli;
pub mod idle;
pub mod state;
pub mod frame;
pub mod runtime;
