//! Protocol and screen logic of the Hyper Box file sender.

pub mod conduct;
pub mod cuts;
pub mod display;
pub mod element;
pub mod history;
pub mod json;
pub mod laws;
pub mod message;
pub mod numerals;
pub mod rounding;
pub mod screen;
pub mod session;
pub mod state;
pub mod text;
pub mod transfer;
pub mod ui;
pub mod units;
pub mod wire;
