//! JSON output of compiled Verilog-A modules, and the course of the runs that
//! produce it.
//!
//! A compiled module ([`model`]) is written by [`module`], from its functions
//! ([`function`], [`args`], [`params`]) and its equations ([`dae`], [`mna`]), which
//! share one numbering of branches ([`branches`]). It is handed to a writer as
//! [`mod@write`] says. How JSON is laid out is in [`json`], and how it is read in
//! [`grammar`]. What is laid out reads as it should ([`wellformed`], [`legal`],
//! [`laws`]), and there is only one way to read it ([`unambiguous`]). What stands
//! where is in [`content`], and which branch has which number in [`numbering`]. What
//! a run does next is decided in [`compile`], [`dump`] and [`expand`], on the options
//! in [`options`]; [`failure`] says what can go wrong, and [`report`] what is printed
//! about modules. Calls into other crates are in [`literals`] and [`paths`].

pub mod args;
pub mod branches;
mod builder;
pub mod compile;
pub mod content;
pub mod dae;
pub mod dump;
pub mod expand;
pub mod failure;
pub mod function;
pub mod grammar;
pub mod json;
pub mod laws;
pub mod legal;
pub mod literals;
pub mod mna;
pub mod model;
pub mod module;
pub mod numbering;
pub mod options;
pub mod params;
pub mod paths;
pub mod report;
pub mod text;
pub mod unambiguous;
pub mod wellformed;
pub mod write;
