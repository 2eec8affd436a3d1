//! Generator of the bare functions of a runtime interface.
//!
//! A runtime interface is a trait whose methods the runtime calls by their plain
//! names. For every method this library emits the function of that name, once
//! for the host build and once for the guest build, and for every declared
//! version of the method the host-side function that enters the trait body.
//!
//! The emitted functions are first built as values
//! ([`emitted::EmittedFunction`]) and then written as tokens into a
//! `proc_macro2::TokenStream` ([`generate::generate`]).
//!
//! The generator joins new identifiers out of the names it is given. It takes
//! names that are made of ASCII letters, digits and `_` and do not begin with a
//! digit, and answers any other name with an error.
pub mod emit;
pub mod emitted;
pub mod error;
pub mod generate;
pub mod interface;
pub mod laws;
pub mod model;
pub mod names;
pub mod render;
pub mod shape;
pub mod stream;
pub mod write;
