//! Lowering of a small Ada-like subprogram language into a straight-line,
//! register-based intermediate representation, and from there into LLVM.
//!
//! The syntax tree is plain data ([`expression`], [`statement`],
//! [`prototype`], [`subprogram`]).  [`codegen`] walks it and emits
//! [`ir`] instructions; every step is defined by a pure function in
//! [`lowering`] and [`unit`], and the executable code is proved to compute
//! exactly that.  [`mapper`] maps types and prototypes.  [`laws`] holds what
//! is proved of every lowering.
//! [`typing`] says which modules are well-formed, and [`backend`] replays
//! those through LLVM's builder.
pub mod backend;
pub mod codegen;
pub mod data_type;
pub mod error;
pub mod expression;
pub mod ir;
pub mod laws;
pub mod lowering;
pub mod mapper;
pub mod prototype;
pub mod scope;
pub mod statement;
pub mod subprogram;
pub mod typing;
pub mod unit;
pub mod views;
