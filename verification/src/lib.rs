//! Hematite: a compiler for int8 neural networks, from a model file to the
//! kernel calls that run it, and the fixed-point arithmetic that the kernels
//! share.
//!
//! * [`attribute`] and [`flatbuffer`] read what names the model and the model
//!   itself; [`model`] is the graph.
//! * [`ieee`], [`requant`] and [`int8`] turn scales, which are floating-point
//!   patterns, into integer multipliers and shifts, and apply them.
//! * [`fusion`] groups operators that one kernel call computes; [`schedule`]
//!   states what holds of the groups. [`eligibility`] says what the vector
//!   kernels can run, and [`selector`] picks the kernel of a group.
//! * [`layout`] decides on channel padding and does weight transposes beforehand.
//!   [`arena`] asks for the memory of the intermediate tensors.
//! * [`operands`], [`generate`] and [`program`] emit the calls; [`emit_error`]
//!   says why a model has none.
//! * [`op_params`] and [`kernel`] are the interface to the backend that runs the
//!   calls.
//! * [`accuracy`] states what pairs and ranges mean in real numbers. With it
//!   [`calls`] ties emitted calls to their operators, [`groups`] fused groups to
//!   the graph, [`estimates`] the choice of kernels to what they compute,
//!   [`schema`] models to the bytes of their files, and [`refusals`] errors to
//!   what is wrong.
//!
//! [`arith`], [`bytes`], [`shape`] and [`text`] are shared by the others.

pub mod accuracy;
pub mod arena;
pub mod arith;
pub mod attribute;
pub mod bytes;
pub mod calls;
pub mod eligibility;
pub mod emit_error;
pub mod estimates;
pub mod flatbuffer;
pub mod fusion;
pub mod generate;
pub mod groups;
pub mod ieee;
pub mod int8;
pub mod kernel;
pub mod layout;
pub mod model;
pub mod op_params;
pub mod operands;
pub mod program;
pub mod refusals;
pub mod requant;
pub mod schedule;
pub mod schema;
pub mod selector;
pub mod shape;
pub mod text;

