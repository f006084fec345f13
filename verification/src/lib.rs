//! Rank-1 constraint systems over the scalar field of the Ristretto group.
//!
//! A gadget builds a constraint system by allocating multiplication gates
//! and committed wires and by adding linear constraints on them. It does so
//! through the trait [`constraint_system::ConstraintSystem`], once on the
//! system of the prover, who knows the value of every wire, and once on
//! that of the verifier, who knows none. Finalizing either system gives the
//! [`circuit::Circuit`]: the matrices `W_L`, `W_R`, `W_O`, `W_V` and the
//! vector `c` that a proof protocol works on.
//!
//! - [`scalar`]: the field, with its arithmetic done by `curve25519_dalek`.
//! - [`assignment`]: values of wires that may be missing.
//! - [`variable`], [`linear_combination`]: wires, and linear combinations
//!   of them.
//! - [`circuit`]: the padding rule and the assembly of the matrices.
//! - [`relation`]: what a circuit says of the wires.
//! - [`circuit_proof`]: a constraint system without a role.
//! - [`constraint_system`], [`prover_cs`], [`verifier_cs`]: the surface for
//!   gadgets and its two sides.
//! - [`generators`], [`transcript`]: Pedersen commitments and the
//!   Fiat-Shamir transcript.
//! - [`errors`]: what can go wrong.

pub mod assignment;
pub mod circuit;
pub mod circuit_proof;
pub mod constraint_system;
pub mod errors;
pub mod generators;
pub mod linear_combination;
pub mod prover_cs;
pub mod relation;
pub mod scalar;
pub mod transcript;
pub mod variable;
pub mod verifier_cs;
