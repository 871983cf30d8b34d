//! Cooperative proving toolkit: an arithmetic comparison gadget over a prime
//! field, a rank-1 constraint system it is enforced in, additively
//! secret-shared field values with a collective reveal, and a structural
//! publicization transform that turns a proof transcript over secret-shared
//! leaves into a plaintext transcript of identical shape.

pub mod field;
pub mod r1cs;
pub mod dragonn;
pub mod shares;
pub mod transcript;
pub mod product;
