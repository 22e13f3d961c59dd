//! Packaging of a smart contract: the interface descriptor derived from the
//! public functions of its contract module, the path at which its build
//! leaves the compiled module, and the digest that identifies that module.
pub mod abi;
pub mod digest;
pub mod interface;
pub mod source;
pub mod target;
