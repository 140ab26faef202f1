//! Scaffolding for PolkaVM smart contracts: an ABI-to-dispatch compiler that
//! derives canonical signatures, Ethereum-style selectors and per-function
//! calldata decode plans, together with the decision logic of the project
//! initializer and of the PolkaVM build helper.

pub mod text;
pub mod hash;
pub mod abi;
pub mod signature;
pub mod ident;
pub mod decode;
pub mod dispatch;
pub mod examples;
pub mod init;
pub mod builder;
pub mod toolchain;
