//! The WebAssembly front end of a compiler for the Miden VM, with the parts of
//! the guest SDK that move values between bytes and field elements.
pub mod sdk;
pub mod wasm;
