//! A toolchain for the WebAssembly Interface Types custom section: a binary
//! decoder, a binary encoder, a validator that type-checks adapter functions
//! against the host module, a lowering pass for the textual surface syntax,
//! and a pretty-printer.

pub mod ast;
pub mod binary;
pub mod decode;
pub mod error;
pub mod leb;
pub mod printer;
pub mod reader;
pub mod resolve;
pub mod roundtrip;
pub mod schema;
pub mod strings;
pub mod validator;
pub mod valtype;
pub mod verror;
pub mod writer;
