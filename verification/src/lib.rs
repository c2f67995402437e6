//! Generates Rust code that decodes CAN frames, from the description of a CAN database.
//!
//! The modules, from the bottom up:
//! - `tokens`: what a token stream holds, and a builder that fills one
//! - `ident`: identifiers, and type names made from free text
//! - `double`: doubles as bits
//! - `model`: the CAN database
//! - `naming`: the names of generated items
//! - `layout`: where a signal lies in a frame, and what it is decoded to
//! - `signal`, `description`, `message`, `stream`, `database`: the generated code, piece by piece
//! - `paths`: which names the paths in the generated code start with
//! - `checked`: the generating functions for input that may not be fit for them
//! - `laws`: what holds of the generated code as a whole
pub mod checked;
pub mod database;
pub mod description;
pub mod double;
pub mod ident;
pub mod laws;
pub mod layout;
pub mod message;
pub mod model;
pub mod naming;
pub mod paths;
pub mod signal;
pub mod stream;
pub mod tokens;
mod words;

use vstd::prelude::*;

pub use crate::database::can_code_gen;
pub use crate::description::{signal_enum, signal_enum_impl_from};
pub use crate::ident::TypeName;
pub use crate::message::message_decoder;
pub use crate::signal::{decode_signal_enum, decode_signal_raw, signal_field};

verus! {

#[derive(Debug)]
pub struct DbccOpt {
    /// Should tokio SocketCan BCM streams be generated.
    /// This requires the `tokio-socketcan-bcm` crate.
    pub with_tokio: bool,
}

} // verus!
