//! Bit-range views over fixed-width unsigned integers.
pub mod bfdesc;
pub mod bits;
pub mod schema;
pub mod view;

pub use bfdesc::BfPos;
pub use bits::{BitContainer, extract_bit, extract_bits, sign_extend32};
pub use view::{Bitfield, BitfieldMut, BitfieldRef};
pub use schema::{FieldDecl, Schema, SchemaError};
