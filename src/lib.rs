//! Two small utilities around Bitcoin key material: a search for 24-word BIP39
//! phrases whose two 12-word halves are valid phrases on their own, and the
//! rewriting of an extended key between its SLIP-132 version prefixes.

pub mod mnemonic;
pub mod slip132;

pub use mnemonic::{double_mnemonic_from_entropy, split_mnemonic, MnemonicError};
pub use slip132::{slip132_convert, KeyKind, Slip132Error, Variant, XYZKey};
