//! The cryptographic core of a password vault: how a vault item is held
//! encrypted at rest, how it is opened into its plaintext projections, and how
//! the key that applies to an item is found and unwrapped.
//!
//! An item at rest is a [`Cipher`]. Its content is sealed under one key: the
//! item's own, where it has one, which is itself sealed under the top-level key
//! of the user or of the organization that owns the item; else that top-level
//! key. A [`CipherView`] is the item in the clear, a [`CipherListView`] the
//! little of it that a listing shows. The conversions between them are
//! instances of one capability, [`KeyEncryptable`] and [`KeyDecryptable`],
//! which texts, optional values, lists and records have alike.

pub mod carried;
pub mod error;
pub mod key;
pub mod text;
pub mod capability;
pub mod transparent;
pub mod registry;
pub mod subtitle;
pub mod card;
pub mod identity;
pub mod login;
pub mod field;
pub mod password_history;
pub mod attachment;
pub mod secure_note;
pub mod local_data;
pub mod cipher;
pub mod laws;

pub use capability::{KeyDecryptable, KeyEncryptable};
pub use cipher::{Cipher, CipherListView, CipherRepromptType, CipherType, CipherView};
pub use error::CipherError;
pub use key::{EncString, SymmetricCryptoKey};
pub use registry::{KeyRegistry, LocateKey};
