pub mod client;
pub mod transaction;
pub mod crypto;
pub mod dataitem;
pub mod encrypt;
pub mod error;
pub mod outside;
pub mod schema;
pub mod signer;
pub mod utils;

pub use transaction::TransactionData;
pub use crypto::{Driver, PrivateKey, PublicKey};
pub use error::{Error, Result};
pub use schema::{SendMessageOptions, Tag};
pub use signer::ARSigner;
pub use utils::{base64url_decode, base64url_encode};
