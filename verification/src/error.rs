use vstd::prelude::*;

verus! {

/// Everything that can go wrong in this library and in the client around it.
#[derive(Debug)]
pub enum Error {
    /// The HTTP request itself failed; the text of the transport's error.
    Request(String),
    /// The server answered with a status that is not a success.
    HttpError(String),
    /// Reading a file failed.
    Io(std::io::Error),
    /// A text was not the JSON that was expected; the parser's message.
    Json(String),
    /// A text was not base64.
    Base64(base64::DecodeError),
    /// The RSA signer refused to sign.
    Signing(String),
    /// Hybrid encryption or decryption failed.
    Encryption(String),
    /// A data item could not be read.
    DataItem(String),
    /// No result came before the deadline.
    Timeout,
    /// A wallet key file could not be used.
    InvalidWallet(String),
    /// Anything else.
    Other(String),
}

/// The result type of this library.
pub type Result<T> = std::result::Result<T, Error>;

} // verus!
