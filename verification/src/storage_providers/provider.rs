//! Storage provider interface and errors.

use vstd::prelude::*;
use vstd::string::*;

verus! {

/// A place where backup parts are stored.
pub trait StorageProvider {
    /// The name of the storage provider
    fn name(&self) -> &'static str;

    /// The URL format for the storage provider specialization of:
    /// `gitup://<auth-token>:<provider-name>/<provider-dependant-fragments>`
    fn url(&self) -> &'static str;

    /// Returns the secret URL for the storage provider where the auth token is hidden
    fn to_secret_url(&self) -> String;

    /// Get the available space on the storage provider in bytes
    fn get_available_space(&self) -> u64;
}

/// A storage provider that can be created from its address.
pub trait CreatableStorageProvider: StorageProvider + Sized {
    /// Check if the given URL is a provider URL
    fn is_provider_url(url: &str) -> bool;

    /// Initialize the storage provider with the given URL
    fn new(url: &str) -> Result<Self, ProviderError>;
}

/// The error type for the storage provider
#[derive(Debug)]
pub enum ProviderError {
    /// The provider is invalid or not supported
    UnknownProvider(String),
    /// The provider URL is invalid and cannot be parsed
    InvalidProviderUrl,
    /// An error occurred while connecting to the provider
    ConnectionError(String),
    /// The provider failed to fullfill a precondition
    PreconditionsFailed(String),
    /// Generic error
    GenericError(String),
}

/// The human-readable description of a provider error.
pub open spec fn provider_error_message(e: ProviderError) -> Seq<char> {
    match e {
        ProviderError::UnknownProvider(p) => "The provider is invalid or not supported, provider: "@ + p@,
        ProviderError::InvalidProviderUrl => "The provider URL is invalid and cannot be parsed"@,
        ProviderError::ConnectionError(e) => "An error occurred while connecting to the provider: "@ + e@,
        ProviderError::PreconditionsFailed(e) => "The provider failed to fullfill a precondition: "@ + e@,
        ProviderError::GenericError(e) => "Generic error: "@ + e@,
    }
}

impl ProviderError {
    /// The human-readable description of the error.
    pub fn message(&self) -> (res: String)
        ensures
            res@ == provider_error_message(*self),
    {
        let (prefix, detail) = match self {
            ProviderError::UnknownProvider(p) => (
                "The provider is invalid or not supported, provider: ",
                p.as_str(),
            ),
            ProviderError::InvalidProviderUrl => ("The provider URL is invalid and cannot be parsed", ""),
            ProviderError::ConnectionError(e) => (
                "An error occurred while connecting to the provider: ",
                e.as_str(),
            ),
            ProviderError::PreconditionsFailed(e) => (
                "The provider failed to fullfill a precondition: ",
                e.as_str(),
            ),
            ProviderError::GenericError(e) => ("Generic error: ", e.as_str()),
        };
        let mut m = String::from_str(prefix);
        m.append(detail);
        proof {
            reveal_strlit("");
        }
        m
    }
}

/// Checks that downloaded data has the size that was expected of it.
pub fn check_downloaded_size(data: &[u8], expected_size: u64) -> (res: Result<(), ProviderError>)
    ensures
        data@.len() == expected_size ==> res is Ok,
        data@.len() != expected_size ==> (res matches Err(ProviderError::PreconditionsFailed(m)) && m@
            == "The downloaded file size does not match the expected size"@),
{
    if data.len() as u64 == expected_size {
        Ok(())
    } else {
        Err(ProviderError::PreconditionsFailed(
            String::from_str("The downloaded file size does not match the expected size"),
        ))
    }
}

} // verus!
