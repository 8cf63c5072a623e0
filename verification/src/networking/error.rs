//! What can go wrong with a peer

use vstd::prelude::*;
use vstd::string::StringExecFns;

verus! {

/// An I/O error of the standard library, carried and never looked into
#[verifier::external_type_specification]
#[verifier::external_body]
pub struct ExIoError(std::io::Error);

/// An error of the system clock, carried and never looked into
#[verifier::external_type_specification]
#[verifier::external_body]
pub struct ExSystemTimeError(std::time::SystemTimeError);

#[derive(Debug)]
pub enum NetworkingError {
    /// A peer sent an invalid or unexpected response
    InvalidResponse,
    /// The transaction returned are invalid
    InvalidTransaction,
    /// The data stored in the block filters storage are corrupted
    DataCorruption,
    /// A peer is not connected
    NotConnected,
    /// A peer took too long to reply to one of our messages
    Timeout,
    /// Peer does not have bloom features enabled
    PeerBloomDisabled,
    /// No peers have been specified
    NoPeers,
    /// Internal I/O error
    Io(std::io::Error),
    /// Internal system time error
    Time(std::time::SystemTimeError),
}

/// The text of a variant that wraps another error: its name, and in brackets the text of
/// the wrapped error
pub open spec fn wrapped_text(name: Seq<char>, inner: Seq<char>) -> Seq<char> {
    name + "("@ + inner + ")"@
}

/// Name the variant that wraps another error before the text of that error
pub fn wrap_text(name: &str, inner: &str) -> (text: String)
    ensures
        text@ == wrapped_text(name@, inner@),
{
    name.to_owned().concat("(").concat(inner).concat(")")
}

/// `Debug` of `std::io::Error`. Of its text nothing is claimed: it holds what the operating
/// system says of the error.
#[verifier::external_body]
fn io_error_text(error: &std::io::Error) -> String {
    format!("{:?}", error)
}

/// `Debug` of `std::time::SystemTimeError`. Of its text nothing is claimed: it holds how far
/// the clock is off.
#[verifier::external_body]
fn time_error_text(error: &std::time::SystemTimeError) -> String {
    format!("{:?}", error)
}

impl NetworkingError {
    /// The error as text: the name of the variant, with the text of the wrapped error where
    /// there is one
    pub fn to_text(&self) -> (text: String)
        ensures
            match *self {
                NetworkingError::InvalidResponse => text@ == "InvalidResponse"@,
                NetworkingError::InvalidTransaction => text@ == "InvalidTransaction"@,
                NetworkingError::DataCorruption => text@ == "DataCorruption"@,
                NetworkingError::NotConnected => text@ == "NotConnected"@,
                NetworkingError::Timeout => text@ == "Timeout"@,
                NetworkingError::PeerBloomDisabled => text@ == "PeerBloomDisabled"@,
                NetworkingError::NoPeers => text@ == "NoPeers"@,
                NetworkingError::Io(_) => exists|inner: Seq<char>|
                    text@ == #[trigger] wrapped_text("Io"@, inner),
                NetworkingError::Time(_) => exists|inner: Seq<char>|
                    text@ == #[trigger] wrapped_text("Time"@, inner),
            },
    {
        match self {
            NetworkingError::InvalidResponse => "InvalidResponse".to_owned(),
            NetworkingError::InvalidTransaction => "InvalidTransaction".to_owned(),
            NetworkingError::DataCorruption => "DataCorruption".to_owned(),
            NetworkingError::NotConnected => "NotConnected".to_owned(),
            NetworkingError::Timeout => "Timeout".to_owned(),
            NetworkingError::PeerBloomDisabled => "PeerBloomDisabled".to_owned(),
            NetworkingError::NoPeers => "NoPeers".to_owned(),
            NetworkingError::Io(error) => {
                let inner = io_error_text(error);
                wrap_text("Io", inner.as_str())
            },
            NetworkingError::Time(error) => {
                let inner = time_error_text(error);
                wrap_text("Time", inner.as_str())
            },
        }
    }
}

impl From<std::io::Error> for NetworkingError {
    fn from(err: std::io::Error) -> (r: Self) {
        NetworkingError::Io(err)
    }
}

impl vstd::std_specs::convert::FromSpecImpl<std::io::Error> for NetworkingError {
    open spec fn obeys_from_spec() -> bool {
        true
    }

    open spec fn from_spec(err: std::io::Error) -> Self {
        NetworkingError::Io(err)
    }
}

impl From<std::time::SystemTimeError> for NetworkingError {
    fn from(err: std::time::SystemTimeError) -> (r: Self) {
        NetworkingError::Time(err)
    }
}

impl vstd::std_specs::convert::FromSpecImpl<std::time::SystemTimeError> for NetworkingError {
    open spec fn obeys_from_spec() -> bool {
        true
    }

    open spec fn from_spec(err: std::time::SystemTimeError) -> Self {
        NetworkingError::Time(err)
    }
}

/// The text of a wrapping variant holds its name, then the whole text of the wrapped error in
/// brackets, and nothing else.
pub proof fn law_wrapped_text_holds_both(name: Seq<char>, inner: Seq<char>)
    ensures
        wrapped_text(name, inner).len() == name.len() + inner.len() + 2,
        forall|i: int|
            0 <= i < name.len() ==> #[trigger] wrapped_text(name, inner)[i] == name[i],
        wrapped_text(name, inner)[name.len() as int] == '(',
        forall|i: int|
            0 <= i < inner.len() ==> wrapped_text(name, inner)[name.len() + 1 + i]
                == #[trigger] inner[i],
        wrapped_text(name, inner).last() == ')',
{
    reveal_strlit("(");
    reveal_strlit(")");
}

} // verus!
