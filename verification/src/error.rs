//! The ways in which the resolution of the host identifier fails.
use vstd::prelude::*;

verus! {

/// Why no identifier could be derived.
#[derive(Clone, Copy, Debug, PartialEq, Eq, Structural)]
pub enum HostIdError {
    /// There is no identifier file. The resolution goes on to the host name.
    MissingIdentifierFile,
    /// The identifier file holds fewer than four bytes.
    TruncatedIdentifierFile,
    /// Neither source of the host name is there.
    NoHostnameSource,
    /// The interfaces could not be listed, or none of them is the loopback
    /// interface with an IPv4 address.
    NoLoopbackInterface,
    /// The address is not four decimal octets separated by dots.
    MalformedAddress,
}

impl HostIdError {
    /// What the error says to an operator.
    pub open spec fn message_text(self) -> Seq<char> {
        match self {
            HostIdError::MissingIdentifierFile => "no identifier file"@,
            HostIdError::TruncatedIdentifierFile => "identifier file holds fewer than four bytes"@,
            HostIdError::NoHostnameSource => "no hostname configured"@,
            HostIdError::NoLoopbackInterface => "no loopback interface with an IPv4 address"@,
            HostIdError::MalformedAddress => "address is not four decimal octets"@,
        }
    }

    /// A sentence that names the condition that failed.
    pub fn message(&self) -> (r: &'static str)
        ensures
            r@ == self.message_text(),
    {
        match self {
            HostIdError::MissingIdentifierFile => "no identifier file",
            HostIdError::TruncatedIdentifierFile => "identifier file holds fewer than four bytes",
            HostIdError::NoHostnameSource => "no hostname configured",
            HostIdError::NoLoopbackInterface => "no loopback interface with an IPv4 address",
            HostIdError::MalformedAddress => "address is not four decimal octets",
        }
    }
}

} // verus!
