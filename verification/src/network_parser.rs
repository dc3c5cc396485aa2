//! A parser that holds the input it is to parse.

use vstd::prelude::*;
use crate::cidr::{netmask_bit, netmask_bit_outcome, parse_network, parse_outcome};
use crate::network::Network;

verus! {

/// The error of a `NetworkParser`: a message for the user.
#[derive(Debug, Clone)]
pub struct MyAddrParseError {
    message: String,
}

impl View for MyAddrParseError {
    type V = Seq<char>;

    closed spec fn view(&self) -> Seq<char> {
        self.message@
    }
}

impl MyAddrParseError {
    /// An error with the message `error`.
    pub fn new(error: String) -> (r: Self)
        ensures
            r@ == error@,
    {
        MyAddrParseError { message: error }
    }

    /// The message.
    pub fn message(&self) -> (r: &str)
        ensures
            r@ == self@,
    {
        self.message.as_str()
    }

    /// The message, as an owned string.
    pub fn to_string(&self) -> (r: String)
        ensures
            r@ == self@,
    {
        String::from_str(self.message.as_str())
    }
}

/// A parser for one input.
pub struct NetworkParser {
    network: String,
}

impl View for NetworkParser {
    type V = Seq<char>;

    closed spec fn view(&self) -> Seq<char> {
        self.network@
    }
}

impl NetworkParser {
    /// A parser for the input `network`.
    pub fn new(network: String) -> (r: Self)
        ensures
            r@ == network@,
    {
        Self { network }
    }

    /// The network that the input stands for, or the message that says why
    /// it stands for none.
    pub fn parse(&self) -> (r: Result<Network, MyAddrParseError>)
        ensures
            match parse_outcome(self@) {
                Ok(view) => r matches Ok(network) && network@ == view,
                Err(failure) => r matches Err(e) && e@ == failure.spec_message(),
            },
            r matches Ok(network) ==> network@.wf(),
    {
        match parse_network(self.network.as_str()) {
            Ok(network) => Ok(network),
            Err(failure) => Err(MyAddrParseError::new(failure.message())),
        }
    }

    /// The prefix length that the input asks for, or the message that says
    /// why it asks for none.
    pub fn netmask_bit(&self) -> (r: Result<u8, MyAddrParseError>)
        ensures
            match netmask_bit_outcome(self@) {
                Ok(bit) => r matches Ok(b) && b == bit,
                Err(failure) => r matches Err(e) && e@ == failure.spec_message(),
            },
    {
        match netmask_bit(self.network.as_str()) {
            Ok(bit) => Ok(bit),
            Err(failure) => Err(MyAddrParseError::new(failure.message())),
        }
    }
}

} // verus!
