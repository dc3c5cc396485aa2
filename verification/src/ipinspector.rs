//! The inspector: an input that was accepted, with the network that it
//! stands for and the facts to report of it.

use vstd::prelude::*;
use crate::address::{address_text, IpAddress};
use crate::cidr::{netmask_bit, netmask_bit_outcome, parse_network, parse_outcome, ParseFailure};
use crate::network::{Network, NetworkView};
use crate::output_formatter::{
    host_count_string,
    host_count_text,
    lemma_report_echoes_input,
    report_lines,
    report_text,
    OutputFormatter,
};

verus! {

/// The error of an `IpInspector`: a message for the user.
#[derive(Debug, Clone)]
pub struct IpNetworkParseError {
    message: String,
}

impl View for IpNetworkParseError {
    type V = Seq<char>;

    closed spec fn view(&self) -> Seq<char> {
        self.message@
    }
}

impl IpNetworkParseError {
    /// An error with the message `error`.
    pub fn new(error: String) -> (r: Self)
        ensures
            r@ == error@,
    {
        IpNetworkParseError { message: error }
    }

    /// The message.
    pub fn message(&self) -> (r: &str)
        ensures
            r@ == self@,
    {
        self.message.as_str()
    }

    /// The message, as an owned string.
    pub fn to_string(&self) -> (r: String)
        ensures
            r@ == self@,
    {
        String::from_str(self.message.as_str())
    }
}

/// What an inspector holds: the input as it was given, and the network.
pub struct IpInspectorView {
    pub input: Seq<char>,
    pub network: NetworkView,
}

/// An accepted input and its network.
pub struct IpInspector {
    input_network: String,
    network: Network,
}

impl View for IpInspector {
    type V = IpInspectorView;

    closed spec fn view(&self) -> IpInspectorView {
        IpInspectorView { input: self.input_network@, network: self.network@ }
    }
}

/// What building an inspector for an input comes to: the input as it was
/// given together with its network, or why the input stands for none.
pub open spec fn build_outcome(network: Seq<char>) -> Result<IpInspectorView, ParseFailure> {
    match parse_outcome(network) {
        Ok(view) => Ok(IpInspectorView { input: network, network: view }),
        Err(failure) => Err(failure),
    }
}

/// The report on an accepted input echoes the input: its second line is
/// the label `YOUR INPUT` and then the input, unchanged by whatever was
/// done to read it.
pub proof fn lemma_accepted_input_is_echoed(network: Seq<char>)
    requires
        build_outcome(network) is Ok,
    ensures
        ({
            let inspector = build_outcome(network)->Ok_0;
            report_lines(inspector.input, inspector.network.facts())[1]
                == "YOUR INPUT         "@ + network
        }),
{
    let inspector = build_outcome(network)->Ok_0;
    lemma_report_echoes_input(inspector.input, inspector.network.facts());
}

impl IpInspector {
    /// An inspector for the input `network`, which is kept as it was given,
    /// or the message that says why the input stands for no network.
    pub fn build(network: &str) -> (r: Result<Self, IpNetworkParseError>)
        ensures
            match build_outcome(network@) {
                Ok(view) => r matches Ok(inspector) && inspector@ == view,
                Err(failure) => r matches Err(e) && e@ == failure.spec_message(),
            },
            r matches Ok(inspector) ==> inspector@.network.wf(),
    {
        let parsed_network: Network = match IpInspector::parse(network) {
            Ok(ipnet) => ipnet,
            Err(e) => {
                return Err(e);
            },
        };
        Ok(Self { input_network: String::from_str(network), network: parsed_network })
    }

    /// The network that an input stands for, or the message that says why
    /// it stands for none.
    pub fn parse(network: &str) -> (r: Result<Network, IpNetworkParseError>)
        ensures
            match parse_outcome(network@) {
                Ok(view) => r matches Ok(net) && net@ == view,
                Err(failure) => r matches Err(e) && e@ == failure.spec_message(),
            },
            r matches Ok(net) ==> net@.wf(),
    {
        match parse_network(network) {
            Ok(parsed_network) => Ok(parsed_network),
            Err(failure) => Err(IpNetworkParseError::new(failure.message())),
        }
    }

    /// The prefix length that an input asks for, or the message that says
    /// why it asks for none.
    pub fn netmask_bit(network: &str) -> (r: Result<u8, IpNetworkParseError>)
        ensures
            match netmask_bit_outcome(network@) {
                Ok(bit) => r matches Ok(b) && b == bit,
                Err(failure) => r matches Err(e) && e@ == failure.spec_message(),
            },
    {
        match netmask_bit(network) {
            Ok(bit) => Ok(bit),
            Err(failure) => Err(IpNetworkParseError::new(failure.message())),
        }
    }

    /// The input as it was given.
    pub fn input(&self) -> (r: &str)
        ensures
            r@ == self@.input,
    {
        self.input_network.as_str()
    }

    /// The network.
    pub fn network(&self) -> (r: Network)
        ensures
            r@ == self@.network,
            self@.network.wf(),
    {
        proof {
            use_type_invariant(&self.network);
        }
        self.network
    }

    /// The base address of the network.
    pub fn network_address(&self) -> (r: IpAddress)
        ensures
            r == self@.network.base,
    {
        self.network.network()
    }

    /// The highest address of the network.
    pub fn broadcast_address(&self) -> (r: IpAddress)
        ensures
            r == self@.network.broadcast(),
    {
        self.network.broadcast()
    }

    /// The netmask of the network.
    pub fn netmask(&self) -> (r: IpAddress)
        ensures
            r == self@.network.netmask(),
    {
        self.network.netmask()
    }

    /// The prefix length of the network.
    pub fn netmask_prefix(&self) -> (r: u8)
        ensures
            r == self@.network.prefix_len,
    {
        self.network.prefix_len()
    }

    /// The text of the first host address.
    pub fn first_host_address(&self) -> (r: String)
        ensures
            r@ == address_text(self@.network.first_host()),
    {
        self.network.first_host().to_text()
    }

    /// The text of the last host address.
    pub fn last_host_address(&self) -> (r: String)
        ensures
            r@ == address_text(self@.network.last_host()),
    {
        self.network.last_host().to_text()
    }

    /// The text of the host count: the number in decimal, or `TOO MANY`
    /// where the network has at least as many host bits as `usize` has bits.
    pub fn hosts_count(&self) -> (r: String)
        ensures
            r@ == host_count_text(self@.network.host_count()),
    {
        host_count_string(self.network.host_count())
    }

    /// The text of the report, each of its six lines ended by a line feed.
    pub fn report(&self) -> (r: String)
        ensures
            r@ == report_text(self@.input, self@.network.facts()),
    {
        OutputFormatter::create(String::from_str(self.input_network.as_str()), self.network).render()
    }
}

} // verus!
