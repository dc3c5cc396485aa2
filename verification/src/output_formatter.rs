//! The report: the facts of a network, laid out as six lines of text.

use vstd::prelude::*;
use crate::address::{address_text, Family, IpAddress};
use crate::network::{DerivedFacts, HostCount, Network, NetworkView};
use crate::text::{decimal, decimal_string, push_decimal};

verus! {

/// The text of an address that may be missing: nothing for none.
pub open spec fn optional_address_text(addr: Option<IpAddress>) -> Seq<char> {
    match addr {
        Some(a) => address_text(a),
        None => Seq::empty(),
    }
}

/// The text of a host count: the number in decimal, or `TOO MANY`.
pub open spec fn host_count_text(count: HostCount) -> Seq<char> {
    match count {
        HostCount::Exact(n) => decimal(n as nat),
        HostCount::TooMany => "TOO MANY"@,
    }
}

/// The text of the broadcast entry: the address, or for a network without
/// one the note on multicast.
pub open spec fn broadcast_text(addr: Option<IpAddress>) -> Seq<char> {
    match addr {
        Some(a) => address_text(a),
        None => "Nothing. MulticastAddress is used instead of it."@,
    }
}

/// The six lines of a report, given the text of each entry.
pub open spec fn layout_lines(
    input: Seq<char>,
    network_address: Seq<char>,
    first_host: Seq<char>,
    last_host: Seq<char>,
    hosts_count: Seq<char>,
    broadcast: Seq<char>,
    netmask: Seq<char>,
    netmask_prefix: u8,
) -> Seq<Seq<char>> {
    seq![
        "---"@,
        "YOUR INPUT         "@ + input,
        "NETWORK ADDRESS    "@ + network_address,
        "HOST ADDRESS RANGE "@ + first_host + " ... "@ + last_host + " (COUNT: "@ + hosts_count
            + ")"@,
        "BROADCAST ADDRESS  "@ + broadcast,
        "NETMASK            "@ + netmask + " (/"@ + decimal(netmask_prefix as nat) + ")"@,
    ]
}

/// Lines put together into one text, each ended by a line feed.
pub open spec fn joined(lines: Seq<Seq<char>>) -> Seq<char>
    decreases lines.len(),
{
    if lines.len() == 0 {
        Seq::empty()
    } else {
        joined(lines.drop_last()) + lines.last() + seq!['\n']
    }
}

/// The lines of the report on `facts`, under the input as it was given.
pub open spec fn report_lines(input: Seq<char>, facts: DerivedFacts) -> Seq<Seq<char>> {
    layout_lines(
        input,
        address_text(facts.network_address),
        optional_address_text(facts.first_host),
        optional_address_text(facts.last_host),
        host_count_text(facts.host_count),
        broadcast_text(facts.broadcast_address),
        address_text(facts.netmask),
        facts.prefix_len,
    )
}

/// The text of the report on `facts`, under the input as it was given.
pub open spec fn report_text(input: Seq<char>, facts: DerivedFacts) -> Seq<char> {
    joined(report_lines(input, facts))
}

/// The second line of a report is the label `YOUR INPUT` and then the
/// input, character for character as it was given.
pub proof fn lemma_report_echoes_input(input: Seq<char>, facts: DerivedFacts)
    ensures
        report_lines(input, facts).len() == 6,
        report_lines(input, facts)[1] == "YOUR INPUT         "@ + input,
        report_lines(input, facts)[1].skip("YOUR INPUT         "@.len() as int) == input,
{
    let label = "YOUR INPUT         "@;
    assert((label + input).skip(label.len() as int) =~= input);
}

/// The report is a function of the input and the facts: what holds the same
/// input and the same facts is rendered as the same text, every time.
pub proof fn lemma_render_repeatable(first: OutputFormatterView, second: OutputFormatterView)
    requires
        first.input == second.input,
        first.facts == second.facts,
    ensures
        report_text(first.input, first.facts) == report_text(second.input, second.facts),
{
}

/// The broadcast line of a report: the broadcast address of an IPv4
/// network, and for an IPv6 network, which has none, the note on multicast.
pub proof fn lemma_report_broadcast_line(input: Seq<char>, net: NetworkView)
    ensures
        net.family() == Family::V4 ==> report_lines(input, net.facts())[4]
            == "BROADCAST ADDRESS  "@ + address_text(net.broadcast()),
        net.family() == Family::V6 ==> report_lines(input, net.facts())[4]
            == "BROADCAST ADDRESS  "@ + "Nothing. MulticastAddress is used instead of it."@,
{
}

/// Joining one more line adds the line and a line feed.
pub proof fn lemma_joined_push(lines: Seq<Seq<char>>, line: Seq<char>)
    ensures
        joined(lines.push(line)) == joined(lines) + line + seq!['\n'],
{
    assert(lines.push(line).drop_last() =~= lines);
}

/// A label followed by a value.
fn entry_line(label: &str, value: &str) -> (r: String)
    ensures
        r@ == label@ + value@,
{
    let mut line: String = String::from_str(label);
    line.append(value);
    line
}

/// The line on the host range and the host count.
fn host_range_line(first_host: &str, last_host: &str, hosts_count: &str) -> (r: String)
    ensures
        r@ == "HOST ADDRESS RANGE "@ + first_host@ + " ... "@ + last_host@ + " (COUNT: "@
            + hosts_count@ + ")"@,
{
    let mut line: String = String::from_str("HOST ADDRESS RANGE ");
    line.append(first_host);
    line.append(" ... ");
    line.append(last_host);
    line.append(" (COUNT: ");
    line.append(hosts_count);
    line.append(")");
    line
}

/// The line on the netmask and the prefix length.
fn netmask_line(netmask: &str, netmask_prefix: u8) -> (r: String)
    ensures
        r@ == "NETMASK            "@ + netmask@ + " (/"@ + decimal(netmask_prefix as nat) + ")"@,
{
    let mut line: String = String::from_str("NETMASK            ");
    line.append(netmask);
    line.append(" (/");
    push_decimal(&mut line, netmask_prefix as u128);
    line.append(")");
    line
}

/// Appends a line and the line feed that ends it.
fn push_line(out: &mut String, line: &str)
    ensures
        final(out)@ == old(out)@ + line@ + seq!['\n'],
{
    proof {
        reveal_strlit("\n");
    }
    out.append(line);
    out.append("\n");
    assert(out@ =~= old(out)@ + line@ + seq!['\n']);
}

/// Lays out a report from the text of each entry.
pub fn layout_report(
    input: &str,
    network_address: &str,
    first_host: &str,
    last_host: &str,
    hosts_count: &str,
    broadcast: &str,
    netmask: &str,
    netmask_prefix: u8,
) -> (r: String)
    ensures
        r@ == joined(
            layout_lines(
                input@,
                network_address@,
                first_host@,
                last_host@,
                hosts_count@,
                broadcast@,
                netmask@,
                netmask_prefix,
            ),
        ),
{
    let ghost lines = layout_lines(
        input@,
        network_address@,
        first_host@,
        last_host@,
        hosts_count@,
        broadcast@,
        netmask@,
        netmask_prefix,
    );
    let input_line: String = entry_line("YOUR INPUT         ", input);
    let network_line: String = entry_line("NETWORK ADDRESS    ", network_address);
    let range_line: String = host_range_line(first_host, last_host, hosts_count);
    let broadcast_line: String = entry_line("BROADCAST ADDRESS  ", broadcast);
    let mask_line: String = netmask_line(netmask, netmask_prefix);
    let mut out: String = String::new();
    let ghost mut done: Seq<Seq<char>> = Seq::empty();
    assert(out@ =~= joined(done));
    push_line(&mut out, "---");
    proof {
        lemma_joined_push(done, lines[0]);
        done = done.push(lines[0]);
    }
    push_line(&mut out, input_line.as_str());
    proof {
        lemma_joined_push(done, lines[1]);
        done = done.push(lines[1]);
    }
    push_line(&mut out, network_line.as_str());
    proof {
        lemma_joined_push(done, lines[2]);
        done = done.push(lines[2]);
    }
    push_line(&mut out, range_line.as_str());
    proof {
        lemma_joined_push(done, lines[3]);
        done = done.push(lines[3]);
    }
    push_line(&mut out, broadcast_line.as_str());
    proof {
        lemma_joined_push(done, lines[4]);
        done = done.push(lines[4]);
    }
    push_line(&mut out, mask_line.as_str());
    proof {
        lemma_joined_push(done, lines[5]);
        done = done.push(lines[5]);
        assert(done =~= lines);
    }
    out
}

/// The text of an address that may be missing.
pub fn optional_address_string(addr: Option<IpAddress>) -> (r: String)
    ensures
        r@ == optional_address_text(addr),
{
    match addr {
        Some(x) => x.to_text(),
        None => String::new(),
    }
}

/// The text of a host count.
pub fn host_count_string(count: HostCount) -> (r: String)
    ensures
        r@ == host_count_text(count),
{
    match count {
        HostCount::Exact(n) => decimal_string(n as u128),
        HostCount::TooMany => String::from_str("TOO MANY"),
    }
}

/// The text of the broadcast entry.
pub fn broadcast_string(addr: Option<IpAddress>) -> (r: String)
    ensures
        r@ == broadcast_text(addr),
{
    match addr {
        Some(x) => x.to_text(),
        None => String::from_str("Nothing. MulticastAddress is used instead of it."),
    }
}

/// What a formatter holds: the input as it was given, and the facts.
pub struct OutputFormatterView {
    pub input: Seq<char>,
    pub facts: DerivedFacts,
}

/// A report in the making: the input as it was given, and the facts to
/// report under it.
pub struct OutputFormatter {
    input: String,
    facts: DerivedFacts,
}

impl View for OutputFormatter {
    type V = OutputFormatterView;

    closed spec fn view(&self) -> OutputFormatterView {
        OutputFormatterView { input: self.input@, facts: self.facts }
    }
}

impl OutputFormatter {
    /// A formatter for the facts of `net`, under `input`.
    pub fn create(input: String, net: Network) -> (r: Self)
        ensures
            r@.input == input@,
            r@.facts == net@.facts(),
    {
        OutputFormatter { input, facts: net.facts() }
    }

    /// A formatter for any facts, under `input`.
    pub fn from_facts(input: String, facts: DerivedFacts) -> (r: Self)
        ensures
            r@.input == input@,
            r@.facts == facts,
    {
        OutputFormatter { input, facts }
    }

    /// The facts to report.
    pub fn facts(&self) -> (r: DerivedFacts)
        ensures
            r == self@.facts,
    {
        self.facts
    }

    /// The input as it was given.
    pub fn input(&self) -> (r: &str)
        ensures
            r@ == self@.input,
    {
        self.input.as_str()
    }

    /// The text of the first host address; empty where there is none.
    pub fn first_host(&self) -> (r: String)
        ensures
            r@ == optional_address_text(self@.facts.first_host),
    {
        optional_address_string(self.facts.first_host)
    }

    /// The text of the last host address; empty where there is none.
    pub fn last_host(&self) -> (r: String)
        ensures
            r@ == optional_address_text(self@.facts.last_host),
    {
        optional_address_string(self.facts.last_host)
    }

    /// The text of the host count.
    pub fn hosts_count(&self) -> (r: String)
        ensures
            r@ == host_count_text(self@.facts.host_count),
    {
        host_count_string(self.facts.host_count)
    }

    /// The text of the broadcast entry.
    pub fn broadcast(&self) -> (r: String)
        ensures
            r@ == broadcast_text(self@.facts.broadcast_address),
    {
        broadcast_string(self.facts.broadcast_address)
    }

    /// The text of the report, each of its six lines ended by a line feed.
    pub fn render(&self) -> (r: String)
        ensures
            r@ == report_text(self@.input, self@.facts),
    {
        let network_address: String = self.facts.network_address.to_text();
        let first_host: String = self.first_host();
        let last_host: String = self.last_host();
        let hosts_count: String = self.hosts_count();
        let broadcast: String = self.broadcast();
        let netmask: String = self.facts.netmask.to_text();
        layout_report(
            self.input.as_str(),
            network_address.as_str(),
            first_host.as_str(),
            last_host.as_str(),
            hosts_count.as_str(),
            broadcast.as_str(),
            netmask.as_str(),
            self.facts.prefix_len,
        )
    }
}

/// The text of the report on `ipnetwork`, under the input as it was given.
pub fn format(user_input: String, ipnetwork: Network) -> (r: String)
    ensures
        r@ == report_text(user_input@, ipnetwork@.facts()),
{
    let formatter: OutputFormatter = OutputFormatter::create(user_input, ipnetwork);
    formatter.render()
}

} // verus!
