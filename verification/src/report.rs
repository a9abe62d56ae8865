//! The lines that tell the operator what an invocation found and did.
use vstd::prelude::*;
use crate::dns::{DnsRecord, DnsRecordView};
use crate::ipv4::Ipv4;
use crate::text::{decimal, push_decimal};

verus! {

/// The line that tells the public address, printed in every invocation.
pub open spec fn address_line(address: Ipv4) -> Seq<char> {
    "Public IP: "@ + address.dotted()
}

/// The line that tells how many records the zone's listing held.
pub open spec fn count_line(count: nat) -> Seq<char> {
    "Found "@ + decimal(count) + " DNS records"@
}

/// The line that tells that the record already points at the public
/// address.
pub open spec fn up_to_date_line(record_name: Seq<char>) -> Seq<char> {
    record_name + " already up-to-date!"@
}

/// The line that tells that the record was pointed at the public address.
pub open spec fn updated_line(record_name: Seq<char>) -> Seq<char> {
    record_name + " successfully updated!"@
}

impl DnsRecordView {
    /// The record in one line: its kind, name and value, and its identifier
    /// in brackets.
    pub open spec fn describe(self) -> Seq<char> {
        self.content.kind() + " "@ + self.name + " "@ + self.content.value() + " (id "@ + self.id
            + ")"@
    }
}

/// The line that shows the chosen record as the provider listed it.
pub open spec fn current_line(record: DnsRecordView) -> Seq<char> {
    "Current "@ + record.describe()
}

/// The line that shows the record as the provider returned it after the
/// update.
pub open spec fn new_line(record: DnsRecordView) -> Seq<char> {
    "New "@ + record.describe()
}

/// The line that tells the public address.
pub fn make_address_line(address: Ipv4) -> (line: String)
    ensures
        line@ == address_line(address),
{
    let mut line = String::from_str("Public IP: ");
    address.push_to(&mut line);
    line
}

/// The line that tells how many records the zone's listing held.
pub fn make_count_line(count: usize) -> (line: String)
    ensures
        line@ == count_line(count as nat),
{
    let mut line = String::from_str("Found ");
    push_decimal(&mut line, count as u64);
    line.append(" DNS records");
    line
}

/// The line that tells that the record already points at the public
/// address.
pub fn make_up_to_date_line(record_name: &str) -> (line: String)
    ensures
        line@ == up_to_date_line(record_name@),
{
    let mut line = String::from_str(record_name);
    line.append(" already up-to-date!");
    line
}

/// The line that tells that the record was pointed at the public address.
pub fn make_updated_line(record_name: &str) -> (line: String)
    ensures
        line@ == updated_line(record_name@),
{
    let mut line = String::from_str(record_name);
    line.append(" successfully updated!");
    line
}

impl DnsRecord {
    /// Appends the record in one line: its kind, name and value, and its
    /// identifier in brackets.
    pub fn describe_to(&self, out: &mut String)
        ensures
            final(out)@ == old(out)@ + self@.describe(),
    {
        let value = self.content.value();
        out.append(self.content.kind());
        out.append(" ");
        out.append(self.name.as_str());
        out.append(" ");
        out.append(value.as_str());
        out.append(" (id ");
        out.append(self.id.as_str());
        out.append(")");
        assert(out@ == old(out)@ + self@.describe());
    }

    /// The record in one line.
    pub fn describe(&self) -> (line: String)
        ensures
            line@ == self@.describe(),
    {
        let mut line = String::new();
        self.describe_to(&mut line);
        assert(line@ == self@.describe());
        line
    }
}

/// The line that shows the chosen record as the provider listed it.
pub fn make_current_line(record: &DnsRecord) -> (line: String)
    ensures
        line@ == current_line(record@),
{
    let mut line = String::from_str("Current ");
    record.describe_to(&mut line);
    line
}

/// The line that shows the record as the provider returned it after the
/// update.
pub fn make_new_line(record: &DnsRecord) -> (line: String)
    ensures
        line@ == new_line(record@),
{
    let mut line = String::from_str("New ");
    record.describe_to(&mut line);
    line
}

} // verus!
