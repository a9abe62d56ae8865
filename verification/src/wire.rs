//! What goes over the wire to the DNS provider: the paths of the two
//! requests and the JSON body of a sparse record update.
use vstd::prelude::*;
use crate::dns::{DnsContent, DnsContentView};
use crate::ipv4::{lemma_dotted_chars, Ipv4};
use crate::text::{
    chars_of, decimal, digit_char, digit_of, is_digit, join, joined, push_decimal, string_views,
};

verus! {

/// The path, below the API's base, under which the records of a zone are
/// listed.
pub open spec fn records_path(zone_id: Seq<char>) -> Seq<char> {
    "zones/"@ + zone_id + "/dns_records"@
}

/// The path, below the API's base, of one record of a zone.
pub open spec fn record_path(zone_id: Seq<char>, record_id: Seq<char>) -> Seq<char> {
    records_path(zone_id) + "/"@ + record_id
}

/// The path of the request that lists the records of the zone.
pub fn list_path(zone_id: &str) -> (path: String)
    ensures
        path@ == records_path(zone_id@),
{
    let mut path = String::from_str("zones/");
    path.append(zone_id);
    path.append("/dns_records");
    path
}

/// The path of the request that updates one record of the zone. The record's
/// identifier is handed on as it was received.
pub fn patch_path(zone_id: &str, record_id: &str) -> (path: String)
    ensures
        path@ == record_path(zone_id@, record_id@),
{
    let mut path = list_path(zone_id);
    path.append("/");
    path.append(record_id);
    path
}

/// The hexadecimal digit, in lower case, that stands for `d`.
pub open spec fn hex_char(d: nat) -> char
    recommends
        d < 16,
{
    if d < 10 {
        digit_char(d)
    } else {
        (('a' as nat) + d - 10) as char
    }
}

/// How one character stands inside a JSON string: the quotation mark, the
/// backslash and the control characters are escaped, every other character
/// stands for itself.
pub open spec fn escape_char(c: char) -> Seq<char> {
    if c == '"' {
        seq!['\\', '"']
    } else if c == '\\' {
        seq!['\\', '\\']
    } else if c == '\u{08}' {
        seq!['\\', 'b']
    } else if c == '\u{0C}' {
        seq!['\\', 'f']
    } else if c == '\n' {
        seq!['\\', 'n']
    } else if c == '\r' {
        seq!['\\', 'r']
    } else if c == '\t' {
        seq!['\\', 't']
    } else if (c as nat) < 0x20 {
        seq!['\\', 'u', '0', '0', hex_char(c as nat / 16), hex_char(c as nat % 16)]
    } else {
        seq![c]
    }
}

/// The characters of `s` as they stand inside a JSON string.
pub open spec fn escaped(s: Seq<char>) -> Seq<char>
    decreases s.len(),
{
    if s.len() == 0 {
        Seq::empty()
    } else {
        escaped(s.drop_last()) + escape_char(s.last())
    }
}

/// Text without a quotation mark, a backslash or a control character stands
/// in a JSON string as it is.
pub proof fn lemma_escaped_plain(s: Seq<char>)
    requires
        forall|i: int| 0 <= i < s.len() ==> escape_char(#[trigger] s[i]) == seq![s[i]],
    ensures
        escaped(s) == s,
    decreases s.len(),
{
    if s.len() > 0 {
        lemma_escaped_plain(s.drop_last());
        assert(s == s.drop_last() + seq![s.last()]);
    }
}

/// The JSON string that holds `s`.
pub open spec fn json_string(s: Seq<char>) -> Seq<char> {
    seq!['"'] + escaped(s) + seq!['"']
}

/// The member of a JSON object that gives `value`, already in JSON, under
/// `key`.
pub open spec fn member(key: Seq<char>, value: Seq<char>) -> Seq<char> {
    json_string(key) + seq![':'] + value
}

/// The JSON object with the given members, in their order.
pub open spec fn json_object(members: Seq<Seq<char>>) -> Seq<char> {
    seq!['{'] + joined(members, seq![',']) + seq!['}']
}

impl DnsContentView {
    /// The name of the record's kind, as the provider writes it.
    pub open spec fn kind(self) -> Seq<char> {
        match self {
            DnsContentView::A { .. } => "A"@,
            DnsContentView::AAAA { .. } => "AAAA"@,
            DnsContentView::CNAME { .. } => "CNAME"@,
            DnsContentView::NS { .. } => "NS"@,
            DnsContentView::MX { .. } => "MX"@,
            DnsContentView::TXT { .. } => "TXT"@,
        }
    }

    /// The record's value as text; for an A record its address as a dotted
    /// quad.
    pub open spec fn value(self) -> Seq<char> {
        match self {
            DnsContentView::A { content } => content.dotted(),
            DnsContentView::AAAA { content } => content,
            DnsContentView::CNAME { content } => content,
            DnsContentView::NS { content } => content,
            DnsContentView::MX { content, .. } => content,
            DnsContentView::TXT { content } => content,
        }
    }

    /// The members that the content contributes to an object: its kind under
    /// `type`, its value under `content`, and for an MX record its priority.
    pub open spec fn members(self) -> Seq<Seq<char>> {
        let both = seq![
            member("type"@, json_string(self.kind())),
            member("content"@, json_string(self.value())),
        ];
        match self {
            DnsContentView::MX { priority, .. } => both.push(
                member("priority"@, decimal(priority as nat)),
            ),
            _ => both,
        }
    }
}

/// A sparse update of a record: each field is either set to a new value or
/// left out, and what is left out the provider leaves as it is.
#[derive(Clone, Debug, PartialEq, Eq)]
pub struct PatchPayload {
    pub name: Option<String>,
    pub content: Option<DnsContent>,
    pub ttl: Option<u32>,
    pub proxied: Option<bool>,
}

/// A [`PatchPayload`] with its text as sequences of characters.
pub struct PatchPayloadView {
    pub name: Option<Seq<char>>,
    pub content: Option<DnsContentView>,
    pub ttl: Option<u32>,
    pub proxied: Option<bool>,
}

impl View for PatchPayload {
    type V = PatchPayloadView;

    open spec fn view(&self) -> PatchPayloadView {
        PatchPayloadView {
            name: match self.name {
                Some(name) => Some(name@),
                None => None,
            },
            content: match self.content {
                Some(content) => Some(content@),
                None => None,
            },
            ttl: self.ttl,
            proxied: self.proxied,
        }
    }
}

/// The JSON text of a truth value.
pub open spec fn json_bool(b: bool) -> Seq<char> {
    if b {
        "true"@
    } else {
        "false"@
    }
}

impl PatchPayloadView {
    /// The update that sets nothing.
    pub open spec fn unset() -> PatchPayloadView {
        PatchPayloadView { name: None, content: None, ttl: None, proxied: None }
    }

    /// The update that points an A record at `address` and sets nothing
    /// else.
    pub open spec fn address_update(address: Ipv4) -> PatchPayloadView {
        PatchPayloadView {
            name: None,
            content: Some(DnsContentView::A { content: address }),
            ttl: None,
            proxied: None,
        }
    }

    /// The members of the body: one for each field that is set, none for a
    /// field that is not, in the order name, content, ttl, proxied.
    pub open spec fn members(self) -> Seq<Seq<char>> {
        (match self.name {
            Some(name) => seq![member("name"@, json_string(name))],
            None => Seq::empty(),
        }) + (match self.content {
            Some(content) => content.members(),
            None => Seq::empty(),
        }) + (match self.ttl {
            Some(ttl) => seq![member("ttl"@, decimal(ttl as nat))],
            None => Seq::empty(),
        }) + (match self.proxied {
            Some(proxied) => seq![member("proxied"@, json_bool(proxied))],
            None => Seq::empty(),
        })
    }

    /// The body of the update request: a JSON object of the members, with
    /// no whitespace.
    pub open spec fn json(self) -> Seq<char> {
        json_object(self.members())
    }
}

fn hex_of(d: u8) -> (c: char)
    requires
        d < 16,
    ensures
        c == hex_char(d as nat),
{
    if d < 10 {
        digit_of(d)
    } else {
        (87u8 + d) as char
    }
}

fn push_escaped_char(out: &mut String, c: char)
    ensures
        final(out)@ == old(out)@ + escape_char(c),
{
    if c == '"' {
        out.push('\\');
        out.push('"');
    } else if c == '\\' {
        out.push('\\');
        out.push('\\');
    } else if c == '\u{08}' {
        out.push('\\');
        out.push('b');
    } else if c == '\u{0C}' {
        out.push('\\');
        out.push('f');
    } else if c == '\n' {
        out.push('\\');
        out.push('n');
    } else if c == '\r' {
        out.push('\\');
        out.push('r');
    } else if c == '\t' {
        out.push('\\');
        out.push('t');
    } else if (c as u32) < 0x20 {
        let code: u8 = c as u8;
        out.push('\\');
        out.push('u');
        out.push('0');
        out.push('0');
        out.push(hex_of(code / 16));
        out.push(hex_of(code % 16));
    } else {
        out.push(c);
    }
    assert(out@ == old(out)@ + escape_char(c));
}

/// Appends the JSON string that holds `s` to `out`.
fn push_json_string(out: &mut String, s: &str)
    ensures
        final(out)@ == old(out)@ + json_string(s@),
{
    let v = chars_of(s);
    out.push('"');
    let ghost start = out@;
    let mut i: usize = 0;
    assert(v@.take(0) == Seq::<char>::empty());
    while i < v.len()
        invariant
            i <= v.len(),
            out@ == start + escaped(v@.take(i as int)),
        decreases v.len() - i,
    {
        proof {
            assert(v@.take(i + 1).drop_last() == v@.take(i as int));
        }
        push_escaped_char(out, v[i]);
        i += 1;
    }
    assert(v@.take(v.len() as int) == v@);
    out.push('"');
    assert(out@ == old(out)@ + json_string(s@));
}

/// The member that gives the string `value` under `key`.
fn string_member(key: &str, value: &str) -> (m: String)
    ensures
        m@ == member(key@, json_string(value@)),
{
    let mut m = String::new();
    push_json_string(&mut m, key);
    m.push(':');
    push_json_string(&mut m, value);
    assert(m@ == member(key@, json_string(value@)));
    m
}

/// The member that gives the number `value` under `key`.
fn number_member(key: &str, value: u64) -> (m: String)
    ensures
        m@ == member(key@, decimal(value as nat)),
{
    let mut m = String::new();
    push_json_string(&mut m, key);
    m.push(':');
    push_decimal(&mut m, value);
    assert(m@ == member(key@, decimal(value as nat)));
    m
}

impl DnsContent {
    /// The name of the record's kind, as the provider writes it.
    pub fn kind(&self) -> (k: &'static str)
        ensures
            k@ == self@.kind(),
    {
        match self {
            DnsContent::A { .. } => "A",
            DnsContent::AAAA { .. } => "AAAA",
            DnsContent::CNAME { .. } => "CNAME",
            DnsContent::NS { .. } => "NS",
            DnsContent::MX { .. } => "MX",
            DnsContent::TXT { .. } => "TXT",
        }
    }

    /// The record's value as text; for an A record its address as a dotted
    /// quad.
    pub fn value(&self) -> (v: String)
        ensures
            v@ == self@.value(),
    {
        match self {
            DnsContent::A { content } => content.to_text(),
            DnsContent::AAAA { content } => content.clone(),
            DnsContent::CNAME { content } => content.clone(),
            DnsContent::NS { content } => content.clone(),
            DnsContent::MX { content, .. } => content.clone(),
            DnsContent::TXT { content } => content.clone(),
        }
    }

    /// Appends the members that the content contributes to an object.
    fn push_members(&self, members: &mut Vec<String>)
        ensures
            string_views(final(members)@) == string_views(old(members)@) + self@.members(),
    {
        let ghost before = string_views(members@);
        let value = self.value();
        let kind = string_member("type", self.kind());
        members.push(kind);
        let content = string_member("content", value.as_str());
        members.push(content);
        match self {
            DnsContent::MX { priority, .. } => {
                let p = number_member("priority", *priority as u64);
                members.push(p);
            },
            _ => {},
        }
        assert(string_views(members@) == before + self@.members());
    }
}

impl PatchPayload {
    /// The update that sets nothing.
    pub fn unset() -> (p: PatchPayload)
        ensures
            p@ == PatchPayloadView::unset(),
    {
        PatchPayload { name: None, content: None, ttl: None, proxied: None }
    }

    /// The update that points an A record at `address` and sets nothing
    /// else.
    pub fn address_update(address: Ipv4) -> (p: PatchPayload)
        ensures
            p@ == PatchPayloadView::address_update(address),
    {
        PatchPayload {
            name: None,
            content: Some(DnsContent::A { content: address }),
            ttl: None,
            proxied: None,
        }
    }

    /// The body of the update request. A field that is not set does not
    /// appear in it at all; the record's kind and value stand at the top
    /// level, beside the other fields.
    pub fn to_json(&self) -> (body: String)
        ensures
            body@ == self@.json(),
    {
        let mut members: Vec<String> = Vec::new();
        let ghost view = self@;
        let ghost name_part = match view.name {
            Some(name) => seq![member("name"@, json_string(name))],
            None => Seq::empty(),
        };
        let ghost content_part = match view.content {
            Some(content) => content.members(),
            None => Seq::empty(),
        };
        let ghost ttl_part = match view.ttl {
            Some(ttl) => seq![member("ttl"@, decimal(ttl as nat))],
            None => Seq::empty(),
        };
        let ghost proxied_part = match view.proxied {
            Some(proxied) => seq![member("proxied"@, json_bool(proxied))],
            None => Seq::empty(),
        };
        assert(string_views(members@) == Seq::<Seq<char>>::empty());
        if let Some(name) = &self.name {
            let m = string_member("name", name.as_str());
            members.push(m);
            assert(string_views(members@) == seq![m@]);
        }
        assert(string_views(members@) == name_part);
        if let Some(content) = &self.content {
            content.push_members(&mut members);
        }
        assert(string_views(members@) == name_part + content_part);
        if let Some(ttl) = self.ttl {
            let ghost before = string_views(members@);
            let m = number_member("ttl", ttl as u64);
            members.push(m);
            assert(string_views(members@) == before.push(m@));
        }
        assert(string_views(members@) == name_part + content_part + ttl_part);
        if let Some(proxied) = self.proxied {
            let ghost before = string_views(members@);
            let mut m = String::new();
            push_json_string(&mut m, "proxied");
            m.push(':');
            m.append(if proxied { "true" } else { "false" });
            assert(m@ == member("proxied"@, json_bool(proxied)));
            members.push(m);
            assert(string_views(members@) == before.push(m@));
        }
        assert(string_views(members@) == name_part + content_part + ttl_part + proxied_part);
        assert(string_views(members@) == view.members());
        let inner = join(&members, ",");
        let mut body = String::from_str("{");
        body.append(inner.as_str());
        body.push('}');
        proof {
            reveal_strlit(",");
            reveal_strlit("{");
            assert(","@ == seq![',']);
            assert("{"@ == seq!['{']);
            assert(body@ == self@.json());
        }
        body
    }
}

impl Default for PatchPayload {
    fn default() -> (p: PatchPayload)
        ensures
            p@ == PatchPayloadView::unset(),
    {
        PatchPayload::unset()
    }
}

/// The body that points an A record at an address names the kind `A` and
/// the address, and holds no other member: no name, no ttl, no proxied.
pub proof fn law_address_update_body(address: Ipv4)
    ensures
        PatchPayloadView::address_update(address).members() == seq![
            member("type"@, json_string("A"@)),
            member("content"@, json_string(address.dotted())),
        ],
        PatchPayloadView::address_update(address).json() == "{\"type\":\"A\",\"content\":\""@
            + address.dotted() + "\"}"@,
{
    let payload = PatchPayloadView::address_update(address);
    let text = address.dotted();
    reveal_strlit("type");
    reveal_strlit("content");
    reveal_strlit("A");
    reveal_strlit("{\"type\":\"A\",\"content\":\"");
    reveal_strlit("\"}");
    lemma_dotted_chars(address);
    assert forall|i: int| 0 <= i < text.len() implies escape_char(#[trigger] text[i]) == seq![
        text[i],
    ] by {
        assert(is_digit(text[i]) || text[i] == '.');
    }
    lemma_escaped_plain(text);
    lemma_escaped_plain("type"@);
    lemma_escaped_plain("content"@);
    lemma_escaped_plain("A"@);
    let members = seq![
        member("type"@, json_string("A"@)),
        member("content"@, json_string(text)),
    ];
    assert(payload.members() == members);
    assert(members.drop_last() == seq![member("type"@, json_string("A"@))]);
    reveal_with_fuel(joined, 3);
    assert(joined(members, seq![',']) == member("type"@, json_string("A"@)) + seq![',']
        + member("content"@, json_string(text)));
    assert(payload.json() == "{\"type\":\"A\",\"content\":\""@ + text + "\"}"@);
}

} // verus!
