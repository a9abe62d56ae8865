use cloudflare_ddns_update::dns::DnsContent;
use cloudflare_ddns_update::ipv4::Ipv4;
use cloudflare_ddns_update::wire::{list_path, patch_path, PatchPayload};

#[test]
fn path_of_the_listing() {
    assert_eq!(list_path("Z1"), "zones/Z1/dns_records");
    assert_eq!(list_path(""), "zones//dns_records");
}

#[test]
fn path_of_the_update() {
    assert_eq!(patch_path("Z1", "R1"), "zones/Z1/dns_records/R1");
    assert_eq!(
        patch_path("023e105f4ecef8ad9ca31a8372d0c353", "372e67954025e0ba6aaa6d586b9e0b59"),
        "zones/023e105f4ecef8ad9ca31a8372d0c353/dns_records/372e67954025e0ba6aaa6d586b9e0b59"
    );
}

#[test]
fn address_update_sets_the_content_only() {
    let payload = PatchPayload::address_update(Ipv4::new(203, 0, 113, 8));
    assert_eq!(
        payload,
        PatchPayload {
            name: None,
            content: Some(DnsContent::A { content: Ipv4::new(203, 0, 113, 8) }),
            ttl: None,
            proxied: None,
        }
    );
}

#[test]
fn body_of_an_address_update() {
    let payload = PatchPayload::address_update(Ipv4::new(203, 0, 113, 8));
    assert_eq!(payload.to_json(), r#"{"type":"A","content":"203.0.113.8"}"#);
}

#[test]
fn body_leaves_unset_fields_out() {
    let body = PatchPayload::address_update(Ipv4::new(10, 0, 0, 1)).to_json();
    assert!(!body.contains("name"));
    assert!(!body.contains("ttl"));
    assert!(!body.contains("proxied"));
    assert!(!body.contains("null"));
}

#[test]
fn body_of_the_update_that_sets_nothing() {
    assert_eq!(PatchPayload::unset().to_json(), "{}");
    assert_eq!(PatchPayload::default(), PatchPayload::unset());
    assert_eq!(
        PatchPayload::unset(),
        PatchPayload { name: None, content: None, ttl: None, proxied: None }
    );
}

#[test]
fn body_with_every_field_set() {
    let payload = PatchPayload {
        name: Some("home.example.com".to_owned()),
        content: Some(DnsContent::MX { content: "mail.example.com".to_owned(), priority: 10 }),
        ttl: Some(120),
        proxied: Some(false),
    };
    assert_eq!(
        payload.to_json(),
        r#"{"name":"home.example.com","type":"MX","content":"mail.example.com","priority":10,"ttl":120,"proxied":false}"#
    );
}

#[test]
fn body_with_single_fields() {
    let ttl = PatchPayload { ttl: Some(1), ..PatchPayload::unset() };
    assert_eq!(ttl.to_json(), r#"{"ttl":1}"#);
    let proxied = PatchPayload { proxied: Some(true), ..PatchPayload::unset() };
    assert_eq!(proxied.to_json(), r#"{"proxied":true}"#);
    let name = PatchPayload { name: Some("n".to_owned()), ..PatchPayload::unset() };
    assert_eq!(name.to_json(), r#"{"name":"n"}"#);
    let big = PatchPayload { ttl: Some(u32::MAX), ..PatchPayload::unset() };
    assert_eq!(big.to_json(), r#"{"ttl":4294967295}"#);
}

#[test]
fn body_of_each_kind_of_content() {
    let with =
        |content: DnsContent| PatchPayload { content: Some(content), ..PatchPayload::unset() };
    assert_eq!(
        with(DnsContent::AAAA { content: "2001:db8::1".to_owned() }).to_json(),
        r#"{"type":"AAAA","content":"2001:db8::1"}"#
    );
    assert_eq!(
        with(DnsContent::CNAME { content: "x.example.com".to_owned() }).to_json(),
        r#"{"type":"CNAME","content":"x.example.com"}"#
    );
    assert_eq!(
        with(DnsContent::NS { content: "ns1.example.com".to_owned() }).to_json(),
        r#"{"type":"NS","content":"ns1.example.com"}"#
    );
    assert_eq!(
        with(DnsContent::TXT { content: "v=spf1 -all".to_owned() }).to_json(),
        r#"{"type":"TXT","content":"v=spf1 -all"}"#
    );
    assert_eq!(
        with(DnsContent::MX { content: "m".to_owned(), priority: 65535 }).to_json(),
        r#"{"type":"MX","content":"m","priority":65535}"#
    );
}

#[test]
fn strings_are_escaped() {
    let payload = PatchPayload {
        content: Some(DnsContent::TXT {
            content: "say \"hi\"\\ \n\r\t\u{08}\u{0C}\u{01}\u{1f} \u{7f} \u{e9}/".to_owned(),
        }),
        ..PatchPayload::unset()
    };
    assert_eq!(
        payload.to_json(),
        "{\"type\":\"TXT\",\"content\":\"say \\\"hi\\\"\\\\ \\n\\r\\t\\b\\f\\u0001\\u001f \u{7f} \u{e9}/\"}"
    );
}

#[test]
fn kind_and_value_of_content() {
    let a = DnsContent::A { content: Ipv4::new(1, 2, 3, 4) };
    assert_eq!(a.kind(), "A");
    assert_eq!(a.value(), "1.2.3.4");
    let mx = DnsContent::MX { content: "mail".to_owned(), priority: 5 };
    assert_eq!(mx.kind(), "MX");
    assert_eq!(mx.value(), "mail");
    assert_eq!(DnsContent::AAAA { content: "::1".to_owned() }.kind(), "AAAA");
    assert_eq!(DnsContent::CNAME { content: "c".to_owned() }.kind(), "CNAME");
    assert_eq!(DnsContent::NS { content: "n".to_owned() }.kind(), "NS");
    assert_eq!(DnsContent::TXT { content: "t".to_owned() }.kind(), "TXT");
    assert_eq!(DnsContent::TXT { content: "t".to_owned() }.value(), "t");
}
