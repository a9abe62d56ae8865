use cloudflare_ddns_update::dns::{candidate_lines, select_record, DnsContent, DnsRecord};
use cloudflare_ddns_update::ipv4::Ipv4;

fn a_record(id: &str, name: &str, address: Ipv4) -> DnsRecord {
    DnsRecord {
        id: id.to_owned(),
        name: name.to_owned(),
        content: DnsContent::A { content: address },
    }
}

fn cname_record(id: &str, name: &str, target: &str) -> DnsRecord {
    DnsRecord {
        id: id.to_owned(),
        name: name.to_owned(),
        content: DnsContent::CNAME { content: target.to_owned() },
    }
}

#[test]
fn a_record_is_chosen_over_a_cname_of_the_same_name() {
    let records = vec![
        cname_record("C1", "example.com", "other"),
        a_record("A1", "example.com", Ipv4::new(1, 2, 3, 4)),
    ];
    assert_eq!(select_record(&records, "example.com"), Some(1));
    assert_eq!(records[1].content, DnsContent::A { content: Ipv4::new(1, 2, 3, 4) });
}

#[test]
fn records_of_other_kinds_are_never_chosen() {
    let name = "home.example.com";
    let records = vec![
        cname_record("C1", name, "x.example.com"),
        DnsRecord {
            id: "T1".to_owned(),
            name: name.to_owned(),
            content: DnsContent::TXT { content: "v=spf1".to_owned() },
        },
        DnsRecord {
            id: "M1".to_owned(),
            name: name.to_owned(),
            content: DnsContent::MX { content: "mail.example.com".to_owned(), priority: 10 },
        },
        DnsRecord {
            id: "N1".to_owned(),
            name: name.to_owned(),
            content: DnsContent::NS { content: "ns.example.com".to_owned() },
        },
        DnsRecord {
            id: "Q1".to_owned(),
            name: name.to_owned(),
            content: DnsContent::AAAA { content: "::1".to_owned() },
        },
    ];
    assert_eq!(select_record(&records, name), None);
}

#[test]
fn first_of_two_a_records_is_chosen() {
    let records = vec![
        a_record("A0", "other.example.com", Ipv4::new(9, 9, 9, 9)),
        a_record("A1", "home.example.com", Ipv4::new(1, 1, 1, 1)),
        a_record("A2", "home.example.com", Ipv4::new(2, 2, 2, 2)),
    ];
    assert_eq!(select_record(&records, "home.example.com"), Some(1));
}

#[test]
fn names_are_matched_exactly() {
    let records = vec![a_record("A1", "home.example.com", Ipv4::new(1, 1, 1, 1))];
    assert_eq!(select_record(&records, "Home.example.com"), None);
    assert_eq!(select_record(&records, "home.example.com."), None);
    assert_eq!(select_record(&records, "home.example.co"), None);
    assert_eq!(select_record(&records, ""), None);
    assert_eq!(select_record(&Vec::new(), "home.example.com"), None);
}

#[test]
fn kind_of_content() {
    assert!(DnsContent::A { content: Ipv4::new(1, 1, 1, 1) }.is_a());
    assert!(!DnsContent::AAAA { content: "::1".to_owned() }.is_a());
    assert!(!DnsContent::CNAME { content: "x".to_owned() }.is_a());
}

#[test]
fn candidate_lines_describe_the_a_records_only() {
    let records = vec![
        a_record("A1", "other.example.com", Ipv4::new(1, 1, 1, 1)),
        cname_record("C1", "home.example.com", "x"),
        a_record("A2", "www.example.com", Ipv4::new(203, 0, 113, 7)),
    ];
    assert_eq!(
        candidate_lines(&records),
        vec![
            "A other.example.com 1.1.1.1".to_owned(),
            "A www.example.com 203.0.113.7".to_owned(),
        ]
    );
    assert_eq!(candidate_lines(&Vec::new()), Vec::<String>::new());
}
