//! DNS records as the provider lists them, and the choice of the one record
//! to keep up to date.
use vstd::prelude::*;
use crate::ipv4::Ipv4;
use crate::text::string_views;

verus! {

/// The kind of a DNS record together with its value.
#[allow(inconsistent_fields)]
#[derive(Clone, Debug, PartialEq, Eq)]
pub enum DnsContent {
    A { content: Ipv4 },
    AAAA { content: String },
    CNAME { content: String },
    NS { content: String },
    MX { content: String, priority: u16 },
    TXT { content: String },
}

/// A [`DnsContent`] with its text as sequences of characters.
#[allow(inconsistent_fields)]
pub enum DnsContentView {
    A { content: Ipv4 },
    AAAA { content: Seq<char> },
    CNAME { content: Seq<char> },
    NS { content: Seq<char> },
    MX { content: Seq<char>, priority: u16 },
    TXT { content: Seq<char> },
}

impl View for DnsContent {
    type V = DnsContentView;

    open spec fn view(&self) -> DnsContentView {
        match *self {
            DnsContent::A { content } => DnsContentView::A { content },
            DnsContent::AAAA { content } => DnsContentView::AAAA { content: content@ },
            DnsContent::CNAME { content } => DnsContentView::CNAME { content: content@ },
            DnsContent::NS { content } => DnsContentView::NS { content: content@ },
            DnsContent::MX { content, priority } => DnsContentView::MX {
                content: content@,
                priority,
            },
            DnsContent::TXT { content } => DnsContentView::TXT { content: content@ },
        }
    }
}

/// A snapshot of one DNS record of a zone.
#[derive(Clone, Debug, PartialEq, Eq)]
pub struct DnsRecord {
    /// The provider's identifier of the record; never interpreted here.
    pub id: String,
    /// The fully qualified name of the record.
    pub name: String,
    pub content: DnsContent,
}

/// A [`DnsRecord`] with its text as sequences of characters.
pub struct DnsRecordView {
    pub id: Seq<char>,
    pub name: Seq<char>,
    pub content: DnsContentView,
}

impl View for DnsRecord {
    type V = DnsRecordView;

    open spec fn view(&self) -> DnsRecordView {
        DnsRecordView { id: self.id@, name: self.name@, content: self.content@ }
    }
}

/// The views of the records of a listing, in listing order.
pub open spec fn record_views(records: Seq<DnsRecord>) -> Seq<DnsRecordView> {
    records.map_values(|r: DnsRecord| r@)
}

impl DnsRecordView {
    /// Whether the record is an A record named `name`: the only kind of
    /// record that is ever chosen.
    pub open spec fn is_target(self, name: Seq<char>) -> bool {
        self.content is A && self.name == name
    }
}

/// Whether `i` is the place of the first A record named `name`.
pub open spec fn selects(records: Seq<DnsRecordView>, name: Seq<char>, i: int) -> bool {
    &&& 0 <= i < records.len()
    &&& records[i].is_target(name)
    &&& forall|j: int| 0 <= j < i ==> !(#[trigger] records[j]).is_target(name)
}

/// Whether the listing holds no A record named `name`.
pub open spec fn lacks_target(records: Seq<DnsRecordView>, name: Seq<char>) -> bool {
    forall|j: int| 0 <= j < records.len() ==> !(#[trigger] records[j]).is_target(name)
}

/// The place of the record to keep up to date: the first A record named
/// `name`, if the listing holds one.
pub open spec fn selection(records: Seq<DnsRecordView>, name: Seq<char>) -> Option<int>
    decreases records.len(),
{
    if records.len() == 0 {
        None
    } else {
        match selection(records.drop_last(), name) {
            Some(i) => Some(i),
            None => if records.last().is_target(name) {
                Some(records.len() - 1)
            } else {
                None
            },
        }
    }
}

/// [`selection`] finds the first A record of the name, and finds nothing
/// only where there is none.
pub proof fn lemma_selection(records: Seq<DnsRecordView>, name: Seq<char>)
    ensures
        match selection(records, name) {
            Some(i) => selects(records, name, i),
            None => lacks_target(records, name),
        },
    decreases records.len(),
{
    if records.len() > 0 {
        let front = records.drop_last();
        lemma_selection(front, name);
        assert forall|j: int| 0 <= j < front.len() implies front[j] == records[j] by {}
        match selection(front, name) {
            Some(i) => {
                assert(records[i] == front[i]);
                assert forall|j: int| 0 <= j < i implies !(#[trigger] records[j]).is_target(
                    name,
                ) by {
                    assert(front[j] == records[j]);
                }
            },
            None => {
                assert forall|j: int| 0 <= j < records.len() - 1 implies !(
                #[trigger] records[j]).is_target(name) by {
                    assert(front[j] == records[j]);
                }
            },
        }
    }
}

impl DnsContent {
    /// Whether this is the content of an A record.
    pub fn is_a(&self) -> (r: bool)
        ensures
            r == (self@ is A),
    {
        match self {
            DnsContent::A { .. } => true,
            _ => false,
        }
    }
}

/// Finds the record to keep up to date: the first A record whose name is
/// exactly `name`. Records of other kinds are passed over whatever their
/// name.
pub fn select_record(records: &Vec<DnsRecord>, name: &str) -> (r: Option<usize>)
    ensures
        match r {
            Some(i) => i < records.len() && selection(record_views(records@), name@) == Some(
                i as int,
            ),
            None => selection(record_views(records@), name@) is None,
        },
{
    let ghost views = record_views(records@);
    let wanted = String::from_str(name);
    let mut i: usize = 0;
    while i < records.len()
        invariant
            i <= records.len(),
            views == record_views(records@),
            wanted@ == name@,
            forall|j: int| 0 <= j < i ==> !(#[trigger] views[j]).is_target(name@),
        decreases records.len() - i,
    {
        if records[i].content.is_a() && records[i].name == wanted {
            proof {
                lemma_selection(views, name@);
                assert(views[i as int].is_target(name@));
            }
            return Some(i);
        }
        i += 1;
    }
    proof {
        lemma_selection(views, name@);
    }
    None
}

/// The A records of a listing, in listing order.
pub open spec fn a_records(records: Seq<DnsRecordView>) -> Seq<DnsRecordView> {
    records.filter(|r: DnsRecordView| r.content is A)
}

/// The first record named `name`, if there is one.
pub open spec fn first_named(records: Seq<DnsRecordView>, name: Seq<char>) -> Option<
    DnsRecordView,
>
    decreases records.len(),
{
    if records.len() == 0 {
        None
    } else {
        match first_named(records.drop_last(), name) {
            Some(r) => Some(r),
            None => if records.last().name == name {
                Some(records.last())
            } else {
                None
            },
        }
    }
}

/// Choosing a record is keeping the A records and then taking the first of
/// them that bears the name: a record of another kind never stands in the
/// way of an A record of the same name, and is never chosen itself.
pub proof fn law_selection_filters_then_finds(records: Seq<DnsRecordView>, name: Seq<char>)
    ensures
        first_named(a_records(records), name) == match selection(records, name) {
            Some(i) => Some(records[i]),
            None => None,
        },
        selection(records, name) matches Some(i) ==> records[i].content is A && records[i].name
            == name,
    decreases records.len(),
{
    reveal(Seq::filter);
    lemma_selection(records, name);
    if records.len() > 0 {
        let front = records.drop_last();
        let last = records.last();
        law_selection_filters_then_finds(front, name);
        lemma_selection(front, name);
        if last.content is A {
            assert(a_records(records) == a_records(front).push(last));
            assert(a_records(front).push(last).drop_last() == a_records(front));
        } else {
            assert(a_records(records) == a_records(front));
        }
        if let Some(i) = selection(front, name) {
            assert(front[i] == records[i]);
        }
    }
}

impl DnsRecordView {
    /// The line that describes an A record to the operator: `A`, the name
    /// and the address, separated by single spaces.
    pub open spec fn candidate_line(self) -> Seq<char> {
        match self.content {
            DnsContentView::A { content } => seq!['A', ' '] + self.name + seq![' ']
                + content.dotted(),
            _ => Seq::empty(),
        }
    }
}

/// The lines that describe the A records of a listing, in listing order.
pub open spec fn candidates(records: Seq<DnsRecordView>) -> Seq<Seq<char>> {
    a_records(records).map_values(|r: DnsRecordView| r.candidate_line())
}

/// Every A record of a listing is described by one of the candidate lines,
/// and that line holds its name and its address.
pub proof fn law_candidates_cover_a_records(records: Seq<DnsRecordView>, i: int)
    requires
        0 <= i < records.len(),
        records[i].content is A,
    ensures
        candidates(records).contains(records[i].candidate_line()),
        records[i].candidate_line() == seq!['A', ' '] + records[i].name + seq![' ']
            + records[i].content->A_content.dotted(),
{
    let kept = a_records(records);
    records.lemma_filter_contains(|r: DnsRecordView| r.content is A, i);
    let k = choose|k: int| 0 <= k < kept.len() && kept[k] == records[i];
    assert(candidates(records)[k] == records[i].candidate_line());
}

/// The candidate lines of the listing: one line of the form
/// `A <name> <address>` for each A record, in listing order.
pub fn candidate_lines(records: &Vec<DnsRecord>) -> (lines: Vec<String>)
    ensures
        string_views(lines@) == candidates(record_views(records@)),
{
    let ghost views = record_views(records@);
    let mut lines: Vec<String> = Vec::new();
    let mut i: usize = 0;
    proof {
        reveal(Seq::filter);
        assert(views.take(0) == Seq::<DnsRecordView>::empty());
        assert(string_views(lines@) == candidates(views.take(0)));
    }
    while i < records.len()
        invariant
            i <= records.len(),
            views == record_views(records@),
            string_views(lines@) == candidates(views.take(i as int)),
        decreases records.len() - i,
    {
        let ghost before = views.take(i as int);
        let ghost after = views.take(i + 1);
        proof {
            reveal(Seq::filter);
            assert(after.drop_last() == before);
            assert(after.last() == records[i as int]@);
        }
        match &records[i].content {
            DnsContent::A { content } => {
                let mut line = String::from_str("A ");
                line.append(records[i].name.as_str());
                line.push(' ');
                content.push_to(&mut line);
                proof {
                    reveal_strlit("A ");
                    assert("A "@ == seq!['A', ' ']);
                    assert(line@ == after.last().candidate_line());
                }
                let ghost old_lines = lines@;
                lines.push(line);
                proof {
                    assert(a_records(after) == a_records(before).push(after.last()));
                    assert(string_views(lines@) == string_views(old_lines).push(line@));
                    assert(candidates(after) == candidates(before).push(
                        after.last().candidate_line(),
                    ));
                }
            },
            _ => {
                proof {
                    assert(a_records(after) == a_records(before));
                }
            },
        }
        i += 1;
    }
    proof {
        assert(views.take(records.len() as int) == views);
    }
    lines
}

} // verus!
