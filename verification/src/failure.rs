//! The ways in which an invocation fails, and how a failure is told to the
//! operator.
use vstd::prelude::*;
use crate::text::{decimal, join, joined, push_decimal, string_views};

verus! {

/// One entry of the error list that the provider sends with a refusal.
#[derive(Clone, Debug, PartialEq, Eq)]
pub struct ProviderError {
    pub code: u16,
    pub message: String,
}

/// A [`ProviderError`] with its text as a sequence of characters.
pub struct ProviderErrorView {
    pub code: u16,
    pub message: Seq<char>,
}

impl View for ProviderError {
    type V = ProviderErrorView;

    open spec fn view(&self) -> ProviderErrorView {
        ProviderErrorView { code: self.code, message: self.message@ }
    }
}

impl ProviderErrorView {
    /// The line that reports the entry: its code, a colon and its message.
    pub open spec fn line(self) -> Seq<char> {
        decimal(self.code as nat) + ": "@ + self.message
    }
}

/// The views of a list of provider errors, in order.
pub open spec fn error_views(errors: Seq<ProviderError>) -> Seq<ProviderErrorView> {
    errors.map_values(|e: ProviderError| e@)
}

/// What is known of a request to the provider that did not succeed.
#[derive(Clone, Debug, PartialEq, Eq)]
pub enum ApiFault {
    /// The provider answered with a status other than success; `errors` are
    /// its own errors, where its answer held any.
    Refused { status: u16, errors: Vec<ProviderError> },
    /// No answer came, or one that could not be read.
    Invalid { cause: String },
}

/// An [`ApiFault`] with its text as sequences of characters.
pub enum ApiFaultView {
    Refused { status: u16, errors: Seq<ProviderErrorView> },
    Invalid { cause: Seq<char> },
}

impl View for ApiFault {
    type V = ApiFaultView;

    open spec fn view(&self) -> ApiFaultView {
        match *self {
            ApiFault::Refused { status, errors } => ApiFaultView::Refused {
                status,
                errors: error_views(errors@),
            },
            ApiFault::Invalid { cause } => ApiFaultView::Invalid { cause: cause@ },
        }
    }
}

/// The two requests that are made of the provider.
#[derive(Clone, Copy, Debug, PartialEq, Eq, Structural)]
pub enum ApiCall {
    ListRecords,
    PatchRecord,
}

/// Why an invocation failed.
#[derive(Clone, Debug, PartialEq, Eq)]
pub enum Failure {
    /// The address service could not be reached or did not answer with
    /// success.
    IpLookupUnreachable { cause: String },
    /// The address service answered with something that is no IPv4 address;
    /// `body` is its answer as received.
    IpParseError { body: String },
    /// The client for the provider's API could not be set up.
    AuthConfigError { cause: String },
    /// The provider refused a request or answered it unreadably.
    ApiError { call: ApiCall, fault: ApiFault },
    /// The zone holds no A record of the configured name; `candidates`
    /// describes the A records that it does hold.
    RecordNotFound { candidates: Vec<String> },
}

/// A [`Failure`] with its text as sequences of characters.
pub enum FailureView {
    IpLookupUnreachable { cause: Seq<char> },
    IpParseError { body: Seq<char> },
    AuthConfigError { cause: Seq<char> },
    ApiError { call: ApiCall, fault: ApiFaultView },
    RecordNotFound { candidates: Seq<Seq<char>> },
}

impl View for Failure {
    type V = FailureView;

    open spec fn view(&self) -> FailureView {
        match *self {
            Failure::IpLookupUnreachable { cause } => FailureView::IpLookupUnreachable {
                cause: cause@,
            },
            Failure::IpParseError { body } => FailureView::IpParseError { body: body@ },
            Failure::AuthConfigError { cause } => FailureView::AuthConfigError { cause: cause@ },
            Failure::ApiError { call, fault } => FailureView::ApiError { call, fault: fault@ },
            Failure::RecordNotFound { candidates } => FailureView::RecordNotFound {
                candidates: string_views(candidates@),
            },
        }
    }
}

/// The line that reports the status of a reply.
pub open spec fn status_line(status: u16) -> Seq<char> {
    "HTTP "@ + decimal(status as nat)
}

impl ApiFaultView {
    /// The lines that report the fault: for a refusal the status, then one
    /// line for each of the provider's errors; else the cause.
    pub open spec fn lines(self) -> Seq<Seq<char>> {
        match self {
            ApiFaultView::Refused { status, errors } => seq![status_line(status)]
                + errors.map_values(|e: ProviderErrorView| e.line()),
            ApiFaultView::Invalid { cause } => seq![cause],
        }
    }
}

impl FailureView {
    /// The short summary that opens the report of the failure.
    pub open spec fn summary(self) -> Seq<char> {
        match self {
            FailureView::IpLookupUnreachable { .. } => {
                "Unable to reach ipify.org to resolve public IP"@
            },
            FailureView::IpParseError { body } => "Unable to parse "@ + body + " as IP"@,
            FailureView::AuthConfigError { .. } => "Unable to set up the API client"@,
            FailureView::ApiError { call, .. } => match call {
                ApiCall::ListRecords => "Unable to list DNS records"@,
                ApiCall::PatchRecord => "Unable to update DNS record"@,
            },
            FailureView::RecordNotFound { candidates } => "No matching DNS record in ["@ + joined(
                candidates,
                ", "@,
            ) + "]"@,
        }
    }

    /// What lies behind the failure, the nearest cause first.
    pub open spec fn causes(self) -> Seq<Seq<char>> {
        match self {
            FailureView::IpLookupUnreachable { cause } => seq![cause],
            FailureView::IpParseError { .. } => seq!["invalid IPv4 address syntax"@],
            FailureView::AuthConfigError { cause } => seq![cause],
            FailureView::ApiError { fault, .. } => fault.lines(),
            FailureView::RecordNotFound { .. } => seq!["No DNS record found with specified name"@],
        }
    }

    /// The whole report: the summary, then the causes.
    pub open spec fn chain(self) -> Seq<Seq<char>> {
        seq![self.summary()] + self.causes()
    }
}

impl ProviderError {
    /// The line that reports the entry: its code, a colon and its message.
    pub fn line(&self) -> (l: String)
        ensures
            l@ == self@.line(),
    {
        let mut l = String::new();
        push_decimal(&mut l, self.code as u64);
        l.append(": ");
        l.append(self.message.as_str());
        assert(l@ == self@.line());
        l
    }
}

impl ApiFault {
    /// The lines that report the fault: for a refusal the status, then one
    /// line for each of the provider's errors; else the cause.
    pub fn lines(&self) -> (l: Vec<String>)
        ensures
            string_views(l@) == self@.lines(),
    {
        let mut l: Vec<String> = Vec::new();
        match self {
            ApiFault::Invalid { cause } => {
                l.push(cause.clone());
                assert(string_views(l@) == seq![cause@]);
            },
            ApiFault::Refused { status, errors } => {
                let mut first = String::from_str("HTTP ");
                push_decimal(&mut first, *status as u64);
                l.push(first);
                let ghost views = error_views(errors@);
                let ghost rendered = views.map_values(|e: ProviderErrorView| e.line());
                let mut i: usize = 0;
                assert(string_views(l@) == seq![status_line(*status)] + rendered.take(0));
                while i < errors.len()
                    invariant
                        i <= errors.len(),
                        views == error_views(errors@),
                        rendered == views.map_values(|e: ProviderErrorView| e.line()),
                        string_views(l@) == seq![status_line(*status)] + rendered.take(i as int),
                    decreases errors.len() - i,
                {
                    let ghost before = string_views(l@);
                    let line = errors[i].line();
                    l.push(line);
                    proof {
                        assert(string_views(l@) == before.push(line@));
                        assert(rendered.take(i + 1) == rendered.take(i as int).push(
                            rendered[i as int],
                        ));
                    }
                    i += 1;
                }
                assert(rendered.take(errors.len() as int) == rendered);
            },
        }
        l
    }
}

impl Failure {
    /// The short summary that opens the report of the failure.
    pub fn summary(&self) -> (s: String)
        ensures
            s@ == self@.summary(),
    {
        match self {
            Failure::IpLookupUnreachable { .. } => String::from_str(
                "Unable to reach ipify.org to resolve public IP",
            ),
            Failure::IpParseError { body } => {
                let mut s = String::from_str("Unable to parse ");
                s.append(body.as_str());
                s.append(" as IP");
                s
            },
            Failure::AuthConfigError { .. } => String::from_str("Unable to set up the API client"),
            Failure::ApiError { call, .. } => match call {
                ApiCall::ListRecords => String::from_str("Unable to list DNS records"),
                ApiCall::PatchRecord => String::from_str("Unable to update DNS record"),
            },
            Failure::RecordNotFound { candidates } => {
                let mut s = String::from_str("No matching DNS record in [");
                let list = join(candidates, ", ");
                s.append(list.as_str());
                s.append("]");
                s
            },
        }
    }

    /// What lies behind the failure, the nearest cause first.
    pub fn causes(&self) -> (c: Vec<String>)
        ensures
            string_views(c@) == self@.causes(),
    {
        match self {
            Failure::IpLookupUnreachable { cause } => {
                let mut c: Vec<String> = Vec::new();
                c.push(cause.clone());
                assert(string_views(c@) == seq![cause@]);
                c
            },
            Failure::IpParseError { .. } => {
                let mut c: Vec<String> = Vec::new();
                c.push(String::from_str("invalid IPv4 address syntax"));
                assert(string_views(c@) == seq!["invalid IPv4 address syntax"@]);
                c
            },
            Failure::AuthConfigError { cause } => {
                let mut c: Vec<String> = Vec::new();
                c.push(cause.clone());
                assert(string_views(c@) == seq![cause@]);
                c
            },
            Failure::ApiError { fault, .. } => fault.lines(),
            Failure::RecordNotFound { .. } => {
                let mut c: Vec<String> = Vec::new();
                c.push(String::from_str("No DNS record found with specified name"));
                assert(string_views(c@) == seq!["No DNS record found with specified name"@]);
                c
            },
        }
    }

    /// The whole report, one line each: the summary, then the causes, the
    /// nearest first.
    pub fn chain(&self) -> (lines: Vec<String>)
        ensures
            string_views(lines@) == self@.chain(),
    {
        let mut lines: Vec<String> = Vec::new();
        let summary = self.summary();
        lines.push(summary);
        assert(string_views(lines@) == seq![self@.summary()]);
        let mut causes = self.causes();
        let ghost head = string_views(lines@);
        let ghost tail = string_views(causes@);
        lines.append(&mut causes);
        assert(string_views(lines@) == head + tail);
        lines
    }
}

} // verus!
