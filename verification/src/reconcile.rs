//! One reconciliation, as a machine that is told what happened outside and
//! answers with what to print and what to do next. The caller performs the
//! requests; every decision is taken here.
use vstd::prelude::*;
use crate::dns::{
    candidate_lines, candidates, record_views, select_record, selection, DnsContent,
    DnsContentView, DnsRecord, DnsRecordView,
};
use crate::failure::{ApiCall, ApiFault, ApiFaultView, Failure, FailureView};
use crate::ipv4::{address_of, Ipv4};
use crate::report::{
    address_line, count_line, current_line, make_address_line, make_count_line,
    make_current_line, make_new_line, make_up_to_date_line, make_updated_line, new_line,
    up_to_date_line, updated_line,
};
use crate::text::{string_views, trim};
use crate::wire::{PatchPayload, PatchPayloadView};

verus! {

/// What an invocation is asked to do, apart from the credential: the
/// reconciliation never sees the token.
#[derive(Clone, Debug, PartialEq, Eq)]
pub struct Settings {
    pub zone_id: String,
    pub record_name: String,
    pub verbose: bool,
}

/// [`Settings`] with their text as sequences of characters.
pub struct SettingsView {
    pub zone_id: Seq<char>,
    pub record_name: Seq<char>,
    pub verbose: bool,
}

impl View for Settings {
    type V = SettingsView;

    open spec fn view(&self) -> SettingsView {
        SettingsView {
            zone_id: self.zone_id@,
            record_name: self.record_name@,
            verbose: self.verbose,
        }
    }
}

/// How far a reconciliation has come.
#[derive(Clone, Copy, Debug, PartialEq, Eq, Structural)]
pub enum State {
    /// The public address has been asked for.
    AwaitingAddress,
    /// The public address is known and the zone's records have been asked
    /// for.
    AwaitingRecords { address: Ipv4 },
    /// The update of the record has been sent.
    AwaitingPatch,
    /// Nothing is left to do.
    Finished,
}

/// What happened outside since the last step.
#[derive(Clone, Debug, PartialEq, Eq)]
pub enum Event {
    /// The address service answered with this body.
    Address(String),
    /// The address service could not be reached or refused.
    AddressUnreachable(String),
    /// The client for the provider's API could not be set up.
    ClientRejected(String),
    /// The provider listed these records, in this order.
    Records(Vec<DnsRecord>),
    /// The provider returned the record as it stands after the update.
    Patched(DnsRecord),
    /// The request to the provider did not succeed.
    ApiFailed(ApiFault),
}

/// An [`Event`] with its text as sequences of characters.
pub enum EventView {
    Address(Seq<char>),
    AddressUnreachable(Seq<char>),
    ClientRejected(Seq<char>),
    Records(Seq<DnsRecordView>),
    Patched(DnsRecordView),
    ApiFailed(ApiFaultView),
}

impl View for Event {
    type V = EventView;

    open spec fn view(&self) -> EventView {
        match *self {
            Event::Address(body) => EventView::Address(body@),
            Event::AddressUnreachable(cause) => EventView::AddressUnreachable(cause@),
            Event::ClientRejected(cause) => EventView::ClientRejected(cause@),
            Event::Records(records) => EventView::Records(record_views(records@)),
            Event::Patched(record) => EventView::Patched(record@),
            Event::ApiFailed(fault) => EventView::ApiFailed(fault@),
        }
    }
}

/// How a reconciliation that succeeded found the record.
#[derive(Clone, Copy, Debug, PartialEq, Eq, Structural)]
pub enum Outcome {
    /// The record already pointed at the public address; nothing was sent.
    UpToDate,
    /// The record was pointed at the public address.
    Updated,
}

/// What the caller is to do next.
#[derive(Clone, Debug, PartialEq, Eq)]
pub enum Action {
    /// Ask the address service for the public address.
    ResolveAddress,
    /// Ask the provider for the records of the zone.
    ListRecords { zone_id: String },
    /// Send the update of one record to the provider.
    PatchRecord { zone_id: String, record_id: String, payload: PatchPayload },
    /// End the invocation with success.
    Succeed(Outcome),
    /// End the invocation with this failure.
    Fail(Failure),
}

/// An [`Action`] with its text as sequences of characters.
pub enum ActionView {
    ResolveAddress,
    ListRecords { zone_id: Seq<char> },
    PatchRecord { zone_id: Seq<char>, record_id: Seq<char>, payload: PatchPayloadView },
    Succeed(Outcome),
    Fail(FailureView),
}

impl View for Action {
    type V = ActionView;

    open spec fn view(&self) -> ActionView {
        match *self {
            Action::ResolveAddress => ActionView::ResolveAddress,
            Action::ListRecords { zone_id } => ActionView::ListRecords { zone_id: zone_id@ },
            Action::PatchRecord { zone_id, record_id, payload } => ActionView::PatchRecord {
                zone_id: zone_id@,
                record_id: record_id@,
                payload: payload@,
            },
            Action::Succeed(outcome) => ActionView::Succeed(outcome),
            Action::Fail(failure) => ActionView::Fail(failure@),
        }
    }
}

/// The answer to an event: the state that follows, the lines to print, and
/// then the action to take.
#[derive(Clone, Debug, PartialEq, Eq)]
pub struct Step {
    pub state: State,
    pub lines: Vec<String>,
    pub action: Action,
}

/// A [`Step`] with its text as sequences of characters.
pub struct StepView {
    pub state: State,
    pub lines: Seq<Seq<char>>,
    pub action: ActionView,
}

impl View for Step {
    type V = StepView;

    open spec fn view(&self) -> StepView {
        StepView { state: self.state, lines: string_views(self.lines@), action: self.action@ }
    }
}

/// The view of a step that may be missing.
pub open spec fn step_view(step: Option<Step>) -> Option<StepView> {
    match step {
        Some(s) => Some(s@),
        None => None,
    }
}

/// How every reconciliation begins: nothing is printed and the public
/// address is asked for.
pub open spec fn start_spec() -> StepView {
    StepView {
        state: State::AwaitingAddress,
        lines: Seq::empty(),
        action: ActionView::ResolveAddress,
    }
}

/// The step that ends the reconciliation with a failure, after `lines`.
pub open spec fn failed(lines: Seq<Seq<char>>, failure: FailureView) -> StepView {
    StepView { state: State::Finished, lines, action: ActionView::Fail(failure) }
}

/// The answer to the address service's body: the address is read from the
/// body without its surrounding whitespace, told to the operator, and the
/// zone's records are asked for; a body that holds no IPv4 address ends the
/// reconciliation.
pub open spec fn on_address(settings: SettingsView, body: Seq<char>) -> StepView {
    match address_of(trim(body)) {
        Some(address) => StepView {
            state: State::AwaitingRecords { address },
            lines: seq![address_line(address)],
            action: ActionView::ListRecords { zone_id: settings.zone_id },
        },
        None => failed(Seq::empty(), FailureView::IpParseError { body }),
    }
}

/// The lines of a verbose invocation, none of a quiet one.
pub open spec fn when_verbose(settings: SettingsView, lines: Seq<Seq<char>>) -> Seq<Seq<char>> {
    if settings.verbose {
        lines
    } else {
        Seq::empty()
    }
}

/// The answer to the zone's listing: the first A record of the configured
/// name is chosen; if it points at the public address nothing is sent, else
/// the update of its address and of nothing else is; a zone without such a
/// record ends the reconciliation.
pub open spec fn on_records(
    settings: SettingsView,
    address: Ipv4,
    records: Seq<DnsRecordView>,
) -> StepView {
    let counted = when_verbose(settings, seq![count_line(records.len())]);
    match selection(records, settings.record_name) {
        None => failed(counted, FailureView::RecordNotFound { candidates: candidates(records) }),
        Some(i) => {
            let shown = counted + when_verbose(settings, seq![current_line(records[i])]);
            if records[i].content == (DnsContentView::A { content: address }) {
                StepView {
                    state: State::Finished,
                    lines: shown.push(up_to_date_line(settings.record_name)),
                    action: ActionView::Succeed(Outcome::UpToDate),
                }
            } else {
                StepView {
                    state: State::AwaitingPatch,
                    lines: shown,
                    action: ActionView::PatchRecord {
                        zone_id: settings.zone_id,
                        record_id: records[i].id,
                        payload: PatchPayloadView::address_update(address),
                    },
                }
            }
        },
    }
}

/// The answer to the provider's confirmation of the update.
pub open spec fn on_patched(settings: SettingsView, record: DnsRecordView) -> StepView {
    StepView {
        state: State::Finished,
        lines: seq![updated_line(settings.record_name)] + when_verbose(
            settings,
            seq![new_line(record)],
        ),
        action: ActionView::Succeed(Outcome::Updated),
    }
}

/// The answer of the machine in `state` to `event`, or nothing where the
/// state does not await the event.
pub open spec fn step_spec(settings: SettingsView, state: State, event: EventView) -> Option<
    StepView,
> {
    match (state, event) {
        (State::AwaitingAddress, EventView::Address(body)) => Some(on_address(settings, body)),
        (State::AwaitingAddress, EventView::AddressUnreachable(cause)) => Some(
            failed(Seq::empty(), FailureView::IpLookupUnreachable { cause }),
        ),
        (State::AwaitingRecords { .. }, EventView::ClientRejected(cause)) => Some(
            failed(Seq::empty(), FailureView::AuthConfigError { cause }),
        ),
        (State::AwaitingRecords { address }, EventView::Records(records)) => Some(
            on_records(settings, address, records),
        ),
        (State::AwaitingRecords { .. }, EventView::ApiFailed(fault)) => Some(
            failed(Seq::empty(), FailureView::ApiError { call: ApiCall::ListRecords, fault }),
        ),
        (State::AwaitingPatch, EventView::Patched(record)) => Some(on_patched(settings, record)),
        (State::AwaitingPatch, EventView::ApiFailed(fault)) => Some(
            failed(Seq::empty(), FailureView::ApiError { call: ApiCall::PatchRecord, fault }),
        ),
        _ => None,
    }
}

/// Begins a reconciliation.
pub fn start() -> (step: Step)
    ensures
        step@ == start_spec(),
{
    let step = Step {
        state: State::AwaitingAddress,
        lines: Vec::new(),
        action: Action::ResolveAddress,
    };
    assert(string_views(step.lines@) == Seq::<Seq<char>>::empty());
    step
}

fn fail(lines: Vec<String>, failure: Failure) -> (step: Step)
    ensures
        step@ == failed(string_views(lines@), failure@),
{
    Step { state: State::Finished, lines, action: Action::Fail(failure) }
}

fn no_lines() -> (lines: Vec<String>)
    ensures
        string_views(lines@) == Seq::<Seq<char>>::empty(),
{
    let lines: Vec<String> = Vec::new();
    assert(string_views(lines@) == Seq::<Seq<char>>::empty());
    lines
}

fn answer_address(settings: &Settings, body: String) -> (step: Step)
    ensures
        step@ == on_address(settings@, body@),
{
    match Ipv4::parse_trimmed(body.as_str()) {
        Some(address) => {
            let mut lines = no_lines();
            let line = make_address_line(address);
            lines.push(line);
            assert(string_views(lines@) == seq![address_line(address)]);
            Step {
                state: State::AwaitingRecords { address },
                lines,
                action: Action::ListRecords { zone_id: settings.zone_id.clone() },
            }
        },
        None => fail(no_lines(), Failure::IpParseError { body }),
    }
}

fn answer_records(settings: &Settings, address: Ipv4, records: Vec<DnsRecord>) -> (step: Step)
    ensures
        step@ == on_records(settings@, address, record_views(records@)),
{
    let ghost views = record_views(records@);
    let mut lines = no_lines();
    if settings.verbose {
        let line = make_count_line(records.len());
        lines.push(line);
        assert(string_views(lines@) == seq![count_line(views.len())]);
    }
    let ghost counted = string_views(lines@);
    assert(counted == when_verbose(settings@, seq![count_line(views.len())]));
    match select_record(&records, settings.record_name.as_str()) {
        None => {
            let candidates = candidate_lines(&records);
            fail(lines, Failure::RecordNotFound { candidates })
        },
        Some(i) => {
            if settings.verbose {
                let line = make_current_line(&records[i]);
                lines.push(line);
                assert(string_views(lines@) == counted.push(line@));
            }
            let ghost shown = string_views(lines@);
            assert(shown == counted + when_verbose(settings@, seq![current_line(views[i as int])]));
            let up_to_date = match &records[i].content {
                DnsContent::A { content } => *content == address,
                _ => false,
            };
            assert(up_to_date == (views[i as int].content == (DnsContentView::A {
                content: address,
            })));
            if up_to_date {
                let line = make_up_to_date_line(settings.record_name.as_str());
                lines.push(line);
                assert(string_views(lines@) == shown.push(line@));
                Step { state: State::Finished, lines, action: Action::Succeed(Outcome::UpToDate) }
            } else {
                Step {
                    state: State::AwaitingPatch,
                    lines,
                    action: Action::PatchRecord {
                        zone_id: settings.zone_id.clone(),
                        record_id: records[i].id.clone(),
                        payload: PatchPayload::address_update(address),
                    },
                }
            }
        },
    }
}

fn answer_patched(settings: &Settings, record: DnsRecord) -> (step: Step)
    ensures
        step@ == on_patched(settings@, record@),
{
    let mut lines = no_lines();
    let line = make_updated_line(settings.record_name.as_str());
    lines.push(line);
    assert(string_views(lines@) == seq![updated_line(settings@.record_name)]);
    if settings.verbose {
        let ghost before = string_views(lines@);
        let shown = make_new_line(&record);
        lines.push(shown);
        assert(string_views(lines@) == before.push(shown@));
    }
    assert(string_views(lines@) == seq![updated_line(settings@.record_name)] + when_verbose(
        settings@,
        seq![new_line(record@)],
    ));
    Step { state: State::Finished, lines, action: Action::Succeed(Outcome::Updated) }
}

/// Answers `event` in `state`: what to print and what to do next. An event
/// that the state does not await is answered with nothing, and so is every
/// event once the reconciliation is finished.
pub fn step(settings: &Settings, state: State, event: Event) -> (next: Option<Step>)
    ensures
        step_view(next) == step_spec(settings@, state, event@),
{
    match state {
        State::AwaitingAddress => match event {
            Event::Address(body) => Some(answer_address(settings, body)),
            Event::AddressUnreachable(cause) => Some(
                fail(no_lines(), Failure::IpLookupUnreachable { cause }),
            ),
            _ => None,
        },
        State::AwaitingRecords { address } => match event {
            Event::ClientRejected(cause) => Some(
                fail(no_lines(), Failure::AuthConfigError { cause }),
            ),
            Event::Records(records) => Some(answer_records(settings, address, records)),
            Event::ApiFailed(fault) => Some(
                fail(no_lines(), Failure::ApiError { call: ApiCall::ListRecords, fault }),
            ),
            _ => None,
        },
        State::AwaitingPatch => match event {
            Event::Patched(record) => Some(answer_patched(settings, record)),
            Event::ApiFailed(fault) => Some(
                fail(no_lines(), Failure::ApiError { call: ApiCall::PatchRecord, fault }),
            ),
            _ => None,
        },
        State::Finished => None,
    }
}

} // verus!
