//! What holds of every reconciliation, whatever the outside world answers.
use vstd::prelude::*;
use crate::args::ArgsView;
use crate::dns::{
    candidates, law_candidates_cover_a_records, selection, DnsContentView, DnsRecordView,
};
use crate::failure::FailureView;
use crate::ipv4::{address_of, Ipv4};
use crate::reconcile::{
    on_records, start_spec, step_spec, ActionView, EventView, Outcome, SettingsView, State,
};
use crate::text::{
    joined, lemma_joined_holds_part, lemma_occurs_in_chain, lemma_occurs_in_middle, occurs_in,
    trim,
};
use crate::wire::PatchPayloadView;

verus! {

/// The actions that the machine takes, in order, when it is told `events`
/// one after another from `state` on. An event that the state does not
/// await changes nothing and brings no action.
pub open spec fn run(settings: SettingsView, state: State, events: Seq<EventView>) -> Seq<
    ActionView,
>
    decreases events.len(),
{
    if events.len() == 0 {
        Seq::empty()
    } else {
        match step_spec(settings, state, events.first()) {
            Some(step) => seq![step.action] + run(settings, step.state, events.drop_first()),
            None => run(settings, state, events.drop_first()),
        }
    }
}

/// How many of the actions send an update to the provider.
pub open spec fn patches(actions: Seq<ActionView>) -> nat
    decreases actions.len(),
{
    if actions.len() == 0 {
        0
    } else {
        (if actions.first() is PatchRecord {
            1nat
        } else {
            0nat
        }) + patches(actions.drop_first())
    }
}

/// How many of the actions are requests to the provider, of either kind.
pub open spec fn provider_requests(actions: Seq<ActionView>) -> nat
    decreases actions.len(),
{
    if actions.len() == 0 {
        0
    } else {
        (if actions.first() is PatchRecord || actions.first() is ListRecords {
            1nat
        } else {
            0nat
        }) + provider_requests(actions.drop_first())
    }
}

/// Once a reconciliation is finished, no event brings another action.
pub proof fn law_finished_is_final(settings: SettingsView, events: Seq<EventView>)
    ensures
        run(settings, State::Finished, events) == Seq::<ActionView>::empty(),
    decreases events.len(),
{
    if events.len() > 0 {
        law_finished_is_final(settings, events.drop_first());
    }
}

/// The most updates that can still be sent from a state on.
spec fn patches_ahead(state: State) -> nat {
    match state {
        State::AwaitingAddress => 1,
        State::AwaitingRecords { .. } => 1,
        State::AwaitingPatch => 0,
        State::Finished => 0,
    }
}

proof fn lemma_patches_cons(first: ActionView, rest: Seq<ActionView>)
    ensures
        patches(seq![first] + rest) == (if first is PatchRecord {
            1nat
        } else {
            0nat
        }) + patches(rest),
{
    assert((seq![first] + rest).drop_first() == rest);
}

proof fn lemma_patches_bounded(settings: SettingsView, state: State, events: Seq<EventView>)
    ensures
        patches(run(settings, state, events)) <= patches_ahead(state),
    decreases events.len(),
{
    if events.len() > 0 {
        let rest = events.drop_first();
        match step_spec(settings, state, events.first()) {
            Some(step) => {
                lemma_patches_bounded(settings, step.state, rest);
                lemma_patches_cons(step.action, run(settings, step.state, rest));
            },
            None => {
                lemma_patches_bounded(settings, state, rest);
            },
        }
    }
}

/// In one invocation at most one update is sent to the provider, whatever
/// happens outside and in whatever order it is told.
pub proof fn law_at_most_one_patch(settings: SettingsView, events: Seq<EventView>)
    ensures
        patches(seq![start_spec().action] + run(settings, start_spec().state, events)) <= 1,
{
    lemma_patches_bounded(settings, start_spec().state, events);
    lemma_patches_cons(start_spec().action, run(settings, start_spec().state, events));
}

/// Where the chosen record already points at the public address, the
/// invocation ends with success at once and no update is ever sent.
pub proof fn law_up_to_date_sends_nothing(
    settings: SettingsView,
    address: Ipv4,
    records: Seq<DnsRecordView>,
    later: Seq<EventView>,
)
    requires
        selection(records, settings.record_name) matches Some(i) && records[i].content == (
        DnsContentView::A { content: address }),
    ensures
        run(settings, State::AwaitingRecords { address }, seq![EventView::Records(records)] + later)
            == seq![ActionView::Succeed(Outcome::UpToDate)],
        on_records(settings, address, records).lines.last() == settings.record_name
            + " already up-to-date!"@,
{
    let events = seq![EventView::Records(records)] + later;
    assert(events.first() == EventView::Records(records));
    law_finished_is_final(settings, events.drop_first());
}

/// Where the chosen record points elsewhere, exactly one update is sent: to
/// that record, in the configured zone, setting the address and nothing
/// else.
pub proof fn law_stale_record_patched_once(
    settings: SettingsView,
    address: Ipv4,
    records: Seq<DnsRecordView>,
    later: Seq<EventView>,
)
    requires
        selection(records, settings.record_name) matches Some(i) && records[i].content != (
        DnsContentView::A { content: address }),
    ensures
        run(
            settings,
            State::AwaitingRecords { address },
            seq![EventView::Records(records)] + later,
        ).first() == (ActionView::PatchRecord {
            zone_id: settings.zone_id,
            record_id: records[selection(records, settings.record_name)->0].id,
            payload: PatchPayloadView::address_update(address),
        }),
        patches(
            run(
                settings,
                State::AwaitingRecords { address },
                seq![EventView::Records(records)] + later,
            ),
        ) == 1,
{
    let events = seq![EventView::Records(records)] + later;
    assert(events.first() == EventView::Records(records));
    let rest = events.drop_first();
    let step = on_records(settings, address, records);
    lemma_patches_bounded(settings, State::AwaitingPatch, rest);
    lemma_patches_cons(step.action, run(settings, State::AwaitingPatch, rest));
}

/// Where the address service's body holds no IPv4 address, the invocation
/// fails with the body in hand and no request is ever made of the provider.
pub proof fn law_bad_address_reaches_no_provider(
    settings: SettingsView,
    body: Seq<char>,
    later: Seq<EventView>,
)
    requires
        forall|ip: Ipv4| trim(body) != #[trigger] ip.dotted(),
    ensures
        run(settings, State::AwaitingAddress, seq![EventView::Address(body)] + later) == seq![
            ActionView::Fail(FailureView::IpParseError { body }),
        ],
        provider_requests(
            seq![start_spec().action] + run(
                settings,
                start_spec().state,
                seq![EventView::Address(body)] + later,
            ),
        ) == 0,
{
    let events = seq![EventView::Address(body)] + later;
    assert(events.first() == EventView::Address(body));
    assert(address_of(trim(body)) is None);
    law_finished_is_final(settings, events.drop_first());
    let actions = seq![start_spec().action] + run(settings, start_spec().state, events);
    assert(actions == seq![
        ActionView::ResolveAddress,
        ActionView::Fail(FailureView::IpParseError { body }),
    ]);
    reveal_with_fuel(provider_requests, 3);
    assert(actions.drop_first() == seq![ActionView::Fail(FailureView::IpParseError { body })]);
    assert(actions.drop_first().drop_first() == Seq::<ActionView>::empty());
}

/// Where the zone holds no A record of the configured name, the invocation
/// fails, and the summary of the failure holds the line of every A record
/// of the zone, and with it the record's name.
pub proof fn law_missing_record_names_candidates(
    settings: SettingsView,
    address: Ipv4,
    records: Seq<DnsRecordView>,
    i: int,
)
    requires
        selection(records, settings.record_name) is None,
        0 <= i < records.len(),
        records[i].content is A,
    ensures
        on_records(settings, address, records).action == ActionView::Fail(
            FailureView::RecordNotFound { candidates: candidates(records) },
        ),
        occurs_in(
            records[i].candidate_line(),
            (FailureView::RecordNotFound { candidates: candidates(records) }).summary(),
        ),
        occurs_in(
            records[i].name,
            (FailureView::RecordNotFound { candidates: candidates(records) }).summary(),
        ),
{
    let lines = candidates(records);
    let line = records[i].candidate_line();
    let summary = (FailureView::RecordNotFound { candidates: lines }).summary();
    law_candidates_cover_a_records(records, i);
    let k = choose|k: int| 0 <= k < lines.len() && lines[k] == line;
    lemma_joined_holds_part(lines, ", "@, k);
    lemma_occurs_in_middle(line, "No matching DNS record in ["@, joined(lines, ", "@), "]"@);
    let name = records[i].name;
    assert(name.subrange(0, name.len() as int) == name);
    lemma_occurs_in_middle(
        name,
        seq!['A', ' '],
        name,
        seq![' '] + records[i].content->A_content.dotted(),
    );
    assert(line == seq!['A', ' '] + name + (seq![' '] + records[i].content->A_content.dotted()));
    lemma_occurs_in_chain(name, line, summary);
}

/// Whether none of the actions is a request, to the address service or to
/// the provider.
spec fn asks_nothing(actions: Seq<ActionView>) -> bool {
    forall|k: int|
        0 <= k < actions.len() ==> !((#[trigger] actions[k]) is ResolveAddress) && !(actions[k]
            is ListRecords) && !(actions[k] is PatchRecord)
}

proof fn lemma_after_patch(settings: SettingsView, events: Seq<EventView>)
    ensures
        asks_nothing(run(settings, State::AwaitingPatch, events)),
    decreases events.len(),
{
    if events.len() > 0 {
        let rest = events.drop_first();
        match step_spec(settings, State::AwaitingPatch, events.first()) {
            Some(step) => {
                law_finished_is_final(settings, rest);
                assert(run(settings, State::AwaitingPatch, events) == seq![step.action]);
            },
            None => {
                lemma_after_patch(settings, rest);
            },
        }
    }
}

proof fn lemma_after_address(settings: SettingsView, address: Ipv4, events: Seq<EventView>)
    ensures
        ({
            let actions = run(settings, State::AwaitingRecords { address }, events);
            forall|k: int|
                0 <= k < actions.len() ==> !((#[trigger] actions[k]) is ResolveAddress) && !(
                actions[k] is ListRecords) && (actions[k] is PatchRecord ==> k == 0)
        }),
    decreases events.len(),
{
    if events.len() > 0 {
        let state = State::AwaitingRecords { address };
        let rest = events.drop_first();
        match step_spec(settings, state, events.first()) {
            Some(step) => {
                let tail = run(settings, step.state, rest);
                let actions = run(settings, state, events);
                assert(actions == seq![step.action] + tail);
                if step.state == State::Finished {
                    law_finished_is_final(settings, rest);
                } else {
                    lemma_after_patch(settings, rest);
                }
                assert forall|k: int| 0 <= k < actions.len() implies !((
                #[trigger] actions[k]) is ResolveAddress) && !(actions[k] is ListRecords) && (
                actions[k] is PatchRecord ==> k == 0) by {
                    if k > 0 {
                        assert(actions[k] == tail[k - 1]);
                    }
                }
            },
            None => {
                lemma_after_address(settings, address, rest);
            },
        }
    }
}

proof fn lemma_from_start(settings: SettingsView, events: Seq<EventView>)
    ensures
        ({
            let actions = run(settings, State::AwaitingAddress, events);
            forall|k: int|
                0 <= k < actions.len() ==> !((#[trigger] actions[k]) is ResolveAddress) && (
                actions[k] is ListRecords ==> k == 0) && (actions[k] is PatchRecord ==> k == 1
                    && actions[0] is ListRecords)
        }),
    decreases events.len(),
{
    if events.len() > 0 {
        let rest = events.drop_first();
        match step_spec(settings, State::AwaitingAddress, events.first()) {
            Some(step) => {
                let tail = run(settings, step.state, rest);
                let actions = run(settings, State::AwaitingAddress, events);
                assert(actions == seq![step.action] + tail);
                match step.state {
                    State::AwaitingRecords { address } => {
                        lemma_after_address(settings, address, rest);
                    },
                    _ => {
                        law_finished_is_final(settings, rest);
                    },
                }
                assert forall|k: int| 0 <= k < actions.len() implies !((
                #[trigger] actions[k]) is ResolveAddress) && (actions[k] is ListRecords ==> k == 0)
                    && (actions[k] is PatchRecord ==> k == 1 && actions[0] is ListRecords) by {
                    if k > 0 {
                        assert(actions[k] == tail[k - 1]);
                    }
                }
            },
            None => {
                lemma_from_start(settings, rest);
            },
        }
    }
}

/// Requests are made in one order only, whatever happens outside: the
/// address is asked for first and once, the listing is asked for next if at
/// all, and an update is sent only straight after the listing was asked
/// for.
pub proof fn law_requests_in_order(settings: SettingsView, events: Seq<EventView>, k: int)
    requires
        0 <= k < (seq![start_spec().action] + run(settings, start_spec().state, events)).len(),
    ensures
        ({
            let actions = seq![start_spec().action] + run(settings, start_spec().state, events);
            &&& actions[k] is ResolveAddress <==> k == 0
            &&& actions[k] is ListRecords ==> k == 1
            &&& actions[k] is PatchRecord ==> k == 2 && actions[1] is ListRecords
        }),
{
    let tail = run(settings, start_spec().state, events);
    lemma_from_start(settings, events);
    if k > 0 {
        assert((seq![start_spec().action] + tail)[k] == tail[k - 1]);
        if tail[k - 1] is PatchRecord {
            assert((seq![start_spec().action] + tail)[1] == tail[0]);
        }
    }
}

/// Two command lines that differ in the token alone are reconciled alike:
/// the token is parted from the settings before the reconciliation begins,
/// so nothing that is printed or done depends on it.
pub proof fn law_token_is_kept_from_reconciliation(
    one: ArgsView,
    other: ArgsView,
    state: State,
    event: EventView,
)
    requires
        one.zone_id == other.zone_id,
        one.record_name == other.record_name,
        one.verbose == other.verbose,
    ensures
        one.settings() == other.settings(),
        step_spec(one.settings(), state, event) == step_spec(other.settings(), state, event),
{
}

} // verus!
