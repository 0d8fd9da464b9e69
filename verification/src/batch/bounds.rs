//! How long an operation can take, and what it lets out.
use vstd::prelude::*;

use crate::batch::laws::{action_after, follow, is_run, item_at, point_after};
use crate::batch::machine::{
    fits, less, Action, Event, Frame, LookupOutcome, Point, Request, SpecAction, SpecPoint, Then,
    Work, LOOKUP_INTERVAL, MAX_LOOKUPS, RECONCILIATION_WINDOW,
};
use crate::domain::{BatchItem, BatchItemStatus};
use crate::error::Failure;
use crate::redact::{apart_from_marker, redaction_removes_the_secret};
use crate::shopify::graphql::InputModel;
use crate::text::occurs;

verus! {

/// The number of lookups of the current item before this one, at the points that look for it.
pub open spec fn lookups_before(point: SpecPoint) -> Option<u32> {
    match point {
        Point::ClockElapsed { attempt, .. } => Some(attempt),
        Point::Waiting { attempt, .. } => Some(attempt),
        Point::ClockRemaining { attempt, .. } => Some(attempt),
        Point::Lookup { attempt, .. } => Some(attempt),
        _ => None,
    }
}

/// Whether another lookup is still allowed at `point`.
spec fn is_within_lookups(point: SpecPoint) -> bool {
    lookups_before(point) matches Some(attempt) ==> attempt < MAX_LOOKUPS
}

proof fn lookups_are_counted(request: Request, point: SpecPoint, event: Event)
    requires
        fits(point, event),
        is_within_lookups(point),
    ensures
        is_within_lookups(follow(request, point, event).0),
        follow(request, point, event).1 is FindOrder ==> follow(request, point, event).0 is Lookup
            && point is ClockRemaining,
        lookups_before(follow(request, point, event).0) matches Some(later) ==> point is ClockStart
            || (lookups_before(point) matches Some(earlier) && if point is Lookup {
            later == earlier + 1
        } else {
            later == earlier
        }),
{
    reveal(follow);
}

proof fn runs_keep_within_lookups(request: Request, events: Seq<Event>, n: nat)
    requires
        is_run(request, events),
        n <= events.len(),
    ensures
        is_within_lookups(point_after(request, events, n)),
    decreases n,
{
    if n > 0 {
        let before = (n - 1) as nat;
        runs_keep_within_lookups(request, events, before);
        assert(fits(point_after(request, events, before), events[before as int]));
        lookups_are_counted(request, point_after(request, events, before), events[before as int]);
    }
}

/// An order is looked for at most three times in one reconciliation; each lookup gets some time,
/// ten seconds at most, and none goes beyond thirty seconds from the first look at the clock.
pub proof fn lookups_are_bounded(request: Request, events: Seq<Event>, n: nat)
    requires
        is_run(request, events),
        0 < n <= events.len(),
        action_after(request, events, n) is FindOrder,
    ensures
        ({
            let point = point_after(request, events, n);
            let limit = action_after(request, events, n)->limit;
            &&& point is Lookup
            &&& point->Lookup_attempt < MAX_LOOKUPS
            &&& 0 < limit <= LOOKUP_INTERVAL
            &&& events[n - 1] matches Event::Clock(now) && less(now, point->Lookup_start) + limit
                <= RECONCILIATION_WINDOW
        }),
{
    let before = (n - 1) as nat;
    runs_keep_within_lookups(request, events, before);
    assert(fits(point_after(request, events, before), events[before as int]));
    lookups_are_counted(request, point_after(request, events, before), events[before as int]);
    reveal(follow);
}

/// Whether the lookups after the one numbered `attempt` have higher numbers at `point`.
spec fn is_later_than(point: SpecPoint, attempt: u32) -> bool {
    lookups_before(point) matches Some(later) ==> later > attempt
}

proof fn later_lookups_follow(request: Request, events: Seq<Event>, n: nat, m: nat)
    requires
        is_run(request, events),
        n < m <= events.len(),
        point_after(request, events, n) is Lookup,
        forall|k: nat|
            n <= k < m ==> !(#[trigger] point_after(request, events, k) is ClockStart),
    ensures
        is_later_than(
            point_after(request, events, m),
            point_after(request, events, n)->Lookup_attempt,
        ),
    decreases m,
{
    let before = (m - 1) as nat;
    assert(fits(point_after(request, events, before), events[before as int]));
    runs_keep_within_lookups(request, events, before);
    lookups_are_counted(request, point_after(request, events, before), events[before as int]);
    assert(!(point_after(request, events, before) is ClockStart));
    if before > n {
        later_lookups_follow(request, events, n, before);
    }
}

/// The lookups of one reconciliation have growing numbers, so that none stands for two.
pub proof fn lookups_of_an_item_are_numbered(request: Request, events: Seq<Event>, n: nat, m: nat)
    requires
        is_run(request, events),
        n < m <= events.len(),
        point_after(request, events, n) is Lookup,
        point_after(request, events, m) is Lookup,
        forall|k: nat|
            n <= k < m ==> !(#[trigger] point_after(request, events, k) is ClockStart),
    ensures
        point_after(request, events, n)->Lookup_attempt < point_after(
            request,
            events,
            m,
        )->Lookup_attempt,
{
    later_lookups_follow(request, events, n, m);
}

/// A wait before a lookup lasts until its turn comes: ten seconds after that of the one before.
pub proof fn waits_end_when_the_lookup_is_due(request: Request, point: SpecPoint, event: Event)
    requires
        fits(point, event),
        follow(request, point, event).1 is Wait,
    ensures
        point is ClockElapsed,
        event matches Event::Clock(now) && less(now, point->ClockElapsed_start) + follow(
            request,
            point,
            event,
        ).1->delay == point->ClockElapsed_attempt * LOOKUP_INTERVAL,
{
    reveal(follow);
}

/// Whether `token` stands in `failure`.
pub open spec fn failure_mentions(failure: Failure, token: Seq<char>) -> bool {
    occurs(failure.code, token) || occurs(failure.message, token)
}

/// Whether `token` stands in what an action stores.
pub open spec fn action_mentions(action: SpecAction, token: Seq<char>) -> bool {
    match action {
        Action::MarkSucceeded { order, .. } => occurs(order.id, token) || occurs(order.name, token),
        Action::RecordReconciled { order, .. } => occurs(order.id, token) || occurs(
            order.name,
            token,
        ),
        Action::MarkFailed { error, .. } => failure_mentions(error, token),
        Action::MarkUncertain { error, .. } => failure_mentions(error, token),
        Action::RequeueRejected { error, .. } => failure_mentions(error, token),
        _ => false,
    }
}

/// Whatever the shop answers, neither what is stored of the answer nor the error that the operation
/// then ends with mentions the token, for a token of which no part can be mistaken for a part of
/// the marker.
pub proof fn answers_of_the_shop_are_redacted(
    request: Request,
    point: SpecPoint,
    event: Event,
    token: Seq<char>,
)
    requires
        fits(point, event),
        point matches Point::Create { work, .. } ==> work.store.access_token@ == token,
        point matches Point::Lookup { work, .. } ==> work.store.access_token@ == token,
        point is Create || point is Lookup,
        token.len() > 0,
        apart_from_marker(token),
    ensures
        !action_mentions(follow(request, point, event).1, token),
        follow(request, point, event).0 matches Point::Rejecting { error } ==> !failure_mentions(
            error,
            token,
        ),
        follow(request, point, event).0 matches Point::SetPaused { error } ==> !failure_mentions(
            error,
            token,
        ),
{
    reveal(follow);
    match event {
        Event::Created(Ok(order)) => {
            redaction_removes_the_secret(order@.id, token);
            redaction_removes_the_secret(order@.name, token);
        },
        Event::Created(Err(error)) => {
            redaction_removes_the_secret(error@.code, token);
            redaction_removes_the_secret(error@.message, token);
        },
        Event::LookedUp(LookupOutcome::Answered(Ok(Some(order)))) => {
            redaction_removes_the_secret(order@.id, token);
            redaction_removes_the_secret(order@.name, token);
        },
        Event::LookedUp(LookupOutcome::Answered(Err(error))) => {
            redaction_removes_the_secret(error@.code, token);
            redaction_removes_the_secret(error@.message, token);
        },
        _ => {},
    }
}

/// The answer to a forced attempt never makes an uncertain item failed or queued: it becomes
/// succeeded, or stays uncertain.
pub proof fn forced_answers_keep_the_doubt(request: Request, point: SpecPoint, event: Event)
    requires
        fits(point, event),
        point is Create,
        item_at(point).status == BatchItemStatus::Uncertain,
    ensures
        follow(request, point, event).1 is MarkSucceeded || follow(request, point, event).1
            is MarkUncertain,
{
    reveal(follow);
}

/// How far an operation is from its end; the first number counts most.
pub struct Distance {
    pub phase: nat,
    pub items: nat,
    pub steps: nat,
}

/// Whether `a` is nearer to the end than `b`. No sequence of distances gets nearer for ever.
pub open spec fn is_nearer(a: Distance, b: Distance) -> bool {
    ||| a.phase < b.phase
    ||| a.phase == b.phase && a.items < b.items
    ||| a.phase == b.phase && a.items == b.items && a.steps < b.steps
}

/// The distance while items are gone through.
pub open spec fn distance_in(work: Work<Seq<BatchItem>>, steps: nat) -> Distance {
    let phase: nat = match work.frame {
        Frame::Settling { .. } | Frame::Checking => 31,
        Frame::Submitting { .. } | Frame::Forcing => 29,
    };
    Distance { phase, items: work.rest.len(), steps }
}

/// The distance while progress is shown, `steps` actions before it is.
pub open spec fn distance_before(
    then: Then<Failure, InputModel, Seq<BatchItem>>,
    steps: nat,
) -> Distance {
    match then {
        Then::Next { work } => distance_in(work, steps),
        Then::Create { work, .. } => distance_in(work, 55 + steps),
        Then::Reconcile { work, .. } => distance_in(work, 50 + steps),
        Then::Finished | Then::Closing => Distance { phase: 26, items: 0, steps },
        Then::Pausing { .. } => Distance { phase: 24, items: 0, steps },
    }
}

/// How far the operation is from its end at `point`.
pub open spec fn distance(point: SpecPoint) -> Distance {
    match point {
        Point::RunStatus | Point::RequireRecovered => Distance { phase: 40, items: 0, steps: 0 },
        Point::ForceFind => Distance { phase: 39, items: 0, steps: 0 },
        Point::ForceJob { .. } | Point::Validate => Distance { phase: 38, items: 0, steps: 0 },
        Point::Recovering => Distance { phase: 37, items: 0, steps: 0 },
        Point::ResumingStopped | Point::Requeueing | Point::Stopping => Distance {
            phase: 36,
            items: 0,
            steps: 0,
        },
        Point::CheckJob | Point::ExecJob { .. } => Distance { phase: 35, items: 0, steps: 0 },
        Point::Credentials { .. } => Distance { phase: 34, items: 0, steps: 0 },
        Point::Gate { .. } | Point::Starting { .. } | Point::CheckList { .. } => Distance {
            phase: 33,
            items: 0,
            steps: 0,
        },
        Point::ForcedStop { .. } | Point::SettleList { .. } => Distance {
            phase: 32,
            items: 0,
            steps: 0,
        },
        Point::ForcedStatus { .. } => Distance { phase: 31, items: 0, steps: 0 },
        Point::ForcedClaim { .. } | Point::SubmitList { .. } => Distance {
            phase: 30,
            items: 0,
            steps: 0,
        },
        Point::StopCheck { work, .. } => distance_in(work, 60),
        Point::Claim { work, .. } => distance_in(work, 59),
        Point::Create { work, .. } => distance_in(work, 55),
        Point::Doubting { work, .. } => distance_in(work, 54),
        Point::ClockStart { work, .. } => distance_in(work, 50),
        Point::ClockElapsed { work, attempt, .. } => distance_in(work, (49 - 5 * attempt) as nat),
        Point::Waiting { work, attempt, .. } => distance_in(work, (48 - 5 * attempt) as nat),
        Point::ClockRemaining { work, attempt, .. } => distance_in(work, (47 - 5 * attempt) as nat),
        Point::Lookup { work, attempt, .. } => distance_in(work, (46 - 5 * attempt) as nat),
        Point::Recording { work, .. } => distance_in(work, 11),
        Point::Keeping { work, .. } => distance_in(work, 10),
        Point::FinishList => Distance { phase: 28, items: 0, steps: 0 },
        Point::SetFinal => Distance { phase: 27, items: 0, steps: 0 },
        Point::Rejecting { .. } => Distance { phase: 26, items: 0, steps: 0 },
        Point::SetPaused { .. } => Distance { phase: 25, items: 0, steps: 0 },
        Point::EmitJob { then, .. } => distance_before(then, 3),
        Point::EmitItems { then, .. } => distance_before(then, 2),
        Point::Publishing { then } => distance_before(then, 1),
        Point::Ended => Distance { phase: 0, items: 0, steps: 0 },
    }
}

proof fn steps_bring_the_end_nearer(request: Request, point: SpecPoint, event: Event)
    requires
        fits(point, event),
        is_within_lookups(point),
    ensures
        is_nearer(distance(follow(request, point, event).0), distance(point)),
{
    reveal(follow);
}

/// Every operation comes to an end: each event brings it nearer, whatever is reported.
pub proof fn every_event_brings_the_end_nearer(request: Request, events: Seq<Event>, n: nat)
    requires
        is_run(request, events),
        n < events.len(),
    ensures
        is_nearer(
            distance(point_after(request, events, n + 1)),
            distance(point_after(request, events, n)),
        ),
{
    runs_keep_within_lookups(request, events, n);
    assert(fits(point_after(request, events, n), events[n as int]));
    steps_bring_the_end_nearer(request, point_after(request, events, n), events[n as int]);
}

} // verus!
