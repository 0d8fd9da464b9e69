//! What holds of every run of an operation, whatever the store, the shop and the clock report.
use vstd::prelude::*;

use crate::batch::machine::{
    advance, begin, chosen_of, fits, is_chosen, is_submittable, submittable_of, uncertain_of,
    Action, Event, Frame, Goal, Kind, LookupOutcome, Point, Request, SpecAction, SpecPoint, Then,
    Work,
};
use crate::batch::{is_access_failure, BatchStatus};
use crate::domain::{BatchItem, BatchItemStatus};
use crate::error::{concealed_failure, Failure};
use crate::shopify::graphql::{order_problem, InputModel, OrderModel};
use crate::text::contents;

verus! {

/// What follows `event` at `point`, as [`advance`] has it.
#[verifier::opaque]
pub open spec fn follow(request: Request, point: SpecPoint, event: Event) -> (
    SpecPoint,
    SpecAction,
) {
    advance(request, point, event)
}

/// Where the operation stands after the first `n` of `events`.
pub open spec fn point_after(request: Request, events: Seq<Event>, n: nat) -> SpecPoint
    decreases n,
{
    if n == 0 {
        begin(request).0
    } else {
        follow(request, point_after(request, events, (n - 1) as nat), events[n - 1]).0
    }
}

/// What the caller is told after the first `n` of `events`; event number `n` comes of it.
pub open spec fn action_after(request: Request, events: Seq<Event>, n: nat) -> SpecAction {
    if n == 0 {
        begin(request).1
    } else {
        follow(request, point_after(request, events, (n - 1) as nat), events[n - 1]).1
    }
}

/// Whether each of `events` is what the operation waits for when it comes.
pub open spec fn is_run(request: Request, events: Seq<Event>) -> bool {
    forall|n: nat|
        n < events.len() ==> fits(#[trigger] point_after(request, events, n), events[n as int])
}

/// Whether an order can no longer be created.
pub open spec fn is_winding_down(point: SpecPoint) -> bool {
    match point {
        Point::SetPaused { .. } | Point::FinishList | Point::SetFinal | Point::Ended
        | Point::Rejecting { .. } => true,
        Point::EmitJob { then, .. } => ends(then),
        Point::EmitItems { then, .. } => ends(then),
        Point::Publishing { then } => ends(then),
        _ => false,
    }
}

/// Whether the operation ends once progress is shown.
pub open spec fn ends(then: Then<Failure, InputModel, Seq<BatchItem>>) -> bool {
    then is Finished || then is Closing || then is Pausing
}

/// Whether an action claims an item or creates an order.
pub open spec fn submits(action: SpecAction) -> bool {
    action is Claim || action is ClaimForced || action is CreateOrder
}

proof fn winding_down_lasts(request: Request, point: SpecPoint, event: Event)
    requires
        is_winding_down(point),
        fits(point, event),
    ensures
        is_winding_down(follow(request, point, event).0),
        !submits(follow(request, point, event).1),
{
    reveal(follow);
}

/// Once the operation winds down, nothing more is submitted.
proof fn nothing_is_submitted_after(request: Request, events: Seq<Event>, n: nat, m: nat)
    requires
        is_run(request, events),
        n <= m <= events.len(),
        is_winding_down(point_after(request, events, n)),
    ensures
        is_winding_down(point_after(request, events, m)),
        m > n ==> !submits(action_after(request, events, m)),
    decreases m,
{
    if m > n {
        nothing_is_submitted_after(request, events, n, (m - 1) as nat);
        assert(fits(point_after(request, events, (m - 1) as nat), events[m - 1]));
        winding_down_lasts(
            request,
            point_after(request, events, (m - 1) as nat),
            events[m - 1],
        );
    }
}

/// Whether an event reports that a write was done.
pub open spec fn stored(event: Event) -> bool {
    event matches Event::Stored(Ok(_))
}

/// Whether an event reports that storage failed.
pub open spec fn is_storage_failure(event: Event) -> bool {
    match event {
        Event::Loaded(Err(_)) | Event::Listed(Err(_)) | Event::Unlocked(Err(_))
        | Event::Requeued(Err(_)) | Event::Claimed(Err(_)) | Event::Stored(Err(_)) => true,
        _ => false,
    }
}

/// Whether an event reports that the shop denies access, as the operation sees it at `point`.
pub open spec fn is_access_denial(point: SpecPoint, event: Event) -> bool {
    match (point, event) {
        (Point::Create { work, .. }, Event::Created(Err(error))) => is_access_failure(
            concealed_failure(error@, work.store.access_token@),
        ),
        (
            Point::Lookup { .. },
            Event::LookedUp(LookupOutcome::Answered(Err(error))),
        ) => is_access_failure(error@),
        _ => false,
    }
}

proof fn troubles_wind_down(request: Request, point: SpecPoint, event: Event)
    requires
        fits(point, event),
        is_storage_failure(event) || is_access_denial(point, event) || event == Event::StopRequested(
            true,
        ),
    ensures
        is_winding_down(follow(request, point, event).0),
        !submits(follow(request, point, event).1),
{
    reveal(follow);
}

/// After a request to stop, a failure of storage, or a denial of access by the shop, no item is
/// claimed and no order is created any more.
pub proof fn nothing_is_submitted_after_trouble(
    request: Request,
    events: Seq<Event>,
    n: nat,
    m: nat,
)
    requires
        is_run(request, events),
        n < m <= events.len(),
        is_storage_failure(events[n as int]) || is_access_denial(
            point_after(request, events, n),
            events[n as int],
        ) || events[n as int] == Event::StopRequested(true),
    ensures
        !submits(action_after(request, events, m)),
{
    assert(fits(point_after(request, events, n), events[n as int]));
    troubles_wind_down(request, point_after(request, events, n), events[n as int]);
    nothing_is_submitted_after(request, events, n + 1, m);
}

/// Whether the operation has begun its work: a failure from here on pauses the batch.
pub open spec fn is_at_work(point: SpecPoint) -> bool {
    match point {
        Point::RunStatus | Point::Validate | Point::RequireRecovered | Point::ForceFind
        | Point::ForceJob { .. } | Point::SetPaused { .. } | Point::Ended => false,
        Point::EmitJob { then, .. } => !(then is Closing || then is Pausing),
        Point::EmitItems { then, .. } => !(then is Closing || then is Pausing),
        _ => true,
    }
}

/// A failure of storage while the operation is at work pauses the batch.
pub proof fn storage_failures_pause_the_batch(request: Request, events: Seq<Event>, n: nat)
    requires
        is_run(request, events),
        n < events.len(),
        is_storage_failure(events[n as int]),
        is_at_work(point_after(request, events, n)),
    ensures
        action_after(request, events, n + 1) == (Action::<Failure, InputModel, OrderModel>::SetStatus {
            status: BatchStatus::Paused,
        }),
{
    assert(fits(point_after(request, events, n), events[n as int]));
    reveal(follow);
}

/// A denial of access by the shop pauses the batch: at once where an order was looked for, and once
/// the outcome is stored where one was to be created.
pub proof fn access_denials_pause_the_batch(request: Request, events: Seq<Event>, n: nat)
    requires
        is_run(request, events),
        n < events.len(),
        is_access_denial(point_after(request, events, n), events[n as int]),
    ensures
        ({
            let pause = Action::<Failure, InputModel, OrderModel>::SetStatus {
                status: BatchStatus::Paused,
            };
            if point_after(request, events, n) is Lookup {
                action_after(request, events, n + 1) == pause
            } else {
                n + 1 < events.len() ==> action_after(request, events, n + 2) == pause
            }
        }),
{
    assert(fits(point_after(request, events, n), events[n as int]));
    if n + 1 < events.len() {
        assert(fits(point_after(request, events, n + 1), events[(n + 1) as int]));
    }
    reveal(follow);
}

/// Whether the operation is about to end with `error`.
spec fn is_ending_with(point: SpecPoint, error: Failure) -> bool {
    match point {
        Point::SetPaused { error: held } => held == error,
        Point::EmitJob { then, .. } => then == (Then::<Failure, InputModel, Seq<BatchItem>>::Pausing {
            error,
        }),
        Point::EmitItems { then, .. } => then == (Then::<
            Failure,
            InputModel,
            Seq<BatchItem>,
        >::Pausing { error }),
        Point::Publishing { then } => then == (Then::<Failure, InputModel, Seq<BatchItem>>::Pausing {
            error,
        }),
        Point::Ended => true,
        _ => false,
    }
}

/// The error that pauses a batch is the result of the operation, whatever comes of the writes and
/// of showing progress after it.
pub proof fn the_pausing_error_is_the_result(
    request: Request,
    events: Seq<Event>,
    n: nat,
    m: nat,
    error: Failure,
)
    requires
        is_run(request, events),
        n < m <= events.len(),
        point_after(request, events, n) == (SpecPoint::SetPaused { error }),
        action_after(request, events, m) is Done,
    ensures
        action_after(request, events, m)->result == Err::<(), _>(error),
{
    ending_lasts(request, events, n, (m - 1) as nat, error);
    assert(fits(point_after(request, events, (m - 1) as nat), events[m - 1]));
    reveal(follow);
}

proof fn ending_lasts(request: Request, events: Seq<Event>, n: nat, m: nat, error: Failure)
    requires
        is_run(request, events),
        n <= m <= events.len(),
        point_after(request, events, n) == (SpecPoint::SetPaused { error }),
    ensures
        is_ending_with(point_after(request, events, m), error),
    decreases m,
{
    if m > n {
        ending_lasts(request, events, n, (m - 1) as nat, error);
        assert(fits(point_after(request, events, (m - 1) as nat), events[m - 1]));
        reveal(follow);
    }
}

/// What follows once progress is shown, at the points that show it.
pub open spec fn shown_before(point: SpecPoint) -> Option<Then<Failure, InputModel, Seq<BatchItem>>> {
    match point {
        Point::EmitJob { then, .. } => Some(then),
        Point::EmitItems { then, .. } => Some(then),
        Point::Publishing { then } => Some(then),
        _ => None,
    }
}

/// Only a claim leads to showing progress before a creation.
proof fn creation_needs_a_claim(request: Request, point: SpecPoint, event: Event)
    requires
        fits(point, event),
    ensures
        follow(request, point, event).0 matches Point::Publishing { then } ==> point matches
            Point::EmitItems { then: same, .. } && same == then,
        follow(request, point, event).0 matches Point::EmitItems { then, .. } ==> point matches
            Point::EmitJob { then: same, .. } && same == then,
        follow(request, point, event).0 matches Point::EmitJob {
            then: Then::Create { item, .. },
            ..
        } ==> (point matches Point::Claim { item: same, .. } && same == item && event
            == Event::Claimed(Ok(true))) || (point matches Point::ForcedClaim { item: same, .. }
            && same == item && stored(event)),
        follow(request, point, event).1 is CreateOrder ==> (point matches Point::Publishing {
            then: Then::Create { item, .. },
        } && follow(request, point, event).0 matches Point::Create { item: same, .. } && same
            == item),
        follow(request, point, event).0 matches Point::Claim { item, .. } ==> follow(
            request,
            point,
            event,
        ).1 == (SpecAction::Claim { item_id: item.id }),
        follow(request, point, event).0 matches Point::ForcedClaim { item, .. } ==> follow(
            request,
            point,
            event,
        ).1 == (SpecAction::ClaimForced { item_id: item.id }),
{
    reveal(follow);
}

/// The item whose order is created at `point`.
pub open spec fn item_at(point: SpecPoint) -> BatchItem {
    point->Create_item
}

/// An order is created only once its item was claimed: the claim, which succeeded, stands right
/// before the progress that was shown of it.
pub proof fn orders_are_created_after_their_claim(request: Request, events: Seq<Event>, n: nat)
    requires
        is_run(request, events),
        n <= events.len(),
        action_after(request, events, n) is CreateOrder,
    ensures
        n >= 4,
        point_after(request, events, n) is Create,
        ({
            let claimed = (n - 4) as nat;
            let item = item_at(point_after(request, events, n));
            ||| action_after(request, events, claimed) == (SpecAction::Claim { item_id: item.id })
                && events[claimed as int] == Event::Claimed(Ok(true))
            ||| action_after(request, events, claimed) == (SpecAction::ClaimForced {
                item_id: item.id,
            }) && stored(events[claimed as int])
        }),
{
    let a = (n - 1) as nat;
    assert(fits(point_after(request, events, a), events[a as int]));
    creation_needs_a_claim(request, point_after(request, events, a), events[a as int]);
    let b = (n - 2) as nat;
    assert(fits(point_after(request, events, b), events[b as int]));
    creation_needs_a_claim(request, point_after(request, events, b), events[b as int]);
    let c = (n - 3) as nat;
    assert(fits(point_after(request, events, c), events[c as int]));
    creation_needs_a_claim(request, point_after(request, events, c), events[c as int]);
    let d = (n - 4) as nat;
    assert(fits(point_after(request, events, d), events[d as int]));
    creation_needs_a_claim(request, point_after(request, events, d), events[d as int]);
    if d > 0 {
        let e = (n - 5) as nat;
        assert(fits(point_after(request, events, e), events[e as int]));
        creation_needs_a_claim(request, point_after(request, events, e), events[e as int]);
    }
}

/// Whether an action stores what became of the order of the item `item_id`.
pub open spec fn stores_outcome(action: SpecAction, item_id: String) -> bool {
    match action {
        Action::MarkSucceeded { item_id: id, .. } => id == item_id,
        Action::MarkFailed { item_id: id, .. } => id == item_id,
        Action::MarkUncertain { item_id: id, .. } => id == item_id,
        Action::RequeueRejected { item_id: id, .. } => id == item_id,
        _ => false,
    }
}

proof fn answers_are_stored(request: Request, point: SpecPoint, event: Event)
    requires
        point is Create,
        fits(point, event),
    ensures
        stores_outcome(follow(request, point, event).1, item_at(point).id),
        !submits(follow(request, point, event).1),
        forall|answer: Event|
            #[trigger] fits(follow(request, point, event).0, answer) ==> answer is Stored,
{
    reveal(follow);
}

/// What became of an order is stored right after the shop answers, and before anything else is
/// submitted.
pub proof fn outcomes_are_stored_before_the_next_submission(
    request: Request,
    events: Seq<Event>,
    n: nat,
    m: nat,
)
    requires
        is_run(request, events),
        n < m <= events.len(),
        action_after(request, events, n) is CreateOrder,
    ensures
        stores_outcome(
            action_after(request, events, n + 1),
            item_at(point_after(request, events, n)).id,
        ),
        submits(action_after(request, events, m)) ==> stored(
            events[(n + 1) as int],
        ),
{
    orders_are_created_after_their_claim(request, events, n);
    assert(fits(point_after(request, events, n), events[n as int]));
    answers_are_stored(request, point_after(request, events, n), events[n as int]);
    if submits(action_after(request, events, m)) {
        let event = events[(n + 1) as int];
        assert(m > n + 1);
        assert(fits(point_after(request, events, n + 1), event));
        if !stored(event) {
            nothing_is_submitted_after_trouble(request, events, n + 1, m);
        }
    }
}

/// The items that are gone through at `point`.
pub open spec fn work_at(point: SpecPoint) -> Option<Work<Seq<BatchItem>>> {
    match point {
        Point::StopCheck { work, .. } => Some(work),
        Point::Claim { work, .. } => Some(work),
        Point::Create { work, .. } => Some(work),
        Point::Keeping { work, .. } => Some(work),
        Point::Doubting { work, .. } => Some(work),
        Point::ClockStart { work, .. } => Some(work),
        Point::ClockElapsed { work, .. } => Some(work),
        Point::Waiting { work, .. } => Some(work),
        Point::ClockRemaining { work, .. } => Some(work),
        Point::Lookup { work, .. } => Some(work),
        Point::Recording { work, .. } => Some(work),
        _ => match shown_before(point) {
            Some(Then::Next { work }) => Some(work),
            Some(Then::Create { work, .. }) => Some(work),
            Some(Then::Reconcile { work, .. }) => Some(work),
            _ => None,
        },
    }
}

/// The item that is to be submitted, or whose order is being created, at `point`.
pub open spec fn submitted_at(point: SpecPoint) -> Option<BatchItem> {
    match point {
        Point::StopCheck { item, .. } => Some(item),
        Point::Claim { item, .. } => Some(item),
        Point::Create { item, .. } => Some(item),
        _ => match shown_before(point) {
            Some(Then::Create { item, .. }) => Some(item),
            _ => None,
        },
    }
}

/// The frame of the work at `point`.
pub open spec fn frame_at(point: SpecPoint) -> Option<Frame> {
    match work_at(point) {
        Some(work) => Some(work.frame),
        None => None,
    }
}

/// The points that a reconciliation or a stop comes to.
spec fn is_looking_only(point: SpecPoint) -> bool {
    ||| is_winding_down(point)
    ||| point is Stopping || point is Recovering || point is CheckJob || point is CheckList
    ||| point == (SpecPoint::Credentials { goal: Goal::Check })
    ||| frame_at(point) == Some(Frame::Checking) && !(point is StopCheck || point is Claim
        || point is Create || point is Keeping || point is Doubting) && !(shown_before(point)
        matches Some(Then::Create { .. })) && !(shown_before(point) matches Some(
        Then::Reconcile { .. },
    ))
}

proof fn looking_leads_to_looking(request: Request, point: SpecPoint, event: Event)
    requires
        request.kind is Reconcile || request.kind is Stop,
        is_looking_only(point),
        fits(point, event),
    ensures
        is_looking_only(follow(request, point, event).0),
        !submits(follow(request, point, event).1),
{
    reveal(follow);
}

proof fn looking_only_lasts(request: Request, events: Seq<Event>, n: nat)
    requires
        is_run(request, events),
        request.kind is Reconcile || request.kind is Stop,
        n <= events.len(),
    ensures
        is_looking_only(point_after(request, events, n)),
        !submits(action_after(request, events, n)),
    decreases n,
{
    if n > 0 {
        let before = (n - 1) as nat;
        looking_only_lasts(request, events, before);
        assert(fits(point_after(request, events, before), events[before as int]));
        looking_leads_to_looking(
            request,
            point_after(request, events, before),
            events[before as int],
        );
    }
}

/// Reconciling a batch and stopping it create no order.
pub proof fn reconciling_and_stopping_submit_nothing(
    request: Request,
    events: Seq<Event>,
    n: nat,
)
    requires
        is_run(request, events),
        request.kind is Reconcile || request.kind is Stop,
        n <= events.len(),
    ensures
        !submits(action_after(request, events, n)),
{
    looking_only_lasts(request, events, n);
}

proof fn the_chosen_item_is_uncertain(items: Seq<BatchItem>, item_id: Seq<char>)
    ensures
        chosen_of(items, item_id) matches Some(item) ==> is_chosen(item, item_id),
    decreases items.len(),
{
    if items.len() > 0 && !is_chosen(items[0], item_id) {
        the_chosen_item_is_uncertain(items.skip(1), item_id);
    }
}

/// The item of a forced attempt before its order is created.
spec fn forced_at(point: SpecPoint) -> Option<BatchItem> {
    match point {
        Point::ForceJob { item } => Some(item),
        Point::Credentials { goal: Goal::Force { item, .. } } => Some(item),
        Point::Gate { item, .. } => Some(item),
        Point::ForcedStop { item, .. } => Some(item),
        Point::ForcedStatus { item, .. } => Some(item),
        Point::ForcedClaim { item, .. } => Some(item),
        _ => match shown_before(point) {
            Some(Then::Create { work, item, .. }) => if work.frame is Forcing {
                Some(item)
            } else {
                None
            },
            _ => None,
        },
    }
}

/// The points that a forced attempt comes to before its order is created.
spec fn is_before_forced_order(point: SpecPoint, item_id: Seq<char>) -> bool {
    ||| point is RequireRecovered || point is ForceFind
    ||| forced_at(point) matches Some(item) && is_chosen(item, item_id)
}

/// The points that a forced attempt comes to from the creation of its order on.
spec fn is_after_forced_order(point: SpecPoint) -> bool {
    ||| is_winding_down(point)
    ||| frame_at(point) == Some(Frame::Forcing) && !(point is StopCheck || point is Claim)
        && !(shown_before(point) matches Some(Then::Create { .. }))
}

proof fn forcing_goes_on(request: Request, point: SpecPoint, event: Event, item_id: Seq<char>)
    requires
        request.kind matches Kind::Force { item_id: id, .. } && id@ == item_id,
        fits(point, event),
    ensures
        is_after_forced_order(point) ==> is_after_forced_order(follow(request, point, event).0)
            && !submits(follow(request, point, event).1),
        is_before_forced_order(point, item_id) ==> {
            let next = follow(request, point, event);
            if next.1 is CreateOrder {
                next.0 is Create && is_after_forced_order(next.0) && is_chosen(
                    item_at(next.0),
                    item_id,
                )
            } else {
                is_before_forced_order(next.0, item_id) || is_winding_down(next.0)
            }
        },
{
    reveal(follow);
    if let Event::Listed(Ok(items)) = event {
        the_chosen_item_is_uncertain(items@, item_id);
    }
}

proof fn forced_order_is_chosen(request: Request, events: Seq<Event>, n: nat, item_id: Seq<char>)
    requires
        is_run(request, events),
        request.kind matches Kind::Force { item_id: id, .. } && id@ == item_id,
        n <= events.len(),
    ensures
        is_before_forced_order(point_after(request, events, n), item_id) || is_after_forced_order(
            point_after(request, events, n),
        ),
        action_after(request, events, n) is CreateOrder ==> point_after(request, events, n)
            is Create && is_chosen(item_at(point_after(request, events, n)), item_id),
        action_after(request, events, n) is CreateOrder ==> is_after_forced_order(
            point_after(request, events, n),
        ),
    decreases n,
{
    if n > 0 {
        let before = (n - 1) as nat;
        forced_order_is_chosen(request, events, before, item_id);
        assert(fits(point_after(request, events, before), events[before as int]));
        forcing_goes_on(
            request,
            point_after(request, events, before),
            events[before as int],
            item_id,
        );
    }
}

proof fn nothing_is_forced_twice(request: Request, events: Seq<Event>, n: nat, m: nat)
    requires
        is_run(request, events),
        request.kind is Force,
        n <= m <= events.len(),
        is_after_forced_order(point_after(request, events, n)),
    ensures
        is_after_forced_order(point_after(request, events, m)),
        m > n ==> !submits(action_after(request, events, m)),
    decreases m,
{
    if m > n {
        let before = (m - 1) as nat;
        nothing_is_forced_twice(request, events, n, before);
        assert(fits(point_after(request, events, before), events[before as int]));
        forcing_goes_on(
            request,
            point_after(request, events, before),
            events[before as int],
            request.kind->item_id@,
        );
    }
}

/// A forced attempt creates an order only of the chosen item, only while it is uncertain, and only
/// where the user confirmed the risk; it creates one order at most.
pub proof fn a_forced_attempt_creates_one_chosen_order(
    request: Request,
    events: Seq<Event>,
    n: nat,
    m: nat,
)
    requires
        is_run(request, events),
        request.kind is Force,
        n <= m <= events.len(),
        action_after(request, events, n) is CreateOrder,
    ensures
        request.kind->risk_confirmed,
        point_after(request, events, n) is Create,
        is_chosen(item_at(point_after(request, events, n)), request.kind->item_id@),
        m > n ==> !submits(action_after(request, events, m)),
{
    forced_order_is_chosen(request, events, n, request.kind->item_id@);
    nothing_is_forced_twice(request, events, n, m);
    if !request.kind->risk_confirmed {
        nothing_is_submitted_after(request, events, 0, n);
    }
}

/// Whether an event lists `item`.
pub open spec fn lists(event: Event, item: BatchItem) -> bool {
    event matches Event::Listed(Ok(items)) && items@.contains(item)
}

/// Whether an event reports that the item `item_id` was queued again.
pub open spec fn requeues(event: Event, item_id: Seq<char>) -> bool {
    event matches Event::Requeued(Ok(ids)) && contents(ids@).contains(item_id)
}

/// Whether one of the first `n` of `events` lists `item`.
pub open spec fn was_listed(events: Seq<Event>, n: nat, item: BatchItem) -> bool {
    exists|m: int| 0 <= m < n && #[trigger] lists(events[m], item)
}

/// Whether one of the first `n` of `events` reports that the item `item_id` was queued again.
pub open spec fn was_requeued(events: Seq<Event>, n: nat, item_id: Seq<char>) -> bool {
    exists|m: int| 0 <= m < n && #[trigger] requeues(events[m], item_id)
}

/// Whether `item` may be submitted without force: the store listed it as queued, and where failed
/// items are tried again, it is one of those.
pub open spec fn is_due(request: Request, events: Seq<Event>, n: nat, item: BatchItem) -> bool {
    &&& item.status == BatchItemStatus::Queued
    &&& was_listed(events, n, item)
    &&& request.kind is RetryFailed ==> was_requeued(events, n, item.id@)
}

/// Whether a selection holds nothing but items that were queued again, where it must.
spec fn is_selection(
    request: Request,
    events: Seq<Event>,
    n: nat,
    selected: Option<Vec<String>>,
) -> bool {
    request.kind is RetryFailed ==> (selected matches Some(ids) && forall|id: Seq<char>| #[trigger]
        contents(ids@).contains(id) ==> was_requeued(events, n, id))
}

/// The selection that is kept at `point`.
pub open spec fn selected_at(point: SpecPoint) -> Option<Option<Vec<String>>> {
    match point {
        Point::ExecJob { selected } => Some(selected),
        Point::Credentials { goal: Goal::Execute { selected, .. } } => Some(selected),
        Point::Starting { selected, .. } => Some(selected),
        Point::SettleList { selected, .. } => Some(selected),
        Point::SubmitList { selected, .. } => Some(selected),
        _ => None,
    }
}

/// Whether every one of `items` is due.
spec fn all_due(request: Request, events: Seq<Event>, n: nat, items: Seq<BatchItem>) -> bool {
    forall|i: int| 0 <= i < items.len() ==> is_due(request, events, n, #[trigger] items[i])
}

/// Whether everything that `point` holds for submission is due.
spec fn is_orderly(request: Request, events: Seq<Event>, n: nat, point: SpecPoint) -> bool {
    &&& selected_at(point) matches Some(selected) ==> is_selection(request, events, n, selected)
    &&& frame_at(point) is Some && frame_at(point)->0 is Submitting ==> all_due(
        request,
        events,
        n,
        work_at(point)->0.rest,
    )
    &&& submitted_at(point) is Some ==> frame_at(point)->0 is Forcing || (frame_at(point)->0
        is Submitting && is_due(request, events, n, submitted_at(point)->0))
    &&& point is StopCheck || point is Claim ==> frame_at(point)->0 is Submitting
    &&& point is ResumingStopped ==> request.kind is Resume
    &&& request.kind is RetryFailed ==> !(frame_at(point) is Some && frame_at(point)->0 is Settling)
    &&& !(request.kind is Force) ==> forced_at(point) is None && !(point is ForceFind) && !(frame_at(
        point,
    ) is Some && frame_at(point)->0 is Forcing)
}

proof fn submittable_items_are_listed(items: Seq<BatchItem>, selected: Option<Vec<String>>)
    ensures
        forall|i: int|
            0 <= i < submittable_of(items, selected).len() ==> items.contains(
                #[trigger] submittable_of(items, selected)[i],
            ) && is_submittable(submittable_of(items, selected)[i], selected),
    decreases items.len(),
{
    if items.len() > 0 {
        let rest = items.drop_last();
        submittable_items_are_listed(rest, selected);
        let sub = submittable_of(items, selected);
        assert forall|i: int| 0 <= i < sub.len() implies items.contains(#[trigger] sub[i])
            && is_submittable(sub[i], selected) by {
            if i < submittable_of(rest, selected).len() {
                assert(sub[i] == submittable_of(rest, selected)[i]);
                let k = choose|k: int| 0 <= k < rest.len() && rest[k] == sub[i];
                assert(items[k] == sub[i]);
            } else {
                assert(items[items.len() - 1] == sub[i]);
            }
        }
    }
}

proof fn what_is_due_stays_due(request: Request, events: Seq<Event>, n: nat)
    ensures
        forall|item: BatchItem|
            is_due(request, events, n, item) ==> #[trigger] is_due(request, events, n + 1, item),
        forall|selected: Option<Vec<String>>|
            is_selection(request, events, n, selected) ==> #[trigger] is_selection(
                request,
                events,
                n + 1,
                selected,
            ),
        forall|items: Seq<BatchItem>|
            all_due(request, events, n, items) ==> #[trigger] all_due(request, events, n + 1, items),
{
    assert forall|id: Seq<char>| was_requeued(events, n, id) implies #[trigger] was_requeued(
        events,
        n + 1,
        id,
    ) by {
        let m = choose|m: int| 0 <= m < n && #[trigger] requeues(events[m], id);
        assert(requeues(events[m], id));
    }
    assert forall|item: BatchItem| is_due(request, events, n, item) implies #[trigger] is_due(
        request,
        events,
        n + 1,
        item,
    ) by {
        let m = choose|m: int| 0 <= m < n && #[trigger] lists(events[m], item);
        assert(lists(events[m], item));
    }
}

proof fn due_rests(request: Request, events: Seq<Event>, n: nat, items: Seq<BatchItem>)
    requires
        items.len() > 0,
        all_due(request, events, n, items),
    ensures
        is_due(request, events, n, items[0]),
        all_due(request, events, n, items.skip(1)),
{
    assert forall|i: int| 0 <= i < items.skip(1).len() implies is_due(
        request,
        events,
        n,
        #[trigger] items.skip(1)[i],
    ) by {
        assert(items.skip(1)[i] == items[i + 1]);
    }
}

proof fn order_is_kept(request: Request, events: Seq<Event>, n: nat, point: SpecPoint)
    requires
        n < events.len(),
        fits(point, events[n as int]),
        is_orderly(request, events, n, point),
    ensures
        is_orderly(request, events, n + 1, follow(request, point, events[n as int]).0),
{
    let event = events[n as int];
    let next = follow(request, point, event).0;
    what_is_due_stays_due(request, events, n);
    reveal(follow);
    if let Some(work) = work_at(point) {
        if all_due(request, events, n, work.rest) && work.rest.len() > 0 {
            due_rests(request, events, n + 1, work.rest);
        }
    }
    match event {
        Event::Listed(Ok(items)) => {
            if let Point::SubmitList { template, store, selected } = point {
                let sub = submittable_of(items@, selected);
                submittable_items_are_listed(items@, selected);
                assert forall|i: int| 0 <= i < sub.len() implies is_due(
                    request,
                    events,
                    n + 1,
                    #[trigger] sub[i],
                ) by {
                    assert(lists(events[n as int], sub[i]));
                    if request.kind is RetryFailed {
                        assert(contents(selected->0@).contains(sub[i].id@));
                    }
                }
                assert(all_due(request, events, n + 1, sub));
                if sub.len() > 0 {
                    due_rests(request, events, n + 1, sub);
                }
            }
        },
        Event::Requeued(Ok(ids)) => {
            assert forall|id: Seq<char>| #[trigger] contents(ids@).contains(
                id,
            ) implies was_requeued(events, n + 1, id) by {
                assert(requeues(events[n as int], id));
            }
        },
        _ => {},
    }
    assert(is_orderly(request, events, n + 1, next));
}

proof fn runs_are_orderly(request: Request, events: Seq<Event>, n: nat)
    requires
        is_run(request, events),
        n <= events.len(),
    ensures
        is_orderly(request, events, n, point_after(request, events, n)),
    decreases n,
{
    if n > 0 {
        let before = (n - 1) as nat;
        runs_are_orderly(request, events, before);
        assert(fits(point_after(request, events, before), events[before as int]));
        order_is_kept(request, events, before, point_after(request, events, before));
    }
}

/// Without force, orders are created only of items that the store listed as queued; where failed
/// items are tried again, only of those. An uncertain item is never submitted again by itself.
pub proof fn only_queued_items_are_submitted(request: Request, events: Seq<Event>, n: nat)
    requires
        is_run(request, events),
        !(request.kind is Force),
        n <= events.len(),
        action_after(request, events, n) is CreateOrder,
    ensures
        point_after(request, events, n) is Create,
        is_due(request, events, n, item_at(point_after(request, events, n))),
{
    orders_are_created_after_their_claim(request, events, n);
    runs_are_orderly(request, events, n);
}

/// An item is claimed by force only where the user asked for that and confirmed the risk.
pub proof fn claims_are_forced_only_on_request(request: Request, events: Seq<Event>, n: nat)
    requires
        is_run(request, events),
        n <= events.len(),
        action_after(request, events, n) is ClaimForced,
    ensures
        request.kind is Force,
        request.kind->risk_confirmed,
{
    claims_follow_a_look_for_a_stop(request, events, n);
    runs_are_orderly(request, events, n);
    if !request.kind->risk_confirmed {
        nothing_is_submitted_after(request, events, 0, n);
    }
}

/// Whether `a` stands before `b` among `items`.
pub open spec fn stands_before(items: Seq<BatchItem>, a: BatchItem, b: BatchItem) -> bool {
    exists|i: int, j: int|
        0 <= i < j < items.len() && #[trigger] items[i] == a && #[trigger] items[j] == b
}

/// Whether `items` can be told apart by their identifiers.
pub open spec fn have_distinct_ids(items: Seq<BatchItem>) -> bool {
    forall|i: int, j: int|
        0 <= i < j < items.len() ==> (#[trigger] items[i]).id@ != (#[trigger] items[j]).id@
}

/// Whether event number `k` lists the items to submit, with `a` before `b`.
pub open spec fn lists_in_order(
    request: Request,
    events: Seq<Event>,
    k: nat,
    a: BatchItem,
    b: BatchItem,
) -> bool {
    &&& point_after(request, events, k) is SubmitList
    &&& events[k as int] matches Event::Listed(Ok(items)) && stands_before(items@, a, b)
}

/// Whether what `point` holds is what is left of `items`, which are submitted in order: the first
/// that is not to come is the one at hand.
spec fn is_in_order(point: SpecPoint, items: Seq<BatchItem>) -> bool {
    ||| is_winding_down(point)
    ||| {
        let left = work_at(point)->0.rest;
        &&& frame_at(point) is Some && frame_at(point)->0 is Submitting
        &&& left.len() < items.len()
        &&& left == items.skip(items.len() - left.len())
        &&& submitted_at(point) matches Some(item) ==> item == items[items.len() - left.len() - 1]
    }
}

/// How much is left to submit: two for each item to come, and one for an item at hand whose order
/// is not being created yet.
spec fn left_to_submit(point: SpecPoint) -> nat {
    if is_winding_down(point) {
        0
    } else {
        2 * work_at(point)->0.rest.len() + if submitted_at(point) is Some && !(point is Create) {
            1nat
        } else {
            0
        }
    }
}

proof fn submission_goes_on_in_order(
    request: Request,
    point: SpecPoint,
    event: Event,
    items: Seq<BatchItem>,
)
    requires
        fits(point, event),
        is_in_order(point, items),
    ensures
        ({
            let next = follow(request, point, event);
            &&& is_in_order(next.0, items)
            &&& left_to_submit(next.0) <= left_to_submit(point)
            &&& next.1 is CreateOrder ==> next.0 is Create && left_to_submit(next.0)
                < left_to_submit(point)
        }),
{
    reveal(follow);
    if !is_winding_down(point) {
        let left = work_at(point)->0.rest;
        if left.len() > 0 {
            let taken = items.len() - left.len();
            assert(left[0] == items[taken]);
            assert(left.skip(1) == items.skip(taken + 1));
        }
    }
}

/// From the listing of `items` on, they are submitted in order.
proof fn submission_stays_in_order(
    request: Request,
    events: Seq<Event>,
    items: Seq<BatchItem>,
    n: nat,
    m: nat,
)
    requires
        is_run(request, events),
        n <= m <= events.len(),
        is_in_order(point_after(request, events, n), items),
    ensures
        is_in_order(point_after(request, events, m), items),
        left_to_submit(point_after(request, events, m)) <= left_to_submit(
            point_after(request, events, n),
        ),
        n < m && action_after(request, events, m) is CreateOrder ==> left_to_submit(
            point_after(request, events, m),
        ) < left_to_submit(point_after(request, events, n)),
    decreases m,
{
    if m > n {
        let before = (m - 1) as nat;
        submission_stays_in_order(request, events, items, n, before);
        assert(fits(point_after(request, events, before), events[before as int]));
        submission_goes_on_in_order(
            request,
            point_after(request, events, before),
            events[before as int],
            items,
        );
    }
}

/// Whether event number `k` lists the items of which those left at `point` are.
spec fn is_submitted_from(request: Request, events: Seq<Event>, k: nat, point: SpecPoint) -> bool {
    &&& point_after(request, events, k) matches Point::SubmitList { selected, .. }
    &&& events[k as int] matches Event::Listed(Ok(items))
    &&& is_in_order(point, submittable_of(items@, selected))
}

proof fn submission_begins_with_a_list(request: Request, point: SpecPoint, event: Event)
    requires
        fits(point, event),
        !(frame_at(point) is Some && frame_at(point)->0 is Submitting),
    ensures
        ({
            let next = follow(request, point, event).0;
            frame_at(next) is Some && frame_at(next)->0 is Submitting ==> {
                &&& point matches Point::SubmitList { selected, .. }
                &&& event matches Event::Listed(Ok(items))
                &&& is_in_order(next, submittable_of(items@, selected))
            }
        }),
{
    reveal(follow);
    if let Point::SubmitList { selected, .. } = point {
        if let Event::Listed(Ok(items)) = event {
            let sub = submittable_of(items@, selected);
            if sub.len() > 0 {
                assert(sub.skip(1) == sub.skip(sub.len() - sub.skip(1).len()));
            }
        }
    }
}

/// What is submitted comes from one listing.
proof fn submission_has_its_list(request: Request, events: Seq<Event>, n: nat)
    requires
        is_run(request, events),
        n <= events.len(),
        frame_at(point_after(request, events, n)) is Some,
        frame_at(point_after(request, events, n))->0 is Submitting,
    ensures
        exists|k: nat|
            k < n && #[trigger] is_submitted_from(
                request,
                events,
                k,
                point_after(request, events, n),
            ),
    decreases n,
{
    let before = (n - 1) as nat;
    let point = point_after(request, events, before);
    assert(fits(point, events[before as int]));
    if frame_at(point) is Some && frame_at(point)->0 is Submitting {
        submission_has_its_list(request, events, before);
        let k = choose|k: nat| k < before && #[trigger] is_submitted_from(request, events, k, point);
        submission_goes_on_in_order(
            request,
            point,
            events[before as int],
            submittable_of(
                events[k as int]->Listed_0->Ok_0@,
                point_after(request, events, k)->SubmitList_selected,
            ),
        );
        assert(is_submitted_from(request, events, k, point_after(request, events, n)));
    } else {
        submission_begins_with_a_list(request, point, events[before as int]);
        assert(is_submitted_from(request, events, before, point_after(request, events, n)));
    }
}

/// Those of `items` that are to be submitted keep their order.
proof fn submittable_items_keep_their_order(
    items: Seq<BatchItem>,
    selected: Option<Vec<String>>,
    a: int,
    b: int,
)
    requires
        0 <= a < b < submittable_of(items, selected).len(),
    ensures
        stands_before(
            items,
            submittable_of(items, selected)[a],
            submittable_of(items, selected)[b],
        ),
    decreases items.len(),
{
    let sub = submittable_of(items, selected);
    let rest = items.drop_last();
    let fewer = submittable_of(rest, selected);
    if b < fewer.len() {
        submittable_items_keep_their_order(rest, selected, a, b);
        let (i, j) = choose|i: int, j: int|
            0 <= i < j < rest.len() && #[trigger] rest[i] == fewer[a] && #[trigger] rest[j]
                == fewer[b];
        assert(items[i] == sub[a] && items[j] == sub[b]);
    } else {
        submittable_items_are_listed(rest, selected);
        assert(rest.contains(fewer[a]));
        let i = choose|i: int| 0 <= i < rest.len() && rest[i] == fewer[a];
        assert(items[i] == sub[a] && items[items.len() - 1] == sub[b]);
    }
}

/// Without force, orders are created one after the other in the order in which the store listed
/// their items, and where the listed items can be told apart, one at most for each.
pub proof fn orders_are_created_in_order(request: Request, events: Seq<Event>, n: nat, m: nat)
    requires
        is_run(request, events),
        !(request.kind is Force),
        n < m <= events.len(),
        action_after(request, events, n) is CreateOrder,
        action_after(request, events, m) is CreateOrder,
    ensures
        exists|k: nat|
            k < n && #[trigger] lists_in_order(
                request,
                events,
                k,
                item_at(point_after(request, events, n)),
                item_at(point_after(request, events, m)),
            ),
        (forall|k: int|
            0 <= k < n ==> (#[trigger] events[k] matches Event::Listed(Ok(items))
                ==> have_distinct_ids(items@))) ==> item_at(point_after(request, events, n)).id@
            != item_at(point_after(request, events, m)).id@,
{
    orders_are_created_after_their_claim(request, events, n);
    orders_are_created_after_their_claim(request, events, m);
    runs_are_orderly(request, events, n);
    let point = point_after(request, events, n);
    submission_has_its_list(request, events, n);
    let k = choose|k: nat| k < n && #[trigger] is_submitted_from(request, events, k, point);
    let items = events[k as int]->Listed_0->Ok_0@;
    let selected = point_after(request, events, k)->SubmitList_selected;
    let sub = submittable_of(items, selected);
    submission_stays_in_order(request, events, sub, n, m);
    let last = point_after(request, events, m);
    let a = sub.len() - work_at(point)->0.rest.len() - 1;
    let b = sub.len() - work_at(last)->0.rest.len() - 1;
    assert(item_at(point) == sub[a] && item_at(last) == sub[b] && a < b);
    submittable_items_keep_their_order(items, selected, a, b);
    assert(lists_in_order(request, events, k, item_at(point), item_at(last)));
    assert(events[k as int] is Listed);
}

/// Whether an action changes what is stored or asks the shop for an order.
pub open spec fn changes_something(action: SpecAction) -> bool {
    match action {
        Action::LoadBatch { .. } | Action::ListItems { .. } | Action::LoadCredentials { .. }
        | Action::CheckStop | Action::PassGate | Action::ReadClock | Action::Wait { .. }
        | Action::FindOrder { .. } | Action::Publish { .. } | Action::Done { .. } => false,
        _ => true,
    }
}

/// Whether an event loads a template from which orders can be made, with the confirmation that a
/// paid order asks for.
pub open spec fn loads_usable_template(request: Request, event: Event) -> bool {
    match event {
        Event::Loaded(Ok(batch)) => match batch.template {
            Some(template) => exists|source: Seq<char>|
                #[trigger] order_problem(template, source, request.paid_confirmed) is None,
            None => false,
        },
        _ => false,
    }
}

/// Whether one of the first `n` of `events` loads such a template.
pub open spec fn has_usable_template(request: Request, events: Seq<Event>, n: nat) -> bool {
    exists|m: int| 0 <= m < n && #[trigger] loads_usable_template(request, events[m])
}

/// The points before anything is stored.
spec fn is_first_look(point: SpecPoint) -> bool {
    point is RunStatus || point is Validate || point is RequireRecovered || point is ForceFind
        || point is ForceJob || point is Ended
}

proof fn first_looks_change_nothing(request: Request, point: SpecPoint, event: Event)
    requires
        request.kind is Run || request.kind is Resume || request.kind is RetryFailed || request.kind
            is Force,
        is_first_look(point),
        fits(point, event),
        !loads_usable_template(request, event),
    ensures
        is_first_look(follow(request, point, event).0),
        !changes_something(follow(request, point, event).1),
{
    reveal(follow);
}

proof fn looks_come_first(request: Request, events: Seq<Event>, n: nat)
    requires
        is_run(request, events),
        request.kind is Run || request.kind is Resume || request.kind is RetryFailed || request.kind
            is Force,
        n <= events.len(),
        !has_usable_template(request, events, n),
    ensures
        is_first_look(point_after(request, events, n)),
        !changes_something(action_after(request, events, n)),
    decreases n,
{
    if n > 0 {
        let before = (n - 1) as nat;
        assert(!loads_usable_template(request, events[before as int]));
        assert forall|m: int| 0 <= m < before implies !#[trigger] loads_usable_template(
            request,
            events[m],
        ) by {}
        looks_come_first(request, events, before);
        assert(fits(point_after(request, events, before), events[before as int]));
        first_looks_change_nothing(
            request,
            point_after(request, events, before),
            events[before as int],
        );
    }
}

/// Nothing is stored and no order is asked for before a usable template was loaded: one that
/// orders can be made from, and whose payment the user has confirmed where it is a paid one.
pub proof fn nothing_changes_before_the_template_is_accepted(
    request: Request,
    events: Seq<Event>,
    n: nat,
)
    requires
        is_run(request, events),
        request.kind is Run || request.kind is Resume || request.kind is RetryFailed || request.kind
            is Force,
        n <= events.len(),
        changes_something(action_after(request, events, n)),
    ensures
        has_usable_template(request, events, n),
{
    if !has_usable_template(request, events, n) {
        looks_come_first(request, events, n);
    }
}

/// Whether the lookups of `item` begin at `point`.
pub open spec fn looks_for(point: SpecPoint, item: BatchItem) -> bool {
    point matches Point::ClockStart { item: same, .. } && same == item
}

/// Whether the lookups of `item` begin after `m` events and before `n + 1`.
pub open spec fn was_looked_for(
    request: Request,
    events: Seq<Event>,
    m: nat,
    n: nat,
    item: BatchItem,
) -> bool {
    exists|k: nat| m < k <= n && looks_for(#[trigger] point_after(request, events, k), item)
}

/// Whether uncertain items are looked for at `point` before queued ones are submitted.
spec fn is_settling(point: SpecPoint) -> bool {
    &&& frame_at(point) is Some && frame_at(point)->0 is Settling
    &&& submitted_at(point) is None
    &&& !(point is Keeping || point is Doubting)
    &&& !(shown_before(point) matches Some(Then::Reconcile { .. }))
}

proof fn settling_goes_on(request: Request, point: SpecPoint, event: Event)
    requires
        fits(point, event),
        is_settling(point),
    ensures
        ({
            let next = follow(request, point, event);
            let rest = work_at(point)->0.rest;
            &&& !submits(next.1)
            &&& {
                ||| is_winding_down(next.0)
                ||| next.0 is SubmitList && rest.len() == 0
                ||| is_settling(next.0) && work_at(next.0)->0.rest == rest && !(next.0
                    is ClockStart)
                ||| is_settling(next.0) && rest.len() > 0 && work_at(next.0)->0.rest == rest.skip(1)
                    && looks_for(next.0, rest[0])
            }
        }),
{
    reveal(follow);
}

/// Whether those of `items` that are not among the last `left` were looked for.
spec fn are_looked_for(
    request: Request,
    events: Seq<Event>,
    m: nat,
    n: nat,
    items: Seq<BatchItem>,
    left: nat,
) -> bool {
    forall|i: int|
        0 <= i < items.len() - left ==> was_looked_for(request, events, m, n, #[trigger] items[i])
}

proof fn lookups_are_remembered(
    request: Request,
    events: Seq<Event>,
    m: nat,
    n: nat,
    items: Seq<BatchItem>,
    left: nat,
)
    requires
        are_looked_for(request, events, m, n, items, left),
    ensures
        are_looked_for(request, events, m, n + 1, items, left),
{
    assert forall|i: int| 0 <= i < items.len() - left implies was_looked_for(
        request,
        events,
        m,
        n + 1,
        #[trigger] items[i],
    ) by {
        let k = choose|k: nat|
            m < k <= n && looks_for(#[trigger] point_after(request, events, k), items[i]);
        assert(looks_for(point_after(request, events, k), items[i]));
    }
}

proof fn settling_looks_for_all(
    request: Request,
    events: Seq<Event>,
    m: nat,
    n: nat,
    items: Seq<BatchItem>,
)
    requires
        is_run(request, events),
        m < n <= events.len(),
        point_after(request, events, m) matches Point::SettleList { selected: None, .. },
        events[m as int] matches Event::Listed(Ok(listed)) && uncertain_of(listed@) == items,
    ensures
        ({
            let point = point_after(request, events, n);
            ||| is_winding_down(point) && !submits(action_after(request, events, n))
            ||| are_looked_for(request, events, m, n, items, 0)
            ||| is_settling(point) && !submits(action_after(request, events, n)) && {
                let rest = work_at(point)->0.rest;
                &&& rest.len() <= items.len()
                &&& rest == items.skip(items.len() - rest.len())
                &&& are_looked_for(request, events, m, n, items, rest.len())
            }
        }),
    decreases n,
{
    let before = (n - 1) as nat;
    let point = point_after(request, events, before);
    let next = point_after(request, events, n);
    assert(fits(point, events[before as int]));
    if before == m {
        reveal(follow);
        assert(items.skip(0) == items);
        if items.len() > 0 {
            assert(looks_for(next, items[0]));
            assert(was_looked_for(request, events, m, n, items[0]));
            assert(items.skip(1) == items.skip(items.len() - items.skip(1).len()));
        }
    } else {
        settling_looks_for_all(request, events, m, before, items);
        if is_winding_down(point) {
            winding_down_lasts(request, point, events[before as int]);
        } else if are_looked_for(request, events, m, before, items, 0) {
            lookups_are_remembered(request, events, m, before, items, 0);
        } else {
            let rest = work_at(point)->0.rest;
            settling_goes_on(request, point, events[before as int]);
            lookups_are_remembered(request, events, m, before, items, rest.len());
            if rest.len() > 0 && looks_for(next, rest[0]) {
                let taken = items.len() - rest.len();
                assert(rest[0] == items[taken]);
                assert(was_looked_for(request, events, m, n, items[taken]));
                assert(rest.skip(1) == items.skip(taken + 1));
            }
        }
    }
}

/// Before queued items are submitted, every item that the store listed as uncertain is looked for.
pub proof fn uncertain_items_are_looked_for_first(
    request: Request,
    events: Seq<Event>,
    m: nat,
    n: nat,
    items: Vec<BatchItem>,
    i: int,
)
    requires
        is_run(request, events),
        m < n <= events.len(),
        point_after(request, events, m) matches Point::SettleList { selected: None, .. },
        events[m as int] == Event::Listed(Ok(items)),
        submits(action_after(request, events, n)),
        0 <= i < uncertain_of(items@).len(),
    ensures
        was_looked_for(request, events, m, n, uncertain_of(items@)[i]),
{
    settling_looks_for_all(request, events, m, n, uncertain_of(items@));
}

proof fn ends_are_told(request: Request, point: SpecPoint, event: Event)
    requires
        fits(point, event),
    ensures
        follow(request, point, event).0 is Ended <==> follow(request, point, event).1 is Done,
{
    reveal(follow);
}

/// The operation is at its end just where the caller is told its result.
pub proof fn the_end_is_told(request: Request, events: Seq<Event>, n: nat)
    requires
        is_run(request, events),
        n <= events.len(),
    ensures
        point_after(request, events, n) is Ended <==> action_after(request, events, n) is Done,
{
    if n > 0 {
        let before = (n - 1) as nat;
        assert(fits(point_after(request, events, before), events[before as int]));
        ends_are_told(request, point_after(request, events, before), events[before as int]);
    }
}

proof fn claims_are_told_after_a_look(request: Request, point: SpecPoint, event: Event)
    requires
        fits(point, event),
    ensures
        follow(request, point, event).1 is Claim ==> event == Event::StopRequested(false),
        follow(request, point, event).1 is ClaimForced ==> point is ForcedStatus && follow(
            request,
            point,
            event,
        ).0 is ForcedClaim,
        follow(request, point, event).0 is ForcedStatus ==> point is ForcedStop && event
            == Event::StopRequested(false),
{
    reveal(follow);
}

/// An item is claimed only right after a look for a stop that found none. Where the claim is
/// forced, the batch is looked at once more in between, and no stop may come there: from the look
/// on, the claim is locked.
pub proof fn claims_follow_a_look_for_a_stop(request: Request, events: Seq<Event>, n: nat)
    requires
        is_run(request, events),
        n <= events.len(),
        action_after(request, events, n) is Claim || action_after(request, events, n)
            is ClaimForced,
    ensures
        action_after(request, events, n) is Claim ==> n >= 1 && events[n - 1]
            == Event::StopRequested(false),
        action_after(request, events, n) is ClaimForced ==> {
            &&& n >= 2
            &&& events[n - 2] == Event::StopRequested(false)
            &&& point_after(request, events, (n - 2) as nat) is ForcedStop
            &&& point_after(request, events, (n - 1) as nat) is ForcedStatus
            &&& point_after(request, events, n) is ForcedClaim
        },
{
    let last = (n - 1) as nat;
    assert(fits(point_after(request, events, last), events[last as int]));
    claims_are_told_after_a_look(request, point_after(request, events, last), events[last as int]);
    if action_after(request, events, n) is ClaimForced {
        let look = (n - 2) as nat;
        assert(fits(point_after(request, events, look), events[look as int]));
        claims_are_told_after_a_look(
            request,
            point_after(request, events, look),
            events[look as int],
        );
    }
}

} // verus!
