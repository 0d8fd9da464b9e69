//! That an operation reaches every item that it is for: queued ones are submitted, uncertain ones are
//! looked for, and failed ones are tried again.
use vstd::prelude::*;

use crate::batch::laws::{
    action_after, follow, frame_at, is_run, item_at, looks_for, point_after, selected_at,
    shown_before, submits, submitted_at, was_looked_for, work_at,
};
use crate::batch::machine::{
    fits, is_submittable, submittable_of, uncertain_of, Action, Event, Frame, Goal, Point, Request,
    SpecPoint, Then,
};
use crate::batch::supply::orders_are_created_from_what_was_loaded;
use crate::domain::{BatchItem, BatchItemStatus};
use crate::error::Failure;
use crate::shopify::graphql::InputModel;
use crate::text::contents;

verus! {

/// Whether the operation ends with an error once progress is shown.
pub open spec fn ends_in_error(then: Then<Failure, InputModel, Seq<BatchItem>>) -> bool {
    then is Pausing
}

/// Whether the operation is on its way to end with an error, or has ended.
pub open spec fn is_giving_up(point: SpecPoint) -> bool {
    match point {
        Point::SetPaused { .. } | Point::Rejecting { .. } | Point::Ended => true,
        Point::EmitJob { then, .. } => ends_in_error(then),
        Point::EmitItems { then, .. } => ends_in_error(then),
        Point::Publishing { then } => ends_in_error(then),
        _ => false,
    }
}

proof fn giving_up_lasts(request: Request, point: SpecPoint, event: Event)
    requires
        fits(point, event),
        is_giving_up(point),
    ensures
        is_giving_up(follow(request, point, event).0),
        !(follow(request, point, event).1 matches Action::Done { result: Ok(_) }),
{
    reveal(follow);
}

/// Every listed item that is queued, and selected where a selection was made, is taken up for
/// submission; and nothing else is.
pub proof fn queued_items_are_taken_up(
    items: Seq<BatchItem>,
    selected: Option<Vec<String>>,
    item: BatchItem,
)
    ensures
        submittable_of(items, selected).contains(item) <==> {
            &&& items.contains(item)
            &&& item.status == BatchItemStatus::Queued
            &&& selected matches Some(ids) ==> exists|k: int|
                0 <= k < ids@.len() && (#[trigger] ids@[k])@ == item.id@
        },
    decreases items.len(),
{
    let sub = submittable_of(items, selected);
    let wanted = item.status == BatchItemStatus::Queued && (selected matches Some(ids) ==> exists|
        k: int,
    |
        0 <= k < ids@.len() && (#[trigger] ids@[k])@ == item.id@);
    assert(is_submittable(item, selected) <==> wanted) by {
        if let Some(ids) = selected {
            let texts = contents(ids@);
            if texts.contains(item.id@) {
                let k = choose|k: int| 0 <= k < texts.len() && texts[k] == item.id@;
                assert(ids@[k]@ == item.id@);
            }
            if exists|k: int| 0 <= k < ids@.len() && (#[trigger] ids@[k])@ == item.id@ {
                let k = choose|k: int| 0 <= k < ids@.len() && (#[trigger] ids@[k])@ == item.id@;
                assert(texts[k] == item.id@);
            }
        }
    }
    if items.len() > 0 {
        let rest = items.drop_last();
        let fewer = submittable_of(rest, selected);
        queued_items_are_taken_up(rest, selected, item);
        if rest.contains(item) {
            let i = choose|i: int| 0 <= i < rest.len() && rest[i] == item;
            assert(items[i] == item);
        }
        if fewer.contains(item) {
            let i = choose|i: int| 0 <= i < fewer.len() && fewer[i] == item;
            assert(sub[i] == item);
        }
        if items.last() == item {
            assert(items[items.len() - 1] == item);
            if wanted {
                assert(sub[sub.len() - 1] == item);
            }
        }
        if items.contains(item) && items.last() != item {
            let i = choose|i: int| 0 <= i < items.len() && items[i] == item;
            assert(rest[i] == item);
        }
        if sub.contains(item) {
            let i = choose|i: int| 0 <= i < sub.len() && sub[i] == item;
            if i < fewer.len() {
                assert(fewer[i] == item);
            } else {
                assert(items.last() == item);
            }
        }
    }
}

/// Every listed item that is uncertain is taken up to be looked for, and nothing else is.
pub proof fn uncertain_items_are_taken_up(items: Seq<BatchItem>, item: BatchItem)
    ensures
        uncertain_of(items).contains(item) <==> items.contains(item) && item.status
            == BatchItemStatus::Uncertain,
    decreases items.len(),
{
    let sub = uncertain_of(items);
    if items.len() > 0 {
        let rest = items.drop_last();
        let fewer = uncertain_of(rest);
        uncertain_items_are_taken_up(rest, item);
        if rest.contains(item) {
            let i = choose|i: int| 0 <= i < rest.len() && rest[i] == item;
            assert(items[i] == item);
        }
        if fewer.contains(item) {
            let i = choose|i: int| 0 <= i < fewer.len() && fewer[i] == item;
            assert(sub[i] == item);
        }
        if items.last() == item {
            assert(items[items.len() - 1] == item);
            if item.status == BatchItemStatus::Uncertain {
                assert(sub[sub.len() - 1] == item);
            }
        }
        if items.contains(item) && items.last() != item {
            let i = choose|i: int| 0 <= i < items.len() && items[i] == item;
            assert(rest[i] == item);
        }
        if sub.contains(item) {
            let i = choose|i: int| 0 <= i < sub.len() && sub[i] == item;
            if i < fewer.len() {
                assert(fewer[i] == item);
            } else {
                assert(items.last() == item);
            }
        }
    }
}

/// Whether an event holds the submission up: a stop was asked for, or a claim was not taken.
pub open spec fn is_hold_up(event: Event) -> bool {
    event == Event::StopRequested(true) || event == Event::Claimed(Ok(false))
}

/// Whether what `point` holds is what is left of `items`, which are submitted in order.
spec fn is_submitting(point: SpecPoint, items: Seq<BatchItem>) -> bool {
    let left = work_at(point)->0.rest;
    &&& frame_at(point) is Some && frame_at(point)->0 is Submitting
    &&& left.len() < items.len()
    &&& left == items.skip(items.len() - left.len())
    &&& submitted_at(point) matches Some(item) ==> item == items[items.len() - left.len() - 1]
}

/// How many of `items` were submitted by the time that the operation is at `point`.
spec fn submitted_by(point: SpecPoint, items: Seq<BatchItem>) -> int {
    items.len() - work_at(point)->0.rest.len() - if submitted_at(point) is Some && !(point
        is Create) {
        1int
    } else {
        0
    }
}

proof fn submission_reaches_the_next(
    request: Request,
    point: SpecPoint,
    event: Event,
    items: Seq<BatchItem>,
)
    requires
        fits(point, event),
        is_submitting(point, items),
        !is_hold_up(event),
    ensures
        ({
            let next = follow(request, point, event);
            let so_far = submitted_by(point, items);
            &&& 0 <= so_far <= items.len()
            &&& {
                ||| is_giving_up(next.0)
                ||| next.0 is FinishList && so_far == items.len()
                ||| is_submitting(next.0, items) && if next.1 is CreateOrder {
                    &&& next.0 is Create
                    &&& so_far < items.len()
                    &&& item_at(next.0) == items[so_far]
                    &&& submitted_by(next.0, items) == so_far + 1
                } else {
                    submitted_by(next.0, items) == so_far
                }
            }
        }),
{
    reveal(follow);
    let left = work_at(point)->0.rest;
    if left.len() > 0 {
        let taken = items.len() - left.len();
        assert(left[0] == items[taken]);
        assert(left.skip(1) == items.skip(taken + 1));
    }
}

/// Whether the caller is told after the first `m` events to create the order of `item`.
pub open spec fn creates(request: Request, events: Seq<Event>, m: nat, item: BatchItem) -> bool {
    &&& action_after(request, events, m) is CreateOrder
    &&& point_after(request, events, m) is Create
    &&& item_at(point_after(request, events, m)) == item
}

/// Whether the caller is told to create the order of `item` after event number `k` and by event
/// number `n`.
pub open spec fn was_submitted(
    request: Request,
    events: Seq<Event>,
    k: nat,
    n: nat,
    item: BatchItem,
) -> bool {
    exists|m: nat| k < m <= n && #[trigger] creates(request, events, m, item)
}

/// Whether the first `count` of `items` were submitted.
spec fn were_submitted(
    request: Request,
    events: Seq<Event>,
    k: nat,
    n: nat,
    items: Seq<BatchItem>,
    count: int,
) -> bool {
    forall|i: int|
        0 <= i < count ==> was_submitted(request, events, k, n, #[trigger] items[i])
}

proof fn submissions_are_remembered(
    request: Request,
    events: Seq<Event>,
    k: nat,
    n: nat,
    items: Seq<BatchItem>,
    count: int,
)
    requires
        were_submitted(request, events, k, n, items, count),
    ensures
        were_submitted(request, events, k, n + 1, items, count),
{
    assert forall|i: int| 0 <= i < count implies was_submitted(
        request,
        events,
        k,
        n + 1,
        #[trigger] items[i],
    ) by {
        let m = choose|m: nat| k < m <= n && #[trigger] creates(request, events, m, items[i]);
        assert(creates(request, events, m, items[i]));
    }
}

proof fn submission_covers_the_list(
    request: Request,
    events: Seq<Event>,
    k: nat,
    n: nat,
    items: Seq<BatchItem>,
)
    requires
        is_run(request, events),
        k < n <= events.len(),
        point_after(request, events, k) is SubmitList,
        events[k as int] matches Event::Listed(Ok(listed)) && submittable_of(
            listed@,
            point_after(request, events, k)->SubmitList_selected,
        ) == items,
        forall|j: int| k < j < n ==> !#[trigger] is_hold_up(events[j]),
    ensures
        ({
            let point = point_after(request, events, n);
            ||| is_giving_up(point)
            ||| were_submitted(request, events, k, n, items, items.len() as int)
            ||| is_submitting(point, items) && were_submitted(
                request,
                events,
                k,
                n,
                items,
                submitted_by(point, items),
            )
        }),
    decreases n,
{
    let before = (n - 1) as nat;
    let point = point_after(request, events, before);
    let next = point_after(request, events, n);
    let event = events[before as int];
    assert(fits(point, event));
    if before == k {
        reveal(follow);
        if items.len() > 0 {
            assert(items.skip(1) == items.skip(items.len() - items.skip(1).len()));
        }
    } else {
        submission_covers_the_list(request, events, k, before, items);
        if is_giving_up(point) {
            giving_up_lasts(request, point, event);
        } else if were_submitted(request, events, k, before, items, items.len() as int) {
            submissions_are_remembered(request, events, k, before, items, items.len() as int);
        } else {
            let so_far = submitted_by(point, items);
            assert(!is_hold_up(events[before as int]));
            submission_reaches_the_next(request, point, event, items);
            submissions_are_remembered(request, events, k, before, items, so_far);
            if is_submitting(next, items) && action_after(request, events, n) is CreateOrder
                && !is_giving_up(next) {
                assert(creates(request, events, n, items[so_far]));
                assert(was_submitted(request, events, k, n, items[so_far]));
                assert forall|i: int| 0 <= i < so_far + 1 implies was_submitted(
                    request,
                    events,
                    k,
                    n,
                    #[trigger] items[i],
                ) by {}
            }
        }
    }
}

/// Whether an order was asked for under the source identifier of `item`, after event number `k` and
/// by event number `n`.
pub open spec fn was_ordered(
    request: Request,
    events: Seq<Event>,
    k: nat,
    n: nat,
    item: BatchItem,
) -> bool {
    exists|m: nat|
        k < m <= n && (#[trigger] action_after(request, events, m) matches Action::CreateOrder {
            input,
            ..
        } && input.source_identifier == item.source_identifier@)
}

proof fn submitted_items_were_ordered(
    request: Request,
    events: Seq<Event>,
    k: nat,
    n: nat,
    item: BatchItem,
)
    requires
        is_run(request, events),
        n <= events.len(),
        was_submitted(request, events, k, n, item),
    ensures
        was_ordered(request, events, k, n, item),
{
    let m = choose|m: nat| k < m <= n && #[trigger] creates(request, events, m, item);
    let action = action_after(request, events, m);
    orders_are_created_from_what_was_loaded(
        request,
        events,
        m,
        action->CreateOrder_store,
        action->CreateOrder_input,
    );
}

/// Where nothing holds the submission up and it comes to its end, an order was asked for each item
/// that was listed as queued, and selected where a selection was made.
pub proof fn every_queued_item_is_submitted(
    request: Request,
    events: Seq<Event>,
    k: nat,
    n: nat,
    items: Vec<BatchItem>,
    i: int,
)
    requires
        is_run(request, events),
        k < n <= events.len(),
        point_after(request, events, k) is SubmitList,
        events[k as int] == Event::Listed(Ok(items)),
        point_after(request, events, n) is FinishList,
        forall|j: int| k < j < n ==> !#[trigger] is_hold_up(events[j]),
        0 <= i < items@.len(),
        items@[i].status == BatchItemStatus::Queued,
        point_after(request, events, k)->SubmitList_selected matches Some(ids) ==> exists|d: int|
            0 <= d < ids@.len() && (#[trigger] ids@[d])@ == items@[i].id@,
    ensures
        was_submitted(request, events, k, n, items@[i]),
        was_ordered(request, events, k, n, items@[i]),
{
    let selected = point_after(request, events, k)->SubmitList_selected;
    let sub = submittable_of(items@, selected);
    submission_covers_the_list(request, events, k, n, sub);
    assert(items@.contains(items@[i]));
    queued_items_are_taken_up(items@, selected, items@[i]);
    let at = choose|at: int| 0 <= at < sub.len() && sub[at] == items@[i];
    assert(was_submitted(request, events, k, n, sub[at]));
    submitted_items_were_ordered(request, events, k, n, items@[i]);
}

/// Whether event number `k` lists the items of a submission, and the order of each that is queued, and
/// among `selected` where that is given, was asked for by event number `n`.
pub open spec fn is_submitted_in_full(
    request: Request,
    events: Seq<Event>,
    k: nat,
    n: nat,
    selected: Option<Vec<String>>,
) -> bool {
    &&& k < n
    &&& action_after(request, events, k) is ListItems
    &&& events[k as int] matches Event::Listed(Ok(items)) && forall|i: int|
        0 <= i < items@.len() && (#[trigger] items@[i]).status == BatchItemStatus::Queued && (
        selected matches Some(ids) ==> contents(ids@).contains(items@[i].id@)) ==> was_ordered(
            request,
            events,
            k,
            n,
            items@[i],
        )
}

/// The points before the items to submit were listed.
spec fn is_before_submission(request: Request, point: SpecPoint) -> bool {
    match point {
        Point::RunStatus | Point::Validate | Point::RequireRecovered | Point::ResumingStopped
        | Point::Requeueing | Point::ExecJob { .. } | Point::Starting { .. }
        | Point::SettleList { .. } | Point::SubmitList { .. } => true,
        Point::Recovering => request.kind is Resume,
        Point::Credentials { goal } => goal is Execute,
        Point::StopCheck { .. } | Point::Claim { .. } | Point::Create { .. } | Point::Keeping { .. }
        | Point::Doubting { .. } => false,
        _ => frame_at(point) is Some && frame_at(point)->0 is Settling && !(shown_before(point)
            matches Some(Then::Create { .. })) && !(shown_before(point) matches Some(
            Then::Reconcile { .. },
        )),
    }
}

proof fn submission_comes_with_its_list(request: Request, point: SpecPoint, event: Event)
    requires
        request.kind is Run || request.kind is Resume || request.kind is RetryFailed,
        fits(point, event),
        is_before_submission(request, point),
    ensures
        ({
            let next = follow(request, point, event);
            ||| is_before_submission(request, next.0)
            ||| is_giving_up(next.0) && !(next.1 matches Action::Done { result: Ok(_) })
            ||| point is SubmitList && (event matches Event::Listed(Ok(_)))
            ||| event matches Event::Requeued(Ok(ids)) && ids@.len() == 0
        }),
{
    reveal(follow);
}

/// Whether the submission was listed by one of the first `n` of `events`.
spec fn has_list(request: Request, events: Seq<Event>, n: nat) -> bool {
    exists|k: nat|
        k < n && #[trigger] point_after(request, events, k) is SubmitList && (
        events[k as int] matches Event::Listed(Ok(_)))
}

/// Whether one of the first `n` of `events` reports that no item was queued again.
pub open spec fn nothing_was_requeued(events: Seq<Event>, n: nat) -> bool {
    exists|j: int|
        0 <= j < n && (#[trigger] events[j] matches Event::Requeued(Ok(ids)) && ids@.len() == 0)
}

proof fn operations_come_to_their_list(request: Request, events: Seq<Event>, n: nat)
    requires
        request.kind is Run || request.kind is Resume || request.kind is RetryFailed,
        is_run(request, events),
        n <= events.len(),
    ensures
        is_before_submission(request, point_after(request, events, n)) || is_giving_up(
            point_after(request, events, n),
        ) || has_list(request, events, n) || nothing_was_requeued(events, n),
    decreases n,
{
    if n > 0 {
        let before = (n - 1) as nat;
        let point = point_after(request, events, before);
        let event = events[before as int];
        operations_come_to_their_list(request, events, before);
        assert(fits(point, event));
        if is_before_submission(request, point) {
            submission_comes_with_its_list(request, point, event);
        } else if is_giving_up(point) {
            giving_up_lasts(request, point, event);
        }
    }
}

proof fn ends_come_after_the_work(request: Request, point: SpecPoint, event: Event)
    requires
        fits(point, event),
        follow(request, point, event).1 matches Action::Done { result: Ok(_) },
    ensures
        point matches Point::Publishing { then } && (then is Finished || then is Closing),
{
    reveal(follow);
}

/// What is selected for submission: what was queued again, where failed items are tried again, and
/// everything otherwise.
pub open spec fn is_selected_as_asked(
    request: Request,
    events: Seq<Event>,
    n: nat,
    selected: Option<Vec<String>>,
) -> bool {
    if request.kind is RetryFailed {
        selected matches Some(ids) && exists|j: int|
            0 <= j < n && #[trigger] events[j] == Event::Requeued(Ok(ids))
    } else {
        selected is None
    }
}

proof fn selections_are_passed_on(request: Request, point: SpecPoint, event: Event)
    requires
        fits(point, event),
        request.kind is RetryFailed ==> !(frame_at(point) is Some && frame_at(point)->0 is Settling),
        point is ResumingStopped ==> request.kind is Resume,
        point is Requeueing ==> request.kind is RetryFailed,
        !(request.kind is RetryFailed) ==> (selected_at(point) matches Some(selected) ==> selected
            is None),
        request.kind is RetryFailed ==> (selected_at(point) matches Some(selected) ==> selected
            is Some),
    ensures
        ({
            let next = follow(request, point, event).0;
            &&& request.kind is RetryFailed ==> !(frame_at(next) is Some && frame_at(next)->0
                is Settling)
            &&& next is ResumingStopped ==> request.kind is Resume
            &&& next is Requeueing ==> request.kind is RetryFailed
            &&& selected_at(next) matches Some(selected) ==> {
                ||| selected_at(point) == Some(selected)
                ||| selected is None && !(request.kind is RetryFailed)
                ||| selected matches Some(ids) && request.kind is RetryFailed && event
                    == Event::Requeued(Ok(ids))
            }
        }),
{
    reveal(follow);
}

proof fn selections_are_as_asked(request: Request, events: Seq<Event>, n: nat)
    requires
        is_run(request, events),
        n <= events.len(),
    ensures
        ({
            let point = point_after(request, events, n);
            &&& request.kind is RetryFailed ==> !(frame_at(point) is Some && frame_at(point)->0
                is Settling)
            &&& point is ResumingStopped ==> request.kind is Resume
            &&& point is Requeueing ==> request.kind is RetryFailed
            &&& selected_at(point) matches Some(selected) ==> is_selected_as_asked(
                request,
                events,
                n,
                selected,
            )
        }),
    decreases n,
{
    if n > 0 {
        let before = (n - 1) as nat;
        let point = point_after(request, events, before);
        let next = point_after(request, events, n);
        selections_are_as_asked(request, events, before);
        assert(fits(point, events[before as int]));
        selections_are_passed_on(request, point, events[before as int]);
        if let Some(selected) = selected_at(next) {
            if request.kind is RetryFailed && selected_at(point) == Some(selected) {
                let ids = selected->0;
                let j = choose|j: int|
                    0 <= j < before && #[trigger] events[j] == Event::Requeued(Ok(ids));
                assert(events[j] == Event::Requeued(Ok(ids)));
            }
        }
    }
}

proof fn the_work_was_done_at_the_end(request: Request, events: Seq<Event>, n: nat) -> (k: nat)
    requires
        is_run(request, events),
        request.kind is Run || request.kind is Resume || request.kind is RetryFailed,
        0 < n <= events.len(),
        action_after(request, events, n) matches Action::Done { result: Ok(_) },
        forall|j: int| 0 <= j < n ==> !#[trigger] is_hold_up(events[j]),
        !nothing_was_requeued(events, n),
    ensures
        k < n,
        point_after(request, events, k) is SubmitList,
        is_submitted_in_full(
            request,
            events,
            k,
            n,
            point_after(request, events, k)->SubmitList_selected,
        ),
{
    let last = (n - 1) as nat;
    let point = point_after(request, events, last);
    assert(fits(point, events[last as int]));
    ends_come_after_the_work(request, point, events[last as int]);
    operations_come_to_their_list(request, events, last);
    assert forall|j: int| 0 <= j < last implies !(#[trigger] events[j] matches Event::Requeued(
        Ok(ids),
    ) && ids@.len() == 0) by {
        assert(events[j] is Requeued || !(events[j] is Requeued));
    }
    let k = choose|k: nat|
        k < last && #[trigger] point_after(request, events, k) is SubmitList && (
        events[k as int] matches Event::Listed(Ok(_)));
    let items = events[k as int]->Listed_0->Ok_0;
    let selected = point_after(request, events, k)->SubmitList_selected;
    let sub = submittable_of(items@, selected);
    submission_covers_the_list(request, events, k, last, sub);
    lists_are_asked_for(request, events, k);
    assert forall|i: int|
        0 <= i < items@.len() && (#[trigger] items@[i]).status == BatchItemStatus::Queued && (
        selected matches Some(ids) ==> contents(ids@).contains(
            items@[i].id@,
        )) implies was_ordered(request, events, k, n, items@[i]) by {
        let item = items@[i];
        assert(items@.contains(item));
        if let Some(ids) = selected {
            let d = choose|d: int| 0 <= d < contents(ids@).len() && contents(ids@)[d] == item.id@;
            assert(ids@[d]@ == item.id@);
        }
        queued_items_are_taken_up(items@, selected, item);
        let at = choose|at: int| 0 <= at < sub.len() && sub[at] == item;
        assert(was_submitted(request, events, k, last, sub[at]));
        submitted_items_were_ordered(request, events, k, last, item);
        let m = choose|m: nat|
            k < m <= last && (#[trigger] action_after(request, events, m)
                matches Action::CreateOrder { input, .. } && input.source_identifier
                == item.source_identifier@);
        assert(action_after(request, events, m) is CreateOrder);
    }
    k
}

proof fn lists_are_told(request: Request, point: SpecPoint, event: Event)
    requires
        fits(point, event),
    ensures
        follow(request, point, event).0 is SubmitList || follow(request, point, event).0 is CheckList
            ==> follow(request, point, event).1 is ListItems,
{
    reveal(follow);
}

proof fn lists_are_asked_for(request: Request, events: Seq<Event>, k: nat)
    requires
        is_run(request, events),
        k < events.len(),
        point_after(request, events, k) is SubmitList || point_after(request, events, k)
            is CheckList,
    ensures
        action_after(request, events, k) is ListItems,
{
    let before = (k - 1) as nat;
    assert(fits(point_after(request, events, before), events[before as int]));
    lists_are_told(request, point_after(request, events, before), events[before as int]);
}

/// A batch that was run or resumed to a good end, without a stop and without a claim that was not
/// taken, was submitted in full: an order was asked for each item that was listed as queued.
pub proof fn runs_submit_every_queued_item(request: Request, events: Seq<Event>, n: nat)
    requires
        is_run(request, events),
        request.kind is Run || request.kind is Resume,
        0 < n <= events.len(),
        action_after(request, events, n) matches Action::Done { result: Ok(_) },
        forall|j: int| 0 <= j < n ==> !#[trigger] is_hold_up(events[j]),
    ensures
        exists|k: nat|
            #[trigger] point_after(request, events, k) is SubmitList && is_submitted_in_full(
                request,
                events,
                k,
                n,
                None,
            ),
{
    nothing_is_requeued_without_being_asked(request, events, n);
    let k = the_work_was_done_at_the_end(request, events, n);
    selections_are_as_asked(request, events, k);
}

proof fn nothing_is_requeued_without_being_asked(request: Request, events: Seq<Event>, n: nat)
    requires
        is_run(request, events),
        !(request.kind is RetryFailed),
        n <= events.len(),
    ensures
        !nothing_was_requeued(events, n),
{
    if nothing_was_requeued(events, n) {
        let j = choose|j: int|
            0 <= j < n && (#[trigger] events[j] matches Event::Requeued(Ok(ids)) && ids@.len()
                == 0);
        assert(fits(point_after(request, events, j as nat), events[j]));
        selections_are_as_asked(request, events, j as nat);
    }
}

/// Where failed items were tried again to a good end, without a stop and without a claim that was not
/// taken, an order was asked for each item that the store reported as queued again and then listed as
/// queued.
pub proof fn failed_items_are_all_tried_again(
    request: Request,
    events: Seq<Event>,
    n: nat,
    j: int,
    ids: Vec<String>,
)
    requires
        is_run(request, events),
        request.kind is RetryFailed,
        0 < n <= events.len(),
        action_after(request, events, n) matches Action::Done { result: Ok(_) },
        forall|j: int| 0 <= j < n ==> !#[trigger] is_hold_up(events[j]),
        0 <= j < n,
        events[j] == Event::Requeued(Ok(ids)),
        ids@.len() > 0,
    ensures
        exists|k: nat|
            #[trigger] point_after(request, events, k) is SubmitList && is_submitted_in_full(
                request,
                events,
                k,
                n,
                Some(ids),
            ),
{
    assert forall|i: int| 0 <= i < n && (#[trigger] events[i] is Requeued) implies i == j by {
        if i < j {
            items_are_requeued_once(request, events, i as nat, j as nat);
        } else if j < i {
            items_are_requeued_once(request, events, j as nat, i as nat);
        }
    }
    assert(!nothing_was_requeued(events, n));
    let k = the_work_was_done_at_the_end(request, events, n);
    selections_are_as_asked(request, events, k);
    let selected = point_after(request, events, k)->SubmitList_selected;
    let i = choose|i: int|
        0 <= i < k && #[trigger] events[i] == Event::Requeued(Ok(selected->0));
    assert(events[i] is Requeued);
    assert(i == j);
    assert(selected == Some(ids));
}

/// The points that come before failed items are queued again, and there.
spec fn is_before_requeueing(point: SpecPoint) -> bool {
    point is RequireRecovered || point is Validate || point is RunStatus || point is Requeueing
}

proof fn requeueing_comes_first(request: Request, point: SpecPoint, event: Event)
    requires
        fits(point, event),
    ensures
        !is_before_requeueing(point) || point is Requeueing ==> !is_before_requeueing(
            follow(request, point, event).0,
        ),
{
    reveal(follow);
}

proof fn requeueing_does_not_come_back(request: Request, events: Seq<Event>, n: nat, m: nat)
    requires
        is_run(request, events),
        n < m <= events.len(),
        point_after(request, events, n) is Requeueing,
    ensures
        !is_before_requeueing(point_after(request, events, m)),
    decreases m,
{
    let before = (m - 1) as nat;
    assert(fits(point_after(request, events, before), events[before as int]));
    requeueing_comes_first(request, point_after(request, events, before), events[before as int]);
    if before > n {
        requeueing_does_not_come_back(request, events, n, before);
    }
}

proof fn items_are_requeued_once(request: Request, events: Seq<Event>, n: nat, m: nat)
    requires
        is_run(request, events),
        n < m < events.len(),
        events[n as int] is Requeued,
    ensures
        !(events[m as int] is Requeued),
{
    assert(fits(point_after(request, events, n), events[n as int]));
    assert(fits(point_after(request, events, m), events[m as int]));
    requeueing_does_not_come_back(request, events, n, m);
}

/// Whether uncertain items are looked for at `point`.
spec fn is_looking(point: SpecPoint) -> bool {
    &&& frame_at(point) is Some && (frame_at(point)->0 is Settling || frame_at(point)->0
        is Checking)
    &&& submitted_at(point) is None
    &&& !(point is Keeping || point is Doubting)
    &&& !(shown_before(point) matches Some(Then::Reconcile { .. }))
}

proof fn looking_reaches_the_next(request: Request, point: SpecPoint, event: Event)
    requires
        fits(point, event),
        is_looking(point),
    ensures
        ({
            let next = follow(request, point, event);
            let rest = work_at(point)->0.rest;
            &&& !submits(next.1)
            &&& {
                ||| is_giving_up(next.0)
                ||| (next.0 is SubmitList || next.0 is FinishList) && rest.len() == 0
                ||| is_looking(next.0) && work_at(next.0)->0.rest == rest && !(next.0
                    is ClockStart)
                ||| is_looking(next.0) && rest.len() > 0 && work_at(next.0)->0.rest == rest.skip(1)
                    && looks_for(next.0, rest[0])
            }
        }),
{
    reveal(follow);
}

/// Whether those of `items` that are not among the last `left` were looked for.
spec fn were_looked_for(
    request: Request,
    events: Seq<Event>,
    k: nat,
    n: nat,
    items: Seq<BatchItem>,
    left: nat,
) -> bool {
    forall|i: int|
        0 <= i < items.len() - left ==> was_looked_for(request, events, k, n, #[trigger] items[i])
}

proof fn lookups_stay_known(
    request: Request,
    events: Seq<Event>,
    k: nat,
    n: nat,
    items: Seq<BatchItem>,
    left: nat,
)
    requires
        were_looked_for(request, events, k, n, items, left),
    ensures
        were_looked_for(request, events, k, n + 1, items, left),
{
    assert forall|i: int| 0 <= i < items.len() - left implies was_looked_for(
        request,
        events,
        k,
        n + 1,
        #[trigger] items[i],
    ) by {
        let m = choose|m: nat|
            k < m <= n && looks_for(#[trigger] point_after(request, events, m), items[i]);
        assert(looks_for(point_after(request, events, m), items[i]));
    }
}

/// Whether uncertain items are about to be listed at `point`, to be looked for.
pub open spec fn lists_to_look(point: SpecPoint) -> bool {
    point is CheckList || (point matches Point::SettleList { selected, .. } && selected is None)
}

proof fn looking_covers_the_list(
    request: Request,
    events: Seq<Event>,
    k: nat,
    n: nat,
    items: Seq<BatchItem>,
)
    requires
        is_run(request, events),
        k < n <= events.len(),
        lists_to_look(point_after(request, events, k)),
        events[k as int] matches Event::Listed(Ok(listed)) && uncertain_of(listed@) == items,
    ensures
        ({
            let point = point_after(request, events, n);
            ||| is_giving_up(point)
            ||| were_looked_for(request, events, k, n, items, 0)
            ||| is_looking(point) && !submits(action_after(request, events, n)) && {
                let rest = work_at(point)->0.rest;
                &&& rest.len() <= items.len()
                &&& rest == items.skip(items.len() - rest.len())
                &&& were_looked_for(request, events, k, n, items, rest.len())
            }
        }),
    decreases n,
{
    let before = (n - 1) as nat;
    let point = point_after(request, events, before);
    let next = point_after(request, events, n);
    assert(fits(point, events[before as int]));
    if before == k {
        reveal(follow);
        assert(items.skip(0) == items);
        if items.len() > 0 {
            assert(looks_for(next, items[0]));
            assert(was_looked_for(request, events, k, n, items[0]));
            assert(items.skip(1) == items.skip(items.len() - items.skip(1).len()));
        }
    } else {
        looking_covers_the_list(request, events, k, before, items);
        if is_giving_up(point) {
            giving_up_lasts(request, point, events[before as int]);
        } else if were_looked_for(request, events, k, before, items, 0) {
            lookups_stay_known(request, events, k, before, items, 0);
        } else {
            let rest = work_at(point)->0.rest;
            looking_reaches_the_next(request, point, events[before as int]);
            lookups_stay_known(request, events, k, before, items, rest.len());
            if rest.len() > 0 && looks_for(next, rest[0]) {
                let taken = items.len() - rest.len();
                assert(rest[0] == items[taken]);
                assert(was_looked_for(request, events, k, n, items[taken]));
                assert(rest.skip(1) == items.skip(taken + 1));
            }
        }
    }
}

/// Every item that was listed as uncertain is looked for before queued ones are listed to be
/// submitted, and before a reconciliation comes to its end.
pub proof fn every_uncertain_item_is_looked_for(
    request: Request,
    events: Seq<Event>,
    k: nat,
    n: nat,
    items: Vec<BatchItem>,
    i: int,
)
    requires
        is_run(request, events),
        k < n <= events.len(),
        lists_to_look(point_after(request, events, k)),
        events[k as int] == Event::Listed(Ok(items)),
        point_after(request, events, n) is SubmitList || point_after(request, events, n)
            is FinishList,
        0 <= i < items@.len(),
        items@[i].status == BatchItemStatus::Uncertain,
    ensures
        was_looked_for(request, events, k, n, items@[i]),
{
    let sub = uncertain_of(items@);
    looking_covers_the_list(request, events, k, n, sub);
    assert(items@.contains(items@[i]));
    uncertain_items_are_taken_up(items@, items@[i]);
    let at = choose|at: int| 0 <= at < sub.len() && sub[at] == items@[i];
    assert(was_looked_for(request, events, k, n, sub[at]));
}

/// Looking for an item asks the shop for the order with its source identifier, unless thirty seconds
/// have passed since the first look at the clock.
pub proof fn looking_for_an_item_asks_the_shop(
    request: Request,
    events: Seq<Event>,
    n: nat,
    item: BatchItem,
    first: u128,
    second: u128,
    third: u128,
)
    requires
        is_run(request, events),
        n + 3 <= events.len(),
        looks_for(point_after(request, events, n), item),
        events[n as int] == Event::Clock(first),
        events[n as int + 1] == Event::Clock(second),
        events[n as int + 2] == Event::Clock(third),
        third < first + 30_000_000_000,
    ensures
        action_after(request, events, n + 3) is FindOrder,
        action_after(request, events, n + 3)->FindOrder_source == item.source_identifier,
        action_after(request, events, n + 3)->FindOrder_limit > 0,
{
    reveal(follow);
    reveal_with_fuel(point_after, 4);
    assert(events[(n + 2) - 1] == Event::Clock(second));
    assert(events[(n + 3) - 1] == Event::Clock(third));
}

/// The points of a reconciliation before the items were listed.
spec fn is_before_checking(point: SpecPoint) -> bool {
    point is Recovering || point is CheckJob || point is CheckList || (point
        matches Point::Credentials { goal } && goal is Check)
}

proof fn checking_comes_with_its_list(request: Request, point: SpecPoint, event: Event)
    requires
        request.kind is Reconcile,
        fits(point, event),
        is_before_checking(point),
    ensures
        ({
            let next = follow(request, point, event);
            ||| is_before_checking(next.0)
            ||| is_giving_up(next.0) && !(next.1 matches Action::Done { result: Ok(_) })
            ||| point is CheckList && (event matches Event::Listed(Ok(_)))
        }),
{
    reveal(follow);
}

/// Whether the items to look for were listed by one of the first `n` of `events`.
spec fn has_list_to_check(request: Request, events: Seq<Event>, n: nat) -> bool {
    exists|k: nat|
        k < n && #[trigger] point_after(request, events, k) is CheckList && (
        events[k as int] matches Event::Listed(Ok(_)))
}

proof fn reconciliations_come_to_their_list(request: Request, events: Seq<Event>, n: nat)
    requires
        request.kind is Reconcile,
        is_run(request, events),
        n <= events.len(),
    ensures
        is_before_checking(point_after(request, events, n)) || is_giving_up(
            point_after(request, events, n),
        ) || has_list_to_check(request, events, n),
    decreases n,
{
    if n > 0 {
        let before = (n - 1) as nat;
        let point = point_after(request, events, before);
        let event = events[before as int];
        reconciliations_come_to_their_list(request, events, before);
        assert(fits(point, event));
        if is_before_checking(point) {
            checking_comes_with_its_list(request, point, event);
        } else if is_giving_up(point) {
            giving_up_lasts(request, point, event);
        }
    }
}

/// A reconciliation that came to a good end has looked for every item that was listed as uncertain.
pub proof fn reconciliations_look_for_every_uncertain_item(
    request: Request,
    events: Seq<Event>,
    n: nat,
)
    requires
        is_run(request, events),
        request.kind is Reconcile,
        0 < n <= events.len(),
        action_after(request, events, n) matches Action::Done { result: Ok(_) },
    ensures
        exists|k: nat|
            #[trigger] point_after(request, events, k) is CheckList && k < n && action_after(
                request,
                events,
                k,
            ) is ListItems && (events[k as int] matches Event::Listed(Ok(items)) && forall|i: int|
                0 <= i < items@.len() && (#[trigger] items@[i]).status
                    == BatchItemStatus::Uncertain ==> was_looked_for(
                    request,
                    events,
                    k,
                    n,
                    items@[i],
                )),
{
    let last = (n - 1) as nat;
    let point = point_after(request, events, last);
    assert(fits(point, events[last as int]));
    ends_come_after_the_work(request, point, events[last as int]);
    reconciliations_come_to_their_list(request, events, last);
    let k = choose|k: nat|
        k < last && #[trigger] point_after(request, events, k) is CheckList && (
        events[k as int] matches Event::Listed(Ok(_)));
    let items = events[k as int]->Listed_0->Ok_0;
    let sub = uncertain_of(items@);
    looking_covers_the_list(request, events, k, last, sub);
    lists_are_asked_for(request, events, k);
    assert forall|i: int|
        0 <= i < items@.len() && (#[trigger] items@[i]).status
            == BatchItemStatus::Uncertain implies was_looked_for(
        request,
        events,
        k,
        n,
        items@[i],
    ) by {
        assert(items@.contains(items@[i]));
        uncertain_items_are_taken_up(items@, items@[i]);
        let at = choose|at: int| 0 <= at < sub.len() && sub[at] == items@[i];
        assert(was_looked_for(request, events, k, last, sub[at]));
        let m = choose|m: nat|
            k < m <= last && looks_for(#[trigger] point_after(request, events, m), items@[i]);
        assert(looks_for(point_after(request, events, m), items@[i]));
    }
}

} // verus!
