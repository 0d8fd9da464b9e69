//! What an operation does with each answer that it gets: what is stored of an order, what is looked
//! for and how long, what comes next, and what ends it.
use vstd::prelude::*;

use crate::batch::laws::is_at_work;
use crate::batch::machine::{
    advance, begin, chosen_of, fits, is_chosen, seen_action, Action, Event, ExecAction, Frame, Goal,
    LoadedBatch, LookupOutcome, Point, Request, SpecAction, SpecPoint, Then, Work,
};
use crate::batch::{
    batches_end_as_their_items_do, failures_are_told_apart_by_code, orders_without_the_token_stay,
    progress_shows_the_batch, BatchStatus,
};
use crate::domain::{BatchItem, BatchItemStatus, OrderTemplate};
use crate::error::{concealed_failure, failures_without_the_secret_stay, AppError, Failure};
use crate::identifier::source_text;
use crate::redact::concealed;
use crate::repository::StoreCredentials;
use crate::shopify::graphql::{order_problem, CreatedOrder, InputModel};
use crate::text::occurs;

verus! {

/// Whether `text` does not hold the token.
pub open spec fn is_free_of(text: Seq<char>, token: Seq<char>) -> bool {
    token.len() > 0 ==> !occurs(text, token)
}

/// Whether a failure with the code `code` concerns the access to the shop.
pub open spec fn is_about_access(code: Seq<char>) -> bool {
    ||| code == "SHOPIFY_UNAUTHORIZED"@
    ||| code == "SHOPIFY_FORBIDDEN"@
    ||| code == "SHOPIFY_CREDENTIALS"@
    ||| code == "CUSTOMER_DATA_RESTRICTED"@
    ||| code == "INVALID_SHOP_DOMAIN"@
}

/// A created order is stored as succeeded for its item, with the identifier and the name that the
/// shop gave.
pub proof fn created_orders_are_stored_as_given(
    request: Request,
    work: Work<Seq<BatchItem>>,
    item: BatchItem,
    order: CreatedOrder,
)
    requires
        is_free_of(order.id@, work.store.access_token@),
        is_free_of(order.name@, work.store.access_token@),
    ensures
        ({
            let next = advance(
                request,
                SpecPoint::Create { work, item },
                Event::Created(Ok(order)),
            );
            &&& next.1 is MarkSucceeded
            &&& next.1->MarkSucceeded_item_id == item.id
            &&& next.1->MarkSucceeded_order.id == order.id@
            &&& next.1->MarkSucceeded_order.name == order.name@
            &&& next.0 == (SpecPoint::Keeping { work, item })
        }),
{
    orders_without_the_token_stay(order@, work.store.access_token@);
}

/// An answer that no order was created is stored with its own code and message: as failed where it
/// is certain that there is none, as queued where the shop denied access, and as uncertain in every
/// other case; an item that was uncertain before stays so.
pub proof fn errors_of_a_creation_are_stored_as_given(
    request: Request,
    work: Work<Seq<BatchItem>>,
    item: BatchItem,
    error: AppError,
)
    requires
        is_free_of(error@.code, work.store.access_token@),
        is_free_of(error@.message, work.store.access_token@),
    ensures
        ({
            let next = advance(
                request,
                SpecPoint::Create { work, item },
                Event::Created(Err(error)),
            );
            let was_uncertain = item.status == BatchItemStatus::Uncertain;
            let access = is_about_access(error@.code);
            let certain = error@.code == "SHOPIFY_USER_ERROR"@ || error@.code
                == "SHOPIFY_RATE_LIMITED"@;
            &&& !was_uncertain && access ==> next.1 == (SpecAction::RequeueRejected {
                item_id: item.id,
                error: error@,
            })
            &&& !was_uncertain && !access && certain ==> next.1 == (SpecAction::MarkFailed {
                item_id: item.id,
                error: error@,
            })
            &&& was_uncertain || !(access || certain) ==> next.1 == (SpecAction::MarkUncertain {
                item_id: item.id,
                error: error@,
            })
            &&& access ==> next.0 == (SpecPoint::Rejecting { error: error@ })
            &&& !access && !was_uncertain && certain ==> next.0 == (SpecPoint::Keeping { work, item })
            &&& !access && (was_uncertain || !certain) ==> next.0 == (SpecPoint::Doubting {
                work,
                item,
            })
        }),
{
    failures_without_the_secret_stay(error@, work.store.access_token@);
    failures_are_told_apart_by_code(error@);
}

/// An order that a lookup found is recorded for its item, with the identifier and the name that the
/// shop gave.
pub proof fn found_orders_are_recorded_as_given(
    request: Request,
    work: Work<Seq<BatchItem>>,
    item: BatchItem,
    start: u128,
    attempt: u32,
    order: CreatedOrder,
)
    requires
        is_free_of(order.id@, work.store.access_token@),
        is_free_of(order.name@, work.store.access_token@),
    ensures
        ({
            let next = advance(
                request,
                SpecPoint::Lookup { work, item, start, attempt },
                Event::LookedUp(LookupOutcome::Answered(Ok(Some(order)))),
            );
            &&& next.1 is RecordReconciled
            &&& next.1->RecordReconciled_item_id == item.id
            &&& next.1->RecordReconciled_order.id == order.id@
            &&& next.1->RecordReconciled_order.name == order.name@
            &&& next.0 == (SpecPoint::Recording { work, item })
        }),
{
    orders_without_the_token_stay(order@, work.store.access_token@);
}

/// Nothing is recorded of a lookup that found no order. One that was answered is repeated until the
/// third; one that failed or timed out is not; and where the shop denied access, the batch is paused
/// with that error.
pub proof fn lookups_without_an_order_record_nothing(
    request: Request,
    work: Work<Seq<BatchItem>>,
    item: BatchItem,
    start: u128,
    attempt: u32,
    outcome: LookupOutcome,
)
    requires
        !(outcome matches LookupOutcome::Answered(Ok(Some(_)))),
        outcome matches LookupOutcome::Answered(Err(error)) ==> is_free_of(
            error@.code,
            work.store.access_token@,
        ) && is_free_of(error@.message, work.store.access_token@),
    ensures
        ({
            let next = advance(
                request,
                SpecPoint::Lookup { work, item, start, attempt },
                Event::LookedUp(outcome),
            );
            let repeated = outcome matches LookupOutcome::Answered(Ok(None)) && attempt < 2;
            let denied = outcome matches LookupOutcome::Answered(Err(error)) && is_about_access(
                error@.code,
            );
            &&& repeated ==> next.1 is ReadClock && next.0 == (SpecPoint::ClockElapsed {
                work,
                item,
                start,
                attempt: (attempt + 1) as u32,
            })
            &&& denied ==> next.1 == (SpecAction::SetStatus { status: BatchStatus::Paused })
                && next.0 == (SpecPoint::SetPaused {
                error: outcome->Answered_0->Err_0@,
            })
            &&& !repeated && !denied ==> next.1 is LoadBatch && shows_before_the_next(next.0, work)
        }),
{
    if let LookupOutcome::Answered(Err(error)) = outcome {
        failures_without_the_secret_stay(error@, work.store.access_token@);
        failures_are_told_apart_by_code(error@);
    }
}

/// Whether progress is about to be shown, and then the next of the items in `work` comes.
pub open spec fn shows_before_the_next(point: SpecPoint, work: Work<Seq<BatchItem>>) -> bool {
    point matches Point::EmitJob { then: Then::Next { work: same }, .. } && same == work
}

/// How much time has passed from `start` to `now`.
pub open spec fn passed(start: u128, now: u128) -> int {
    if now > start {
        now - start
    } else {
        0
    }
}

/// The lookups of an item begin with the first look at the clock. Each has its turn ten seconds after
/// the one before, and until then is waited for.
pub proof fn lookups_wait_for_their_turn(
    request: Request,
    work: Work<Seq<BatchItem>>,
    item: BatchItem,
    start: u128,
    attempt: u32,
    now: u128,
)
    requires
        attempt < 3,
    ensures
        advance(request, SpecPoint::ClockStart { work, item }, Event::Clock(now)) == (
            SpecPoint::ClockElapsed { work, item, start: now, attempt: 0 },
            SpecAction::ReadClock,
        ),
        ({
            let next = advance(
                request,
                SpecPoint::ClockElapsed { work, item, start, attempt },
                Event::Clock(now),
            );
            let due = attempt * 10_000_000_000;
            &&& passed(start, now) < due ==> next.1 is Wait && next.1->Wait_delay == due - passed(
                start,
                now,
            ) && next.0 == (SpecPoint::Waiting { work, item, start, attempt })
            &&& passed(start, now) >= due ==> next == (
                SpecPoint::ClockRemaining { work, item, start, attempt },
                SpecAction::ReadClock,
            )
        }),
        advance(request, SpecPoint::Waiting { work, item, start, attempt }, Event::Resumed) == (
            SpecPoint::ClockRemaining { work, item, start, attempt },
            SpecAction::ReadClock,
        ),
{
}

/// The order of an item is looked for at the shop of the operation by the source identifier of the
/// item, for ten seconds at most and never beyond thirty from the first look at the clock; once
/// these are over it is not looked for any more.
pub proof fn orders_are_looked_for_by_their_source(
    request: Request,
    work: Work<Seq<BatchItem>>,
    item: BatchItem,
    start: u128,
    attempt: u32,
    now: u128,
)
    ensures
        ({
            let next = advance(
                request,
                SpecPoint::ClockRemaining { work, item, start, attempt },
                Event::Clock(now),
            );
            let left = 30_000_000_000 - passed(start, now);
            &&& left > 0 ==> {
                &&& next.1 is FindOrder
                &&& next.1->FindOrder_store == work.store
                &&& next.1->FindOrder_source == item.source_identifier
                &&& next.1->FindOrder_limit == if left < 10_000_000_000 {
                    left
                } else {
                    10_000_000_000
                }
                &&& next.0 == (SpecPoint::Lookup { work, item, start, attempt })
            }
            &&& left <= 0 ==> next.1 is LoadBatch && shows_before_the_next(next.0, work)
        }),
{
}

/// Before an item is submitted a stop is looked for. Where there is none, and its order can be made,
/// the item is claimed; where there is one, the operation comes to its end.
pub proof fn items_are_claimed_unless_a_stop_was_asked_for(
    request: Request,
    work: Work<Seq<BatchItem>>,
    item: BatchItem,
    template: OrderTemplate,
)
    requires
        work.frame == (Frame::Submitting { template }),
    ensures
        ({
            let point = SpecPoint::StopCheck { work, item };
            let stopped = advance(request, point, Event::StopRequested(true));
            let next = advance(request, point, Event::StopRequested(false));
            let problem = order_problem(
                template,
                item.source_identifier@,
                request.paid_confirmed,
            );
            &&& stopped == (
                SpecPoint::FinishList,
                SpecAction::ListItems { batch_id: request.batch_id },
            )
            &&& problem is None ==> next.1 == (SpecAction::Claim { item_id: item.id }) && next.0
                is Claim && next.0->Claim_work == work && next.0->Claim_item == item
            &&& problem matches Some(failure) ==> next == (
                SpecPoint::SetPaused { error: failure },
                SpecAction::SetStatus { status: BatchStatus::Paused },
            )
        }),
{
}

/// What follows once the progress of the batch `batch_id` was shown: the batch is loaded, its items
/// are listed, and both are shown as they are.
pub open spec fn after_showing(
    request: Request,
    point: SpecPoint,
    batch: LoadedBatch,
    items: Vec<BatchItem>,
) -> (SpecPoint, SpecAction) {
    let loaded = advance(request, point, Event::Loaded(Ok(batch)));
    let listed = advance(request, loaded.0, Event::Listed(Ok(items)));
    advance(request, listed.0, Event::Resumed)
}

/// Progress is shown of the batch that was loaded and the items that were listed, under the
/// identifier that they were asked for by.
pub proof fn progress_is_shown_of_what_was_loaded(
    request: Request,
    batch_id: String,
    then: Then<Failure, InputModel, Seq<BatchItem>>,
    batch: LoadedBatch,
    items: Vec<BatchItem>,
)
    ensures
        ({
            let loaded = advance(
                request,
                SpecPoint::EmitJob { batch_id, then },
                Event::Loaded(Ok(batch)),
            );
            let listed = advance(request, loaded.0, Event::Listed(Ok(items)));
            &&& loaded.1 == (SpecAction::ListItems { batch_id })
            &&& listed.1 is Publish
            &&& listed.1->progress.batch_id == batch_id
            &&& listed.1->progress.status == batch.job.status
            &&& listed.1->progress.total == batch.job.requested_count
            &&& listed.1->progress.items == items
            &&& listed.1->progress.succeeded == items@.filter(
                |item: BatchItem| item.status == BatchItemStatus::Succeeded,
            ).len()
            &&& listed.1->progress.failed == items@.filter(
                |item: BatchItem| item.status == BatchItemStatus::Failed,
            ).len()
            &&& listed.1->progress.uncertain == items@.filter(
                |item: BatchItem| item.status == BatchItemStatus::Uncertain,
            ).len()
            &&& listed.1->progress.queued == items@.filter(
                |item: BatchItem| item.status == BatchItemStatus::Queued,
            ).len()
            &&& listed.1->progress.stopped == items@.filter(
                |item: BatchItem| item.status == BatchItemStatus::Stopped,
            ).len()
            &&& listed.0 == (SpecPoint::Publishing { then })
        }),
{
    progress_shows_the_batch(batch_id, batch.job, items);
}

/// The item that an operation is at work on at `point`.
pub open spec fn item_at_hand(point: SpecPoint) -> Option<BatchItem> {
    match point {
        Point::ForcedClaim { item, .. } => Some(item),
        Point::Claim { item, .. } => Some(item),
        Point::Keeping { item, .. } => Some(item),
        Point::Doubting { item, .. } => Some(item),
        Point::ClockRemaining { item, .. } => Some(item),
        Point::Lookup { item, .. } => Some(item),
        Point::Recording { item, .. } => Some(item),
        _ => None,
    }
}

/// Progress is shown of the batch of the operation, or of that which the item at hand belongs to, and
/// that batch is loaded for it.
pub proof fn progress_is_shown_of_the_batch_at_work(
    request: Request,
    point: SpecPoint,
    event: Event,
)
    requires
        fits(point, event),
    ensures
        advance(request, point, event).0 matches Point::EmitJob { batch_id, .. } ==> {
            &&& advance(request, point, event).1 == (SpecAction::LoadBatch { batch_id })
            &&& batch_id == request.batch_id || (item_at_hand(point) matches Some(item) && batch_id
                == item.batch_id)
        },
        advance(request, point, event).0 matches Point::EmitItems { batch_id, job, then }
            ==> point matches Point::EmitJob { batch_id: same, then: still } && same == batch_id
            && still == then && (event matches Event::Loaded(Ok(batch)) && batch.job == job),
{
}

/// A claim that was taken is shown, and then the order of the claimed item is created at the shop of
/// the operation; a claim that was not taken ends the submission.
pub proof fn claimed_items_are_created(
    request: Request,
    work: Work<Seq<BatchItem>>,
    item: BatchItem,
    input: InputModel,
    batch: LoadedBatch,
    items: Vec<BatchItem>,
)
    ensures
        ({
            let point = SpecPoint::Claim { work, item, input };
            let taken = advance(request, point, Event::Claimed(Ok(true)));
            &&& taken.1 == (SpecAction::LoadBatch { batch_id: item.batch_id })
            &&& after_showing(request, taken.0, batch, items) == (
                SpecPoint::Create { work, item },
                SpecAction::CreateOrder { store: work.store, input },
            )
            &&& advance(request, point, Event::Claimed(Ok(false))) == (
                SpecPoint::FinishList,
                SpecAction::ListItems { batch_id: request.batch_id },
            )
        }),
{
}

/// What comes next among items that are gone through: the first that is left; and where none is, the
/// submission after settling, and the end after everything else.
pub open spec fn is_next(
    request: Request,
    work: Work<Seq<BatchItem>>,
    next: (SpecPoint, SpecAction),
) -> bool {
    if work.rest.len() == 0 || work.frame is Forcing {
        &&& next.1 == (SpecAction::ListItems { batch_id: request.batch_id })
        &&& work.frame matches Frame::Settling { template } ==> next.0 == (SpecPoint::SubmitList {
            template,
            store: work.store,
            selected: None,
        })
        &&& !(work.frame is Settling) ==> next.0 is FinishList
    } else {
        let left = Work { frame: work.frame, store: work.store, rest: work.rest.drop_first() };
        if work.frame is Submitting {
            next == (
                SpecPoint::StopCheck { work: left, item: work.rest.first() },
                SpecAction::CheckStop,
            )
        } else {
            next == (
                SpecPoint::ClockStart { work: left, item: work.rest.first() },
                SpecAction::ReadClock,
            )
        }
    }
}

/// An outcome that was stored is shown, and then the next item has its turn: after one that is known
/// at once, and after one that a lookup brought. An uncertain one is first looked for.
pub proof fn stored_outcomes_are_shown_before_the_next_item(
    request: Request,
    work: Work<Seq<BatchItem>>,
    item: BatchItem,
    batch: LoadedBatch,
    items: Vec<BatchItem>,
)
    ensures
        ({
            let kept = advance(
                request,
                SpecPoint::Keeping { work, item },
                Event::Stored(Ok(())),
            );
            let recorded = advance(
                request,
                SpecPoint::Recording { work, item },
                Event::Stored(Ok(())),
            );
            let doubted = advance(
                request,
                SpecPoint::Doubting { work, item },
                Event::Stored(Ok(())),
            );
            &&& kept.1 is LoadBatch
            &&& is_next(request, work, after_showing(request, kept.0, batch, items))
            &&& recorded.1 is LoadBatch
            &&& is_next(request, work, after_showing(request, recorded.0, batch, items))
            &&& doubted.1 is LoadBatch
            &&& after_showing(request, doubted.0, batch, items) == (
                SpecPoint::ClockStart { work, item },
                SpecAction::ReadClock,
            )
        }),
{
    assert(work.rest.skip(1) =~= work.rest.drop_first());
}

/// Once the lookups of an item are over, the next one has its turn.
pub proof fn items_that_were_looked_for_are_followed_by_the_next(
    request: Request,
    work: Work<Seq<BatchItem>>,
    point: SpecPoint,
    batch: LoadedBatch,
    items: Vec<BatchItem>,
)
    requires
        shows_before_the_next(point, work),
    ensures
        is_next(request, work, after_showing(request, point, batch, items)),
{
    assert(work.rest.skip(1) =~= work.rest.drop_first());
}

/// Where the shop denied access to a creation, the batch is paused once that is stored. A paused batch
/// is shown, and the operation ends with the error that paused it.
pub proof fn denials_pause_and_end_with_their_error(
    request: Request,
    error: Failure,
    stored: Result<(), AppError>,
    batch: LoadedBatch,
    items: Vec<BatchItem>,
)
    ensures
        advance(request, SpecPoint::Rejecting { error }, Event::Stored(Ok(()))) == (
            SpecPoint::SetPaused { error },
            SpecAction::SetStatus { status: BatchStatus::Paused },
        ),
        ({
            let paused = advance(request, SpecPoint::SetPaused { error }, Event::Stored(stored));
            &&& paused.1 == (SpecAction::LoadBatch { batch_id: request.batch_id })
            &&& after_showing(request, paused.0, batch, items) == (
                SpecPoint::Ended,
                SpecAction::Done { result: Err(error) },
            )
        }),
{
}

/// The failure that an event reports of storage.
pub open spec fn storage_error(event: Event) -> Option<AppError> {
    match event {
        Event::Loaded(Err(error)) => Some(error),
        Event::Listed(Err(error)) => Some(error),
        Event::Unlocked(Err(error)) => Some(error),
        Event::Requeued(Err(error)) => Some(error),
        Event::Claimed(Err(error)) => Some(error),
        Event::Stored(Err(error)) => Some(error),
        _ => None,
    }
}

/// A failure of storage before anything was done ends the operation with that error, and one while it
/// is at work pauses the batch with that error.
pub proof fn storage_failures_keep_their_error(
    request: Request,
    point: SpecPoint,
    event: Event,
    error: AppError,
)
    requires
        fits(point, event),
        storage_error(event) == Some(error),
    ensures
        ({
            let next = advance(request, point, event);
            &&& point is RunStatus || point is Validate || point is RequireRecovered || point
                is ForceFind || point is ForceJob ==> next == (
                SpecPoint::Ended,
                SpecAction::Done { result: Err(error@) },
            )
            &&& is_at_work(point) ==> next == (
                SpecPoint::SetPaused { error: error@ },
                SpecAction::SetStatus { status: BatchStatus::Paused },
            )
        }),
{
}

/// The first thing that each operation does. A run, and going on, look at the batch; trying failed
/// items again and forcing one look at the items, a forced attempt only where its risk is confirmed;
/// stopping stops, and reconciling first recovers what was interrupted.
pub proof fn operations_begin_as_they_are_asked(request: Request)
    ensures
        request.kind is Run || request.kind is Resume ==> begin(request).1 == (
        SpecAction::LoadBatch { batch_id: request.batch_id }),
        request.kind is Run ==> begin(request).0 is RunStatus,
        request.kind is Resume ==> begin(request).0 is Validate,
        request.kind is RetryFailed || (request.kind is Force && request.kind->risk_confirmed)
            ==> begin(request) == (
            SpecPoint::RequireRecovered,
            SpecAction::ListItems { batch_id: request.batch_id },
        ),
        request.kind is Stop ==> begin(request) == (SpecPoint::Stopping, SpecAction::StopBatch),
        request.kind is Reconcile ==> begin(request) == (
            SpecPoint::Recovering,
            SpecAction::RecoverInterrupted,
        ),
        request.kind is Force && !request.kind->risk_confirmed ==> begin(request).0 is Ended && (
        begin(request).1 matches Action::Done { result: Err(failure) } && failure.code
            == "DUPLICATE_RISK_CONFIRMATION_REQUIRED"@),
{
}

/// A batch is run for the first time just where it waits to run; any other has to be resumed.
pub proof fn only_pending_batches_are_run(request: Request, batch: LoadedBatch)
    ensures
        ({
            let next = advance(request, SpecPoint::RunStatus, Event::Loaded(Ok(batch)));
            &&& batch.job.status@ == "pending"@ ==> next == (
                SpecPoint::Validate,
                SpecAction::LoadBatch { batch_id: request.batch_id },
            )
            &&& batch.job.status@ != "pending"@ ==> next.0 is Ended && (next.1 matches Action::Done {
                result: Err(failure),
            } && failure.code == "BATCH_RESUME_REQUIRED"@)
        }),
{
}

/// Where a creation was interrupted, failed items are not tried again and none is forced before the
/// batch was resumed; otherwise the operation goes on.
pub proof fn interrupted_batches_have_to_be_resumed(
    request: Request,
    items: Vec<BatchItem>,
)
    ensures
        ({
            let next = advance(request, SpecPoint::RequireRecovered, Event::Listed(Ok(items)));
            let interrupted = exists|i: int|
                0 <= i < items@.len() && (#[trigger] items@[i]).status == BatchItemStatus::Creating;
            &&& interrupted ==> next.0 is Ended && (next.1 matches Action::Done {
                result: Err(failure),
            } && failure.code == "BATCH_RESUME_REQUIRED"@)
            &&& !interrupted && request.kind is Force ==> next == (
                SpecPoint::ForceFind,
                SpecAction::ListItems { batch_id: request.batch_id },
            )
            &&& !interrupted && !(request.kind is Force) ==> next == (
                SpecPoint::Validate,
                SpecAction::LoadBatch { batch_id: request.batch_id },
            )
        }),
{
}

proof fn the_first_that_is_chosen_is_taken(items: Seq<BatchItem>, item_id: Seq<char>, i: int)
    requires
        0 <= i <= items.len(),
        i < items.len() ==> items[i].id@ == item_id && items[i].status
            == BatchItemStatus::Uncertain,
        forall|k: int|
            0 <= k < i ==> !((#[trigger] items[k]).id@ == item_id && items[k].status
                == BatchItemStatus::Uncertain),
    ensures
        i < items.len() ==> chosen_of(items, item_id) == Some(items[i]),
        i == items.len() ==> chosen_of(items, item_id) is None,
    decreases items.len(),
{
    if items.len() > 0 && i > 0 {
        let rest = items.skip(1);
        assert(!is_chosen(items[0], item_id));
        assert forall|k: int| 0 <= k < i - 1 implies !((#[trigger] rest[k]).id@ == item_id
            && rest[k].status == BatchItemStatus::Uncertain) by {
            assert(rest[k] == items[k + 1]);
        }
        the_first_that_is_chosen_is_taken(rest, item_id, i - 1);
    }
}

/// A forced attempt takes up the item with the identifier that the user chose, where it is uncertain.
pub proof fn forced_attempts_take_the_chosen_item(
    request: Request,
    items: Vec<BatchItem>,
    i: int,
)
    requires
        request.kind is Force,
        0 <= i < items@.len(),
        items@[i].id@ == request.kind->item_id@,
        items@[i].status == BatchItemStatus::Uncertain,
        forall|k: int|
            0 <= k < i ==> !((#[trigger] items@[k]).id@ == request.kind->item_id@ && items@[k].status
                == BatchItemStatus::Uncertain),
    ensures
        advance(request, SpecPoint::ForceFind, Event::Listed(Ok(items))) == (
            SpecPoint::ForceJob { item: items@[i] },
            SpecAction::LoadBatch { batch_id: request.batch_id },
        ),
{
    the_first_that_is_chosen_is_taken(items@, request.kind->item_id@, i);
}

/// Where no uncertain item has the identifier that the user chose, nothing is forced.
pub proof fn only_uncertain_items_are_forced(request: Request, items: Vec<BatchItem>)
    requires
        request.kind is Force,
        forall|k: int|
            0 <= k < items@.len() ==> !((#[trigger] items@[k]).id@ == request.kind->item_id@
                && items@[k].status == BatchItemStatus::Uncertain),
    ensures
        ({
            let next = advance(request, SpecPoint::ForceFind, Event::Listed(Ok(items)));
            &&& next.0 is Ended
            &&& next.1 matches Action::Done { result: Err(failure) } && failure.code
                == "INVALID_ITEM_TRANSITION"@
        }),
{
    the_first_that_is_chosen_is_taken(items@, request.kind->item_id@, items@.len() as int);
}

/// Before anything is stored the template of the batch has to be one that orders can be made from,
/// under the source of the first item or that of the chosen one; what is wrong with it is the result.
pub proof fn unusable_templates_end_the_operation(
    request: Request,
    batch: LoadedBatch,
    item: BatchItem,
)
    ensures
        ({
            let validated = advance(request, SpecPoint::Validate, Event::Loaded(Ok(batch)));
            let forced = advance(request, SpecPoint::ForceJob { item }, Event::Loaded(Ok(batch)));
            &&& batch.template is None ==> {
                &&& validated.0 is Ended
                &&& validated.1 matches Action::Done { result: Err(failure) } && failure.code
                    == "INVALID_ORDER_TEMPLATE"@
                &&& forced == validated
            }
            &&& batch.template matches Some(template) ==> {
                let first = source_text(request.batch_id@, 1);
                &&& order_problem(template, first, request.paid_confirmed) matches Some(problem)
                    ==> validated == (SpecPoint::Ended, SpecAction::Done { result: Err(problem) })
                &&& order_problem(template, first, request.paid_confirmed) is None
                    ==> !(validated.0 is Ended)
                &&& order_problem(
                    template,
                    item.source_identifier@,
                    request.paid_confirmed,
                ) matches Some(problem) ==> forced == (
                    SpecPoint::Ended,
                    SpecAction::Done { result: Err(problem) },
                )
                &&& order_problem(
                    template,
                    item.source_identifier@,
                    request.paid_confirmed,
                ) is None ==> !(forced.0 is Ended)
            }
        }),
{
}

/// What follows an accepted template: a run executes the batch, going on first recovers what was
/// interrupted and queues what was stopped, and trying again queues what failed and then executes just
/// what was queued.
pub proof fn operations_go_on_as_they_are_asked(
    request: Request,
    batch: LoadedBatch,
    template: OrderTemplate,
    ids: Vec<String>,
)
    requires
        batch.template == Some(template),
        order_problem(
            template,
            source_text(request.batch_id@, 1),
            request.paid_confirmed,
        ) is None,
    ensures
        ({
            let next = advance(request, SpecPoint::Validate, Event::Loaded(Ok(batch)));
            let load = SpecAction::LoadBatch { batch_id: request.batch_id };
            let all = (SpecPoint::ExecJob { selected: None }, load);
            &&& request.kind is Run ==> next == all
            &&& request.kind is Resume ==> {
                let recovered = advance(request, next.0, Event::Stored(Ok(())));
                &&& next.1 is RecoverInterrupted
                &&& recovered.1 is ResumeStopped
                &&& advance(request, recovered.0, Event::Stored(Ok(()))) == all
            }
            &&& request.kind is RetryFailed ==> {
                let queued = advance(request, next.0, Event::Requeued(Ok(ids)));
                &&& next.1 is RequeueFailed
                &&& ids@.len() > 0 ==> queued == (SpecPoint::ExecJob { selected: Some(ids) }, load)
                &&& ids@.len() == 0 ==> queued.1 == load && (queued.0 matches Point::EmitJob {
                    then: Then::Closing,
                    ..
                })
            }
        }),
{
}

/// Executing a batch fetches the credentials of its store, sets it running, and lists its items: where
/// all are to be submitted, first those that are uncertain.
pub proof fn execution_prepares_the_batch(
    request: Request,
    batch: LoadedBatch,
    template: OrderTemplate,
    selected: Option<Vec<String>>,
    store_id: String,
    store: StoreCredentials,
)
    requires
        batch.template == Some(template),
        batch.job.store_id == Some(store_id),
    ensures
        ({
            let loaded = advance(
                request,
                SpecPoint::ExecJob { selected },
                Event::Loaded(Ok(batch)),
            );
            let unlocked = advance(request, loaded.0, Event::Unlocked(Ok(store)));
            let started = advance(request, unlocked.0, Event::Stored(Ok(())));
            &&& loaded.1 == (SpecAction::LoadCredentials { store_id })
            &&& unlocked.1 == (SpecAction::SetStatus { status: BatchStatus::Running })
            &&& started == (
                SpecPoint::SettleList { template, store, selected },
                SpecAction::ListItems { batch_id: request.batch_id },
            )
        }),
{
}

/// Without credentials nothing is executed: where the store of the batch was deleted, the batch is
/// paused; and so it is where its template cannot be read any more.
pub proof fn execution_needs_a_store_and_a_template(
    request: Request,
    batch: LoadedBatch,
    selected: Option<Vec<String>>,
)
    ensures
        ({
            let loaded = advance(
                request,
                SpecPoint::ExecJob { selected },
                Event::Loaded(Ok(batch)),
            );
            let checked = advance(request, SpecPoint::CheckJob, Event::Loaded(Ok(batch)));
            let pause = SpecAction::SetStatus { status: BatchStatus::Paused };
            &&& batch.template is None ==> loaded.1 == pause && (loaded.0 matches Point::SetPaused {
                error,
            } && error.code == "INVALID_ORDER_TEMPLATE"@)
            &&& batch.template is Some && batch.job.store_id is None ==> loaded.1 == pause && (
            loaded.0 matches Point::SetPaused { error } && error.code == "STORE_NOT_FOUND"@)
            &&& batch.job.store_id is None ==> checked.1 == pause && (checked.0
                matches Point::SetPaused { error } && error.code == "STORE_NOT_FOUND"@)
            &&& batch.job.store_id matches Some(store_id) ==> checked == (
                SpecPoint::Credentials { goal: Goal::Check },
                SpecAction::LoadCredentials { store_id },
            )
        }),
{
}

/// A reconciliation recovers what was interrupted, fetches the credentials of the store and lists the
/// items.
pub proof fn reconciliation_prepares_the_batch(
    request: Request,
    store: StoreCredentials,
)
    requires
        request.kind is Reconcile,
    ensures
        advance(request, SpecPoint::Recovering, Event::Stored(Ok(()))) == (
            SpecPoint::CheckJob,
            SpecAction::LoadBatch { batch_id: request.batch_id },
        ),
        advance(
            request,
            SpecPoint::Credentials { goal: Goal::Check },
            Event::Unlocked(Ok(store)),
        ) == (
            SpecPoint::CheckList { store },
            SpecAction::ListItems { batch_id: request.batch_id },
        ),
{
}

/// Where only some items are to be submitted, no others are looked for first.
pub proof fn selected_items_are_submitted_at_once(
    request: Request,
    template: OrderTemplate,
    store: StoreCredentials,
    selected: Option<Vec<String>>,
    items: Vec<BatchItem>,
)
    requires
        selected is Some,
    ensures
        advance(
            request,
            SpecPoint::SettleList { template, store, selected },
            Event::Listed(Ok(items)),
        ) == (
            SpecPoint::SubmitList { template, store, selected },
            SpecAction::ListItems { batch_id: request.batch_id },
        ),
{
}

/// A forced attempt waits for its way to be free, looks for a stop and at the batch, and claims the chosen
/// item unless the batch was stopped; then its order is created with the input that was made for it.
pub proof fn forced_attempts_claim_unless_stopped(
    request: Request,
    item: BatchItem,
    store: StoreCredentials,
    input: InputModel,
    batch: LoadedBatch,
    items: Vec<BatchItem>,
)
    ensures
        ({
            let unlocked = advance(
                request,
                SpecPoint::Credentials { goal: Goal::Force { item, input } },
                Event::Unlocked(Ok(store)),
            );
            let looked = advance(request, unlocked.0, Event::Resumed);
            let stopped = advance(request, looked.0, Event::StopRequested(true));
            let free = advance(request, looked.0, Event::StopRequested(false));
            let loaded = advance(request, free.0, Event::Loaded(Ok(batch)));
            let claimed = advance(
                request,
                SpecPoint::ForcedClaim { item, store, input },
                Event::Stored(Ok(())),
            );
            let halted = batch.job.status@ == "stopping"@ || batch.job.status@ == "paused"@;
            let pause = SpecAction::SetStatus { status: BatchStatus::Paused };
            &&& unlocked.1 is PassGate
            &&& looked.1 is CheckStop
            &&& stopped.1 == pause && (stopped.0 matches Point::SetPaused { error } && error.code
                == "BATCH_STOPPED"@)
            &&& free.1 == (SpecAction::LoadBatch { batch_id: request.batch_id })
            &&& halted ==> loaded.1 == pause && (loaded.0 matches Point::SetPaused { error }
                && error.code == "BATCH_STOPPED"@)
            &&& !halted ==> loaded == (
                SpecPoint::ForcedClaim { item, store, input },
                SpecAction::ClaimForced { item_id: item.id },
            )
            &&& claimed.1 == (SpecAction::LoadBatch { batch_id: item.batch_id })
            &&& after_showing(request, claimed.0, batch, items) == (
                SpecPoint::Create {
                    work: Work { frame: Frame::Forcing, store, rest: Seq::empty() },
                    item,
                },
                SpecAction::CreateOrder { store, input },
            )
        }),
{
}

/// A batch whose items were all gone through gets the status that its items earn, is shown, and the
/// operation ends well.
pub proof fn operations_end_with_the_status_of_the_items(
    request: Request,
    items: Vec<BatchItem>,
    batch: LoadedBatch,
    others: Vec<BatchItem>,
)
    ensures
        ({
            let listed = advance(request, SpecPoint::FinishList, Event::Listed(Ok(items)));
            let stored = advance(request, listed.0, Event::Stored(Ok(())));
            &&& listed.1 is SetStatus
            &&& (forall|i: int|
                0 <= i < items@.len() ==> (#[trigger] items@[i]).status
                    == BatchItemStatus::Succeeded) ==> listed.1->SetStatus_status
                == BatchStatus::Completed
            &&& (exists|i: int|
                0 <= i < items@.len() && ((#[trigger] items@[i]).status == BatchItemStatus::Queued
                    || items@[i].status == BatchItemStatus::Stopped || items@[i].status
                    == BatchItemStatus::Creating)) ==> listed.1->SetStatus_status
                == BatchStatus::Paused
            &&& (exists|i: int|
                0 <= i < items@.len() && ((#[trigger] items@[i]).status == BatchItemStatus::Failed
                    || items@[i].status == BatchItemStatus::Uncertain)) && (forall|i: int|
                0 <= i < items@.len() ==> ((#[trigger] items@[i]).status == BatchItemStatus::Failed
                    || items@[i].status == BatchItemStatus::Uncertain || items@[i].status
                    == BatchItemStatus::Succeeded)) ==> listed.1->SetStatus_status
                == BatchStatus::CompletedWithErrors
            &&& stored.1 == (SpecAction::LoadBatch { batch_id: request.batch_id })
            &&& after_showing(request, stored.0, batch, others) == (
                SpecPoint::Ended,
                SpecAction::Done { result: Ok(()) },
            )
        }),
{
    batches_end_as_their_items_do(items@);
}

/// A stop that was stored is shown, and the operation ends well. Where it cannot be shown, that is its
/// result.
pub proof fn stops_are_stored_and_shown(
    request: Request,
    batch: LoadedBatch,
    items: Vec<BatchItem>,
    error: AppError,
)
    ensures
        ({
            let stored = advance(request, SpecPoint::Stopping, Event::Stored(Ok(())));
            &&& stored.1 == (SpecAction::LoadBatch { batch_id: request.batch_id })
            &&& after_showing(request, stored.0, batch, items) == (
                SpecPoint::Ended,
                SpecAction::Done { result: Ok(()) },
            )
            &&& advance(request, stored.0, Event::Loaded(Err(error))) == (
                SpecPoint::Ended,
                SpecAction::Done { result: Err(error@) },
            )
        }),
{
}

/// Whether `event` is an answer to `action`.
pub open spec fn answers(action: SpecAction, event: Event) -> bool {
    match action {
        Action::LoadBatch { .. } => event is Loaded,
        Action::ListItems { .. } => event is Listed,
        Action::LoadCredentials { .. } => event is Unlocked,
        Action::RequeueFailed => event is Requeued,
        Action::Claim { .. } => event is Claimed,
        Action::CheckStop => event is StopRequested,
        Action::ReadClock => event is Clock,
        Action::CreateOrder { .. } => event is Created,
        Action::FindOrder { .. } => event is LookedUp,
        Action::PassGate | Action::Wait { .. } | Action::Publish { .. } => event is Resumed,
        Action::Done { .. } => false,
        _ => event is Stored,
    }
}

/// An operation waits for the answer to what it told its caller to do, and for nothing else; at its
/// end it waits for nothing.
pub proof fn operations_wait_for_an_answer(
    request: Request,
    point: SpecPoint,
    event: Event,
    answer: Event,
)
    requires
        fits(point, event),
    ensures
        fits(begin(request).0, answer) <==> answers(begin(request).1, answer),
        fits(advance(request, point, event).0, answer) <==> answers(
            advance(request, point, event).1,
            answer,
        ),
{
}

/// What the caller is told is seen as it is: each action as itself, with the values that it holds.
pub proof fn actions_are_seen_as_they_are(action: ExecAction)
    ensures
        match action {
            Action::LoadBatch { batch_id } => seen_action(action) == (SpecAction::LoadBatch {
                batch_id,
            }),
            Action::ListItems { batch_id } => seen_action(action) == (SpecAction::ListItems {
                batch_id,
            }),
            Action::LoadCredentials { store_id } => seen_action(action) == (
            SpecAction::LoadCredentials { store_id }),
            Action::RecoverInterrupted => seen_action(action) is RecoverInterrupted,
            Action::ResumeStopped => seen_action(action) is ResumeStopped,
            Action::RequeueFailed => seen_action(action) is RequeueFailed,
            Action::StopBatch => seen_action(action) is StopBatch,
            Action::SetStatus { status } => seen_action(action) == (SpecAction::SetStatus { status }),
            Action::CheckStop => seen_action(action) is CheckStop,
            Action::Claim { item_id } => seen_action(action) == (SpecAction::Claim { item_id }),
            Action::PassGate => seen_action(action) is PassGate,
            Action::ClaimForced { item_id } => seen_action(action) == (SpecAction::ClaimForced {
                item_id,
            }),
            Action::CreateOrder { store, input } => seen_action(action) == (
            SpecAction::CreateOrder { store, input: input@ }),
            Action::MarkSucceeded { item_id, order } => {
                let seen = seen_action(action);
                &&& seen is MarkSucceeded
                &&& seen->MarkSucceeded_item_id == item_id
                &&& seen->MarkSucceeded_order.id == order.id@
                &&& seen->MarkSucceeded_order.name == order.name@
            },
            Action::MarkFailed { item_id, error } => seen_action(action) == (
            SpecAction::MarkFailed { item_id, error: error@ }),
            Action::MarkUncertain { item_id, error } => seen_action(action) == (
            SpecAction::MarkUncertain { item_id, error: error@ }),
            Action::RequeueRejected { item_id, error } => seen_action(action) == (
            SpecAction::RequeueRejected { item_id, error: error@ }),
            Action::RecordReconciled { item_id, order } => {
                let seen = seen_action(action);
                &&& seen is RecordReconciled
                &&& seen->RecordReconciled_item_id == item_id
                &&& seen->RecordReconciled_order.id == order.id@
                &&& seen->RecordReconciled_order.name == order.name@
            },
            Action::ReadClock => seen_action(action) is ReadClock,
            Action::Wait { delay } => seen_action(action) == (SpecAction::Wait { delay }),
            Action::FindOrder { store, source, limit } => seen_action(action) == (
            SpecAction::FindOrder { store, source, limit }),
            Action::Publish { progress } => seen_action(action) == (SpecAction::Publish { progress }),
            Action::Done { result: Ok(_) } => seen_action(action) == (SpecAction::Done {
                result: Ok(()),
            }),
            Action::Done { result: Err(error) } => seen_action(action) == (SpecAction::Done {
                result: Err(error@),
            }),
        },
{
}

/// Where progress cannot be shown in the middle of the work, the batch is paused with that error; at
/// the end of a pause the first error stays the result.
pub proof fn progress_that_cannot_be_shown_pauses_the_batch(
    request: Request,
    batch_id: String,
    then: Then<Failure, InputModel, Seq<BatchItem>>,
    error: AppError,
)
    ensures
        ({
            let failed = advance(
                request,
                SpecPoint::EmitJob { batch_id, then },
                Event::Loaded(Err(error)),
            );
            &&& then matches Then::Pausing { error: first } ==> failed == (
                SpecPoint::Ended,
                SpecAction::Done { result: Err(first) },
            )
            &&& then is Closing ==> failed == (
                SpecPoint::Ended,
                SpecAction::Done { result: Err(error@) },
            )
            &&& !(then is Pausing) && !(then is Closing) ==> failed == (
                SpecPoint::SetPaused { error: error@ },
                SpecAction::SetStatus { status: BatchStatus::Paused },
            )
        }),
{
}

/// A forced attempt whose order can be made fetches the credentials of the store of the batch for the
/// chosen item; where the store was deleted, the batch is paused.
pub proof fn forced_attempts_fetch_the_credentials(
    request: Request,
    batch: LoadedBatch,
    item: BatchItem,
    template: OrderTemplate,
)
    requires
        batch.template == Some(template),
        order_problem(template, item.source_identifier@, request.paid_confirmed) is None,
    ensures
        ({
            let next = advance(request, SpecPoint::ForceJob { item }, Event::Loaded(Ok(batch)));
            &&& batch.job.store_id matches Some(store_id) ==> {
                &&& next.1 == (SpecAction::LoadCredentials { store_id })
                &&& next.0 matches Point::Credentials { goal: Goal::Force { item: same, input } }
                    && same == item && input.source_identifier == item.source_identifier@
            }
            &&& batch.job.store_id is None ==> next.1 == (SpecAction::SetStatus {
                status: BatchStatus::Paused,
            }) && (next.0 matches Point::SetPaused { error } && error.code == "STORE_NOT_FOUND"@)
        }),
{
}

/// Where the shop's answer holds the token, the marker stands in its place, and the rest of the answer
/// is stored as given, each part under its own name and for its own item.
pub proof fn answers_are_stored_with_the_token_removed(
    request: Request,
    work: Work<Seq<BatchItem>>,
    item: BatchItem,
    start: u128,
    attempt: u32,
    order: CreatedOrder,
    error: AppError,
)
    ensures
        ({
            let token = work.store.access_token@;
            let point = SpecPoint::Create { work, item };
            let look = SpecPoint::Lookup { work, item, start, attempt };
            let created = advance(request, point, Event::Created(Ok(order))).1;
            let found = advance(
                request,
                look,
                Event::LookedUp(LookupOutcome::Answered(Ok(Some(order)))),
            ).1;
            let failed = advance(request, point, Event::Created(Err(error))).1;
            let denied = advance(
                request,
                look,
                Event::LookedUp(LookupOutcome::Answered(Err(error))),
            );
            let told = Failure {
                code: concealed(error@.code, token),
                message: concealed(error@.message, token),
                retryable: error@.retryable,
            };
            let uncertain = item.status == BatchItemStatus::Uncertain;
            let access = is_about_access(told.code);
            let certain = told.code == "SHOPIFY_USER_ERROR"@ || told.code
                == "SHOPIFY_RATE_LIMITED"@;
            &&& created is MarkSucceeded
            &&& created->MarkSucceeded_item_id == item.id
            &&& created->MarkSucceeded_order.id == concealed(order.id@, token)
            &&& created->MarkSucceeded_order.name == concealed(order.name@, token)
            &&& found is RecordReconciled
            &&& found->RecordReconciled_item_id == item.id
            &&& found->RecordReconciled_order.id == concealed(order.id@, token)
            &&& found->RecordReconciled_order.name == concealed(order.name@, token)
            &&& failed == if uncertain || !(access || certain) {
                SpecAction::MarkUncertain { item_id: item.id, error: told }
            } else if access {
                SpecAction::RequeueRejected { item_id: item.id, error: told }
            } else {
                SpecAction::MarkFailed { item_id: item.id, error: told }
            }
            &&& is_about_access(error@.code) <==> denied.0 == (SpecPoint::SetPaused { error: told })
        }),
{
    failures_are_told_apart_by_code(
        concealed_failure(error@, work.store.access_token@),
    );
    failures_are_told_apart_by_code(error@);
}

} // verus!
