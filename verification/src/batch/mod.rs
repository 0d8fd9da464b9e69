//! Running a batch of orders: what is decided, and what is shown of it.
use vstd::prelude::*;

use crate::domain::{BatchItem, BatchItemStatus, BatchJob};
use crate::error::{lasting, AppError, Failure};
use crate::redact::{conceal, concealed, text_without_the_secret_stays};
use crate::shopify::graphql::{CreatedOrder, OrderModel};
use crate::text::{occurs, same_text};

pub mod bounds;
pub mod coverage;
pub mod laws;
pub mod machine;
pub mod operation;
pub mod outcomes;
pub mod registry;
pub mod repeats;
pub mod supply;

verus! {

/// How far a batch is, as it is shown.
#[derive(Debug, Clone)]
pub struct BatchProgress {
    pub batch_id: String,
    pub status: String,
    pub total: i64,
    pub succeeded: usize,
    pub failed: usize,
    pub uncertain: usize,
    pub queued: usize,
    pub stopped: usize,
    pub current_sequence: Option<i64>,
    pub items: Vec<BatchItem>,
}

/// Where progress is shown.
pub trait ProgressSink: Send + Sync {
    fn emit(&self, progress: BatchProgress);
}

/// A status that the program gives to a batch.
#[derive(Debug, Clone, Copy, PartialEq, Eq, Structural)]
pub enum BatchStatus {
    Running,
    Paused,
    Completed,
    CompletedWithErrors,
}

/// A status as it is stored.
pub open spec fn status_text(status: BatchStatus) -> Seq<char> {
    match status {
        BatchStatus::Running => "running"@,
        BatchStatus::Paused => "paused"@,
        BatchStatus::Completed => "completed"@,
        BatchStatus::CompletedWithErrors => "completed_with_errors"@,
    }
}

impl BatchStatus {
    /// The status as it is stored.
    pub fn text(self) -> (r: &'static str)
        ensures
            r@ == status_text(self),
    {
        match self {
            BatchStatus::Running => "running",
            BatchStatus::Paused => "paused",
            BatchStatus::Completed => "completed",
            BatchStatus::CompletedWithErrors => "completed_with_errors",
        }
    }
}

/// How many of `items` have the status `status`.
pub open spec fn count(items: Seq<BatchItem>, status: BatchItemStatus) -> nat
    decreases items.len(),
{
    if items.len() == 0 {
        0
    } else {
        count(items.drop_last(), status) + if items.last().status == status {
            1nat
        } else {
            0
        }
    }
}

/// The sequence number of the first of `items` that is being created.
pub open spec fn first_creating(items: Seq<BatchItem>) -> Option<i64>
    decreases items.len(),
{
    if items.len() == 0 {
        None
    } else if items[0].status == BatchItemStatus::Creating {
        Some(items[0].sequence_number)
    } else {
        first_creating(items.skip(1))
    }
}

/// What is shown of the batch `job` and its `items` under the identifier `batch_id`.
pub open spec fn shown(batch_id: String, job: BatchJob, items: Vec<BatchItem>) -> BatchProgress {
    BatchProgress {
        batch_id,
        status: job.status,
        total: job.requested_count,
        succeeded: count(items@, BatchItemStatus::Succeeded) as usize,
        failed: count(items@, BatchItemStatus::Failed) as usize,
        uncertain: count(items@, BatchItemStatus::Uncertain) as usize,
        queued: count(items@, BatchItemStatus::Queued) as usize,
        stopped: count(items@, BatchItemStatus::Stopped) as usize,
        current_sequence: first_creating(items@),
        items,
    }
}

/// Every item counts once: those of the shown statuses and those being created are all.
pub proof fn counts_add_up(items: Seq<BatchItem>)
    ensures
        count(items, BatchItemStatus::Succeeded) + count(items, BatchItemStatus::Failed) + count(
            items,
            BatchItemStatus::Uncertain,
        ) + count(items, BatchItemStatus::Queued) + count(items, BatchItemStatus::Stopped) + count(
            items,
            BatchItemStatus::Creating,
        ) == items.len(),
    decreases items.len(),
{
    if items.len() > 0 {
        counts_add_up(items.drop_last());
    }
}

/// How many of `items` have the status `status`.
pub fn count_items(items: &Vec<BatchItem>, status: BatchItemStatus) -> (r: usize)
    ensures
        r == count(items@, status),
{
    let mut n: usize = 0;
    let mut i: usize = 0;
    while i < items.len()
        invariant
            i <= items.len(),
            n <= i,
            n == count(items@.take(i as int), status),
        decreases items.len() - i,
    {
        assert(items@.take(i + 1).drop_last() == items@.take(i as int));
        if items[i].status == status {
            n = n + 1;
        }
        i = i + 1;
    }
    assert(items@.take(i as int) == items@);
    n
}

/// The sequence number of the first of `items` that is being created.
pub fn current_sequence(items: &Vec<BatchItem>) -> (r: Option<i64>)
    ensures
        r == first_creating(items@),
{
    let mut i: usize = 0;
    assert(items@.skip(0) == items@);
    while i < items.len()
        invariant
            i <= items.len(),
            first_creating(items@) == first_creating(items@.skip(i as int)),
        decreases items.len() - i,
    {
        assert(items@.skip(i as int).skip(1) == items@.skip(i + 1));
        if items[i].status == BatchItemStatus::Creating {
            return Some(items[i].sequence_number);
        }
        i = i + 1;
    }
    None
}

/// How far the batch `job` with `items` is.
pub fn progress_of(batch_id: String, job: BatchJob, items: Vec<BatchItem>) -> (r: BatchProgress)
    ensures
        r == shown(batch_id, job, items),
{
    let succeeded = count_items(&items, BatchItemStatus::Succeeded);
    let failed = count_items(&items, BatchItemStatus::Failed);
    let uncertain = count_items(&items, BatchItemStatus::Uncertain);
    let queued = count_items(&items, BatchItemStatus::Queued);
    let stopped = count_items(&items, BatchItemStatus::Stopped);
    let current = current_sequence(&items);
    BatchProgress {
        batch_id,
        status: job.status,
        total: job.requested_count,
        succeeded,
        failed,
        uncertain,
        queued,
        stopped,
        current_sequence: current,
        items,
    }
}

/// Whether work on an item is not at its end.
pub open spec fn is_open(item: BatchItem) -> bool {
    item.status == BatchItemStatus::Queued || item.status == BatchItemStatus::Stopped || item.status
        == BatchItemStatus::Creating
}

/// The status of a batch whose execution has come to an end.
pub open spec fn closing_status(items: Seq<BatchItem>) -> BatchStatus {
    if exists|i: int| 0 <= i < items.len() && is_open(#[trigger] items[i]) {
        BatchStatus::Paused
    } else if exists|i: int|
        0 <= i < items.len() && (#[trigger] items[i]).status != BatchItemStatus::Succeeded {
        BatchStatus::CompletedWithErrors
    } else {
        BatchStatus::Completed
    }
}

/// The status of a batch whose execution has come to an end: paused where an item is open,
/// completed where all have succeeded.
pub fn final_status(items: &Vec<BatchItem>) -> (r: BatchStatus)
    ensures
        r == closing_status(items@),
{
    let mut open: bool = false;
    let mut unsuccessful: bool = false;
    let mut i: usize = 0;
    while i < items.len()
        invariant
            i <= items.len(),
            open == exists|k: int| 0 <= k < i && is_open(#[trigger] items@[k]),
            unsuccessful == exists|k: int|
                0 <= k < i && (#[trigger] items@[k]).status != BatchItemStatus::Succeeded,
        decreases items.len() - i,
    {
        let status = items[i].status;
        assert(items@[i as int].status == status);
        open = open || status == BatchItemStatus::Queued || status == BatchItemStatus::Stopped
            || status == BatchItemStatus::Creating;
        unsuccessful = unsuccessful || status != BatchItemStatus::Succeeded;
        i = i + 1;
    }
    if open {
        BatchStatus::Paused
    } else if unsuccessful {
        BatchStatus::CompletedWithErrors
    } else {
        BatchStatus::Completed
    }
}

/// A batch is completed just where each of its items has succeeded, and paused just where one of
/// them is open.
pub proof fn closing_statuses_are_earned(items: Seq<BatchItem>)
    ensures
        closing_status(items) == BatchStatus::Completed <==> forall|i: int|
            0 <= i < items.len() ==> (#[trigger] items[i]).status == BatchItemStatus::Succeeded,
        closing_status(items) == BatchStatus::Paused <==> exists|i: int|
            0 <= i < items.len() && is_open(#[trigger] items[i]),
{
    if exists|i: int| 0 <= i < items.len() && is_open(#[trigger] items[i]) {
        let i = choose|i: int| 0 <= i < items.len() && is_open(#[trigger] items[i]);
        assert(items[i].status != BatchItemStatus::Succeeded);
    }
}

/// Whether `failure` concerns the access to the shop rather than one order.
pub open spec fn is_access_failure(failure: Failure) -> bool {
    ||| failure.code == "SHOPIFY_UNAUTHORIZED"@
    ||| failure.code == "SHOPIFY_FORBIDDEN"@
    ||| failure.code == "SHOPIFY_CREDENTIALS"@
    ||| failure.code == "CUSTOMER_DATA_RESTRICTED"@
    ||| failure.code == "INVALID_SHOP_DOMAIN"@
}

/// Whether `error` concerns the access to the shop rather than one order.
pub fn is_access_error(error: &AppError) -> (r: bool)
    ensures
        r == is_access_failure(error@),
{
    let code = error.code();
    same_text(code, "SHOPIFY_UNAUTHORIZED") || same_text(code, "SHOPIFY_FORBIDDEN") || same_text(
        code,
        "SHOPIFY_CREDENTIALS",
    ) || same_text(code, "CUSTOMER_DATA_RESTRICTED") || same_text(code, "INVALID_SHOP_DOMAIN")
}

/// Whether `failure` says for certain that the order was not created.
pub open spec fn is_definite_rejection(failure: Failure) -> bool {
    failure.code == "SHOPIFY_USER_ERROR"@ || failure.code == "SHOPIFY_RATE_LIMITED"@
}

/// Whether `error` says for certain that the order was not created.
pub fn is_rejection(error: &AppError) -> (r: bool)
    ensures
        r == is_definite_rejection(error@),
{
    same_text(error.code(), "SHOPIFY_USER_ERROR") || same_text(error.code(), "SHOPIFY_RATE_LIMITED")
}

/// `order` with the marker in place of each `token`.
pub open spec fn concealed_order(order: OrderModel, token: Seq<char>) -> OrderModel {
    OrderModel { id: concealed(order.id, token), name: concealed(order.name, token) }
}

/// `order` with the marker in place of each `token`.
pub fn sanitize_order(order: CreatedOrder, token: &str) -> (r: CreatedOrder)
    ensures
        r@ == concealed_order(order@, token@),
{
    CreatedOrder {
        id: conceal(order.id.as_str(), token),
        name: conceal(order.name.as_str(), token),
    }
}

/// The failure for an operation on a batch that another one is at work on.
pub open spec fn busy() -> Failure {
    lasting("BATCH_BUSY"@, "此批次正在执行，请等待当前操作完成"@)
}

proof fn counting_is_filtering(items: Seq<BatchItem>, status: BatchItemStatus)
    ensures
        count(items, status) == items.filter(|item: BatchItem| item.status == status).len(),
        count(items, status) <= items.len(),
    decreases items.len(),
{
    reveal(Seq::filter);
    if items.len() > 0 {
        counting_is_filtering(items.drop_last(), status);
    }
}

/// What is shown of a batch is the batch: its identifier, status and size, its items, and of each
/// status the number of items that have it.
pub proof fn progress_shows_the_batch(batch_id: String, job: BatchJob, items: Vec<BatchItem>)
    ensures
        ({
            let progress = shown(batch_id, job, items);
            &&& progress.batch_id@ == batch_id@
            &&& progress.status@ == job.status@
            &&& progress.total == job.requested_count
            &&& progress.items@ == items@
            &&& progress.succeeded == items@.filter(
                |item: BatchItem| item.status == BatchItemStatus::Succeeded,
            ).len()
            &&& progress.failed == items@.filter(
                |item: BatchItem| item.status == BatchItemStatus::Failed,
            ).len()
            &&& progress.uncertain == items@.filter(
                |item: BatchItem| item.status == BatchItemStatus::Uncertain,
            ).len()
            &&& progress.queued == items@.filter(
                |item: BatchItem| item.status == BatchItemStatus::Queued,
            ).len()
            &&& progress.stopped == items@.filter(
                |item: BatchItem| item.status == BatchItemStatus::Stopped,
            ).len()
        }),
{
    assert(items.len() == items@.len());
    counting_is_filtering(items@, BatchItemStatus::Succeeded);
    counting_is_filtering(items@, BatchItemStatus::Failed);
    counting_is_filtering(items@, BatchItemStatus::Uncertain);
    counting_is_filtering(items@, BatchItemStatus::Queued);
    counting_is_filtering(items@, BatchItemStatus::Stopped);
}

/// Counting a status adds one for each item that has it, wherever the item stands.
pub proof fn each_item_counts_for_its_status(
    before: Seq<BatchItem>,
    item: BatchItem,
    after: Seq<BatchItem>,
    status: BatchItemStatus,
)
    ensures
        count(before + seq![item] + after, status) == count(before + after, status) + (if item.status
            == status {
            1nat
        } else {
            0
        }),
    decreases after.len(),
{
    if after.len() == 0 {
        assert((before + seq![item] + after).drop_last() == before);
        assert(before + after == before);
    } else {
        each_item_counts_for_its_status(before, item, after.drop_last(), status);
        assert((before + seq![item] + after).drop_last() == before + seq![item]
            + after.drop_last());
        assert((before + after).drop_last() == before + after.drop_last());
        assert((before + after).last() == after.last());
        assert((before + seq![item] + after).last() == after.last());
    }
}

/// The current item that is shown is the first that is being created; where none is, none is shown.
pub proof fn the_current_item_is_the_first_being_created(
    batch_id: String,
    job: BatchJob,
    items: Vec<BatchItem>,
    i: int,
)
    requires
        0 <= i < items@.len(),
        items@[i].status == BatchItemStatus::Creating,
        forall|k: int| 0 <= k < i ==> (#[trigger] items@[k]).status != BatchItemStatus::Creating,
    ensures
        shown(batch_id, job, items).current_sequence == Some(items@[i].sequence_number),
{
    first_creating_is_first(items@, i);
}

proof fn first_creating_is_first(items: Seq<BatchItem>, i: int)
    requires
        0 <= i < items.len(),
        items[i].status == BatchItemStatus::Creating,
        forall|k: int| 0 <= k < i ==> (#[trigger] items[k]).status != BatchItemStatus::Creating,
    ensures
        first_creating(items) == Some(items[i].sequence_number),
    decreases i,
{
    if i > 0 {
        let rest = items.skip(1);
        assert(items[0].status != BatchItemStatus::Creating);
        assert forall|k: int| 0 <= k < i - 1 implies (#[trigger] rest[k]).status
            != BatchItemStatus::Creating by {
            assert(rest[k] == items[k + 1]);
        }
        first_creating_is_first(rest, i - 1);
    }
}

/// Where nothing is being created, no current item is shown.
pub proof fn nothing_is_current_where_nothing_is_created(
    batch_id: String,
    job: BatchJob,
    items: Vec<BatchItem>,
)
    requires
        forall|k: int|
            0 <= k < items@.len() ==> (#[trigger] items@[k]).status != BatchItemStatus::Creating,
    ensures
        shown(batch_id, job, items).current_sequence is None,
{
    none_is_first(items@);
}

proof fn none_is_first(items: Seq<BatchItem>)
    requires
        forall|k: int|
            0 <= k < items.len() ==> (#[trigger] items[k]).status != BatchItemStatus::Creating,
    ensures
        first_creating(items) is None,
    decreases items.len(),
{
    if items.len() > 0 {
        let rest = items.skip(1);
        assert(items[0].status != BatchItemStatus::Creating);
        assert forall|k: int| 0 <= k < rest.len() implies (#[trigger] rest[k]).status
            != BatchItemStatus::Creating by {
            assert(rest[k] == items[k + 1]);
        }
        none_is_first(rest);
    }
}

/// A batch ends as completed where every item has succeeded, as paused where the turn of an item is
/// still to come or was taken from it, and as completed with errors otherwise.
pub proof fn batches_end_as_their_items_do(items: Seq<BatchItem>)
    ensures
        closing_status(items) == BatchStatus::Completed <==> forall|i: int|
            0 <= i < items.len() ==> (#[trigger] items[i]).status == BatchItemStatus::Succeeded,
        closing_status(items) == BatchStatus::Paused <==> exists|i: int|
            0 <= i < items.len() && ((#[trigger] items[i]).status == BatchItemStatus::Queued
                || items[i].status == BatchItemStatus::Stopped || items[i].status
                == BatchItemStatus::Creating),
        closing_status(items) == BatchStatus::CompletedWithErrors <==> (exists|i: int|
            0 <= i < items.len() && ((#[trigger] items[i]).status == BatchItemStatus::Failed
                || items[i].status == BatchItemStatus::Uncertain)) && (forall|i: int|
            0 <= i < items.len() ==> ((#[trigger] items[i]).status == BatchItemStatus::Failed
                || items[i].status == BatchItemStatus::Uncertain || items[i].status
                == BatchItemStatus::Succeeded)),
{
    closing_statuses_are_earned(items);
    if exists|i: int| 0 <= i < items.len() && is_open(#[trigger] items[i]) {
        let i = choose|i: int| 0 <= i < items.len() && is_open(#[trigger] items[i]);
        assert(items[i].status != BatchItemStatus::Succeeded);
    } else if exists|i: int|
        0 <= i < items.len() && (#[trigger] items[i]).status != BatchItemStatus::Succeeded {
        let i = choose|i: int|
            0 <= i < items.len() && (#[trigger] items[i]).status != BatchItemStatus::Succeeded;
        assert(!is_open(items[i]));
        assert forall|k: int| 0 <= k < items.len() implies ((#[trigger] items[k]).status
            == BatchItemStatus::Failed || items[k].status == BatchItemStatus::Uncertain
            || items[k].status == BatchItemStatus::Succeeded) by {
            assert(!is_open(items[k]));
        }
    }
}

/// Which failures concern the access to the shop, and which reject one order for certain.
pub proof fn failures_are_told_apart_by_code(failure: Failure)
    ensures
        is_access_failure(failure) <==> seq![
            "SHOPIFY_UNAUTHORIZED"@,
            "SHOPIFY_FORBIDDEN"@,
            "SHOPIFY_CREDENTIALS"@,
            "CUSTOMER_DATA_RESTRICTED"@,
            "INVALID_SHOP_DOMAIN"@,
        ].contains(failure.code),
        is_definite_rejection(failure) <==> seq![
            "SHOPIFY_USER_ERROR"@,
            "SHOPIFY_RATE_LIMITED"@,
        ].contains(failure.code),
{
    let access = seq![
        "SHOPIFY_UNAUTHORIZED"@,
        "SHOPIFY_FORBIDDEN"@,
        "SHOPIFY_CREDENTIALS"@,
        "CUSTOMER_DATA_RESTRICTED"@,
        "INVALID_SHOP_DOMAIN"@,
    ];
    let rejection = seq!["SHOPIFY_USER_ERROR"@, "SHOPIFY_RATE_LIMITED"@];
    assert(access[0] == "SHOPIFY_UNAUTHORIZED"@ && access[1] == "SHOPIFY_FORBIDDEN"@ && access[2]
        == "SHOPIFY_CREDENTIALS"@ && access[3] == "CUSTOMER_DATA_RESTRICTED"@ && access[4]
        == "INVALID_SHOP_DOMAIN"@);
    assert(rejection[0] == "SHOPIFY_USER_ERROR"@ && rejection[1] == "SHOPIFY_RATE_LIMITED"@);
}

/// An order that does not hold the token is kept as it is, its identifier as the identifier and its
/// name as the name.
pub proof fn orders_without_the_token_stay(order: OrderModel, token: Seq<char>)
    requires
        token.len() > 0 ==> !occurs(order.id, token) && !occurs(order.name, token),
    ensures
        concealed_order(order, token).id == order.id,
        concealed_order(order, token).name == order.name,
{
    text_without_the_secret_stays(order.id, token);
    text_without_the_secret_stays(order.name, token);
}

} // verus!
