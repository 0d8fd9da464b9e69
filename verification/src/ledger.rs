//! What is stored of a batch, and how the state of its items may change.
use vstd::prelude::*;

use crate::batch::{status_text, BatchStatus};
use crate::domain::{optional, BatchItem, BatchItemStatus, BatchJob, BatchSize};
use crate::error::{lasting, AppError, Failure};
use crate::identifier::{
    is_source, is_uuid_text, made_sources_name_their_batch, new_uuid, source_batch,
    source_identifier, source_text, sources_are_unique,
};
use crate::outside::current_timestamp;
use crate::shopify::graphql::{CreatedOrder, OrderModel};
use crate::text::{contents, decimal, same_text};

verus! {

/// A forced attempt that the user confirmed.
#[derive(Debug, Clone, PartialEq, Eq)]
pub struct ForcedRetryAttempt {
    pub item_id: String,
    pub attempt_number: i64,
    pub risk_confirmed: bool,
    pub confirmed_at: String,
}

/// What stands in an item.
#[verifier::ext_equal]
pub struct ItemModel {
    pub id: Seq<char>,
    pub batch_id: Seq<char>,
    pub sequence_number: i64,
    pub source_identifier: Seq<char>,
    pub status: BatchItemStatus,
    pub attempt_count: i64,
    pub shopify_order_id: Option<Seq<char>>,
    pub shopify_order_name: Option<Seq<char>>,
    pub error_code: Option<Seq<char>>,
    pub error_message: Option<Seq<char>>,
    pub created_at: Seq<char>,
    pub updated_at: Seq<char>,
}

impl View for BatchItem {
    type V = ItemModel;

    open spec fn view(&self) -> ItemModel {
        ItemModel {
            id: self.id@,
            batch_id: self.batch_id@,
            sequence_number: self.sequence_number,
            source_identifier: self.source_identifier@,
            status: self.status,
            attempt_count: self.attempt_count,
            shopify_order_id: optional(self.shopify_order_id),
            shopify_order_name: optional(self.shopify_order_name),
            error_code: optional(self.error_code),
            error_message: optional(self.error_message),
            created_at: self.created_at@,
            updated_at: self.updated_at@,
        }
    }
}

/// What stands in each item.
pub open spec fn models(items: Seq<BatchItem>) -> Seq<ItemModel> {
    items.map_values(|item: BatchItem| item@)
}

/// What happens to an item.
#[derive(Debug)]
pub enum Change {
    /// Its order is about to be created.
    Claim,
    /// Its order is about to be created once more, by force.
    Force,
    /// Its order was created.
    Succeed(CreatedOrder),
    /// Its order was rejected for certain.
    Fail(AppError),
    /// What became of its order is unknown.
    Doubt(AppError),
    /// The shop denied access before its order was created.
    Reject(AppError),
    /// Its order was found.
    Reconcile(CreatedOrder),
    /// The program ended while its order was being created.
    Interrupt,
    /// The batch was stopped before its turn.
    Stop,
    /// The batch goes on.
    Resume,
    /// It is tried again.
    Retry,
}

/// The status that an item must have for `change`, and the one that it then has.
pub open spec fn path_of(change: Change) -> (BatchItemStatus, BatchItemStatus) {
    match change {
        Change::Claim => (BatchItemStatus::Queued, BatchItemStatus::Creating),
        Change::Force => (BatchItemStatus::Uncertain, BatchItemStatus::Creating),
        Change::Succeed(_) => (BatchItemStatus::Creating, BatchItemStatus::Succeeded),
        Change::Fail(_) => (BatchItemStatus::Creating, BatchItemStatus::Failed),
        Change::Doubt(_) => (BatchItemStatus::Creating, BatchItemStatus::Uncertain),
        Change::Reject(_) => (BatchItemStatus::Creating, BatchItemStatus::Queued),
        Change::Reconcile(_) => (BatchItemStatus::Uncertain, BatchItemStatus::Succeeded),
        Change::Interrupt => (BatchItemStatus::Creating, BatchItemStatus::Uncertain),
        Change::Stop => (BatchItemStatus::Queued, BatchItemStatus::Stopped),
        Change::Resume => (BatchItemStatus::Stopped, BatchItemStatus::Queued),
        Change::Retry => (BatchItemStatus::Failed, BatchItemStatus::Queued),
    }
}

/// Whether `change` begins an attempt.
pub open spec fn begins_attempt(change: Change) -> bool {
    change is Claim || change is Force
}

/// Whether `change` may happen to an item: it has the status for it, and its attempts can be
/// counted.
pub open spec fn allows(item: ItemModel, change: Change) -> bool {
    item.status == path_of(change).0 && (begins_attempt(change) ==> item.attempt_count < i64::MAX)
}

/// The failure for a change that an item does not allow.
pub open spec fn illegal_change() -> Failure {
    lasting("INVALID_ITEM_TRANSITION"@, "批次项当前状态不允许此操作"@)
}

/// The failure that an interrupted creation leaves.
pub open spec fn interruption() -> Failure {
    lasting("PROCESS_INTERRUPTED"@, "程序在创建订单时中断，请核对订单结果"@)
}

/// The item after `change` at the time `now`. An attempt that begins, and an order that exists,
/// leave no error behind.
pub open spec fn changed(item: ItemModel, change: Change, now: Seq<char>) -> ItemModel {
    let order: Option<OrderModel> = match change {
        Change::Succeed(order) => Some(order@),
        Change::Reconcile(order) => Some(order@),
        _ => None,
    };
    let error: Option<Failure> = match change {
        Change::Fail(error) => Some(error@),
        Change::Doubt(error) => Some(error@),
        Change::Reject(error) => Some(error@),
        Change::Interrupt => Some(interruption()),
        _ => None,
    };
    let clears = begins_attempt(change) || order is Some;
    ItemModel {
        status: path_of(change).1,
        attempt_count: if begins_attempt(change) {
            (item.attempt_count + 1) as i64
        } else {
            item.attempt_count
        },
        shopify_order_id: match order {
            Some(order) => Some(order.id),
            None => item.shopify_order_id,
        },
        shopify_order_name: match order {
            Some(order) => Some(order.name),
            None => item.shopify_order_name,
        },
        error_code: match error {
            Some(error) => Some(error.code),
            None => if clears {
                None
            } else {
                item.error_code
            },
        },
        error_message: match error {
            Some(error) => Some(error.message),
            None => if clears {
                None
            } else {
                item.error_message
            },
        },
        updated_at: now,
        ..item
    }
}

/// Whatever happens to an item, it keeps what identifies it, and no attempt is forgotten.
pub proof fn changes_keep_the_identity(item: ItemModel, change: Change, now: Seq<char>)
    requires
        allows(item, change),
    ensures
        ({
            let after = changed(item, change, now);
            &&& after.id == item.id
            &&& after.batch_id == item.batch_id
            &&& after.sequence_number == item.sequence_number
            &&& after.source_identifier == item.source_identifier
            &&& after.created_at == item.created_at
            &&& after.attempt_count >= item.attempt_count
            &&& after.attempt_count > item.attempt_count <==> after.status
                == BatchItemStatus::Creating
        }),
{
}

/// An item whose order is known to exist does not change any more.
pub proof fn success_is_final(item: ItemModel, change: Change)
    requires
        item.status == BatchItemStatus::Succeeded,
    ensures
        !allows(item, change),
{
}

/// An uncertain item changes only by force or by finding its order.
pub proof fn doubt_ends_by_force_or_by_finding(item: ItemModel, change: Change)
    requires
        item.status == BatchItemStatus::Uncertain,
        allows(item, change),
    ensures
        change is Force || change is Reconcile,
{
}

/// The status that an item must have for `change`, and the one that it then has.
fn path(change: &Change) -> (r: (BatchItemStatus, BatchItemStatus))
    ensures
        r == path_of(*change),
{
    match change {
        Change::Claim => (BatchItemStatus::Queued, BatchItemStatus::Creating),
        Change::Force => (BatchItemStatus::Uncertain, BatchItemStatus::Creating),
        Change::Succeed(_) => (BatchItemStatus::Creating, BatchItemStatus::Succeeded),
        Change::Fail(_) => (BatchItemStatus::Creating, BatchItemStatus::Failed),
        Change::Doubt(_) => (BatchItemStatus::Creating, BatchItemStatus::Uncertain),
        Change::Reject(_) => (BatchItemStatus::Creating, BatchItemStatus::Queued),
        Change::Reconcile(_) => (BatchItemStatus::Uncertain, BatchItemStatus::Succeeded),
        Change::Interrupt => (BatchItemStatus::Creating, BatchItemStatus::Uncertain),
        Change::Stop => (BatchItemStatus::Queued, BatchItemStatus::Stopped),
        Change::Resume => (BatchItemStatus::Stopped, BatchItemStatus::Queued),
        Change::Retry => (BatchItemStatus::Failed, BatchItemStatus::Queued),
    }
}

/// Whether `change` may happen to `item`.
pub fn may_change(item: &BatchItem, change: &Change) -> (r: bool)
    ensures
        r == allows(item@, *change),
{
    let begins = matches!(change, Change::Claim | Change::Force);
    item.status == path(change).0 && (!begins || item.attempt_count < i64::MAX)
}

/// The item after `change` at the time `now`.
pub fn change_item(item: BatchItem, change: &Change, now: &str) -> (r: Result<BatchItem, AppError>)
    ensures
        match r {
            Ok(after) => allows(item@, *change) && after@ == changed(item@, *change, now@),
            Err(e) => !allows(item@, *change) && e@ == illegal_change(),
        },
{
    if !may_change(&item, change) {
        return Err(
            AppError::validation("INVALID_ITEM_TRANSITION", "批次项当前状态不允许此操作"),
        );
    }
    let mut item = item;
    let ghost before = item@;
    item.status = path(change).1;
    item.updated_at = now.to_owned();
    match change {
        Change::Claim | Change::Force => {
            item.attempt_count = item.attempt_count + 1;
            item.error_code = None;
            item.error_message = None;
        },
        Change::Succeed(order) | Change::Reconcile(order) => {
            item.shopify_order_id = Some(order.id.clone());
            item.shopify_order_name = Some(order.name.clone());
            item.error_code = None;
            item.error_message = None;
        },
        Change::Fail(error) | Change::Doubt(error) | Change::Reject(error) => {
            item.error_code = Some(error.code().to_owned());
            item.error_message = Some(error.message().to_owned());
        },
        Change::Interrupt => {
            item.error_code = Some("PROCESS_INTERRUPTED".to_owned());
            item.error_message = Some("程序在创建订单时中断，请核对订单结果".to_owned());
        },
        Change::Stop | Change::Resume | Change::Retry => {},
    }
    assert(item@ == changed(before, *change, now@));
    Ok(item)
}

/// The position of the first item with the identifier `item_id`; their number where there is none.
pub open spec fn position(items: Seq<ItemModel>, item_id: Seq<char>) -> int
    decreases items.len(),
{
    if items.len() == 0 || items[0].id == item_id {
        0
    } else {
        1 + position(items.skip(1), item_id)
    }
}

/// Whether `items` hold one with the identifier `item_id` that allows `change`.
pub open spec fn allows_one(items: Seq<ItemModel>, item_id: Seq<char>, change: Change) -> bool {
    position(items, item_id) < items.len() && allows(items[position(items, item_id)], change)
}

/// The items after `change` happened to the one with the identifier `item_id`.
pub open spec fn changed_one(
    items: Seq<ItemModel>,
    item_id: Seq<char>,
    change: Change,
    now: Seq<char>,
) -> Seq<ItemModel> {
    let at = position(items, item_id);
    items.update(at, changed(items[at], change, now))
}

/// The items after `change` happened to each that allows it.
pub open spec fn changed_all(items: Seq<ItemModel>, change: Change, now: Seq<char>) -> Seq<
    ItemModel,
> {
    items.map_values(
        |item: ItemModel|
            if allows(item, change) {
                changed(item, change, now)
            } else {
                item
            },
    )
}

/// The position of the first item with the identifier `item_id`.
fn find_item(items: &Vec<BatchItem>, item_id: &str) -> (r: usize)
    ensures
        r == position(models(items@), item_id@),
        r <= items.len(),
{
    let ghost all = models(items@);
    let mut i: usize = 0;
    assert(all.skip(0) == all);
    while i < items.len()
        invariant
            i <= items.len(),
            all == models(items@),
            position(all, item_id@) == i + position(all.skip(i as int), item_id@),
        decreases items.len() - i,
    {
        assert(all.skip(i as int)[0] == items@[i as int]@);
        assert(all.skip(i as int).skip(1) == all.skip(i + 1));
        if same_text(items[i].id.as_str(), item_id) {
            return i;
        }
        i = i + 1;
    }
    i
}

/// Lets `change` happen to the item with the identifier `item_id`.
fn change_one(items: &mut Vec<BatchItem>, item_id: &str, change: &Change, now: &str) -> (r: Result<
    (),
    AppError,
>)
    ensures
        match r {
            Ok(_) => allows_one(models(old(items)@), item_id@, *change) && models(final(items)@)
                == changed_one(models(old(items)@), item_id@, *change, now@),
            Err(e) => !allows_one(models(old(items)@), item_id@, *change) && *final(items) == *old(
                items,
            ) && e@ == illegal_change(),
        },
{
    let i: usize = find_item(items, item_id);
    if i == items.len() {
        return Err(
            AppError::validation("INVALID_ITEM_TRANSITION", "批次项当前状态不允许此操作"),
        );
    }
    match change_item(items[i].clone(), change, now) {
        Ok(item) => {
            items.set(i, item);
            assert(models(items@) =~= changed_one(models(old(items)@), item_id@, *change, now@));
            Ok(())
        },
        Err(e) => Err(e),
    }
}

/// Lets `change` happen to each item that allows it; whose turn it was.
fn change_all(items: &mut Vec<BatchItem>, change: &Change, now: &str) -> (r: Vec<String>)
    ensures
        models(final(items)@) == changed_all(models(old(items)@), *change, now@),
        contents(r@) == allowing(models(old(items)@), *change),
{
    let ghost all = models(items@);
    let mut ids: Vec<String> = Vec::new();
    let mut i: usize = 0;
    while i < items.len()
        invariant
            i <= items.len(),
            items.len() == all.len(),
            forall|k: int|
                0 <= k < i ==> (#[trigger] items@[k])@ == changed_all(all, *change, now@)[k],
            forall|k: int| i <= k < items.len() ==> (#[trigger] items@[k])@ == all[k],
            contents(ids@) == allowing(all.take(i as int), *change),
        decreases items.len() - i,
    {
        assert(items@[i as int]@ == all[i as int]);
        assert(all.take(i + 1).drop_last() == all.take(i as int));
        if let Ok(item) = change_item(items[i].clone(), change, now) {
            let ghost before = ids@;
            ids.push(items[i].id.clone());
            assert(contents(ids@) =~= contents(before).push(all[i as int].id));
            items.set(i, item);
        }
        i = i + 1;
    }
    assert(all.take(i as int) == all);
    assert(models(items@) =~= changed_all(all, *change, now@));
    ids
}

/// The identifiers of those of `items` that allow `change`, in order.
pub open spec fn allowing(items: Seq<ItemModel>, change: Change) -> Seq<Seq<char>>
    decreases items.len(),
{
    if items.len() == 0 {
        Seq::empty()
    } else if allows(items.last(), change) {
        allowing(items.drop_last(), change).push(items.last().id)
    } else {
        allowing(items.drop_last(), change)
    }
}

/// All that is stored of a batch.
#[derive(Debug)]
pub struct BatchRecord {
    pub job: BatchJob,
    pub items: Vec<BatchItem>,
    pub forced: Vec<ForcedRetryAttempt>,
}

/// What stands in the job of a batch.
#[verifier::ext_equal]
pub struct JobModel {
    pub id: Seq<char>,
    pub store_id: Option<Seq<char>>,
    pub order_template_json: Seq<char>,
    pub requested_count: i64,
    pub status: Seq<char>,
    pub created_at: Seq<char>,
    pub started_at: Option<Seq<char>>,
    pub finished_at: Option<Seq<char>>,
}

impl View for BatchJob {
    type V = JobModel;

    open spec fn view(&self) -> JobModel {
        JobModel {
            id: self.id@,
            store_id: optional(self.store_id),
            order_template_json: self.order_template_json@,
            requested_count: self.requested_count,
            status: self.status@,
            created_at: self.created_at@,
            started_at: optional(self.started_at),
            finished_at: optional(self.finished_at),
        }
    }
}

/// What stands in a forced attempt.
#[verifier::ext_equal]
pub struct ForcedModel {
    pub item_id: Seq<char>,
    pub attempt_number: i64,
    pub risk_confirmed: bool,
    pub confirmed_at: Seq<char>,
}

impl View for ForcedRetryAttempt {
    type V = ForcedModel;

    open spec fn view(&self) -> ForcedModel {
        ForcedModel {
            item_id: self.item_id@,
            attempt_number: self.attempt_number,
            risk_confirmed: self.risk_confirmed,
            confirmed_at: self.confirmed_at@,
        }
    }
}

/// What stands in all that is stored of a batch.
#[verifier::ext_equal]
pub struct RecordModel {
    pub job: JobModel,
    pub items: Seq<ItemModel>,
    pub forced: Seq<ForcedModel>,
}

impl View for BatchRecord {
    type V = RecordModel;

    open spec fn view(&self) -> RecordModel {
        RecordModel {
            job: self.job@,
            items: models(self.items@),
            forced: self.forced@.map_values(|attempt: ForcedRetryAttempt| attempt@),
        }
    }
}

/// The job with `status` from the time `now` on. It starts when it first runs, and is finished
/// while it is completed.
pub open spec fn with_status(job: JobModel, status: BatchStatus, now: Seq<char>) -> JobModel {
    JobModel {
        status: status_text(status),
        started_at: if status == BatchStatus::Running && job.started_at is None {
            Some(now)
        } else {
            job.started_at
        },
        finished_at: if status == BatchStatus::Completed || status
            == BatchStatus::CompletedWithErrors {
            Some(now)
        } else if status == BatchStatus::Running {
            None
        } else {
            job.finished_at
        },
        ..job
    }
}

/// The status of a batch that was asked to stop: one that runs stops after the current item.
pub open spec fn stopped_status(status: Seq<char>) -> Seq<char> {
    if status == "running"@ {
        "stopping"@
    } else if status == "pending"@ {
        "paused"@
    } else {
        status
    }
}

/// Whether the batch was cut off while it was at work.
pub open spec fn is_cut_off(record: RecordModel) -> bool {
    record.job.status == "running"@ || record.job.status == "stopping"@ || exists|i: int|
        0 <= i < record.items.len() && (#[trigger] record.items[i]).status
            == BatchItemStatus::Creating
}

/// Gives `job` the status `status`.
fn set_job_status(job: &mut BatchJob, status: BatchStatus, now: &str)
    ensures
        final(job)@ == with_status(old(job)@, status, now@),
{
    job.status = status.text().to_owned();
    if status == BatchStatus::Running {
        if job.started_at.is_none() {
            job.started_at = Some(now.to_owned());
        }
        job.finished_at = None;
    }
    if status == BatchStatus::Completed || status == BatchStatus::CompletedWithErrors {
        job.finished_at = Some(now.to_owned());
    }
}

/// The item number `k + 1` of a new batch.
pub open spec fn new_item(
    batch_id: Seq<char>,
    item_id: Seq<char>,
    k: int,
    now: Seq<char>,
) -> ItemModel {
    ItemModel {
        id: item_id,
        batch_id,
        sequence_number: (k + 1) as i64,
        source_identifier: source_text(batch_id, (k + 1) as nat),
        status: BatchItemStatus::Queued,
        attempt_count: 0,
        shopify_order_id: None,
        shopify_order_name: None,
        error_code: None,
        error_message: None,
        created_at: now,
        updated_at: now,
    }
}

/// A new batch: as many queued items as `item_ids`.
pub open spec fn new_record(
    batch_id: Seq<char>,
    store_id: Seq<char>,
    template_json: Seq<char>,
    item_ids: Seq<Seq<char>>,
    now: Seq<char>,
) -> RecordModel {
    RecordModel {
        job: JobModel {
            id: batch_id,
            store_id: Some(store_id),
            order_template_json: template_json,
            requested_count: item_ids.len() as i64,
            status: "pending"@,
            created_at: now,
            started_at: None,
            finished_at: None,
        },
        items: Seq::new(item_ids.len(), |k: int| new_item(batch_id, item_ids[k], k, now)),
        forced: Seq::empty(),
    }
}

/// The items of a new batch can each be told from the others by their source identifiers, which
/// name the batch.
pub proof fn new_items_have_their_own_sources(
    batch_id: Seq<char>,
    store_id: Seq<char>,
    template_json: Seq<char>,
    item_ids: Seq<Seq<char>>,
    now: Seq<char>,
    i: int,
    j: int,
)
    requires
        is_uuid_text(batch_id),
        item_ids.len() <= 100,
        0 <= i < j < item_ids.len(),
    ensures
        ({
            let items = new_record(batch_id, store_id, template_json, item_ids, now).items;
            &&& is_source(items[i].source_identifier)
            &&& source_batch(items[i].source_identifier) == batch_id
            &&& items[i].source_identifier != items[j].source_identifier
        }),
{
    made_sources_name_their_batch(batch_id, (i + 1) as nat);
    if source_text(batch_id, (i + 1) as nat) == source_text(batch_id, (j + 1) as nat) {
        sources_are_unique(batch_id, (i + 1) as nat, batch_id, (j + 1) as nat);
    }
}

/// Going on with a batch gives a stopped item back its place in the queue, as it was.
pub proof fn resuming_undoes_stopping(item: ItemModel, stop: Seq<char>, resume: Seq<char>)
    requires
        allows(item, Change::Stop),
    ensures
        allows(changed(item, Change::Stop, stop), Change::Resume),
        changed(changed(item, Change::Stop, stop), Change::Resume, resume) == (ItemModel {
            updated_at: resume,
            ..item
        }),
{
}

/// What can be done to all that is stored of a batch.
pub enum Step {
    /// The batch gets a status.
    SetStatus { status: BatchStatus },
    /// What happened to an item is stored.
    Record { item_id: Seq<char>, change: Change },
    /// An item is claimed.
    Claim { item_id: Seq<char> },
    /// An uncertain item is claimed by force.
    ClaimForced { item_id: Seq<char> },
    /// The failed items are queued again.
    RequeueFailed,
    /// The stopped items are queued again.
    ResumeStopped,
    /// The items whose turn has not come are stopped.
    Stop,
    /// What was being created when the program ended becomes uncertain.
    Recover,
}

/// Whether `step` can be done to the batch.
pub open spec fn takes(record: RecordModel, step: Step) -> bool {
    match step {
        Step::Record { item_id, change } => allows_one(record.items, item_id, change),
        Step::Claim { item_id } => record.job.status == "running"@ && allows_one(
            record.items,
            item_id,
            Change::Claim,
        ),
        Step::ClaimForced { item_id } => allows_one(record.items, item_id, Change::Force),
        _ => true,
    }
}

/// The batch after `step` at the time `now`; as it was, where the step cannot be done.
pub open spec fn after_step(record: RecordModel, step: Step, now: Seq<char>) -> RecordModel {
    if !takes(record, step) {
        record
    } else {
        match step {
            Step::SetStatus { status } => RecordModel {
                job: with_status(record.job, status, now),
                ..record
            },
            Step::Record { item_id, change } => RecordModel {
                items: changed_one(record.items, item_id, change, now),
                ..record
            },
            Step::Claim { item_id } => RecordModel {
                items: changed_one(record.items, item_id, Change::Claim, now),
                ..record
            },
            Step::ClaimForced { item_id } => {
                let items = changed_one(record.items, item_id, Change::Force, now);
                RecordModel {
                    job: with_status(record.job, BatchStatus::Running, now),
                    items,
                    forced: record.forced.push(
                        ForcedModel {
                            item_id,
                            attempt_number: items[position(record.items, item_id)].attempt_count,
                            risk_confirmed: true,
                            confirmed_at: now,
                        },
                    ),
                }
            },
            Step::RequeueFailed => RecordModel {
                items: changed_all(record.items, Change::Retry, now),
                ..record
            },
            Step::ResumeStopped => RecordModel {
                items: changed_all(record.items, Change::Resume, now),
                ..record
            },
            Step::Stop => RecordModel {
                job: JobModel { status: stopped_status(record.job.status), ..record.job },
                items: changed_all(record.items, Change::Stop, now),
                ..record
            },
            Step::Recover => RecordModel {
                job: if is_cut_off(record) {
                    with_status(record.job, BatchStatus::Paused, now)
                } else {
                    record.job
                },
                items: changed_all(record.items, Change::Interrupt, now),
                ..record
            },
        }
    }
}

/// What `step` lets happen to the item `item_id`, if anything.
pub open spec fn happens(record: RecordModel, step: Step, item_id: Seq<char>) -> Option<Change> {
    let at = position(record.items, item_id);
    let all = match step {
        Step::RequeueFailed => Some(Change::Retry),
        Step::ResumeStopped => Some(Change::Resume),
        Step::Stop => Some(Change::Stop),
        Step::Recover => Some(Change::Interrupt),
        _ => None,
    };
    let one = match step {
        Step::Record { item_id, change } => Some((item_id, change)),
        Step::Claim { item_id } => Some((item_id, Change::Claim)),
        Step::ClaimForced { item_id } => Some((item_id, Change::Force)),
        _ => None,
    };
    match (all, one) {
        (Some(change), _) => if at < record.items.len() && allows(record.items[at], change) {
            Some(change)
        } else {
            None
        },
        (None, Some((id, change))) => if id == item_id && takes(record, step) {
            Some(change)
        } else {
            None
        },
        (None, None) => None,
    }
}

/// Whether each of `records` but the first is the one before it after a step.
pub open spec fn is_history(records: Seq<RecordModel>, steps: Seq<Step>) -> bool {
    &&& records.len() == steps.len() + 1
    &&& forall|k: int| 0 <= k < steps.len() ==> #[trigger] follows(records, steps, k)
}

/// Whether the record after step number `k` is the one before it after that step, at some time.
pub open spec fn follows(records: Seq<RecordModel>, steps: Seq<Step>, k: int) -> bool {
    exists|now: Seq<char>| records[k + 1] == #[trigger] after_step(records[k], steps[k], now)
}

/// What step number `k` lets happen to the item `item_id`.
pub open spec fn change_at(
    records: Seq<RecordModel>,
    steps: Seq<Step>,
    item_id: Seq<char>,
    k: int,
) -> Option<Change> {
    happens(records[k], steps[k], item_id)
}

/// Whether step number `k` gives leave to create the order of the item `item_id` anew: an item that
/// failed for certain is to be tried again, or the shop had denied access before it created anything.
pub open spec fn gives_leave(
    records: Seq<RecordModel>,
    steps: Seq<Step>,
    item_id: Seq<char>,
    k: int,
) -> bool {
    change_at(records, steps, item_id, k) matches Some(change) && (change is Retry || change
        is Reject)
}

/// Positions go by identifiers alone.
proof fn positions_agree(a: Seq<ItemModel>, b: Seq<ItemModel>, item_id: Seq<char>)
    requires
        a.len() == b.len(),
        forall|i: int| 0 <= i < a.len() ==> (#[trigger] a[i]).id == b[i].id,
    ensures
        position(a, item_id) == position(b, item_id),
        0 <= position(a, item_id) <= a.len(),
        position(a, item_id) < a.len() ==> a[position(a, item_id)].id == item_id,
    decreases a.len(),
{
    if a.len() > 0 && a[0].id != item_id {
        assert forall|i: int| 0 <= i < a.skip(1).len() implies (#[trigger] a.skip(1)[i]).id
            == b.skip(1)[i].id by {
            assert(a[i + 1].id == b[i + 1].id);
        }
        positions_agree(a.skip(1), b.skip(1), item_id);
    }
}

/// A step keeps the items in their places, and does to each what it lets happen.
proof fn steps_keep_the_places(record: RecordModel, step: Step, now: Seq<char>, item_id: Seq<char>)
    ensures
        ({
            let after = after_step(record, step, now);
            let at = position(record.items, item_id);
            &&& after.items.len() == record.items.len()
            &&& position(after.items, item_id) == at
            &&& at < record.items.len() ==> after.items[at] == match happens(
                record,
                step,
                item_id,
            ) {
                Some(change) => changed(record.items[at], change, now),
                None => record.items[at],
            }
            &&& happens(record, step, item_id) matches Some(change) ==> at < record.items.len()
                && allows(record.items[at], change)
        }),
{
    let after = after_step(record, step, now);
    let one = match step {
        Step::Record { item_id, .. } => Some(item_id),
        Step::Claim { item_id } => Some(item_id),
        Step::ClaimForced { item_id } => Some(item_id),
        _ => None,
    };
    positions_agree(record.items, record.items, item_id);
    if let Some(id) = one {
        positions_agree(record.items, record.items, id);
    }
    assert(after.items.len() == record.items.len());
    positions_agree(record.items, after.items, item_id);
}

/// Whether the order of an item may be under way or may exist, or was rejected.
spec fn was_attempted(item: ItemModel) -> bool {
    item.status == BatchItemStatus::Creating || item.status == BatchItemStatus::Succeeded
        || item.status == BatchItemStatus::Failed || item.status == BatchItemStatus::Uncertain
}

proof fn attempts_are_remembered(
    records: Seq<RecordModel>,
    steps: Seq<Step>,
    item_id: Seq<char>,
    p: int,
    q: int,
)
    requires
        is_history(records, steps),
        0 <= p < q <= steps.len(),
        change_at(records, steps, item_id, p) matches Some(change) && begins_attempt(change),
        forall|k: int| p < k < q ==> !#[trigger] gives_leave(records, steps, item_id, k),
    ensures
        ({
            let at = position(records[q].items, item_id);
            &&& at < records[q].items.len()
            &&& was_attempted(records[q].items[at])
        }),
    decreases q,
{
    let last = q - 1;
    assert(follows(records, steps, last));
    let now = choose|now: Seq<char>|
        records[last + 1] == #[trigger] after_step(records[last], steps[last], now);
    steps_keep_the_places(records[last], steps[last], now, item_id);
    if last > p {
        attempts_are_remembered(records, steps, item_id, p, last);
        assert(!gives_leave(records, steps, item_id, last));
    }
}

/// An attempt at the order of an item is followed by another only by force, or with leave: once the
/// item is tried again after it failed, or was given back its place when the shop denied access.
pub proof fn attempts_are_repeated_by_force_or_with_leave(
    records: Seq<RecordModel>,
    steps: Seq<Step>,
    item_id: Seq<char>,
    p: int,
    q: int,
)
    requires
        is_history(records, steps),
        0 <= p < q < steps.len(),
        change_at(records, steps, item_id, p) matches Some(change) && begins_attempt(change),
        change_at(records, steps, item_id, q) matches Some(change) && begins_attempt(change),
    ensures
        change_at(records, steps, item_id, q)->0 is Force || exists|k: int|
            p < k < q && #[trigger] gives_leave(records, steps, item_id, k),
{
    if forall|k: int| p < k < q ==> !#[trigger] gives_leave(records, steps, item_id, k) {
        attempts_are_remembered(records, steps, item_id, p, q);
        steps_keep_the_places(records[q], steps[q], Seq::empty(), item_id);
    }
}

impl BatchRecord {
    /// A new batch whose items have the identifiers `item_ids`.
    pub fn with_ids(
        batch_id: String,
        store_id: &str,
        template_json: &str,
        item_ids: Vec<String>,
        now: &str,
    ) -> (r: Self)
        requires
            item_ids.len() <= 100,
        ensures
            r@ == new_record(batch_id@, store_id@, template_json@, contents(item_ids@), now@),
    {
        let ghost ids = contents(item_ids@);
        let ghost id = batch_id@;
        let count: usize = item_ids.len();
        let mut items: Vec<BatchItem> = Vec::new();
        let mut next: u64 = 1;
        for item_id in it: item_ids
            invariant
                it.seq() == item_ids@,
                ids == contents(item_ids@),
                item_ids.len() == count <= 100,
                next == it.index() + 1,
                items.len() == it.index(),
                id == batch_id@,
                forall|k: int|
                    0 <= k < items.len() ==> (#[trigger] items@[k])@ == new_item(
                        id,
                        ids[k],
                        k,
                        now@,
                    ),
        {
            assert(it.index() < item_ids.len());
            assert(item_id == item_ids@[it.index()]);
            assert(ids[it.index()] == item_id@);
            let source = source_identifier(batch_id.as_str(), next);
            items.push(
                BatchItem {
                    id: item_id,
                    batch_id: batch_id.clone(),
                    sequence_number: next as i64,
                    source_identifier: source,
                    status: BatchItemStatus::Queued,
                    attempt_count: 0,
                    shopify_order_id: None,
                    shopify_order_name: None,
                    error_code: None,
                    error_message: None,
                    created_at: now.to_owned(),
                    updated_at: now.to_owned(),
                },
            );
            next = next + 1;
        }
        let record = BatchRecord {
            job: BatchJob {
                id: batch_id,
                store_id: Some(store_id.to_owned()),
                order_template_json: template_json.to_owned(),
                requested_count: count as i64,
                status: "pending".to_owned(),
                created_at: now.to_owned(),
                started_at: None,
                finished_at: None,
            },
            items,
            forced: Vec::new(),
        };
        assert(record@ =~= new_record(id, store_id@, template_json@, ids, now@));
        record
    }

    /// A new batch of `size` orders, with fresh identifiers and the time of the machine.
    pub fn create(store_id: &str, template_json: &str, size: BatchSize) -> (r: Self)
        ensures
            exists|ids: Seq<Seq<char>>, now: Seq<char>|
                #![trigger new_record(r@.job.id, store_id@, template_json@, ids, now)]
                r@ == new_record(r@.job.id, store_id@, template_json@, ids, now) && ids.len()
                    == size.orders() && forall|k: int|
                    0 <= k < ids.len() ==> is_uuid_text(#[trigger] ids[k]),
            is_uuid_text(r@.job.id),
    {
        let batch_id = new_uuid();
        let now = current_timestamp();
        let count: u16 = size.get();
        let mut item_ids: Vec<String> = Vec::new();
        let mut i: u16 = 0;
        while i < count
            invariant
                i <= count <= 100,
                item_ids.len() == i,
                forall|k: int| 0 <= k < i ==> is_uuid_text((#[trigger] item_ids@[k])@),
            decreases count - i,
        {
            item_ids.push(new_uuid());
            i = i + 1;
        }
        let ghost ids = contents(item_ids@);
        assert forall|k: int| 0 <= k < ids.len() implies is_uuid_text(#[trigger] ids[k]) by {
            assert(ids[k] == item_ids@[k]@);
        }
        let record = Self::with_ids(batch_id, store_id, template_json, item_ids, now.as_str());
        assert(record@ == new_record(record@.job.id, store_id@, template_json@, ids, now@));
        record
    }

    /// Gives the batch the status `status`.
    pub fn set_status(&mut self, status: BatchStatus, now: &str)
        ensures
            final(self)@ == after_step(old(self)@, Step::SetStatus { status }, now@),
    {
        set_job_status(&mut self.job, status, now);
    }

    /// Stores what happened to the item `item_id`.
    pub fn record(&mut self, item_id: &str, change: &Change, now: &str) -> (r: Result<(), AppError>)
        ensures
            ({
                let step = Step::Record { item_id: item_id@, change: *change };
                &&& final(self)@ == after_step(old(self)@, step, now@)
                &&& match r {
                    Ok(_) => takes(old(self)@, step),
                    Err(e) => !takes(old(self)@, step) && e@ == illegal_change(),
                }
            }),
    {
        change_one(&mut self.items, item_id, change, now)
    }

    /// Claims the item `item_id` for its order to be created, if the batch runs and the item is
    /// queued.
    pub fn claim(&mut self, item_id: &str, now: &str) -> (r: bool)
        ensures
            r == takes(old(self)@, Step::Claim { item_id: item_id@ }),
            final(self)@ == after_step(old(self)@, Step::Claim { item_id: item_id@ }, now@),
    {
        if !same_text(self.job.status.as_str(), "running") {
            return false;
        }
        match change_one(&mut self.items, item_id, &Change::Claim, now) {
            Ok(_) => true,
            Err(_) => false,
        }
    }

    /// Claims the uncertain item `item_id` for a forced attempt, and keeps that the user confirmed
    /// the risk.
    pub fn claim_forced(&mut self, item_id: &str, now: &str) -> (r: Result<(), AppError>)
        ensures
            ({
                let step = Step::ClaimForced { item_id: item_id@ };
                &&& final(self)@ == after_step(old(self)@, step, now@)
                &&& match r {
                    Ok(_) => takes(old(self)@, step),
                    Err(e) => !takes(old(self)@, step) && e@ == illegal_change(),
                }
            }),
    {
        let i: usize = find_item(&self.items, item_id);
        match change_one(&mut self.items, item_id, &Change::Force, now) {
            Ok(_) => {
                assert(models(self.items@).len() == old(self)@.items.len());
                set_job_status(&mut self.job, BatchStatus::Running, now);
                let attempt_number: i64 = self.items[i].attempt_count;
                assert(models(self.items@)[i as int].attempt_count == attempt_number);
                let ghost before = self.forced@;
                self.forced.push(
                    ForcedRetryAttempt {
                        item_id: item_id.to_owned(),
                        attempt_number,
                        risk_confirmed: true,
                        confirmed_at: now.to_owned(),
                    },
                );
                assert(self@.forced =~= before.map_values(
                    |attempt: ForcedRetryAttempt| attempt@,
                ).push(self.forced@.last()@));
                Ok(())
            },
            Err(e) => Err(e),
        }
    }

    /// Queues the failed items again, and says which they are.
    pub fn requeue_failed(&mut self, now: &str) -> (r: Vec<String>)
        ensures
            contents(r@) == allowing(old(self)@.items, Change::Retry),
            final(self)@ == after_step(old(self)@, Step::RequeueFailed, now@),
    {
        change_all(&mut self.items, &Change::Retry, now)
    }

    /// Queues the stopped items again.
    pub fn resume_stopped(&mut self, now: &str)
        ensures
            final(self)@ == after_step(old(self)@, Step::ResumeStopped, now@),
    {
        let _ = change_all(&mut self.items, &Change::Resume, now);
    }

    /// Stops the items whose turn has not come.
    pub fn stop(&mut self, now: &str)
        ensures
            final(self)@ == after_step(old(self)@, Step::Stop, now@),
    {
        let _ = change_all(&mut self.items, &Change::Stop, now);
        if same_text(self.job.status.as_str(), "running") {
            self.job.status = "stopping".to_owned();
        } else if same_text(self.job.status.as_str(), "pending") {
            self.job.status = "paused".to_owned();
        }
    }

    /// Makes uncertain what was being created when the program ended, and pauses the batch if it
    /// was cut off.
    pub fn recover(&mut self, now: &str)
        ensures
            final(self)@ == after_step(old(self)@, Step::Recover, now@),
    {
        let status = self.job.status.as_str();
        let mut cut_off: bool = same_text(status, "running") || same_text(status, "stopping");
        let ghost record = self@;
        let ghost at_work = cut_off;
        let mut i: usize = 0;
        while i < self.items.len()
            invariant
                i <= self.items.len(),
                record.items == models(self.items@),
                cut_off == (at_work || exists|k: int|
                    0 <= k < i && (#[trigger] record.items[k]).status == BatchItemStatus::Creating),
            decreases self.items.len() - i,
        {
            assert(record.items[i as int].status == self.items@[i as int].status);
            cut_off = cut_off || self.items[i].status == BatchItemStatus::Creating;
            i = i + 1;
        }
        let _ = change_all(&mut self.items, &Change::Interrupt, now);
        if cut_off {
            set_job_status(&mut self.job, BatchStatus::Paused, now);
        }
    }
}

/// What can happen to an item goes by its status: a queued item is claimed or stopped, one that is
/// being created gets an outcome, an uncertain one is forced or found, a failed one is tried again,
/// a stopped one goes on, and one that succeeded stays.
pub proof fn items_change_as_their_status_lets_them(item: ItemModel, change: Change)
    requires
        change is Claim || change is Force ==> item.attempt_count < i64::MAX,
    ensures
        allows(item, change) <==> match item.status {
            BatchItemStatus::Queued => change is Claim || change is Stop,
            BatchItemStatus::Creating => change is Succeed || change is Fail || change is Doubt
                || change is Reject || change is Interrupt,
            BatchItemStatus::Succeeded => false,
            BatchItemStatus::Failed => change is Retry,
            BatchItemStatus::Uncertain => change is Force || change is Reconcile,
            BatchItemStatus::Stopped => change is Resume,
        },
        illegal_change().code == "INVALID_ITEM_TRANSITION"@,
        !illegal_change().retryable,
{
}

/// A claim, by force or not, begins one more attempt, and leaves no error of an earlier one.
pub proof fn claims_begin_one_more_attempt(item: ItemModel, change: Change, now: Seq<char>)
    requires
        change is Claim || change is Force,
        item.attempt_count < i64::MAX,
    ensures
        changed(item, change, now) == (ItemModel {
            status: BatchItemStatus::Creating,
            attempt_count: (item.attempt_count + 1) as i64,
            error_code: None,
            error_message: None,
            updated_at: now,
            ..item
        }),
{
}

/// An order that was created, and one that was found, is stored with its own identifier and name,
/// and the item has succeeded.
pub proof fn orders_are_stored_with_their_identifier_and_name(
    item: ItemModel,
    order: CreatedOrder,
    now: Seq<char>,
)
    ensures
        ({
            let stored = ItemModel {
                status: BatchItemStatus::Succeeded,
                shopify_order_id: Some(order.id@),
                shopify_order_name: Some(order.name@),
                error_code: None,
                error_message: None,
                updated_at: now,
                ..item
            };
            &&& changed(item, Change::Succeed(order), now) == stored
            &&& changed(item, Change::Reconcile(order), now) == stored
        }),
{
}

/// An error is stored with its own code and message: of a certain rejection the item has failed, in
/// doubt it is uncertain, and where the shop denied access it has its place again.
pub proof fn errors_are_stored_with_their_code_and_message(
    item: ItemModel,
    error: AppError,
    now: Seq<char>,
)
    ensures
        ({
            let told = ItemModel {
                error_code: Some(error@.code),
                error_message: Some(error@.message),
                updated_at: now,
                ..item
            };
            &&& changed(item, Change::Fail(error), now) == (ItemModel {
                status: BatchItemStatus::Failed,
                ..told
            })
            &&& changed(item, Change::Doubt(error), now) == (ItemModel {
                status: BatchItemStatus::Uncertain,
                ..told
            })
            &&& changed(item, Change::Reject(error), now) == (ItemModel {
                status: BatchItemStatus::Queued,
                ..told
            })
        }),
{
}

/// Stopping an item, going on with it and trying it again change its place in the batch and nothing
/// that is known of its order.
pub proof fn places_change_and_nothing_else(item: ItemModel, now: Seq<char>)
    ensures
        changed(item, Change::Stop, now) == (ItemModel {
            status: BatchItemStatus::Stopped,
            updated_at: now,
            ..item
        }),
        changed(item, Change::Resume, now) == (ItemModel {
            status: BatchItemStatus::Queued,
            updated_at: now,
            ..item
        }),
        changed(item, Change::Retry, now) == (ItemModel {
            status: BatchItemStatus::Queued,
            updated_at: now,
            ..item
        }),
        changed(item, Change::Interrupt, now) == (ItemModel {
            status: BatchItemStatus::Uncertain,
            error_code: Some("PROCESS_INTERRUPTED"@),
            error_message: changed(item, Change::Interrupt, now).error_message,
            updated_at: now,
            ..item
        }),
{
}

/// An item is meant by its identifier: the first that has it.
pub proof fn items_are_found_by_their_identifier(items: Seq<ItemModel>, item_id: Seq<char>, i: int)
    requires
        0 <= i <= items.len(),
        i < items.len() ==> items[i].id == item_id,
        forall|k: int| 0 <= k < i ==> (#[trigger] items[k]).id != item_id,
    ensures
        position(items, item_id) == i,
    decreases i,
{
    if i > 0 {
        let rest = items.skip(1);
        assert(items[0].id != item_id);
        assert forall|k: int| 0 <= k < i - 1 implies (#[trigger] rest[k]).id != item_id by {
            assert(rest[k] == items[k + 1]);
        }
        items_are_found_by_their_identifier(rest, item_id, i - 1);
    }
}

/// The items that a change to all of one status is reported of are all that have the status, in
/// order.
proof fn allowing_is_filtering(items: Seq<ItemModel>, change: Change, status: BatchItemStatus)
    requires
        forall|item: ItemModel| #[trigger] allows(item, change) <==> item.status == status,
    ensures
        allowing(items, change) == items.filter(|item: ItemModel| item.status == status).map_values(
            |item: ItemModel| item.id,
        ),
    decreases items.len(),
{
    reveal(Seq::filter);
    let named = |item: ItemModel| item.id;
    let having = |item: ItemModel| item.status == status;
    if items.len() == 0 {
        assert(allowing(items, change) =~= items.filter(having).map_values(named));
    } else {
        allowing_is_filtering(items.drop_last(), change, status);
        assert(allows(items.last(), change) <==> items.last().status == status);
        assert(items.filter(having).map_values(named) =~= allowing(items, change));
    }
}

/// Queueing the failed items again reports all of them and no others, in order.
pub proof fn all_failed_items_are_reported_queued(items: Seq<ItemModel>)
    ensures
        allowing(items, Change::Retry) == items.filter(
            |item: ItemModel| item.status == BatchItemStatus::Failed,
        ).map_values(|item: ItemModel| item.id),
{
    allowing_is_filtering(items, Change::Retry, BatchItemStatus::Failed);
}

/// An identifier is reported as queued again just where a failed item has it.
pub proof fn failed_items_are_reported_by_their_identifiers(
    items: Seq<ItemModel>,
    item_id: Seq<char>,
)
    ensures
        allowing(items, Change::Retry).contains(item_id) <==> exists|i: int|
            0 <= i < items.len() && (#[trigger] items[i]).id == item_id && items[i].status
                == BatchItemStatus::Failed,
    decreases items.len(),
{
    let ids = allowing(items, Change::Retry);
    if items.len() > 0 {
        let rest = items.drop_last();
        let fewer = allowing(rest, Change::Retry);
        failed_items_are_reported_by_their_identifiers(rest, item_id);
        if fewer.contains(item_id) {
            let k = choose|k: int| 0 <= k < fewer.len() && fewer[k] == item_id;
            assert(ids[k] == item_id);
            let i = choose|i: int|
                0 <= i < rest.len() && (#[trigger] rest[i]).id == item_id && rest[i].status
                    == BatchItemStatus::Failed;
            assert(items[i] == rest[i]);
        } else {
            assert forall|i: int| 0 <= i < rest.len() implies !((#[trigger] items[i]).id == item_id
                && items[i].status == BatchItemStatus::Failed) by {
                assert(items[i] == rest[i]);
            }
            if items.last().id == item_id && items.last().status == BatchItemStatus::Failed {
                assert(ids[ids.len() - 1] == item_id);
                assert(items[items.len() - 1].id == item_id);
            } else if ids.contains(item_id) {
                let k = choose|k: int| 0 <= k < ids.len() && ids[k] == item_id;
                assert(k < fewer.len() ==> fewer[k] == item_id);
                assert(items[items.len() - 1].id == item_id);
            }
        }
    }
}

/// Queueing failed items again, going on with stopped ones, stopping queued ones and recovering
/// those whose creation was interrupted each reach every item of that status and leave the others
/// as they are.
pub proof fn steps_reach_every_item_of_a_status(
    record: RecordModel,
    step: Step,
    now: Seq<char>,
    i: int,
)
    requires
        step is RequeueFailed || step is ResumeStopped || step is Stop || step is Recover,
        0 <= i < record.items.len(),
    ensures
        ({
            let after = after_step(record, step, now);
            let item = record.items[i];
            let (from, to) = match step {
                Step::RequeueFailed => (BatchItemStatus::Failed, BatchItemStatus::Queued),
                Step::ResumeStopped => (BatchItemStatus::Stopped, BatchItemStatus::Queued),
                Step::Stop => (BatchItemStatus::Queued, BatchItemStatus::Stopped),
                _ => (BatchItemStatus::Creating, BatchItemStatus::Uncertain),
            };
            &&& after.items.len() == record.items.len()
            &&& after.forced == record.forced
            &&& item.status == from ==> after.items[i].status == to
            &&& item.status != from ==> after.items[i] == item
            &&& after.items[i].id == item.id
            &&& after.items[i].source_identifier == item.source_identifier
            &&& after.items[i].sequence_number == item.sequence_number
            &&& after.items[i].attempt_count == item.attempt_count
            &&& after.items[i].shopify_order_id == item.shopify_order_id
            &&& after.items[i].shopify_order_name == item.shopify_order_name
        }),
{
}

/// What is stored of one item reaches that item and no other: a change that its status does not
/// allow is not made, and any other change is made to it alone.
pub proof fn steps_on_one_item_reach_it_alone(
    record: RecordModel,
    item_id: Seq<char>,
    change: Change,
    now: Seq<char>,
    i: int,
    k: int,
)
    requires
        0 <= i < record.items.len(),
        record.items[i].id == item_id,
        forall|j: int| 0 <= j < i ==> (#[trigger] record.items[j]).id != item_id,
        0 <= k < record.items.len(),
    ensures
        ({
            let step = Step::Record { item_id, change };
            let after = after_step(record, step, now);
            &&& takes(record, step) <==> allows(record.items[i], change)
            &&& after.job == record.job
            &&& after.forced == record.forced
            &&& after.items.len() == record.items.len()
            &&& k != i ==> after.items[k] == record.items[k]
            &&& after.items[i] == if allows(record.items[i], change) {
                changed(record.items[i], change, now)
            } else {
                record.items[i]
            }
        }),
{
    items_are_found_by_their_identifier(record.items, item_id, i);
}

/// An item is claimed just where the batch runs and the item is queued, and then it alone is being
/// created.
pub proof fn queued_items_of_a_running_batch_are_claimed(
    record: RecordModel,
    item_id: Seq<char>,
    now: Seq<char>,
    i: int,
    k: int,
)
    requires
        0 <= i < record.items.len(),
        record.items[i].id == item_id,
        record.items[i].attempt_count < i64::MAX,
        forall|j: int| 0 <= j < i ==> (#[trigger] record.items[j]).id != item_id,
        0 <= k < record.items.len(),
    ensures
        ({
            let step = Step::Claim { item_id };
            let after = after_step(record, step, now);
            &&& takes(record, step) <==> record.job.status == "running"@ && record.items[i].status
                == BatchItemStatus::Queued
            &&& after.job == record.job
            &&& after.forced == record.forced
            &&& k != i ==> after.items[k] == record.items[k]
            &&& takes(record, step) ==> after.items[i].status == BatchItemStatus::Creating
                && after.items[i].attempt_count == record.items[i].attempt_count + 1
            &&& !takes(record, step) ==> after.items[i] == record.items[i]
        }),
{
    items_are_found_by_their_identifier(record.items, item_id, i);
}

/// An item is claimed by force just where it is uncertain; the batch then runs, the item alone is
/// being created, and the confirmed attempt is kept under its number after those before it.
pub proof fn uncertain_items_are_claimed_by_force(
    record: RecordModel,
    item_id: Seq<char>,
    now: Seq<char>,
    i: int,
    k: int,
)
    requires
        0 <= i < record.items.len(),
        record.items[i].id == item_id,
        record.items[i].attempt_count < i64::MAX,
        forall|j: int| 0 <= j < i ==> (#[trigger] record.items[j]).id != item_id,
        0 <= k < record.items.len(),
    ensures
        ({
            let step = Step::ClaimForced { item_id };
            let after = after_step(record, step, now);
            &&& takes(record, step) <==> record.items[i].status == BatchItemStatus::Uncertain
            &&& k != i ==> after.items[k] == record.items[k]
            &&& takes(record, step) ==> {
                &&& after.job.status == "running"@
                &&& after.items[i].status == BatchItemStatus::Creating
                &&& after.items[i].attempt_count == record.items[i].attempt_count + 1
                &&& after.forced.len() == record.forced.len() + 1
                &&& after.forced.drop_last() == record.forced
                &&& after.forced.last().item_id == item_id
                &&& after.forced.last().attempt_number == record.items[i].attempt_count + 1
                &&& after.forced.last().risk_confirmed
                &&& after.forced.last().confirmed_at == now
            }
            &&& !takes(record, step) ==> after == record
        }),
{
    items_are_found_by_their_identifier(record.items, item_id, i);
}

/// A batch gets the status that it is given, starts when it first runs, is finished when it is
/// completed, and is not finished while it runs; its items stay.
pub proof fn batches_get_the_status_they_are_given(
    record: RecordModel,
    status: BatchStatus,
    now: Seq<char>,
)
    ensures
        ({
            let after = after_step(record, Step::SetStatus { status }, now);
            &&& after.items == record.items
            &&& after.forced == record.forced
            &&& after.job.id == record.job.id
            &&& after.job.store_id == record.job.store_id
            &&& after.job.order_template_json == record.job.order_template_json
            &&& after.job.requested_count == record.job.requested_count
            &&& after.job.created_at == record.job.created_at
            &&& after.job.status == match status {
                BatchStatus::Running => "running"@,
                BatchStatus::Paused => "paused"@,
                BatchStatus::Completed => "completed"@,
                BatchStatus::CompletedWithErrors => "completed_with_errors"@,
            }
            &&& record.job.started_at is Some ==> after.job.started_at == record.job.started_at
            &&& record.job.started_at is None ==> after.job.started_at == if status
                == BatchStatus::Running {
                Some(now)
            } else {
                None
            }
            &&& after.job.finished_at == match status {
                BatchStatus::Running => None,
                BatchStatus::Paused => record.job.finished_at,
                _ => Some(now),
            }
        }),
{
}

/// A batch that runs is stopping once it was asked to stop, and one that waits to run is paused;
/// recovery pauses a batch that was at work, or in which a creation was under way. Nothing else is
/// known anew of the batch.
pub proof fn stops_and_recoveries_change_the_status_alone(
    record: RecordModel,
    now: Seq<char>,
)
    ensures
        ({
            let stopped = after_step(record, Step::Stop, now).job;
            let recovered = after_step(record, Step::Recover, now).job;
            &&& stopped == (JobModel { status: stopped.status, ..record.job })
            &&& record.job.status == "running"@ ==> stopped.status == "stopping"@
            &&& record.job.status == "pending"@ ==> stopped.status == "paused"@
            &&& record.job.status != "running"@ && record.job.status != "pending"@
                ==> stopped.status == record.job.status
            &&& recovered == (JobModel { status: recovered.status, ..record.job })
            &&& record.job.status == "running"@ || record.job.status == "stopping"@
                ==> recovered.status == "paused"@
            &&& (exists|i: int|
                0 <= i < record.items.len() && (#[trigger] record.items[i]).status
                    == BatchItemStatus::Creating) ==> recovered.status == "paused"@
            &&& record.job.status != "running"@ && record.job.status != "stopping"@ && (forall|
                i: int,
            |
                0 <= i < record.items.len() ==> (#[trigger] record.items[i]).status
                    != BatchItemStatus::Creating) ==> recovered.status == record.job.status
        }),
{
    reveal_strlit("running");
    reveal_strlit("pending");
    assert("running"@[0] != "pending"@[0]);
}

/// A new batch waits to run for its store, with the frozen template and as many queued items as were
/// asked for, numbered from 1, each under its own identifier and the source that names the batch and
/// its number, and nothing known of an order.
pub proof fn new_batches_wait_with_all_their_items(
    batch_id: Seq<char>,
    store_id: Seq<char>,
    template_json: Seq<char>,
    item_ids: Seq<Seq<char>>,
    now: Seq<char>,
    k: int,
)
    requires
        item_ids.len() <= 100,
        0 <= k < item_ids.len(),
    ensures
        ({
            let record = new_record(batch_id, store_id, template_json, item_ids, now);
            let item = record.items[k];
            &&& record.job.id == batch_id
            &&& record.job.store_id == Some(store_id)
            &&& record.job.order_template_json == template_json
            &&& record.job.requested_count == item_ids.len()
            &&& record.job.status == "pending"@
            &&& record.job.created_at == now
            &&& record.job.started_at is None
            &&& record.job.finished_at is None
            &&& record.forced.len() == 0
            &&& record.items.len() == item_ids.len()
            &&& item.id == item_ids[k]
            &&& item.batch_id == batch_id
            &&& item.sequence_number == k + 1
            &&& item.source_identifier == "orderpilot/"@ + batch_id + "/"@ + decimal((k + 1) as nat)
            &&& item.status == BatchItemStatus::Queued
            &&& item.attempt_count == 0
            &&& item.shopify_order_id is None
            &&& item.shopify_order_name is None
            &&& item.error_code is None
            &&& item.error_message is None
            &&& item.created_at == now
            &&& item.updated_at == now
        }),
{
}

/// What stands in an item and in a batch is what their fields hold, each under its own name.
pub proof fn stored_values_are_seen_as_they_are(item: BatchItem, job: BatchJob)
    ensures
        item@.id == item.id@,
        item@.batch_id == item.batch_id@,
        item@.sequence_number == item.sequence_number,
        item@.source_identifier == item.source_identifier@,
        item@.status == item.status,
        item@.attempt_count == item.attempt_count,
        item.shopify_order_id matches Some(text) ==> item@.shopify_order_id == Some(text@),
        item.shopify_order_id is None ==> item@.shopify_order_id is None,
        item.shopify_order_name matches Some(text) ==> item@.shopify_order_name == Some(text@),
        item.shopify_order_name is None ==> item@.shopify_order_name is None,
        item.error_code matches Some(text) ==> item@.error_code == Some(text@),
        item.error_code is None ==> item@.error_code is None,
        item.error_message matches Some(text) ==> item@.error_message == Some(text@),
        item.error_message is None ==> item@.error_message is None,
        item@.created_at == item.created_at@,
        item@.updated_at == item.updated_at@,
        job@.id == job.id@,
        job.store_id matches Some(text) ==> job@.store_id == Some(text@),
        job.store_id is None ==> job@.store_id is None,
        job@.order_template_json == job.order_template_json@,
        job@.requested_count == job.requested_count,
        job@.status == job.status@,
        job@.created_at == job.created_at@,
        job.started_at matches Some(text) ==> job@.started_at == Some(text@),
        job.started_at is None ==> job@.started_at is None,
        job.finished_at matches Some(text) ==> job@.finished_at == Some(text@),
        job.finished_at is None ==> job@.finished_at is None,
{
}

/// What stands in all that is stored of a batch is its job, its items in order and its forced
/// attempts in order.
pub proof fn records_are_seen_as_they_are(record: BatchRecord, i: int, k: int)
    requires
        0 <= i < record.items@.len(),
        0 <= k < record.forced@.len(),
    ensures
        record@.job == record.job@,
        record@.items.len() == record.items@.len(),
        record@.items[i] == record.items@[i]@,
        record@.forced.len() == record.forced@.len(),
        record@.forced[k].item_id == record.forced@[k].item_id@,
        record@.forced[k].attempt_number == record.forced@[k].attempt_number,
        record@.forced[k].risk_confirmed == record.forced@[k].risk_confirmed,
        record@.forced[k].confirmed_at == record.forced@[k].confirmed_at@,
{
}

} // verus!
