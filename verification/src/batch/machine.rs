//! What an operation on a batch does: where it can stand, what it tells its caller to do, and what
//! follows each event.
use vstd::prelude::*;

use crate::batch::{
    closing_status, concealed_order, is_access_failure, is_definite_rejection, shown, BatchProgress,
    BatchStatus,
};
use crate::domain::{BatchItem, BatchItemStatus, BatchJob, OrderTemplate};
use crate::error::{concealed_failure, lasting, AppError, Failure};
use crate::identifier::source_text;
use crate::repository::StoreCredentials;
use crate::shopify::graphql::{
    order_input, order_problem, CreateOrderInput, CreatedOrder, InputModel, OrderModel,
};
use crate::text::contents;

verus! {

/// How often an order is looked for in one reconciliation.
pub const MAX_LOOKUPS: u32 = 3;

/// From one lookup to the next, and the most that one lookup may take, in nanoseconds.
pub const LOOKUP_INTERVAL: u128 = 10_000_000_000;

/// How long one reconciliation may take, in nanoseconds.
pub const RECONCILIATION_WINDOW: u128 = 30_000_000_000;

/// What the user wants done with a batch.
#[derive(Debug)]
pub enum Kind {
    /// Run it for the first time.
    Run,
    /// Go on with it.
    Resume,
    /// Try the failed items again.
    RetryFailed,
    /// Stop it.
    Stop,
    /// Look for the orders whose creation is uncertain.
    Reconcile,
    /// Create the order of an uncertain item once more.
    Force { item_id: String, risk_confirmed: bool },
}

/// What the user asked for.
#[derive(Debug)]
pub struct Request {
    pub kind: Kind,
    pub batch_id: String,
    pub paid_confirmed: bool,
}

/// What items are gone through for.
#[derive(Debug)]
pub enum Frame {
    /// To find out what became of uncertain items before queued ones are submitted.
    Settling { template: OrderTemplate },
    /// To submit queued items.
    Submitting { template: OrderTemplate },
    /// To find out what became of uncertain items.
    Checking,
    /// To submit the one item that was chosen.
    Forcing,
}

/// The items that are gone through, and the shop that they are for. `rest` are those to come.
pub struct Work<R> {
    pub frame: Frame,
    pub store: StoreCredentials,
    pub rest: R,
}

/// What the credentials are wanted for.
pub enum Goal<I> {
    Execute { template: OrderTemplate, selected: Option<Vec<String>> },
    Check,
    Force { item: BatchItem, input: I },
}

/// What follows once progress is shown.
pub enum Then<E, I, R> {
    /// The next item.
    Next { work: Work<R> },
    /// The order of the claimed item is created.
    Create { work: Work<R>, item: BatchItem, input: I },
    /// The order of the uncertain item is looked for.
    Reconcile { work: Work<R>, item: BatchItem },
    /// The operation is at its end.
    Finished,
    /// The operation is at its end, and a failure to show progress is its result.
    Closing,
    /// The operation ends with the error that paused it.
    Pausing { error: E },
}

/// Where an operation stands: what it waits for, and what it then needs to know.
pub enum Point<E, I, R> {
    RunStatus,
    Validate,
    RequireRecovered,
    ForceFind,
    ForceJob { item: BatchItem },
    Requeueing,
    Stopping,
    Recovering,
    ResumingStopped,
    CheckJob,
    ExecJob { selected: Option<Vec<String>> },
    Credentials { goal: Goal<I> },
    Gate { item: BatchItem, store: StoreCredentials, input: I },
    ForcedStop { item: BatchItem, store: StoreCredentials, input: I },
    ForcedStatus { item: BatchItem, store: StoreCredentials, input: I },
    ForcedClaim { item: BatchItem, store: StoreCredentials, input: I },
    Starting { template: OrderTemplate, store: StoreCredentials, selected: Option<Vec<String>> },
    SettleList { template: OrderTemplate, store: StoreCredentials, selected: Option<Vec<String>> },
    SubmitList { template: OrderTemplate, store: StoreCredentials, selected: Option<Vec<String>> },
    CheckList { store: StoreCredentials },
    StopCheck { work: Work<R>, item: BatchItem },
    Claim { work: Work<R>, item: BatchItem, input: I },
    Create { work: Work<R>, item: BatchItem },
    Keeping { work: Work<R>, item: BatchItem },
    Rejecting { error: E },
    Doubting { work: Work<R>, item: BatchItem },
    ClockStart { work: Work<R>, item: BatchItem },
    ClockElapsed { work: Work<R>, item: BatchItem, start: u128, attempt: u32 },
    Waiting { work: Work<R>, item: BatchItem, start: u128, attempt: u32 },
    ClockRemaining { work: Work<R>, item: BatchItem, start: u128, attempt: u32 },
    Lookup { work: Work<R>, item: BatchItem, start: u128, attempt: u32 },
    Recording { work: Work<R>, item: BatchItem },
    FinishList,
    SetFinal,
    EmitJob { batch_id: String, then: Then<E, I, R> },
    EmitItems { batch_id: String, job: BatchJob, then: Then<E, I, R> },
    Publishing { then: Then<E, I, R> },
    SetPaused { error: E },
    Ended,
}

/// What the caller is to do next. Writes are to the batch of the operation; a wait and the limit of
/// a lookup are in nanoseconds.
pub enum Action<E, I, O> {
    LoadBatch { batch_id: String },
    ListItems { batch_id: String },
    LoadCredentials { store_id: String },
    RecoverInterrupted,
    ResumeStopped,
    RequeueFailed,
    StopBatch,
    SetStatus { status: BatchStatus },
    CheckStop,
    Claim { item_id: String },
    PassGate,
    ClaimForced { item_id: String },
    CreateOrder { store: StoreCredentials, input: I },
    MarkSucceeded { item_id: String, order: O },
    MarkFailed { item_id: String, error: E },
    MarkUncertain { item_id: String, error: E },
    RequeueRejected { item_id: String, error: E },
    RecordReconciled { item_id: String, order: O },
    ReadClock,
    Wait { delay: u128 },
    FindOrder { store: StoreCredentials, source: String, limit: u128 },
    Publish { progress: BatchProgress },
    Done { result: Result<(), E> },
}

/// A stored batch and the template that its JSON holds, if it holds one.
#[derive(Debug)]
pub struct LoadedBatch {
    pub job: BatchJob,
    pub template: Option<OrderTemplate>,
}

/// What came of a lookup.
#[derive(Debug)]
pub enum LookupOutcome {
    TimedOut,
    Answered(Result<Option<CreatedOrder>, AppError>),
}

/// What came of the last action.
pub enum Event {
    Loaded(Result<LoadedBatch, AppError>),
    Listed(Result<Vec<BatchItem>, AppError>),
    Unlocked(Result<StoreCredentials, AppError>),
    Requeued(Result<Vec<String>, AppError>),
    Claimed(Result<bool, AppError>),
    Stored(Result<(), AppError>),
    StopRequested(bool),
    Clock(u128),
    Created(Result<CreatedOrder, AppError>),
    LookedUp(LookupOutcome),
    /// The wait is over, the way to the claim is free, or progress was shown.
    Resumed,
}

/// Where an operation stands, as it runs.
pub type ExecPoint = Point<AppError, CreateOrderInput, Vec<BatchItem>>;

/// Where an operation stands, as contracts speak of it.
pub type SpecPoint = Point<Failure, InputModel, Seq<BatchItem>>;

/// What the caller is to do, as the operation runs.
pub type ExecAction = Action<AppError, CreateOrderInput, CreatedOrder>;

/// What the caller is to do, as contracts speak of it.
pub type SpecAction = Action<Failure, InputModel, OrderModel>;

/// What stands in the items that are gone through.
pub open spec fn seen_work(work: Work<Vec<BatchItem>>) -> Work<Seq<BatchItem>> {
    Work { frame: work.frame, store: work.store, rest: work.rest@ }
}

/// What stands in what follows.
pub open spec fn seen_then(then: Then<AppError, CreateOrderInput, Vec<BatchItem>>) -> Then<
    Failure,
    InputModel,
    Seq<BatchItem>,
> {
    match then {
        Then::Next { work } => Then::Next { work: seen_work(work) },
        Then::Create { work, item, input } => Then::Create {
            work: seen_work(work),
            item,
            input: input@,
        },
        Then::Reconcile { work, item } => Then::Reconcile { work: seen_work(work), item },
        Then::Finished => Then::Finished,
        Then::Closing => Then::Closing,
        Then::Pausing { error } => Then::Pausing { error: error@ },
    }
}

/// What stands in a goal.
pub open spec fn seen_goal(goal: Goal<CreateOrderInput>) -> Goal<InputModel> {
    match goal {
        Goal::Execute { template, selected } => Goal::Execute { template, selected },
        Goal::Check => Goal::Check,
        Goal::Force { item, input } => Goal::Force { item, input: input@ },
    }
}

/// What stands in a point.
pub open spec fn seen(point: ExecPoint) -> SpecPoint {
    match point {
        Point::RunStatus => Point::RunStatus,
        Point::Validate => Point::Validate,
        Point::RequireRecovered => Point::RequireRecovered,
        Point::ForceFind => Point::ForceFind,
        Point::ForceJob { item } => Point::ForceJob { item },
        Point::Requeueing => Point::Requeueing,
        Point::Stopping => Point::Stopping,
        Point::Recovering => Point::Recovering,
        Point::ResumingStopped => Point::ResumingStopped,
        Point::CheckJob => Point::CheckJob,
        Point::ExecJob { selected } => Point::ExecJob { selected },
        Point::Credentials { goal } => Point::Credentials { goal: seen_goal(goal) },
        Point::Gate { item, store, input } => Point::Gate { item, store, input: input@ },
        Point::ForcedStop { item, store, input } => Point::ForcedStop { item, store, input: input@ },
        Point::ForcedStatus { item, store, input } => Point::ForcedStatus {
            item,
            store,
            input: input@,
        },
        Point::ForcedClaim { item, store, input } => Point::ForcedClaim {
            item,
            store,
            input: input@,
        },
        Point::Starting { template, store, selected } => Point::Starting {
            template,
            store,
            selected,
        },
        Point::SettleList { template, store, selected } => Point::SettleList {
            template,
            store,
            selected,
        },
        Point::SubmitList { template, store, selected } => Point::SubmitList {
            template,
            store,
            selected,
        },
        Point::CheckList { store } => Point::CheckList { store },
        Point::StopCheck { work, item } => Point::StopCheck { work: seen_work(work), item },
        Point::Claim { work, item, input } => Point::Claim {
            work: seen_work(work),
            item,
            input: input@,
        },
        Point::Create { work, item } => Point::Create { work: seen_work(work), item },
        Point::Keeping { work, item } => Point::Keeping { work: seen_work(work), item },
        Point::Rejecting { error } => Point::Rejecting { error: error@ },
        Point::Doubting { work, item } => Point::Doubting { work: seen_work(work), item },
        Point::ClockStart { work, item } => Point::ClockStart { work: seen_work(work), item },
        Point::ClockElapsed { work, item, start, attempt } => Point::ClockElapsed {
            work: seen_work(work),
            item,
            start,
            attempt,
        },
        Point::Waiting { work, item, start, attempt } => Point::Waiting {
            work: seen_work(work),
            item,
            start,
            attempt,
        },
        Point::ClockRemaining { work, item, start, attempt } => Point::ClockRemaining {
            work: seen_work(work),
            item,
            start,
            attempt,
        },
        Point::Lookup { work, item, start, attempt } => Point::Lookup {
            work: seen_work(work),
            item,
            start,
            attempt,
        },
        Point::Recording { work, item } => Point::Recording { work: seen_work(work), item },
        Point::FinishList => Point::FinishList,
        Point::SetFinal => Point::SetFinal,
        Point::EmitJob { batch_id, then } => Point::EmitJob { batch_id, then: seen_then(then) },
        Point::EmitItems { batch_id, job, then } => Point::EmitItems {
            batch_id,
            job,
            then: seen_then(then),
        },
        Point::Publishing { then } => Point::Publishing { then: seen_then(then) },
        Point::SetPaused { error } => Point::SetPaused { error: error@ },
        Point::Ended => Point::Ended,
    }
}

/// What stands in a result.
pub open spec fn seen_result(result: Result<(), AppError>) -> Result<(), Failure> {
    match result {
        Ok(_) => Ok(()),
        Err(error) => Err(error@),
    }
}

/// What stands in an action.
pub open spec fn seen_action(action: ExecAction) -> SpecAction {
    match action {
        Action::LoadBatch { batch_id } => Action::LoadBatch { batch_id },
        Action::ListItems { batch_id } => Action::ListItems { batch_id },
        Action::LoadCredentials { store_id } => Action::LoadCredentials { store_id },
        Action::RecoverInterrupted => Action::RecoverInterrupted,
        Action::ResumeStopped => Action::ResumeStopped,
        Action::RequeueFailed => Action::RequeueFailed,
        Action::StopBatch => Action::StopBatch,
        Action::SetStatus { status } => Action::SetStatus { status },
        Action::CheckStop => Action::CheckStop,
        Action::Claim { item_id } => Action::Claim { item_id },
        Action::PassGate => Action::PassGate,
        Action::ClaimForced { item_id } => Action::ClaimForced { item_id },
        Action::CreateOrder { store, input } => Action::CreateOrder { store, input: input@ },
        Action::MarkSucceeded { item_id, order } => Action::MarkSucceeded { item_id, order: order@ },
        Action::MarkFailed { item_id, error } => Action::MarkFailed { item_id, error: error@ },
        Action::MarkUncertain { item_id, error } => Action::MarkUncertain { item_id, error: error@ },
        Action::RequeueRejected { item_id, error } => Action::RequeueRejected {
            item_id,
            error: error@,
        },
        Action::RecordReconciled { item_id, order } => Action::RecordReconciled {
            item_id,
            order: order@,
        },
        Action::ReadClock => Action::ReadClock,
        Action::Wait { delay } => Action::Wait { delay },
        Action::FindOrder { store, source, limit } => Action::FindOrder { store, source, limit },
        Action::Publish { progress } => Action::Publish { progress },
        Action::Done { result } => Action::Done { result: seen_result(result) },
    }
}

/// Whether `event` is what the operation waits for at `point`.
pub open spec fn fits(point: SpecPoint, event: Event) -> bool {
    match point {
        Point::RunStatus | Point::Validate | Point::ForceJob { .. } | Point::CheckJob
        | Point::ExecJob { .. } | Point::ForcedStatus { .. } | Point::EmitJob { .. } => event
            is Loaded,
        Point::RequireRecovered | Point::ForceFind | Point::SettleList { .. }
        | Point::SubmitList { .. } | Point::CheckList { .. } | Point::FinishList
        | Point::EmitItems { .. } => event is Listed,
        Point::Credentials { .. } => event is Unlocked,
        Point::Requeueing => event is Requeued,
        Point::Claim { .. } => event is Claimed,
        Point::Stopping | Point::Recovering | Point::ResumingStopped | Point::ForcedClaim { .. }
        | Point::Starting { .. } | Point::Keeping { .. } | Point::Rejecting { .. }
        | Point::Doubting { .. } | Point::Recording { .. } | Point::SetFinal
        | Point::SetPaused { .. } => event is Stored,
        Point::ForcedStop { .. } | Point::StopCheck { .. } => event is StopRequested,
        Point::ClockStart { .. } | Point::ClockElapsed { .. } | Point::ClockRemaining { .. } => event
            is Clock,
        Point::Create { .. } => event is Created,
        Point::Lookup { .. } => event is LookedUp,
        Point::Gate { .. } | Point::Waiting { .. } | Point::Publishing { .. } => event is Resumed,
        Point::Ended => false,
    }
}

/// The uncertain ones of `items`, in order.
pub open spec fn uncertain_of(items: Seq<BatchItem>) -> Seq<BatchItem>
    decreases items.len(),
{
    if items.len() == 0 {
        Seq::empty()
    } else if items.last().status == BatchItemStatus::Uncertain {
        uncertain_of(items.drop_last()).push(items.last())
    } else {
        uncertain_of(items.drop_last())
    }
}

/// Whether `item` is queued, and selected where a selection was made.
pub open spec fn is_submittable(item: BatchItem, selected: Option<Vec<String>>) -> bool {
    item.status == BatchItemStatus::Queued && match selected {
        Some(ids) => contents(ids@).contains(item.id@),
        None => true,
    }
}

/// Those of `items` that are to be submitted, in order.
pub open spec fn submittable_of(
    items: Seq<BatchItem>,
    selected: Option<Vec<String>>,
) -> Seq<BatchItem>
    decreases items.len(),
{
    if items.len() == 0 {
        Seq::empty()
    } else if is_submittable(items.last(), selected) {
        submittable_of(items.drop_last(), selected).push(items.last())
    } else {
        submittable_of(items.drop_last(), selected)
    }
}

/// Whether `item` is the uncertain item `item_id`.
pub open spec fn is_chosen(item: BatchItem, item_id: Seq<char>) -> bool {
    item.id@ == item_id && item.status == BatchItemStatus::Uncertain
}

/// The first of `items` that is the uncertain item `item_id`.
pub open spec fn chosen_of(items: Seq<BatchItem>, item_id: Seq<char>) -> Option<BatchItem>
    decreases items.len(),
{
    if items.len() == 0 {
        None
    } else if is_chosen(items[0], item_id) {
        Some(items[0])
    } else {
        chosen_of(items.skip(1), item_id)
    }
}

/// Whether one of `items` is being created.
pub open spec fn any_creating(items: Seq<BatchItem>) -> bool {
    exists|i: int| 0 <= i < items.len() && (#[trigger] items[i]).status == BatchItemStatus::Creating
}

/// The failure for a batch that has to be resumed rather than run.
pub open spec fn run_again_refused() -> Failure {
    lasting("BATCH_RESUME_REQUIRED"@, "请明确选择继续或重试批次"@)
}

/// The failure for a batch in which a creation was interrupted.
pub open spec fn interrupted() -> Failure {
    lasting("BATCH_RESUME_REQUIRED"@, "此批次有被中断的创建请求，请先继续批次以核对结果"@)
}

/// The failure for a batch whose template cannot be read.
pub open spec fn unreadable_template() -> Failure {
    lasting("INVALID_ORDER_TEMPLATE"@, "批次订单模板无效"@)
}

/// The failure for a batch whose store was deleted.
pub open spec fn no_store() -> Failure {
    lasting("STORE_NOT_FOUND"@, "未找到店铺"@)
}

/// The failure for a forced attempt whose risk nobody confirmed.
pub open spec fn unconfirmed_risk() -> Failure {
    lasting(
        "DUPLICATE_RISK_CONFIRMATION_REQUIRED"@,
        "强制重试可能创建重复订单，必须明确确认此风险"@,
    )
}

/// The failure for a forced attempt at an item that is not uncertain.
pub open spec fn not_uncertain() -> Failure {
    lasting("INVALID_ITEM_TRANSITION"@, "仅此批次中结果待确认的项目允许强制重试"@)
}

/// The failure for a forced attempt that a stop came before.
pub open spec fn stopped_before_claim() -> Failure {
    lasting("BATCH_STOPPED"@, "批次已停止，未执行强制重试"@)
}

/// The operation ends with `result`.
pub open spec fn end_with(result: Result<(), Failure>) -> (SpecPoint, SpecAction) {
    (Point::Ended, Action::Done { result })
}

/// The batch is paused, and the operation then ends with `error`.
pub open spec fn pause_with(error: Failure) -> (SpecPoint, SpecAction) {
    (Point::SetPaused { error }, Action::SetStatus { status: BatchStatus::Paused })
}

/// The progress of the batch is shown before `then`.
pub open spec fn show_before(
    batch_id: String,
    then: Then<Failure, InputModel, Seq<BatchItem>>,
) -> (SpecPoint, SpecAction) {
    (Point::EmitJob { batch_id, then }, Action::LoadBatch { batch_id })
}

/// What follows where progress cannot be shown.
pub open spec fn show_failed(
    then: Then<Failure, InputModel, Seq<BatchItem>>,
    error: Failure,
) -> (SpecPoint, SpecAction) {
    match then {
        Then::Pausing { error: first } => end_with(Err(first)),
        Then::Closing => end_with(Err(error)),
        _ => pause_with(error),
    }
}

/// The items are all gone through: the batch gets its last status.
pub open spec fn finish(request: Request) -> (SpecPoint, SpecAction) {
    (Point::FinishList, Action::ListItems { batch_id: request.batch_id })
}

/// The order of `item` is looked for.
pub open spec fn look_for(work: Work<Seq<BatchItem>>, item: BatchItem) -> (SpecPoint, SpecAction) {
    (Point::ClockStart { work, item }, Action::ReadClock)
}

/// The work that is left once its first item is taken.
pub open spec fn without_first(work: Work<Seq<BatchItem>>) -> Work<Seq<BatchItem>> {
    Work { rest: work.rest.skip(1), ..work }
}

/// The next item, or what follows where there is none.
pub open spec fn go_on(request: Request, work: Work<Seq<BatchItem>>) -> (SpecPoint, SpecAction) {
    match work.frame {
        Frame::Settling { template } => if work.rest.len() == 0 {
            (
                Point::SubmitList { template, store: work.store, selected: None },
                Action::ListItems { batch_id: request.batch_id },
            )
        } else {
            look_for(without_first(work), work.rest[0])
        },
        Frame::Submitting { .. } => if work.rest.len() == 0 {
            finish(request)
        } else {
            (
                Point::StopCheck { work: without_first(work), item: work.rest[0] },
                Action::CheckStop,
            )
        },
        Frame::Checking => if work.rest.len() == 0 {
            finish(request)
        } else {
            look_for(without_first(work), work.rest[0])
        },
        Frame::Forcing => finish(request),
    }
}

/// The lookups of `item` are over.
pub open spec fn looked_for(
    request: Request,
    work: Work<Seq<BatchItem>>,
    item: BatchItem,
) -> (SpecPoint, SpecAction) {
    match work.frame {
        Frame::Settling { .. } | Frame::Checking => show_before(
            request.batch_id,
            Then::Next { work },
        ),
        Frame::Submitting { .. } | Frame::Forcing => show_before(
            item.batch_id,
            Then::Next { work },
        ),
    }
}

/// The orders of the batch, or of its `selected` items, are created.
pub open spec fn execute(request: Request, selected: Option<Vec<String>>) -> (
    SpecPoint,
    SpecAction,
) {
    (Point::ExecJob { selected }, Action::LoadBatch { batch_id: request.batch_id })
}

/// The credentials of the store of `job` are fetched for `goal`.
pub open spec fn fetch_credentials(job: BatchJob, goal: Goal<InputModel>) -> (
    SpecPoint,
    SpecAction,
) {
    match job.store_id {
        Some(store_id) => (Point::Credentials { goal }, Action::LoadCredentials { store_id }),
        None => pause_with(no_store()),
    }
}

/// The first step of an operation.
pub open spec fn begin(request: Request) -> (SpecPoint, SpecAction) {
    let load = Action::LoadBatch { batch_id: request.batch_id };
    let list = Action::ListItems { batch_id: request.batch_id };
    match request.kind {
        Kind::Run => (Point::RunStatus, load),
        Kind::Resume => (Point::Validate, load),
        Kind::RetryFailed => (Point::RequireRecovered, list),
        Kind::Stop => (Point::Stopping, Action::StopBatch),
        Kind::Reconcile => (Point::Recovering, Action::RecoverInterrupted),
        Kind::Force { risk_confirmed, .. } => if risk_confirmed {
            (Point::RequireRecovered, list)
        } else {
            end_with(Err(unconfirmed_risk()))
        },
    }
}

/// What follows a batch that was loaded before anything was written.
pub open spec fn checked_batch(request: Request, point: SpecPoint, batch: LoadedBatch) -> (
    SpecPoint,
    SpecAction,
) {
    if point is RunStatus {
        if batch.job.status@ == "pending"@ {
            (Point::Validate, Action::LoadBatch { batch_id: request.batch_id })
        } else {
            end_with(Err(run_again_refused()))
        }
    } else {
        match batch.template {
            None => end_with(Err(unreadable_template())),
            Some(template) => {
                let source = match point {
                    Point::ForceJob { item } => item.source_identifier@,
                    _ => source_text(request.batch_id@, 1),
                };
                match order_problem(template, source, request.paid_confirmed) {
                    Some(problem) => end_with(Err(problem)),
                    None => match point {
                        Point::ForceJob { item } => fetch_credentials(
                            batch.job,
                            Goal::Force { item, input: order_input(template, source) },
                        ),
                        _ => match request.kind {
                            Kind::Resume => (Point::Recovering, Action::RecoverInterrupted),
                            Kind::RetryFailed => (Point::Requeueing, Action::RequeueFailed),
                            _ => execute(request, None),
                        },
                    },
                }
            },
        }
    }
}

/// What follows a batch that was loaded at `point`.
pub open spec fn after_load(
    request: Request,
    point: SpecPoint,
    loaded: Result<LoadedBatch, AppError>,
) -> (SpecPoint, SpecAction) {
    match loaded {
        Err(error) => match point {
            Point::RunStatus | Point::Validate | Point::ForceJob { .. } => end_with(Err(error@)),
            Point::EmitJob { then, .. } => show_failed(then, error@),
            _ => pause_with(error@),
        },
        Ok(batch) => match point {
            Point::CheckJob => fetch_credentials(batch.job, Goal::Check),
            Point::ExecJob { selected } => match batch.template {
                None => pause_with(unreadable_template()),
                Some(template) => fetch_credentials(
                    batch.job,
                    Goal::Execute { template, selected },
                ),
            },
            Point::ForcedStatus { item, store, input } => if batch.job.status@ == "stopping"@
                || batch.job.status@ == "paused"@ {
                pause_with(stopped_before_claim())
            } else {
                (
                    Point::ForcedClaim { item, store, input },
                    Action::ClaimForced { item_id: item.id },
                )
            },
            Point::EmitJob { batch_id, then } => (
                Point::EmitItems { batch_id, job: batch.job, then },
                Action::ListItems { batch_id },
            ),
            _ => checked_batch(request, point, batch),
        },
    }
}

/// What follows items that were listed at `point`.
pub open spec fn after_list(
    request: Request,
    point: SpecPoint,
    listed: Result<Vec<BatchItem>, AppError>,
) -> (SpecPoint, SpecAction) {
    match listed {
        Err(error) => match point {
            Point::RequireRecovered | Point::ForceFind => end_with(Err(error@)),
            Point::EmitItems { then, .. } => show_failed(then, error@),
            _ => pause_with(error@),
        },
        Ok(items) => match point {
            Point::RequireRecovered => if any_creating(items@) {
                end_with(Err(interrupted()))
            } else if request.kind is Force {
                (Point::ForceFind, Action::ListItems { batch_id: request.batch_id })
            } else {
                (Point::Validate, Action::LoadBatch { batch_id: request.batch_id })
            },
            Point::ForceFind => match chosen_of(items@, request.kind->item_id@) {
                Some(item) => (
                    Point::ForceJob { item },
                    Action::LoadBatch { batch_id: request.batch_id },
                ),
                None => end_with(Err(not_uncertain())),
            },
            Point::SettleList { template, store, selected } => if selected is None {
                go_on(
                    request,
                    Work {
                        frame: Frame::Settling { template },
                        store,
                        rest: uncertain_of(items@),
                    },
                )
            } else {
                (
                    Point::SubmitList { template, store, selected },
                    Action::ListItems { batch_id: request.batch_id },
                )
            },
            Point::SubmitList { template, store, selected } => go_on(
                request,
                Work {
                    frame: Frame::Submitting { template },
                    store,
                    rest: submittable_of(items@, selected),
                },
            ),
            Point::CheckList { store } => go_on(
                request,
                Work { frame: Frame::Checking, store, rest: uncertain_of(items@) },
            ),
            Point::EmitItems { batch_id, job, then } => (
                Point::Publishing { then },
                Action::Publish { progress: shown(batch_id, job, items) },
            ),
            _ => (Point::SetFinal, Action::SetStatus { status: closing_status(items@) }),
        },
    }
}

/// What follows credentials that were fetched for `goal`.
pub open spec fn after_credentials(
    request: Request,
    goal: Goal<InputModel>,
    unlocked: Result<StoreCredentials, AppError>,
) -> (SpecPoint, SpecAction) {
    match unlocked {
        Err(error) => pause_with(error@),
        Ok(store) => match goal {
            Goal::Execute { template, selected } => (
                Point::Starting { template, store, selected },
                Action::SetStatus { status: BatchStatus::Running },
            ),
            Goal::Check => (
                Point::CheckList { store },
                Action::ListItems { batch_id: request.batch_id },
            ),
            Goal::Force { item, input } => (Point::Gate { item, store, input }, Action::PassGate),
        },
    }
}

/// What follows a write at `point`.
pub open spec fn after_write(
    request: Request,
    point: SpecPoint,
    stored: Result<(), AppError>,
) -> (SpecPoint, SpecAction) {
    match point {
        Point::SetPaused { error } => show_before(request.batch_id, Then::Pausing { error }),
        _ => match stored {
            Err(error) => pause_with(error@),
            Ok(_) => match point {
                Point::Stopping => show_before(request.batch_id, Then::Closing),
                Point::Recovering => if request.kind is Resume {
                    (Point::ResumingStopped, Action::ResumeStopped)
                } else {
                    (Point::CheckJob, Action::LoadBatch { batch_id: request.batch_id })
                },
                Point::ResumingStopped => execute(request, None),
                Point::ForcedClaim { item, store, input } => show_before(
                    item.batch_id,
                    Then::Create {
                        work: Work { frame: Frame::Forcing, store, rest: Seq::empty() },
                        item,
                        input,
                    },
                ),
                Point::Starting { template, store, selected } => (
                    Point::SettleList { template, store, selected },
                    Action::ListItems { batch_id: request.batch_id },
                ),
                Point::Keeping { work, item } => show_before(item.batch_id, Then::Next { work }),
                Point::Rejecting { error } => pause_with(error),
                Point::Doubting { work, item } => show_before(
                    item.batch_id,
                    Then::Reconcile { work, item },
                ),
                Point::Recording { work, item } => looked_for(request, work, item),
                _ => show_before(request.batch_id, Then::Finished),
            },
        },
    }
}

/// What follows the answer whether a stop was asked for, before `item` is submitted.
pub open spec fn after_stop_check(
    request: Request,
    work: Work<Seq<BatchItem>>,
    item: BatchItem,
    stop: bool,
) -> (SpecPoint, SpecAction) {
    match work.frame {
        Frame::Submitting { template } => if stop {
            finish(request)
        } else {
            match order_problem(template, item.source_identifier@, request.paid_confirmed) {
                Some(problem) => pause_with(problem),
                None => (
                    Point::Claim {
                        work,
                        item,
                        input: order_input(template, item.source_identifier@),
                    },
                    Action::Claim { item_id: item.id },
                ),
            }
        },
        _ => finish(request),
    }
}

/// What follows the answer of the shop to the creation of the order of `item`. An item that was
/// uncertain before stays so unless its order was created: the new answer says nothing of the
/// earlier attempt.
pub open spec fn after_creation(
    work: Work<Seq<BatchItem>>,
    item: BatchItem,
    created: Result<CreatedOrder, AppError>,
) -> (SpecPoint, SpecAction) {
    let token = work.store.access_token@;
    match created {
        Ok(order) => (
            Point::Keeping { work, item },
            Action::MarkSucceeded { item_id: item.id, order: concealed_order(order@, token) },
        ),
        Err(e) => {
            let error = concealed_failure(e@, token);
            let was_uncertain = item.status == BatchItemStatus::Uncertain;
            if is_access_failure(error) {
                if was_uncertain {
                    (
                        Point::Rejecting { error },
                        Action::MarkUncertain { item_id: item.id, error },
                    )
                } else {
                    (
                        Point::Rejecting { error },
                        Action::RequeueRejected { item_id: item.id, error },
                    )
                }
            } else if !was_uncertain && is_definite_rejection(error) {
                (Point::Keeping { work, item }, Action::MarkFailed { item_id: item.id, error })
            } else {
                (Point::Doubting { work, item }, Action::MarkUncertain { item_id: item.id, error })
            }
        },
    }
}

/// `a - b`, but at least none.
pub open spec fn less(a: u128, b: u128) -> u128 {
    if a > b {
        (a - b) as u128
    } else {
        0
    }
}

/// What follows a look at the clock at `point`.
pub open spec fn after_clock(request: Request, point: SpecPoint, now: u128) -> (
    SpecPoint,
    SpecAction,
) {
    match point {
        Point::ClockElapsed { work, item, start, attempt } => {
            let elapsed = less(now, start);
            let scheduled = (attempt * LOOKUP_INTERVAL) as u128;
            if elapsed < scheduled {
                (
                    Point::Waiting { work, item, start, attempt },
                    Action::Wait { delay: (scheduled - elapsed) as u128 },
                )
            } else {
                (Point::ClockRemaining { work, item, start, attempt }, Action::ReadClock)
            }
        },
        Point::ClockRemaining { work, item, start, attempt } => {
            let remaining = less(RECONCILIATION_WINDOW, less(now, start));
            if remaining == 0 {
                looked_for(request, work, item)
            } else {
                (
                    Point::Lookup { work, item, start, attempt },
                    Action::FindOrder {
                        store: work.store,
                        source: item.source_identifier,
                        limit: if remaining <= LOOKUP_INTERVAL {
                            remaining
                        } else {
                            LOOKUP_INTERVAL
                        },
                    },
                )
            }
        },
        Point::ClockStart { work, item } => (
            Point::ClockElapsed { work, item, start: now, attempt: 0 },
            Action::ReadClock,
        ),
        _ => end_with(Ok(())),
    }
}

/// What follows a lookup of the order of `item`. A lookup that fails proves nothing: the item stays
/// uncertain.
pub open spec fn after_lookup(
    request: Request,
    work: Work<Seq<BatchItem>>,
    item: BatchItem,
    start: u128,
    attempt: u32,
    outcome: LookupOutcome,
) -> (SpecPoint, SpecAction) {
    let token = work.store.access_token@;
    match outcome {
        LookupOutcome::Answered(Ok(Some(order))) => (
            Point::Recording { work, item },
            Action::RecordReconciled { item_id: item.id, order: concealed_order(order@, token) },
        ),
        LookupOutcome::Answered(Ok(None)) => if attempt + 1 < MAX_LOOKUPS {
            (
                Point::ClockElapsed { work, item, start, attempt: (attempt + 1) as u32 },
                Action::ReadClock,
            )
        } else {
            looked_for(request, work, item)
        },
        LookupOutcome::Answered(Err(error)) => if is_access_failure(error@) {
            pause_with(concealed_failure(error@, token))
        } else {
            looked_for(request, work, item)
        },
        LookupOutcome::TimedOut => looked_for(request, work, item),
    }
}

/// What follows once progress is shown.
pub open spec fn after_show(
    request: Request,
    then: Then<Failure, InputModel, Seq<BatchItem>>,
) -> (SpecPoint, SpecAction) {
    match then {
        Then::Next { work } => go_on(request, work),
        Then::Create { work, item, input } => (
            Point::Create { work, item },
            Action::CreateOrder { store: work.store, input },
        ),
        Then::Reconcile { work, item } => look_for(work, item),
        Then::Finished => end_with(Ok(())),
        Then::Closing => end_with(Ok(())),
        Then::Pausing { error } => end_with(Err(error)),
    }
}

/// What follows `event` at `point`: the next point, and what the caller is to do.
pub open spec fn advance(request: Request, point: SpecPoint, event: Event) -> (
    SpecPoint,
    SpecAction,
) {
    match event {
        Event::Loaded(loaded) => after_load(request, point, loaded),
        Event::Listed(listed) => after_list(request, point, listed),
        Event::Unlocked(unlocked) => match point {
            Point::Credentials { goal } => after_credentials(request, goal, unlocked),
            _ => end_with(Ok(())),
        },
        Event::Requeued(requeued) => match requeued {
            Err(error) => pause_with(error@),
            Ok(ids) => if ids@.len() == 0 {
                show_before(request.batch_id, Then::Closing)
            } else {
                execute(request, Some(ids))
            },
        },
        Event::Claimed(claimed) => match point {
            Point::Claim { work, item, input } => match claimed {
                Err(error) => pause_with(error@),
                Ok(true) => show_before(item.batch_id, Then::Create { work, item, input }),
                Ok(false) => finish(request),
            },
            _ => end_with(Ok(())),
        },
        Event::Stored(stored) => after_write(request, point, stored),
        Event::StopRequested(stop) => match point {
            Point::ForcedStop { item, store, input } => if stop {
                pause_with(stopped_before_claim())
            } else {
                (
                    Point::ForcedStatus { item, store, input },
                    Action::LoadBatch { batch_id: request.batch_id },
                )
            },
            Point::StopCheck { work, item } => after_stop_check(request, work, item, stop),
            _ => end_with(Ok(())),
        },
        Event::Clock(now) => after_clock(request, point, now),
        Event::Created(created) => match point {
            Point::Create { work, item } => after_creation(work, item, created),
            _ => end_with(Ok(())),
        },
        Event::LookedUp(outcome) => match point {
            Point::Lookup { work, item, start, attempt } => after_lookup(
                request,
                work,
                item,
                start,
                attempt,
                outcome,
            ),
            _ => end_with(Ok(())),
        },
        Event::Resumed => match point {
            Point::Gate { item, store, input } => (
                Point::ForcedStop { item, store, input },
                Action::CheckStop,
            ),
            Point::Waiting { work, item, start, attempt } => (
                Point::ClockRemaining { work, item, start, attempt },
                Action::ReadClock,
            ),
            Point::Publishing { then } => after_show(request, then),
            _ => end_with(Ok(())),
        },
    }
}

} // verus!
