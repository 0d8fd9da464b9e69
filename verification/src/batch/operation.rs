//! One operation on a batch, from the first look at it to its result. The caller does what it is
//! told, one action at a time, and reports what came of it.
use vstd::prelude::*;

use crate::batch::machine::{
    advance, after_clock, after_creation, after_credentials, after_list, after_load, after_lookup,
    after_show, after_stop_check, after_write, any_creating, begin, checked_batch, chosen_of,
    end_with, execute, fetch_credentials, finish, fits, go_on, less, look_for, looked_for,
    pause_with, seen, seen_action, seen_goal, seen_result, seen_then, seen_work, show_before,
    show_failed, stopped_before_claim, submittable_of, uncertain_of, unreadable_template, Action,
    Event, ExecAction, ExecPoint, Frame, Goal, Kind, LoadedBatch, LookupOutcome, Point, Request,
    SpecAction, SpecPoint, Then, Work, LOOKUP_INTERVAL, MAX_LOOKUPS, RECONCILIATION_WINDOW,
};
use crate::batch::{
    final_status, is_access_error, is_rejection, progress_of, sanitize_order, BatchStatus,
};
use crate::domain::{BatchItem, BatchItemStatus, BatchJob};
use crate::error::AppError;
use crate::identifier::source_identifier;
use crate::repository::StoreCredentials;
use crate::shopify::graphql::{CreateOrderInput, CreatedOrder};
use crate::text::{contents, same_text};

verus! {

/// What stands in a step.
pub open spec fn seen_step(step: (ExecPoint, ExecAction)) -> (SpecPoint, SpecAction) {
    (seen(step.0), seen_action(step.1))
}

/// The uncertain ones of `items`.
fn select_uncertain(items: Vec<BatchItem>) -> (r: Vec<BatchItem>)
    ensures
        r@ == uncertain_of(items@),
{
    let ghost all = items@;
    let mut kept: Vec<BatchItem> = Vec::new();
    for item in it: items
        invariant
            it.seq() == all,
            kept@ == uncertain_of(all.take(it.index())),
    {
        assert(all.take(it.index() + 1).drop_last() == all.take(it.index()));
        if item.status == BatchItemStatus::Uncertain {
            kept.push(item);
        }
    }
    assert(all.take(all.len() as int) == all);
    kept
}

/// Whether `ids` holds `id`.
fn holds_id(ids: &Vec<String>, id: &str) -> (r: bool)
    ensures
        r == contents(ids@).contains(id@),
{
    let ghost all = contents(ids@);
    let mut i: usize = 0;
    while i < ids.len()
        invariant
            i <= ids.len(),
            all == contents(ids@),
            forall|k: int| 0 <= k < i ==> #[trigger] all[k] != id@,
        decreases ids.len() - i,
    {
        if same_text(ids[i].as_str(), id) {
            assert(all[i as int] == id@);
            return true;
        }
        i = i + 1;
    }
    false
}

/// Those of `items` that are to be submitted.
fn select_submittable(items: Vec<BatchItem>, selected: &Option<Vec<String>>) -> (r: Vec<BatchItem>)
    ensures
        r@ == submittable_of(items@, *selected),
{
    let ghost all = items@;
    let mut kept: Vec<BatchItem> = Vec::new();
    for item in it: items
        invariant
            it.seq() == all,
            kept@ == submittable_of(all.take(it.index()), *selected),
    {
        assert(all.take(it.index() + 1).drop_last() == all.take(it.index()));
        let wanted = match selected {
            Some(ids) => holds_id(ids, item.id.as_str()),
            None => true,
        };
        if item.status == BatchItemStatus::Queued && wanted {
            kept.push(item);
        }
    }
    assert(all.take(all.len() as int) == all);
    kept
}

/// The first of `items` that is the uncertain item `item_id`.
fn select_chosen(items: &Vec<BatchItem>, item_id: &str) -> (r: Option<BatchItem>)
    ensures
        r == chosen_of(items@, item_id@),
{
    let mut i: usize = 0;
    assert(items@.skip(0) == items@);
    while i < items.len()
        invariant
            i <= items.len(),
            chosen_of(items@, item_id@) == chosen_of(items@.skip(i as int), item_id@),
        decreases items.len() - i,
    {
        assert(items@.skip(i as int).skip(1) == items@.skip(i + 1));
        if items[i].status == BatchItemStatus::Uncertain && same_text(
            items[i].id.as_str(),
            item_id,
        ) {
            return Some(items[i].clone());
        }
        i = i + 1;
    }
    None
}

/// Whether one of `items` is being created.
fn has_creating(items: &Vec<BatchItem>) -> (r: bool)
    ensures
        r == any_creating(items@),
{
    let mut i: usize = 0;
    while i < items.len()
        invariant
            i <= items.len(),
            forall|k: int|
                0 <= k < i ==> (#[trigger] items@[k]).status != BatchItemStatus::Creating,
        decreases items.len() - i,
    {
        if items[i].status == BatchItemStatus::Creating {
            assert(items@[i as int].status == BatchItemStatus::Creating);
            return true;
        }
        i = i + 1;
    }
    false
}

/// `a - b`, but at least none.
fn remainder(a: u128, b: u128) -> (r: u128)
    ensures
        r == less(a, b),
{
    if a > b {
        a - b
    } else {
        0
    }
}

// Each function `step_..` below takes one step as the machine describes it.
fn step_end(result: Result<(), AppError>) -> (r: (ExecPoint, ExecAction))
    ensures
        seen_step(r) == end_with(seen_result(result)),
{
    (Point::Ended, Action::Done { result })
}

fn step_pause(error: AppError) -> (r: (ExecPoint, ExecAction))
    ensures
        seen_step(r) == pause_with(error@),
{
    (Point::SetPaused { error }, Action::SetStatus { status: BatchStatus::Paused })
}

fn step_show(batch_id: String, then: Then<AppError, CreateOrderInput, Vec<BatchItem>>) -> (r: (
    ExecPoint,
    ExecAction,
))
    ensures
        seen_step(r) == show_before(batch_id, seen_then(then)),
{
    let action = Action::LoadBatch { batch_id: batch_id.clone() };
    (Point::EmitJob { batch_id, then }, action)
}

fn step_show_failed(
    then: Then<AppError, CreateOrderInput, Vec<BatchItem>>,
    error: AppError,
) -> (r: (ExecPoint, ExecAction))
    ensures
        seen_step(r) == show_failed(seen_then(then), error@),
{
    match then {
        Then::Pausing { error: first } => step_end(Err(first)),
        Then::Closing => step_end(Err(error)),
        _ => step_pause(error),
    }
}

fn step_finish(request: &Request) -> (r: (ExecPoint, ExecAction))
    ensures
        seen_step(r) == finish(*request),
{
    (Point::FinishList, Action::ListItems { batch_id: request.batch_id.clone() })
}

fn step_look_for(work: Work<Vec<BatchItem>>, item: BatchItem) -> (r: (ExecPoint, ExecAction))
    ensures
        seen_step(r) == look_for(seen_work(work), item),
{
    (Point::ClockStart { work, item }, Action::ReadClock)
}

fn step_go_on(request: &Request, work: Work<Vec<BatchItem>>) -> (r: (ExecPoint, ExecAction))
    ensures
        seen_step(r) == go_on(*request, seen_work(work)),
{
    let Work { frame, store, rest } = work;
    match frame {
        Frame::Settling { template } => {
            if rest.len() == 0 {
                return (
                    Point::SubmitList { template, store, selected: None },
                    Action::ListItems { batch_id: request.batch_id.clone() },
                );
            }
            let (item, rest) = take_first(rest);
            step_look_for(Work { frame: Frame::Settling { template }, store, rest }, item)
        },
        Frame::Submitting { template } => {
            if rest.len() == 0 {
                return step_finish(request);
            }
            let (item, rest) = take_first(rest);
            (
                Point::StopCheck {
                    work: Work { frame: Frame::Submitting { template }, store, rest },
                    item,
                },
                Action::CheckStop,
            )
        },
        Frame::Checking => {
            if rest.len() == 0 {
                return step_finish(request);
            }
            let (item, rest) = take_first(rest);
            step_look_for(Work { frame: Frame::Checking, store, rest }, item)
        },
        Frame::Forcing => step_finish(request),
    }
}

/// The first item and the others.
fn take_first(items: Vec<BatchItem>) -> (r: (BatchItem, Vec<BatchItem>))
    requires
        items.len() > 0,
    ensures
        r.0 == items@[0],
        r.1@ == items@.skip(1),
{
    let mut rest = items;
    let item = rest.remove(0);
    assert(rest@ =~= items@.skip(1));
    (item, rest)
}

fn step_looked_for(request: &Request, work: Work<Vec<BatchItem>>, item: BatchItem) -> (r: (
    ExecPoint,
    ExecAction,
))
    ensures
        seen_step(r) == looked_for(*request, seen_work(work), item),
{
    let own = match &work.frame {
        Frame::Settling { .. } | Frame::Checking => false,
        Frame::Submitting { .. } | Frame::Forcing => true,
    };
    if own {
        step_show(item.batch_id, Then::Next { work })
    } else {
        step_show(request.batch_id.clone(), Then::Next { work })
    }
}

fn step_execute(request: &Request, selected: Option<Vec<String>>) -> (r: (ExecPoint, ExecAction))
    ensures
        seen_step(r) == execute(*request, selected),
{
    (Point::ExecJob { selected }, Action::LoadBatch { batch_id: request.batch_id.clone() })
}

fn step_fetch_credentials(job: BatchJob, goal: Goal<CreateOrderInput>) -> (r: (
    ExecPoint,
    ExecAction,
))
    ensures
        seen_step(r) == fetch_credentials(job, seen_goal(goal)),
{
    match job.store_id {
        Some(store_id) => (Point::Credentials { goal }, Action::LoadCredentials { store_id }),
        None => step_pause(AppError::validation("STORE_NOT_FOUND", "未找到店铺")),
    }
}

fn template_error() -> (r: AppError)
    ensures
        r@ == unreadable_template(),
{
    AppError::validation("INVALID_ORDER_TEMPLATE", "批次订单模板无效")
}

fn stopped_error() -> (r: AppError)
    ensures
        r@ == stopped_before_claim(),
{
    AppError::validation("BATCH_STOPPED", "批次已停止，未执行强制重试")
}

fn step_checked_batch(request: &Request, point: ExecPoint, batch: LoadedBatch) -> (r: (
    ExecPoint,
    ExecAction,
))
    ensures
        seen_step(r) == checked_batch(*request, seen(point), batch),
{
    let item = match point {
        Point::RunStatus => {
            return if same_text(batch.job.status.as_str(), "pending") {
                (Point::Validate, Action::LoadBatch { batch_id: request.batch_id.clone() })
            } else {
                step_end(
                    Err(
                        AppError::validation(
                            "BATCH_RESUME_REQUIRED",
                            "请明确选择继续或重试批次",
                        ),
                    ),
                )
            };
        },
        Point::ForceJob { item } => Some(item),
        _ => None,
    };
    let template = match batch.template {
        Some(template) => template,
        None => {
            return step_end(Err(template_error()));
        },
    };
    match item {
        Some(item) => {
            match CreateOrderInput::from_template(
                template,
                item.source_identifier.as_str(),
                request.paid_confirmed,
            ) {
                Err(error) => step_end(Err(error)),
                Ok(input) => step_fetch_credentials(batch.job, Goal::Force { item, input }),
            }
        },
        None => {
            let source = source_identifier(request.batch_id.as_str(), 1);
            match CreateOrderInput::from_template(
                template,
                source.as_str(),
                request.paid_confirmed,
            ) {
                Err(error) => step_end(Err(error)),
                Ok(_) => match &request.kind {
                    Kind::Resume => (Point::Recovering, Action::RecoverInterrupted),
                    Kind::RetryFailed => (Point::Requeueing, Action::RequeueFailed),
                    _ => step_execute(request, None),
                },
            }
        },
    }
}

fn step_after_load(
    request: &Request,
    point: ExecPoint,
    loaded: Result<LoadedBatch, AppError>,
) -> (r: (ExecPoint, ExecAction))
    ensures
        seen_step(r) == after_load(*request, seen(point), loaded),
{
    match loaded {
        Err(error) => match point {
            Point::RunStatus | Point::Validate | Point::ForceJob { .. } => step_end(Err(error)),
            Point::EmitJob { then, .. } => step_show_failed(then, error),
            _ => step_pause(error),
        },
        Ok(batch) => match point {
            Point::CheckJob => step_fetch_credentials(batch.job, Goal::Check),
            Point::ExecJob { selected } => match batch.template {
                None => step_pause(template_error()),
                Some(template) => step_fetch_credentials(
                    batch.job,
                    Goal::Execute { template, selected },
                ),
            },
            Point::ForcedStatus { item, store, input } => {
                let status = batch.job.status.as_str();
                if same_text(status, "stopping") || same_text(status, "paused") {
                    step_pause(stopped_error())
                } else {
                    let item_id = item.id.clone();
                    (Point::ForcedClaim { item, store, input }, Action::ClaimForced { item_id })
                }
            },
            Point::EmitJob { batch_id, then } => {
                let action = Action::ListItems { batch_id: batch_id.clone() };
                (Point::EmitItems { batch_id, job: batch.job, then }, action)
            },
            _ => step_checked_batch(request, point, batch),
        },
    }
}

fn step_after_list(
    request: &Request,
    point: ExecPoint,
    listed: Result<Vec<BatchItem>, AppError>,
) -> (r: (ExecPoint, ExecAction))
    requires
        point is ForceFind ==> request.kind is Force,
    ensures
        seen_step(r) == after_list(*request, seen(point), listed),
{
    match listed {
        Err(error) => match point {
            Point::RequireRecovered | Point::ForceFind => step_end(Err(error)),
            Point::EmitItems { then, .. } => step_show_failed(then, error),
            _ => step_pause(error),
        },
        Ok(items) => match point {
            Point::RequireRecovered => {
                if has_creating(&items) {
                    step_end(
                        Err(
                            AppError::validation(
                                "BATCH_RESUME_REQUIRED",
                                "此批次有被中断的创建请求，请先继续批次以核对结果",
                            ),
                        ),
                    )
                } else {
                    let batch_id = request.batch_id.clone();
                    match &request.kind {
                        Kind::Force { .. } => (Point::ForceFind, Action::ListItems { batch_id }),
                        _ => (Point::Validate, Action::LoadBatch { batch_id }),
                    }
                }
            },
            Point::ForceFind => {
                let chosen = match &request.kind {
                    Kind::Force { item_id, .. } => select_chosen(&items, item_id.as_str()),
                    _ => None,
                };
                match chosen {
                    Some(item) => (
                        Point::ForceJob { item },
                        Action::LoadBatch { batch_id: request.batch_id.clone() },
                    ),
                    None => step_end(
                        Err(
                            AppError::validation(
                                "INVALID_ITEM_TRANSITION",
                                "仅此批次中结果待确认的项目允许强制重试",
                            ),
                        ),
                    ),
                }
            },
            Point::SettleList { template, store, selected } => if selected.is_none() {
                let rest = select_uncertain(items);
                step_go_on(request, Work { frame: Frame::Settling { template }, store, rest })
            } else {
                (
                    Point::SubmitList { template, store, selected },
                    Action::ListItems { batch_id: request.batch_id.clone() },
                )
            },
            Point::SubmitList { template, store, selected } => {
                let rest = select_submittable(items, &selected);
                step_go_on(request, Work { frame: Frame::Submitting { template }, store, rest })
            },
            Point::CheckList { store } => {
                let rest = select_uncertain(items);
                step_go_on(request, Work { frame: Frame::Checking, store, rest })
            },
            Point::EmitItems { batch_id, job, then } => (
                Point::Publishing { then },
                Action::Publish { progress: progress_of(batch_id, job, items) },
            ),
            _ => (Point::SetFinal, Action::SetStatus { status: final_status(&items) }),
        },
    }
}

fn step_after_credentials(
    request: &Request,
    goal: Goal<CreateOrderInput>,
    unlocked: Result<StoreCredentials, AppError>,
) -> (r: (ExecPoint, ExecAction))
    ensures
        seen_step(r) == after_credentials(*request, seen_goal(goal), unlocked),
{
    match unlocked {
        Err(error) => step_pause(error),
        Ok(store) => match goal {
            Goal::Execute { template, selected } => (
                Point::Starting { template, store, selected },
                Action::SetStatus { status: BatchStatus::Running },
            ),
            Goal::Check => (
                Point::CheckList { store },
                Action::ListItems { batch_id: request.batch_id.clone() },
            ),
            Goal::Force { item, input } => (Point::Gate { item, store, input }, Action::PassGate),
        },
    }
}

fn step_after_write(request: &Request, point: ExecPoint, stored: Result<(), AppError>) -> (r: (
    ExecPoint,
    ExecAction,
))
    ensures
        seen_step(r) == after_write(*request, seen(point), stored),
{
    if let Point::SetPaused { error } = point {
        return step_show(request.batch_id.clone(), Then::Pausing { error });
    }
    match stored {
        Err(error) => step_pause(error),
        Ok(_) => match point {
            Point::Stopping => step_show(request.batch_id.clone(), Then::Closing),
            Point::Recovering => match &request.kind {
                Kind::Resume => (Point::ResumingStopped, Action::ResumeStopped),
                _ => (Point::CheckJob, Action::LoadBatch { batch_id: request.batch_id.clone() }),
            },
            Point::ResumingStopped => step_execute(request, None),
            Point::ForcedClaim { item, store, input } => {
                let batch_id = item.batch_id.clone();
                let work = Work { frame: Frame::Forcing, store, rest: Vec::new() };
                step_show(batch_id, Then::Create { work, item, input })
            },
            Point::Starting { template, store, selected } => (
                Point::SettleList { template, store, selected },
                Action::ListItems { batch_id: request.batch_id.clone() },
            ),
            Point::Keeping { work, item } => step_show(item.batch_id, Then::Next { work }),
            Point::Rejecting { error } => step_pause(error),
            Point::Doubting { work, item } => {
                let batch_id = item.batch_id.clone();
                step_show(batch_id, Then::Reconcile { work, item })
            },
            Point::Recording { work, item } => step_looked_for(request, work, item),
            _ => step_show(request.batch_id.clone(), Then::Finished),
        },
    }
}

fn step_after_stop_check(
    request: &Request,
    work: Work<Vec<BatchItem>>,
    item: BatchItem,
    stop: bool,
) -> (r: (ExecPoint, ExecAction))
    ensures
        seen_step(r) == after_stop_check(*request, seen_work(work), item, stop),
{
    let template = match &work.frame {
        Frame::Submitting { template } => if stop {
            return step_finish(request);
        } else {
            template.clone()
        },
        _ => {
            return step_finish(request);
        },
    };
    match CreateOrderInput::from_template(
        template,
        item.source_identifier.as_str(),
        request.paid_confirmed,
    ) {
        Err(error) => step_pause(error),
        Ok(input) => {
            let item_id = item.id.clone();
            (Point::Claim { work, item, input }, Action::Claim { item_id })
        },
    }
}

fn step_after_creation(
    work: Work<Vec<BatchItem>>,
    item: BatchItem,
    created: Result<CreatedOrder, AppError>,
) -> (r: (ExecPoint, ExecAction))
    ensures
        seen_step(r) == after_creation(seen_work(work), item, created),
{
    let item_id = item.id.clone();
    match created {
        Ok(order) => {
            let order = sanitize_order(order, work.store.access_token.as_str());
            (Point::Keeping { work, item }, Action::MarkSucceeded { item_id, order })
        },
        Err(e) => {
            let error = e.redacted(work.store.access_token.as_str());
            let was_uncertain = item.status == BatchItemStatus::Uncertain;
            if is_access_error(&error) {
                let kept = error.duplicate();
                if was_uncertain {
                    (Point::Rejecting { error: kept }, Action::MarkUncertain { item_id, error })
                } else {
                    (Point::Rejecting { error: kept }, Action::RequeueRejected { item_id, error })
                }
            } else if !was_uncertain && is_rejection(&error) {
                (Point::Keeping { work, item }, Action::MarkFailed { item_id, error })
            } else {
                (Point::Doubting { work, item }, Action::MarkUncertain { item_id, error })
            }
        },
    }
}

fn step_after_clock(request: &Request, point: ExecPoint, now: u128) -> (r: (ExecPoint, ExecAction))
    ensures
        seen_step(r) == after_clock(*request, seen(point), now),
{
    match point {
        Point::ClockElapsed { work, item, start, attempt } => {
            let elapsed: u128 = remainder(now, start);
            let scheduled: u128 = attempt as u128 * LOOKUP_INTERVAL;
            if elapsed < scheduled {
                (
                    Point::Waiting { work, item, start, attempt },
                    Action::Wait { delay: scheduled - elapsed },
                )
            } else {
                (Point::ClockRemaining { work, item, start, attempt }, Action::ReadClock)
            }
        },
        Point::ClockRemaining { work, item, start, attempt } => {
            let remaining: u128 = remainder(RECONCILIATION_WINDOW, remainder(now, start));
            if remaining == 0 {
                return step_looked_for(request, work, item);
            }
            let limit: u128 = if remaining <= LOOKUP_INTERVAL {
                remaining
            } else {
                LOOKUP_INTERVAL
            };
            let store = work.store.clone();
            let source = item.source_identifier.clone();
            (
                Point::Lookup { work, item, start, attempt },
                Action::FindOrder { store, source, limit },
            )
        },
        Point::ClockStart { work, item } => (
            Point::ClockElapsed { work, item, start: now, attempt: 0 },
            Action::ReadClock,
        ),
        _ => step_end(Ok(())),
    }
}

fn step_after_lookup(
    request: &Request,
    work: Work<Vec<BatchItem>>,
    item: BatchItem,
    start: u128,
    attempt: u32,
    outcome: LookupOutcome,
) -> (r: (ExecPoint, ExecAction))
    ensures
        seen_step(r) == after_lookup(*request, seen_work(work), item, start, attempt, outcome),
{
    match outcome {
        LookupOutcome::Answered(Ok(Some(order))) => {
            let order = sanitize_order(order, work.store.access_token.as_str());
            let item_id = item.id.clone();
            (Point::Recording { work, item }, Action::RecordReconciled { item_id, order })
        },
        LookupOutcome::Answered(Ok(None)) => if attempt < MAX_LOOKUPS - 1 {
            (
                Point::ClockElapsed { work, item, start, attempt: attempt + 1 },
                Action::ReadClock,
            )
        } else {
            step_looked_for(request, work, item)
        },
        LookupOutcome::Answered(Err(error)) => if is_access_error(&error) {
            step_pause(error.redacted(work.store.access_token.as_str()))
        } else {
            step_looked_for(request, work, item)
        },
        LookupOutcome::TimedOut => step_looked_for(request, work, item),
    }
}

fn step_after_show(
    request: &Request,
    then: Then<AppError, CreateOrderInput, Vec<BatchItem>>,
) -> (r: (ExecPoint, ExecAction))
    ensures
        seen_step(r) == after_show(*request, seen_then(then)),
{
    match then {
        Then::Next { work } => step_go_on(request, work),
        Then::Create { work, item, input } => {
            let store = work.store.clone();
            (Point::Create { work, item }, Action::CreateOrder { store, input })
        },
        Then::Reconcile { work, item } => step_look_for(work, item),
        Then::Finished => step_end(Ok(())),
        Then::Closing => step_end(Ok(())),
        Then::Pausing { error } => step_end(Err(error)),
    }
}

/// An operation on a batch.
pub struct Operation {
    request: Request,
    point: ExecPoint,
}

/// What was asked for, and where the operation stands.
pub struct OperationModel {
    pub request: Request,
    pub point: SpecPoint,
}

impl View for Operation {
    type V = OperationModel;

    closed spec fn view(&self) -> OperationModel {
        OperationModel { request: self.request, point: seen(self.point) }
    }
}

impl Operation {
    /// An item is chosen only where the user forces one.
    #[verifier::type_invariant]
    spec fn chooses_by_force(self) -> bool {
        self.point is ForceFind ==> self.request.kind is Force
    }

    /// Takes up what the user asked for, and says what is to be done first.
    pub fn begin(request: Request) -> (r: (Operation, ExecAction))
        ensures
            r.0@.request == request,
            (r.0@.point, seen_action(r.1)) == begin(request),
    {
        let load = Action::LoadBatch { batch_id: request.batch_id.clone() };
        let list = Action::ListItems { batch_id: request.batch_id.clone() };
        let (point, action) = match &request.kind {
            Kind::Run => (Point::RunStatus, load),
            Kind::Resume => (Point::Validate, load),
            Kind::RetryFailed => (Point::RequireRecovered, list),
            Kind::Stop => (Point::Stopping, Action::StopBatch),
            Kind::Reconcile => (Point::Recovering, Action::RecoverInterrupted),
            Kind::Force { risk_confirmed, .. } => if *risk_confirmed {
                (Point::RequireRecovered, list)
            } else {
                step_end(
                    Err(
                        AppError::validation(
                            "DUPLICATE_RISK_CONFIRMATION_REQUIRED",
                            "强制重试可能创建重复订单，必须明确确认此风险",
                        ),
                    ),
                )
            },
        };
        (Operation { request, point }, action)
    }

    /// Whether `event` is what the operation waits for.
    pub fn accepts(&self, event: &Event) -> (r: bool)
        ensures
            r == fits(self@.point, *event),
    {
        match &self.point {
            Point::RunStatus
            | Point::Validate
            | Point::ForceJob { .. }
            | Point::CheckJob
            | Point::ExecJob { .. }
            | Point::ForcedStatus { .. }
            | Point::EmitJob { .. } => matches!(event, Event::Loaded(_)),
            Point::RequireRecovered
            | Point::ForceFind
            | Point::SettleList { .. }
            | Point::SubmitList { .. }
            | Point::CheckList { .. }
            | Point::FinishList
            | Point::EmitItems { .. } => matches!(event, Event::Listed(_)),
            Point::Credentials { .. } => matches!(event, Event::Unlocked(_)),
            Point::Requeueing => matches!(event, Event::Requeued(_)),
            Point::Claim { .. } => matches!(event, Event::Claimed(_)),
            Point::Stopping
            | Point::Recovering
            | Point::ResumingStopped
            | Point::ForcedClaim { .. }
            | Point::Starting { .. }
            | Point::Keeping { .. }
            | Point::Rejecting { .. }
            | Point::Doubting { .. }
            | Point::Recording { .. }
            | Point::SetFinal
            | Point::SetPaused { .. } => matches!(event, Event::Stored(_)),
            Point::ForcedStop { .. } | Point::StopCheck { .. } => matches!(
                event,
                Event::StopRequested(_)
            ),
            Point::ClockStart { .. }
            | Point::ClockElapsed { .. }
            | Point::ClockRemaining { .. } => matches!(event, Event::Clock(_)),
            Point::Create { .. } => matches!(event, Event::Created(_)),
            Point::Lookup { .. } => matches!(event, Event::LookedUp(_)),
            Point::Gate { .. } | Point::Waiting { .. } | Point::Publishing { .. } => matches!(
                event,
                Event::Resumed
            ),
            Point::Ended => false,
        }
    }

    /// Whether a stop must not come in between: from the last look for one until the chosen item
    /// is claimed.
    pub fn claim_locked(&self) -> (r: bool)
        ensures
            r == (self@.point is ForcedStop || self@.point is ForcedStatus || self@.point
                is ForcedClaim),
    {
        matches!(
            self.point,
            Point::ForcedStop { .. } | Point::ForcedStatus { .. } | Point::ForcedClaim { .. }
        )
    }

    /// Takes note of `event`, and says what is to be done next.
    pub fn step(self, event: Event) -> (r: (Operation, ExecAction))
        requires
            fits(self@.point, event),
        ensures
            r.0@.request == self@.request,
            (r.0@.point, seen_action(r.1)) == advance(self@.request, self@.point, event),
    {
        proof {
            use_type_invariant(&self);
        }
        let Operation { request, point } = self;
        let (point, action) = match event {
            Event::Loaded(loaded) => step_after_load(&request, point, loaded),
            Event::Listed(listed) => step_after_list(&request, point, listed),
            Event::Unlocked(unlocked) => match point {
                Point::Credentials { goal } => step_after_credentials(&request, goal, unlocked),
                _ => step_end(Ok(())),
            },
            Event::Requeued(requeued) => match requeued {
                Err(error) => step_pause(error),
                Ok(ids) => if ids.len() == 0 {
                    step_show(request.batch_id.clone(), Then::Closing)
                } else {
                    step_execute(&request, Some(ids))
                },
            },
            Event::Claimed(claimed) => match point {
                Point::Claim { work, item, input } => match claimed {
                    Err(error) => step_pause(error),
                    Ok(true) => {
                        let batch_id = item.batch_id.clone();
                        step_show(batch_id, Then::Create { work, item, input })
                    },
                    Ok(false) => step_finish(&request),
                },
                _ => step_end(Ok(())),
            },
            Event::Stored(stored) => step_after_write(&request, point, stored),
            Event::StopRequested(stop) => match point {
                Point::ForcedStop { item, store, input } => if stop {
                    step_pause(stopped_error())
                } else {
                    (
                        Point::ForcedStatus { item, store, input },
                        Action::LoadBatch { batch_id: request.batch_id.clone() },
                    )
                },
                Point::StopCheck { work, item } => step_after_stop_check(
                    &request,
                    work,
                    item,
                    stop,
                ),
                _ => step_end(Ok(())),
            },
            Event::Clock(now) => step_after_clock(&request, point, now),
            Event::Created(created) => match point {
                Point::Create { work, item } => step_after_creation(work, item, created),
                _ => step_end(Ok(())),
            },
            Event::LookedUp(outcome) => match point {
                Point::Lookup { work, item, start, attempt } => step_after_lookup(
                    &request,
                    work,
                    item,
                    start,
                    attempt,
                    outcome,
                ),
                _ => step_end(Ok(())),
            },
            Event::Resumed => match point {
                Point::Gate { item, store, input } => (
                    Point::ForcedStop { item, store, input },
                    Action::CheckStop,
                ),
                Point::Waiting { work, item, start, attempt } => (
                    Point::ClockRemaining { work, item, start, attempt },
                    Action::ReadClock,
                ),
                Point::Publishing { then } => step_after_show(&request, then),
                _ => step_end(Ok(())),
            },
        };
        (Operation { request, point }, action)
    }
}

} // verus!
