use orderpilot::batch::machine::{
    Action, Event, ExecAction, Kind, LoadedBatch, LookupOutcome, Request,
};
use orderpilot::batch::operation::Operation;
use orderpilot::batch::registry::ActiveBatches;
use orderpilot::batch::{
    count_items, current_sequence, final_status, is_access_error, is_rejection, sanitize_order,
    BatchProgress, BatchStatus, ProgressSink,
};
use orderpilot::domain::{
    BatchItem, BatchItemStatus as Status, BatchSize, CustomerMode, FinancialStatus, OrderTemplate,
};
use orderpilot::error::AppError;
use orderpilot::identifier::{canonical_uuid, source_batch_id};
use orderpilot::ledger::{change_item, may_change, BatchRecord, Change, ForcedRetryAttempt};
use orderpilot::repository::{database_error, store_not_found, StoreCredentials};
use orderpilot::shopify::CreatedOrder;
use std::collections::VecDeque;
use std::sync::Mutex;

const SECOND: u128 = 1_000_000_000;
const NOW: &str = "2026-09-17T00:00:00Z";

#[derive(Default)]
struct Events(Mutex<Vec<BatchProgress>>);

impl ProgressSink for Events {
    fn emit(&self, event: BatchProgress) {
        self.0.lock().unwrap().push(event);
    }
}

/// What happens while an order is being created, or before a forced claim.
#[derive(Clone, Copy, PartialEq)]
enum Meanwhile {
    Nothing,
    Stop,
    Resume,
    Crash,
}

/// A store, a shop and a clock in memory.
struct Fixture {
    record: BatchRecord,
    template: OrderTemplate,
    store: Option<StoreCredentials>,
    active: ActiveBatches,
    results: VecDeque<Result<CreatedOrder, AppError>>,
    found: VecDeque<Result<Option<CreatedOrder>, AppError>>,
    hung: bool,
    seen: Vec<Vec<BatchItem>>,
    sources: Vec<String>,
    calls: usize,
    lookups: Vec<(String, u128)>,
    limits: Vec<u128>,
    audits_seen: Vec<Vec<ForcedRetryAttempt>>,
    clock: u128,
    fail_result: bool,
    fail_audit: bool,
    fail_stop: bool,
    meanwhile: Meanwhile,
    before_claim: Meanwhile,
    aside: Option<Result<(), AppError>>,
    aside_items: Vec<Status>,
    aside_status: String,
    events: Events,
}

fn order(number: usize) -> CreatedOrder {
    CreatedOrder {
        id: format!("gid://shopify/Order/{number}"),
        name: format!("#{number}"),
    }
}

fn template() -> OrderTemplate {
    OrderTemplate {
        variant_id: "gid://shopify/ProductVariant/123".into(),
        quantity: 2,
        customer: CustomerMode::NoCustomer,
        financial_status: FinancialStatus::Pending,
    }
}

fn unknown() -> AppError {
    AppError::validation("SHOPIFY_TIMEOUT", "Unknown")
}

impl Fixture {
    fn batch(size: u16) -> Self {
        Self::with_template(size, template())
    }

    fn with_template(size: u16, template: OrderTemplate) -> Self {
        Fixture {
            record: BatchRecord::create("store", "{}", BatchSize::new(size).unwrap()),
            template,
            store: Some(StoreCredentials {
                shop_domain: "test-shop.myshopify.com".into(),
                access_token: "shpat_secret".into(),
            }),
            active: ActiveBatches::new(),
            results: VecDeque::new(),
            found: VecDeque::new(),
            hung: false,
            seen: Vec::new(),
            sources: Vec::new(),
            calls: 0,
            lookups: Vec::new(),
            limits: Vec::new(),
            audits_seen: Vec::new(),
            clock: 0,
            fail_result: false,
            fail_audit: false,
            fail_stop: false,
            meanwhile: Meanwhile::Nothing,
            before_claim: Meanwhile::Nothing,
            aside: None,
            aside_items: Vec::new(),
            aside_status: String::new(),
            events: Events::default(),
        }
    }

    fn statuses(&self) -> Vec<Status> {
        self.record.items.iter().map(|item| item.status).collect()
    }

    fn id(&self, index: usize) -> String {
        self.record.items[index].id.clone()
    }

    fn mark(&mut self, index: usize, change: Change) {
        let id = self.id(index);
        self.record.record(&id, &change, NOW).unwrap();
    }

    fn aside(&mut self, what: Meanwhile) {
        if what == Meanwhile::Stop || what == Meanwhile::Resume {
            let kind = if what == Meanwhile::Stop {
                Kind::Stop
            } else {
                Kind::Resume
            };
            let result = self.operate(kind, false);
            self.aside = Some(result);
            self.aside_items = self.statuses();
            self.aside_status = self.record.job.status.clone();
        }
    }

    fn perform(&mut self, action: ExecAction) -> Event {
        match action {
            Action::LoadBatch { batch_id } => {
                assert_eq!(batch_id, self.record.job.id);
                Event::Loaded(Ok(LoadedBatch {
                    job: self.record.job.clone(),
                    template: Some(self.template.clone()),
                }))
            }
            Action::ListItems { batch_id } => {
                assert_eq!(batch_id, self.record.job.id);
                Event::Listed(Ok(self.record.items.clone()))
            }
            Action::LoadCredentials { store_id } => {
                assert_eq!(store_id, "store");
                Event::Unlocked(self.store.clone().ok_or_else(store_not_found))
            }
            Action::RecoverInterrupted => {
                self.record.recover(NOW);
                Event::Stored(Ok(()))
            }
            Action::ResumeStopped => {
                self.record.resume_stopped(NOW);
                Event::Stored(Ok(()))
            }
            Action::RequeueFailed => Event::Requeued(Ok(self.record.requeue_failed(NOW))),
            Action::StopBatch => {
                let id = self.record.job.id.clone();
                self.active.request_stop(&id);
                if self.fail_stop {
                    return Event::Stored(Err(database_error()));
                }
                self.record.stop(NOW);
                Event::Stored(Ok(()))
            }
            Action::SetStatus { status } => {
                self.record.set_status(status, NOW);
                Event::Stored(Ok(()))
            }
            Action::CheckStop => {
                Event::StopRequested(self.active.stop_requested(&self.record.job.id))
            }
            Action::Claim { item_id } => Event::Claimed(Ok(self.record.claim(&item_id, NOW))),
            Action::PassGate => {
                self.aside(self.before_claim);
                Event::Resumed
            }
            Action::ClaimForced { item_id } => Event::Stored(if self.fail_audit {
                Err(database_error())
            } else {
                self.record.claim_forced(&item_id, NOW)
            }),
            Action::CreateOrder { store, input } => {
                assert_eq!(store.access_token, "shpat_secret");
                self.calls += 1;
                self.seen.push(self.record.items.clone());
                self.audits_seen.push(self.record.forced.clone());
                self.sources.push(input.source_identifier().clone());
                let what = self.meanwhile;
                self.meanwhile = Meanwhile::Nothing;
                self.aside(what);
                let call = self.calls;
                Event::Created(self.results.pop_front().unwrap_or_else(|| Ok(order(call))))
            }
            Action::MarkSucceeded { item_id, order } => Event::Stored(if self.fail_result {
                Err(database_error())
            } else {
                self.record.record(&item_id, &Change::Succeed(order), NOW)
            }),
            Action::MarkFailed { item_id, error } => {
                Event::Stored(self.record.record(&item_id, &Change::Fail(error), NOW))
            }
            Action::MarkUncertain { item_id, error } => {
                Event::Stored(self.record.record(&item_id, &Change::Doubt(error), NOW))
            }
            Action::RequeueRejected { item_id, error } => {
                Event::Stored(self.record.record(&item_id, &Change::Reject(error), NOW))
            }
            Action::RecordReconciled { item_id, order } => {
                Event::Stored(self.record.record(&item_id, &Change::Reconcile(order), NOW))
            }
            Action::ReadClock => Event::Clock(self.clock),
            Action::Wait { delay } => {
                self.clock += delay;
                Event::Resumed
            }
            Action::FindOrder {
                source, limit, ..
            } => {
                let item = self
                    .record
                    .items
                    .iter()
                    .find(|item| item.source_identifier == source)
                    .unwrap();
                assert_eq!(item.status, Status::Uncertain);
                self.lookups.push((source, self.clock));
                self.limits.push(limit);
                Event::LookedUp(if self.hung {
                    LookupOutcome::TimedOut
                } else {
                    LookupOutcome::Answered(self.found.pop_front().unwrap_or(Ok(None)))
                })
            }
            Action::Publish { progress } => {
                self.events.emit(progress);
                Event::Resumed
            }
            Action::Done { .. } => unreachable!(),
        }
    }

    fn operate(&mut self, kind: Kind, paid_confirmed: bool) -> Result<(), AppError> {
        let batch_id = self.record.job.id.clone();
        let owns = !matches!(kind, Kind::Stop);
        if owns {
            self.active.acquire(&batch_id)?;
        }
        let (mut operation, mut action) = Operation::begin(Request {
            kind,
            batch_id: batch_id.clone(),
            paid_confirmed,
        });
        let result = loop {
            if let Action::Done { result } = action {
                break result;
            }
            if matches!(action, Action::CreateOrder { .. }) && self.meanwhile == Meanwhile::Crash {
                self.calls += 1;
                break Err(AppError::validation("CRASHED", ""));
            }
            let event = self.perform(action);
            assert!(operation.accepts(&event));
            let next = operation.step(event);
            operation = next.0;
            action = next.1;
        };
        if owns {
            self.active.release(&batch_id);
        }
        result
    }

    fn run(&mut self) -> Result<(), AppError> {
        self.operate(Kind::Run, false)
    }

    fn resume(&mut self) -> Result<(), AppError> {
        self.operate(Kind::Resume, false)
    }

    fn retry_failed(&mut self) -> Result<(), AppError> {
        self.operate(Kind::RetryFailed, false)
    }

    fn force(&mut self, item_id: String, risk_confirmed: bool) -> Result<(), AppError> {
        self.operate(
            Kind::Force {
                item_id,
                risk_confirmed,
            },
            false,
        )
    }

    fn last_status(&self) -> String {
        self.events.0.lock().unwrap().last().unwrap().status.clone()
    }

    fn shown(&self) -> String {
        format!("{:?}", self.events.0.lock().unwrap())
    }
}

#[test]
fn persists_each_success_before_starting_next_item() {
    let mut f = Fixture::batch(3);
    f.run().unwrap();
    assert!(f
        .record
        .items
        .iter()
        .all(|item| item.status == Status::Succeeded && item.attempt_count == 1));
    for (index, snapshot) in f.seen.iter().enumerate() {
        assert!(snapshot[..index]
            .iter()
            .all(|item| item.status == Status::Succeeded && item.shopify_order_id.is_some()));
        assert_eq!(snapshot[index].status, Status::Creating);
    }
    assert_eq!(f.record.job.status, "completed");
    assert!(f.record.job.started_at.is_some() && f.record.job.finished_at.is_some());
    let events = f.events.0.lock().unwrap();
    assert_eq!(events.last().unwrap().succeeded, 3);
    assert_eq!(events.last().unwrap().total, 3);
    assert_eq!(events.last().unwrap().status, "completed");
}

#[test]
fn orders_are_created_in_the_order_of_the_items_and_once_each() {
    let mut f = Fixture::batch(4);
    f.results = VecDeque::from([
        Ok(order(1)),
        Err(AppError::validation("SHOPIFY_USER_ERROR", "no")),
        Err(unknown()),
        Ok(order(4)),
    ]);
    f.run().unwrap();
    let listed: Vec<String> = f
        .record
        .items
        .iter()
        .map(|item| item.source_identifier.clone())
        .collect();
    assert_eq!(f.sources, listed);
}

#[test]
fn orders_are_created_again_only_by_force_or_with_leave() {
    let mut f = Fixture::batch(3);
    f.results = VecDeque::from([
        Err(AppError::validation("SHOPIFY_USER_ERROR", "no")),
        Err(unknown()),
        Err(AppError::validation("SHOPIFY_FORBIDDEN", "no")),
    ]);
    assert!(f.run().is_err());
    assert_eq!(
        f.statuses(),
        vec![Status::Failed, Status::Uncertain, Status::Queued]
    );
    let source = |f: &Fixture, index: usize| f.record.items[index].source_identifier.clone();
    // What was rejected before anything was created has its place again; the others do not.
    f.resume().unwrap();
    assert_eq!(f.sources[3..], [source(&f, 2)]);
    // What failed is tried again once the user asks for it.
    f.retry_failed().unwrap();
    assert_eq!(f.sources[4..], [source(&f, 0)]);
    // What is uncertain is created again by force alone.
    f.resume().unwrap();
    assert_eq!(f.calls, 5);
    let id = f.id(1);
    f.force(id, true).unwrap();
    assert_eq!(f.sources[5..], [source(&f, 1)]);
    assert_eq!(f.statuses(), vec![Status::Succeeded; 3]);
    f.resume().unwrap();
    f.retry_failed().unwrap();
    assert_eq!(f.calls, 6);
}

#[test]
fn item_business_failure_is_redacted_persisted_and_does_not_stop_later_items() {
    let mut f = Fixture::batch(3);
    f.results.extend([
        Ok(order(1)),
        Err(AppError::validation(
            "SHOPIFY_USER_ERROR",
            "[INVALID] Address invalid shpat_secret",
        )),
        Ok(order(3)),
    ]);
    f.run().unwrap();
    assert_eq!(
        f.statuses(),
        vec![Status::Succeeded, Status::Failed, Status::Succeeded]
    );
    assert_eq!(
        f.record.items[1].error_code.as_deref(),
        Some("SHOPIFY_USER_ERROR")
    );
    assert_eq!(
        f.record.items[1].error_message.as_deref(),
        Some("[INVALID] Address invalid [REDACTED]")
    );
    assert_eq!(f.record.job.status, "completed_with_errors");
    let shown = f.shown();
    assert!(!shown.contains("shpat_secret"));
    assert!(!shown.contains("access_token"));
    assert!(!shown.contains("order_template"));
}

#[test]
fn credential_and_permission_failures_pause_the_batch_without_failing_business_items() {
    for code in [
        "SHOPIFY_UNAUTHORIZED",
        "SHOPIFY_FORBIDDEN",
        "SHOPIFY_CREDENTIALS",
        "CUSTOMER_DATA_RESTRICTED",
        "INVALID_SHOP_DOMAIN",
    ] {
        let mut f = Fixture::batch(3);
        f.results.push_back(Err(AppError::validation(
            code,
            "Access denied shpat_secret",
        )));
        let error = f.run().unwrap_err();
        assert_eq!(error.code(), code);
        assert!(!error.message().contains("shpat_secret"));
        assert_eq!(f.calls, 1);
        assert!(f.statuses().iter().all(|status| *status == Status::Queued));
        assert_eq!(f.record.items[0].error_code.as_deref(), Some(code));
        assert_eq!(f.record.items[0].attempt_count, 1);
        assert_eq!(f.record.items[1].attempt_count, 0);
        assert_eq!(f.record.job.status, "paused");
        assert_eq!(f.last_status(), "paused");
    }
}

#[test]
fn ambiguous_outcomes_are_reconciled_three_times_within_thirty_seconds_never_recreated() {
    for code in [
        "SHOPIFY_TIMEOUT",
        "SHOPIFY_NETWORK",
        "SHOPIFY_SERVER_ERROR",
        "SHOPIFY_INVALID_RESPONSE",
        "SHOPIFY_GRAPHQL",
        "SHOPIFY_HTTP",
    ] {
        let mut f = Fixture::batch(1);
        f.results
            .push_back(Err(AppError::validation(code, "Unknown result")));
        f.run().unwrap();
        assert_eq!(f.record.items[0].status, Status::Uncertain);
        assert_eq!(f.record.items[0].attempt_count, 1);
        assert_eq!(f.calls, 1);
        let source = f.record.items[0].source_identifier.clone();
        assert_eq!(
            f.lookups,
            vec![
                (source.clone(), 0),
                (source.clone(), 10 * SECOND),
                (source, 20 * SECOND)
            ]
        );
        assert_eq!(f.record.job.status, "completed_with_errors");
    }
}

#[test]
fn startup_recovers_creating_as_uncertain_without_submitting_any_orders() {
    let mut f = Fixture::batch(2);
    f.mark(0, Change::Claim);
    f.record.recover(NOW);
    let items = &f.record.items;
    assert_eq!(items[0].status, Status::Uncertain);
    assert_eq!(items[0].attempt_count, 1);
    assert_eq!(items[0].error_code.as_deref(), Some("PROCESS_INTERRUPTED"));
    assert_eq!(items[1].status, Status::Queued);
    assert_eq!(f.record.job.status, "paused");
    assert_eq!(f.calls, 0);
    assert!(f.lookups.is_empty());
}

#[test]
fn explicit_resume_reconciles_crashed_creating_before_queued_work_and_never_resubmits_it() {
    let mut f = Fixture::batch(2);
    f.mark(0, Change::Claim);
    f.found.extend([Ok(None), Ok(Some(order(42)))]);
    f.resume().unwrap();
    let items = &f.record.items;
    assert!(items.iter().all(|item| item.status == Status::Succeeded));
    assert_eq!(items[0].shopify_order_name.as_deref(), Some("#42"));
    assert_eq!(items[0].attempt_count, 1);
    assert_eq!(f.calls, 1);
    assert_eq!(f.seen[0][0].status, Status::Succeeded);
    assert_eq!(f.lookups.len(), 2);
    assert_eq!(f.sources[0], items[1].source_identifier);
}

#[test]
fn stop_finishes_in_flight_order_and_only_explicit_resume_runs_stopped_items() {
    let mut f = Fixture::batch(3);
    f.meanwhile = Meanwhile::Stop;
    f.run().unwrap();
    f.aside.take().unwrap().unwrap();
    assert_eq!(
        f.aside_items,
        vec![Status::Creating, Status::Stopped, Status::Stopped]
    );
    assert_eq!(f.aside_status, "stopping");
    assert_eq!(f.calls, 1);
    assert_eq!(f.record.job.status, "paused");
    assert_eq!(f.run().unwrap_err().code(), "BATCH_RESUME_REQUIRED");
    f.resume().unwrap();
    assert!(f
        .record
        .items
        .iter()
        .all(|item| item.status == Status::Succeeded && item.attempt_count == 1));
    assert_eq!(f.calls, 3);
}

#[test]
fn duplicate_lifecycle_actions_cannot_recover_or_submit_a_live_item() {
    let mut f = Fixture::batch(2);
    f.meanwhile = Meanwhile::Resume;
    f.run().unwrap();
    assert_eq!(f.aside.take().unwrap().unwrap_err().code(), "BATCH_BUSY");
    assert_eq!(f.aside_items[0], Status::Creating);
    assert!(f.lookups.is_empty());
    assert_eq!(f.seen[0][0].status, Status::Creating);
    assert_eq!(f.calls, 2);
}

#[test]
fn retry_failed_creates_new_attempts_only_for_failed_items() {
    let mut f = Fixture::batch(4);
    let source = f.record.items[0].source_identifier.clone();
    f.mark(0, Change::Claim);
    f.mark(
        0,
        Change::Fail(AppError::validation("SHOPIFY_USER_ERROR", "Bad address")),
    );
    f.mark(1, Change::Claim);
    f.mark(1, Change::Doubt(unknown()));
    f.mark(2, Change::Stop);
    f.retry_failed().unwrap();
    let saved = &f.record.items;
    assert_eq!(
        f.statuses(),
        vec![
            Status::Succeeded,
            Status::Uncertain,
            Status::Stopped,
            Status::Queued
        ]
    );
    assert_eq!(saved[0].attempt_count, 2);
    assert_eq!(saved[0].source_identifier, source);
    assert_eq!(saved[1].attempt_count, 1);
    assert_eq!(saved[2].attempt_count, 0);
    assert_eq!(saved[3].attempt_count, 0);
    assert_eq!(f.calls, 1);
    assert!(f.lookups.is_empty());
}

#[test]
fn manual_reconciliation_only_queries_uncertain_items_and_leaves_other_work_untouched() {
    let mut f = Fixture::batch(3);
    for index in 0..2 {
        f.mark(index, Change::Claim);
        f.mark(index, Change::Doubt(unknown()));
    }
    f.found.extend([
        Ok(None),
        Ok(Some(order(42))),
        Err(AppError::validation("SHOPIFY_NETWORK", "Unavailable")),
    ]);
    f.operate(Kind::Reconcile, false).unwrap();
    let saved = &f.record.items;
    assert_eq!(
        f.statuses(),
        vec![Status::Succeeded, Status::Uncertain, Status::Queued]
    );
    assert_eq!(saved[0].attempt_count, 1);
    assert_eq!(saved[0].shopify_order_name.as_deref(), Some("#42"));
    assert_eq!(saved[1].attempt_count, 1);
    assert_eq!(saved[2].attempt_count, 0);
    assert_eq!(f.calls, 0);
    assert_eq!(f.lookups.len(), 3);
}

#[test]
fn force_retry_requires_confirmation_and_durably_records_it_before_submitting_only_that_item() {
    let mut f = Fixture::batch(2);
    f.mark(0, Change::Claim);
    f.mark(0, Change::Doubt(unknown()));
    let first = f.record.items[0].clone();
    let error = f.force(first.id.clone(), false).unwrap_err();
    assert_eq!(error.code(), "DUPLICATE_RISK_CONFIRMATION_REQUIRED");
    assert_eq!(f.calls, 0);
    assert!(f.record.forced.is_empty());
    assert_eq!(f.record.items[0].status, Status::Uncertain);
    f.force(first.id.clone(), true).unwrap();
    let saved = &f.record.items;
    assert_eq!(saved[0].status, Status::Succeeded);
    assert_eq!(saved[0].attempt_count, 2);
    assert_eq!(saved[0].source_identifier, first.source_identifier);
    assert_eq!(saved[1].status, Status::Queued);
    assert_eq!(saved[1].attempt_count, 0);
    let before_submit = f.audits_seen[0].clone();
    assert_eq!(before_submit.len(), 1);
    assert_eq!(before_submit[0].item_id, first.id);
    assert_eq!(before_submit[0].attempt_number, 2);
    assert!(before_submit[0].risk_confirmed);
    assert!(!before_submit[0].confirmed_at.is_empty());
    assert_eq!(f.record.forced, before_submit);
}

#[test]
fn stop_before_forced_claim_prevents_submission_audit_and_status_override() {
    let mut f = Fixture::batch(1);
    f.mark(0, Change::Claim);
    f.mark(0, Change::Doubt(unknown()));
    f.before_claim = Meanwhile::Stop;
    let id = f.id(0);
    let error = f.force(id, true).unwrap_err();
    f.aside.take().unwrap().unwrap();
    assert_eq!(error.code(), "BATCH_STOPPED");
    assert_eq!(f.calls, 0);
    assert!(f.record.forced.is_empty());
    assert_eq!(f.record.items[0].status, Status::Uncertain);
    assert_eq!(f.record.items[0].attempt_count, 1);
    assert_eq!(f.record.job.status, "paused");
}

#[test]
fn rejected_forced_attempt_does_not_erase_the_original_uncertainty() {
    for code in ["SHOPIFY_USER_ERROR", "SHOPIFY_FORBIDDEN"] {
        let mut f = Fixture::batch(1);
        f.mark(0, Change::Claim);
        f.mark(0, Change::Doubt(unknown()));
        f.results
            .push_back(Err(AppError::validation(code, "Rejected")));
        let id = f.id(0);
        let result = f.force(id, true);
        if code == "SHOPIFY_FORBIDDEN" {
            assert_eq!(result.unwrap_err().code(), code);
        } else {
            result.unwrap();
        }
        assert_eq!(f.record.items[0].status, Status::Uncertain);
        let before_retry_status = f.record.job.status.clone();
        f.retry_failed().unwrap();
        assert_eq!(f.record.job.status, before_retry_status);
        assert_eq!(f.calls, 1);
        assert_eq!(f.record.items[0].attempt_count, 2);
        assert_eq!(f.record.forced.len(), 1);
    }
}

#[test]
fn paid_confirmation_is_checked_before_any_resume_or_retry_changes() {
    let mut paid = template();
    paid.financial_status = FinancialStatus::Paid;
    let mut f = Fixture::with_template(3, paid);
    f.mark(0, Change::Stop);
    f.mark(1, Change::Claim);
    f.mark(
        1,
        Change::Fail(AppError::validation("SHOPIFY_USER_ERROR", "Rejected")),
    );
    f.mark(2, Change::Claim);
    f.mark(2, Change::Doubt(unknown()));
    let before = f.record.items.clone();
    assert_eq!(
        f.resume().unwrap_err().code(),
        "PAID_CONFIRMATION_REQUIRED"
    );
    assert_eq!(f.record.items, before);
    assert_eq!(
        f.retry_failed().unwrap_err().code(),
        "PAID_CONFIRMATION_REQUIRED"
    );
    assert_eq!(f.record.items, before);
    let id = f.id(2);
    assert_eq!(
        f.force(id, true).unwrap_err().code(),
        "PAID_CONFIRMATION_REQUIRED"
    );
    assert_eq!(f.record.items, before);
    assert_eq!(f.calls, 0);
    assert!(f.lookups.is_empty());
}

#[test]
fn database_result_failure_pauses_before_next_order_and_resume_reconciles_the_committed_remote_order(
) {
    let mut f = Fixture::batch(2);
    f.fail_result = true;
    let error = f.run().unwrap_err();
    assert_eq!(error.code(), "DATABASE_ERROR");
    assert_eq!(f.calls, 1);
    assert_eq!(f.statuses(), vec![Status::Creating, Status::Queued]);
    assert_eq!(f.record.job.status, "paused");
    f.fail_result = false;
    f.found.push_back(Ok(Some(order(1))));
    f.resume().unwrap();
    assert_eq!(f.calls, 2);
    assert!(f
        .record
        .items
        .iter()
        .all(|item| item.status == Status::Succeeded && item.attempt_count == 1));
}

#[test]
fn forced_audit_write_failure_rolls_back_claim_and_prevents_submission() {
    let mut f = Fixture::batch(1);
    f.mark(0, Change::Claim);
    f.mark(0, Change::Doubt(unknown()));
    let before = f.record.items.clone();
    f.fail_audit = true;
    let id = f.id(0);
    let error = f.force(id, true).unwrap_err();
    assert_eq!(error.code(), "DATABASE_ERROR");
    assert_eq!(f.record.items, before);
    assert!(f.record.forced.is_empty());
    assert_eq!(f.calls, 0);
    assert_eq!(f.record.job.status, "paused");
}

#[test]
fn deleted_credentials_pause_without_claiming_or_submitting() {
    for keeps_reference in [false, true] {
        let mut f = Fixture::batch(1);
        f.store = None;
        if !keeps_reference {
            f.record.job.store_id = None;
        }
        assert_eq!(f.run().unwrap_err().code(), "STORE_NOT_FOUND");
        assert_eq!(f.calls, 0);
        assert_eq!(f.record.items[0].attempt_count, 0);
        assert_eq!(f.record.job.status, "paused");
    }
}

#[test]
fn absent_crashed_order_stays_uncertain_while_resume_continues_only_queued_work() {
    let mut f = Fixture::batch(2);
    f.mark(0, Change::Claim);
    f.resume().unwrap();
    let items = &f.record.items;
    assert_eq!(items[0].status, Status::Uncertain);
    assert_eq!(items[0].attempt_count, 1);
    assert_eq!(items[1].status, Status::Succeeded);
    assert_eq!(f.calls, 1);
    assert_eq!(f.lookups.len(), 3);
    assert_eq!(f.sources[0], items[1].source_identifier);
}

#[test]
fn permission_failure_during_reconciliation_pauses_without_new_submissions() {
    let mut f = Fixture::batch(2);
    f.mark(0, Change::Claim);
    f.found.push_back(Err(AppError::validation(
        "SHOPIFY_FORBIDDEN",
        "Missing read_orders",
    )));
    assert_eq!(f.resume().unwrap_err().code(), "SHOPIFY_FORBIDDEN");
    assert_eq!(f.record.items[0].status, Status::Uncertain);
    assert_eq!(f.record.items[1].status, Status::Queued);
    assert_eq!(f.calls, 0);
    assert_eq!(f.record.job.status, "paused");
}

#[test]
fn successful_gateway_results_are_redacted_before_persistence_and_progress() {
    let mut f = Fixture::batch(1);
    f.results.push_back(Ok(CreatedOrder {
        id: "gid://shopify/Order/1".into(),
        name: "#1 shpat_secret".into(),
    }));
    f.run().unwrap();
    assert_eq!(
        f.record.items[0].shopify_order_name.as_deref(),
        Some("#1 [REDACTED]")
    );
    assert!(!f.shown().contains("shpat_secret"));
}

#[test]
fn failed_stop_database_write_still_prevents_later_submissions() {
    let mut f = Fixture::batch(2);
    f.fail_stop = true;
    f.meanwhile = Meanwhile::Stop;
    f.run().unwrap();
    assert_eq!(
        f.aside.take().unwrap().unwrap_err().code(),
        "DATABASE_ERROR"
    );
    assert_eq!(f.calls, 1);
    assert_eq!(f.record.job.status, "paused");
}

#[test]
fn a_hung_reconciliation_query_is_bounded_and_remains_uncertain() {
    let mut f = Fixture::batch(1);
    f.mark(0, Change::Claim);
    f.mark(0, Change::Doubt(unknown()));
    f.hung = true;
    f.operate(Kind::Reconcile, false).unwrap();
    assert_eq!(f.record.items[0].status, Status::Uncertain);
    assert_eq!(f.lookups.len(), 1);
    assert_eq!(f.limits, vec![10 * SECOND]);
    assert_eq!(f.calls, 0);
}

#[test]
fn interrupted_execution_requires_resume_before_failed_or_forced_retry() {
    let mut f = Fixture::batch(3);
    f.mark(0, Change::Claim);
    f.mark(
        0,
        Change::Fail(AppError::validation("SHOPIFY_USER_ERROR", "Rejected")),
    );
    f.mark(1, Change::Claim);
    f.mark(1, Change::Doubt(unknown()));
    f.meanwhile = Meanwhile::Crash;
    assert_eq!(f.run().unwrap_err().code(), "CRASHED");
    f.meanwhile = Meanwhile::Nothing;
    assert_eq!(f.record.items[2].status, Status::Creating);
    assert_eq!(
        f.retry_failed().unwrap_err().code(),
        "BATCH_RESUME_REQUIRED"
    );
    let id = f.id(1);
    assert_eq!(
        f.force(id, true).unwrap_err().code(),
        "BATCH_RESUME_REQUIRED"
    );
    assert_eq!(f.calls, 1);
    assert_eq!(f.record.items[0].status, Status::Failed);
}

#[test]
fn only_uncertain_items_of_the_batch_can_be_forced() {
    let mut f = Fixture::batch(1);
    let id = f.id(0);
    assert_eq!(
        f.force(id, true).unwrap_err().code(),
        "INVALID_ITEM_TRANSITION"
    );
    assert_eq!(
        f.force("other".into(), true).unwrap_err().code(),
        "INVALID_ITEM_TRANSITION"
    );
    assert_eq!(f.calls, 0);
}

/// The operation after `events`, and what it tells its caller.
fn lead(kind: Kind, paid_confirmed: bool, events: Vec<Event>) -> (Operation, ExecAction) {
    let (mut operation, mut action) = Operation::begin(Request {
        kind,
        batch_id: "00000000-0000-4000-8000-000000000001".into(),
        paid_confirmed,
    });
    for event in events {
        assert!(operation.accepts(&event));
        let next = operation.step(event);
        operation = next.0;
        action = next.1;
    }
    (operation, action)
}

fn record() -> BatchRecord {
    BatchRecord::with_ids(
        "00000000-0000-4000-8000-000000000001".into(),
        "store",
        "{}",
        vec!["one".into()],
        NOW,
    )
}

fn loaded(template: Option<OrderTemplate>) -> Event {
    Event::Loaded(Ok(LoadedBatch {
        job: record().job,
        template,
    }))
}

#[test]
fn unreadable_templates_are_refused_before_and_pause_after_the_start() {
    let (operation, action) = lead(Kind::Resume, false, vec![loaded(None)]);
    match action {
        Action::Done { result } => {
            assert_eq!(result.unwrap_err().code(), "INVALID_ORDER_TEMPLATE")
        }
        _ => panic!("the operation is refused"),
    }
    assert!(!operation.accepts(&Event::Resumed));
    let (_, action) = lead(
        Kind::Run,
        false,
        vec![
            loaded(Some(template())),
            loaded(Some(template())),
            loaded(None),
        ],
    );
    assert!(matches!(
        action,
        Action::SetStatus {
            status: BatchStatus::Paused
        }
    ));
}

#[test]
fn the_first_error_is_the_result_whatever_fails_after_it() {
    let failed = || Event::Stored(Err(AppError::validation("LATER", "")));
    let (_, action) = lead(
        Kind::Reconcile,
        false,
        vec![
            Event::Stored(Err(AppError::validation("FIRST", ""))),
            failed(),
            Event::Loaded(Err(AppError::validation("LATER", ""))),
        ],
    );
    match action {
        Action::Done { result } => assert_eq!(result.unwrap_err().code(), "FIRST"),
        _ => panic!("the operation is at its end"),
    }
}

#[test]
fn a_stop_that_cannot_show_progress_fails_without_pausing() {
    let (_, action) = lead(
        Kind::Stop,
        false,
        vec![
            Event::Stored(Ok(())),
            Event::Loaded(Err(AppError::validation("HIDDEN", ""))),
        ],
    );
    match action {
        Action::Done { result } => assert_eq!(result.unwrap_err().code(), "HIDDEN"),
        _ => panic!("the operation is at its end"),
    }
}

#[test]
fn the_forced_claim_is_locked_from_the_last_look_for_a_stop() {
    let mut uncertain = record();
    uncertain.record("one", &Change::Claim, NOW).unwrap();
    uncertain
        .record("one", &Change::Doubt(unknown()), NOW)
        .unwrap();
    let items = || Event::Listed(Ok(uncertain.items.clone()));
    let force = || Kind::Force {
        item_id: "one".into(),
        risk_confirmed: true,
    };
    let store = || StoreCredentials {
        shop_domain: "s".into(),
        access_token: "t".into(),
    };
    let mut events = vec![items(), items(), loaded(Some(template()))];
    events.push(Event::Unlocked(Ok(store())));
    let (operation, action) = lead(force(), false, events);
    assert!(matches!(action, Action::PassGate));
    assert!(!operation.claim_locked());
    let (operation, action) = operation.step(Event::Resumed);
    assert!(matches!(action, Action::CheckStop));
    assert!(operation.claim_locked());
    let (operation, _) = operation.step(Event::StopRequested(false));
    assert!(operation.claim_locked());
    let (operation, action) = operation.step(loaded(None));
    assert!(matches!(action, Action::ClaimForced { .. }));
    assert!(operation.claim_locked());
    let (operation, _) = operation.step(Event::Stored(Ok(())));
    assert!(!operation.claim_locked());
}

#[test]
fn a_late_clock_shortens_or_ends_the_lookups() {
    let mut uncertain = record();
    uncertain.record("one", &Change::Claim, NOW).unwrap();
    uncertain
        .record("one", &Change::Doubt(unknown()), NOW)
        .unwrap();
    let start = || {
        vec![
            Event::Stored(Ok(())),
            loaded(None),
            Event::Unlocked(Ok(StoreCredentials {
                shop_domain: "s".into(),
                access_token: "t".into(),
            })),
            Event::Listed(Ok(uncertain.items.clone())),
            Event::Clock(100 * SECOND),
            Event::Clock(100 * SECOND),
        ]
    };
    let mut events = start();
    events.push(Event::Clock(127 * SECOND));
    let (_, action) = lead(Kind::Reconcile, false, events);
    assert!(matches!(action, Action::FindOrder { limit, .. } if limit == 3 * SECOND));
    let mut events = start();
    events.push(Event::Clock(130 * SECOND));
    let (_, action) = lead(Kind::Reconcile, false, events);
    assert!(matches!(action, Action::LoadBatch { .. }));
    let mut events = start();
    events.push(Event::Clock(5));
    events.push(Event::LookedUp(LookupOutcome::Answered(Ok(None))));
    events.push(Event::Clock(104 * SECOND));
    let (_, action) = lead(Kind::Reconcile, false, events);
    assert!(matches!(action, Action::Wait { delay } if delay == 6 * SECOND));
}

#[test]
fn new_batches_have_fresh_items_with_their_own_sources() {
    let record = BatchRecord::create("store", "{}", BatchSize::new(100).unwrap());
    assert!(canonical_uuid(&record.job.id));
    assert_eq!(record.job.requested_count, 100);
    assert_eq!(record.job.status, "pending");
    assert_eq!(record.items.len(), 100);
    for (index, item) in record.items.iter().enumerate() {
        assert!(canonical_uuid(&item.id));
        assert_eq!(item.sequence_number, index as i64 + 1);
        assert_eq!(
            item.source_identifier,
            format!("orderpilot/{}/{}", record.job.id, index + 1)
        );
        assert_eq!(
            source_batch_id(&item.source_identifier).unwrap(),
            record.job.id
        );
        assert!(record.items[..index]
            .iter()
            .all(|other| other.source_identifier != item.source_identifier));
    }
}

#[test]
fn items_change_only_along_the_allowed_paths() {
    let item = record().items.remove(0);
    assert!(may_change(&item, &Change::Claim));
    assert!(!may_change(&item, &Change::Force));
    assert_eq!(
        change_item(item.clone(), &Change::Retry, NOW)
            .unwrap_err()
            .code(),
        "INVALID_ITEM_TRANSITION"
    );
    let stopped = change_item(item.clone(), &Change::Stop, "later").unwrap();
    assert_eq!(stopped.status, Status::Stopped);
    let mut resumed = change_item(stopped, &Change::Resume, "later").unwrap();
    assert_eq!(resumed.updated_at, "later");
    resumed.updated_at = NOW.into();
    assert_eq!(resumed, item);
    let claimed = change_item(item, &Change::Claim, NOW).unwrap();
    let done = change_item(claimed, &Change::Succeed(order(1)), NOW).unwrap();
    for change in [
        Change::Claim,
        Change::Force,
        Change::Stop,
        Change::Retry,
        Change::Interrupt,
        Change::Reconcile(order(2)),
    ] {
        assert!(!may_change(&done, &change));
    }
    let claimed = change_item(record().items.remove(0), &Change::Claim, NOW).unwrap();
    let doubtful = change_item(claimed, &Change::Doubt(unknown()), NOW).unwrap();
    for (change, allowed) in [
        (Change::Force, true),
        (Change::Reconcile(order(2)), true),
        (Change::Claim, false),
        (Change::Retry, false),
        (Change::Resume, false),
        (Change::Fail(unknown()), false),
    ] {
        assert_eq!(may_change(&doubtful, &change), allowed);
    }
    let mut worn = record().items.remove(0);
    worn.attempt_count = i64::MAX;
    assert!(!may_change(&worn, &Change::Claim));
}

#[test]
fn items_are_claimed_only_while_the_batch_runs() {
    let mut record = record();
    assert!(!record.claim("one", NOW));
    record.set_status(BatchStatus::Running, NOW);
    assert!(!record.claim("other", NOW));
    assert!(record.claim("one", NOW));
    assert!(!record.claim("one", NOW));
    assert_eq!(record.items[0].status, Status::Creating);
    assert_eq!(
        record
            .claim_forced("one", NOW)
            .unwrap_err()
            .code(),
        "INVALID_ITEM_TRANSITION"
    );
}

#[test]
fn one_operation_at_a_time_and_stops_are_remembered() {
    let mut active = ActiveBatches::new();
    assert!(active.acquire("a").is_ok());
    assert_eq!(active.acquire("a").unwrap_err().code(), "BATCH_BUSY");
    assert!(active.acquire("b").is_ok());
    assert!(!active.stop_requested("a"));
    assert!(active.request_stop("a"));
    assert!(active.request_stop("a"));
    assert!(active.stop_requested("a"));
    assert!(!active.stop_requested("b"));
    assert!(!active.request_stop("c"));
    assert!(!active.stop_requested("c"));
    active.release("a");
    assert!(!active.stop_requested("a"));
    assert!(active.acquire("a").is_ok());
    assert!(!active.stop_requested("a"));
}

#[test]
fn progress_counts_every_item_once() {
    let mut items = Vec::new();
    for (index, status) in [
        Status::Queued,
        Status::Creating,
        Status::Succeeded,
        Status::Succeeded,
        Status::Failed,
        Status::Uncertain,
        Status::Stopped,
        Status::Creating,
    ]
    .into_iter()
    .enumerate()
    {
        let mut item = record().items.remove(0);
        item.status = status;
        item.sequence_number = index as i64 + 1;
        items.push(item);
    }
    assert_eq!(count_items(&items, Status::Succeeded), 2);
    assert_eq!(count_items(&items, Status::Creating), 2);
    assert_eq!(count_items(&items, Status::Queued), 1);
    assert_eq!(current_sequence(&items), Some(2));
    assert_eq!(current_sequence(&Vec::new()), None);
    assert_eq!(final_status(&items), BatchStatus::Paused);
    items.retain(|item| {
        matches!(
            item.status,
            Status::Succeeded | Status::Failed | Status::Uncertain
        )
    });
    assert_eq!(final_status(&items), BatchStatus::CompletedWithErrors);
    items.retain(|item| item.status == Status::Succeeded);
    assert_eq!(final_status(&items), BatchStatus::Completed);
    assert_eq!(BatchStatus::CompletedWithErrors.text(), "completed_with_errors");
    assert_eq!(BatchStatus::Running.text(), "running");
}

#[test]
fn errors_are_told_apart_by_their_codes() {
    let error = |code: &str| AppError::validation(code, "");
    assert!(is_access_error(&error("CUSTOMER_DATA_RESTRICTED")));
    assert!(!is_access_error(&error("SHOPIFY_RATE_LIMITED")));
    assert!(is_rejection(&error("SHOPIFY_RATE_LIMITED")));
    assert!(is_rejection(&error("SHOPIFY_USER_ERROR")));
    assert!(!is_rejection(&error("SHOPIFY_ORDER_OUTCOME_UNCERTAIN")));
    let redacted = sanitize_order(
        CreatedOrder {
            id: "a-token".into(),
            name: "token".into(),
        },
        "token",
    );
    assert_eq!(redacted.id, "a-[REDACTED]");
    assert_eq!(redacted.name, "[REDACTED]");
}
