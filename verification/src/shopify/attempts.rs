//! The attempts at one request. The caller sends, reads and waits as it is told, and reports what
//! came of it.
use vstd::prelude::*;

use crate::error::{lasting, quoting_failure, AppError, Failure};
use crate::json::{
    mentions, redact_token, redacted_tree, redacted_values_do_not_mention_the_secret,
    values_without_the_secret_stay, Json, Tree,
};
use crate::redact::{
    apart_from_marker, concealed, redaction_removes_the_secret, text_without_the_secret_stays,
};
use crate::shopify::exchange::{
    answer_failure, error_code, failures_keep_the_codes, graphql_response_error, http_error,
    http_failure, is_pre_execution_throttle, is_retryable_http, is_throttled, network_error,
    network_failure, optional_tree, retryable_http, throttled_error, throttled_failure, trees,
    MAX_ATTEMPTS, SECOND,
};
use crate::shopify::graphql::{invalid_response, unusable_answer};
use crate::text::occurs;

verus! {

/// What the caller is to do next. A wait is in nanoseconds.
#[derive(Debug)]
pub enum RequestAction {
    Send,
    ReadThrottle,
    Wait(u128),
    ReadBody,
    Fail(AppError),
    Deliver(Json),
}

/// What stands in a [`RequestAction`].
pub enum RequestActionModel {
    Send,
    ReadThrottle,
    Wait(u128),
    ReadBody,
    Fail(Failure),
    Deliver(Tree),
}

impl View for RequestAction {
    type V = RequestActionModel;

    open spec fn view(&self) -> RequestActionModel {
        match *self {
            RequestAction::Send => RequestActionModel::Send,
            RequestAction::ReadThrottle => RequestActionModel::ReadThrottle,
            RequestAction::Wait(delay) => RequestActionModel::Wait(delay),
            RequestAction::ReadBody => RequestActionModel::ReadBody,
            RequestAction::Fail(error) => RequestActionModel::Fail(error@),
            RequestAction::Deliver(data) => RequestActionModel::Deliver(data@),
        }
    }
}

/// The top level of a GraphQL answer, with the delay that its throttle status asks for.
#[derive(Debug)]
pub struct Envelope {
    pub data: Option<Json>,
    pub errors: Option<Vec<Json>>,
    pub throttle: Option<u128>,
}

/// What came of the last action. Delays are in nanoseconds.
#[derive(Debug)]
pub enum RequestEvent {
    /// No answer came.
    Unanswered { timed_out: bool },
    /// An answer came, with the delay that its `Retry-After` header asks for.
    Answered { status: u16, header_delay: Option<u128> },
    /// The delay that the throttle status in the body asks for.
    ThrottleRead { delay: Option<u128> },
    /// The wait is over.
    Waited,
    /// The body broke off.
    BodyLost { timed_out: bool },
    /// The body is no GraphQL answer.
    Malformed,
    /// The body is a GraphQL answer.
    Enveloped(Envelope),
}

/// What the caller is doing.
#[derive(Debug, Clone, Copy, PartialEq, Eq, Structural)]
pub enum Stage {
    Sending,
    ReadingThrottle,
    Waiting,
    ReadingBody,
    Ended,
}

/// The state of the attempts at one request.
#[derive(Debug)]
pub struct Attempts {
    limit: u32,
    mutation: bool,
    attempt: u32,
    header_delay: Option<u128>,
    stage: Stage,
}

/// What stands in [`Attempts`]: how often the request may be sent, whether it is the order
/// mutation, how often it was sent before this time, the delay that the last answer asked for, and
/// what the caller is doing.
pub struct AttemptsModel {
    pub limit: nat,
    pub mutation: bool,
    pub attempt: nat,
    pub header_delay: Option<u128>,
    pub stage: Stage,
}

impl View for Attempts {
    type V = AttemptsModel;

    closed spec fn view(&self) -> AttemptsModel {
        AttemptsModel {
            limit: self.limit as nat,
            mutation: self.mutation,
            attempt: self.attempt as nat,
            header_delay: self.header_delay,
            stage: self.stage,
        }
    }
}

/// The attempts before the first: the caller is to send the request.
pub open spec fn first_attempt(limit: nat, mutation: bool) -> AttemptsModel {
    AttemptsModel { limit, mutation, attempt: 0, header_delay: None, stage: Stage::Sending }
}

/// Whether `event` can come of what the caller is doing.
pub open spec fn fits(stage: Stage, event: RequestEvent) -> bool {
    match event {
        RequestEvent::Unanswered { .. } => stage == Stage::Sending,
        RequestEvent::Answered { .. } => stage == Stage::Sending,
        RequestEvent::ThrottleRead { .. } => stage == Stage::ReadingThrottle,
        RequestEvent::Waited => stage == Stage::Waiting,
        RequestEvent::BodyLost { .. } => stage == Stage::ReadingBody,
        RequestEvent::Malformed => stage == Stage::ReadingBody,
        RequestEvent::Enveloped(_) => stage == Stage::ReadingBody,
    }
}

/// Two to the power `n`.
pub open spec fn doubled(n: nat) -> nat
    decreases n,
{
    if n == 0 {
        1
    } else {
        2 * doubled((n - 1) as nat)
    }
}

/// The delay before the next attempt where the shop asks for none: 1 second, doubled for each
/// attempt so far.
pub open spec fn backoff(attempt: nat) -> u128 {
    (doubled(attempt) * SECOND) as u128
}

/// The larger of two delays.
pub open spec fn longer(a: u128, b: u128) -> u128 {
    if a >= b {
        a
    } else {
        b
    }
}

/// The delay after an HTTP status: the longer of those that header and body ask for.
pub open spec fn http_delay(header: Option<u128>, body: Option<u128>, attempt: nat) -> u128 {
    match (header, body) {
        (Some(a), Some(b)) => longer(a, b),
        (Some(a), None) => a,
        (None, Some(b)) => b,
        (None, None) => backoff(attempt),
    }
}

/// The delay after a throttled answer: at least what the header asks for.
pub open spec fn throttled_delay(
    header: Option<u128>,
    throttle: Option<u128>,
    attempt: nat,
) -> u128 {
    let floor = match header {
        Some(delay) => delay,
        None => 0,
    };
    let asked = match throttle {
        Some(delay) => delay,
        None => backoff(attempt),
    };
    longer(floor, asked)
}

/// The failure of an order mutation that the shop's servers broke off.
pub open spec fn broken_off_mutation() -> Failure {
    lasting("SHOPIFY_SERVER_ERROR"@, "Shopify 返回服务错误，订单结果不确定，请核对"@)
}

/// What an envelope's errors are; an absent list is an empty one.
pub open spec fn envelope_errors(envelope: Envelope) -> Seq<Tree> {
    match envelope.errors {
        Some(errors) => trees(errors@),
        None => Seq::empty(),
    }
}

/// The attempts at an end, with `action` as the last.
pub open spec fn ended(state: AttemptsModel, action: RequestActionModel) -> (
    AttemptsModel,
    RequestActionModel,
) {
    (AttemptsModel { stage: Stage::Ended, ..state }, action)
}

/// What follows an answer with `status`.
pub open spec fn after_status(state: AttemptsModel, status: u16, header_delay: Option<u128>) -> (
    AttemptsModel,
    RequestActionModel,
) {
    let known = AttemptsModel { header_delay, ..state };
    if is_retryable_http(status, state.mutation) && state.attempt + 1 < state.limit {
        (
            AttemptsModel { stage: Stage::ReadingThrottle, ..known },
            RequestActionModel::ReadThrottle,
        )
    } else if 200 <= status <= 299 {
        (AttemptsModel { stage: Stage::ReadingBody, ..known }, RequestActionModel::ReadBody)
    } else if state.mutation && 500 <= status <= 599 {
        ended(known, RequestActionModel::Fail(broken_off_mutation()))
    } else {
        ended(known, RequestActionModel::Fail(http_failure(status)))
    }
}

/// The failure that a GraphQL answer with errors ends in, before the token is removed from it.
pub open spec fn quoted_failure(envelope: Envelope, mutation: bool) -> Failure {
    let errors = envelope_errors(envelope);
    let data = optional_tree(envelope.data);
    if mutation && is_throttled(data, errors) {
        throttled_failure(errors)
    } else {
        answer_failure(errors, data, mutation)
    }
}

/// What follows a GraphQL answer. Its errors win over its data; what is told of them quotes the
/// shop, and so does not show the token.
pub open spec fn after_envelope(state: AttemptsModel, envelope: Envelope, token: Seq<char>) -> (
    AttemptsModel,
    RequestActionModel,
) {
    let errors = envelope_errors(envelope);
    let data = optional_tree(envelope.data);
    if errors.len() > 0 {
        if state.mutation && is_throttled(data, errors) && state.attempt + 1 < state.limit {
            (
                AttemptsModel { stage: Stage::Waiting, ..state },
                RequestActionModel::Wait(
                    throttled_delay(state.header_delay, envelope.throttle, state.attempt),
                ),
            )
        } else {
            ended(
                state,
                RequestActionModel::Fail(
                    quoting_failure(quoted_failure(envelope, state.mutation), token),
                ),
            )
        }
    } else {
        match data {
            Some(value) => ended(state, RequestActionModel::Deliver(redacted_tree(value, token))),
            None => ended(state, RequestActionModel::Fail(unusable_answer())),
        }
    }
}

/// What follows `event`: the next state, and what the caller is to do.
pub open spec fn next_attempt(state: AttemptsModel, event: RequestEvent, token: Seq<char>) -> (
    AttemptsModel,
    RequestActionModel,
) {
    match event {
        RequestEvent::Unanswered { timed_out } => ended(
            state,
            RequestActionModel::Fail(network_failure(timed_out)),
        ),
        RequestEvent::Answered { status, header_delay } => after_status(
            state,
            status,
            header_delay,
        ),
        RequestEvent::ThrottleRead { delay } => (
            AttemptsModel { stage: Stage::Waiting, ..state },
            RequestActionModel::Wait(http_delay(state.header_delay, delay, state.attempt)),
        ),
        RequestEvent::Waited => (
            AttemptsModel { stage: Stage::Sending, attempt: state.attempt + 1, ..state },
            RequestActionModel::Send,
        ),
        RequestEvent::BodyLost { timed_out } => ended(
            state,
            RequestActionModel::Fail(network_failure(timed_out)),
        ),
        RequestEvent::Malformed => ended(state, RequestActionModel::Fail(unusable_answer())),
        RequestEvent::Enveloped(envelope) => after_envelope(state, envelope, token),
    }
}

/// The longer of two delays.
fn longer_delay(a: u128, b: u128) -> (r: u128)
    ensures
        r == longer(a, b),
{
    if a >= b {
        a
    } else {
        b
    }
}

/// The delay before the next attempt where the shop asks for none.
fn backoff_delay(attempt: u32) -> (r: u128)
    requires
        attempt < MAX_ATTEMPTS,
    ensures
        r == backoff(attempt as nat),
{
    proof {
        reveal_with_fuel(doubled, 3);
    }
    if attempt == 0 {
        SECOND
    } else if attempt == 1 {
        2 * SECOND
    } else {
        4 * SECOND
    }
}

impl Attempts {
    /// A request is sent a few times at most; while the caller waits to send it again, there is
    /// room for one more attempt.
    #[verifier::type_invariant]
    spec fn within_limit(self) -> bool {
        &&& self.attempt < self.limit <= MAX_ATTEMPTS
        &&& (self.stage == Stage::Waiting || self.stage == Stage::ReadingThrottle)
            ==> self.attempt + 1 < self.limit
    }

    /// A query.
    pub fn of_query() -> (r: Self)
        ensures
            r@ == first_attempt(MAX_ATTEMPTS as nat, false),
    {
        Attempts {
            limit: MAX_ATTEMPTS,
            mutation: false,
            attempt: 0,
            header_delay: None,
            stage: Stage::Sending,
        }
    }

    /// A query that is sent once.
    pub fn of_lookup() -> (r: Self)
        ensures
            r@ == first_attempt(1, false),
    {
        Attempts {
            limit: 1,
            mutation: false,
            attempt: 0,
            header_delay: None,
            stage: Stage::Sending,
        }
    }

    /// The order mutation.
    pub fn of_order_mutation() -> (r: Self)
        ensures
            r@ == first_attempt(MAX_ATTEMPTS as nat, true),
    {
        Attempts {
            limit: MAX_ATTEMPTS,
            mutation: true,
            attempt: 0,
            header_delay: None,
            stage: Stage::Sending,
        }
    }

    /// Whether `event` can come of what the caller is doing.
    pub fn accepts(&self, event: &RequestEvent) -> (r: bool)
        ensures
            r == fits(self@.stage, *event),
    {
        match event {
            RequestEvent::Unanswered { .. } => self.stage == Stage::Sending,
            RequestEvent::Answered { .. } => self.stage == Stage::Sending,
            RequestEvent::ThrottleRead { .. } => self.stage == Stage::ReadingThrottle,
            RequestEvent::Waited => self.stage == Stage::Waiting,
            RequestEvent::BodyLost { .. } => self.stage == Stage::ReadingBody,
            RequestEvent::Malformed => self.stage == Stage::ReadingBody,
            RequestEvent::Enveloped(_) => self.stage == Stage::ReadingBody,
        }
    }

    /// Takes note of `event` and says what is to be done next.
    pub fn step(&mut self, event: RequestEvent, token: &str) -> (r: RequestAction)
        requires
            fits(old(self)@.stage, event),
        ensures
            (final(self)@, r@) == next_attempt(old(self)@, event, token@),
    {
        proof {
            use_type_invariant(&*self);
        }
        match event {
            RequestEvent::Unanswered { timed_out } => {
                self.stage = Stage::Ended;
                RequestAction::Fail(network_error(timed_out))
            },
            RequestEvent::Answered { status, header_delay } => {
                self.header_delay = header_delay;
                if retryable_http(status, self.mutation) && self.attempt + 1 < self.limit {
                    self.stage = Stage::ReadingThrottle;
                    RequestAction::ReadThrottle
                } else if 200 <= status && status <= 299 {
                    self.stage = Stage::ReadingBody;
                    RequestAction::ReadBody
                } else {
                    self.stage = Stage::Ended;
                    if self.mutation && 500 <= status && status <= 599 {
                        RequestAction::Fail(
                            AppError::validation(
                                "SHOPIFY_SERVER_ERROR",
                                "Shopify 返回服务错误，订单结果不确定，请核对",
                            ),
                        )
                    } else {
                        RequestAction::Fail(http_error(status))
                    }
                }
            },
            RequestEvent::ThrottleRead { delay } => {
                self.stage = Stage::Waiting;
                RequestAction::Wait(
                    match (self.header_delay, delay) {
                        (Some(a), Some(b)) => longer_delay(a, b),
                        (Some(a), None) => a,
                        (None, Some(b)) => b,
                        (None, None) => backoff_delay(self.attempt),
                    },
                )
            },
            RequestEvent::Waited => {
                self.stage = Stage::Sending;
                self.attempt = self.attempt + 1;
                RequestAction::Send
            },
            RequestEvent::BodyLost { timed_out } => {
                self.stage = Stage::Ended;
                RequestAction::Fail(network_error(timed_out))
            },
            RequestEvent::Malformed => {
                self.stage = Stage::Ended;
                RequestAction::Fail(invalid_response())
            },
            RequestEvent::Enveloped(envelope) => self.read_envelope(envelope, token),
        }
    }

    /// Takes note of a GraphQL answer.
    fn read_envelope(&mut self, envelope: Envelope, token: &str) -> (r: RequestAction)
        ensures
            (final(self)@, r@) == after_envelope(old(self)@, envelope, token@),
    {
        proof {
            use_type_invariant(&*self);
        }
        if let Some(errors) = &envelope.errors {
            if errors.len() > 0 {
                if self.mutation && is_pre_execution_throttle(&envelope.data, errors) {
                    if self.attempt + 1 < self.limit {
                        let floor: u128 = match self.header_delay {
                            Some(delay) => delay,
                            None => 0,
                        };
                        let asked: u128 = match envelope.throttle {
                            Some(delay) => delay,
                            None => backoff_delay(self.attempt),
                        };
                        self.stage = Stage::Waiting;
                        return RequestAction::Wait(longer_delay(floor, asked));
                    }
                    self.stage = Stage::Ended;
                    return RequestAction::Fail(throttled_error(errors).with_message_redacted(token));
                }
                self.stage = Stage::Ended;
                let error = graphql_response_error(errors, &envelope.data, self.mutation);
                return RequestAction::Fail(error.with_message_redacted(token));
            }
        }
        self.stage = Stage::Ended;
        match envelope.data {
            Some(data) => RequestAction::Deliver(redact_token(data, token)),
            None => RequestAction::Fail(invalid_response()),
        }
    }
}

/// The state after the first `n` of `events`.
pub open spec fn state_after(
    limit: nat,
    mutation: bool,
    events: Seq<RequestEvent>,
    token: Seq<char>,
    n: nat,
) -> AttemptsModel
    decreases n,
{
    if n == 0 {
        first_attempt(limit, mutation)
    } else {
        let before = state_after(limit, mutation, events, token, (n - 1) as nat);
        next_attempt(before, events[n - 1], token).0
    }
}

/// What the caller is told on event number `n`.
pub open spec fn told(
    limit: nat,
    mutation: bool,
    events: Seq<RequestEvent>,
    token: Seq<char>,
    n: nat,
) -> RequestActionModel {
    next_attempt(state_after(limit, mutation, events, token, n), events[n as int], token).1
}

/// Whether each of `events` can come of what the caller was told before it.
pub open spec fn is_run(
    limit: nat,
    mutation: bool,
    events: Seq<RequestEvent>,
    token: Seq<char>,
) -> bool {
    forall|n: nat|
        n < events.len() ==> fits(
            #[trigger] state_after(limit, mutation, events, token, n).stage,
            events[n as int],
        )
}

/// How often the request is sent up to event number `n`, with the first time.
pub open spec fn sends(
    limit: nat,
    mutation: bool,
    events: Seq<RequestEvent>,
    token: Seq<char>,
    n: nat,
) -> nat
    decreases n,
{
    if n == 0 {
        1
    } else {
        let before = sends(limit, mutation, events, token, (n - 1) as nat);
        if told(limit, mutation, events, token, (n - 1) as nat) is Send {
            before + 1
        } else {
            before
        }
    }
}

/// How many events can still come.
spec fn events_left(state: AttemptsModel) -> int {
    let later = 3 * (state.limit - state.attempt - 1);
    match state.stage {
        Stage::Sending => later + 3,
        Stage::ReadingThrottle => later + 2,
        Stage::ReadingBody => later + 2,
        Stage::Waiting => later + 1,
        Stage::Ended => 0,
    }
}

proof fn run_keeps_count(
    limit: nat,
    mutation: bool,
    events: Seq<RequestEvent>,
    token: Seq<char>,
    n: nat,
)
    requires
        limit > 0,
        n <= events.len(),
        is_run(limit, mutation, events, token),
    ensures
        ({
            let state = state_after(limit, mutation, events, token, n);
            &&& state.limit == limit
            &&& state.mutation == mutation
            &&& state.attempt < limit
            &&& (state.stage == Stage::Waiting || state.stage == Stage::ReadingThrottle)
                ==> state.attempt + 1 < limit
            &&& sends(limit, mutation, events, token, n) == state.attempt + 1
            &&& events_left(state) >= 0
            &&& n + events_left(state) <= 3 * limit
        }),
    decreases n,
{
    if n > 0 {
        run_keeps_count(limit, mutation, events, token, (n - 1) as nat);
        assert(fits(
            state_after(limit, mutation, events, token, (n - 1) as nat).stage,
            events[n - 1],
        ));
    }
}

/// A request is sent no more often than its limit says.
pub proof fn sends_are_limited(
    limit: nat,
    mutation: bool,
    events: Seq<RequestEvent>,
    token: Seq<char>,
)
    requires
        limit > 0,
        is_run(limit, mutation, events, token),
    ensures
        sends(limit, mutation, events, token, events.len()) <= limit,
{
    run_keeps_count(limit, mutation, events, token, events.len());
}

/// The attempts come to an end: no run is longer than three events for each time that the request
/// may be sent.
pub proof fn attempts_come_to_an_end(
    limit: nat,
    mutation: bool,
    events: Seq<RequestEvent>,
    token: Seq<char>,
)
    requires
        limit > 0,
        is_run(limit, mutation, events, token),
    ensures
        events.len() <= 3 * limit,
{
    run_keeps_count(limit, mutation, events, token, events.len());
}

/// The order mutation is sent again only where the shop said that it did not take it up: by the
/// HTTP status 429, or by an answer without data and with nothing but throttling errors.
pub proof fn the_mutation_is_resent_only_after_a_refusal(
    limit: nat,
    events: Seq<RequestEvent>,
    token: Seq<char>,
    n: nat,
)
    requires
        limit > 0,
        is_run(limit, true, events, token),
        n < events.len(),
        told(limit, true, events, token, n) is Send,
    ensures
        ({
            ||| n >= 2 && (events[n - 2] matches RequestEvent::Answered { status, .. } && status
                == 429)
            ||| n >= 1 && (events[n - 1] matches RequestEvent::Enveloped(envelope)
                && is_throttled(optional_tree(envelope.data), envelope_errors(envelope)))
        }),
{
    assert(fits(state_after(limit, true, events, token, n).stage, events[n as int]));
    assert(events[n as int] is Waited);
    assert(n >= 1);
    let m = (n - 1) as nat;
    assert(fits(state_after(limit, true, events, token, m).stage, events[m as int]));
    run_keeps_count(limit, true, events, token, m);
    if events[m as int] is ThrottleRead {
        assert(m >= 1);
        let k = (m - 1) as nat;
        assert(fits(state_after(limit, true, events, token, k).stage, events[k as int]));
        run_keeps_count(limit, true, events, token, k);
    }
}

/// A wait is never shorter than the `Retry-After` header of the last answer asks for.
pub proof fn waits_honour_the_header(state: AttemptsModel, event: RequestEvent, token: Seq<char>)
    ensures
        match (next_attempt(state, event, token).1, state.header_delay) {
            (RequestActionModel::Wait(delay), Some(asked)) => delay >= asked,
            _ => true,
        },
{
}

/// What is delivered does not mention the token, for a token of which no part can be mistaken for
/// a part of the marker.
pub proof fn deliveries_do_not_mention_the_token(
    state: AttemptsModel,
    event: RequestEvent,
    token: Seq<char>,
)
    requires
        token.len() > 0,
        apart_from_marker(token),
    ensures
        next_attempt(state, event, token).1 matches RequestActionModel::Deliver(data) ==> !mentions(
            data,
            token,
        ),
{
    if let RequestEvent::Enveloped(envelope) = event {
        if let Some(data) = envelope.data {
            redacted_values_do_not_mention_the_secret(data@, token);
        }
    }
}

/// Whether an event brings GraphQL errors: what is told of them quotes their codes.
pub open spec fn brings_errors(event: RequestEvent) -> bool {
    event matches RequestEvent::Enveloped(envelope) && envelope_errors(envelope).len() > 0
}

/// The failures that a request can end in without GraphQL errors. Each is a fixed text.
pub open spec fn is_fixed_failure(failure: Failure) -> bool {
    ||| failure == network_failure(true)
    ||| failure == network_failure(false)
    ||| failure == unusable_answer()
    ||| failure == broken_off_mutation()
    ||| failure == http_failure(401)
    ||| failure == http_failure(403)
    ||| failure == http_failure(429)
    ||| failure == http_failure(500)
    ||| failure == http_failure(0)
}

/// No message that quotes the shop mentions the token, for a token of which no part can be mistaken
/// for a part of the marker; every other failure is a fixed text.
pub proof fn failures_do_not_quote_the_token(
    state: AttemptsModel,
    event: RequestEvent,
    token: Seq<char>,
)
    requires
        token.len() > 0,
        apart_from_marker(token),
    ensures
        next_attempt(state, event, token).1 matches RequestActionModel::Fail(failure) ==> if brings_errors(
            event,
        ) {
            !occurs(failure.message, token)
        } else {
            is_fixed_failure(failure)
        },
{
    if let RequestEvent::Enveloped(envelope) = event {
        let plain = quoted_failure(envelope, state.mutation);
        redaction_removes_the_secret(plain.message, token);
    }
}

/// A request that ends on GraphQL errors keeps the code of each in the message of its failure,
/// where removing the token leaves that message as it is.
pub proof fn requests_keep_the_codes(
    state: AttemptsModel,
    envelope: Envelope,
    token: Seq<char>,
    i: int,
    code: Seq<char>,
)
    requires
        0 <= i < envelope_errors(envelope).len(),
        error_code(envelope_errors(envelope)[i]) == Some(code),
        token.len() > 0 ==> !occurs(quoted_failure(envelope, state.mutation).message, token),
    ensures
        next_attempt(state, RequestEvent::Enveloped(envelope), token).1 matches RequestActionModel::Fail(
            failure,
        ) ==> occurs(failure.message, code),
{
    let errors = envelope_errors(envelope);
    failures_keep_the_codes(errors, optional_tree(envelope.data), state.mutation, i, code);
    text_without_the_secret_stays(quoted_failure(envelope, state.mutation).message, token);
}

/// Only rate limiting, and server errors outside the order mutation, end in a failure that trying
/// again may mend.
pub proof fn passing_failures_are_retryable_statuses(
    state: AttemptsModel,
    event: RequestEvent,
    token: Seq<char>,
)
    ensures
        next_attempt(state, event, token).1 matches RequestActionModel::Fail(failure)
            ==> failure.retryable ==> failure.code == http_failure(429).code || (failure
            == http_failure(500) && !state.mutation),
{
}

/// A request begins with sending it for the first time.
pub proof fn requests_begin_with_the_first_attempt(limit: nat, mutation: bool)
    ensures
        first_attempt(limit, mutation).limit == limit,
        first_attempt(limit, mutation).mutation == mutation,
        first_attempt(limit, mutation).attempt == 0,
        first_attempt(limit, mutation).header_delay is None,
        first_attempt(limit, mutation).stage == Stage::Sending,
        MAX_ATTEMPTS == 3,
{
}

/// A request that rate limiting turned away, or that the shop's servers broke off and that created
/// nothing, is sent again while it may be: the delay that the shop asks for is read, waited for, and
/// the next attempt begins.
pub proof fn requests_are_sent_again_while_they_may_be(
    state: AttemptsModel,
    status: u16,
    header_delay: Option<u128>,
    delay: Option<u128>,
    token: Seq<char>,
)
    requires
        status == 429 || (500 <= status <= 599 && !state.mutation),
        state.attempt + 1 < state.limit,
    ensures
        ({
            let answered = next_attempt(
                state,
                RequestEvent::Answered { status, header_delay },
                token,
            );
            let read = next_attempt(answered.0, RequestEvent::ThrottleRead { delay }, token);
            let waited = next_attempt(read.0, RequestEvent::Waited, token);
            &&& answered.1 is ReadThrottle
            &&& answered.0.stage == Stage::ReadingThrottle
            &&& read.1 is Wait
            &&& read.0.stage == Stage::Waiting
            &&& header_delay matches Some(asked) ==> read.1->Wait_0 >= asked
            &&& delay matches Some(asked) ==> read.1->Wait_0 >= asked
            &&& header_delay is Some || delay is Some ==> header_delay == Some(read.1->Wait_0)
                || delay == Some(read.1->Wait_0)
            &&& header_delay is None && delay is None ==> read.1->Wait_0 == backoff(state.attempt)
            &&& waited.1 is Send
            &&& waited.0.stage == Stage::Sending
            &&& waited.0.attempt == state.attempt + 1
            &&& waited.0.limit == state.limit
            &&& waited.0.mutation == state.mutation
        }),
{
}

/// Where the shop asks for no delay, the first wait is a second, and each is twice as long as the one
/// before.
pub proof fn waits_double(attempt: nat)
    ensures
        backoff(0) == 1_000_000_000,
        attempt < 3 ==> backoff(attempt + 1) == 2 * backoff(attempt),
{
    reveal_with_fuel(doubled, 5);
}

/// The body of an answer is read just where its status says that all is well; every other answer
/// that is not tried again ends the request, a broken off creation with its outcome open.
pub proof fn answers_are_read_or_end_the_request(
    state: AttemptsModel,
    status: u16,
    header_delay: Option<u128>,
    token: Seq<char>,
)
    requires
        state.attempt + 1 >= state.limit || !(status == 429 || (500 <= status <= 599
            && !state.mutation)),
    ensures
        ({
            let next = next_attempt(state, RequestEvent::Answered { status, header_delay }, token);
            &&& 200 <= status <= 299 <==> next.1 is ReadBody
            &&& 200 <= status <= 299 ==> next.0 == (AttemptsModel {
                header_delay,
                stage: Stage::ReadingBody,
                ..state
            })
            &&& !(200 <= status <= 299) ==> next.1 is Fail && next.0.stage == Stage::Ended
            &&& state.mutation && 500 <= status <= 599 ==> next.1->Fail_0.code
                == "SHOPIFY_SERVER_ERROR"@ && !next.1->Fail_0.retryable
            &&& !(200 <= status <= 299) && !(state.mutation && 500 <= status <= 599)
                ==> next.1->Fail_0 == http_failure(status)
        }),
{
}

/// The data of an answer without errors is delivered as it is, where it does not mention the token;
/// an answer with neither is of no use, and one with errors delivers nothing.
pub proof fn answers_deliver_their_data(
    state: AttemptsModel,
    envelope: Envelope,
    token: Seq<char>,
)
    ensures
        ({
            let next = next_attempt(state, RequestEvent::Enveloped(envelope), token);
            let told = envelope.errors matches Some(errors) && errors@.len() > 0;
            &&& told ==> next.1 is Fail || next.1 is Wait
            &&& !told ==> next.0.stage == Stage::Ended
            &&& !told && envelope.data is None ==> (next.1 matches RequestActionModel::Fail(failure)
                && failure.code == "SHOPIFY_INVALID_RESPONSE"@)
            &&& !told ==> (envelope.data matches Some(data) ==> {
                &&& next.1 == RequestActionModel::Deliver(redacted_tree(data@, token))
                &&& (token.len() > 0 ==> !mentions(data@, token)) ==> next.1
                    == RequestActionModel::Deliver(data@)
            })
        }),
{
    if let Some(data) = envelope.data {
        if token.len() > 0 ==> !mentions(data@, token) {
            values_without_the_secret_stay(data@, token);
        }
    }
}

/// An order mutation that was throttled before anything was executed is sent again while it may be,
/// after the delay that the shop asks for; every other answer with errors ends the request under the
/// code that the errors stand for.
pub proof fn answers_with_errors_end_the_request(
    state: AttemptsModel,
    envelope: Envelope,
    token: Seq<char>,
    errors: Vec<Json>,
)
    requires
        envelope.errors == Some(errors),
        errors@.len() > 0,
    ensures
        ({
            let next = next_attempt(state, RequestEvent::Enveloped(envelope), token);
            let throttled = state.mutation && envelope.data is None && forall|i: int|
                0 <= i < errors@.len() ==> error_code((#[trigger] errors@[i])@) == Some(
                    "THROTTLED"@,
                );
            let floor = match state.header_delay {
                Some(asked) => asked,
                None => 0,
            };
            let asked = match envelope.throttle {
                Some(asked) => asked,
                None => backoff(state.attempt),
            };
            &&& throttled && state.attempt + 1 < state.limit ==> {
                &&& next.1 is Wait
                &&& next.0 == (AttemptsModel { stage: Stage::Waiting, ..state })
                &&& next.1->Wait_0 >= floor
                &&& next.1->Wait_0 >= asked
                &&& next.1->Wait_0 == floor || next.1->Wait_0 == asked
            }
            &&& throttled && state.attempt + 1 >= state.limit ==> next.1 is Fail
                && next.1->Fail_0.code == "SHOPIFY_RATE_LIMITED"@ && next.1->Fail_0.retryable
            &&& !throttled ==> next.1 is Fail && next.1->Fail_0.code == answer_failure(
                errors@.map_values(|error: Json| error@),
                match envelope.data {
                    Some(data) => Some(data@),
                    None => None,
                },
                state.mutation,
            ).code
        }),
{
    let all = errors@.map_values(|error: Json| error@);
    assert(trees(errors@) =~= all);
    assert(envelope_errors(envelope) == all);
    assert(optional_tree(envelope.data) == match envelope.data {
        Some(data) => Some(data@),
        None => None,
    });
    if forall|i: int|
        0 <= i < errors@.len() ==> error_code((#[trigger] errors@[i])@) == Some("THROTTLED"@) {
        assert forall|i: int| 0 <= i < all.len() implies error_code(#[trigger] all[i]) == Some(
            "THROTTLED"@,
        ) by {
            assert(all[i] == errors@[i]@);
        }
    } else {
        let i = choose|i: int|
            0 <= i < errors@.len() && error_code((#[trigger] errors@[i])@) != Some("THROTTLED"@);
        assert(all[i] == errors@[i]@);
    }
}

/// A request without an answer, one whose body broke off and one whose body is no GraphQL answer end
/// at once.
pub proof fn requests_without_an_answer_end(
    state: AttemptsModel,
    timed_out: bool,
    token: Seq<char>,
)
    ensures
        ({
            let unanswered = next_attempt(state, RequestEvent::Unanswered { timed_out }, token);
            let lost = next_attempt(state, RequestEvent::BodyLost { timed_out }, token);
            let malformed = next_attempt(state, RequestEvent::Malformed, token);
            &&& unanswered.1 == RequestActionModel::Fail(network_failure(timed_out))
            &&& unanswered.0.stage == Stage::Ended
            &&& lost.1 == RequestActionModel::Fail(network_failure(timed_out))
            &&& lost.0.stage == Stage::Ended
            &&& malformed.1 is Fail
            &&& malformed.1->Fail_0.code == "SHOPIFY_INVALID_RESPONSE"@
            &&& malformed.0.stage == Stage::Ended
        }),
{
}

/// Each event is taken just while what it reports is being done.
pub proof fn events_come_of_what_is_being_done(event: RequestEvent)
    ensures
        fits(Stage::Sending, event) <==> event is Unanswered || event is Answered,
        fits(Stage::ReadingThrottle, event) <==> event is ThrottleRead,
        fits(Stage::Waiting, event) <==> event is Waited,
        fits(Stage::ReadingBody, event) <==> event is BodyLost || event is Malformed || event
            is Enveloped,
        !fits(Stage::Ended, event),
{
}

/// What is told of an answer with errors is what the errors stand for, with the marker in place of the
/// token in its message alone.
pub proof fn failures_tell_what_the_errors_stand_for(
    state: AttemptsModel,
    envelope: Envelope,
    token: Seq<char>,
)
    requires
        envelope_errors(envelope).len() > 0,
    ensures
        next_attempt(state, RequestEvent::Enveloped(envelope), token).1 matches RequestActionModel::Fail(
            failure,
        ) ==> {
            let errors = envelope_errors(envelope);
            let data = match envelope.data {
                Some(data) => Some(data@),
                None => None,
            };
            let plain = if state.mutation && is_throttled(data, errors) {
                throttled_failure(errors)
            } else {
                answer_failure(errors, data, state.mutation)
            };
            &&& failure.code == plain.code
            &&& failure.retryable == plain.retryable
            &&& failure.message == concealed(plain.message, token)
        },
{
}

} // verus!
