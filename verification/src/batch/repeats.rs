//! When the order of an item is created once more, over all operations on a batch.
use vstd::prelude::*;

use crate::batch::laws::{
    action_after, claims_are_forced_only_on_request, is_run, item_at,
    orders_are_created_after_their_claim, point_after,
};
use crate::batch::machine::{Action, Event, Request};
use crate::ledger::{
    attempts_are_repeated_by_force_or_with_leave, change_at, gives_leave, is_history, takes,
    RecordModel, Step,
};

verus! {

/// Whether event number `n` reports of a claim what the store did: step number `k` of the history
/// of the batch is that claim, and it was done where the event says so.
pub open spec fn reports_claim(
    request: Request,
    events: Seq<Event>,
    n: nat,
    records: Seq<RecordModel>,
    steps: Seq<Step>,
    k: int,
) -> bool {
    match (action_after(request, events, n), events[n as int]) {
        (Action::Claim { item_id }, Event::Claimed(Ok(taken))) => {
            &&& 0 <= k < steps.len()
            &&& steps[k] == (Step::Claim { item_id: item_id@ })
            &&& taken == takes(records[k], steps[k])
        },
        (Action::ClaimForced { item_id }, Event::Stored(Ok(_))) => {
            &&& 0 <= k < steps.len()
            &&& steps[k] == (Step::ClaimForced { item_id: item_id@ })
            &&& takes(records[k], steps[k])
        },
        _ => true,
    }
}

/// Whether a run is told of its claims what the store did: event number `n` reports of step number
/// `at[n]` of the history of the batch.
pub open spec fn is_backed(
    request: Request,
    events: Seq<Event>,
    at: Seq<int>,
    records: Seq<RecordModel>,
    steps: Seq<Step>,
) -> bool {
    &&& at.len() == events.len()
    &&& forall|n: nat|
        n < events.len() ==> #[trigger] reports_claim(
            request,
            events,
            n,
            records,
            steps,
            at[n as int],
        )
}

/// The number of the step that claims the item whose order is created after the first `n` events.
pub open spec fn claim_behind(at: Seq<int>, n: nat) -> int {
    at[n - 4]
}

proof fn creations_begin_an_attempt(
    request: Request,
    events: Seq<Event>,
    at: Seq<int>,
    records: Seq<RecordModel>,
    steps: Seq<Step>,
    n: nat,
)
    requires
        is_run(request, events),
        is_backed(request, events, at, records, steps),
        n <= events.len(),
        action_after(request, events, n) is CreateOrder,
    ensures
        ({
            let k = claim_behind(at, n);
            let change = change_at(
                records,
                steps,
                item_at(point_after(request, events, n)).id@,
                k,
            );
            &&& 0 <= k < steps.len()
            &&& change is Some
            &&& change->0 is Claim || (change->0 is Force && request.kind is Force
                && request.kind->risk_confirmed)
        }),
{
    orders_are_created_after_their_claim(request, events, n);
    let claimed = (n - 4) as nat;
    assert(reports_claim(request, events, claimed, records, steps, at[claimed as int]));
    if action_after(request, events, claimed) is ClaimForced {
        claims_are_forced_only_on_request(request, events, claimed);
    }
}

/// An item whose order the shop was asked for is not submitted once more by itself, in the same
/// operation or in a later one: between the two claims the item was tried again after it failed for
/// certain, or got back its place when the shop denied access, or else the second claim is by force
/// and the user asked for it and confirmed the risk.
pub proof fn orders_are_created_again_by_force_or_with_leave(
    records: Seq<RecordModel>,
    steps: Seq<Step>,
    first: Request,
    first_events: Seq<Event>,
    first_at: Seq<int>,
    n: nat,
    second: Request,
    second_events: Seq<Event>,
    second_at: Seq<int>,
    m: nat,
)
    requires
        is_history(records, steps),
        is_run(first, first_events),
        is_backed(first, first_events, first_at, records, steps),
        n <= first_events.len(),
        action_after(first, first_events, n) is CreateOrder,
        is_run(second, second_events),
        is_backed(second, second_events, second_at, records, steps),
        m <= second_events.len(),
        action_after(second, second_events, m) is CreateOrder,
        item_at(point_after(first, first_events, n)).id@ == item_at(
            point_after(second, second_events, m),
        ).id@,
        claim_behind(first_at, n) < claim_behind(second_at, m),
    ensures
        ({
            let item_id = item_at(point_after(second, second_events, m)).id@;
            let p = claim_behind(first_at, n);
            let q = claim_behind(second_at, m);
            ||| change_at(records, steps, item_id, q)->0 is Force && second.kind is Force
                && second.kind->risk_confirmed
            ||| exists|k: int| p < k < q && #[trigger] gives_leave(records, steps, item_id, k)
        }),
{
    creations_begin_an_attempt(first, first_events, first_at, records, steps, n);
    creations_begin_an_attempt(second, second_events, second_at, records, steps, m);
    attempts_are_repeated_by_force_or_with_leave(
        records,
        steps,
        item_at(point_after(second, second_events, m)).id@,
        claim_behind(first_at, n),
        claim_behind(second_at, m),
    );
}

} // verus!
