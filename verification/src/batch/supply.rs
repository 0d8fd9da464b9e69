//! Where what an operation sends comes from: the template and the store that were loaded for it.
use vstd::prelude::*;

use crate::batch::laws::{
    action_after, follow, frame_at, is_run, item_at, orders_are_created_after_their_claim,
    point_after, shown_before, work_at,
};
use crate::batch::machine::{
    fits, Action, Event, Frame, Goal, Point, Request, SpecAction, SpecPoint, Then,
};
use crate::domain::{BatchItem, FinancialStatus, OrderTemplate};
use crate::repository::StoreCredentials;
use crate::shopify::graphql::{order_input, order_problem, InputModel};

verus! {

/// Whether an event loads a batch with the template `template`.
pub open spec fn loads_template(event: Event, template: OrderTemplate) -> bool {
    event matches Event::Loaded(Ok(batch)) && batch.template == Some(template)
}

/// Whether one of the first `n` of `events` loads a batch with the template `template`.
pub open spec fn was_loaded(events: Seq<Event>, n: nat, template: OrderTemplate) -> bool {
    exists|m: int| 0 <= m < n && #[trigger] loads_template(events[m], template)
}

/// Whether an event brings the credentials `store`.
pub open spec fn unlocks(event: Event, store: StoreCredentials) -> bool {
    event == Event::Unlocked(Ok(store))
}

/// Whether one of the first `n` of `events` brings the credentials `store`.
pub open spec fn was_unlocked(events: Seq<Event>, n: nat, store: StoreCredentials) -> bool {
    exists|m: int| 0 <= m < n && #[trigger] unlocks(events[m], store)
}

/// Whether `input` is the order of `item` that a loaded template gives, and may be made from it.
pub open spec fn is_made_from_loaded(
    request: Request,
    events: Seq<Event>,
    n: nat,
    item: BatchItem,
    input: InputModel,
) -> bool {
    exists|template: OrderTemplate|
        #[trigger] was_loaded(events, n, template) && order_problem(
            template,
            item.source_identifier@,
            request.paid_confirmed,
        ) is None && input == order_input(template, item.source_identifier@)
}

/// The template that is kept at `point`.
spec fn template_at(point: SpecPoint) -> Option<OrderTemplate> {
    match point {
        Point::Credentials { goal: Goal::Execute { template, .. } } => Some(template),
        Point::Starting { template, .. } => Some(template),
        Point::SettleList { template, .. } => Some(template),
        Point::SubmitList { template, .. } => Some(template),
        _ => match frame_at(point) {
            Some(Frame::Settling { template }) => Some(template),
            Some(Frame::Submitting { template }) => Some(template),
            _ => None,
        },
    }
}

/// The store that is kept at `point`.
spec fn store_at(point: SpecPoint) -> Option<StoreCredentials> {
    match point {
        Point::Gate { store, .. } => Some(store),
        Point::ForcedStop { store, .. } => Some(store),
        Point::ForcedStatus { store, .. } => Some(store),
        Point::ForcedClaim { store, .. } => Some(store),
        Point::Starting { store, .. } => Some(store),
        Point::SettleList { store, .. } => Some(store),
        Point::SubmitList { store, .. } => Some(store),
        Point::CheckList { store } => Some(store),
        _ => match work_at(point) {
            Some(work) => Some(work.store),
            None => None,
        },
    }
}

/// The item and the order input for it that are kept at `point`.
spec fn made_at(point: SpecPoint) -> Option<(BatchItem, InputModel)> {
    match point {
        Point::Credentials { goal: Goal::Force { item, input } } => Some((item, input)),
        Point::Gate { item, input, .. } => Some((item, input)),
        Point::ForcedStop { item, input, .. } => Some((item, input)),
        Point::ForcedStatus { item, input, .. } => Some((item, input)),
        Point::ForcedClaim { item, input, .. } => Some((item, input)),
        Point::Claim { item, input, .. } => Some((item, input)),
        _ => match shown_before(point) {
            Some(Then::Create { item, input, .. }) => Some((item, input)),
            _ => None,
        },
    }
}

/// Whether everything that is kept at `point` was loaded, or made from what was.
spec fn is_supplied(request: Request, events: Seq<Event>, n: nat, point: SpecPoint) -> bool {
    &&& template_at(point) matches Some(template) ==> was_loaded(events, n, template)
    &&& store_at(point) matches Some(store) ==> was_unlocked(events, n, store)
    &&& made_at(point) matches Some((item, input)) ==> is_made_from_loaded(
        request,
        events,
        n,
        item,
        input,
    )
}

proof fn what_was_loaded_stays_loaded(request: Request, events: Seq<Event>, n: nat)
    ensures
        forall|template: OrderTemplate|
            was_loaded(events, n, template) ==> #[trigger] was_loaded(events, n + 1, template),
        forall|store: StoreCredentials|
            was_unlocked(events, n, store) ==> #[trigger] was_unlocked(events, n + 1, store),
        forall|item: BatchItem, input: InputModel|
            is_made_from_loaded(request, events, n, item, input)
                ==> #[trigger] is_made_from_loaded(request, events, n + 1, item, input),
{
    assert forall|template: OrderTemplate| was_loaded(events, n, template) implies #[trigger] was_loaded(
        events,
        n + 1,
        template,
    ) by {
        let m = choose|m: int| 0 <= m < n && #[trigger] loads_template(events[m], template);
        assert(loads_template(events[m], template));
    }
    assert forall|store: StoreCredentials| was_unlocked(events, n, store) implies #[trigger] was_unlocked(
        events,
        n + 1,
        store,
    ) by {
        let m = choose|m: int| 0 <= m < n && #[trigger] unlocks(events[m], store);
        assert(unlocks(events[m], store));
    }
    assert forall|item: BatchItem, input: InputModel|
        is_made_from_loaded(request, events, n, item, input) implies #[trigger] is_made_from_loaded(
        request,
        events,
        n + 1,
        item,
        input,
    ) by {
        let template = choose|template: OrderTemplate|
            #[trigger] was_loaded(events, n, template) && order_problem(
                template,
                item.source_identifier@,
                request.paid_confirmed,
            ) is None && input == order_input(template, item.source_identifier@);
        assert(was_loaded(events, n + 1, template));
    }
}

proof fn templates_are_passed_on(request: Request, point: SpecPoint, event: Event)
    requires
        fits(point, event),
    ensures
        template_at(follow(request, point, event).0) matches Some(template) ==> template_at(point)
            == Some(template) || loads_template(event, template),
{
    reveal(follow);
}

proof fn stores_are_passed_on(request: Request, point: SpecPoint, event: Event)
    requires
        fits(point, event),
    ensures
        store_at(follow(request, point, event).0) matches Some(store) ==> store_at(point) == Some(
            store,
        ) || unlocks(event, store),
{
    reveal(follow);
}

/// Whether `input` is the order of `item` that `template` gives, and may be made from it.
spec fn is_made_from(
    request: Request,
    template: OrderTemplate,
    item: BatchItem,
    input: InputModel,
) -> bool {
    order_problem(template, item.source_identifier@, request.paid_confirmed) is None && input
        == order_input(template, item.source_identifier@)
}

proof fn inputs_are_passed_on(request: Request, point: SpecPoint, event: Event)
    requires
        fits(point, event),
    ensures
        made_at(follow(request, point, event).0) matches Some((item, input)) ==> {
            ||| made_at(point) == Some((item, input))
            ||| template_at(point) matches Some(template) && is_made_from(
                request,
                template,
                item,
                input,
            )
            ||| event matches Event::Loaded(Ok(batch)) && (batch.template matches Some(template)
                && is_made_from(request, template, item, input))
        },
{
    reveal(follow);
}

proof fn supplies_are_kept(request: Request, events: Seq<Event>, n: nat, point: SpecPoint)
    requires
        n < events.len(),
        fits(point, events[n as int]),
        is_supplied(request, events, n, point),
    ensures
        is_supplied(request, events, n + 1, follow(request, point, events[n as int]).0),
{
    let event = events[n as int];
    let next = follow(request, point, event).0;
    what_was_loaded_stays_loaded(request, events, n);
    templates_are_passed_on(request, point, event);
    stores_are_passed_on(request, point, event);
    inputs_are_passed_on(request, point, event);
    if let Some(template) = template_at(next) {
        if loads_template(event, template) {
            assert(loads_template(events[n as int], template));
        }
        assert(was_loaded(events, n + 1, template));
    }
    if let Some(store) = store_at(next) {
        if unlocks(event, store) {
            assert(unlocks(events[n as int], store));
        }
        assert(was_unlocked(events, n + 1, store));
    }
    if let Some((item, input)) = made_at(next) {
        if made_at(point) == Some((item, input)) {
        } else if template_at(point) is Some && is_made_from(
            request,
            template_at(point)->0,
            item,
            input,
        ) {
            assert(was_loaded(events, n + 1, template_at(point)->0));
        } else {
            let template = event->Loaded_0->Ok_0.template->0;
            assert(loads_template(events[n as int], template));
            assert(was_loaded(events, n + 1, template));
        }
        assert(is_made_from_loaded(request, events, n + 1, item, input));
    }
}

proof fn runs_are_supplied(request: Request, events: Seq<Event>, n: nat)
    requires
        is_run(request, events),
        n <= events.len(),
    ensures
        is_supplied(request, events, n, point_after(request, events, n)),
    decreases n,
{
    if n > 0 {
        let before = (n - 1) as nat;
        runs_are_supplied(request, events, before);
        assert(fits(point_after(request, events, before), events[before as int]));
        supplies_are_kept(request, events, before, point_after(request, events, before));
    }
}

proof fn creations_send_what_was_made(request: Request, point: SpecPoint, event: Event)
    requires
        fits(point, event),
    ensures
        follow(request, point, event).1 matches Action::CreateOrder { store, input } ==> {
            let next = follow(request, point, event).0;
            &&& next is Create
            &&& made_at(point) == Some((item_at(next), input))
            &&& store_at(point) == Some(store)
        },
        follow(request, point, event).1 matches Action::FindOrder { store, source, .. } ==> {
            let next = follow(request, point, event).0;
            &&& next is Lookup
            &&& next->Lookup_item.source_identifier == source
            &&& store_at(point) == Some(store)
        },
{
    reveal(follow);
}

/// An order is created at the store whose credentials were fetched, under the source identifier of
/// its item, with the variant, the quantity and the payment of the template that was loaded, which
/// was confirmed where it is a paid one.
pub proof fn orders_are_created_from_what_was_loaded(
    request: Request,
    events: Seq<Event>,
    n: nat,
    store: StoreCredentials,
    input: InputModel,
)
    requires
        is_run(request, events),
        n <= events.len(),
        action_after(request, events, n) == (SpecAction::CreateOrder { store, input }),
    ensures
        was_unlocked(events, n, store),
        point_after(request, events, n) is Create,
        input.source_identifier == item_at(point_after(request, events, n)).source_identifier@,
        input.financial_status == FinancialStatus::Paid ==> request.paid_confirmed,
        exists|template: OrderTemplate|
            {
                &&& #[trigger] was_loaded(events, n, template)
                &&& input.line_items.len() == 1
                &&& input.line_items[0].0 == template.variant_id@
                &&& input.line_items[0].1 == template.quantity
                &&& input.financial_status == template.financial_status
                &&& input == order_input(template, input.source_identifier)
            },
{
    orders_are_created_after_their_claim(request, events, n);
    let last = (n - 1) as nat;
    let point = point_after(request, events, last);
    assert(fits(point, events[last as int]));
    runs_are_supplied(request, events, last);
    creations_send_what_was_made(request, point, events[last as int]);
    let item = item_at(point_after(request, events, n));
    assert(is_made_from_loaded(request, events, last, item, input));
    what_was_loaded_stays_loaded(request, events, last);
    let template = choose|template: OrderTemplate|
        #[trigger] was_loaded(events, last, template) && order_problem(
            template,
            item.source_identifier@,
            request.paid_confirmed,
        ) is None && input == order_input(template, item.source_identifier@);
    assert(was_loaded(events, n, template));
    assert(order_input(template, item.source_identifier@).line_items[0] == (
        template.variant_id@,
        template.quantity,
    ));
}

/// An order is looked for at the store whose credentials were fetched.
pub proof fn orders_are_looked_for_where_they_were_created(
    request: Request,
    events: Seq<Event>,
    n: nat,
)
    requires
        is_run(request, events),
        0 < n <= events.len(),
        action_after(request, events, n) is FindOrder,
    ensures
        was_unlocked(events, n, action_after(request, events, n)->FindOrder_store),
        point_after(request, events, n) is Lookup,
        action_after(request, events, n)->FindOrder_source == point_after(
            request,
            events,
            n,
        )->Lookup_item.source_identifier,
{
    let last = (n - 1) as nat;
    let point = point_after(request, events, last);
    assert(fits(point, events[last as int]));
    runs_are_supplied(request, events, last);
    creations_send_what_was_made(request, point, events[last as int]);
    what_was_loaded_stays_loaded(request, events, last);
}

} // verus!
