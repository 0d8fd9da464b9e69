//! Order input, order results, and what a GraphQL exchange amounts to.
use vstd::prelude::*;
use vstd::string::*;

use crate::domain::{
    copy_optional, is_shopify_gid, optional, template_problem, valid_shopify_gid, CustomerMode,
    FinancialStatus, MailingAddress, ManualCustomer, OrderTemplate,
};
use crate::error::{lasting, AppError, Failure};
use crate::identifier::{
    invalid_source, is_source, source_batch, source_batch_id, sources_name_program_batch_and_number,
};
use crate::text::{
    blank_texts_are_trimmed_away, contents, decimal, is_white_space, join, joined,
    joining_puts_the_text_between, occurs, occurs_at, parts_occur_when_joined, parts_of_parts_occur,
    same_text, something_is_left_unless_all_is_white_space, trim, trimmed, trimming_is_idempotent,
    trimming_leaves_what_stands_between,
};

verus! {

/// One line of an order.
#[derive(Debug, Clone, PartialEq, Eq)]
pub struct CreateLineItem {
    pub variant_id: String,
    pub quantity: u32,
}

/// A note on an order.
#[derive(Debug, Clone, PartialEq, Eq)]
pub struct CustomAttribute {
    pub key: String,
    pub value: String,
}

/// Who Shopify shall tie the order to.
#[derive(Debug, Clone, PartialEq, Eq)]
pub enum CreateCustomer {
    ToAssociate { id: String },
    ToUpsert(CustomerDetails),
}

/// What the user typed of a customer.
#[derive(Debug, Clone, PartialEq, Eq)]
pub struct CustomerDetails {
    pub email: Option<String>,
    pub first_name: Option<String>,
    pub last_name: Option<String>,
    pub phone: Option<String>,
}

/// Where the order goes.
#[derive(Debug, Clone, PartialEq, Eq)]
pub struct CreateShippingAddress {
    pub address: MailingAddress,
    pub first_name: Option<String>,
    pub last_name: Option<String>,
    pub phone: Option<String>,
}

/// Validated input of the order mutation. Its fields are private, so that none comes to be
/// without the confirmation that a paid order asks for.
#[derive(Debug, Clone)]
pub struct CreateOrderInput {
    line_items: Vec<CreateLineItem>,
    financial_status: FinancialStatus,
    source_identifier: String,
    custom_attributes: Vec<CustomAttribute>,
    customer: Option<CreateCustomer>,
    email: Option<String>,
    phone: Option<String>,
    shipping_address: Option<CreateShippingAddress>,
}

/// What stands in a postal address.
pub struct AddressModel {
    pub address1: Option<Seq<char>>,
    pub address2: Option<Seq<char>>,
    pub city: Option<Seq<char>>,
    pub province: Option<Seq<char>>,
    pub country: Option<Seq<char>>,
    pub zip: Option<Seq<char>>,
}

/// What stands in the details of a customer.
pub struct DetailsModel {
    pub email: Option<Seq<char>>,
    pub first_name: Option<Seq<char>>,
    pub last_name: Option<Seq<char>>,
    pub phone: Option<Seq<char>>,
}

/// What stands in the customer of an order.
pub enum CustomerModel {
    ToAssociate { id: Seq<char> },
    ToUpsert { details: DetailsModel },
}

/// What stands in a shipping address.
pub struct ShippingModel {
    pub address: AddressModel,
    pub first_name: Option<Seq<char>>,
    pub last_name: Option<Seq<char>>,
    pub phone: Option<Seq<char>>,
}

/// What stands in the input of the order mutation.
#[verifier::ext_equal]
pub struct InputModel {
    pub line_items: Seq<(Seq<char>, u32)>,
    pub financial_status: FinancialStatus,
    pub source_identifier: Seq<char>,
    pub custom_attributes: Seq<(Seq<char>, Seq<char>)>,
    pub customer: Option<CustomerModel>,
    pub email: Option<Seq<char>>,
    pub phone: Option<Seq<char>>,
    pub shipping_address: Option<ShippingModel>,
}

impl View for MailingAddress {
    type V = AddressModel;

    open spec fn view(&self) -> AddressModel {
        AddressModel {
            address1: optional(self.address1),
            address2: optional(self.address2),
            city: optional(self.city),
            province: optional(self.province),
            country: optional(self.country),
            zip: optional(self.zip),
        }
    }
}

impl View for CustomerDetails {
    type V = DetailsModel;

    open spec fn view(&self) -> DetailsModel {
        DetailsModel {
            email: optional(self.email),
            first_name: optional(self.first_name),
            last_name: optional(self.last_name),
            phone: optional(self.phone),
        }
    }
}

impl View for CreateCustomer {
    type V = CustomerModel;

    open spec fn view(&self) -> CustomerModel {
        match self {
            CreateCustomer::ToAssociate { id } => CustomerModel::ToAssociate { id: id@ },
            CreateCustomer::ToUpsert(details) => CustomerModel::ToUpsert { details: details@ },
        }
    }
}

impl View for CreateShippingAddress {
    type V = ShippingModel;

    open spec fn view(&self) -> ShippingModel {
        ShippingModel {
            address: self.address@,
            first_name: optional(self.first_name),
            last_name: optional(self.last_name),
            phone: optional(self.phone),
        }
    }
}

/// What stands in each line.
pub open spec fn lines_of(lines: Seq<CreateLineItem>) -> Seq<(Seq<char>, u32)> {
    lines.map_values(|line: CreateLineItem| (line.variant_id@, line.quantity))
}

/// What stands in each note.
pub open spec fn notes_of(notes: Seq<CustomAttribute>) -> Seq<(Seq<char>, Seq<char>)> {
    notes.map_values(|note: CustomAttribute| (note.key@, note.value@))
}

/// What stands in a customer that may be absent.
pub open spec fn optional_customer(customer: Option<CreateCustomer>) -> Option<CustomerModel> {
    match customer {
        Some(customer) => Some(customer@),
        None => None,
    }
}

/// What stands in a shipping address that may be absent.
pub open spec fn optional_shipping(address: Option<CreateShippingAddress>) -> Option<
    ShippingModel,
> {
    match address {
        Some(address) => Some(address@),
        None => None,
    }
}

impl View for CreateOrderInput {
    type V = InputModel;

    closed spec fn view(&self) -> InputModel {
        InputModel {
            line_items: lines_of(self.line_items@),
            financial_status: self.financial_status,
            source_identifier: self.source_identifier@,
            custom_attributes: notes_of(self.custom_attributes@),
            customer: optional_customer(self.customer),
            email: optional(self.email),
            phone: optional(self.phone),
            shipping_address: optional_shipping(self.shipping_address),
        }
    }
}

/// A typed value without the white space around it; one with nothing else in it is absent.
pub open spec fn filled_text(value: Option<Seq<char>>) -> Option<Seq<char>> {
    match value {
        Some(text) => if trimmed(text).len() > 0 {
            Some(trimmed(text))
        } else {
            None
        },
        None => None,
    }
}

/// What is sent of a typed value is not blank, and has no white space around it.
pub proof fn filled_texts_are_not_blank(value: Option<Seq<char>>)
    ensures
        filled_text(value) matches Some(text) ==> text.len() > 0 && trimmed(text) == text,
{
    if let Some(text) = value {
        trimming_is_idempotent(text);
    }
}

/// The typed value without the white space around it, if anything is left.
pub fn filled(value: Option<String>) -> (r: Option<String>)
    ensures
        optional(r) == filled_text(optional(value)),
{
    match value {
        Some(text) => {
            let kept = trim(text.as_str());
            if kept.is_empty() {
                None
            } else {
                Some(kept.to_owned())
            }
        },
        None => None,
    }
}

/// An address with every part filled in or absent.
pub open spec fn filled_parts(address: AddressModel) -> AddressModel {
    AddressModel {
        address1: filled_text(address.address1),
        address2: filled_text(address.address2),
        city: filled_text(address.city),
        province: filled_text(address.province),
        country: filled_text(address.country),
        zip: filled_text(address.zip),
    }
}

/// Whether every part of an address is absent.
pub open spec fn is_blank(address: AddressModel) -> bool {
    &&& address.address1 is None
    &&& address.address2 is None
    &&& address.city is None
    &&& address.province is None
    &&& address.country is None
    &&& address.zip is None
}

/// The address with its parts filled in, if any is.
pub fn filled_address(address: MailingAddress) -> (r: Option<MailingAddress>)
    ensures
        match r {
            Some(kept) => !is_blank(filled_parts(address@)) && kept@ == filled_parts(address@),
            None => is_blank(filled_parts(address@)),
        },
{
    let kept = MailingAddress {
        address1: filled(address.address1),
        address2: filled(address.address2),
        city: filled(address.city),
        province: filled(address.province),
        country: filled(address.country),
        zip: filled(address.zip),
    };
    if kept.address1.is_none() && kept.address2.is_none() && kept.city.is_none()
        && kept.province.is_none() && kept.country.is_none() && kept.zip.is_none() {
        None
    } else {
        Some(kept)
    }
}

/// The failure for a paid order that nobody confirmed.
pub open spec fn unconfirmed_payment() -> Failure {
    lasting("PAID_CONFIRMATION_REQUIRED"@, "标记已付款前必须明确确认已通过其他渠道收款"@)
}

/// Why no order can be made from `template` under the identifier `source`, if so.
pub open spec fn order_problem(
    template: OrderTemplate,
    source: Seq<char>,
    paid_confirmed: bool,
) -> Option<Failure> {
    if template.financial_status == FinancialStatus::Paid && !paid_confirmed {
        Some(unconfirmed_payment())
    } else if template_problem(template) is Some {
        template_problem(template)
    } else if !is_source(source) {
        Some(invalid_source())
    } else {
        None
    }
}

/// What the user typed of the customer of `template`, filled in.
pub open spec fn typed_details(template: OrderTemplate) -> DetailsModel {
    match template.customer {
        CustomerMode::Manual { customer } => DetailsModel {
            email: filled_text(optional(customer.email)),
            first_name: filled_text(optional(customer.first_name)),
            last_name: filled_text(optional(customer.last_name)),
            phone: filled_text(optional(customer.phone)),
        },
        _ => DetailsModel { email: None, first_name: None, last_name: None, phone: None },
    }
}

/// The customer that an order from `template` is tied to.
pub open spec fn order_customer(template: OrderTemplate) -> Option<CustomerModel> {
    let details = typed_details(template);
    match template.customer {
        CustomerMode::NoCustomer => None,
        CustomerMode::Existing { customer_id } => Some(
            CustomerModel::ToAssociate { id: customer_id@ },
        ),
        CustomerMode::Manual { .. } => if details.email is None && details.first_name is None
            && details.last_name is None && details.phone is None {
            None
        } else {
            Some(CustomerModel::ToUpsert { details })
        },
    }
}

/// Where an order from `template` goes.
pub open spec fn order_shipping(template: OrderTemplate) -> Option<ShippingModel> {
    match template.customer {
        CustomerMode::Manual { customer } => match customer.shipping_address {
            Some(address) => if is_blank(filled_parts(address@)) {
                None
            } else {
                Some(
                    ShippingModel {
                        address: filled_parts(address@),
                        first_name: typed_details(template).first_name,
                        last_name: typed_details(template).last_name,
                        phone: typed_details(template).phone,
                    },
                )
            },
            None => None,
        },
        _ => None,
    }
}

/// The order made from `template` under the identifier `source`.
pub open spec fn order_input(template: OrderTemplate, source: Seq<char>) -> InputModel {
    InputModel {
        line_items: seq![(template.variant_id@, template.quantity)],
        financial_status: template.financial_status,
        source_identifier: source,
        custom_attributes: seq![("OrderPilot-Batch"@, source_batch(source))],
        customer: order_customer(template),
        email: typed_details(template).email,
        phone: typed_details(template).phone,
        shipping_address: order_shipping(template),
    }
}

impl CreateOrderInput {
    /// The order made from `template` under the identifier `source`. A paid order must have been
    /// confirmed.
    pub fn from_template(template: OrderTemplate, source: &str, paid_confirmed: bool) -> (r: Result<
        Self,
        AppError,
    >)
        ensures
            match r {
                Ok(input) => order_problem(template, source@, paid_confirmed) is None && input@
                    == order_input(template, source@),
                Err(e) => order_problem(template, source@, paid_confirmed) == Some(e@),
            },
            r matches Ok(input) ==> input@.financial_status == FinancialStatus::Paid
                ==> paid_confirmed,
    {
        if template.financial_status == FinancialStatus::Paid && !paid_confirmed {
            return Err(
                AppError::validation(
                    "PAID_CONFIRMATION_REQUIRED",
                    "标记已付款前必须明确确认已通过其他渠道收款",
                ),
            );
        }
        match template.validate() {
            Ok(()) => {},
            Err(e) => {
                return Err(e);
            },
        }
        let batch = match source_batch_id(source) {
            Ok(batch) => batch.to_owned(),
            Err(e) => {
                return Err(e);
            },
        };
        let ghost asked = template;
        let mut input = CreateOrderInput {
            line_items: vec![
                CreateLineItem { variant_id: template.variant_id, quantity: template.quantity },
            ],
            financial_status: template.financial_status,
            source_identifier: source.to_owned(),
            custom_attributes: vec![
                CustomAttribute { key: "OrderPilot-Batch".to_owned(), value: batch },
            ],
            customer: None,
            email: None,
            phone: None,
            shipping_address: None,
        };
        match template.customer {
            CustomerMode::NoCustomer => {},
            CustomerMode::Existing { customer_id } => {
                input.customer = Some(CreateCustomer::ToAssociate { id: customer_id });
            },
            CustomerMode::Manual { customer } => {
                let details = CustomerDetails {
                    email: filled(customer.email),
                    first_name: filled(customer.first_name),
                    last_name: filled(customer.last_name),
                    phone: filled(customer.phone),
                };
                input.email = copy_optional(&details.email);
                input.phone = copy_optional(&details.phone);
                input.shipping_address =
                match customer.shipping_address {
                    Some(address) => match filled_address(address) {
                        Some(address) => Some(
                            CreateShippingAddress {
                                address,
                                first_name: copy_optional(&details.first_name),
                                last_name: copy_optional(&details.last_name),
                                phone: copy_optional(&details.phone),
                            },
                        ),
                        None => None,
                    },
                    None => None,
                };
                if details.email.is_some() || details.first_name.is_some()
                    || details.last_name.is_some() || details.phone.is_some() {
                    input.customer = Some(CreateCustomer::ToUpsert(details));
                }
            },
        }
        assert(input@ =~= order_input(asked, source@));
        Ok(input)
    }

    /// The lines of the order.
    pub fn line_items(&self) -> (r: &Vec<CreateLineItem>)
        ensures
            lines_of(r@) == self@.line_items,
    {
        &self.line_items
    }

    /// How the order counts as paid.
    pub fn financial_status(&self) -> (r: FinancialStatus)
        ensures
            r == self@.financial_status,
    {
        self.financial_status
    }

    /// The identifier by which the order can be found.
    pub fn source_identifier(&self) -> (r: &String)
        ensures
            r@ == self@.source_identifier,
    {
        &self.source_identifier
    }

    /// The notes on the order.
    pub fn custom_attributes(&self) -> (r: &Vec<CustomAttribute>)
        ensures
            notes_of(r@) == self@.custom_attributes,
    {
        &self.custom_attributes
    }

    /// Who the order is tied to.
    pub fn customer(&self) -> (r: &Option<CreateCustomer>)
        ensures
            optional_customer(*r) == self@.customer,
    {
        &self.customer
    }

    /// The email address of the order.
    pub fn email(&self) -> (r: &Option<String>)
        ensures
            optional(*r) == self@.email,
    {
        &self.email
    }

    /// The phone number of the order.
    pub fn phone(&self) -> (r: &Option<String>)
        ensures
            optional(*r) == self@.phone,
    {
        &self.phone
    }

    /// Where the order goes.
    pub fn shipping_address(&self) -> (r: &Option<CreateShippingAddress>)
        ensures
            optional_shipping(*r) == self@.shipping_address,
    {
        &self.shipping_address
    }
}

/// The mutation that creates one order.
pub const CREATE_ORDER_MUTATION: &'static str =
    "mutation CreateOrder($order: OrderCreateOrderInput!) { orderCreate(order: $order) { order { id name } userErrors { field message code } } }";

/// The query that looks for the order with a source identifier.
pub const FIND_ORDER_QUERY: &'static str =
    "query FindOrderBySource($query: String!) { orders(first: 2, query: $query) { nodes { id name sourceIdentifier } pageInfo { hasNextPage } } }";

/// An order that a shop has.
#[derive(Debug, PartialEq, Eq)]
pub struct CreatedOrder {
    pub id: String,
    pub name: String,
}

/// What stands in a [`CreatedOrder`].
#[verifier::ext_equal]
pub struct OrderModel {
    pub id: Seq<char>,
    pub name: Seq<char>,
}

impl View for CreatedOrder {
    type V = OrderModel;

    open spec fn view(&self) -> OrderModel {
        OrderModel { id: self.id@, name: self.name@ }
    }
}

impl Clone for CreatedOrder {
    fn clone(&self) -> (r: Self)
        ensures
            r == *self,
    {
        CreatedOrder { id: self.id.clone(), name: self.name.clone() }
    }
}

/// Whether `order` has the identifier of an order and a name that is not blank.
pub open spec fn is_complete(order: OrderModel) -> bool {
    is_shopify_gid(order.id, "Order"@) && trimmed(order.name).len() > 0
}

/// Whether `order` has the identifier of an order and a name that is not blank.
fn complete(order: &CreatedOrder) -> (r: bool)
    ensures
        r == is_complete(order@),
{
    valid_shopify_gid(order.id.as_str(), "Order") && !trim(order.name.as_str()).is_empty()
}

/// The answer to [`FIND_ORDER_QUERY`].
#[derive(Debug)]
pub struct FindOrderData {
    pub orders: FoundOrders,
}

/// One page of found orders.
#[derive(Debug)]
pub struct FoundOrders {
    pub nodes: Vec<FoundOrder>,
    pub page_info: OrderPageInfo,
}

/// Whether more orders were found than the page shows.
#[derive(Debug)]
pub struct OrderPageInfo {
    pub has_next_page: bool,
}

/// An order and the source identifier that it carries.
#[derive(Debug)]
pub struct FoundOrder {
    pub order: CreatedOrder,
    pub source_identifier: Option<String>,
}

/// The failure for an answer that does not fit the question.
pub open spec fn unusable_answer() -> Failure {
    lasting("SHOPIFY_INVALID_RESPONSE"@, "Shopify 返回了无效响应"@)
}

/// The error for an answer that does not fit the question.
pub fn invalid_response() -> (r: AppError)
    ensures
        r@ == unusable_answer(),
{
    AppError::validation("SHOPIFY_INVALID_RESPONSE", "Shopify 返回了无效响应")
}

/// The failure for more than one order with the same source identifier.
pub open spec fn ambiguous_source() -> Failure {
    lasting("SHOPIFY_SOURCE_AMBIGUOUS"@, "发现多个来源标识相同的订单，请在 Shopify 中核对"@)
}

/// The order that the lookup of `source` found: at most one, complete, and with that source.
pub open spec fn found_order(data: FindOrderData, source: Seq<char>) -> Result<
    Option<OrderModel>,
    Failure,
> {
    let nodes = data.orders.nodes@;
    if data.orders.page_info.has_next_page || nodes.len() > 1 {
        Err(ambiguous_source())
    } else if nodes.len() == 0 {
        Ok(None)
    } else if optional(nodes[0].source_identifier) == Some(source) && is_complete(
        nodes[0].order@,
    ) {
        Ok(Some(nodes[0].order@))
    } else {
        Err(unusable_answer())
    }
}

impl FindOrderData {
    /// The order that the lookup of `source` found, if there is one.
    pub fn into_order(self, source: &str) -> (r: Result<Option<CreatedOrder>, AppError>)
        ensures
            match r {
                Ok(Some(order)) => found_order(self, source@) == Ok::<_, Failure>(Some(order@)),
                Ok(None) => found_order(self, source@) == Ok::<_, Failure>(None::<OrderModel>),
                Err(e) => found_order(self, source@) == Err::<Option<OrderModel>, _>(e@),
            },
    {
        let mut nodes = self.orders.nodes;
        if self.orders.page_info.has_next_page || nodes.len() > 1 {
            return Err(
                AppError::validation(
                    "SHOPIFY_SOURCE_AMBIGUOUS",
                    "发现多个来源标识相同的订单，请在 Shopify 中核对",
                ),
            );
        }
        match nodes.pop() {
            Some(node) => {
                let same_source = match &node.source_identifier {
                    Some(found) => same_text(found.as_str(), source),
                    None => false,
                };
                if same_source && complete(&node.order) {
                    Ok(Some(node.order))
                } else {
                    Err(invalid_response())
                }
            },
            None => Ok(None),
        }
    }
}

/// The answer to [`CREATE_ORDER_MUTATION`].
#[derive(Debug)]
pub struct CreateOrderData {
    pub order_create: CreateOrderPayload,
}

/// The created order, and what Shopify has against the input.
#[derive(Debug)]
pub struct CreateOrderPayload {
    pub order: Option<CreatedOrder>,
    pub user_errors: Vec<OrderUserError>,
}

/// One thing that Shopify has against the input.
#[derive(Debug)]
pub struct OrderUserError {
    pub field: Option<Vec<String>>,
    pub message: String,
    pub code: Option<String>,
}

/// What Shopify has against the input, as one line: `[CODE] path.of.field: message`.
pub open spec fn complaint(error: OrderUserError) -> Seq<char> {
    let code = match error.code {
        Some(code) => code@,
        None => "UNKNOWN"@,
    };
    let field = match error.field {
        Some(path) => joined(contents(path@), "."@),
        None => Seq::empty(),
    };
    "["@ + code + "] "@ + field + ": "@ + error.message@
}

/// The complaint as one line.
fn complaint_text(error: &OrderUserError) -> (r: String)
    ensures
        r@ == complaint(*error),
{
    let mut text = "[".to_owned();
    match &error.code {
        Some(code) => text.append(code.as_str()),
        None => text.append("UNKNOWN"),
    }
    text.append("] ");
    match &error.field {
        Some(path) => text.append(join(path, ".").as_str()),
        None => {},
    }
    text.append(": ");
    text.append(error.message.as_str());
    text
}

/// All complaints, with semicolons between.
pub open spec fn complaints(errors: Seq<OrderUserError>) -> Seq<char> {
    joined(errors.map_values(|error: OrderUserError| complaint(error)), "; "@)
}

/// What became of the order: created, rejected before it was, or unknown, where complaints come
/// with an order.
pub open spec fn created_order(data: CreateOrderData) -> Result<OrderModel, Failure> {
    let errors = data.order_create.user_errors@;
    if errors.len() > 0 {
        if data.order_create.order is Some {
            Err(lasting("SHOPIFY_ORDER_OUTCOME_UNCERTAIN"@, complaints(errors)))
        } else {
            Err(lasting("SHOPIFY_USER_ERROR"@, complaints(errors)))
        }
    } else {
        match data.order_create.order {
            Some(order) => if is_complete(order@) {
                Ok(order@)
            } else {
                Err(unusable_answer())
            },
            None => Err(unusable_answer()),
        }
    }
}

/// What Shopify has against the input is told with its own codes and messages.
pub proof fn rejections_keep_codes_and_messages(data: CreateOrderData, i: int)
    requires
        0 <= i < data.order_create.user_errors@.len(),
    ensures
        created_order(data) matches Err(failure) && {
            let error = data.order_create.user_errors@[i];
            &&& error.code matches Some(code) ==> occurs(failure.message, code@)
            &&& occurs(failure.message, error.message@)
        },
{
    let errors = data.order_create.user_errors@;
    let lines = errors.map_values(|error: OrderUserError| complaint(error));
    let line = complaint(errors[i]);
    let said = errors[i].message@;
    parts_occur_when_joined(lines, "; "@, i);
    assert(line.subrange(line.len() - said.len(), line.len() as int) == said);
    assert(occurs_at(line, said, line.len() - said.len()));
    parts_of_parts_occur(complaints(errors), line, said);
    if let Some(code) = errors[i].code {
        let at = "["@.len() as int;
        assert(line.subrange(at, at + code@.len()) == code@);
        assert(occurs_at(line, code@, at));
        parts_of_parts_occur(complaints(errors), line, code@);
    }
}

impl CreateOrderData {
    /// The created order. An order that comes with complaints may exist all the same; only an
    /// answer without one is a definite rejection.
    pub fn into_order(self) -> (r: Result<CreatedOrder, AppError>)
        ensures
            match r {
                Ok(order) => created_order(self) == Ok::<_, Failure>(order@),
                Err(e) => created_order(self) == Err::<OrderModel, _>(e@),
            },
    {
        let errors = self.order_create.user_errors;
        if errors.len() > 0 {
            let code = if self.order_create.order.is_some() {
                "SHOPIFY_ORDER_OUTCOME_UNCERTAIN"
            } else {
                "SHOPIFY_USER_ERROR"
            };
            let mut lines: Vec<String> = Vec::new();
            let mut i: usize = 0;
            while i < errors.len()
                invariant
                    i <= errors.len(),
                    lines.len() == i,
                    forall|k: int| 0 <= k < i ==> (#[trigger] lines@[k])@ == complaint(errors@[k]),
                decreases errors.len() - i,
            {
                lines.push(complaint_text(&errors[i]));
                i = i + 1;
            }
            let messages = join(&lines, "; ");
            assert(contents(lines@) =~= errors@.map_values(
                |error: OrderUserError| complaint(error),
            ));
            return Err(AppError::validation(code, messages.as_str()));
        }
        match self.order_create.order {
            Some(order) => if complete(&order) {
                Ok(order)
            } else {
                Err(invalid_response())
            },
            None => Err(invalid_response()),
        }
    }
}

/// What is sent of a typed value is what stands between the white space around it; nothing is sent
/// of one that was left out or that holds white space only.
pub proof fn typed_values_are_sent_without_white_space_around(
    before: Seq<char>,
    text: Seq<char>,
    after: Seq<char>,
)
    requires
        crate::text::is_blank(before),
        crate::text::is_blank(after),
        text.len() > 0,
        !is_white_space(text[0]),
        !is_white_space(text.last()),
    ensures
        filled_text(Some(before + text + after)) == Some(text),
        filled_text(Some(before)) is None,
        filled_text(None) is None,
{
    trimming_leaves_what_stands_between(before, text, after);
    blank_texts_are_trimmed_away(before);
}

/// An order has one line, with the variant and the quantity of the template; it counts as paid as
/// the template says, and carries the source identifier and one note, which names the batch.
pub proof fn orders_are_made_from_their_template(template: OrderTemplate, source: Seq<char>)
    requires
        is_source(source),
    ensures
        ({
            let input = order_input(template, source);
            &&& input.line_items.len() == 1
            &&& input.line_items[0].0 == template.variant_id@
            &&& input.line_items[0].1 == template.quantity
            &&& input.financial_status == template.financial_status
            &&& input.source_identifier == source
            &&& input.custom_attributes.len() == 1
            &&& input.custom_attributes[0].0 == "OrderPilot-Batch"@
            &&& exists|sequence: nat|
                source == "orderpilot/"@ + input.custom_attributes[0].1 + "/"@
                    + #[trigger] decimal(sequence)
        }),
{
    sources_name_program_batch_and_number(source);
}

/// Templates that differ in the variant, the quantity or the payment give different orders, and so
/// do different sources.
pub proof fn different_templates_give_different_orders(
    template: OrderTemplate,
    source: Seq<char>,
    other: OrderTemplate,
    another: Seq<char>,
)
    requires
        order_input(template, source) == order_input(other, another),
    ensures
        template.variant_id@ == other.variant_id@,
        template.quantity == other.quantity,
        template.financial_status == other.financial_status,
        source == another,
{
    let line = order_input(template, source).line_items[0];
    let same = order_input(other, another).line_items[0];
    assert(line == (template.variant_id@, template.quantity));
    assert(same == (other.variant_id@, other.quantity));
}

/// An order without a customer names none and goes nowhere; one for an existing customer is tied to
/// that customer and sends nothing else of them.
pub proof fn orders_are_tied_to_the_chosen_customer(template: OrderTemplate, source: Seq<char>)
    requires
        !(template.customer is Manual),
    ensures
        ({
            let input = order_input(template, source);
            &&& input.email is None
            &&& input.phone is None
            &&& input.shipping_address is None
            &&& template.customer is NoCustomer ==> input.customer is None
            &&& template.customer matches CustomerMode::Existing { customer_id } ==> input.customer
                == Some(CustomerModel::ToAssociate { id: customer_id@ })
        }),
{
}

/// What the user typed of a customer is sent, each value under its own name: email and phone with
/// the order too, and the names and the phone with the address.
pub proof fn typed_customers_are_sent_as_typed(
    template: OrderTemplate,
    source: Seq<char>,
    customer: ManualCustomer,
)
    requires
        template.customer == (CustomerMode::Manual { customer }),
    ensures
        ({
            let input = order_input(template, source);
            let email = filled_text(optional(customer.email));
            let first_name = filled_text(optional(customer.first_name));
            let last_name = filled_text(optional(customer.last_name));
            let phone = filled_text(optional(customer.phone));
            &&& input.email == email
            &&& input.phone == phone
            &&& input.customer is None <==> email is None && first_name is None && last_name is None
                && phone is None
            &&& input.customer matches Some(told) ==> {
                &&& told is ToUpsert
                &&& told->details.email == email
                &&& told->details.first_name == first_name
                &&& told->details.last_name == last_name
                &&& told->details.phone == phone
            }
            &&& input.shipping_address matches Some(shipping) ==> {
                &&& shipping.first_name == first_name
                &&& shipping.last_name == last_name
                &&& shipping.phone == phone
            }
        }),
{
}

/// A typed address is sent part by part, each under its own name, and not at all where no part of it
/// was filled in.
pub proof fn typed_addresses_are_sent_as_typed(
    template: OrderTemplate,
    source: Seq<char>,
    customer: ManualCustomer,
)
    requires
        template.customer == (CustomerMode::Manual { customer }),
    ensures
        ({
            let sent = order_input(template, source).shipping_address;
            match customer.shipping_address {
                None => sent is None,
                Some(typed) => {
                    let address1 = filled_text(optional(typed.address1));
                    let address2 = filled_text(optional(typed.address2));
                    let city = filled_text(optional(typed.city));
                    let province = filled_text(optional(typed.province));
                    let country = filled_text(optional(typed.country));
                    let zip = filled_text(optional(typed.zip));
                    &&& sent is None <==> address1 is None && address2 is None && city is None
                        && province is None && country is None && zip is None
                    &&& sent matches Some(shipping) ==> {
                        &&& shipping.address.address1 == address1
                        &&& shipping.address.address2 == address2
                        &&& shipping.address.city == city
                        &&& shipping.address.province == province
                        &&& shipping.address.country == country
                        &&& shipping.address.zip == zip
                    }
                },
            }
        }),
{
}

/// An order can be made just where a paid one was confirmed, the template is usable and the source
/// is one; the first of these that fails is the reason why not.
pub proof fn orders_are_refused_for_the_first_reason(
    template: OrderTemplate,
    source: Seq<char>,
    paid_confirmed: bool,
)
    ensures
        ({
            let problem = order_problem(template, source, paid_confirmed);
            let paid = template.financial_status == FinancialStatus::Paid;
            &&& problem is None <==> (paid ==> paid_confirmed) && template_problem(template) is None
                && is_source(source)
            &&& paid && !paid_confirmed ==> problem->0.code == "PAID_CONFIRMATION_REQUIRED"@
            &&& (paid ==> paid_confirmed) && template_problem(template) is Some ==> problem
                == template_problem(template)
            &&& (paid ==> paid_confirmed) && template_problem(template) is None && !is_source(source)
                ==> problem->0.code == "INVALID_SOURCE_IDENTIFIER"@
        }),
{
}

/// What stands in the lines, notes, customer and address of an order is what their fields hold.
pub proof fn inputs_are_seen_as_they_are(
    lines: Seq<CreateLineItem>,
    notes: Seq<CustomAttribute>,
    customer: CreateCustomer,
    shipping: CreateShippingAddress,
    i: int,
    k: int,
)
    requires
        0 <= i < lines.len(),
        0 <= k < notes.len(),
    ensures
        lines_of(lines).len() == lines.len(),
        lines_of(lines)[i].0 == lines[i].variant_id@,
        lines_of(lines)[i].1 == lines[i].quantity,
        notes_of(notes).len() == notes.len(),
        notes_of(notes)[k].0 == notes[k].key@,
        notes_of(notes)[k].1 == notes[k].value@,
        customer matches CreateCustomer::ToAssociate { id } ==> customer@
            == (CustomerModel::ToAssociate { id: id@ }),
        customer matches CreateCustomer::ToUpsert(details) ==> {
            &&& customer@ is ToUpsert
            &&& customer@->details.email == optional(details.email)
            &&& customer@->details.first_name == optional(details.first_name)
            &&& customer@->details.last_name == optional(details.last_name)
            &&& customer@->details.phone == optional(details.phone)
        },
        shipping@.first_name == optional(shipping.first_name),
        shipping@.last_name == optional(shipping.last_name),
        shipping@.phone == optional(shipping.phone),
        shipping@.address.address1 == optional(shipping.address.address1),
        shipping@.address.address2 == optional(shipping.address.address2),
        shipping@.address.city == optional(shipping.address.city),
        shipping@.address.province == optional(shipping.address.province),
        shipping@.address.country == optional(shipping.address.country),
        shipping@.address.zip == optional(shipping.address.zip),
        optional_customer(Some(customer)) == Some(customer@),
        optional_customer(None) is None,
        optional_shipping(Some(shipping)) == Some(shipping@),
        optional_shipping(None) is None,
{
}

/// A lookup finds an order just where the answer holds one and no more, with the source that was
/// looked for, the identifier of an order and a name; and it is that order.
pub proof fn lookups_find_the_one_order_with_the_source(data: FindOrderData, source: Seq<char>)
    ensures
        ({
            let nodes = data.orders.nodes@;
            let found = found_order(data, source);
            let more = data.orders.page_info.has_next_page || nodes.len() > 1;
            &&& more ==> (found matches Err(failure) && failure.code
                == "SHOPIFY_SOURCE_AMBIGUOUS"@)
            &&& !more && nodes.len() == 0 ==> (found matches Ok(order) && order is None)
            &&& !more && nodes.len() == 1 ==> {
                let named = nodes[0].source_identifier matches Some(text) && text@ == source;
                let good = is_shopify_gid(nodes[0].order.id@, "Order"@) && exists|i: int|
                    0 <= i < nodes[0].order.name@.len() && !is_white_space(
                        #[trigger] nodes[0].order.name@[i],
                    );
                &&& named && good ==> (found matches Ok(Some(order)) && order.id
                    == nodes[0].order.id@ && order.name == nodes[0].order.name@)
                &&& !(named && good) ==> (found matches Err(failure) && failure.code
                    == "SHOPIFY_INVALID_RESPONSE"@)
            }
            &&& found matches Err(failure) ==> !failure.retryable
        }),
{
    let nodes = data.orders.nodes@;
    if nodes.len() > 0 {
        something_is_left_unless_all_is_white_space(nodes[0].order.name@);
    }
}

/// A creation has succeeded just where the answer holds no complaint and an order with the identifier
/// of one and a name, and it is that order. Complaints without an order reject it; complaints with
/// an order leave the outcome open.
pub proof fn creations_give_the_order_of_the_answer(data: CreateOrderData)
    ensures
        ({
            let errors = data.order_create.user_errors@;
            let created = created_order(data);
            &&& errors.len() > 0 && data.order_create.order is None ==> (created matches Err(failure)
                && failure.code == "SHOPIFY_USER_ERROR"@)
            &&& errors.len() > 0 && data.order_create.order is Some ==> (created matches Err(failure)
                && failure.code == "SHOPIFY_ORDER_OUTCOME_UNCERTAIN"@)
            &&& errors.len() == 0 && data.order_create.order is None ==> (created matches Err(
                failure,
            ) && failure.code == "SHOPIFY_INVALID_RESPONSE"@)
            &&& errors.len() == 0 ==> (data.order_create.order matches Some(order) ==> {
                let good = is_shopify_gid(order.id@, "Order"@) && exists|i: int|
                    0 <= i < order.name@.len() && !is_white_space(#[trigger] order.name@[i]);
                &&& good ==> (created matches Ok(made) && made.id == order.id@ && made.name
                    == order.name@)
                &&& !good ==> (created matches Err(failure) && failure.code
                    == "SHOPIFY_INVALID_RESPONSE"@)
            })
            &&& created matches Err(failure) ==> !failure.retryable
        }),
{
    if let Some(order) = data.order_create.order {
        something_is_left_unless_all_is_white_space(order.name@);
    }
}

/// One complaint is told as its code in brackets, the path of the field and the message; further
/// ones follow behind semicolons.
pub proof fn complaints_are_told_in_full(errors: Seq<OrderUserError>, error: OrderUserError)
    ensures
        ({
            let code = match error.code {
                Some(code) => code@,
                None => "UNKNOWN"@,
            };
            let field = match error.field {
                Some(path) => joined(contents(path@), "."@),
                None => Seq::empty(),
            };
            let line = "["@ + code + "] "@ + field + ": "@ + error.message@;
            &&& complaints(seq![error]) == line
            &&& errors.len() > 0 ==> complaints(errors.push(error)) == complaints(errors) + "; "@
                + line
        }),
{
    let told = |error: OrderUserError| complaint(error);
    assert(seq![error].map_values(told) =~= seq![complaint(error)]);
    assert(errors.push(error).map_values(told) =~= errors.map_values(told).push(complaint(error)));
    joining_puts_the_text_between(errors.map_values(told), complaint(error), "; "@);
}

/// An order is seen with its own identifier and name.
pub proof fn orders_are_seen_as_they_are(order: CreatedOrder)
    ensures
        order@.id == order.id@,
        order@.name == order.name@,
{
}

} // verus!
