//! Stores, order templates and batches, and the rules that their values obey.
use vstd::prelude::*;
use vstd::string::*;

use crate::error::{lasting, AppError, Failure};
use crate::text::{
    all_digits, ascii_lower, characters, decimal, decimal_reads_back, decimal_value, is_blank,
    is_digit, is_white_space, lower_char, lower_characters, occurs_at, read_digits, stands_at,
    text_between, trim, trimmed, trimming_leaves_what_stands_between,
    trimming_takes_only_white_space,
};

verus! {

/// What every shop domain ends with.
pub const SHOP_SUFFIX: &'static str = ".myshopify.com";

/// Whether `c` may stand in the name of a shop.
pub open spec fn is_host_char(c: char) -> bool {
    'a' <= c <= 'z' || '0' <= c <= '9' || c == '-'
}

/// Whether `host` is the name of a shop: 1 to 63 lower case letters, digits and hyphens, with no
/// hyphen at either end.
pub open spec fn is_shop_host(host: Seq<char>) -> bool {
    &&& 1 <= host.len() <= 63
    &&& forall|i: int| 0 <= i < host.len() ==> is_host_char(#[trigger] host[i])
    &&& host[0] != '-'
    &&& host.last() != '-'
}

/// `s` without `suffix`, where it ends with it.
pub open spec fn without_suffix(s: Seq<char>, suffix: Seq<char>) -> Seq<char> {
    if occurs_at(s, suffix, s.len() - suffix.len()) {
        s.take(s.len() - suffix.len())
    } else {
        s
    }
}

/// The part of a typed shop domain that names the shop.
pub open spec fn shop_host(raw: Seq<char>) -> Seq<char> {
    without_suffix(ascii_lower(trimmed(raw)), SHOP_SUFFIX@)
}

/// The failure for text that names no shop.
pub open spec fn invalid_shop_domain() -> Failure {
    lasting("INVALID_SHOP_DOMAIN"@, "请输入有效的 Shopify 店铺域名"@)
}

/// The full domain of the shop that `raw` names, in lower case, with or without the suffix.
pub fn normalize_shop_domain(raw: &str) -> (r: Result<String, AppError>)
    ensures
        match r {
            Ok(domain) => is_shop_host(shop_host(raw@)) && domain@ == shop_host(raw@)
                + SHOP_SUFFIX@,
            Err(e) => !is_shop_host(shop_host(raw@)) && e@ == invalid_shop_domain(),
        },
{
    let value = lower_characters(trim(raw));
    let suffix = characters(SHOP_SUFFIX);
    let mut end: usize = value.len();
    if suffix.len() <= value.len() && stands_at(&value, &suffix, value.len() - suffix.len()) {
        end = value.len() - suffix.len();
    }
    let ghost host = shop_host(raw@);
    assert(host == value@.take(end as int));
    let mut valid: bool = 1 <= end && end <= 63;
    let mut i: usize = 0;
    while i < end
        invariant
            i <= end <= value.len(),
            host == value@.take(end as int),
            valid == (1 <= host.len() <= 63 && forall|k: int|
                0 <= k < i ==> is_host_char(#[trigger] host[k])),
        decreases end - i,
    {
        let c = value[i];
        assert(host[i as int] == c);
        valid = valid && (('a' <= c && c <= 'z') || ('0' <= c && c <= '9') || c == '-');
        i = i + 1;
    }
    if valid && value[0] != '-' && value[end - 1] != '-' {
        Ok(text_between(&value, 0, end).concat(SHOP_SUFFIX))
    } else {
        Err(AppError::validation("INVALID_SHOP_DOMAIN", "请输入有效的 Shopify 店铺域名"))
    }
}

/// A full domain of a shop is what it normalizes to.
pub proof fn normalization_is_idempotent(host: Seq<char>)
    requires
        is_shop_host(host),
    ensures
        shop_host(host + SHOP_SUFFIX@) == host,
{
    reveal_strlit(".myshopify.com");
    let s = host + SHOP_SUFFIX@;
    assert(trimmed(s) == s);
    assert(ascii_lower(s) =~= s);
    assert(s.subrange(s.len() - SHOP_SUFFIX@.len(), s.len() as int) == SHOP_SUFFIX@);
    assert(s.take(s.len() - SHOP_SUFFIX@.len()) == host);
}

/// However a shop is spelled, with its full domain or its bare name, in capitals or not, and with
/// white space around it or none, it is the same shop.
pub proof fn spellings_name_the_same_shop(
    before: Seq<char>,
    name: Seq<char>,
    after: Seq<char>,
    host: Seq<char>,
)
    requires
        is_shop_host(host),
        is_blank(before),
        is_blank(after),
        ascii_lower(name) == host || ascii_lower(name) == host + SHOP_SUFFIX@,
    ensures
        shop_host(before + name + after) == host,
{
    reveal_strlit(".myshopify.com");
    let lower = ascii_lower(name);
    let end = name.len() - 1;
    assert(lower.len() == name.len() && lower.len() >= host.len());
    assert(lower[0] == lower_char(name[0]) && lower[end] == lower_char(name[end]));
    assert(is_host_char(host[0]) && is_host_char(host[host.len() - 1]));
    assert(lower[0] == host[0]);
    if lower != host {
        assert(lower[end] == SHOP_SUFFIX@[13]);
    }
    assert(!is_white_space(name[0]) && !is_white_space(name[end]));
    trimming_leaves_what_stands_between(before, name, after);
    if lower == host {
        let at = host.len() - SHOP_SUFFIX@.len();
        if occurs_at(host, SHOP_SUFFIX@, at) {
            assert(host.subrange(at, at + SHOP_SUFFIX@.len())[0] == host[at]);
            assert(is_host_char(host[at]));
        }
    } else {
        let s = host + SHOP_SUFFIX@;
        assert(s.subrange(s.len() - SHOP_SUFFIX@.len(), s.len() as int) == SHOP_SUFFIX@);
        assert(s.take(s.len() - SHOP_SUFFIX@.len()) == host);
    }
}

/// The number of orders in a batch: 1 to 100.
#[derive(Debug, Clone, Copy, PartialEq, Eq)]
pub struct BatchSize(u16);

impl BatchSize {
    #[verifier::type_invariant]
    spec fn in_range(self) -> bool {
        1 <= self.0 <= 100
    }

    /// The number of orders.
    pub closed spec fn orders(self) -> u16 {
        self.0
    }

    /// A batch of `value` orders.
    pub fn new(value: u16) -> (r: Result<Self, AppError>)
        ensures
            match r {
                Ok(size) => 1 <= value <= 100 && size.orders() == value,
                Err(e) => !(1 <= value <= 100) && e@ == lasting(
                    "INVALID_BATCH_SIZE"@,
                    "批量数量必须为 1 到 100"@,
                ),
            },
    {
        if 1 <= value && value <= 100 {
            Ok(BatchSize(value))
        } else {
            Err(AppError::validation("INVALID_BATCH_SIZE", "批量数量必须为 1 到 100"))
        }
    }

    /// The number of orders.
    pub fn get(self) -> (r: u16)
        ensures
            r == self.orders(),
            1 <= r <= 100,
    {
        proof {
            use_type_invariant(self);
        }
        self.0
    }
}

/// How an order counts as paid.
#[derive(Debug, Clone, Copy, PartialEq, Eq, Structural)]
pub enum FinancialStatus {
    Pending,
    Paid,
}

impl Default for FinancialStatus {
    fn default() -> (r: Self)
        ensures
            r == FinancialStatus::Pending,
    {
        FinancialStatus::Pending
    }
}

/// The characters of a text that may be absent.
pub open spec fn optional(text: Option<String>) -> Option<Seq<char>> {
    match text {
        Some(t) => Some(t@),
        None => None,
    }
}

/// A copy of a text that may be absent.
pub(crate) fn copy_optional(text: &Option<String>) -> (r: Option<String>)
    ensures
        r == *text,
{
    match text {
        Some(t) => Some(t.clone()),
        None => None,
    }
}

/// Who the order is for.
#[derive(Debug, PartialEq, Eq)]
pub enum CustomerMode {
    NoCustomer,
    Existing { customer_id: String },
    Manual { customer: ManualCustomer },
}

impl Clone for CustomerMode {
    fn clone(&self) -> (r: Self)
        ensures
            r == *self,
    {
        match self {
            CustomerMode::NoCustomer => CustomerMode::NoCustomer,
            CustomerMode::Existing { customer_id } => CustomerMode::Existing {
                customer_id: customer_id.clone(),
            },
            CustomerMode::Manual { customer } => CustomerMode::Manual { customer: customer.clone() },
        }
    }
}

/// A customer as typed by the user.
#[derive(Debug, PartialEq, Eq)]
pub struct ManualCustomer {
    pub email: Option<String>,
    pub first_name: Option<String>,
    pub last_name: Option<String>,
    pub phone: Option<String>,
    pub shipping_address: Option<MailingAddress>,
}

impl Clone for ManualCustomer {
    fn clone(&self) -> (r: Self)
        ensures
            r == *self,
    {
        ManualCustomer {
            email: copy_optional(&self.email),
            first_name: copy_optional(&self.first_name),
            last_name: copy_optional(&self.last_name),
            phone: copy_optional(&self.phone),
            shipping_address: match &self.shipping_address {
                Some(address) => Some(address.clone()),
                None => None,
            },
        }
    }
}

impl Default for ManualCustomer {
    fn default() -> (r: Self)
        ensures
            r == (ManualCustomer {
                email: None,
                first_name: None,
                last_name: None,
                phone: None,
                shipping_address: None,
            }),
    {
        ManualCustomer {
            email: None,
            first_name: None,
            last_name: None,
            phone: None,
            shipping_address: None,
        }
    }
}

/// A postal address, of which every part may be absent.
#[derive(Debug, PartialEq, Eq)]
pub struct MailingAddress {
    pub address1: Option<String>,
    pub address2: Option<String>,
    pub city: Option<String>,
    pub province: Option<String>,
    pub country: Option<String>,
    pub zip: Option<String>,
}

impl Clone for MailingAddress {
    fn clone(&self) -> (r: Self)
        ensures
            r == *self,
    {
        MailingAddress {
            address1: copy_optional(&self.address1),
            address2: copy_optional(&self.address2),
            city: copy_optional(&self.city),
            province: copy_optional(&self.province),
            country: copy_optional(&self.country),
            zip: copy_optional(&self.zip),
        }
    }
}

impl Default for MailingAddress {
    fn default() -> (r: Self)
        ensures
            r == (MailingAddress {
                address1: None,
                address2: None,
                city: None,
                province: None,
                country: None,
                zip: None,
            }),
    {
        MailingAddress {
            address1: None,
            address2: None,
            city: None,
            province: None,
            country: None,
            zip: None,
        }
    }
}

/// What every order of a batch is made from.
#[derive(Debug, PartialEq, Eq)]
pub struct OrderTemplate {
    pub variant_id: String,
    pub quantity: u32,
    pub customer: CustomerMode,
    pub financial_status: FinancialStatus,
}

impl Clone for OrderTemplate {
    fn clone(&self) -> (r: Self)
        ensures
            r == *self,
    {
        OrderTemplate {
            variant_id: self.variant_id.clone(),
            quantity: self.quantity,
            customer: self.customer.clone(),
            financial_status: self.financial_status,
        }
    }
}

/// What is wrong with a template, in the order in which it is looked for.
pub open spec fn template_problem(template: OrderTemplate) -> Option<Failure> {
    if template.quantity == 0 || template.quantity > i32::MAX {
        Some(lasting("INVALID_ORDER_QUANTITY"@, "每单商品数量必须为有效的正整数"@))
    } else if !is_shopify_gid(template.variant_id@, "ProductVariant"@) {
        Some(lasting("INVALID_VARIANT_ID"@, "请选择具体的 Shopify 商品变体"@))
    } else {
        match template.customer {
            CustomerMode::Existing { customer_id } => if is_shopify_gid(
                customer_id@,
                "Customer"@,
            ) {
                None
            } else {
                Some(lasting("INVALID_CUSTOMER_ID"@, "请选择有效的 Shopify 客户"@))
            },
            _ => None,
        }
    }
}

impl OrderTemplate {
    /// Whether orders can be made from this template.
    pub fn validate(&self) -> (r: Result<(), AppError>)
        ensures
            match template_problem(*self) {
                None => r is Ok,
                Some(problem) => r is Err && r->Err_0@ == problem,
            },
    {
        if self.quantity == 0 || self.quantity > i32::MAX as u32 {
            return Err(
                AppError::validation("INVALID_ORDER_QUANTITY", "每单商品数量必须为有效的正整数"),
            );
        }
        if !valid_shopify_gid(self.variant_id.as_str(), "ProductVariant") {
            return Err(AppError::validation("INVALID_VARIANT_ID", "请选择具体的 Shopify 商品变体"));
        }
        if let CustomerMode::Existing { customer_id } = &self.customer {
            if !valid_shopify_gid(customer_id.as_str(), "Customer") {
                return Err(AppError::validation("INVALID_CUSTOMER_ID", "请选择有效的 Shopify 客户"));
            }
        }
        Ok(())
    }
}

/// What the identifier of a Shopify object of `kind` starts with.
pub open spec fn gid_prefix(kind: Seq<char>) -> Seq<char> {
    "gid://shopify/"@ + kind + "/"@
}

/// Whether `value` identifies a Shopify object of `kind`: the prefix, then the digits of a number
/// from 1 to `u64::MAX`.
pub open spec fn is_shopify_gid(value: Seq<char>, kind: Seq<char>) -> bool {
    let id = value.skip(gid_prefix(kind).len() as int);
    &&& occurs_at(value, gid_prefix(kind), 0)
    &&& id.len() > 0
    &&& all_digits(id)
    &&& 0 < decimal_value(id) <= u64::MAX
}

/// Whether `value` identifies a Shopify object of `kind`.
pub fn valid_shopify_gid(value: &str, kind: &str) -> (r: bool)
    ensures
        r == is_shopify_gid(value@, kind@),
{
    let chars = characters(value);
    let prefix = characters("gid://shopify/".to_owned().concat(kind).concat("/").as_str());
    if !stands_at(&chars, &prefix, 0) {
        return false;
    }
    match read_digits(&chars, prefix.len()) {
        Some(id) => id > 0,
        None => false,
    }
}

/// Where one order of a batch stands.
#[derive(Debug, Clone, Copy, PartialEq, Eq, Structural)]
pub enum BatchItemStatus {
    Queued,
    Creating,
    Succeeded,
    Failed,
    Uncertain,
    Stopped,
}

/// A batch as it is stored.
#[derive(Debug, PartialEq, Eq)]
pub struct BatchJob {
    pub id: String,
    pub store_id: Option<String>,
    pub order_template_json: String,
    pub requested_count: i64,
    pub status: String,
    pub created_at: String,
    pub started_at: Option<String>,
    pub finished_at: Option<String>,
}

impl Clone for BatchJob {
    fn clone(&self) -> (r: Self)
        ensures
            r == *self,
    {
        BatchJob {
            id: self.id.clone(),
            store_id: copy_optional(&self.store_id),
            order_template_json: self.order_template_json.clone(),
            requested_count: self.requested_count,
            status: self.status.clone(),
            created_at: self.created_at.clone(),
            started_at: copy_optional(&self.started_at),
            finished_at: copy_optional(&self.finished_at),
        }
    }
}

/// One order of a batch as it is stored.
#[derive(Debug, PartialEq, Eq)]
pub struct BatchItem {
    pub id: String,
    pub batch_id: String,
    pub sequence_number: i64,
    pub source_identifier: String,
    pub status: BatchItemStatus,
    pub attempt_count: i64,
    pub shopify_order_id: Option<String>,
    pub shopify_order_name: Option<String>,
    pub error_code: Option<String>,
    pub error_message: Option<String>,
    pub created_at: String,
    pub updated_at: String,
}

impl Clone for BatchItem {
    fn clone(&self) -> (r: Self)
        ensures
            r == *self,
    {
        BatchItem {
            id: self.id.clone(),
            batch_id: self.batch_id.clone(),
            sequence_number: self.sequence_number,
            source_identifier: self.source_identifier.clone(),
            status: self.status,
            attempt_count: self.attempt_count,
            shopify_order_id: copy_optional(&self.shopify_order_id),
            shopify_order_name: copy_optional(&self.shopify_order_name),
            error_code: copy_optional(&self.error_code),
            error_message: copy_optional(&self.error_message),
            created_at: self.created_at.clone(),
            updated_at: self.updated_at.clone(),
        }
    }
}

/// The name of a shop is 1 to 63 characters: small letters, digits and hyphens, the first and the
/// last of which are no hyphens.
pub proof fn shops_are_named_as_shopify_names_them(host: Seq<char>)
    ensures
        is_shop_host(host) <==> {
            &&& 1 <= host.len() <= 63
            &&& forall|i: int|
                0 <= i < host.len() ==> 'a' <= #[trigger] host[i] <= 'z' || '0' <= host[i] <= '9'
                    || (host[i] == '-' && 0 < i < host.len() - 1)
        },
{
    if is_shop_host(host) {
        assert forall|i: int| 0 <= i < host.len() implies 'a' <= #[trigger] host[i] <= 'z' || '0'
            <= host[i] <= '9' || (host[i] == '-' && 0 < i < host.len() - 1) by {
            assert(is_host_char(host[i]));
        }
    } else if 1 <= host.len() <= 63 && forall|i: int|
        0 <= i < host.len() ==> 'a' <= #[trigger] host[i] <= 'z' || '0' <= host[i] <= '9' || (
        host[i] == '-' && 0 < i < host.len() - 1) {
        assert(host[0] != '-' && host[host.len() - 1] != '-');
        assert forall|i: int| 0 <= i < host.len() implies is_host_char(#[trigger] host[i]) by {}
    }
}

/// Text in which a character can stand in no domain names no shop.
pub proof fn other_texts_name_no_shop(raw: Seq<char>, i: int)
    requires
        0 <= i < raw.len(),
        !('a' <= raw[i] <= 'z' || 'A' <= raw[i] <= 'Z' || '0' <= raw[i] <= '9' || raw[i] == '-'
            || raw[i] == '.' || is_white_space(raw[i])),
    ensures
        !is_shop_host(shop_host(raw)),
{
    reveal_strlit(".myshopify.com");
    let (from, to) = trimming_takes_only_white_space(raw);
    let t = trimmed(raw);
    if i < from {
        assert(raw.take(from)[i] == raw[i]);
    }
    if i >= to {
        assert(raw.skip(to)[i - to] == raw[i]);
    }
    let lower = ascii_lower(t);
    assert(t[i - from] == raw[i]);
    assert(lower[i - from] == raw[i]);
    let cut = lower.len() - SHOP_SUFFIX@.len();
    if occurs_at(lower, SHOP_SUFFIX@, cut) && i - from >= cut {
        assert(lower.subrange(cut, cut + SHOP_SUFFIX@.len())[i - from - cut] == lower[i - from]);
        assert(SHOP_SUFFIX@[i - from - cut] == raw[i]);
    } else {
        assert(shop_host(raw)[i - from] == raw[i]);
        if is_shop_host(shop_host(raw)) {
            assert(is_host_char(shop_host(raw)[i - from]));
        }
    }
}

/// A Shopify object is identified by its kind and a number from 1 on.
pub proof fn numbers_identify_shopify_objects(kind: Seq<char>, n: nat)
    ensures
        is_shopify_gid("gid://shopify/"@ + kind + "/"@ + decimal(n), kind) <==> 1 <= n
            <= u64::MAX,
{
    let prefix = "gid://shopify/"@ + kind + "/"@;
    let value = prefix + decimal(n);
    decimal_reads_back(n);
    assert(value.subrange(0, prefix.len() as int) == prefix);
    assert(value.skip(prefix.len() as int) == decimal(n));
}

/// Text that identifies a Shopify object of a kind names that kind and then has digits only, at least
/// one.
pub proof fn identifiers_name_their_kind(value: Seq<char>, kind: Seq<char>)
    requires
        is_shopify_gid(value, kind),
    ensures
        ({
            let prefix = "gid://shopify/"@ + kind + "/"@;
            &&& value.len() > prefix.len()
            &&& value.take(prefix.len() as int) == prefix
            &&& forall|i: int|
                prefix.len() <= i < value.len() ==> '0' <= #[trigger] value[i] <= '9'
            &&& exists|i: int| prefix.len() <= i < value.len() && #[trigger] value[i] != '0'
        }),
{
    let prefix = "gid://shopify/"@ + kind + "/"@;
    let id = value.skip(prefix.len() as int);
    assert(value.take(prefix.len() as int) == value.subrange(0, prefix.len() as int));
    assert forall|i: int| prefix.len() <= i < value.len() implies '0' <= #[trigger] value[i]
        <= '9' by {
        assert(is_digit(id[i - prefix.len()]));
    }
    if forall|i: int| prefix.len() <= i < value.len() ==> #[trigger] value[i] == '0' {
        assert forall|i: int| 0 <= i < id.len() implies #[trigger] id[i] == '0' by {
            assert(id[i] == value[prefix.len() + i]);
        }
        zeros_write_zero(id);
    }
}

proof fn zeros_write_zero(digits: Seq<char>)
    requires
        forall|i: int| 0 <= i < digits.len() ==> #[trigger] digits[i] == '0',
    ensures
        decimal_value(digits) == 0,
    decreases digits.len(),
{
    if digits.len() > 0 {
        assert forall|i: int| 0 <= i < digits.drop_last().len() implies #[trigger] digits.drop_last()[i]
            == '0' by {
            assert(digits.drop_last()[i] == digits[i]);
        }
        zeros_write_zero(digits.drop_last());
        assert(digits[digits.len() - 1] == '0');
    }
}

/// Orders can be made from a template just where it has a quantity from 1 on that Shopify can take,
/// a variant, and where it names an existing customer, a customer.
pub proof fn templates_are_usable_where_they_are_complete(template: OrderTemplate)
    ensures
        template_problem(template) is None <==> {
            &&& 1 <= template.quantity <= 0x7fff_ffff
            &&& is_shopify_gid(template.variant_id@, "ProductVariant"@)
            &&& template.customer matches CustomerMode::Existing { customer_id } ==> is_shopify_gid(
                customer_id@,
                "Customer"@,
            )
        },
        !(1 <= template.quantity <= 0x7fff_ffff) ==> template_problem(template)->0.code
            == "INVALID_ORDER_QUANTITY"@,
        1 <= template.quantity <= 0x7fff_ffff && !is_shopify_gid(
            template.variant_id@,
            "ProductVariant"@,
        ) ==> template_problem(template)->0.code == "INVALID_VARIANT_ID"@,
        1 <= template.quantity <= 0x7fff_ffff && is_shopify_gid(
            template.variant_id@,
            "ProductVariant"@,
        ) && template_problem(template) is Some ==> template_problem(template)->0.code
            == "INVALID_CUSTOMER_ID"@,
        template_problem(template) matches Some(problem) ==> !problem.retryable,
{
}

/// A text that may be absent is seen as it is.
pub proof fn optional_texts_are_seen_as_they_are(text: Option<String>)
    ensures
        text is None <==> optional(text) is None,
        text matches Some(t) ==> optional(text) == Some(t@),
{
}

/// What is typed of a shop is its name, in any case and with white space around it or none, with the
/// domain of Shopify behind it or without: nothing else is added or taken away.
pub proof fn shops_are_named_by_what_is_typed(raw: Seq<char>)
    ensures
        ({
            let typed = ascii_lower(trimmed(raw));
            let suffix = ".myshopify.com"@;
            let cut = typed.len() - suffix.len();
            if cut >= 0 && typed.skip(cut) == suffix {
                typed == shop_host(raw) + suffix
            } else {
                typed == shop_host(raw)
            }
        }),
{
    let typed = ascii_lower(trimmed(raw));
    let suffix = ".myshopify.com"@;
    let cut = typed.len() - suffix.len();
    if cut >= 0 {
        assert(typed.skip(cut) == typed.subrange(cut, cut + suffix.len()));
        if typed.skip(cut) == suffix {
            assert(typed == typed.take(cut) + typed.skip(cut));
        }
    }
}

} // verus!
