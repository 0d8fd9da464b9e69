//! What is asked of Shopify and what its answers mean.
use vstd::prelude::*;
use vstd::string::*;

use crate::error::{lasting, AppError, Failure};
use crate::identifier::{invalid_source, is_source, source_batch_id};
use crate::repository::StoreCredentials;
use crate::shopify::exchange::{endpoint, endpoint_for};
use crate::text::{
    contents, occurs_at, replace, replaced, replacing_a_character_distributes,
    replacing_in_one_character, same_text, trim, trimmed,
};

pub mod attempts;
pub mod exchange;
pub mod graphql;

pub use graphql::{CreateOrderInput, CreatedOrder};

verus! {

/// The access scopes that the program needs.
pub const REQUIRED_SCOPES: [&'static str; 4] = [
    "read_products",
    "read_customers",
    "read_orders",
    "write_orders",
];

/// The query that names the shop and the granted access scopes.
pub const CONNECTION_QUERY: &'static str =
    "query TestConnection { shop { name myshopifyDomain } currentAppInstallation { accessScopes { handle } } }";

/// The query that looks for product variants.
pub const VARIANT_SEARCH_QUERY: &'static str =
    "query SearchVariants($query: String!) { shop { currencyCode } productVariants(first: 20, query: $query) { nodes { id title sku price inventoryQuantity product { title } } } }";

/// The query that looks for customers.
pub const CUSTOMER_SEARCH_QUERY: &'static str =
    "query SearchCustomers($query: String!) { customers(first: 20, query: $query) { nodes { id displayName defaultEmailAddress { emailAddress } defaultPhoneNumber { phoneNumber } defaultAddress { firstName lastName company address1 address2 city provinceCode countryCodeV2 zip } } } }";

/// Whether a shop can be reached, and what it does not let the program do.
#[derive(Debug, Clone, PartialEq, Eq)]
pub struct ConnectionReport {
    pub shop_name: String,
    pub shop_domain: String,
    pub required_scopes_present: bool,
    pub missing_scopes: Vec<String>,
}

/// A product variant that can be ordered.
#[derive(Debug, Clone, PartialEq, Eq)]
pub struct ProductVariant {
    pub id: String,
    pub product_title: String,
    pub variant_title: String,
    pub sku: Option<String>,
    pub price: String,
    pub currency_code: String,
    pub inventory_quantity: Option<i64>,
}

/// A customer of a shop.
#[derive(Debug, Clone, PartialEq, Eq)]
pub struct CustomerSummary {
    pub id: String,
    pub display_name: String,
    pub email: Option<String>,
    pub phone: Option<String>,
    pub default_address: Option<CustomerAddress>,
}

/// The default address of a customer.
#[derive(Debug, Clone, PartialEq, Eq)]
pub struct CustomerAddress {
    pub first_name: Option<String>,
    pub last_name: Option<String>,
    pub company: Option<String>,
    pub address1: Option<String>,
    pub address2: Option<String>,
    pub city: Option<String>,
    pub province_code: Option<String>,
    pub country_code: Option<String>,
    pub zip: Option<String>,
}

/// The answer to [`CONNECTION_QUERY`].
#[derive(Debug)]
pub struct ConnectionData {
    pub shop: Shop,
    pub current_app_installation: Installation,
}

/// A shop's name and domain.
#[derive(Debug)]
pub struct Shop {
    pub name: String,
    pub myshopify_domain: String,
}

/// What the program was granted.
#[derive(Debug)]
pub struct Installation {
    pub access_scopes: Vec<Scope>,
}

/// One granted access scope.
#[derive(Debug)]
pub struct Scope {
    pub handle: String,
}

/// The answer to [`VARIANT_SEARCH_QUERY`].
#[derive(Debug)]
pub struct VariantSearchData {
    pub shop: VariantSearchShop,
    pub product_variants: VariantConnection,
}

/// What the prices of a shop are in.
#[derive(Debug)]
pub struct VariantSearchShop {
    pub currency_code: String,
}

/// The variants that were found.
#[derive(Debug)]
pub struct VariantConnection {
    pub nodes: Vec<VariantNode>,
}

/// A variant that was found.
#[derive(Debug)]
pub struct VariantNode {
    pub id: String,
    pub title: String,
    pub sku: Option<String>,
    pub price: String,
    pub inventory_quantity: Option<i64>,
    pub product: VariantProduct,
}

/// The product of a variant.
#[derive(Debug)]
pub struct VariantProduct {
    pub title: String,
}

/// The answer to [`CUSTOMER_SEARCH_QUERY`].
#[derive(Debug)]
pub struct CustomerSearchData {
    pub customers: CustomerConnection,
}

/// The customers that were found.
#[derive(Debug)]
pub struct CustomerConnection {
    pub nodes: Vec<CustomerNode>,
}

/// A customer that was found.
#[derive(Debug)]
pub struct CustomerNode {
    pub id: String,
    pub display_name: String,
    pub default_email_address: Option<CustomerEmailAddress>,
    pub default_phone_number: Option<CustomerPhoneNumber>,
    pub default_address: Option<CustomerAddressNode>,
}

/// An email address.
#[derive(Debug)]
pub struct CustomerEmailAddress {
    pub email_address: String,
}

/// A phone number.
#[derive(Debug)]
pub struct CustomerPhoneNumber {
    pub phone_number: String,
}

/// The default address of a customer that was found.
#[derive(Debug)]
pub struct CustomerAddressNode {
    pub first_name: Option<String>,
    pub last_name: Option<String>,
    pub company: Option<String>,
    pub address1: Option<String>,
    pub address2: Option<String>,
    pub city: Option<String>,
    pub province_code: Option<String>,
    pub country_code_v2: Option<String>,
    pub zip: Option<String>,
}

/// The scopes that the program needs, in order.
pub open spec fn required_scopes() -> Seq<Seq<char>> {
    seq!["read_products"@, "read_customers"@, "read_orders"@, "write_orders"@]
}

/// Those of `required` that are not in `granted`, in order.
pub open spec fn lacking(required: Seq<Seq<char>>, granted: Seq<Seq<char>>) -> Seq<Seq<char>>
    decreases required.len(),
{
    if required.len() == 0 {
        Seq::empty()
    } else if granted.contains(required.last()) {
        lacking(required.drop_last(), granted)
    } else {
        lacking(required.drop_last(), granted).push(required.last())
    }
}

/// The handles of the granted scopes.
pub open spec fn granted_scopes(scopes: Seq<Scope>) -> Seq<Seq<char>> {
    scopes.map_values(|scope: Scope| scope.handle@)
}

/// Nothing is lacking just where everything is granted.
pub proof fn nothing_lacks_where_all_is_granted(required: Seq<Seq<char>>, granted: Seq<Seq<char>>)
    ensures
        lacking(required, granted).len() == 0 <==> forall|i: int|
            0 <= i < required.len() ==> granted.contains(#[trigger] required[i]),
    decreases required.len(),
{
    if required.len() > 0 {
        let rest = required.drop_last();
        nothing_lacks_where_all_is_granted(rest, granted);
        assert(forall|i: int| 0 <= i < rest.len() ==> #[trigger] required[i] == rest[i]);
        assert(required[required.len() - 1] == required.last());
        if forall|i: int| 0 <= i < rest.len() ==> granted.contains(#[trigger] rest[i]) {
            if granted.contains(required.last()) {
                assert forall|i: int| 0 <= i < required.len() implies granted.contains(
                    #[trigger] required[i],
                ) by {
                    if i < rest.len() {
                        assert(required[i] == rest[i]);
                    }
                }
            }
        } else {
            let i = choose|i: int| 0 <= i < rest.len() && !granted.contains(#[trigger] rest[i]);
            assert(required[i] == rest[i]);
        }
    }
}

/// Whether `handle` is one of the granted scopes.
fn is_granted(scopes: &Vec<Scope>, handle: &str) -> (r: bool)
    ensures
        r == granted_scopes(scopes@).contains(handle@),
{
    let ghost granted = granted_scopes(scopes@);
    let mut i: usize = 0;
    while i < scopes.len()
        invariant
            i <= scopes.len(),
            granted == granted_scopes(scopes@),
            forall|k: int| 0 <= k < i ==> #[trigger] granted[k] != handle@,
        decreases scopes.len() - i,
    {
        if same_text(scopes[i].handle.as_str(), handle) {
            assert(granted[i as int] == handle@);
            return true;
        }
        i = i + 1;
    }
    false
}

/// Those of the required scopes that are not granted.
pub fn missing_scopes(scopes: &Vec<Scope>) -> (r: Vec<String>)
    ensures
        contents(r@) == lacking(required_scopes(), granted_scopes(scopes@)),
{
    let ghost required = required_scopes();
    let ghost granted = granted_scopes(scopes@);
    let mut missing: Vec<String> = Vec::new();
    let mut i: usize = 0;
    while i < 4
        invariant
            i <= 4,
            required == required_scopes(),
            granted == granted_scopes(scopes@),
            contents(missing@) == lacking(required.take(i as int), granted),
        decreases 4 - i,
    {
        let scope = REQUIRED_SCOPES[i];
        assert(scope@ == required[i as int]);
        assert(required.take(i + 1).drop_last() == required.take(i as int));
        if !is_granted(scopes, scope) {
            let ghost before = missing@;
            missing.push(scope.to_owned());
            assert(contents(missing@) =~= contents(before).push(scope@));
        }
        i = i + 1;
    }
    assert(required.take(4) == required);
    missing
}

/// What the answer to the connection query says.
pub fn connection_report(data: ConnectionData) -> (r: ConnectionReport)
    ensures
        r.shop_name == data.shop.name,
        r.shop_domain == data.shop.myshopify_domain,
        contents(r.missing_scopes@) == lacking(
            required_scopes(),
            granted_scopes(data.current_app_installation.access_scopes@),
        ),
        r.required_scopes_present == (contents(r.missing_scopes@).len() == 0),
{
    let missing = missing_scopes(&data.current_app_installation.access_scopes);
    ConnectionReport {
        shop_name: data.shop.name,
        shop_domain: data.shop.myshopify_domain,
        required_scopes_present: missing.len() == 0,
        missing_scopes: missing,
    }
}

/// The variant that a node of the answer stands for.
pub open spec fn variant_of(node: VariantNode, currency_code: String) -> ProductVariant {
    ProductVariant {
        id: node.id,
        product_title: node.product.title,
        variant_title: node.title,
        sku: node.sku,
        price: node.price,
        currency_code,
        inventory_quantity: node.inventory_quantity,
    }
}

/// The variants that were found, in order.
pub fn found_variants(data: VariantSearchData) -> (r: Vec<ProductVariant>)
    ensures
        r@ == data.product_variants.nodes@.map_values(
            |node: VariantNode| variant_of(node, data.shop.currency_code),
        ),
{
    let ghost nodes = data.product_variants.nodes@;
    let currency_code = data.shop.currency_code;
    let mut found: Vec<ProductVariant> = Vec::new();
    for node in it: data.product_variants.nodes
        invariant
            it.seq() == nodes,
            found.len() == it.index(),
            forall|k: int|
                0 <= k < found.len() ==> #[trigger] found@[k] == variant_of(
                    nodes[k],
                    currency_code,
                ),
    {
        found.push(
            ProductVariant {
                id: node.id,
                product_title: node.product.title,
                variant_title: node.title,
                sku: node.sku,
                price: node.price,
                currency_code: currency_code.clone(),
                inventory_quantity: node.inventory_quantity,
            },
        );
    }
    found
}

impl From<CustomerAddressNode> for CustomerAddress {
    fn from(address: CustomerAddressNode) -> (r: Self) {
        CustomerAddress {
            first_name: address.first_name,
            last_name: address.last_name,
            company: address.company,
            address1: address.address1,
            address2: address.address2,
            city: address.city,
            province_code: address.province_code,
            country_code: address.country_code_v2,
            zip: address.zip,
        }
    }
}

impl vstd::std_specs::convert::FromSpecImpl<CustomerAddressNode> for CustomerAddress {
    open spec fn obeys_from_spec() -> bool {
        true
    }

    open spec fn from_spec(address: CustomerAddressNode) -> Self {
        address_of(address)
    }
}

/// The address that a node of the answer stands for.
pub open spec fn address_of(node: CustomerAddressNode) -> CustomerAddress {
    CustomerAddress {
        first_name: node.first_name,
        last_name: node.last_name,
        company: node.company,
        address1: node.address1,
        address2: node.address2,
        city: node.city,
        province_code: node.province_code,
        country_code: node.country_code_v2,
        zip: node.zip,
    }
}

/// The customer that a node of the answer stands for.
pub open spec fn customer_of(node: CustomerNode) -> CustomerSummary {
    CustomerSummary {
        id: node.id,
        display_name: node.display_name,
        email: match node.default_email_address {
            Some(email) => Some(email.email_address),
            None => None,
        },
        phone: match node.default_phone_number {
            Some(phone) => Some(phone.phone_number),
            None => None,
        },
        default_address: match node.default_address {
            Some(address) => Some(address_of(address)),
            None => None,
        },
    }
}

/// The customers that were found, in order.
pub fn found_customers(data: CustomerSearchData) -> (r: Vec<CustomerSummary>)
    ensures
        r@ == data.customers.nodes@.map_values(|node: CustomerNode| customer_of(node)),
{
    let ghost nodes = data.customers.nodes@;
    let mut found: Vec<CustomerSummary> = Vec::new();
    for node in it: data.customers.nodes
        invariant
            it.seq() == nodes,
            found.len() == it.index(),
            forall|k: int|
                0 <= k < found.len() ==> #[trigger] found@[k] == customer_of(nodes[k]),
    {
        found.push(
            CustomerSummary {
                id: node.id,
                display_name: node.display_name,
                email: match node.default_email_address {
                    Some(email) => Some(email.email_address),
                    None => None,
                },
                phone: match node.default_phone_number {
                    Some(phone) => Some(phone.phone_number),
                    None => None,
                },
                default_address: match node.default_address {
                    Some(address) => Some(CustomerAddress::from(address)),
                    None => None,
                },
            },
        );
    }
    found
}

/// A search term with backslashes in front of its backslashes and quotes.
pub open spec fn escaped_term(term: Seq<char>) -> Seq<char> {
    replaced(replaced(term, seq!['\\'], "\\\\"@), seq!['"'], "\\\""@)
}

/// A search term with backslashes in front of its backslashes and quotes.
pub fn escape_search_term(term: &str) -> (r: String)
    ensures
        r@ == escaped_term(term@),
{
    proof {
        reveal_strlit("\\");
        reveal_strlit("\"");
    }
    assert("\\"@ =~= seq!['\\']);
    assert("\""@ =~= seq!['"']);
    let doubled = replace(term, "\\", "\\\\");
    replace(doubled.as_str(), "\"", "\\\"")
}

/// A search for variants by text or by SKU.
pub open spec fn variant_search(term: Seq<char>) -> Seq<char> {
    "\""@ + escaped_term(term) + "\" OR sku:\""@ + escaped_term(term) + "\""@
}

/// A search for variants by text or by SKU.
pub fn variant_search_query(term: &str) -> (r: String)
    ensures
        r@ == variant_search(term@),
{
    let escaped = escape_search_term(term);
    "\"".to_owned().concat(escaped.as_str()).concat("\" OR sku:\"").concat(
        escaped.as_str(),
    ).concat("\"")
}

/// A search for customers by text.
pub open spec fn customer_search(term: Seq<char>) -> Seq<char> {
    "\""@ + escaped_term(term) + "\""@
}

/// A search for customers by text.
pub fn customer_search_query(term: &str) -> (r: String)
    ensures
        r@ == customer_search(term@),
{
    let escaped = escape_search_term(term);
    "\"".to_owned().concat(escaped.as_str()).concat("\"")
}

/// A search for the order with a source identifier.
pub open spec fn source_search(source: Seq<char>) -> Seq<char> {
    "source_identifier:\""@ + escaped_term(source) + "\""@
}

/// A search for the order with the identifier `source`, if it is one.
pub fn source_search_query(source: &str) -> (r: Result<String, AppError>)
    ensures
        match r {
            Ok(query) => is_source(source@) && query@ == source_search(source@),
            Err(e) => !is_source(source@) && e@ == invalid_source(),
        },
{
    match source_batch_id(source) {
        Ok(_) => {
            let escaped = escape_search_term(source);
            Ok("source_identifier:\"".to_owned().concat(escaped.as_str()).concat("\""))
        },
        Err(e) => Err(e),
    }
}

/// The failure for a search text that is blank or too long.
pub open spec fn unusable_search() -> Failure {
    lasting("SHOPIFY_SEARCH_QUERY"@, "搜索内容必须为 1 到 120 个字符"@)
}

/// The search text without the white space around it: 1 to 120 characters.
pub fn normalize_search_query(query: &str) -> (r: Result<&str, AppError>)
    ensures
        match r {
            Ok(text) => 1 <= trimmed(query@).len() <= 120 && text@ == trimmed(query@),
            Err(e) => !(1 <= trimmed(query@).len() <= 120) && e@ == unusable_search(),
        },
{
    let text = trim(query);
    if text.is_empty() || text.unicode_len() > 120 {
        Err(AppError::validation("SHOPIFY_SEARCH_QUERY", "搜索内容必须为 1 到 120 个字符"))
    } else {
        Ok(text)
    }
}

/// A search that can be sent: where it goes, and the text that is searched for.
#[derive(Debug)]
pub struct SearchTarget {
    pub url: String,
    pub term: String,
}

/// The search for `query` at `store`, or at `base` where that is given. The text is looked at
/// before the store is: a bad one is refused whatever the domain and the token are.
pub fn search_target(store: &StoreCredentials, base: Option<&str>, query: &str) -> (r: Result<
    SearchTarget,
    AppError,
>)
    ensures
        match r {
            Ok(target) => {
                &&& 1 <= trimmed(query@).len() <= 120
                &&& target.term@ == trimmed(query@)
                &&& endpoint_for(*store, base) == Ok::<_, Failure>(target.url@)
            },
            Err(e) => if 1 <= trimmed(query@).len() <= 120 {
                endpoint_for(*store, base) == Err::<Seq<char>, _>(e@)
            } else {
                e@ == unusable_search()
            },
        },
{
    let term = match normalize_search_query(query) {
        Ok(term) => term,
        Err(e) => {
            return Err(e);
        },
    };
    match endpoint(store, base) {
        Ok(url) => Ok(SearchTarget { url, term: term.to_owned() }),
        Err(e) => Err(e),
    }
}

/// What a quoted text says up to its closing quote, and what follows that quote: a backslash takes
/// the next character as it is. Nothing where the text is not closed.
pub open spec fn read_quoted(text: Seq<char>) -> Option<(Seq<char>, Seq<char>)>
    decreases text.len(),
{
    if text.len() == 0 {
        None
    } else if text[0] == '"' {
        Some((Seq::empty(), text.skip(1)))
    } else if text[0] == '\\' {
        if text.len() == 1 {
            None
        } else {
            match read_quoted(text.skip(2)) {
                Some((said, rest)) => Some((seq![text[1]] + said, rest)),
                None => None,
            }
        }
    } else {
        match read_quoted(text.skip(1)) {
            Some((said, rest)) => Some((seq![text[0]] + said, rest)),
            None => None,
        }
    }
}

proof fn escaping_goes_by_character(term: Seq<char>)
    requires
        term.len() > 0,
    ensures
        escaped_term(term) == (if term[0] == '\\' {
            seq!['\\', '\\']
        } else if term[0] == '"' {
            seq!['\\', '"']
        } else {
            seq![term[0]]
        }) + escaped_term(term.skip(1)),
{
    reveal_strlit("\\\\");
    reveal_strlit("\\\"");
    let slash = seq!['\\'];
    let quote = seq!['"'];
    let slashes = "\\\\"@;
    let quoted = "\\\""@;
    assert(slashes == seq!['\\', '\\']);
    assert(quoted == seq!['\\', '"']);
    let first = seq![term[0]];
    let rest = term.skip(1);
    assert(term == first + rest);
    replacing_a_character_distributes(first, rest, '\\', slashes);
    replacing_in_one_character(term[0], '\\', slashes);
    let a = replaced(first, slash, slashes);
    let b = replaced(rest, slash, slashes);
    replacing_a_character_distributes(a, b, '"', quoted);
    if term[0] == '\\' {
        assert(a == seq!['\\'] + seq!['\\']);
        replacing_a_character_distributes(seq!['\\'], seq!['\\'], '"', quoted);
        replacing_in_one_character('\\', '"', quoted);
        assert(seq!['\\'] + seq!['\\'] == seq!['\\', '\\']);
    } else {
        replacing_in_one_character(term[0], '"', quoted);
    }
}

/// An escaped term in quotes says the term, and ends at the quote that closes it, whatever follows:
/// no term can reach beyond its quotes.
pub proof fn quoted_terms_read_back(term: Seq<char>, rest: Seq<char>)
    ensures
        read_quoted(escaped_term(term) + seq!['"'] + rest) == Some((term, rest)),
    decreases term.len(),
{
    let whole = escaped_term(term) + seq!['"'] + rest;
    if term.len() == 0 {
        assert(escaped_term(term) == term);
        assert(whole == seq!['"'] + rest);
        assert(whole.skip(1) == rest);
        assert(term == Seq::<char>::empty());
    } else {
        let tail = escaped_term(term.skip(1)) + seq!['"'] + rest;
        escaping_goes_by_character(term);
        quoted_terms_read_back(term.skip(1), rest);
        assert(term == seq![term[0]] + term.skip(1));
        if term[0] == '\\' || term[0] == '"' {
            assert(whole == seq!['\\', term[0]] + tail);
            assert(whole.skip(2) == tail);
        } else {
            assert(whole == seq![term[0]] + tail);
            assert(whole.skip(1) == tail);
        }
    }
}

proof fn lacking_is_filtering(required: Seq<Seq<char>>, granted: Seq<Seq<char>>)
    ensures
        lacking(required, granted) == required.filter(|scope: Seq<char>| !granted.contains(scope)),
    decreases required.len(),
{
    reveal(Seq::filter);
    if required.len() > 0 {
        lacking_is_filtering(required.drop_last(), granted);
    }
}

/// The scopes that a shop is reported to lack are those of the four needed ones that are not among
/// the granted handles, in the order in which they are needed.
pub proof fn lacking_scopes_are_those_not_granted(scopes: Seq<Scope>)
    ensures
        lacking(required_scopes(), granted_scopes(scopes)) == seq![
            "read_products"@,
            "read_customers"@,
            "read_orders"@,
            "write_orders"@,
        ].filter(
            |needed: Seq<char>| !scopes.map_values(|scope: Scope| scope.handle@).contains(needed),
        ),
{
    let granted = scopes.map_values(|scope: Scope| scope.handle@);
    lacking_is_filtering(required_scopes(), granted);
    assert(granted_scopes(scopes) =~= granted);
}

/// A needed scope is reported as lacking just where no granted one has its handle.
pub proof fn a_scope_lacks_unless_it_is_granted(
    required: Seq<Seq<char>>,
    scopes: Seq<Scope>,
    needed: Seq<char>,
)
    requires
        required.contains(needed),
    ensures
        lacking(required, granted_scopes(scopes)).contains(needed) <==> forall|i: int|
            0 <= i < scopes.len() ==> (#[trigger] scopes[i]).handle@ != needed,
{
    let granted = granted_scopes(scopes);
    lacking_is_filtering(required, granted);
    let lacks = |scope: Seq<char>| !granted.contains(scope);
    let at = choose|at: int| 0 <= at < required.len() && required[at] == needed;
    let left = required.filter(lacks);
    if lacks(needed) {
        required.lemma_filter_contains(lacks, at);
    } else if left.contains(needed) {
        let k = choose|k: int| 0 <= k < left.len() && left[k] == needed;
        required.lemma_filter_pred(lacks, k);
    }
    if granted.contains(needed) {
        let i = choose|i: int| 0 <= i < granted.len() && granted[i] == needed;
        assert(scopes[i].handle@ == needed);
    } else {
        assert forall|i: int| 0 <= i < scopes.len() implies (#[trigger] scopes[i]).handle@
            != needed by {
            assert(granted[i] == scopes[i].handle@);
        }
    }
}

/// A variant that was found is shown as the answer has it, each value under its own name, with the
/// currency of the shop.
pub proof fn variants_are_shown_as_found(node: VariantNode, currency_code: String)
    ensures
        variant_of(node, currency_code).id == node.id,
        variant_of(node, currency_code).product_title == node.product.title,
        variant_of(node, currency_code).variant_title == node.title,
        variant_of(node, currency_code).sku == node.sku,
        variant_of(node, currency_code).price == node.price,
        variant_of(node, currency_code).currency_code == currency_code,
        variant_of(node, currency_code).inventory_quantity == node.inventory_quantity,
{
}

/// A customer that was found is shown as the answer has it, each value under its own name.
pub proof fn customers_are_shown_as_found(node: CustomerNode)
    ensures
        customer_of(node).id == node.id,
        customer_of(node).display_name == node.display_name,
        node.default_email_address is None <==> customer_of(node).email is None,
        node.default_email_address matches Some(email) ==> customer_of(node).email == Some(
            email.email_address,
        ),
        node.default_phone_number is None <==> customer_of(node).phone is None,
        node.default_phone_number matches Some(phone) ==> customer_of(node).phone == Some(
            phone.phone_number,
        ),
        node.default_address is None <==> customer_of(node).default_address is None,
        node.default_address matches Some(address) ==> {
            let shown = customer_of(node).default_address->0;
            &&& shown.first_name == address.first_name
            &&& shown.last_name == address.last_name
            &&& shown.company == address.company
            &&& shown.address1 == address.address1
            &&& shown.address2 == address.address2
            &&& shown.city == address.city
            &&& shown.province_code == address.province_code
            &&& shown.country_code == address.country_code_v2
            &&& shown.zip == address.zip
        },
{
}

/// An address that was found is shown as the answer has it, each part under its own name.
pub proof fn addresses_are_shown_as_found(node: CustomerAddressNode)
    ensures
        address_of(node).first_name == node.first_name,
        address_of(node).last_name == node.last_name,
        address_of(node).company == node.company,
        address_of(node).address1 == node.address1,
        address_of(node).address2 == node.address2,
        address_of(node).city == node.city,
        address_of(node).province_code == node.province_code,
        address_of(node).country_code == node.country_code_v2,
        address_of(node).zip == node.zip,
{
}

/// A search for variants asks for the term as text, or as the SKU: each time the whole term stands
/// in quotes that it cannot leave.
pub proof fn variant_searches_ask_for_text_or_sku(term: Seq<char>)
    ensures
        ({
            let search = variant_search(term);
            let first = read_quoted(search.skip(1));
            let behind = " OR sku:"@;
            &&& search[0] == '"'
            &&& first matches Some((said, rest)) && said == term && occurs_at(rest, behind, 0)
                && rest[behind.len() as int] == '"' && read_quoted(rest.skip(behind.len() as int + 1))
                == Some((term, Seq::<char>::empty()))
        }),
{
    reveal_strlit("\"");
    reveal_strlit("\" OR sku:\"");
    reveal_strlit(" OR sku:");
    let e = escaped_term(term);
    let quote = seq!['"'];
    let nothing = Seq::<char>::empty();
    assert("\""@ =~= quote);
    assert("\" OR sku:\""@ =~= quote + " OR sku:"@ + quote);
    let rest = " OR sku:"@ + quote + e + quote;
    let search = variant_search(term);
    assert(search.skip(1) =~= e + quote + rest);
    quoted_terms_read_back(term, rest);
    assert(rest.subrange(0, " OR sku:"@.len() as int) =~= " OR sku:"@);
    assert(rest.skip(" OR sku:"@.len() as int + 1) =~= e + quote + nothing);
    quoted_terms_read_back(term, nothing);
}

/// A search for customers asks for the whole term in quotes that it cannot leave, and for nothing
/// else.
pub proof fn customer_searches_ask_for_the_text(term: Seq<char>)
    ensures
        customer_search(term)[0] == '"',
        read_quoted(customer_search(term).skip(1)) == Some((term, Seq::<char>::empty())),
{
    reveal_strlit("\"");
    let nothing = Seq::<char>::empty();
    assert("\""@ =~= seq!['"']);
    assert(customer_search(term).skip(1) =~= escaped_term(term) + seq!['"'] + nothing);
    quoted_terms_read_back(term, nothing);
}

/// A search for an order asks for the whole source identifier in quotes, and for nothing else.
pub proof fn source_searches_ask_for_the_source(source: Seq<char>)
    ensures
        ({
            let search = source_search(source);
            let field = "source_identifier:"@;
            &&& occurs_at(search, field, 0)
            &&& search[field.len() as int] == '"'
            &&& read_quoted(search.skip(field.len() as int + 1)) == Some((source, Seq::<char>::empty()))
        }),
{
    reveal_strlit("\"");
    reveal_strlit("source_identifier:");
    reveal_strlit("source_identifier:\"");
    let nothing = Seq::<char>::empty();
    let field = "source_identifier:"@;
    let search = source_search(source);
    assert("\""@ =~= seq!['"']);
    assert("source_identifier:\""@ =~= field + seq!['"']);
    assert(search.subrange(0, field.len() as int) =~= field);
    assert(search.skip(field.len() as int + 1) =~= escaped_term(source) + seq!['"'] + nothing);
    quoted_terms_read_back(source, nothing);
}

} // verus!
