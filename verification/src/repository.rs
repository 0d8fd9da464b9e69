//! Store profiles: what is stored of them, and how they are searched.
use vstd::prelude::*;
use vstd::string::*;

use crate::domain::{invalid_shop_domain, is_shop_host, normalize_shop_domain, shop_host, SHOP_SUFFIX};
use crate::error::{lasting, AppError, Failure};
use crate::identifier::{is_uuid_text, new_uuid};
use crate::outside::current_timestamp;
use crate::text::{
    replace, replaced, replacing_a_character_distributes, replacing_in_one_character, trim, trimmed,
};

verus! {

/// A store as the user enters it. It is not printed: the token stays inside.
pub struct NewStore {
    pub display_name: String,
    pub shop_domain: String,
    pub access_token: String,
}

/// What the user changes of a store. Without a token the stored one stays.
pub struct UpdateStore {
    pub display_name: String,
    pub shop_domain: String,
    pub access_token: Option<String>,
}

/// What a request to a shop needs. It is not printed: the token stays inside.
pub struct StoreCredentials {
    pub shop_domain: String,
    pub access_token: String,
}

impl Clone for StoreCredentials {
    fn clone(&self) -> (r: Self)
        ensures
            r == *self,
    {
        StoreCredentials {
            shop_domain: self.shop_domain.clone(),
            access_token: self.access_token.clone(),
        }
    }
}

/// A store as it is shown, without its token.
#[derive(Debug, Clone, PartialEq, Eq)]
pub struct StoreSummary {
    pub id: String,
    pub display_name: String,
    pub shop_domain: String,
    pub last_connection_status: Option<String>,
    pub last_connection_message: Option<String>,
    pub created_at: String,
    pub updated_at: String,
}

/// A batch as it is listed.
#[derive(Debug, Clone, PartialEq, Eq)]
pub struct BatchSummary {
    pub id: String,
    pub store_id: Option<String>,
    pub requested_count: i64,
    pub status: String,
    pub created_at: String,
    pub started_at: Option<String>,
    pub finished_at: Option<String>,
}

/// A store as it is stored for the first time.
pub struct StoreRow {
    pub id: String,
    pub display_name: String,
    pub shop_domain: String,
    pub access_token: String,
    pub created_at: String,
    pub updated_at: String,
}

/// What is stored anew of a store. Without a token the stored one stays.
pub struct StoreChange {
    pub display_name: String,
    pub shop_domain: String,
    pub access_token: Option<String>,
    pub updated_at: String,
}

/// Whether `domain` is the full domain of the shop that `raw` names.
pub open spec fn is_domain_of(domain: Seq<char>, raw: Seq<char>) -> bool {
    is_shop_host(shop_host(raw)) && domain == shop_host(raw) + SHOP_SUFFIX@
}

/// What is stored of a new store with the identifier `id` at the time `now`.
pub fn store_row(input: NewStore, id: String, now: &str) -> (r: Result<StoreRow, AppError>)
    ensures
        match r {
            Ok(row) => {
                &&& is_domain_of(row.shop_domain@, input.shop_domain@)
                &&& row.id == id
                &&& row.display_name == input.display_name
                &&& row.access_token == input.access_token
                &&& row.created_at@ == now@
                &&& row.updated_at@ == now@
            },
            Err(e) => !is_shop_host(shop_host(input.shop_domain@)) && e@ == invalid_shop_domain(),
        },
{
    match normalize_shop_domain(input.shop_domain.as_str()) {
        Ok(shop_domain) => Ok(
            StoreRow {
                id,
                display_name: input.display_name,
                shop_domain,
                access_token: input.access_token,
                created_at: now.to_owned(),
                updated_at: now.to_owned(),
            },
        ),
        Err(e) => Err(e),
    }
}

/// What is stored of a new store, with a fresh identifier and the time of the machine.
pub fn new_store_row(input: NewStore) -> (r: Result<StoreRow, AppError>)
    ensures
        match r {
            Ok(row) => {
                &&& is_domain_of(row.shop_domain@, input.shop_domain@)
                &&& is_uuid_text(row.id@)
                &&& row.display_name == input.display_name
                &&& row.access_token == input.access_token
                &&& row.created_at@ == row.updated_at@
            },
            Err(e) => !is_shop_host(shop_host(input.shop_domain@)) && e@ == invalid_shop_domain(),
        },
{
    let id = new_uuid();
    let now = current_timestamp();
    store_row(input, id, now.as_str())
}

/// What is stored anew of a store at the time `now`.
pub fn store_change(input: UpdateStore, now: &str) -> (r: Result<StoreChange, AppError>)
    ensures
        match r {
            Ok(change) => {
                &&& is_domain_of(change.shop_domain@, input.shop_domain@)
                &&& change.display_name == input.display_name
                &&& change.access_token == input.access_token
                &&& change.updated_at@ == now@
            },
            Err(e) => !is_shop_host(shop_host(input.shop_domain@)) && e@ == invalid_shop_domain(),
        },
{
    match normalize_shop_domain(input.shop_domain.as_str()) {
        Ok(shop_domain) => Ok(
            StoreChange {
                display_name: input.display_name,
                shop_domain,
                access_token: input.access_token,
                updated_at: now.to_owned(),
            },
        ),
        Err(e) => Err(e),
    }
}

/// What is stored anew of a store by the time of the machine.
pub fn new_store_change(input: UpdateStore) -> (r: Result<StoreChange, AppError>)
    ensures
        match r {
            Ok(change) => {
                &&& is_domain_of(change.shop_domain@, input.shop_domain@)
                &&& change.display_name == input.display_name
                &&& change.access_token == input.access_token
            },
            Err(e) => !is_shop_host(shop_host(input.shop_domain@)) && e@ == invalid_shop_domain(),
        },
{
    let now = current_timestamp();
    store_change(input, now.as_str())
}

/// `value` with backslashes in front of its backslashes, percent signs and underscores.
pub open spec fn escaped_like(value: Seq<char>) -> Seq<char> {
    replaced(
        replaced(replaced(value, seq!['\\'], "\\\\"@), seq!['%'], "\\%"@),
        seq!['_'],
        "\\_"@,
    )
}

/// `value` with backslashes in front of its backslashes, percent signs and underscores.
pub fn escape_like(value: &str) -> (r: String)
    ensures
        r@ == escaped_like(value@),
{
    proof {
        reveal_strlit("\\");
        reveal_strlit("%");
        reveal_strlit("_");
    }
    assert("\\"@ =~= seq!['\\']);
    assert("%"@ =~= seq!['%']);
    assert("_"@ =~= seq!['_']);
    let slashes = replace(value, "\\", "\\\\");
    let percents = replace(slashes.as_str(), "%", "\\%");
    replace(percents.as_str(), "_", "\\_")
}

/// The `LIKE` pattern for stores that a search for `query` finds.
pub open spec fn like_pattern(query: Seq<char>) -> Seq<char> {
    "%"@ + escaped_like(trimmed(query)) + "%"@
}

/// The `LIKE` pattern, with `\\` as its escape character, for stores that a search for `query`
/// finds.
pub fn search_pattern(query: &str) -> (r: String)
    ensures
        r@ == like_pattern(query@),
{
    let escaped = escape_like(trim(query));
    "%".to_owned().concat(escaped.as_str()).concat("%")
}

/// One part of a `LIKE` pattern.
pub enum LikePart {
    /// Any text.
    Any,
    /// Any one character.
    One,
    /// The character itself.
    Itself(char),
}

/// The character `c` itself.
pub open spec fn itself(c: char) -> LikePart {
    LikePart::Itself(c)
}

/// The parts of a `LIKE` pattern with `\\` as its escape character.
pub open spec fn like_parts(pattern: Seq<char>) -> Seq<LikePart>
    decreases pattern.len(),
{
    if pattern.len() == 0 {
        Seq::empty()
    } else if pattern[0] == '\\' && pattern.len() > 1 {
        seq![itself(pattern[1])] + like_parts(pattern.skip(2))
    } else if pattern[0] == '%' {
        seq![LikePart::Any] + like_parts(pattern.skip(1))
    } else if pattern[0] == '_' {
        seq![LikePart::One] + like_parts(pattern.skip(1))
    } else {
        seq![itself(pattern[0])] + like_parts(pattern.skip(1))
    }
}

/// The characters of a text, each as itself.
pub open spec fn literally(text: Seq<char>) -> Seq<LikePart> {
    text.map_values(|c: char| itself(c))
}

proof fn like_escaping_goes_by_character(value: Seq<char>)
    requires
        value.len() > 0,
    ensures
        escaped_like(value) == (if value[0] == '\\' || value[0] == '%' || value[0] == '_' {
            seq!['\\', value[0]]
        } else {
            seq![value[0]]
        }) + escaped_like(value.skip(1)),
{
    reveal_strlit("\\\\");
    reveal_strlit("\\%");
    reveal_strlit("\\_");
    let slashes = "\\\\"@;
    let percent = "\\%"@;
    let underscore = "\\_"@;
    assert(slashes == seq!['\\', '\\']);
    assert(percent == seq!['\\', '%']);
    assert(underscore == seq!['\\', '_']);
    let c = value[0];
    let rest = value.skip(1);
    assert(value == seq![c] + rest);
    let a = replaced(seq![c], seq!['\\'], slashes);
    let b = replaced(rest, seq!['\\'], slashes);
    replacing_a_character_distributes(seq![c], rest, '\\', slashes);
    replacing_in_one_character(c, '\\', slashes);
    let d = replaced(a, seq!['%'], percent);
    let e = replaced(b, seq!['%'], percent);
    replacing_a_character_distributes(a, b, '%', percent);
    replacing_a_character_distributes(d, e, '_', underscore);
    if c == '\\' {
        assert(a == seq!['\\'] + seq!['\\']);
        replacing_a_character_distributes(seq!['\\'], seq!['\\'], '%', percent);
        replacing_in_one_character('\\', '%', percent);
        replacing_a_character_distributes(seq!['\\'], seq!['\\'], '_', underscore);
        replacing_in_one_character('\\', '_', underscore);
    } else {
        replacing_in_one_character(c, '%', percent);
        if c == '%' {
            assert(d == seq!['\\'] + seq!['%']);
            replacing_a_character_distributes(seq!['\\'], seq!['%'], '_', underscore);
            replacing_in_one_character('\\', '_', underscore);
            replacing_in_one_character('%', '_', underscore);
        } else {
            replacing_in_one_character(c, '_', underscore);
        }
    }
}

proof fn escaped_text_is_literal(value: Seq<char>, rest: Seq<char>)
    ensures
        like_parts(escaped_like(value) + rest) == literally(value) + like_parts(rest),
    decreases value.len(),
{
    if value.len() == 0 {
        assert(escaped_like(value) + rest == rest);
        assert(literally(value) + like_parts(rest) == like_parts(rest));
    } else {
        like_escaping_goes_by_character(value);
        escaped_text_is_literal(value.skip(1), rest);
        let tail = escaped_like(value.skip(1)) + rest;
        let whole = escaped_like(value) + rest;
        if value[0] == '\\' || value[0] == '%' || value[0] == '_' {
            assert(whole == seq!['\\', value[0]] + tail);
            assert(whole.skip(2) == tail);
        } else {
            assert(whole == seq![value[0]] + tail);
            assert(whole.skip(1) == tail);
        }
        assert(literally(value) == seq![itself(value[0])] + literally(value.skip(1)));
        assert(seq![itself(value[0])] + (literally(value.skip(1)) + like_parts(rest))
            == literally(value) + like_parts(rest));
    }
}

/// A search takes what the user typed literally: the pattern is any text, then the characters
/// themselves, then any text.
pub proof fn searches_are_literal(query: Seq<char>)
    ensures
        like_parts(like_pattern(query)) == seq![LikePart::Any] + literally(trimmed(query)) + seq![
            LikePart::Any,
        ],
{
    reveal_strlit("%");
    let text = trimmed(query);
    assert("%"@ == seq!['%']);
    escaped_text_is_literal(text, "%"@);
    assert(like_pattern(query) == seq!['%'] + (escaped_like(text) + "%"@));
    assert(like_pattern(query).skip(1) == escaped_like(text) + "%"@);
    assert("%"@.skip(1) == Seq::<char>::empty());
    assert(like_parts("%"@) == seq![LikePart::Any]) by {
        reveal_with_fuel(like_parts, 2);
        assert(seq![LikePart::Any] + Seq::<LikePart>::empty() == seq![LikePart::Any]);
    }
    assert(seq![LikePart::Any] + (literally(text) + seq![LikePart::Any]) == seq![LikePart::Any]
        + literally(text) + seq![LikePart::Any]);
}

/// The failure for an operation on the database that failed.
pub open spec fn storage_failure() -> Failure {
    lasting("DATABASE_ERROR"@, "本地数据库操作失败"@)
}

/// The error for an operation on the database that failed. It says nothing of the cause.
pub fn database_error() -> (r: AppError)
    ensures
        r@ == storage_failure(),
{
    AppError::validation("DATABASE_ERROR", "本地数据库操作失败")
}

/// The failure for a store that does not exist.
pub open spec fn missing_store() -> Failure {
    lasting("STORE_NOT_FOUND"@, "未找到店铺"@)
}

/// The error for a store that does not exist.
pub fn store_not_found() -> (r: AppError)
    ensures
        r@ == missing_store(),
{
    AppError::validation("STORE_NOT_FOUND", "未找到店铺")
}

/// Whether the store was there, by how many rows the change of one store changed.
pub fn require_changed(rows: u64) -> (r: Result<(), AppError>)
    ensures
        match r {
            Ok(_) => rows > 0,
            Err(e) => rows == 0 && e@ == missing_store(),
        },
{
    if rows == 0 {
        Err(store_not_found())
    } else {
        Ok(())
    }
}

/// The domain that is stored of a store is the name of its shop with the domain of Shopify behind it,
/// so that two spellings of a shop are stored alike.
pub proof fn stores_are_kept_under_their_full_domain(
    domain: Seq<char>,
    raw: Seq<char>,
    other: Seq<char>,
    spelling: Seq<char>,
)
    requires
        is_domain_of(domain, raw),
        is_domain_of(other, spelling),
    ensures
        domain == shop_host(raw) + ".myshopify.com"@,
        is_shop_host(shop_host(raw)),
        shop_host(raw) == shop_host(spelling) ==> domain == other,
{
}

} // verus!
