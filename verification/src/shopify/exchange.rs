//! One request to a shop: where it goes, when it is sent again, and what its answer means.
use vstd::prelude::*;
use vstd::string::*;

use crate::domain::{
    invalid_shop_domain, is_shop_host, normalize_shop_domain, shop_host, SHOP_SUFFIX,
};
use crate::error::{lasting, passing, AppError, Failure};
use crate::json::{as_text, get, member, nested, nested_text, text_member, Json, Tree};
use crate::outside::{
    current_moment, fits_header, is_header_char, join_url, joined_url, parse_rfc2822, parse_url,
    parsed_url, rfc2822_moment,
};
use crate::repository::StoreCredentials;
use crate::shopify::graphql::{invalid_response, unusable_answer};
use crate::text::{
    ascii_lower, contains, contents, decimal, decimal_reads_back, is_blank, is_digit, join, joined,
    lower_characters, numbers_are_read_as_they_are_written, occurs, occurs_at,
    parts_occur_when_joined, read_unsigned, same_text, trim, trimmed,
    trimming_leaves_what_stands_between, unsigned_value,
};

verus! {

/// Where the GraphQL endpoint of a shop is.
pub const GRAPHQL_PATH: &'static str = "/admin/api/2026-07/graphql.json";

/// How many seconds one request may take.
pub const REQUEST_TIMEOUT: u64 = 30;

/// How often a request is sent at most.
pub const MAX_ATTEMPTS: u32 = 3;

/// Nanoseconds in a second.
pub const SECOND: u128 = 1_000_000_000;

/// What stands in each value.
pub open spec fn trees(values: Seq<Json>) -> Seq<Tree> {
    values.map_values(|value: Json| value@)
}

/// The code that Shopify gives to a GraphQL error.
pub open spec fn error_code(error: Tree) -> Option<Seq<char>> {
    as_text(nested(error, "extensions"@, "code"@))
}

/// The text, or none.
pub open spec fn or_empty(text: Option<Seq<char>>) -> Seq<char> {
    match text {
        Some(t) => t,
        None => Seq::empty(),
    }
}

/// Whether an answer with `status` leaves room to send the request again. A mutation is sent again
/// only where the shop has said that it did not take it up.
pub open spec fn is_retryable_http(status: u16, mutation: bool) -> bool {
    status == 429 || (!mutation && 500 <= status <= 599)
}

/// Whether an answer with `status` leaves room to send the request again.
pub fn retryable_http(status: u16, mutation: bool) -> (r: bool)
    ensures
        r == is_retryable_http(status, mutation),
{
    status == 429 || (!mutation && 500 <= status && status <= 599)
}

/// Whether the answer says that nothing was executed: no data, and nothing but throttling errors.
pub open spec fn is_throttled(data: Option<Tree>, errors: Seq<Tree>) -> bool {
    &&& data is None
    &&& errors.len() > 0
    &&& forall|i: int|
        0 <= i < errors.len() ==> error_code(#[trigger] errors[i]) == Some("THROTTLED"@)
}

/// What stands in a value that may be absent.
pub open spec fn optional_tree(value: Option<Json>) -> Option<Tree> {
    match value {
        Some(v) => Some(v@),
        None => None,
    }
}

/// Whether `error` has the code `code`.
fn has_code(error: &Json, code: &str) -> (r: bool)
    ensures
        r == (error_code(error@) == Some(code@)),
{
    match nested_text(error, "extensions", "code") {
        Some(found) => same_text(found, code),
        None => false,
    }
}

/// Whether the answer says that nothing was executed.
pub fn is_pre_execution_throttle(data: &Option<Json>, errors: &Vec<Json>) -> (r: bool)
    ensures
        r == is_throttled(optional_tree(*data), trees(errors@)),
{
    if data.is_some() || errors.len() == 0 {
        return false;
    }
    let ghost all = trees(errors@);
    let mut i: usize = 0;
    while i < errors.len()
        invariant
            i <= errors.len(),
            all == trees(errors@),
            forall|k: int| 0 <= k < i ==> error_code(#[trigger] all[k]) == Some("THROTTLED"@),
        decreases errors.len() - i,
    {
        if !has_code(&errors[i], "THROTTLED") {
            assert(error_code(all[i as int]) != Some("THROTTLED"@));
            return false;
        }
        i = i + 1;
    }
    true
}

/// The failure of a request that got no answer.
pub open spec fn network_failure(timed_out: bool) -> Failure {
    if timed_out {
        lasting("SHOPIFY_TIMEOUT"@, "Shopify 请求超时，请核对远端结果"@)
    } else {
        lasting("SHOPIFY_NETWORK"@, "Shopify 网络请求失败，请核对远端结果"@)
    }
}

/// The error of a request that got no answer.
pub fn network_error(timed_out: bool) -> (r: AppError)
    ensures
        r@ == network_failure(timed_out),
{
    if timed_out {
        AppError::validation("SHOPIFY_TIMEOUT", "Shopify 请求超时，请核对远端结果")
    } else {
        AppError::validation("SHOPIFY_NETWORK", "Shopify 网络请求失败，请核对远端结果")
    }
}

/// The failure that an HTTP status stands for.
pub open spec fn http_failure(status: u16) -> Failure {
    if status == 401 {
        lasting("SHOPIFY_UNAUTHORIZED"@, "Shopify 访问令牌无效或已失效"@)
    } else if status == 403 {
        lasting("SHOPIFY_FORBIDDEN"@, "Shopify 拒绝访问，请检查访问令牌和所需权限"@)
    } else if status == 429 {
        passing("SHOPIFY_RATE_LIMITED"@, "Shopify 请求受限，请稍后重试"@)
    } else if 500 <= status <= 599 {
        passing("SHOPIFY_SERVER_ERROR"@, "Shopify 服务暂时不可用，请稍后重试"@)
    } else {
        lasting("SHOPIFY_HTTP"@, "Shopify HTTP 请求失败"@)
    }
}

/// The error that an HTTP status stands for.
pub fn http_error(status: u16) -> (r: AppError)
    ensures
        r@ == http_failure(status),
{
    if status == 401 {
        AppError::validation("SHOPIFY_UNAUTHORIZED", "Shopify 访问令牌无效或已失效")
    } else if status == 403 {
        AppError::validation("SHOPIFY_FORBIDDEN", "Shopify 拒绝访问，请检查访问令牌和所需权限")
    } else if status == 429 {
        AppError::transient("SHOPIFY_RATE_LIMITED", "Shopify 请求受限，请稍后重试")
    } else if 500 <= status && status <= 599 {
        AppError::transient("SHOPIFY_SERVER_ERROR", "Shopify 服务暂时不可用，请稍后重试")
    } else {
        AppError::validation("SHOPIFY_HTTP", "Shopify HTTP 请求失败")
    }
}

/// Whether `error` denies access to protected customer data: it names such data in its message or
/// in the documentation that it points to, and it is a denial by its code or its message.
pub open spec fn is_customer_data_denial(error: Tree) -> bool {
    let message = ascii_lower(or_empty(as_text(member(error, "message"@))));
    let documentation = ascii_lower(
        or_empty(as_text(nested(error, "extensions"@, "documentation"@))),
    );
    let names_data = occurs(message, "protected customer data"@) || occurs(
        message,
        "protected-customer-data"@,
    ) || occurs(message, "customer_data"@) || occurs(documentation, "protected-customer-data"@)
        || occurs(documentation, "customer_data"@);
    let denies = error_code(error) == Some("ACCESS_DENIED"@) || occurs(message, "access denied"@)
        || occurs(message, "not approved"@);
    names_data && denies
}

/// Whether `error` denies access to protected customer data.
pub fn is_protected_customer_data_denial(error: &Json) -> (r: bool)
    ensures
        r == is_customer_data_denial(error@),
{
    let message = lower_characters(
        match text_member(error, "message") {
            Some(text) => text,
            None => empty(),
        },
    );
    let documentation = lower_characters(
        match nested_text(error, "extensions", "documentation") {
            Some(text) => text,
            None => empty(),
        },
    );
    let names_data = contains(&message, "protected customer data") || contains(
        &message,
        "protected-customer-data",
    ) || contains(&message, "customer_data") || contains(&documentation, "protected-customer-data")
        || contains(&documentation, "customer_data");
    let denies = has_code(error, "ACCESS_DENIED") || contains(&message, "access denied")
        || contains(&message, "not approved");
    names_data && denies
}

/// The text with nothing in it.
fn empty() -> (r: &'static str)
    ensures
        r@ == Seq::<char>::empty(),
{
    proof {
        reveal_strlit("");
    }
    assert(""@ =~= Seq::<char>::empty());
    ""
}

/// Whether one of `errors` denies access to protected customer data.
pub open spec fn any_customer_data_denial(errors: Seq<Tree>) -> bool {
    exists|i: int| 0 <= i < errors.len() && is_customer_data_denial(#[trigger] errors[i])
}

/// Whether one of `errors` denies access.
pub open spec fn any_access_denial(errors: Seq<Tree>) -> bool {
    exists|i: int| 0 <= i < errors.len() && error_code(#[trigger] errors[i]) == Some(
        "ACCESS_DENIED"@,
    )
}

/// The codes that Shopify gives to `errors`, in order; an error without one is passed over.
pub open spec fn error_codes(errors: Seq<Tree>) -> Seq<Seq<char>>
    decreases errors.len(),
{
    if errors.len() == 0 {
        Seq::empty()
    } else {
        match error_code(errors.last()) {
            Some(code) => error_codes(errors.drop_last()).push(code),
            None => error_codes(errors.drop_last()),
        }
    }
}

/// `text` with the codes of `errors` behind it in brackets; `text` as it is where none has one.
pub open spec fn with_codes(text: Seq<char>, errors: Seq<Tree>) -> Seq<char> {
    if error_codes(errors).len() == 0 {
        text
    } else {
        text + " ["@ + joined(error_codes(errors), ", "@) + "]"@
    }
}

/// `text` with the codes of `errors` behind it in brackets.
fn coded_text(text: &str, errors: &Vec<Json>) -> (r: String)
    ensures
        r@ == with_codes(text@, trees(errors@)),
{
    let ghost all = trees(errors@);
    let mut codes: Vec<String> = Vec::new();
    let mut i: usize = 0;
    assert(contents(codes@) =~= error_codes(all.take(0)));
    while i < errors.len()
        invariant
            i <= errors.len(),
            all == trees(errors@),
            contents(codes@) == error_codes(all.take(i as int)),
        decreases errors.len() - i,
    {
        assert(all[i as int] == errors@[i as int]@);
        assert(all.take(i + 1).drop_last() == all.take(i as int));
        let ghost before = codes@;
        if let Some(code) = nested_text(&errors[i], "extensions", "code") {
            codes.push(code.to_owned());
            assert(contents(codes@) =~= contents(before).push(code@));
        }
        i = i + 1;
    }
    assert(all.take(i as int) == all);
    let mut out = text.to_owned();
    if codes.len() > 0 {
        out.append(" [");
        out.append(join(&codes, ", ").as_str());
        out.append("]");
    }
    out
}

/// The failure that GraphQL errors stand for.
pub open spec fn graphql_failure(errors: Seq<Tree>) -> Failure {
    if any_customer_data_denial(errors) {
        lasting(
            "CUSTOMER_DATA_RESTRICTED"@,
            with_codes("此应用尚未获准访问 Shopify 受保护的客户数据"@, errors),
        )
    } else if any_access_denial(errors) {
        lasting("SHOPIFY_FORBIDDEN"@, with_codes("Shopify 拒绝访问，请检查所需权限"@, errors))
    } else {
        lasting(
            "SHOPIFY_GRAPHQL"@,
            with_codes("Shopify GraphQL 请求失败，请检查权限和请求参数"@, errors),
        )
    }
}

/// The error that GraphQL errors stand for.
pub fn graphql_error(errors: &Vec<Json>) -> (r: AppError)
    ensures
        r@ == graphql_failure(trees(errors@)),
{
    let ghost all = trees(errors@);
    let mut data_denied: bool = false;
    let mut denied: bool = false;
    let mut i: usize = 0;
    while i < errors.len()
        invariant
            i <= errors.len(),
            all == trees(errors@),
            data_denied == exists|k: int|
                0 <= k < i && is_customer_data_denial(#[trigger] all[k]),
            denied == exists|k: int|
                0 <= k < i && error_code(#[trigger] all[k]) == Some("ACCESS_DENIED"@),
        decreases errors.len() - i,
    {
        assert(all[i as int] == errors@[i as int]@);
        data_denied = data_denied || is_protected_customer_data_denial(&errors[i]);
        denied = denied || has_code(&errors[i], "ACCESS_DENIED");
        i = i + 1;
    }
    if data_denied {
        AppError::validation(
            "CUSTOMER_DATA_RESTRICTED",
            coded_text("此应用尚未获准访问 Shopify 受保护的客户数据", errors).as_str(),
        )
    } else if denied {
        AppError::validation(
            "SHOPIFY_FORBIDDEN",
            coded_text("Shopify 拒绝访问，请检查所需权限", errors).as_str(),
        )
    } else {
        AppError::validation(
            "SHOPIFY_GRAPHQL",
            coded_text("Shopify GraphQL 请求失败，请检查权限和请求参数", errors).as_str(),
        )
    }
}

/// The failure of a request that was throttled to the last: that of rate limiting, with the codes
/// of its errors.
pub open spec fn throttled_failure(errors: Seq<Tree>) -> Failure {
    Failure { message: with_codes(http_failure(429).message, errors), ..http_failure(429) }
}

/// The error of a request that was throttled to the last.
pub fn throttled_error(errors: &Vec<Json>) -> (r: AppError)
    ensures
        r@ == throttled_failure(trees(errors@)),
{
    let error = http_error(429);
    let message = coded_text(error.message(), errors);
    error.with_message(message.as_str())
}

/// Whether `error` says that the request was turned away before anything was executed.
pub open spec fn is_denial(error: Tree) -> bool {
    error_code(error) == Some("ACCESS_DENIED"@) || is_customer_data_denial(error)
}

/// Whether the data of an answer holds the result of the order mutation.
pub open spec fn has_order_result(data: Option<Tree>) -> bool {
    match data {
        Some(value) => match member(value, "orderCreate"@) {
            Some(result) => !(result is Null),
            None => false,
        },
        None => false,
    }
}

/// The failure that an answer with GraphQL errors stands for. An order mutation is turned away for
/// certain only where every error is a denial and no result came with them.
pub open spec fn answer_failure(errors: Seq<Tree>, data: Option<Tree>, mutation: bool) -> Failure {
    if mutation && (has_order_result(data) || exists|i: int|
        0 <= i < errors.len() && !is_denial(#[trigger] errors[i])) {
        lasting(
            "SHOPIFY_GRAPHQL"@,
            with_codes("Shopify 返回了部分创建结果，请核对订单"@, errors),
        )
    } else {
        graphql_failure(errors)
    }
}

/// The error that an answer with GraphQL errors stands for.
pub fn graphql_response_error(errors: &Vec<Json>, data: &Option<Json>, mutation: bool) -> (r:
    AppError)
    ensures
        r@ == answer_failure(trees(errors@), optional_tree(*data), mutation),
{
    if mutation {
        let ghost all = trees(errors@);
        let mut doubtful: bool = match data {
            Some(value) => match get(value, "orderCreate") {
                Some(result) => match result {
                    Json::Null => false,
                    _ => true,
                },
                None => false,
            },
            None => false,
        };
        assert(doubtful == has_order_result(optional_tree(*data)));
        let mut i: usize = 0;
        while i < errors.len()
            invariant
                i <= errors.len(),
                all == trees(errors@),
                doubtful == (has_order_result(optional_tree(*data)) || exists|k: int|
                    0 <= k < i && !is_denial(#[trigger] all[k])),
            decreases errors.len() - i,
        {
            assert(all[i as int] == errors@[i as int]@);
            doubtful = doubtful || !(has_code(&errors[i], "ACCESS_DENIED")
                || is_protected_customer_data_denial(&errors[i]));
            i = i + 1;
        }
        if doubtful {
            return AppError::validation(
                "SHOPIFY_GRAPHQL",
                coded_text("Shopify 返回了部分创建结果，请核对订单", errors).as_str(),
            );
        }
    }
    graphql_error(errors)
}

/// The code of each GraphQL error stands in the message of the failure that the errors end in,
/// whether the request was refused, executed in part, or throttled to the last.
pub proof fn failures_keep_the_codes(
    errors: Seq<Tree>,
    data: Option<Tree>,
    mutation: bool,
    i: int,
    code: Seq<char>,
)
    requires
        0 <= i < errors.len(),
        error_code(errors[i]) == Some(code),
    ensures
        occurs(graphql_failure(errors).message, code),
        occurs(answer_failure(errors, data, mutation).message, code),
        occurs(throttled_failure(errors).message, code),
{
    codes_are_named("此应用尚未获准访问 Shopify 受保护的客户数据"@, errors, i, code);
    codes_are_named("Shopify 拒绝访问，请检查所需权限"@, errors, i, code);
    codes_are_named("Shopify GraphQL 请求失败，请检查权限和请求参数"@, errors, i, code);
    codes_are_named("Shopify 返回了部分创建结果，请核对订单"@, errors, i, code);
    codes_are_named(http_failure(429).message, errors, i, code);
}

proof fn codes_are_named(text: Seq<char>, errors: Seq<Tree>, i: int, code: Seq<char>)
    requires
        0 <= i < errors.len(),
        error_code(errors[i]) == Some(code),
    ensures
        occurs(with_codes(text, errors), code),
{
    codes_are_collected(errors, i, code);
    let codes = error_codes(errors);
    let k = choose|k: int| 0 <= k < codes.len() && codes[k] == code;
    parts_occur_when_joined(codes, ", "@, k);
    let list = joined(codes, ", "@);
    let p = choose|p: int| occurs_at(list, code, p);
    let at = text.len() + " ["@.len() + p;
    assert(with_codes(text, errors).subrange(at, at + code.len()) == list.subrange(
        p,
        p + code.len(),
    ));
    assert(occurs_at(with_codes(text, errors), code, at));
}

proof fn codes_are_collected(errors: Seq<Tree>, i: int, code: Seq<char>)
    requires
        0 <= i < errors.len(),
        error_code(errors[i]) == Some(code),
    ensures
        error_codes(errors).contains(code),
    decreases errors.len(),
{
    let codes = error_codes(errors);
    if i == errors.len() - 1 {
        assert(codes[codes.len() - 1] == code);
    } else {
        let rest = error_codes(errors.drop_last());
        codes_are_collected(errors.drop_last(), i, code);
        let k = choose|k: int| 0 <= k < rest.len() && rest[k] == code;
        assert(codes[k] == code);
    }
}

/// From `earlier` to `later` in nanoseconds. A moment is the seconds since the Unix epoch and the
/// nanoseconds after them, a second's worth or more of which stand for a leap second; that second
/// counts where the time of day of the other moment lies on its far side.
pub open spec fn nanoseconds_between(earlier: (i64, u32), later: (i64, u32)) -> int {
    let leap: int = if later.0 % 86_400 > earlier.0 % 86_400 && earlier.1 >= SECOND {
        1
    } else if later.0 % 86_400 < earlier.0 % 86_400 && later.1 >= SECOND {
        -1
    } else {
        0
    };
    (later.0 - earlier.0 + leap) * SECOND + (later.1 - earlier.1)
}

/// How long it is from `now` until `date`; none where `date` has passed.
pub fn delay_until(date: (i64, u32), now: (i64, u32)) -> (r: u128)
    ensures
        r == if nanoseconds_between(now, date) > 0 {
            nanoseconds_between(now, date)
        } else {
            0
        },
{
    let date_in_day: i64 = date.0.checked_rem_euclid(86_400).unwrap();
    let now_in_day: i64 = now.0.checked_rem_euclid(86_400).unwrap();
    let leap: i128 = if date_in_day > now_in_day && now.1 as u128 >= SECOND {
        1
    } else if date_in_day < now_in_day && date.1 as u128 >= SECOND {
        -1
    } else {
        0
    };
    let seconds: i128 = date.0 as i128 - now.0 as i128 + leap;
    let gap: i128 = seconds * 1_000_000_000 + (date.1 as i128 - now.1 as i128);
    if gap > 0 {
        gap as u128
    } else {
        0
    }
}

/// The delay that the text of a `Retry-After` header asks for at the moment `now`, in nanoseconds:
/// a number of seconds, or the time until a date.
pub open spec fn asked_delay(value: Seq<char>, now: (i64, u32)) -> Option<int> {
    match unsigned_value(trimmed(value), u64::MAX as nat) {
        Some(seconds) => Some(seconds * SECOND),
        None => match rfc2822_moment(value) {
            Some(date) => Some(
                if nanoseconds_between(now, date) > 0 {
                    nanoseconds_between(now, date)
                } else {
                    0
                },
            ),
            None => None,
        },
    }
}

/// The delay that the text of a `Retry-After` header asks for at the moment `now`.
pub fn delay_asked_at(value: &str, now: (i64, u32)) -> (r: Option<u128>)
    ensures
        match r {
            Some(delay) => asked_delay(value@, now) == Some(delay as int),
            None => asked_delay(value@, now) is None,
        },
{
    match read_unsigned(trim(value)) {
        Some(seconds) => Some(seconds as u128 * SECOND),
        None => match parse_rfc2822(value) {
            Some(date) => Some(delay_until(date, now)),
            None => None,
        },
    }
}

/// The delay that the text of a `Retry-After` header asks for by the clock of the machine.
pub fn retry_after_delay(value: &str) -> (r: Option<u128>)
    ensures
        exists|now: (i64, u32)|
            #![trigger asked_delay(value@, now)]
            match r {
                Some(delay) => asked_delay(value@, now) == Some(delay as int),
                None => asked_delay(value@, now) is None,
            },
{
    let now = current_moment();
    delay_asked_at(value, now)
}

/// The failure for a token that no header can carry.
pub open spec fn unusable_token() -> Failure {
    lasting("SHOPIFY_CREDENTIALS"@, "Shopify 访问令牌无效"@)
}

/// Whether a header can carry `token`.
pub open spec fn is_header_text(token: Seq<char>) -> bool {
    forall|i: int| 0 <= i < token.len() ==> is_header_char(#[trigger] token[i])
}

/// The URL that a request with `token` goes to, where `url` is what the base and the path of the
/// endpoint make.
pub open spec fn endpoint_of(url: Option<Seq<char>>, token: Seq<char>) -> Result<
    Seq<char>,
    Failure,
> {
    match url {
        Some(url) => if is_header_text(token) {
            Ok(url)
        } else {
            Err(unusable_token())
        },
        None => Err(unusable_answer()),
    }
}

/// The URL that a request with `token` goes to.
pub fn checked_endpoint(url: Option<String>, token: &str) -> (r: Result<String, AppError>)
    ensures
        match r {
            Ok(found) => endpoint_of(crate::domain::optional(url), token@) == Ok::<_, Failure>(
                found@,
            ),
            Err(e) => endpoint_of(crate::domain::optional(url), token@) == Err::<Seq<char>, _>(e@),
        },
{
    match url {
        Some(url) => if fits_header(token) {
            Ok(url)
        } else {
            Err(AppError::validation("SHOPIFY_CREDENTIALS", "Shopify 访问令牌无效"))
        },
        None => Err(invalid_response()),
    }
}

/// The URL that the endpoint has at the shop `host`, or at `base` where that is given.
pub open spec fn endpoint_url(host: Seq<char>, base: Option<Seq<char>>) -> Option<Seq<char>> {
    match base {
        Some(base) => joined_url(base, GRAPHQL_PATH@),
        None => match parsed_url("https://"@ + (host + SHOP_SUFFIX@)) {
            Some(base) => joined_url(base, GRAPHQL_PATH@),
            None => None,
        },
    }
}

/// The URL that a request for `store` goes to: the endpoint at its shop, or at `base` where that
/// is given.
pub open spec fn endpoint_for(store: StoreCredentials, base: Option<&str>) -> Result<
    Seq<char>,
    Failure,
> {
    let host = shop_host(store.shop_domain@);
    let given = match base {
        Some(base) => Some(base@),
        None => None,
    };
    if is_shop_host(host) {
        endpoint_of(endpoint_url(host, given), store.access_token@)
    } else {
        Err(invalid_shop_domain())
    }
}

/// The URL that a request for `store` goes to: the endpoint at its shop, or at `base` where that
/// is given.
pub fn endpoint(store: &StoreCredentials, base: Option<&str>) -> (r: Result<String, AppError>)
    ensures
        match r {
            Ok(url) => endpoint_for(*store, base) == Ok::<_, Failure>(url@),
            Err(e) => endpoint_for(*store, base) == Err::<Seq<char>, _>(e@),
        },
{
    let domain = match normalize_shop_domain(store.shop_domain.as_str()) {
        Ok(domain) => domain,
        Err(e) => {
            return Err(e);
        },
    };
    let url = match base {
        Some(base) => join_url(base, GRAPHQL_PATH),
        None => match parse_url("https://".to_owned().concat(domain.as_str()).as_str()) {
            Some(base) => join_url(base.as_str(), GRAPHQL_PATH),
            None => None,
        },
    };
    checked_endpoint(url, store.access_token.as_str())
}

/// The failure for a base address that is no URL.
pub open spec fn unusable_base() -> Failure {
    lasting("SHOPIFY_CONFIG"@, "Shopify 地址配置无效"@)
}

/// The base address that requests go to in place of the shops, where one is configured.
pub fn base_override(base: Option<&str>) -> (r: Result<Option<String>, AppError>)
    ensures
        match base {
            Some(text) => match parsed_url(text@) {
                Some(url) => r matches Ok(Some(found)) && found@ == url,
                None => r matches Err(e) && e@ == unusable_base(),
            },
            None => r matches Ok(None),
        },
{
    match base {
        Some(text) => match parse_url(text) {
            Some(url) => Ok(Some(url)),
            None => Err(AppError::validation("SHOPIFY_CONFIG", "Shopify 地址配置无效")),
        },
        None => Ok(None),
    }
}

/// What each HTTP status is told as. Rate limiting and errors of the shop's servers may pass; no
/// other status does.
pub proof fn statuses_are_told_apart(status: u16)
    ensures
        http_failure(status).retryable <==> status == 429 || 500 <= status <= 599,
        status == 401 <==> http_failure(status).code == "SHOPIFY_UNAUTHORIZED"@,
        status == 403 <==> http_failure(status).code == "SHOPIFY_FORBIDDEN"@,
        status == 429 <==> http_failure(status).code == "SHOPIFY_RATE_LIMITED"@,
        500 <= status <= 599 <==> http_failure(status).code == "SHOPIFY_SERVER_ERROR"@,
        http_failure(status).code == "SHOPIFY_HTTP"@ <==> status != 401 && status != 403 && status
            != 429 && !(500 <= status <= 599),
{
    reveal_strlit("SHOPIFY_UNAUTHORIZED");
    reveal_strlit("SHOPIFY_FORBIDDEN");
    reveal_strlit("SHOPIFY_RATE_LIMITED");
    reveal_strlit("SHOPIFY_SERVER_ERROR");
    reveal_strlit("SHOPIFY_HTTP");
    assert("SHOPIFY_UNAUTHORIZED"@[8] == 'U' && "SHOPIFY_FORBIDDEN"@[8] == 'F'
        && "SHOPIFY_RATE_LIMITED"@[8] == 'R' && "SHOPIFY_SERVER_ERROR"@[8] == 'S'
        && "SHOPIFY_HTTP"@[8] == 'H');
}

/// Rate limiting leaves room to send a request again, and so does an error of the shop's servers
/// unless an order might have been created; nothing else does.
pub proof fn only_passing_statuses_leave_room(status: u16)
    ensures
        is_retryable_http(status, false) <==> http_failure(status).retryable,
        is_retryable_http(status, true) <==> status == 429,
{
}

/// A request without an answer is told by whether it ran out of time, and is not tried again.
pub proof fn missing_answers_are_told_apart(timed_out: bool)
    ensures
        network_failure(timed_out).code == if timed_out {
            "SHOPIFY_TIMEOUT"@
        } else {
            "SHOPIFY_NETWORK"@
        },
        !network_failure(timed_out).retryable,
{
}

/// The code of an error is the text that its extensions hold under that name, where they hold one.
pub proof fn codes_stand_in_the_extensions(error: Tree)
    ensures
        error_code(error) matches Some(code) ==> (member(error, "extensions"@) matches Some(
            extensions,
        ) && member(extensions, "code"@) == Some(Tree::Text(code))),
        error_code(error) is None ==> (member(error, "extensions"@) matches Some(extensions) ==> !(
        member(extensions, "code"@) matches Some(found) && found is Text)),
{
}

/// Nothing was executed just where the answer holds no data and at least one error, and every error
/// says that the request was throttled.
pub proof fn throttled_answers_executed_nothing(data: Option<Tree>, errors: Seq<Tree>)
    ensures
        is_throttled(data, errors) <==> data is None && errors.len() > 0 && forall|i: int|
            0 <= i < errors.len() ==> error_code(#[trigger] errors[i]) == Some("THROTTLED"@),
        is_throttled(Some(Tree::Null), errors) == false,
{
}

/// Access to protected customer data is denied where an error names such data, in its message or in
/// the documentation that it points to, and denies access, by its code or in its message; capitals
/// do not matter.
pub proof fn customer_data_denials_name_the_data_and_deny(error: Tree)
    ensures
        ({
            let message = match member(error, "message"@) {
                Some(Tree::Text(text)) => ascii_lower(text),
                _ => Seq::empty(),
            };
            let documentation = match nested(error, "extensions"@, "documentation"@) {
                Some(Tree::Text(text)) => ascii_lower(text),
                _ => Seq::empty(),
            };
            is_customer_data_denial(error) <==> {
                &&& {
                    ||| occurs(message, "protected customer data"@)
                    ||| occurs(message, "protected-customer-data"@)
                    ||| occurs(message, "customer_data"@)
                    ||| occurs(documentation, "protected-customer-data"@)
                    ||| occurs(documentation, "customer_data"@)
                }
                &&& {
                    ||| error_code(error) == Some("ACCESS_DENIED"@)
                    ||| occurs(message, "access denied"@)
                    ||| occurs(message, "not approved"@)
                }
            }
        }),
{
    let nothing = Seq::<char>::empty();
    assert(ascii_lower(nothing) =~= nothing);
}

/// GraphQL errors are told as denied customer data where one is such a denial, else as a denial where
/// one denies access, else as a failed request; none is tried again.
pub proof fn graphql_errors_are_told_apart(errors: Seq<Tree>, i: int)
    ensures
        ({
            let failure = graphql_failure(errors);
            &&& !failure.retryable
            &&& 0 <= i < errors.len() && is_customer_data_denial(errors[i]) ==> failure.code
                == "CUSTOMER_DATA_RESTRICTED"@
            &&& 0 <= i < errors.len() && error_code(errors[i]) == Some("ACCESS_DENIED"@)
                ==> failure.code == "CUSTOMER_DATA_RESTRICTED"@ || failure.code
                == "SHOPIFY_FORBIDDEN"@
            &&& (forall|k: int|
                0 <= k < errors.len() ==> !is_customer_data_denial(#[trigger] errors[k]))
                ==> failure.code == if exists|k: int|
                0 <= k < errors.len() && error_code(#[trigger] errors[k]) == Some(
                    "ACCESS_DENIED"@,
                ) {
                "SHOPIFY_FORBIDDEN"@
            } else {
                "SHOPIFY_GRAPHQL"@
            }
        }),
{
}

/// Errors that come with the result of a creation, or that are not all denials, leave open what
/// became of the order; any others are told as those of a query are.
pub proof fn answers_to_a_creation_are_certain_only_in_denial(
    errors: Seq<Tree>,
    data: Option<Tree>,
    i: int,
)
    ensures
        answer_failure(errors, data, false) == graphql_failure(errors),
        0 <= i < errors.len() && error_code(errors[i]) != Some("ACCESS_DENIED"@)
            && !is_customer_data_denial(errors[i]) ==> answer_failure(errors, data, true).code
            == "SHOPIFY_GRAPHQL"@,
        data matches Some(value) && (member(value, "orderCreate"@) matches Some(result) && !(result
            is Null)) ==> answer_failure(errors, data, true).code == "SHOPIFY_GRAPHQL"@,
        (forall|k: int|
            0 <= k < errors.len() ==> error_code(#[trigger] errors[k]) == Some("ACCESS_DENIED"@)
                || is_customer_data_denial(errors[k])) && (data matches Some(value) ==> (member(
            value,
            "orderCreate"@,
        ) matches Some(result) ==> result is Null)) ==> answer_failure(errors, data, true)
            == graphql_failure(errors),
        !answer_failure(errors, data, true).retryable,
{
    if 0 <= i < errors.len() && error_code(errors[i]) != Some("ACCESS_DENIED"@)
        && !is_customer_data_denial(errors[i]) {
        assert(!is_denial(errors[i]));
    }
    if forall|k: int|
        0 <= k < errors.len() ==> error_code(#[trigger] errors[k]) == Some("ACCESS_DENIED"@)
            || is_customer_data_denial(errors[k]) {
        assert forall|k: int| 0 <= k < errors.len() implies is_denial(#[trigger] errors[k]) by {}
    }
}

/// The codes that are told are those of the errors, one after the other.
pub proof fn codes_are_told_one_after_the_other(errors: Seq<Tree>, error: Tree, text: Seq<char>)
    ensures
        error_codes(Seq::<Tree>::empty()).len() == 0,
        error_code(error) matches Some(code) ==> error_codes(errors.push(error)) == error_codes(
            errors,
        ).push(code),
        error_code(error) is None ==> error_codes(errors.push(error)) == error_codes(errors),
        error_codes(errors).len() == 0 ==> with_codes(text, errors) == text,
        error_codes(errors).len() > 0 ==> with_codes(text, errors) == text + " ["@ + joined(
            error_codes(errors),
            ", "@,
        ) + "]"@,
{
    assert(errors.push(error).drop_last() == errors);
}

/// Between two moments lie the seconds and the nanoseconds by which they differ, where neither is in
/// a leap second.
pub proof fn moments_differ_by_seconds_and_nanoseconds(earlier: (i64, u32), later: (i64, u32))
    requires
        earlier.1 < 1_000_000_000,
        later.1 < 1_000_000_000,
    ensures
        nanoseconds_between(earlier, later) == (later.0 - earlier.0) * 1_000_000_000 + later.1
            - earlier.1,
        nanoseconds_between(later, earlier) == -nanoseconds_between(earlier, later),
{
}

/// A header that holds a number asks for so many seconds, whatever the time is.
pub proof fn headers_ask_for_seconds(
    before: Seq<char>,
    seconds: nat,
    after: Seq<char>,
    now: (i64, u32),
)
    requires
        is_blank(before),
        is_blank(after),
        seconds <= u64::MAX,
    ensures
        asked_delay(before + decimal(seconds) + after, now) == Some(
            (seconds * 1_000_000_000) as int,
        ),
{
    decimal_reads_back(seconds);
    let digits = decimal(seconds);
    assert(is_digit(digits[0]) && is_digit(digits[digits.len() - 1]));
    trimming_leaves_what_stands_between(before, digits, after);
    numbers_are_read_as_they_are_written(seconds, u64::MAX as nat);
}

/// A header that holds a date asks for the time until then, and for none where it has passed; any
/// other header asks for nothing.
pub proof fn headers_ask_for_the_time_until_a_date(value: Seq<char>, now: (i64, u32))
    requires
        unsigned_value(trimmed(value), u64::MAX as nat) is None,
    ensures
        rfc2822_moment(value) is None <==> asked_delay(value, now) is None,
        rfc2822_moment(value) matches Some(date) ==> {
            let left = nanoseconds_between(now, date);
            &&& asked_delay(value, now) is Some
            &&& left <= 0 ==> asked_delay(value, now)->0 == 0
            &&& left > 0 ==> asked_delay(value, now)->0 == left
        },
{
}

/// A request goes to the endpoint of the pinned version at the shop of the store, or at the base
/// that is configured.
pub proof fn requests_go_to_the_shop_of_the_store(
    store: StoreCredentials,
    base: &str,
    shop: Seq<char>,
    url: Seq<char>,
)
    requires
        is_shop_host(shop_host(store.shop_domain@)),
        forall|i: int|
            0 <= i < store.access_token@.len() ==> is_header_char(#[trigger] store.access_token@[i]),
    ensures
        joined_url(base@, "/admin/api/2026-07/graphql.json"@) == Some(url) ==> endpoint_for(
            store,
            Some(base),
        ) == Ok::<_, Failure>(url),
        parsed_url("https://"@ + (shop_host(store.shop_domain@) + ".myshopify.com"@)) == Some(shop)
            && joined_url(shop, "/admin/api/2026-07/graphql.json"@) == Some(url) ==> endpoint_for(
            store,
            None,
        ) == Ok::<_, Failure>(url),
{
}

/// No request goes out for a store whose domain names no shop, to an address that is no URL, or with
/// a token that no header can carry; in this order it is told why.
pub proof fn requests_that_cannot_go_out_are_refused(store: StoreCredentials, base: Option<&str>)
    ensures
        ({
            let went = endpoint_for(store, base);
            let host = shop_host(store.shop_domain@);
            let url = match base {
                Some(base) => joined_url(base@, "/admin/api/2026-07/graphql.json"@),
                None => match parsed_url("https://"@ + (host + ".myshopify.com"@)) {
                    Some(shop) => joined_url(shop, "/admin/api/2026-07/graphql.json"@),
                    None => None,
                },
            };
            let carried = forall|i: int|
                0 <= i < store.access_token@.len() ==> is_header_char(
                    #[trigger] store.access_token@[i],
                );
            &&& went is Ok <==> is_shop_host(host) && url is Some && carried
            &&& !is_shop_host(host) ==> (went matches Err(failure) && failure.code
                == "INVALID_SHOP_DOMAIN"@)
            &&& is_shop_host(host) && url is None ==> (went matches Err(failure) && failure.code
                == "SHOPIFY_INVALID_RESPONSE"@)
            &&& is_shop_host(host) && url is Some && !carried ==> (went matches Err(failure)
                && failure.code == "SHOPIFY_CREDENTIALS"@)
        }),
{
}

/// A throttled request ends as rate limiting does, and may be tried again.
pub proof fn throttled_requests_end_as_rate_limiting(errors: Seq<Tree>)
    ensures
        throttled_failure(errors).code == "SHOPIFY_RATE_LIMITED"@,
        throttled_failure(errors).retryable,
{
}

/// However a number of seconds is written, with a sign, with zeros in front or with white space around
/// it, it is that number of seconds that is asked for.
pub proof fn written_numbers_ask_for_so_many_seconds(
    value: Seq<char>,
    seconds: nat,
    now: (i64, u32),
)
    requires
        unsigned_value(trimmed(value), u64::MAX as nat) == Some(seconds),
    ensures
        asked_delay(value, now) == Some((seconds * 1_000_000_000) as int),
{
}

/// A leap second counts where the other moment lies on its far side: seen from inside it, a later time
/// of day is a second further off; and it is a second nearer seen from a later time of day.
pub proof fn leap_seconds_count_from_the_far_side(earlier: (i64, u32), later: (i64, u32))
    ensures
        earlier.1 >= 1_000_000_000 && later.0 % 86_400 > earlier.0 % 86_400 ==> nanoseconds_between(
            earlier,
            later,
        ) == (later.0 - earlier.0 + 1) * 1_000_000_000 + later.1 - earlier.1,
        later.1 >= 1_000_000_000 && later.0 % 86_400 < earlier.0 % 86_400 ==> nanoseconds_between(
            earlier,
            later,
        ) == (later.0 - earlier.0 - 1) * 1_000_000_000 + later.1 - earlier.1,
        later.0 % 86_400 == earlier.0 % 86_400 ==> nanoseconds_between(earlier, later) == (later.0
            - earlier.0) * 1_000_000_000 + later.1 - earlier.1,
{
}

/// What the user reads of a status says what it stands for.
pub proof fn statuses_are_worded_as_they_are_meant(status: u16)
    ensures
        http_failure(status).message == if status == 401 {
            "Shopify 访问令牌无效或已失效"@
        } else if status == 403 {
            "Shopify 拒绝访问，请检查访问令牌和所需权限"@
        } else if status == 429 {
            "Shopify 请求受限，请稍后重试"@
        } else if 500 <= status <= 599 {
            "Shopify 服务暂时不可用，请稍后重试"@
        } else {
            "Shopify HTTP 请求失败"@
        },
{
}

/// What the user reads of GraphQL errors begins with words for them, and all that follows is their
/// codes.
pub proof fn graphql_errors_are_worded_as_they_are_meant(errors: Seq<Tree>)
    ensures
        ({
            let failure = graphql_failure(errors);
            let words = if failure.code == "CUSTOMER_DATA_RESTRICTED"@ {
                "此应用尚未获准访问 Shopify 受保护的客户数据"@
            } else if failure.code == "SHOPIFY_FORBIDDEN"@ {
                "Shopify 拒绝访问，请检查所需权限"@
            } else {
                "Shopify GraphQL 请求失败，请检查权限和请求参数"@
            };
            failure.message == with_codes(words, errors)
        }),
{
    reveal_strlit("CUSTOMER_DATA_RESTRICTED");
    reveal_strlit("SHOPIFY_FORBIDDEN");
    reveal_strlit("SHOPIFY_GRAPHQL");
    assert("CUSTOMER_DATA_RESTRICTED"@[0] == 'C' && "SHOPIFY_FORBIDDEN"@[8] == 'F'
        && "SHOPIFY_GRAPHQL"@[8] == 'G' && "SHOPIFY_FORBIDDEN"@[0] == 'S' && "SHOPIFY_GRAPHQL"@[0]
        == 'S');
}

} // verus!
