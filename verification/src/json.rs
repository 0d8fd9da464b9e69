//! JSON values as they come from a shop, and the removal of a secret from them.
use vstd::prelude::*;
use vstd::string::*;

use crate::redact::{
    apart_from_marker, conceal, concealed, redaction_removes_the_secret,
    text_without_the_secret_stays,
};
use crate::text::{occurs, same_text};

verus! {

/// A JSON number, which the library only carries.
#[verifier::external_type_specification]
#[verifier::external_body]
pub struct ExNumber(serde_json::Number);

/// A JSON value. The members of an object stand in order; of members with the same key the last
/// one counts.
#[derive(Debug)]
pub enum Json {
    Null,
    Bool(bool),
    Number(serde_json::Number),
    Text(String),
    Array(Vec<Json>),
    Object(Vec<(String, Json)>),
}

/// What stands in a [`Json`] value.
pub enum Tree {
    Null,
    Bool(bool),
    Number(serde_json::Number),
    Text(Seq<char>),
    Array(Seq<Tree>),
    Object(Seq<(Seq<char>, Tree)>),
}

/// What stands in `value`.
pub open spec fn tree(value: Json) -> Tree
    decreases value,
{
    match value {
        Json::Null => Tree::Null,
        Json::Bool(b) => Tree::Bool(b),
        Json::Number(n) => Tree::Number(n),
        Json::Text(text) => Tree::Text(text@),
        Json::Array(items) => Tree::Array(
            Seq::new(
                items@.len(),
                |i: int|
                    if 0 <= i < items@.len() {
                        tree(items@[i])
                    } else {
                        Tree::Null
                    },
            ),
        ),
        Json::Object(members) => Tree::Object(
            Seq::new(
                members@.len(),
                |i: int|
                    if 0 <= i < members@.len() {
                        (members@[i].0@, tree(members@[i].1))
                    } else {
                        (Seq::empty(), Tree::Null)
                    },
            ),
        ),
    }
}

impl View for Json {
    type V = Tree;

    open spec fn view(&self) -> Tree {
        tree(*self)
    }
}

/// The value of the last of `members` with the key `key`.
pub open spec fn last_member(members: Seq<(Seq<char>, Tree)>, key: Seq<char>) -> Option<Tree>
    decreases members.len(),
{
    if members.len() == 0 {
        None
    } else if members.last().0 == key {
        Some(members.last().1)
    } else {
        last_member(members.drop_last(), key)
    }
}

/// The member `key` of `value`, if it is an object that has one.
pub open spec fn member(value: Tree, key: Seq<char>) -> Option<Tree> {
    match value {
        Tree::Object(members) => last_member(members, key),
        _ => None,
    }
}

/// The member `inner` of the member `outer` of `value`.
pub open spec fn nested(value: Tree, outer: Seq<char>, inner: Seq<char>) -> Option<Tree> {
    match member(value, outer) {
        Some(found) => member(found, inner),
        None => None,
    }
}

/// The text that a value is, if it is one.
pub open spec fn as_text(value: Option<Tree>) -> Option<Seq<char>> {
    match value {
        Some(Tree::Text(text)) => Some(text),
        _ => None,
    }
}

/// `value` with the marker in place of each `secret`, in texts and in keys.
pub open spec fn redacted_tree(value: Tree, secret: Seq<char>) -> Tree
    decreases value,
{
    match value {
        Tree::Text(text) => Tree::Text(concealed(text, secret)),
        Tree::Array(items) => Tree::Array(
            Seq::new(
                items.len(),
                |i: int|
                    if 0 <= i < items.len() {
                        redacted_tree(items[i], secret)
                    } else {
                        Tree::Null
                    },
            ),
        ),
        Tree::Object(members) => Tree::Object(
            Seq::new(
                members.len(),
                |i: int|
                    if 0 <= i < members.len() {
                        (concealed(members[i].0, secret), redacted_tree(members[i].1, secret))
                    } else {
                        (Seq::empty(), Tree::Null)
                    },
            ),
        ),
        other => other,
    }
}

/// Whether `secret` stands in a text or in a key of `value`.
pub open spec fn mentions(value: Tree, secret: Seq<char>) -> bool
    decreases value,
{
    match value {
        Tree::Text(text) => occurs(text, secret),
        Tree::Array(items) => exists|i: int|
            #![trigger items[i]]
            0 <= i < items.len() && mentions(items[i], secret),
        Tree::Object(members) => exists|i: int|
            #![trigger members[i]]
            0 <= i < members.len() && (occurs(members[i].0, secret) || mentions(
                members[i].1,
                secret,
            )),
        _ => false,
    }
}

/// A redacted value does not mention the secret, for a secret of which no part can be mistaken for
/// a part of the marker.
pub proof fn redacted_values_do_not_mention_the_secret(value: Tree, secret: Seq<char>)
    requires
        secret.len() > 0,
        apart_from_marker(secret),
    ensures
        !mentions(redacted_tree(value, secret), secret),
    decreases value,
{
    let out = redacted_tree(value, secret);
    match value {
        Tree::Text(text) => {
            redaction_removes_the_secret(text, secret);
        },
        Tree::Array(items) => {
            assert forall|i: int| 0 <= i < items.len() implies !mentions(
                #[trigger] redacted_tree(items[i], secret),
                secret,
            ) by {
                redacted_values_do_not_mention_the_secret(items[i], secret);
            }
            let kept = out->Array_0;
            assert forall|i: int| 0 <= i < kept.len() implies !mentions(
                #[trigger] kept[i],
                secret,
            ) by {
                assert(kept[i] == redacted_tree(items[i], secret));
            }
        },
        Tree::Object(members) => {
            assert forall|i: int| 0 <= i < members.len() implies !occurs(
                #[trigger] concealed(members[i].0, secret),
                secret,
            ) && !mentions(redacted_tree(members[i].1, secret), secret) by {
                redaction_removes_the_secret(members[i].0, secret);
                redacted_values_do_not_mention_the_secret(members[i].1, secret);
            }
            assert(!mentions(out, secret));
        },
        _ => {},
    }
}

/// The member `key` of `value`, if it is an object that has one.
pub fn get<'a>(value: &'a Json, key: &str) -> (r: Option<&'a Json>)
    ensures
        match r {
            Some(found) => member(value@, key@) == Some(found@),
            None => member(value@, key@) is None,
        },
{
    match value {
        Json::Object(members) => {
            let ghost all = value@->Object_0;
            let mut n: usize = members.len();
            assert(all.take(n as int) == all);
            while n > 0
                invariant
                    n <= members.len(),
                    *value == Json::Object(*members),
                    all == value@->Object_0,
                    all.len() == members.len(),
                    last_member(all, key@) == last_member(all.take(n as int), key@),
                decreases n,
            {
                n = n - 1;
                let ghost head = all.take(n + 1);
                assert(head.drop_last() == all.take(n as int));
                assert(head.last() == (members@[n as int].0@, members@[n as int].1@));
                if same_text(members[n].0.as_str(), key) {
                    return Some(&members[n].1);
                }
            }
            None
        },
        _ => None,
    }
}

/// The member `inner` of the member `outer` of `value`, if it is a text.
pub fn nested_text<'a>(value: &'a Json, outer: &str, inner: &str) -> (r: Option<&'a str>)
    ensures
        match r {
            Some(text) => as_text(nested(value@, outer@, inner@)) == Some(text@),
            None => as_text(nested(value@, outer@, inner@)) is None,
        },
{
    match get(value, outer) {
        Some(found) => text_member(found, inner),
        None => None,
    }
}

/// The member `key` of `value`, if it is a text.
pub fn text_member<'a>(value: &'a Json, key: &str) -> (r: Option<&'a str>)
    ensures
        match r {
            Some(text) => as_text(member(value@, key@)) == Some(text@),
            None => as_text(member(value@, key@)) is None,
        },
{
    match get(value, key) {
        Some(found) => match found {
            Json::Text(text) => Some(text.as_str()),
            _ => None,
        },
        None => None,
    }
}

/// `value` with the marker in place of each `token`.
pub fn redact_token(value: Json, token: &str) -> (r: Json)
    ensures
        r@ == redacted_tree(value@, token@),
    decreases value,
{
    match value {
        Json::Text(text) => Json::Text(conceal(text.as_str(), token)),
        Json::Array(items) => {
            let ghost before = items@;
            let mut kept: Vec<Json> = Vec::new();
            for item in it: items
                invariant
                    it.seq() == before,
                    value == Json::Array(items),
                    before == items@,
                    kept.len() == it.index(),
                    forall|k: int|
                        0 <= k < kept.len() ==> (#[trigger] kept@[k])@ == redacted_tree(
                            before[k]@,
                            token@,
                        ),
            {
                assert(item == before[it.index()]);
                assert(decreases_to!(value => value->Array_0@[it.index()]));
                kept.push(redact_token(item, token));
            }
            let r = Json::Array(kept);
            assert(r@->Array_0 =~= redacted_tree(value@, token@)->Array_0);
            r
        },
        Json::Object(members) => {
            let ghost before = members@;
            let mut kept: Vec<(String, Json)> = Vec::new();
            for entry in it: members
                invariant
                    it.seq() == before,
                    value == Json::Object(members),
                    before == members@,
                    kept.len() == it.index(),
                    forall|k: int|
                        0 <= k < kept.len() ==> (#[trigger] kept@[k]).0@ == concealed(
                            before[k].0@,
                            token@,
                        ) && kept@[k].1@ == redacted_tree(before[k].1@, token@),
            {
                assert(entry == before[it.index()]);
                assert(decreases_to!(value => value->Object_0@[it.index()].1));
                let key = conceal(entry.0.as_str(), token);
                kept.push((key, redact_token(entry.1, token)));
            }
            let r = Json::Object(kept);
            assert(r@->Object_0 =~= redacted_tree(value@, token@)->Object_0);
            r
        },
        other => other,
    }
}

/// A value that does not mention the secret is left as it is.
pub proof fn values_without_the_secret_stay(value: Tree, secret: Seq<char>)
    requires
        secret.len() > 0 ==> !mentions(value, secret),
    ensures
        redacted_tree(value, secret) == value,
    decreases value,
{
    match value {
        Tree::Text(text) => {
            text_without_the_secret_stays(text, secret);
        },
        Tree::Array(items) => {
            assert forall|i: int| 0 <= i < items.len() implies redacted_tree(
                #[trigger] items[i],
                secret,
            ) == items[i] by {
                values_without_the_secret_stay(items[i], secret);
            }
            assert(redacted_tree(value, secret)->Array_0 =~= items);
        },
        Tree::Object(members) => {
            assert forall|i: int| 0 <= i < members.len() implies concealed(
                (#[trigger] members[i]).0,
                secret,
            ) == members[i].0 && redacted_tree(members[i].1, secret) == members[i].1 by {
                text_without_the_secret_stays(members[i].0, secret);
                values_without_the_secret_stay(members[i].1, secret);
            }
            assert(redacted_tree(value, secret)->Object_0 =~= members);
        },
        _ => {},
    }
}

/// Redacting keeps the shape of a value: every item and every member stays in its place, the secret is
/// removed from texts and keys, and everything else stays as it is.
pub proof fn redacting_keeps_the_shape(value: Tree, secret: Seq<char>)
    ensures
        match value {
            Tree::Array(items) => redacted_tree(value, secret) matches Tree::Array(kept)
                && kept.len() == items.len() && forall|i: int|
                0 <= i < items.len() ==> #[trigger] kept[i] == redacted_tree(items[i], secret),
            Tree::Object(members) => redacted_tree(value, secret) matches Tree::Object(kept)
                && kept.len() == members.len() && forall|i: int|
                0 <= i < members.len() ==> (#[trigger] kept[i]).0 == concealed(
                    members[i].0,
                    secret,
                ) && kept[i].1 == redacted_tree(members[i].1, secret),
            Tree::Text(text) => redacted_tree(value, secret) == Tree::Text(concealed(text, secret)),
            _ => redacted_tree(value, secret) == value,
        },
{
}

/// The member of an object is the last one with its key.
pub proof fn members_are_found_by_their_key(
    members: Seq<(Seq<char>, Tree)>,
    key: Seq<char>,
    i: int,
)
    requires
        0 <= i < members.len(),
        members[i].0 == key,
        forall|k: int| i < k < members.len() ==> (#[trigger] members[k]).0 != key,
    ensures
        member(Tree::Object(members), key) == Some(members[i].1),
    decreases members.len(),
{
    if i < members.len() - 1 {
        let rest = members.drop_last();
        assert(members[members.len() - 1].0 != key);
        assert forall|k: int| i < k < rest.len() implies (#[trigger] rest[k]).0 != key by {
            assert(rest[k] == members[k]);
        }
        members_are_found_by_their_key(rest, key, i);
    }
}

/// An object without the key has no such member, and no other value has any.
pub proof fn absent_members_are_not_found(value: Tree, key: Seq<char>)
    requires
        value matches Tree::Object(members) ==> forall|k: int|
            0 <= k < members.len() ==> (#[trigger] members[k]).0 != key,
    ensures
        member(value, key) is None,
    decreases value,
{
    if let Tree::Object(members) = value {
        no_member_is_last(members, key);
    }
}

proof fn no_member_is_last(members: Seq<(Seq<char>, Tree)>, key: Seq<char>)
    requires
        forall|k: int| 0 <= k < members.len() ==> (#[trigger] members[k]).0 != key,
    ensures
        last_member(members, key) is None,
    decreases members.len(),
{
    if members.len() > 0 {
        let rest = members.drop_last();
        assert(members[members.len() - 1].0 != key);
        assert forall|k: int| 0 <= k < rest.len() implies (#[trigger] rest[k]).0 != key by {
            assert(rest[k] == members[k]);
        }
        no_member_is_last(rest, key);
    }
}

/// A nested member is the member of the member, and only a text is a text.
pub proof fn nested_members_are_members_of_members(
    value: Tree,
    outer: Seq<char>,
    inner: Seq<char>,
)
    ensures
        member(value, outer) is None ==> nested(value, outer, inner) is None,
        member(value, outer) matches Some(found) ==> nested(value, outer, inner) == member(
            found,
            inner,
        ),
        as_text(member(value, outer)) is Some <==> (member(value, outer) matches Some(found)
            && found is Text),
        as_text(member(value, outer)) matches Some(text) ==> member(value, outer) == Some(
            Tree::Text(text),
        ),
{
}

/// A JSON value is seen as it is: texts, numbers and truth values themselves, items and members in
/// their places.
pub proof fn values_are_seen_as_they_are(value: Json, i: int)
    ensures
        match value {
            Json::Null => value@ is Null,
            Json::Bool(b) => value@ == Tree::Bool(b),
            Json::Number(n) => value@ == Tree::Number(n),
            Json::Text(text) => value@ == Tree::Text(text@),
            Json::Array(items) => value@ is Array && value@->Array_0.len() == items@.len() && (0 <= i
                < items@.len() ==> value@->Array_0[i] == items@[i]@),
            Json::Object(members) => value@ is Object && value@->Object_0.len() == members@.len()
                && (0 <= i < members@.len() ==> value@->Object_0[i].0 == members@[i].0@
                && value@->Object_0[i].1 == members@[i].1@),
        },
{
}

} // verus!
