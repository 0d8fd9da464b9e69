//! Removal of a secret from text that may leave the program.
use vstd::prelude::*;

use crate::text::{occurs, occurs_at, replace, replaced, replacing_goes_from_left_to_right};

verus! {

/// What stands in place of a secret.
pub const MARKER: &'static str = "[REDACTED]";

/// `s` with the marker in place of each `secret`; an empty secret hides nothing.
pub open spec fn concealed(s: Seq<char>, secret: Seq<char>) -> Seq<char> {
    if secret.len() == 0 {
        s
    } else {
        replaced(s, secret, MARKER@)
    }
}

/// `text` with the marker in place of each `secret`.
pub fn conceal(text: &str, secret: &str) -> (r: String)
    ensures
        r@ == concealed(text@, secret@),
{
    if secret.is_empty() {
        text.to_owned()
    } else {
        replace(text, secret, MARKER)
    }
}

/// Whether `secret` and the marker, laid over each other with the marker's start at `-k` of the
/// secret, hold the same characters wherever both have one.
pub open spec fn agrees_with_marker(secret: Seq<char>, k: int) -> bool {
    forall|j: int|
        #![trigger secret[j]]
        0 <= j < secret.len() && 0 <= k + j < MARKER@.len() ==> secret[j] == MARKER@[k + j]
}

/// Whether no part of `secret` can be mistaken for a part of the marker.
pub open spec fn apart_from_marker(secret: Seq<char>) -> bool {
    forall|k: int| -secret.len() < k < MARKER@.len() ==> !#[trigger] agrees_with_marker(secret, k)
}

/// Text that does not hold the secret is left as it is.
pub proof fn text_without_the_secret_stays(s: Seq<char>, secret: Seq<char>)
    requires
        secret.len() > 0 ==> !occurs(s, secret),
    ensures
        concealed(s, secret) == s,
    decreases s.len(),
{
    if secret.len() > 0 && s.len() > 0 {
        let rest = s.skip(1);
        assert(!occurs_at(s, secret, 0));
        assert forall|i: int| !occurs_at(rest, secret, i) by {
            if occurs_at(rest, secret, i) {
                assert(s.subrange(i + 1, i + 1 + secret.len()) == rest.subrange(
                    i,
                    i + secret.len(),
                ));
                assert(occurs_at(s, secret, i + 1));
            }
        }
        text_without_the_secret_stays(rest, secret);
        assert(seq![s[0]] + rest == s);
    }
}

/// Redacted text does not hold the secret, for a secret of which no part can be mistaken for a
/// part of the marker.
pub proof fn redaction_removes_the_secret(s: Seq<char>, secret: Seq<char>)
    requires
        secret.len() > 0,
        apart_from_marker(secret),
    ensures
        !occurs(concealed(s, secret), secret),
    decreases s.len(),
{
    reveal_strlit("[REDACTED]");
    let mark = MARKER@;
    let out = replaced(s, secret, mark);
    assert forall|i: int| !occurs_at(out, secret, i) by {
        if occurs_at(out, secret, i) {
            if s.len() == 0 {
            } else if occurs_at(s, secret, 0) {
                let rest = replaced(s.skip(secret.len() as int), secret, mark);
                redaction_removes_the_secret(s.skip(secret.len() as int), secret);
                if i >= mark.len() {
                    assert(rest.subrange(i - mark.len(), i - mark.len() + secret.len())
                        == out.subrange(i, i + secret.len()));
                    assert(occurs_at(rest, secret, i - mark.len()));
                } else {
                    assert(agrees_with_marker(secret, i)) by {
                        assert forall|j: int|
                            #![trigger secret[j]]
                            0 <= j < secret.len() && 0 <= i + j < mark.len() implies secret[j]
                            == mark[i + j] by {
                            assert(out.subrange(i, i + secret.len())[j] == out[i + j]);
                        }
                    }
                }
            } else {
                let rest = replaced(s.skip(1), secret, mark);
                redaction_removes_the_secret(s.skip(1), secret);
                if i >= 1 {
                    assert(rest.subrange(i - 1, i - 1 + secret.len()) == out.subrange(
                        i,
                        i + secret.len(),
                    ));
                    assert(occurs_at(rest, secret, i - 1));
                } else {
                    start_of_replaced(s, secret, mark, secret.len() as int);
                    if secret.len() <= s.len() && out.take(secret.len() as int) == s.take(
                        secret.len() as int,
                    ) {
                        assert(s.subrange(0, secret.len() as int) == out.subrange(
                            0,
                            secret.len() as int,
                        ));
                        assert(occurs_at(s, secret, 0));
                    } else {
                        let p = choose|p: int| 0 <= p < secret.len() && occurs_at(out, mark, p);
                        assert(agrees_with_marker(secret, -p)) by {
                            assert forall|j: int|
                                #![trigger secret[j]]
                                0 <= j < secret.len() && 0 <= -p + j < mark.len() implies secret[j]
                                == mark[-p + j] by {
                                assert(out.subrange(0, secret.len() as int)[j] == out[j]);
                                assert(out.subrange(p, p + mark.len())[j - p] == out[j]);
                            }
                        }
                    }
                }
            }
        }
    }
}

/// The first `n` characters after a replacement are those before it, or the new text starts
/// among them.
proof fn start_of_replaced(s: Seq<char>, from: Seq<char>, to: Seq<char>, n: int)
    requires
        from.len() > 0,
        0 <= n <= replaced(s, from, to).len(),
    ensures
        (n <= s.len() && replaced(s, from, to).take(n) == s.take(n)) || exists|p: int|
            0 <= p < n && occurs_at(replaced(s, from, to), to, p),
    decreases s.len(),
{
    let out = replaced(s, from, to);
    if n == 0 {
        assert(out.take(0) == s.take(0));
    } else if s.len() == 0 {
    } else if occurs_at(s, from, 0) {
        assert(out.subrange(0, to.len() as int) == to);
        assert(occurs_at(out, to, 0));
    } else {
        let rest = replaced(s.skip(1), from, to);
        start_of_replaced(s.skip(1), from, to, n - 1);
        if n - 1 <= s.skip(1).len() && rest.take(n - 1) == s.skip(1).take(n - 1) {
            assert(out.take(n) == s.take(n)) by {
                assert forall|i: int| 0 <= i < n implies out[i] == s[i] by {
                    if i > 0 {
                        assert(rest.take(n - 1)[i - 1] == s.skip(1).take(n - 1)[i - 1]);
                    }
                }
            }
        } else {
            let p = choose|p: int| 0 <= p < n - 1 && occurs_at(rest, to, p);
            assert(out.subrange(p + 1, p + 1 + to.len()) == rest.subrange(p, p + to.len()));
            assert(occurs_at(out, to, p + 1));
        }
    }
}

/// A secret without a character of the marker is apart from it. Admin API tokens are: they hold
/// lower case letters, digits and underscores.
pub proof fn plain_secrets_are_apart_from_the_marker(secret: Seq<char>)
    requires
        secret.len() > 0,
        forall|i: int| 0 <= i < secret.len() ==> !MARKER@.contains(#[trigger] secret[i]),
    ensures
        apart_from_marker(secret),
{
    reveal_strlit("[REDACTED]");
    assert forall|k: int| -secret.len() < k < MARKER@.len() implies !#[trigger] agrees_with_marker(
        secret,
        k,
    ) by {
        let j = if k >= 0 {
            0int
        } else {
            -k
        };
        assert(MARKER@.contains(MARKER@[k + j]));
        assert(secret[j] != MARKER@[k + j]);
    }
}

/// Redacting puts the marker in place of the first secret, leaves the text before it as it is, and
/// goes on behind it.
pub proof fn redaction_goes_from_left_to_right(s: Seq<char>, secret: Seq<char>, i: int)
    requires
        secret.len() > 0,
        occurs_at(s, secret, i),
        forall|k: int| 0 <= k < i ==> !#[trigger] occurs_at(s, secret, k),
    ensures
        concealed(s, secret) == s.take(i) + "[REDACTED]"@ + concealed(
            s.skip(i + secret.len()),
            secret,
        ),
{
    replacing_goes_from_left_to_right(s, secret, MARKER@, i);
}

} // verus!
