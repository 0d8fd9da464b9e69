//! Identifiers of batches and of the orders in them.
use vstd::prelude::*;
use vstd::string::*;

use crate::error::{lasting, AppError, Failure};
use crate::outside::{
    all_lower_hex, grouped, has_group_hyphens, hex_digit, hex_digit_value, hex_text, hex_value,
    is_lower_hex, parse_uuid, print_uuid, random_uuid, ungrouped, uuid_text, uuid_value,
};
use crate::text::{
    ascii_lower, characters, decimal, decimal_reads_back, decimal_text, lower_char, read_unsigned,
    same_text, stands_at,
};

verus! {

/// Whether `s` is the canonical text of a UUID: 32 hexadecimal digits in lower case, in groups of
/// 8, 4, 4, 4 and 12 with hyphens between.
pub open spec fn is_uuid_text(s: Seq<char>) -> bool {
    has_group_hyphens(s) && all_lower_hex(ungrouped(s))
}

/// Whether `text` is the canonical text of a UUID.
pub fn canonical_uuid(text: &str) -> (r: bool)
    ensures
        r == is_uuid_text(text@),
{
    match parse_uuid(text) {
        Some(id) => {
            let printed = print_uuid(id);
            proof {
                printed_uuids_are_canonical(id);
                if is_uuid_text(text@) {
                    canonical_uuids_read_back(text@);
                }
            }
            same_text(printed.as_str(), text)
        },
        None => {
            proof {
                if is_uuid_text(text@) {
                    canonical_uuids_read_back(text@);
                }
            }
            false
        },
    }
}

/// The canonical text of a random UUID: of version 4, and of the variant that RFC 9562 describes.
pub fn new_uuid() -> (r: String)
    ensures
        is_uuid_text(r@),
        r@[14] == '4',
        r@[19] == '8' || r@[19] == '9' || r@[19] == 'a' || r@[19] == 'b',
{
    let id = random_uuid();
    proof {
        printed_uuids_are_canonical(id);
        hex_text_is_hex(id as nat, 32);
        assert(is_lower_hex(hex_text(id as nat, 32)[16]));
    }
    print_uuid(id)
}

proof fn hex_digit_reads_back(c: char)
    requires
        is_lower_hex(c),
    ensures
        hex_digit_value(c) < 16,
        hex_digit(hex_digit_value(c)) == c,
{
}

proof fn hex_text_is_hex(n: nat, width: nat)
    ensures
        hex_text(n, width).len() == width,
        all_lower_hex(hex_text(n, width)),
    decreases width,
{
    if width > 0 {
        hex_text_is_hex(n / 16, (width - 1) as nat);
        assert(is_lower_hex(hex_digit(n % 16)));
    }
}

proof fn hex_value_prints_back(s: Seq<char>)
    requires
        all_lower_hex(s),
    ensures
        hex_text(hex_value(s), s.len()) == s,
    decreases s.len(),
{
    if s.len() > 0 {
        assert(all_lower_hex(s.drop_last())) by {
            assert forall|i: int| 0 <= i < s.drop_last().len() implies is_lower_hex(
                #[trigger] s.drop_last()[i],
            ) by {
                assert(s[i] == s.drop_last()[i]);
            }
        }
        hex_value_prints_back(s.drop_last());
        assert(is_lower_hex(s[s.len() - 1]));
        hex_digit_reads_back(s.last());
        let head = hex_value(s.drop_last());
        let digit = hex_digit_value(s.last());
        assert((head * 16 + digit) / 16 == head && (head * 16 + digit) % 16 == digit)
            by (nonlinear_arith)
            requires
                0 <= digit < 16,
                0 <= head,
        ;
        assert(s == s.drop_last().push(s.last()));
    } else {
        assert(hex_text(0, 0) == s);
    }
}

proof fn hex_value_bound(s: Seq<char>, bound: nat)
    requires
        all_lower_hex(s),
        bound == vstd::arithmetic::power::pow(16, s.len()),
    ensures
        hex_value(s) < bound,
    decreases s.len(),
{
    vstd::arithmetic::power::lemma_pow0(16);
    if s.len() > 0 {
        assert(all_lower_hex(s.drop_last())) by {
            assert forall|i: int| 0 <= i < s.drop_last().len() implies is_lower_hex(
                #[trigger] s.drop_last()[i],
            ) by {
                assert(s[i] == s.drop_last()[i]);
            }
        }
        let n = (s.len() - 1) as nat;
        vstd::arithmetic::power::lemma_pow_adds(16, n, 1);
        vstd::arithmetic::power::lemma_pow1(16);
        vstd::arithmetic::power::lemma_pow_positive(16, n);
        let smaller = vstd::arithmetic::power::pow(16, n) as nat;
        hex_value_bound(s.drop_last(), smaller);
        assert(is_lower_hex(s[s.len() - 1]));
        hex_digit_reads_back(s.last());
        assert(bound == smaller * 16);
    }
}

/// Every printed UUID is canonical.
proof fn printed_uuids_are_canonical(id: u128)
    ensures
        is_uuid_text(uuid_text(id)),
        uuid_text(id)[14] == hex_text(id as nat, 32)[12],
{
    let digits = hex_text(id as nat, 32);
    hex_text_is_hex(id as nat, 32);
    assert(ungrouped(grouped(digits)) =~= digits);
}

/// A canonical text is read as the UUID that prints as that text.
proof fn canonical_uuids_read_back(s: Seq<char>)
    requires
        is_uuid_text(s),
    ensures
        uuid_value(s) is Some,
        uuid_text(uuid_value(s)->0) == s,
{
    let digits = ungrouped(s);
    assert(ascii_lower(digits) =~= digits) by {
        assert forall|i: int| 0 <= i < digits.len() implies lower_char(#[trigger] digits[i])
            == digits[i] by {
            assert(is_lower_hex(digits[i]));
        }
    }
    hex_value_prints_back(digits);
    vstd::arithmetic::power::lemma_pow_positive(16, 32);
    hex_value_bound(digits, vstd::arithmetic::power::pow(16, 32) as nat);
    assert(vstd::arithmetic::power::pow(16, 32) == 0x1_0000_0000_0000_0000_0000_0000_0000_0000)
        by {
        reveal_with_fuel(vstd::arithmetic::power::pow, 33);
    }
    assert(grouped(digits) =~= s);
}

/// What every source identifier starts with.
pub const SOURCE_PREFIX: &'static str = "orderpilot/";

/// The identifier of the order `sequence` of the batch `batch`.
pub open spec fn source_text(batch: Seq<char>, sequence: nat) -> Seq<char> {
    SOURCE_PREFIX@ + batch + "/"@ + decimal(sequence)
}

/// The identifier of the order `sequence` of the batch `batch`.
pub fn source_identifier(batch: &str, sequence: u64) -> (r: String)
    ensures
        r@ == source_text(batch@, sequence as nat),
{
    SOURCE_PREFIX.to_owned().concat(batch).concat("/").concat(decimal_text(sequence).as_str())
}

/// Whether `source` identifies the order `sequence` of the batch `batch`: the batch is a canonical
/// UUID, and the sequence number from 1 to 100.
pub open spec fn is_source_of(source: Seq<char>, batch: Seq<char>, sequence: nat) -> bool {
    is_uuid_text(batch) && 1 <= sequence <= 100 && source == source_text(batch, sequence)
}

/// Whether `source` identifies an order of a batch.
pub open spec fn is_source(source: Seq<char>) -> bool {
    exists|batch: Seq<char>, sequence: nat| is_source_of(source, batch, sequence)
}

/// The batch that a source identifier names.
pub open spec fn source_batch(source: Seq<char>) -> Seq<char> {
    source.subrange(11, 47)
}

/// The failure for text that identifies no order of a batch.
pub open spec fn invalid_source() -> Failure {
    lasting("INVALID_SOURCE_IDENTIFIER"@, "批次项来源标识无效"@)
}

/// The batch that `source` names.
pub fn source_batch_id(source: &str) -> (r: Result<&str, AppError>)
    ensures
        match r {
            Ok(batch) => is_source(source@) && batch@ == source_batch(source@),
            Err(e) => !is_source(source@) && e@ == invalid_source(),
        },
{
    proof {
        reveal_strlit("orderpilot/");
        reveal_strlit("/");
    }
    let chars = characters(source);
    let prefix = characters(SOURCE_PREFIX);
    if stands_at(&chars, &prefix, 0) {
        let mut slash: usize = prefix.len();
        while slash < chars.len() && chars[slash] != '/'
            invariant
                prefix.len() <= slash <= chars.len(),
                forall|k: int| prefix.len() <= k < slash ==> chars@[k] != '/',
            decreases chars.len() - slash,
        {
            slash = slash + 1;
        }
        if slash < chars.len() {
            let batch = source.substring_char(prefix.len(), slash);
            let sequence = source.substring_char(slash + 1, chars.len());
            if canonical_uuid(batch) {
                if let Some(number) = read_unsigned(sequence) {
                    if 1 <= number && number <= 100 && same_text(
                        decimal_text(number).as_str(),
                        sequence,
                    ) {
                        proof {
                            assert(source@ =~= source_text(batch@, number as nat));
                            assert(is_source_of(source@, batch@, number as nat));
                            assert(batch@ =~= source_batch(source@));
                        }
                        return Ok(batch);
                    }
                }
            }
            proof {
                if is_source(source@) {
                    let (b, n) = choose|b: Seq<char>, n: nat| is_source_of(source@, b, n);
                    source_parts(b, n);
                    uuid_has_no_slash(b);
                    assert forall|k: int| 0 <= k < 36 implies #[trigger] source@[11 + k]
                        == b[k] by {}
                    assert(slash == 47) by {
                        assert(source@[47] == '/');
                        if slash < 47 {
                            assert(source@[11 + (slash - 11)] == b[slash - 11]);
                        }
                    }
                    assert(batch@ =~= b);
                    assert(sequence@ =~= decimal(n));
                    decimal_reads_back(n);
                    assert('0' <= decimal(n)[0] <= '9');
                }
            }
        } else {
            proof {
                if is_source(source@) {
                    let (b, n) = choose|b: Seq<char>, n: nat| is_source_of(source@, b, n);
                    source_parts(b, n);
                    assert(source@[47] == '/');
                }
            }
        }
    } else {
        proof {
            if is_source(source@) {
                let (b, n) = choose|b: Seq<char>, n: nat| is_source_of(source@, b, n);
                assert(source@.subrange(0, 11) =~= SOURCE_PREFIX@);
            }
        }
    }
    Err(AppError::validation("INVALID_SOURCE_IDENTIFIER", "批次项来源标识无效"))
}

proof fn uuid_has_no_slash(s: Seq<char>)
    requires
        is_uuid_text(s),
    ensures
        forall|i: int| 0 <= i < s.len() ==> #[trigger] s[i] != '/',
{
    let digits = ungrouped(s);
    assert forall|i: int| 0 <= i < s.len() implies #[trigger] s[i] != '/' by {
        let k = if i < 8 {
            i
        } else if i < 13 {
            i - 1
        } else if i < 18 {
            i - 2
        } else if i < 23 {
            i - 3
        } else {
            i - 4
        };
        if i != 8 && i != 13 && i != 18 && i != 23 {
            assert(digits[k] == s[i]);
            assert(is_lower_hex(digits[k]));
        }
    }
}

proof fn source_parts(batch: Seq<char>, sequence: nat)
    requires
        is_uuid_text(batch),
    ensures
        source_text(batch, sequence).len() == 48 + decimal(sequence).len(),
        source_text(batch, sequence).subrange(11, 47) == batch,
        source_text(batch, sequence)[47] == '/',
        source_text(batch, sequence).skip(48) == decimal(sequence),
{
    reveal_strlit("orderpilot/");
    reveal_strlit("/");
    assert(source_text(batch, sequence).subrange(11, 47) =~= batch);
    assert(source_text(batch, sequence).skip(48) =~= decimal(sequence));
}

/// The identifier made for an order of a batch names that batch.
pub proof fn made_sources_name_their_batch(batch: Seq<char>, sequence: nat)
    requires
        is_uuid_text(batch),
        1 <= sequence <= 100,
    ensures
        is_source(source_text(batch, sequence)),
        source_batch(source_text(batch, sequence)) == batch,
{
    source_parts(batch, sequence);
    assert(is_source_of(source_text(batch, sequence), batch, sequence));
}

/// No two orders, of one batch or of two, have the same source identifier.
pub proof fn sources_are_unique(batch: Seq<char>, sequence: nat, other: Seq<char>, number: nat)
    requires
        is_uuid_text(batch),
        is_uuid_text(other),
        source_text(batch, sequence) == source_text(other, number),
    ensures
        batch == other,
        sequence == number,
{
    source_parts(batch, sequence);
    source_parts(other, number);
    decimal_reads_back(sequence);
    decimal_reads_back(number);
}

/// A canonical UUID is 36 characters: hyphens at four places, and digits or the small letters from
/// `a` to `f` at all others.
pub proof fn canonical_uuids_are_hexadecimal_in_groups(s: Seq<char>)
    ensures
        is_uuid_text(s) <==> {
            &&& s.len() == 36
            &&& forall|i: int|
                0 <= i < 36 ==> if i == 8 || i == 13 || i == 18 || i == 23 {
                    #[trigger] s[i] == '-'
                } else {
                    '0' <= s[i] <= '9' || 'a' <= s[i] <= 'f'
                }
        },
{
    let digits = ungrouped(s);
    if is_uuid_text(s) {
        assert forall|i: int| 0 <= i < 36 implies if i == 8 || i == 13 || i == 18 || i == 23 {
            #[trigger] s[i] == '-'
        } else {
            '0' <= s[i] <= '9' || 'a' <= s[i] <= 'f'
        } by {
            let k = if i < 8 {
                i
            } else if i < 13 {
                i - 1
            } else if i < 18 {
                i - 2
            } else if i < 23 {
                i - 3
            } else {
                i - 4
            };
            if !(i == 8 || i == 13 || i == 18 || i == 23) {
                assert(digits[k] == s[i]);
                assert(is_lower_hex(digits[k]));
            }
        }
    } else if s.len() == 36 && forall|i: int|
        0 <= i < 36 ==> if i == 8 || i == 13 || i == 18 || i == 23 {
            #[trigger] s[i] == '-'
        } else {
            '0' <= s[i] <= '9' || 'a' <= s[i] <= 'f'
        } {
        assert(s[8] == '-' && s[13] == '-' && s[18] == '-' && s[23] == '-');
        assert forall|k: int| 0 <= k < digits.len() implies is_lower_hex(#[trigger] digits[k]) by {
            let i = if k < 8 {
                k
            } else if k < 12 {
                k + 1
            } else if k < 16 {
                k + 2
            } else if k < 20 {
                k + 3
            } else {
                k + 4
            };
            assert(digits[k] == s[i]);
        }
    }
}

/// A source identifier is the name of the program, the batch and the number of the order, from 1 to
/// 100, with slashes between; and it names that batch.
pub proof fn sources_name_program_batch_and_number(source: Seq<char>)
    ensures
        is_source(source) <==> exists|batch: Seq<char>, sequence: nat|
            is_uuid_text(batch) && 1 <= sequence <= 100 && source == "orderpilot/"@ + batch + "/"@
                + #[trigger] decimal(sequence) && #[trigger] batch.len() == 36,
        is_source(source) ==> exists|sequence: nat|
            1 <= sequence <= 100 && source == "orderpilot/"@ + source_batch(source) + "/"@
                + #[trigger] decimal(sequence),
{
    if is_source(source) {
        let (b, n) = choose|b: Seq<char>, n: nat| is_source_of(source, b, n);
        source_parts(b, n);
        assert(b.len() == 36);
        assert(source == "orderpilot/"@ + b + "/"@ + decimal(n));
        assert(source_batch(source) == b);
    }
    if exists|batch: Seq<char>, sequence: nat|
        is_uuid_text(batch) && 1 <= sequence <= 100 && source == "orderpilot/"@ + batch + "/"@
            + #[trigger] decimal(sequence) && #[trigger] batch.len() == 36 {
        let (b, n) = choose|batch: Seq<char>, sequence: nat|
            is_uuid_text(batch) && 1 <= sequence <= 100 && source == "orderpilot/"@ + batch + "/"@
                + #[trigger] decimal(sequence) && #[trigger] batch.len() == 36;
        assert(is_source_of(source, b, n));
    }
}

} // verus!
