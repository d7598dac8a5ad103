//! Decimal formatting and parsing of owner identifiers.
//!
//! The signed-token strategy carries the owner identifier as the decimal
//! `sub` claim of the token, so formatting and parsing must invert one
//! another exactly.

use vstd::prelude::*;

verus! {

/// The decimal digit character for `d` (0 through 9).
pub open spec fn spec_digit_char(d: int) -> char {
    if d == 0 {
        '0'
    } else if d == 1 {
        '1'
    } else if d == 2 {
        '2'
    } else if d == 3 {
        '3'
    } else if d == 4 {
        '4'
    } else if d == 5 {
        '5'
    } else if d == 6 {
        '6'
    } else if d == 7 {
        '7'
    } else if d == 8 {
        '8'
    } else {
        '9'
    }
}

/// The canonical decimal spelling of a non-negative integer.
pub open spec fn spec_dec_str(n: int) -> Seq<char>
    decreases n,
{
    if n < 10 {
        seq![spec_digit_char(n)]
    } else {
        spec_dec_str(n / 10).push(spec_digit_char(n % 10))
    }
}

/// A decimal digit character.
pub open spec fn spec_is_digit(c: char) -> bool {
    48 <= c as u32 && c as u32 <= 57
}

/// The value of a decimal digit character.
pub open spec fn spec_digit_val(c: char) -> int {
    c as u32 - 48
}

/// Every character of `s` is a decimal digit.
pub open spec fn spec_all_digits(s: Seq<char>) -> bool {
    forall|i: int| 0 <= i < s.len() ==> spec_is_digit(#[trigger] s[i])
}

/// The value of the digit string `s` read after the digits of value `acc`.
pub open spec fn spec_dec_val_acc(s: Seq<char>, acc: int) -> int
    decreases s.len(),
{
    if s.len() == 0 {
        acc
    } else {
        spec_dec_val_acc(s.drop_first(), acc * 10 + spec_digit_val(s[0]))
    }
}

/// The integer a string spells in canonical decimal: at least one digit,
/// nothing but digits, and no leading zero.
pub open spec fn spec_parse_dec(s: Seq<char>) -> Option<int> {
    if s.len() == 0 || !spec_all_digits(s) || (s.len() > 1 && s[0] == '0') {
        None
    } else {
        Some(spec_dec_val_acc(s, 0))
    }
}

/// The digit character for `d`, as a string slice.
fn digit_literal(d: i32) -> (r: &'static str)
    requires
        0 <= d < 10,
    ensures
        r@ == seq![spec_digit_char(d as int)],
{
    let s: &'static str = if d == 0 {
        "0"
    } else if d == 1 {
        "1"
    } else if d == 2 {
        "2"
    } else if d == 3 {
        "3"
    } else if d == 4 {
        "4"
    } else if d == 5 {
        "5"
    } else if d == 6 {
        "6"
    } else if d == 7 {
        "7"
    } else if d == 8 {
        "8"
    } else {
        "9"
    };
    proof {
        reveal_strlit("0");
        reveal_strlit("1");
        reveal_strlit("2");
        reveal_strlit("3");
        reveal_strlit("4");
        reveal_strlit("5");
        reveal_strlit("6");
        reveal_strlit("7");
        reveal_strlit("8");
        reveal_strlit("9");
        assert(s@ =~= seq![spec_digit_char(d as int)]);
    }
    s
}

/// Formats a non-negative integer in canonical decimal.
pub fn i32_to_dec(n: i32) -> (r: String)
    requires
        0 <= n,
    ensures
        r@ == spec_dec_str(n as int),
    decreases n,
{
    if n < 10 {
        let r = digit_literal(n).to_owned();
        r
    } else {
        let mut r = i32_to_dec(n / 10);
        let d = digit_literal(n % 10);
        r.append(d);
        proof {
            assert(r@ =~= spec_dec_str(n as int / 10).push(spec_digit_char(n as int % 10)));
        }
        r
    }
}

/// Reading digits after a larger prefix value never shrinks the value.
pub proof fn lemma_dec_val_acc_monotonic(s: Seq<char>, acc: int)
    requires
        0 <= acc,
        spec_all_digits(s),
    ensures
        spec_dec_val_acc(s, acc) >= acc,
    decreases s.len(),
{
    if s.len() == 0 {
    } else {
        assert(spec_is_digit(s[0]));
        lemma_dec_val_acc_monotonic(s.drop_first(), acc * 10 + spec_digit_val(s[0]));
    }
}

/// Appending one digit multiplies the value by ten and adds the digit.
pub proof fn lemma_dec_val_acc_push(s: Seq<char>, c: char, acc: int)
    ensures
        spec_dec_val_acc(s.push(c), acc) == spec_dec_val_acc(s, acc) * 10 + spec_digit_val(c),
    decreases s.len(),
{
    if s.len() == 0 {
        assert(s.push(c).drop_first() =~= Seq::<char>::empty());
        assert(s.push(c)[0] == c);
        assert(spec_dec_val_acc(s.push(c), acc) == spec_dec_val_acc(
            s.push(c).drop_first(),
            acc * 10 + spec_digit_val(c),
        ));
    } else {
        let acc2 = acc * 10 + spec_digit_val(s[0]);
        assert(s.push(c).drop_first() =~= s.drop_first().push(c));
        assert(s.push(c)[0] == s[0]);
        assert(spec_dec_val_acc(s.push(c), acc) == spec_dec_val_acc(
            s.drop_first().push(c),
            acc2,
        ));
        lemma_dec_val_acc_push(s.drop_first(), c, acc2);
        assert(spec_dec_val_acc(s, acc) == spec_dec_val_acc(s.drop_first(), acc2));
    }
}

/// The canonical decimal spelling is made of digits, starts with `'0'`
/// only for zero itself, and spells its own value: parsing inverts
/// formatting.
pub proof fn lemma_parse_of_dec_str(n: int)
    requires
        0 <= n,
    ensures
        spec_all_digits(spec_dec_str(n)),
        spec_dec_str(n).len() >= 1,
        spec_dec_str(n)[0] == '0' ==> n == 0,
        n == 0 ==> spec_dec_str(n).len() == 1,
        spec_dec_val_acc(spec_dec_str(n), 0) == n,
        spec_parse_dec(spec_dec_str(n)) == Some(n),
    decreases n,
{
    if n < 10 {
        let s = spec_dec_str(n);
        assert(s == seq![spec_digit_char(n)]);
        assert(spec_is_digit(s[0]));
        assert(s.drop_first() =~= Seq::<char>::empty());
        assert(spec_dec_val_acc(s, 0) == spec_dec_val_acc(s.drop_first(), spec_digit_val(s[0])));
        assert(spec_dec_val_acc(s.drop_first(), spec_digit_val(s[0])) == spec_digit_val(s[0]));
        assert(spec_digit_val(spec_digit_char(n)) == n);
    } else {
        lemma_parse_of_dec_str(n / 10);
        let p = spec_dec_str(n / 10);
        let c = spec_digit_char(n % 10);
        let s = spec_dec_str(n);
        assert(s == p.push(c));
        assert(spec_is_digit(c));
        assert forall|i: int| 0 <= i < s.len() implies spec_is_digit(#[trigger] s[i]) by {
            if i < p.len() {
                assert(s[i] == p[i]);
            } else {
                assert(s[i] == c);
            }
        }
        assert(s[0] == p[0]);
        assert(n / 10 >= 1);
        lemma_dec_val_acc_push(p, c, 0);
        assert(spec_digit_val(c) == n % 10);
        assert(spec_dec_val_acc(s, 0) == (n / 10) * 10 + n % 10);
        assert((n / 10) * 10 + n % 10 == n) by (nonlinear_arith)
            requires
                n >= 0,
        ;
    }
}

/// Parses a string as the canonical decimal spelling of an owner
/// identifier.  Returns the spelled value when the string is canonical
/// decimal and fits; rejects everything else, and values above
/// `i32::MAX`.
pub fn dec_to_i32(s: &str) -> (r: Option<i32>)
    ensures
        match r {
            Some(n) => 0 <= n && spec_parse_dec(s@) == Some(n as int),
            None => spec_parse_dec(s@) is None || (spec_parse_dec(s@) matches Some(v) && v
                > i32::MAX),
        },
{
    let n = s.unicode_len();
    if n == 0 {
        return None;
    }
    let first = s.get_char(0);
    if n > 1 && first == '0' {
        proof {
            assert(spec_parse_dec(s@) is None);
        }
        return None;
    }
    let mut acc: i64 = 0;
    let mut i: usize = 0;
    proof {
        assert(s@.skip(0) =~= s@);
        assert(s@.subrange(0, 0) =~= Seq::<char>::empty());
    }
    while i < n
        invariant
            n == s@.len(),
            1 <= n,
            !(s@.len() > 1 && s@[0] == '0'),
            0 <= i <= n,
            0 <= acc <= i32::MAX,
            spec_all_digits(s@.subrange(0, i as int)),
            spec_dec_val_acc(s@, 0) == spec_dec_val_acc(s@.skip(i as int), acc as int),
        decreases n - i,
    {
        let c = s.get_char(i);
        let code = c as u32;
        if code < 48 || code > 57 {
            proof {
                assert(!spec_is_digit(s@[i as int]));
                assert(!spec_all_digits(s@));
            }
            return None;
        }
        proof {
            assert(s@.skip(i as int)[0] == s@[i as int]);
            assert(s@.skip(i as int).drop_first() =~= s@.skip(i + 1));
        }
        let d = (code - 48) as i64;
        let next = acc * 10 + d;
        if next > i32::MAX as i64 {
            proof {
                let rest = s@.skip(i + 1);
                if spec_all_digits(s@) {
                    assert forall|k: int| 0 <= k < rest.len() implies spec_is_digit(
                        #[trigger] rest[k],
                    ) by {
                        assert(rest =~= s@.subrange(i + 1, s@.len() as int));
                        assert(rest[k] == s@[i + 1 + k]);
                        assert(spec_is_digit(s@[i + 1 + k]));
                    }
                    lemma_dec_val_acc_monotonic(rest, next as int);
                    assert(spec_parse_dec(s@) matches Some(v) && v > i32::MAX);
                }
            }
            return None;
        }
        acc = next;
        i = i + 1;
        proof {
            assert(spec_all_digits(s@.subrange(0, i as int)));
        }
    }
    proof {
        assert(s@.skip(n as int) =~= Seq::<char>::empty());
        assert(s@.subrange(0, n as int) =~= s@);
        assert(spec_parse_dec(s@) == Some(acc as int));
    }
    Some(acc as i32)
}

} // verus!
