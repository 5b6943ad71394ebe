//! Decimal numerals: turning unsigned 64-bit values into their decimal text
//! and back.  The ledger serialization and the wire protocol carry hashes and
//! port numbers as decimal text, so both directions are verified against one
//! mathematical definition of the numeral.

use vstd::prelude::*;
use vstd::string::StrSliceExecFns;
use vstd::string::StringExecFns;

verus! {

/// The ten ASCII digit characters.
pub open spec fn is_digit_char(c: char) -> bool {
    48 <= c as u32 <= 57
}

/// Numeric value of a digit character.
pub open spec fn digit_value(c: char) -> int {
    c as u32 - 48
}

/// Digit character for a value below ten.
pub open spec fn digit_char(d: int) -> char {
    if d == 0 {
        '0'
    } else if d == 1 {
        '1'
    } else if d == 2 {
        '2'
    } else if d == 3 {
        '3'
    } else if d == 4 {
        '4'
    } else if d == 5 {
        '5'
    } else if d == 6 {
        '6'
    } else if d == 7 {
        '7'
    } else if d == 8 {
        '8'
    } else {
        '9'
    }
}

/// The decimal numeral of `n`, most significant digit first.
pub open spec fn spec_dec(n: nat) -> Seq<char>
    decreases n,
{
    if n < 10 {
        seq![digit_char(n as int)]
    } else {
        spec_dec(n / 10) + seq![digit_char((n % 10) as int)]
    }
}

pub open spec fn all_digits(s: Seq<char>) -> bool {
    forall|i: int| 0 <= i < s.len() ==> is_digit_char(s[i])
}

/// Value of a digit string, most significant digit first.
pub open spec fn digits_value(s: Seq<char>) -> int
    decreases s.len(),
{
    if s.len() == 0 {
        0
    } else {
        digits_value(s.drop_last()) * 10 + digit_value(s.last())
    }
}

/// The strings that `spec_dec` produces: at least one digit, no leading zero.
pub open spec fn is_canonical_digits(s: Seq<char>) -> bool {
    &&& all_digits(s)
    &&& s.len() >= 1
    &&& s.len() > 1 ==> s[0] != '0'
}

/// What parsing a decimal numeral as a `u64` yields: the value when the text
/// is one or more digits whose value fits, nothing otherwise.
pub open spec fn spec_parse_u64(s: Seq<char>) -> Option<u64> {
    if all_digits(s) && s.len() >= 1 && digits_value(s) <= u64::MAX {
        Some(digits_value(s) as u64)
    } else {
        None
    }
}

pub proof fn lemma_digit_char_value(d: int)
    requires
        0 <= d < 10,
    ensures
        is_digit_char(digit_char(d)),
        digit_value(digit_char(d)) == d,
{
}

pub proof fn lemma_digit_value_char(c: char)
    requires
        is_digit_char(c),
    ensures
        digit_char(digit_value(c)) == c,
{
}

pub proof fn lemma_digits_value_nonneg(s: Seq<char>)
    requires
        all_digits(s),
    ensures
        digits_value(s) >= 0,
    decreases s.len(),
{
    if s.len() > 0 {
        assert(all_digits(s.drop_last()));
        lemma_digits_value_nonneg(s.drop_last());
    }
}

/// A digit string is worth at least as much as any of its prefixes.
pub proof fn lemma_digits_value_prefix(s: Seq<char>, j: int)
    requires
        all_digits(s),
        0 <= j <= s.len(),
    ensures
        digits_value(s.subrange(0, j)) <= digits_value(s),
    decreases s.len() - j,
{
    if j == s.len() {
        assert(s.subrange(0, j) =~= s);
    } else {
        lemma_digits_value_prefix(s, j + 1);
        let p = s.subrange(0, j + 1);
        assert(p.drop_last() =~= s.subrange(0, j));
        assert(p.last() == s[j]);
        assert(all_digits(s.subrange(0, j)));
        lemma_digits_value_nonneg(s.subrange(0, j));
    }
}

/// The numeral of `n` is canonical and is worth `n`.
pub proof fn lemma_dec_canonical(n: nat)
    ensures
        is_canonical_digits(spec_dec(n)),
        digits_value(spec_dec(n)) == n,
    decreases n,
{
    if n < 10 {
        let s = spec_dec(n);
        assert(s.drop_last() =~= Seq::<char>::empty());
        assert(digits_value(Seq::<char>::empty()) == 0);
        assert(s.last() == digit_char(n as int));
        lemma_digit_char_value(n as int);
        assert(digits_value(s) == digit_value(digit_char(n as int)));
        assert(s[0] == digit_char(n as int));
        assert(all_digits(s));
    } else {
        lemma_dec_canonical(n / 10);
        let a = spec_dec(n / 10);
        let s = spec_dec(n);
        assert(s.drop_last() =~= a);
        assert(s.last() == digit_char((n % 10) as int));
        assert(digits_value(s) == digits_value(a) * 10 + (n % 10));
        assert(n / 10 * 10 + n % 10 == n) by {
            vstd::arithmetic::div_mod::lemma_fundamental_div_mod(n as int, 10);
        }
        assert(forall|i: int| 0 <= i < s.len() ==> is_digit_char(#[trigger] s[i])) by {
            assert(forall|i: int| 0 <= i < a.len() ==> is_digit_char(#[trigger] a[i]));
            assert(s[s.len() - 1] == digit_char((n % 10) as int));
            lemma_digit_char_value((n % 10) as int);
        }
        assert(s[0] == a[0]);
        assert(s[0] != '0') by {
            if a.len() == 1 {
                assert(a.drop_last() =~= Seq::<char>::empty());
                assert(digits_value(Seq::<char>::empty()) == 0);
                assert(a.last() == a[0]);
                assert(digit_value(a[0]) == digits_value(a));
                assert(digit_value(a[0]) >= 1);
            }
        }
    }
}

/// A canonical digit string is the numeral of its own value.
pub proof fn lemma_canonical_dec(s: Seq<char>)
    requires
        is_canonical_digits(s),
    ensures
        digits_value(s) >= 0,
        spec_dec(digits_value(s) as nat) == s,
    decreases s.len(),
{
    lemma_digits_value_nonneg(s);
    if s.len() == 1 {
        assert(s.drop_last() =~= Seq::<char>::empty());
        assert(digits_value(Seq::<char>::empty()) == 0);
        assert(s.last() == s[0]);
        assert(digits_value(s) == digit_value(s[0]));
        lemma_digit_value_char(s[0]);
        assert(spec_dec(digits_value(s) as nat) =~= s);
    } else {
        let a = s.drop_last();
        let c = s.last();
        assert(all_digits(a));
        assert(a[0] == s[0]);
        lemma_canonical_dec(a);
        let va = digits_value(a);
        let v = digits_value(s);
        assert(v == va * 10 + digit_value(c));
        assert(va >= 1) by {
            if a.len() == 1 {
                assert(a[0] != '0');
                assert(digit_value(a[0]) >= 1) by {
                    lemma_digit_value_char(a[0]);
                }
            } else {
                assert(digits_value(a.subrange(0, 1)) <= va) by {
                    lemma_digits_value_prefix(a, 1);
                }
                assert(a.subrange(0, 1).last() == a[0]);
                assert(a.subrange(0, 1).drop_last() =~= Seq::<char>::empty());
                assert(digits_value(Seq::<char>::empty()) == 0);
                assert(digits_value(a.subrange(0, 1)) == digit_value(a[0]));
                assert(digit_value(a[0]) >= 1) by {
                    lemma_digit_value_char(a[0]);
                }
            }
        }
        assert(0 <= digit_value(c) < 10);
        assert(v >= 10);
        assert(v / 10 == va && v % 10 == digit_value(c)) by {
            vstd::arithmetic::div_mod::lemma_fundamental_div_mod_converse(
                v as int,
                10,
                va,
                digit_value(c),
            );
        }
        assert(is_digit_char(c)) by {
            assert(c == s[s.len() - 1]);
        }
        lemma_digit_value_char(c);
        assert(spec_dec(v as nat) =~= s);
    }
}

/// One-character strings for the ten digits.
fn digit_str(d: u64) -> (r: &'static str)
    requires
        d < 10,
    ensures
        r@ == seq![digit_char(d as int)],
{
    proof {
        reveal_strlit("0");
        reveal_strlit("1");
        reveal_strlit("2");
        reveal_strlit("3");
        reveal_strlit("4");
        reveal_strlit("5");
        reveal_strlit("6");
        reveal_strlit("7");
        reveal_strlit("8");
        reveal_strlit("9");
    }
    let r = if d == 0 {
        "0"
    } else if d == 1 {
        "1"
    } else if d == 2 {
        "2"
    } else if d == 3 {
        "3"
    } else if d == 4 {
        "4"
    } else if d == 5 {
        "5"
    } else if d == 6 {
        "6"
    } else if d == 7 {
        "7"
    } else if d == 8 {
        "8"
    } else {
        "9"
    };
    proof {
        assert(r@ =~= seq![digit_char(d as int)]);
    }
    r
}

/// Decimal text of `n`.
pub fn u64_to_string(n: u64) -> (r: String)
    ensures
        r@ == spec_dec(n as nat),
    decreases n,
{
    if n < 10 {
        digit_str(n).to_owned()
    } else {
        let mut s = u64_to_string(n / 10);
        s.append(digit_str(n % 10));
        s
    }
}

/// Parse decimal text as a `u64`; `None` when the text is empty, has a
/// non-digit, or its value does not fit.
pub fn parse_u64(s: &str) -> (r: Option<u64>)
    ensures
        r == spec_parse_u64(s@),
{
    let len = s.unicode_len();
    if len == 0 {
        return None;
    }
    let mut acc: u64 = 0;
    let mut i: usize = 0;
    while i < len
        invariant
            0 < len == s@.len(),
            0 <= i <= len,
            all_digits(s@.subrange(0, i as int)),
            acc == digits_value(s@.subrange(0, i as int)),
        decreases len - i,
    {
        let c = s.get_char(i);
        let cv = c as u32;
        if cv < 48 || cv > 57 {
            assert(!is_digit_char(s@[i as int]));
            return None;
        }
        let d = (cv - 48) as u64;
        let ghost prefix = s@.subrange(0, i as int);
        let ghost next_prefix = s@.subrange(0, i as int + 1);
        proof {
            assert(next_prefix.drop_last() =~= prefix);
            assert(next_prefix.last() == s@[i as int]);
        }
        if acc > (u64::MAX - d) / 10 {
            proof {
                lemma_digits_value_nonneg(prefix);
                assert(acc * 10 + d > u64::MAX) by {
                    let q = (u64::MAX - d) / 10;
                    vstd::arithmetic::div_mod::lemma_fundamental_div_mod(u64::MAX - d, 10);
                    assert(acc >= q + 1);
                    assert(acc * 10 >= (q + 1) * 10) by (nonlinear_arith)
                        requires
                            acc >= q + 1,
                    ;
                }
                if all_digits(s@) {
                    lemma_digits_value_prefix(s@, i as int + 1);
                    assert(digits_value(s@) > u64::MAX);
                }
            }
            return None;
        }
        proof {
            lemma_digits_value_nonneg(prefix);
            assert(acc * 10 + d <= u64::MAX) by {
                let q = (u64::MAX - d) / 10;
                vstd::arithmetic::div_mod::lemma_fundamental_div_mod(u64::MAX - d, 10);
                assert(acc <= q);
                assert(acc * 10 <= q * 10) by (nonlinear_arith)
                    requires
                        acc <= q,
                ;
            }
        }
        acc = acc * 10 + d;
        i = i + 1;
    }
    proof {
        assert(s@.subrange(0, len as int) =~= s@);
    }
    Some(acc)
}

/// What parsing a decimal numeral as a `usize` yields.
pub open spec fn spec_parse_usize(s: Seq<char>) -> Option<usize> {
    if all_digits(s) && s.len() >= 1 && digits_value(s) <= usize::MAX {
        Some(digits_value(s) as usize)
    } else {
        None
    }
}

/// Parse decimal text as a `usize`; `None` when the text is empty, has a
/// non-digit, or its value does not fit.
pub fn parse_usize(s: &str) -> (r: Option<usize>)
    ensures
        r == spec_parse_usize(s@),
{
    match parse_u64(s) {
        Some(v) => {
            proof {
                lemma_digits_value_nonneg(s@);
            }
            if v <= usize::MAX as u64 {
                Some(v as usize)
            } else {
                None
            }
        },
        None => {
            proof {
                if all_digits(s@) && s@.len() >= 1 && digits_value(s@) <= usize::MAX {
                    assert(digits_value(s@) <= u64::MAX);
                }
            }
            None
        },
    }
}

} // verus!
