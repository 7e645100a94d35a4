//! Small verified text utilities: ASCII digit parsing, separator stripping,
//! and digit-by-digit string building. These are the character-level pieces
//! the cron parser, the date formatter, and the revenue field cleaner share.

use vstd::prelude::*;

verus! {

/// An ASCII decimal digit.
pub open spec fn is_digit_char(c: char) -> bool {
    '0' <= c && c <= '9'
}

/// Numeric value of an ASCII digit character.
pub open spec fn digit_val(c: char) -> nat {
    (c as nat - '0' as nat) as nat
}

/// Every character of `s` is an ASCII decimal digit.
pub open spec fn all_digits(s: Seq<char>) -> bool {
    forall|i: int| 0 <= i < s.len() ==> is_digit_char(#[trigger] s[i])
}

/// Value of a digit string read in base 10, most significant digit first.
pub open spec fn digits_val(s: Seq<char>) -> nat
    decreases s.len(),
{
    if s.len() == 0 {
        0
    } else {
        digits_val(s.drop_last()) * 10 + digit_val(s.last())
    }
}

/// The character for a decimal digit value.
pub open spec fn digit_char(d: nat) -> char {
    if d == 0 {
        '0'
    } else if d == 1 {
        '1'
    } else if d == 2 {
        '2'
    } else if d == 3 {
        '3'
    } else if d == 4 {
        '4'
    } else if d == 5 {
        '5'
    } else if d == 6 {
        '6'
    } else if d == 7 {
        '7'
    } else if d == 8 {
        '8'
    } else {
        '9'
    }
}

/// `parse_digits` accepts exactly the digit strings of one to nine digits.
pub open spec fn parseable_digits(s: Seq<char>) -> bool {
    1 <= s.len() <= 9 && all_digits(s)
}

/// Ten to the `n`-th power.
pub open spec fn pow10(n: nat) -> nat
    decreases n,
{
    if n == 0 {
        1
    } else {
        10 * pow10((n - 1) as nat)
    }
}

/// Parse a short ASCII decimal number. Returns the value exactly when the
/// whole string is one to nine digits; nine digits keep the value below
/// `u32::MAX` without further checks.
pub fn parse_digits(s: &str) -> (r: Option<u32>)
    ensures
        r is Some <==> parseable_digits(s@),
        r matches Some(v) ==> v == digits_val(s@),
{
    let n = s.unicode_len();
    if n < 1 || n > 9 {
        return None;
    }
    let mut val: u32 = 0;
    let mut i: usize = 0;
    while i < n
        invariant
            0 < n == s@.len() <= 9,
            0 <= i <= n,
            all_digits(s@.subrange(0, i as int)),
            val == digits_val(s@.subrange(0, i as int)),
            val < pow10(i as nat),
        decreases n - i,
    {
        let c = s.get_char(i);
        if c < '0' || c > '9' {
            proof {
                assert(!is_digit_char(s@[i as int]));
            }
            return None;
        }
        proof {
            assert(pow10(i as nat) <= pow10(8)) by {
                lemma_pow10_mono(i as nat, 8);
            }
            assert(pow10(8) == 100000000) by {
                reveal_with_fuel(pow10, 9);
            }
        }
        let d: u32 = (c as u32) - ('0' as u32);
        val = val * 10 + d;
        proof {
            let pre = s@.subrange(0, i as int);
            let post = s@.subrange(0, i + 1int);
            assert(post.drop_last() =~= pre);
            assert(post.last() == s@[i as int]);
        }
        i = i + 1;
    }
    proof {
        assert(s@.subrange(0, n as int) =~= s@);
    }
    Some(val)
}

proof fn lemma_pow10_mono(a: nat, b: nat)
    requires
        a <= b,
    ensures
        pow10(a) <= pow10(b),
    decreases b,
{
    if a < b {
        lemma_pow10_mono(a, (b - 1) as nat);
        assert(pow10(b) == 10 * pow10((b - 1) as nat));
        assert(pow10((b - 1) as nat) >= 1) by {
            lemma_pow10_pos((b - 1) as nat);
        }
    }
}

proof fn lemma_pow10_pos(n: nat)
    ensures
        pow10(n) >= 1,
    decreases n,
{
    if n > 0 {
        lemma_pow10_pos((n - 1) as nat);
    }
}

/// A character kept by the revenue field cleaner: neither a thousands comma
/// nor a space.
pub open spec fn keeps_char(c: char) -> bool {
    c != ',' && c != ' '
}

/// The string with every comma and space removed.
pub open spec fn stripped(s: Seq<char>) -> Seq<char> {
    s.filter(|c: char| keeps_char(c))
}

/// Remove every comma and space, keeping all other characters in order.
pub fn strip_separators(s: &str) -> (r: String)
    ensures
        r@ == stripped(s@),
{
    let n = s.unicode_len();
    let mut out = String::new();
    let mut i: usize = 0;
    proof {
        reveal(Seq::filter);
        assert(s@.subrange(0, 0) =~= Seq::<char>::empty());
    }
    while i < n
        invariant
            n == s@.len(),
            0 <= i <= n,
            out@ == stripped(s@.subrange(0, i as int)),
        decreases n - i,
    {
        let c = s.get_char(i);
        if c != ',' && c != ' ' {
            let piece = s.substring_char(i, i + 1);
            out.append(piece);
        }
        proof {
            reveal(Seq::filter);
            let pre = s@.subrange(0, i as int);
            let post = s@.subrange(0, i + 1int);
            assert(post.drop_last() =~= pre);
            assert(post.last() == s@[i as int]);
            if keeps_char(s@[i as int]) {
                assert(pre.filter(|c: char| keeps_char(c)).push(s@[i as int]) =~= out@);
            }
        }
        i = i + 1;
    }
    proof {
        assert(s@.subrange(0, n as int) =~= s@);
    }
    out
}

/// Append the character of one decimal digit to a string.
pub fn push_digit(out: &mut String, d: u32)
    requires
        d < 10,
    ensures
        final(out)@ == old(out)@.push(digit_char(d as nat)),
{
    proof {
        reveal_strlit("0");
        reveal_strlit("1");
        reveal_strlit("2");
        reveal_strlit("3");
        reveal_strlit("4");
        reveal_strlit("5");
        reveal_strlit("6");
        reveal_strlit("7");
        reveal_strlit("8");
        reveal_strlit("9");
    }
    let ghost pre = out@;
    match d {
        0 => out.append("0"),
        1 => out.append("1"),
        2 => out.append("2"),
        3 => out.append("3"),
        4 => out.append("4"),
        5 => out.append("5"),
        6 => out.append("6"),
        7 => out.append("7"),
        8 => out.append("8"),
        _ => out.append("9"),
    }
    proof {
        assert(out@ =~= pre.push(digit_char(d as nat)));
    }
}

/// A signed decimal integer as `i32::from_str` accepts it: an optional
/// sign, then one or more digits, with the value in `i32` range.
pub open spec fn parseable_i32(s: Seq<char>) -> bool {
    if s.len() > 0 && (s[0] == '+' || s[0] == '-') {
        let body = s.drop_first();
        body.len() >= 1 && all_digits(body) && (if s[0] == '-' {
            digits_val(body) <= 2147483648
        } else {
            digits_val(body) <= 2147483647
        })
    } else {
        s.len() >= 1 && all_digits(s) && digits_val(s) <= 2147483647
    }
}

/// The value such a string denotes.
pub open spec fn spec_i32_val(s: Seq<char>) -> int {
    if s.len() > 0 && s[0] == '-' {
        -(digits_val(s.drop_first()) as int)
    } else if s.len() > 0 && s[0] == '+' {
        digits_val(s.drop_first()) as int
    } else {
        digits_val(s) as int
    }
}

proof fn lemma_digits_val_prefix(s: Seq<char>, i: int)
    requires
        0 <= i <= s.len(),
    ensures
        digits_val(s.subrange(0, i)) <= digits_val(s),
    decreases s.len() - i,
{
    if i < s.len() {
        let t = s.subrange(0, i + 1);
        assert(t.drop_last() =~= s.subrange(0, i));
        assert(digits_val(t) == digits_val(s.subrange(0, i)) * 10 + digit_val(t.last()));
        lemma_digits_val_prefix(s, i + 1);
    } else {
        assert(s.subrange(0, i) =~= s);
    }
}

/// Parse a signed decimal integer exactly as `i32::from_str` does: an
/// optional `+` or `-` sign, one or more digits, rejected on overflow.
pub fn parse_i32(s: &str) -> (r: Option<i32>)
    ensures
        r is Some <==> parseable_i32(s@),
        r matches Some(v) ==> v == spec_i32_val(s@),
{
    let n = s.unicode_len();
    if n == 0 {
        return None;
    }
    let first = s.get_char(0);
    let negative = first == '-';
    let start: usize = if first == '-' || first == '+' {
        1
    } else {
        0
    };
    if n - start == 0 {
        return None;
    }
    let ghost body = if start == 1 {
        s@.drop_first()
    } else {
        s@
    };
    proof {
        assert(forall|j: int| 0 <= j < body.len() ==> body[j] == s@[j + start]);
    }
    let limit: u64 = if negative {
        2147483648
    } else {
        2147483647
    };
    let mut val: u64 = 0;
    let mut i: usize = start;
    while i < n
        invariant
            n == s@.len(),
            start <= i <= n,
            start <= 1,
            (start == 1) <==> (s@[0] == '-' || s@[0] == '+'),
            negative == (n > 0 && s@[0] == '-'),
            limit == (if negative {
                2147483648u64
            } else {
                2147483647u64
            }),
            body == (if start == 1 {
                s@.drop_first()
            } else {
                s@
            }),
            body.len() == n - start,
            forall|j: int| 0 <= j < body.len() ==> body[j] == s@[j + start],
            all_digits(body.subrange(0, i - start)),
            val == digits_val(body.subrange(0, i - start)),
            val <= limit,
            limit <= 2147483648,
        decreases n - i,
    {
        let c = s.get_char(i);
        if c < '0' || c > '9' {
            proof {
                assert(body[i - start] == s@[i as int]);
                assert(!is_digit_char(body[i - start]));
            }
            return None;
        }
        let d: u64 = (c as u64) - ('0' as u64);
        val = val * 10 + d;
        proof {
            let pre = body.subrange(0, i - start);
            let post = body.subrange(0, i + 1 - start);
            assert(post.drop_last() =~= pre);
            assert(post.last() == body[i - start]);
            assert(body[i - start] == s@[i as int]);
        }
        if val > limit {
            proof {
                lemma_digits_val_prefix(body, i + 1 - start);
            }
            return None;
        }
        i = i + 1;
    }
    proof {
        assert(body.subrange(0, n - start) =~= body);
    }
    if negative {
        proof {
            assert(s@[0] == '-');
        }
        if val == 2147483648 {
            Some(i32::MIN)
        } else {
            Some(-(val as i32))
        }
    } else {
        Some(val as i32)
    }
}

} // verus!
