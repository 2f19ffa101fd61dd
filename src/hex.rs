use vstd::prelude::*;
use vstd::string::*;

verus! {

/// Value of a hexadecimal digit of either case.
pub open spec fn digit_value(c: char) -> Option<int> {
    if '0' <= c && c <= '9' {
        Some(c as int - '0' as int)
    } else if 'a' <= c && c <= 'f' {
        Some(c as int - 'a' as int + 10)
    } else if 'A' <= c && c <= 'F' {
        Some(c as int - 'A' as int + 10)
    } else {
        None
    }
}

pub open spec fn all_digits(s: Seq<char>) -> bool {
    forall|i: int| 0 <= i < s.len() ==> (#[trigger] digit_value(s[i])) is Some
}

/// Value of a string of hexadecimal digits, most significant first.
pub open spec fn digits_value(s: Seq<char>) -> int
    decreases s.len(),
{
    if s.len() == 0 {
        0
    } else {
        digits_value(s.drop_last()) * 16 + digit_value(s.last())->0
    }
}

/// The digits of `s` once an optional leading `+` is taken off.
pub open spec fn unsigned_body(s: Seq<char>) -> Seq<char> {
    if s.len() > 0 && s[0] == '+' {
        s.drop_first()
    } else {
        s
    }
}

/// `s` read as an unsigned base-16 number that fits in 32 bits.
pub open spec fn hex_u32(s: Seq<char>) -> Option<u32> {
    let d = unsigned_body(s);
    if d.len() > 0 && all_digits(d) && digits_value(d) <= u32::MAX {
        Some(digits_value(d) as u32)
    } else {
        None
    }
}

proof fn lemma_digits_value_grows(s: Seq<char>, i: int)
    requires
        0 <= i <= s.len(),
        all_digits(s),
    ensures
        digits_value(s.subrange(0, i)) <= digits_value(s),
        0 <= digits_value(s.subrange(0, i)),
    decreases s.len() - i,
{
    if i < s.len() {
        lemma_digits_value_grows(s, i + 1);
        let p = s.subrange(0, i + 1);
        assert(p.drop_last() =~= s.subrange(0, i));
        assert(digit_value(s[i]) is Some);
    } else {
        assert(s.subrange(0, i) =~= s);
        lemma_digits_value_nonneg(s);
    }
}

proof fn lemma_digits_value_nonneg(s: Seq<char>)
    requires
        all_digits(s),
    ensures
        0 <= digits_value(s),
    decreases s.len(),
{
    if s.len() > 0 {
        assert(digit_value(s[s.len() - 1]) is Some);
        lemma_digits_value_nonneg(s.drop_last());
    }
}

fn digit_of(c: char) -> (r: Option<u32>)
    ensures
        match digit_value(c) {
            Some(v) => r == Some(v as u32),
            None => r is None,
        },
{
    if '0' <= c && c <= '9' {
        Some(c as u32 - '0' as u32)
    } else if 'a' <= c && c <= 'f' {
        Some(c as u32 - 'a' as u32 + 10)
    } else if 'A' <= c && c <= 'F' {
        Some(c as u32 - 'A' as u32 + 10)
    } else {
        None
    }
}

/// Reads `s` as an unsigned base-16 number: an optional `+`, then at least
/// one digit of either case, with a value that fits in 32 bits.
pub fn parse_hex(s: &str) -> (r: Option<u32>)
    ensures
        r == hex_u32(s@),
{
    let n = s.unicode_len();
    let mut i: usize = 0;
    if n > 0 && s.get_char(0) == '+' {
        i = 1;
    }
    let start = i;
    let ghost d = unsigned_body(s@);
    assert(d =~= s@.subrange(start as int, n as int));
    if start == n {
        return None;
    }
    let mut acc: u32 = 0;
    while i < n
        invariant
            start <= i <= n,
            n == s@.len(),
            d == s@.subrange(start as int, n as int),
            d == unsigned_body(s@),
            all_digits(d.subrange(0, i - start)),
            acc as int == digits_value(d.subrange(0, i - start)),
        decreases n - i,
    {
        let c = s.get_char(i);
        let ghost k = i - start;
        let ghost p = d.subrange(0, k + 1);
        assert(p.drop_last() =~= d.subrange(0, k));
        assert(c == d[k]);
        match digit_of(c) {
            None => {
                assert(digit_value(d[k]) is None);
                assert(!all_digits(d));
                return None;
            },
            Some(v) => {
                if acc > (u32::MAX - v) / 16 {
                    proof {
                        assert(acc * 16 + v > u32::MAX) by (nonlinear_arith)
                            requires
                                acc > (u32::MAX - v) / 16,
                                v < 16,
                        ;
                        assert(all_digits(p));
                        assert(digits_value(p) == digits_value(p.drop_last()) * 16 + v);
                        if all_digits(d) {
                            lemma_digits_value_grows(d, k + 1);
                        }
                    }
                    return None;
                }
                acc = acc * 16 + v;
                i = i + 1;
                assert(all_digits(p));
            },
        }
    }
    assert(d.subrange(0, n - start) =~= d);
    Some(acc)
}

} // verus!
