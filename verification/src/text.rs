//! Character-level helpers shared by the key, path and header logic.
//!
//! Strings are handled as sequences of `char` (the view vstd gives to `str`
//! and `String`); the executable helpers work on `Vec<char>` copies.
use vstd::prelude::*;

verus! {

/// `p` is a prefix of `s`.
pub open spec fn is_prefix(p: Seq<char>, s: Seq<char>) -> bool {
    p.len() <= s.len() && s.subrange(0, p.len() as int) == p
}

/// `p` is a suffix of `s`.
pub open spec fn is_suffix(p: Seq<char>, s: Seq<char>) -> bool {
    p.len() <= s.len() && s.subrange(s.len() - p.len(), s.len() as int) == p
}

/// `p` occurs somewhere inside `s`.
pub open spec fn contains_seq(s: Seq<char>, p: Seq<char>) -> bool {
    exists|i: int| 0 <= i && i + p.len() <= s.len() && #[trigger] s.subrange(i, i + p.len()) == p
}

/// `s` ends with the character `c`.
pub open spec fn ends_with_char(s: Seq<char>, c: char) -> bool {
    s.len() > 0 && s.last() == c
}

/// The character of the decimal digit `d` (`d < 10`).
pub open spec fn digit_char(d: nat) -> char {
    (d + 48) as char
}

/// `c` is one of `'0'..='9'`.
pub open spec fn is_digit(c: char) -> bool {
    '0' <= c && c <= '9'
}

/// Every character of `s` is a decimal digit.
pub open spec fn all_digits(s: Seq<char>) -> bool {
    forall|i: int| 0 <= i < s.len() ==> is_digit(#[trigger] s[i])
}

/// The decimal representation of `n`, without sign or leading zeros.
pub open spec fn decimal(n: nat) -> Seq<char>
    decreases n,
{
    if n < 10 {
        seq![digit_char(n)]
    } else {
        decimal(n / 10).push(digit_char(n % 10))
    }
}

/// The value of a string of decimal digits (0 for the empty string).
pub open spec fn digits_value(s: Seq<char>) -> nat
    decreases s.len(),
{
    if s.len() == 0 {
        0
    } else {
        digits_value(s.drop_last()) * 10 + ((s.last() as nat) - 48) as nat
    }
}

/// What `u64::from_str` returns for `s`: an optional `'+'`, then at least one
/// decimal digit, with a value that fits in 64 bits.
pub open spec fn parse_u64(s: Seq<char>) -> Option<u64> {
    let body = if s.len() > 0 && s[0] == '+' {
        s.drop_first()
    } else {
        s
    };
    if body.len() > 0 && all_digits(body) && digits_value(body) <= u64::MAX {
        Some(digits_value(body) as u64)
    } else {
        None
    }
}

/// ASCII letters `'A'..='Z'` map to lower case; every other character is kept.
pub open spec fn ascii_lower(c: char) -> char {
    if 'A' <= c && c <= 'Z' {
        ((c as int) + 32) as char
    } else {
        c
    }
}

/// Appends one character to a string.
///
/// Trusted: calls `String::push`, which std documents as appending the
/// given char to the end of the string.
#[verifier::external_body]
pub(crate) fn push_char(s: &mut String, c: char)
    ensures
        final(s)@ == old(s)@.push(c),
{
    s.push(c);
}

/// The characters of `s`, in order.
pub fn chars_of(s: &str) -> (r: Vec<char>)
    ensures
        r@ == s@,
{
    let n = s.unicode_len();
    let mut r: Vec<char> = Vec::new();
    let mut i: usize = 0;
    while i < n
        invariant
            n == s@.len(),
            i <= n,
            r@ == s@.subrange(0, i as int),
        decreases n - i,
    {
        let c = s.get_char(i);
        r.push(c);
        i = i + 1;
    }
    r
}

/// A string holding exactly the characters of `cs`.
pub fn string_of(cs: &Vec<char>) -> (r: String)
    ensures
        r@ == cs@,
{
    let mut r = String::new();
    let mut i: usize = 0;
    while i < cs.len()
        invariant
            i <= cs.len(),
            r@ == cs@.subrange(0, i as int),
        decreases cs.len() - i,
    {
        push_char(&mut r, cs[i]);
        i = i + 1;
    }
    r
}

/// Whether two strings hold the same characters.
pub fn str_eq(a: &str, b: &str) -> (r: bool)
    ensures
        r == (a@ == b@),
{
    let x = chars_of(a);
    let y = chars_of(b);
    chars_eq(&x, &y)
}

/// Whether two character vectors are equal.
pub fn chars_eq(x: &Vec<char>, y: &Vec<char>) -> (r: bool)
    ensures
        r == (x@ == y@),
{
    if x.len() != y.len() {
        return false;
    }
    let mut i: usize = 0;
    while i < x.len()
        invariant
            x.len() == y.len(),
            i <= x.len(),
            forall|j: int| 0 <= j < i ==> x@[j] == y@[j],
        decreases x.len() - i,
    {
        if x[i] != y[i] {
            return false;
        }
        i = i + 1;
    }
    assert(x@ =~= y@);
    true
}

/// The characters of `s` from index `from` up to (not including) `to`.
pub fn sub_chars(s: &Vec<char>, from: usize, to: usize) -> (r: Vec<char>)
    requires
        from <= to <= s.len(),
    ensures
        r@ == s@.subrange(from as int, to as int),
{
    let mut r: Vec<char> = Vec::new();
    let mut i: usize = from;
    while i < to
        invariant
            from <= i <= to,
            to <= s.len(),
            r@ == s@.subrange(from as int, i as int),
        decreases to - i,
    {
        r.push(s[i]);
        i = i + 1;
    }
    r
}

/// `s` followed by `t`.
pub fn concat_chars(s: &Vec<char>, t: &Vec<char>) -> (r: Vec<char>)
    ensures
        r@ == s@ + t@,
{
    let mut r = s.clone();
    let mut i: usize = 0;
    while i < t.len()
        invariant
            i <= t.len(),
            r@ == s@ + t@.subrange(0, i as int),
        decreases t.len() - i,
    {
        r.push(t[i]);
        i = i + 1;
        assert(t@.subrange(0, i as int) == t@.subrange(0, i - 1).push(t@[i - 1]));
    }
    assert(t@.subrange(0, t.len() as int) == t@);
    r
}

/// Whether `p` is a prefix of `s`.
pub fn has_prefix(s: &Vec<char>, p: &Vec<char>) -> (r: bool)
    ensures
        r == is_prefix(p@, s@),
{
    if p.len() > s.len() {
        return false;
    }
    let mut i: usize = 0;
    while i < p.len()
        invariant
            p.len() <= s.len(),
            i <= p.len(),
            forall|j: int| 0 <= j < i ==> s@[j] == p@[j],
        decreases p.len() - i,
    {
        if s[i] != p[i] {
            assert(s@.subrange(0, p.len() as int)[i as int] != p@[i as int]);
            return false;
        }
        i = i + 1;
    }
    assert(s@.subrange(0, p.len() as int) =~= p@);
    true
}

/// Whether `p` is a suffix of `s`.
pub fn has_suffix(s: &Vec<char>, p: &Vec<char>) -> (r: bool)
    ensures
        r == is_suffix(p@, s@),
{
    if p.len() > s.len() {
        return false;
    }
    let off = s.len() - p.len();
    let mut i: usize = 0;
    while i < p.len()
        invariant
            p.len() <= s.len(),
            off == s.len() - p.len(),
            i <= p.len(),
            forall|j: int| 0 <= j < i ==> s@[off + j] == p@[j],
        decreases p.len() - i,
    {
        if s[off + i] != p[i] {
            assert(s@.subrange(off as int, s.len() as int)[i as int] != p@[i as int]);
            return false;
        }
        i = i + 1;
    }
    assert(s@.subrange(off as int, s.len() as int) =~= p@);
    true
}

/// Whether `s` ends with the character `c`.
pub fn ends_with(s: &Vec<char>, c: char) -> (r: bool)
    ensures
        r == ends_with_char(s@, c),
{
    s.len() > 0 && s[s.len() - 1] == c
}

/// Whether `p` occurs in `s`.
pub fn contains_chars(s: &Vec<char>, p: &Vec<char>) -> (r: bool)
    ensures
        r == contains_seq(s@, p@),
{
    if p.len() > s.len() {
        assert forall|i: int| 0 <= i && i + p@.len() <= s@.len() implies #[trigger] s@.subrange(i, i + p@.len()) != p@ by {}
        return false;
    }
    let last = s.len() - p.len();
    let mut i: usize = 0;
    while i <= last
        invariant
            p.len() <= s.len(),
            last == s.len() - p.len(),
            i <= last + 1,
            forall|k: int| 0 <= k < i ==> #[trigger] s@.subrange(k, k + p@.len()) != p@,
        decreases last + 1 - i,
    {
        let mut j: usize = 0;
        let mut same = true;
        while j < p.len()
            invariant
                p.len() <= s.len(),
                i <= last,
                last == s.len() - p.len(),
                j <= p.len(),
                same == (forall|m: int| 0 <= m < j ==> s@[i + m] == p@[m]),
            decreases p.len() - j,
        {
            if s[i + j] != p[j] {
                same = false;
            }
            j = j + 1;
        }
        if same {
            assert(s@.subrange(i as int, i + p@.len()) =~= p@);
            return true;
        } else {
            assert(s@.subrange(i as int, i + p@.len()) != p@) by {
                let m = choose|m: int| 0 <= m < p.len() && s@[i + m] != p@[m];
                assert(s@.subrange(i as int, i + p@.len())[m] != p@[m]);
            }
        }
        i = i + 1;
    }
    false
}

/// The index of the first occurrence of `c` in `s`, if any.
pub fn find_char(s: &Vec<char>, c: char) -> (r: Option<usize>)
    ensures
        match r {
            Some(i) => i < s.len() && s@[i as int] == c && forall|j: int| 0 <= j < i ==> s@[j] != c,
            None => !s@.contains(c),
        },
{
    let mut i: usize = 0;
    while i < s.len()
        invariant
            i <= s.len(),
            forall|j: int| 0 <= j < i ==> s@[j] != c,
        decreases s.len() - i,
    {
        if s[i] == c {
            return Some(i);
        }
        i = i + 1;
    }
    None
}

/// The index of the last occurrence of `c` in `s`, if any.
pub fn rfind_char(s: &Vec<char>, c: char) -> (r: Option<usize>)
    ensures
        match r {
            Some(i) => i < s.len() && s@[i as int] == c && forall|j: int| i < j < s.len() ==> s@[j] != c,
            None => !s@.contains(c),
        },
{
    let mut i: usize = s.len();
    while i > 0
        invariant
            i <= s.len(),
            forall|j: int| i <= j < s.len() ==> s@[j] != c,
        decreases i,
    {
        if s[i - 1] == c {
            return Some(i - 1);
        }
        i = i - 1;
    }
    None
}

/// The same characters with ASCII upper-case letters made lower case.
pub fn to_ascii_lower(s: &Vec<char>) -> (r: Vec<char>)
    ensures
        r@ == s@.map_values(|c: char| ascii_lower(c)),
{
    let mut r: Vec<char> = Vec::new();
    let mut i: usize = 0;
    while i < s.len()
        invariant
            i <= s.len(),
            r@ == s@.subrange(0, i as int).map_values(|c: char| ascii_lower(c)),
        decreases s.len() - i,
    {
        let c = s[i];
        let l = if 'A' <= c && c <= 'Z' {
            ((c as u32) + 32) as u8 as char
        } else {
            c
        };
        r.push(l);
        i = i + 1;
        assert(s@.subrange(0, i as int).drop_last() == s@.subrange(0, i - 1));
    }
    assert(s@.subrange(0, s.len() as int) == s@);
    r
}


/// Every character of `decimal(n)` is a digit and the first one is not a
/// leading zero unless `n` is zero.
pub proof fn lemma_decimal_digits(n: nat)
    ensures
        all_digits(decimal(n)),
        decimal(n).len() > 0,
        digits_value(decimal(n)) == n,
    decreases n,
{
    let c = digit_char(n % 10);
    assert((c as nat) - 48 == n % 10);
    if n < 10 {
        assert(decimal(n) == seq![c]);
        assert(seq![c].drop_last() =~= Seq::<char>::empty());
        assert(seq![c].last() == c);
        assert(digits_value(seq![c]) == digits_value(Seq::<char>::empty()) * 10 + ((c as nat) - 48) as nat);
    } else {
        lemma_decimal_digits(n / 10);
        let d = decimal(n / 10);
        let e = d.push(c);
        assert(e.drop_last() == d);
        assert(e.last() == c);
        assert(digits_value(e) == digits_value(d) * 10 + ((c as nat) - 48) as nat);
        assert(n == (n / 10) * 10 + n % 10);
        assert forall|i: int| 0 <= i < e.len() implies is_digit(#[trigger] e[i]) by {
            if i < d.len() {
                assert(e[i] == d[i]);
            }
        }
    }
}

/// The decimal digits of `n`.
pub fn u64_to_decimal(n: u64) -> (r: Vec<char>)
    ensures
        r@ == decimal(n as nat),
    decreases n,
{
    let d = ((n % 10) as u8 + 48u8) as char;
    if n < 10 {
        let mut r: Vec<char> = Vec::new();
        r.push(d);
        assert(r@ =~= seq![digit_char(n as nat)]);
        r
    } else {
        let mut r = u64_to_decimal(n / 10);
        r.push(d);
        r
    }
}

/// A longer digit string never has a smaller value.
proof fn lemma_digits_value_grows(s: Seq<char>, i: int, j: int)
    requires
        0 <= i <= j <= s.len(),
        all_digits(s),
    ensures
        digits_value(s.subrange(0, i)) <= digits_value(s.subrange(0, j)),
    decreases j - i,
{
    if i < j {
        lemma_digits_value_grows(s, i, j - 1);
        assert(s.subrange(0, j).drop_last() == s.subrange(0, j - 1));
        assert(is_digit(s[j - 1]));
    }
}

/// Parses the characters `s[from..to]` as `u64::from_str` does.
pub fn parse_u64_chars(s: &Vec<char>, from: usize, to: usize) -> (r: Option<u64>)
    requires
        from <= to <= s.len(),
    ensures
        r == parse_u64(s@.subrange(from as int, to as int)),
{
    let ghost t = s@.subrange(from as int, to as int);
    let mut start = from;
    if from < to && s[from] == '+' {
        start = from + 1;
    }
    let ghost body = s@.subrange(start as int, to as int);
    assert(body == (if t.len() > 0 && t[0] == '+' { t.drop_first() } else { t }));
    if start == to {
        return None;
    }
    let mut acc: u64 = 0;
    let mut i: usize = start;
    while i < to
        invariant
            start <= i <= to <= s.len(),
            from <= start < to,
            t == s@.subrange(from as int, to as int),
            body == (if t.len() > 0 && t[0] == '+' { t.drop_first() } else { t }),
            body == s@.subrange(start as int, to as int),
            all_digits(s@.subrange(start as int, i as int)),
            acc as nat == digits_value(s@.subrange(start as int, i as int)),
        decreases to - i,
    {
        let c = s[i];
        if !('0' <= c && c <= '9') {
            assert(body[i - start] == c);
            assert(!all_digits(body));
            assert(parse_u64(t) == None::<u64>);
            return None;
        }
        let ghost prev = s@.subrange(start as int, i as int);
        let ghost next = s@.subrange(start as int, i + 1);
        assert(next.drop_last() == prev);
        assert(next.last() == c);
        let d = (c as u32 - 48) as u64;
        assert(d as nat == (c as nat) - 48);
        match acc.checked_mul(10) {
            None => {
                proof {
                    assert(acc * 10 > u64::MAX);
                    assert(digits_value(next) == acc * 10 + d);
                    assert(all_digits(next)) by {
                        assert forall|k: int| 0 <= k < next.len() implies is_digit(#[trigger] next[k]) by {
                            if k < prev.len() {
                                assert(next[k] == prev[k]);
                            }
                        }
                    }
                    if all_digits(body) {
                        assert(next == body.subrange(0, i + 1 - start));
                        assert(body == body.subrange(0, body.len() as int));
                        lemma_digits_value_grows(body, i + 1 - start, body.len() as int);
                    }
                }
                return None;
            },
            Some(m) => match m.checked_add(d) {
                None => {
                    proof {
                        assert(all_digits(next)) by {
                            assert forall|k: int| 0 <= k < next.len() implies is_digit(#[trigger] next[k]) by {
                                if k < prev.len() {
                                    assert(next[k] == prev[k]);
                                }
                            }
                        }
                        if all_digits(body) {
                            assert(next == body.subrange(0, i + 1 - start));
                            assert(body == body.subrange(0, body.len() as int));
                            lemma_digits_value_grows(body, i + 1 - start, body.len() as int);
                        }
                    }
                    return None;
                },
                Some(v) => {
                    acc = v;
                },
            },
        }
        i = i + 1;
        proof {
            assert forall|k: int| 0 <= k < next.len() implies is_digit(#[trigger] next[k]) by {
                if k < prev.len() {
                    assert(next[k] == prev[k]);
                }
            }
        }
    }
    Some(acc)
}

/// Printing a number in decimal and parsing it back gives the number.
pub proof fn lemma_parse_decimal(n: u64)
    ensures
        parse_u64(decimal(n as nat)) == Some(n),
{
    lemma_decimal_digits(n as nat);
    let d = decimal(n as nat);
    assert(is_digit(d[0]));
}

} // verus!
