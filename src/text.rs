//! Character-level helpers shared by the line parsers.
use vstd::prelude::*;
use vstd::string::*;

verus! {

/// `lit` occurs in `s` starting at position `i`.
pub open spec fn lit_at(s: Seq<char>, i: int, lit: Seq<char>) -> bool {
    0 <= i && i + lit.len() <= s.len() && s.subrange(i, i + lit.len()) == lit
}

/// No character of `s` is a line feed.
pub open spec fn single_line(s: Seq<char>) -> bool {
    forall|i: int| 0 <= i < s.len() ==> s[i] != '\n'
}

/// No character of `s` is an ASCII space.
pub open spec fn no_space(s: Seq<char>) -> bool {
    forall|i: int| 0 <= i < s.len() ==> s[i] != ' '
}

pub open spec fn is_ascii_digit(c: char) -> bool {
    '0' <= c && c <= '9'
}

/// A non-empty run of ASCII decimal digits.
pub open spec fn all_digits(s: Seq<char>) -> bool {
    s.len() > 0 && forall|i: int| 0 <= i < s.len() ==> is_ascii_digit(s[i])
}

/// The value of a run of decimal digits, most significant first.
pub open spec fn digits_value(s: Seq<char>) -> nat
    decreases s.len(),
{
    if s.len() == 0 {
        0
    } else {
        digits_value(s.drop_last()) * 10 + (s.last() as nat - '0' as nat) as nat
    }
}

/// Digits with an optional leading minus sign.
pub open spec fn signed_digits(s: Seq<char>) -> bool {
    all_digits(s) || (s.len() > 0 && s[0] == '-' && all_digits(s.drop_first()))
}

pub open spec fn signed_value(s: Seq<char>) -> int {
    if s.len() > 0 && s[0] == '-' {
        -digits_value(s.drop_first())
    } else {
        digits_value(s) as int
    }
}

/// The least position in `i..len` that satisfies `p`, or `len` if none does.
pub open spec fn first_from(len: int, i: int, p: spec_fn(int) -> bool) -> int
    decreases len - i,
{
    if i >= len {
        len
    } else if p(i) {
        i
    } else {
        first_from(len, i + 1, p)
    }
}

/// The greatest position in `0..i` that satisfies `p`, or `-1` if none does.
pub open spec fn last_below(i: int, p: spec_fn(int) -> bool) -> int
    decreases i,
{
    if i <= 0 {
        -1
    } else if p(i - 1) {
        i - 1
    } else {
        last_below(i - 1, p)
    }
}

pub open spec fn char_pred(s: Seq<char>, c: char) -> spec_fn(int) -> bool {
    |k: int| 0 <= k < s.len() && s[k] == c
}

pub open spec fn lit_pred(s: Seq<char>, lit: Seq<char>) -> spec_fn(int) -> bool {
    |k: int| lit_at(s, k, lit)
}

/// Position of the first `c` in `s` at or after `i`, or `s.len()`.
pub open spec fn next_char(s: Seq<char>, i: int, c: char) -> int {
    first_from(s.len() as int, i, char_pred(s, c))
}

/// Position of the first occurrence of `lit` in `s` at or after `i`, or `s.len()`.
pub open spec fn next_lit(s: Seq<char>, i: int, lit: Seq<char>) -> int {
    first_from(s.len() as int, i, lit_pred(s, lit))
}

/// Position of the last occurrence of `lit` in `s`, or `-1`.
pub open spec fn last_lit(s: Seq<char>, lit: Seq<char>) -> int {
    last_below(s.len() as int, lit_pred(s, lit))
}

pub proof fn lemma_first_from(len: int, i: int, p: spec_fn(int) -> bool)
    requires
        i <= len,
    ensures
        i <= first_from(len, i, p) <= len,
        first_from(len, i, p) < len ==> p(first_from(len, i, p)),
        forall|k: int| i <= k < first_from(len, i, p) ==> !#[trigger] p(k),
    decreases len - i,
{
    if i < len && !p(i) {
        lemma_first_from(len, i + 1, p);
    }
}

pub proof fn lemma_last_below(i: int, p: spec_fn(int) -> bool)
    requires
        0 <= i,
    ensures
        -1 <= last_below(i, p) < i,
        last_below(i, p) >= 0 ==> p(last_below(i, p)),
        forall|k: int| last_below(i, p) < k < i ==> !#[trigger] p(k),
    decreases i,
{
    if i > 0 && !p(i - 1) {
        lemma_last_below(i - 1, p);
    }
}

pub proof fn lemma_digits_value_prefix(s: Seq<char>, i: int)
    requires
        0 <= i <= s.len(),
    ensures
        digits_value(s.take(i)) <= digits_value(s),
    decreases s.len(),
{
    if i < s.len() {
        assert(s.drop_last().take(i) =~= s.take(i));
        lemma_digits_value_prefix(s.drop_last(), i);
    } else {
        assert(s.take(i) =~= s);
    }
}

/// The characters of `s`, one per element.
pub fn chars_of(s: &str) -> (r: Vec<char>)
    ensures
        r@ == s@,
{
    let n = s.unicode_len();
    let mut r: Vec<char> = Vec::new();
    let mut i: usize = 0;
    while i < n
        invariant
            n == s@.len(),
            i <= n,
            r@ == s@.take(i as int),
        decreases n - i,
    {
        r.push(s.get_char(i));
        i = i + 1;
        assert(r@ =~= s@.take(i as int));
    }
    assert(s@.take(n as int) =~= s@);
    r
}

/// An owned copy of the characters `from..to` of `s`.
pub fn text_of(s: &str, from: usize, to: usize) -> (r: String)
    requires
        from <= to <= s@.len(),
    ensures
        r@ == s@.subrange(from as int, to as int),
{
    String::from_str(s.substring_char(from, to))
}

/// Whether `lit` occurs in `cs` at position `i`.
pub fn has_at(cs: &Vec<char>, i: usize, lit: &str) -> (r: bool)
    ensures
        r == lit_at(cs@, i as int, lit@),
{
    let n = lit.unicode_len();
    if i > cs.len() || n > cs.len() - i {
        return false;
    }
    let mut j: usize = 0;
    while j < n
        invariant
            n == lit@.len(),
            i + n <= cs.len(),
            j <= n,
            forall|k: int| 0 <= k < j ==> cs@[i + k] == lit@[k],
        decreases n - j,
    {
        assert(i + j < cs@.len());
        if cs[i + j] != lit.get_char(j) {
            assert(cs@.subrange(i as int, i + n)[j as int] != lit@[j as int]);
            return false;
        }
        j = j + 1;
    }
    assert(cs@.subrange(i as int, i + n) =~= lit@);
    true
}

/// Whether `cs` is exactly `lit`.
pub fn equals_lit(cs: &Vec<char>, lit: &str) -> (r: bool)
    ensures
        r == (cs@ == lit@),
{
    if cs.len() != lit.unicode_len() {
        return false;
    }
    let r = has_at(cs, 0, lit);
    assert(cs@.subrange(0, cs@.len() as int) =~= cs@);
    r
}

/// Whether no character of `cs` is a line feed.
pub fn is_single_line(cs: &Vec<char>) -> (r: bool)
    ensures
        r == single_line(cs@),
{
    let mut i: usize = 0;
    while i < cs.len()
        invariant
            i <= cs@.len(),
            forall|k: int| 0 <= k < i ==> cs@[k] != '\n',
        decreases cs@.len() - i,
    {
        if cs[i] == '\n' {
            return false;
        }
        i = i + 1;
    }
    true
}

/// Position of the first `c` in `cs` at or after `i`, or `cs.len()`.
pub fn find_char(cs: &Vec<char>, i: usize, c: char) -> (r: usize)
    requires
        i <= cs@.len(),
    ensures
        r == next_char(cs@, i as int, c),
        i <= r <= cs@.len(),
{
    let mut k: usize = i;
    while k < cs.len()
        invariant
            i <= k <= cs@.len(),
            next_char(cs@, i as int, c) == next_char(cs@, k as int, c),
        decreases cs@.len() - k,
    {
        if cs[k] == c {
            return k;
        }
        k = k + 1;
    }
    k
}

/// Position of the first occurrence of `lit` in `cs` at or after `i`, or `cs.len()`.
pub fn find_lit(cs: &Vec<char>, i: usize, lit: &str) -> (r: usize)
    requires
        i <= cs@.len(),
    ensures
        r == next_lit(cs@, i as int, lit@),
        i <= r <= cs@.len(),
{
    let mut k: usize = i;
    while k < cs.len()
        invariant
            i <= k <= cs@.len(),
            next_lit(cs@, i as int, lit@) == next_lit(cs@, k as int, lit@),
        decreases cs@.len() - k,
    {
        if has_at(cs, k, lit) {
            return k;
        }
        k = k + 1;
    }
    k
}

/// Position of the last occurrence of `lit` in `cs`, if any.
pub fn rfind_lit(cs: &Vec<char>, lit: &str) -> (r: Option<usize>)
    ensures
        match r {
            Some(k) => k == last_lit(cs@, lit@),
            None => last_lit(cs@, lit@) == -1,
        },
{
    let mut k: usize = cs.len();
    while k > 0
        invariant
            k <= cs@.len(),
            last_lit(cs@, lit@) == last_below(k as int, lit_pred(cs@, lit@)),
        decreases k,
    {
        if has_at(cs, k - 1, lit) {
            return Some(k - 1);
        }
        k = k - 1;
    }
    None
}

/// The value of the digits `from..to` of `cs` when they form a non-empty
/// run of ASCII digits whose value is at most `max`.
pub fn parse_digits(cs: &Vec<char>, from: usize, to: usize, max: u64) -> (r: Option<u64>)
    requires
        from <= to <= cs@.len(),
    ensures
        ({
            let d = cs@.subrange(from as int, to as int);
            match r {
                Some(v) => all_digits(d) && digits_value(d) <= max && v == digits_value(d),
                None => !(all_digits(d) && digits_value(d) <= max),
            }
        }),
{
    let ghost d = cs@.subrange(from as int, to as int);
    if from == to {
        return None;
    }
    let mut acc: u64 = 0;
    let mut i: usize = from;
    while i < to
        invariant
            from <= i <= to <= cs@.len(),
            d == cs@.subrange(from as int, to as int),
            forall|k: int| from <= k < i ==> is_ascii_digit(cs@[k]),
            acc == digits_value(d.take(i - from)),
            acc <= max,
        decreases to - i,
    {
        let c = cs[i];
        assert(d.take(i - from + 1).drop_last() =~= d.take(i - from));
        if !('0' <= c && c <= '9') {
            assert(!is_ascii_digit(d[i - from]));
            return None;
        }
        let digit = (c as u32 - '0' as u32) as u64;
        if acc > max / 10 || digit > max - acc * 10 {
            proof {
                assert(acc * 10 + digit > max) by (nonlinear_arith)
                    requires acc > max / 10 || (acc <= max / 10 && digit > max - acc * 10);
                if all_digits(d) {
                    lemma_digits_value_prefix(d, i - from + 1);
                }
            }
            return None;
        }
        assert(acc * 10 <= max) by (nonlinear_arith)
            requires acc <= max / 10;
        acc = acc * 10 + digit;
        i = i + 1;
    }
    assert(d.take(to - from) =~= d);
    Some(acc)
}

} // verus!
