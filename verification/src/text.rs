//! Small, fully specified string helpers shared by the naming and parsing
//! rules of the library.
use vstd::prelude::*;
use vstd::string::*;

verus! {

/// The decimal digit character for `d`.
pub open spec fn digit_char(d: int) -> char {
    if d == 0 { '0' }
    else if d == 1 { '1' }
    else if d == 2 { '2' }
    else if d == 3 { '3' }
    else if d == 4 { '4' }
    else if d == 5 { '5' }
    else if d == 6 { '6' }
    else if d == 7 { '7' }
    else if d == 8 { '8' }
    else { '9' }
}

/// Whether `c` is one of the ASCII digits `0`..`9`.
pub open spec fn is_digit(c: char) -> bool {
    '0' <= c && c <= '9'
}

/// The numeric value of an ASCII digit.
pub open spec fn digit_value(c: char) -> int {
    (c as int) - ('0' as int)
}

/// The decimal rendering of `n`, most significant digit first, with no
/// leading zeros (`0` renders as `"0"`).
pub open spec fn decimal(n: nat) -> Seq<char>
    decreases n,
{
    if n < 10 {
        seq![digit_char(n as int)]
    } else {
        decimal(n / 10).push(digit_char((n % 10) as int))
    }
}

/// The value of a non-empty run of ASCII digits.
pub open spec fn digits_value(s: Seq<char>) -> int
    decreases s.len(),
{
    if s.len() == 0 {
        0
    } else {
        digits_value(s.drop_last()) * 10 + digit_value(s.last())
    }
}

/// Whether every character of `s` is an ASCII digit.
pub open spec fn all_digits(s: Seq<char>) -> bool {
    forall|i: int| 0 <= i < s.len() ==> is_digit(#[trigger] s[i])
}

/// What `str::parse::<uN>()` accepts for an unsigned type whose largest
/// value is `max`: an optional leading `+`, then at least one ASCII digit,
/// nothing else, and a value that fits.
pub open spec fn parse_unsigned(s: Seq<char>, max: int) -> Option<int> {
    let body = if s.len() > 0 && s[0] == '+' { s.skip(1) } else { s };
    if body.len() > 0 && all_digits(body) && digits_value(body) <= max {
        Some(digits_value(body))
    } else {
        None
    }
}

/// Calls `String::push`: appends one character to `s`. Trusted: the
/// contract states what the standard library documents, that the string
/// afterwards holds its old characters followed by `c`.
#[verifier::external_body]
pub(crate) fn push_char(s: &mut String, c: char)
    ensures
        final(s)@ == old(s)@.push(c),
{
    s.push(c);
}

proof fn lemma_digit_char_is_digit(d: int)
    requires
        0 <= d < 10,
    ensures
        is_digit(digit_char(d)),
        digit_value(digit_char(d)) == d,
{
}

/// Every character of a decimal rendering is a digit.
pub proof fn lemma_decimal_digits(n: nat)
    ensures
        all_digits(decimal(n)),
        decimal(n).len() > 0,
        digits_value(decimal(n)) == n,
    decreases n,
{
    if n < 10 {
        lemma_digit_char_is_digit(n as int);
        assert(decimal(n).drop_last() =~= Seq::<char>::empty());
        assert(digits_value(Seq::<char>::empty()) == 0);
    } else {
        lemma_decimal_digits(n / 10);
        lemma_digit_char_is_digit((n % 10) as int);
        let d = decimal(n);
        assert(d.drop_last() =~= decimal(n / 10));
        assert(d.last() == digit_char((n % 10) as int));
        assert(digits_value(d) == digits_value(decimal(n / 10)) * 10 + (n % 10));
        assert((n / 10) * 10 + n % 10 == n);
        assert forall|i: int| 0 <= i < d.len() implies is_digit(#[trigger] d[i]) by {
            if i < d.len() - 1 {
                assert(d[i] == decimal(n / 10)[i]);
            }
        }
    }
}

/// The decimal rendering of `n`, as `format!("{n}")` writes it.
pub fn u64_decimal(n: u64) -> (r: String)
    ensures
        r@ == decimal(n as nat),
{
    let mut r = String::new();
    if n == 0 {
        push_char(&mut r, '0');
        return r;
    }
    // Digits, least significant first.
    let mut digits: Vec<char> = Vec::new();
    let mut rest: u64 = n;
    while rest > 0
        invariant
            rest > 0 ==> decimal(n as nat) == decimal(rest as nat) + reversed(digits@),
            rest == 0 ==> decimal(n as nat) == reversed(digits@),
        decreases rest,
    {
        let c = digit_of(rest % 10);
        let ghost old_digits = digits@;
        digits.push(c);
        proof {
            lemma_reversed_push(old_digits, c);
            if rest >= 10 {
                assert(decimal(rest as nat) == decimal((rest / 10) as nat).push(c));
                assert(decimal((rest / 10) as nat).push(c) + reversed(old_digits)
                    =~= decimal((rest / 10) as nat) + (seq![c] + reversed(old_digits)));
            } else {
                assert(decimal(rest as nat) == seq![c]);
            }
        }
        rest = rest / 10;
    }
    let mut i: usize = digits.len();
    while i > 0
        invariant
            i <= digits@.len(),
            r@ == reversed(digits@).take((digits@.len() - i) as int),
        decreases i,
    {
        i = i - 1;
        let ghost before = r@;
        push_char(&mut r, digits[i]);
        proof {
            let rv = reversed(digits@);
            assert(rv[(digits@.len() - 1 - i) as int] == digits@[i as int]);
            assert(rv.take((digits@.len() - i) as int) =~= before.push(digits@[i as int]));
        }
    }
    proof {
        assert(reversed(digits@).take(digits@.len() as int) =~= reversed(digits@));
    }
    r
}

proof fn lemma_reversed_push(s: Seq<char>, c: char)
    ensures
        reversed(s.push(c)) =~= seq![c] + reversed(s),
{
}

/// `s` read back to front.
pub open spec fn reversed(s: Seq<char>) -> Seq<char> {
    Seq::new(s.len(), |i: int| s[s.len() - 1 - i])
}

fn digit_of(d: u64) -> (c: char)
    requires
        d < 10,
    ensures
        c == digit_char(d as int),
{
    if d == 0 { '0' }
    else if d == 1 { '1' }
    else if d == 2 { '2' }
    else if d == 3 { '3' }
    else if d == 4 { '4' }
    else if d == 5 { '5' }
    else if d == 6 { '6' }
    else if d == 7 { '7' }
    else if d == 8 { '8' }
    else { '9' }
}

/// The error text of a result, `None` for a success.
pub open spec fn err_text<T>(r: Result<T, String>) -> Option<Seq<char>> {
    match r {
        Ok(_) => None,
        Err(e) => Some(e@),
    }
}

/// A result carrying text either way, by the views of its texts.
pub open spec fn text_result_view(r: Result<String, String>) -> Result<Seq<char>, Seq<char>> {
    match r {
        Ok(t) => Ok(t@),
        Err(e) => Err(e@),
    }
}

/// Whether a result carrying text failed, and with what, by the view of
/// its error.
pub open spec fn error_view(r: Result<String, String>) -> Result<(), Seq<char>> {
    match r {
        Ok(_) => Ok(()),
        Err(e) => Err(e@),
    }
}

/// A result without a value, by the view of its error.
pub open spec fn unit_view(r: Result<(), String>) -> Result<(), Seq<char>> {
    match r {
        Ok(()) => Ok(()),
        Err(e) => Err(e@),
    }
}

/// `a` followed by `b`.
pub fn join_text(a: &str, b: &str) -> (r: String)
    ensures
        r@ == a@ + b@,
{
    let mut r = a.to_owned();
    r.append(b);
    r
}

/// An optional string, copied.
pub fn copy_opt_string(s: &Option<String>) -> (r: Option<String>)
    ensures
        r == *s,
{
    match s {
        Some(v) => Some(v.clone()),
        None => None,
    }
}

/// Whether two strings hold the same characters.
pub fn same_text(a: &str, b: &str) -> (r: bool)
    ensures
        r == (a@ == b@),
{
    let a_owned: String = a.to_owned();
    let b_owned: String = b.to_owned();
    a_owned == b_owned
}

/// The characters of `s`, in order.
pub fn chars_of(s: &str) -> (r: Vec<char>)
    ensures
        r@ == s@,
{
    let n = s.unicode_len();
    let mut r: Vec<char> = Vec::new();
    let mut i: usize = 0;
    while i < n
        invariant
            n == s@.len(),
            i <= n,
            r@ == s@.take(i as int),
        decreases n - i,
    {
        r.push(s.get_char(i));
        proof {
            assert(s@.take(i + 1) =~= s@.take(i as int).push(s@[i as int]));
        }
        i = i + 1;
    }
    proof {
        assert(s@.take(n as int) =~= s@);
    }
    r
}

/// The text of `chars[from..to]`.
pub fn text_of(chars: &Vec<char>, from: usize, to: usize) -> (r: String)
    requires
        from <= to <= chars@.len(),
    ensures
        r@ == chars@.subrange(from as int, to as int),
{
    let mut r = String::new();
    let mut i: usize = from;
    while i < to
        invariant
            from <= i <= to <= chars@.len(),
            r@ == chars@.subrange(from as int, i as int),
        decreases to - i,
    {
        push_char(&mut r, chars[i]);
        proof {
            assert(chars@.subrange(from as int, i + 1) =~= chars@.subrange(from as int, i as int).push(
                chars@[i as int],
            ));
        }
        i = i + 1;
    }
    r
}

/// Whether `pat` occurs in `s` at position `i`.
pub open spec fn occurs_at(s: Seq<char>, pat: Seq<char>, i: int) -> bool {
    0 <= i && i + pat.len() <= s.len() && s.subrange(i, i + pat.len()) == pat
}

/// Whether `pat` occurs in `s`.
pub open spec fn contains_text(s: Seq<char>, pat: Seq<char>) -> bool {
    exists|i: int| occurs_at(s, pat, i)
}

/// The position of the first occurrence of `pat` in `s`.
pub open spec fn first_occurrence(s: Seq<char>, pat: Seq<char>) -> Option<int> {
    if contains_text(s, pat) {
        Some(
            choose|i: int| occurs_at(s, pat, i) && forall|j: int| 0 <= j < i ==> !occurs_at(s, pat, j),
        )
    } else {
        None
    }
}

/// `s` split around the first occurrence of `pat`.
pub open spec fn split_once_at(s: Seq<char>, pat: Seq<char>) -> Option<(Seq<char>, Seq<char>)> {
    match first_occurrence(s, pat) {
        Some(i) => Some((s.take(i), s.skip(i + pat.len()))),
        None => None,
    }
}

/// Whether `s` starts with `pat`.
pub open spec fn starts_with_text(s: Seq<char>, pat: Seq<char>) -> bool {
    pat.len() <= s.len() && s.take(pat.len() as int) == pat
}

pub fn matches_at(s: &Vec<char>, pat: &Vec<char>, i: usize) -> (r: bool)
    requires
        i <= s@.len(),
    ensures
        r == occurs_at(s@, pat@, i as int),
{
    let n = s.len();
    if pat.len() > n - i {
        return false;
    }
    let mut k: usize = 0;
    while k < pat.len()
        invariant
            n == s@.len(),
            i + pat@.len() <= n,
            k <= pat@.len(),
            forall|m: int| 0 <= m < k ==> s@[i + m] == pat@[m],
        decreases pat@.len() - k,
    {
        if s[i + k] != pat[k] {
            proof {
                assert(s@.subrange(i as int, i + pat@.len())[k as int] != pat@[k as int]);
            }
            return false;
        }
        k = k + 1;
    }
    proof {
        assert(s@.subrange(i as int, i + pat@.len()) =~= pat@);
    }
    true
}

/// The position of the first occurrence of `pat` in `s` (see
/// [`first_occurrence`]).
pub fn find_text(s: &Vec<char>, pat: &str) -> (r: Option<usize>)
    ensures
        match r {
            Some(i) => first_occurrence(s@, pat@) == Some(i as int) && i + pat@.len() <= s@.len(),
            None => first_occurrence(s@, pat@) is None,
        },
{
    let p = chars_of(pat);
    let mut i: usize = 0;
    while i < s.len()
        invariant
            i <= s@.len(),
            p@ == pat@,
            forall|j: int| 0 <= j < i ==> !occurs_at(s@, pat@, j),
        decreases s@.len() - i,
    {
        if matches_at(s, &p, i) {
            proof {
                assert(contains_text(s@, pat@));
                let c = choose|c: int| occurs_at(s@, pat@, c) && forall|j: int| 0 <= j < c ==> !occurs_at(s@, pat@, j);
                assert(occurs_at(s@, pat@, i as int) && forall|j: int| 0 <= j < i ==> !occurs_at(s@, pat@, j));
                if c < i {
                    assert(!occurs_at(s@, pat@, c));
                }
                if c > i {
                    assert(!occurs_at(s@, pat@, i as int));
                }
            }
            return Some(i);
        }
        i = i + 1;
    }
    let last = matches_at(s, &p, s.len());
    if last {
        proof {
            assert(pat@.len() == 0);
        }
        return Some(s.len());
    }
    proof {
        assert forall|j: int| !occurs_at(s@, pat@, j) by {
            if j == s@.len() {
            }
        }
    }
    None
}

/// The value of the characters `s`, as an unsigned integer of at most
/// `max` (see [`parse_unsigned`]).
pub fn parse_unsigned_text(s: &Vec<char>, from: usize, to: usize, max: u64) -> (r: Option<u64>)
    requires
        from <= to <= s@.len(),
    ensures
        match r {
            Some(v) => parse_unsigned(s@.subrange(from as int, to as int), max as int) == Some(v as int),
            None => parse_unsigned(s@.subrange(from as int, to as int), max as int) is None,
        },
{
    let ghost whole = s@.subrange(from as int, to as int);
    let mut start = from;
    if from < to && s[from] == '+' {
        start = from + 1;
    }
    proof {
        if whole.len() > 0 && whole[0] == '+' {
            assert(whole.skip(1) =~= s@.subrange(start as int, to as int));
        } else {
            assert(whole =~= s@.subrange(start as int, to as int));
        }
    }
    if start == to {
        return None;
    }
    let mut value: u64 = 0;
    let mut i: usize = start;
    while i < to
        invariant
            from <= start < to <= s@.len(),
            start <= i <= to,
            whole == s@.subrange(from as int, to as int),
            (if whole.len() > 0 && whole[0] == '+' { whole.skip(1) } else { whole }) == s@.subrange(
                start as int,
                to as int,
            ),
            all_digits(s@.subrange(start as int, i as int)),
            value == digits_value(s@.subrange(start as int, i as int)),
            value <= max,
        decreases to - i,
    {
        let c = s[i];
        let ghost before = s@.subrange(start as int, i as int);
        proof {
            assert(s@.subrange(start as int, i + 1) =~= before.push(c));
            assert(s@.subrange(start as int, i + 1).drop_last() =~= before);
        }
        if c < '0' || c > '9' {
            proof {
                assert(!is_digit(s@.subrange(start as int, to as int)[i - start]));
            }
            return None;
        }
        let d = (c as u32 - '0' as u32) as u64;
        let next: u128 = value as u128 * 10 + d as u128;
        proof {
            assert(digits_value(before.push(c)) == value * 10 + d);
        }
        if next > max as u128 {
            proof {
                let body = s@.subrange(start as int, to as int);
                if all_digits(body) {
                    lemma_digits_prefix_bound(body, (i - start + 1) as int);
                    assert(body.take((i - start + 1) as int) =~= before.push(c));
                }
            }
            return None;
        }
        value = next as u64;
        proof {
            assert(all_digits(before.push(c)));
        }
        i = i + 1;
    }
    Some(value)
}

/// A digit string's value is at least the value of any of its prefixes.
proof fn lemma_digits_prefix_bound(s: Seq<char>, k: int)
    requires
        0 <= k <= s.len(),
        all_digits(s),
    ensures
        digits_value(s.take(k)) <= digits_value(s),
    decreases s.len() - k,
{
    if k < s.len() {
        lemma_digits_prefix_bound(s, k + 1);
        let t = s.take(k + 1);
        assert(t.drop_last() =~= s.take(k));
        assert(is_digit(t.last()));
        lemma_digits_nonneg(s.take(k));
    }
    assert(s.take(s.len() as int) =~= s);
}

proof fn lemma_digits_nonneg(s: Seq<char>)
    requires
        all_digits(s),
    ensures
        digits_value(s) >= 0,
    decreases s.len(),
{
    if s.len() > 0 {
        lemma_digits_nonneg(s.drop_last());
    }
}

/// The characters `v[from..to]`, copied.
pub fn sub_chars(v: &Vec<char>, from: usize, to: usize) -> (r: Vec<char>)
    requires
        from <= to <= v@.len(),
    ensures
        r@ == v@.subrange(from as int, to as int),
{
    let mut r: Vec<char> = Vec::new();
    let mut i: usize = from;
    while i < to
        invariant
            from <= i <= to <= v@.len(),
            r@ == v@.subrange(from as int, i as int),
        decreases to - i,
    {
        r.push(v[i]);
        proof {
            assert(v@.subrange(from as int, i + 1) =~= v@.subrange(from as int, i as int).push(v@[i as int]));
        }
        i = i + 1;
    }
    r
}

/// Whether `s` starts with `pat` (see [`starts_with_text`]).
pub fn starts_with(s: &Vec<char>, pat: &str) -> (r: bool)
    ensures
        r == starts_with_text(s@, pat@),
{
    let p = chars_of(pat);
    let r = matches_at(s, &p, 0);
    proof {
        if r {
            assert(s@.take(pat@.len() as int) =~= s@.subrange(0, pat@.len() as int));
        } else if starts_with_text(s@, pat@) {
            assert(s@.take(pat@.len() as int) =~= s@.subrange(0, pat@.len() as int));
        }
    }
    r
}

} // verus!
