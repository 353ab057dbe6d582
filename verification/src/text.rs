//! Character-level building blocks shared by every parser and formatter
//! in the crate: decimal numbers the way `str::parse::<u32>` reads them
//! and `u32::to_string` writes them, Unicode whitespace trimming, ASCII
//! case folding, and string assembly.

use vstd::prelude::*;

verus! {

// ---------------------------------------------------------------------
// Decimal digits
// ---------------------------------------------------------------------

/// An ASCII decimal digit.
pub open spec fn is_digit(c: char) -> bool {
    '0' <= c && c <= '9'
}

/// Every character of `s` is an ASCII decimal digit.
pub open spec fn all_digits(s: Seq<char>) -> bool {
    forall|i: int| 0 <= i < s.len() ==> #[trigger] is_digit(s[i])
}

/// The numeric value of one digit character.
pub open spec fn digit_val(c: char) -> nat {
    (c as int - '0' as int) as nat
}

/// The value of a string of digits, most significant first.
pub open spec fn digits_value(s: Seq<char>) -> nat
    decreases s.len(),
{
    if s.len() == 0 {
        0
    } else {
        digits_value(s.drop_last()) * 10 + digit_val(s.last())
    }
}

/// What `str::parse::<u32>` reads past an optional leading `+`.
pub open spec fn unsigned_body(s: Seq<char>) -> Seq<char> {
    if s.len() > 0 && s[0] == '+' {
        s.skip(1)
    } else {
        s
    }
}

/// `str::parse::<u32>`: an optional `+`, then one or more ASCII digits
/// whose value fits in a `u32`. Anything else (empty, a sign alone, any
/// other character, overflow) is an error.
pub open spec fn parse_u32_spec(s: Seq<char>) -> Option<u32> {
    let b = unsigned_body(s);
    if b.len() > 0 && all_digits(b) && digits_value(b) <= u32::MAX {
        Some(digits_value(b) as u32)
    } else {
        None
    }
}

/// The digit character for `d < 10`.
pub open spec fn digit_char(d: nat) -> char {
    ((d + '0' as nat) as char)
}

/// `n` written in decimal, without leading zeros (`0` is `"0"`).
pub open spec fn decimal(n: nat) -> Seq<char>
    decreases n,
{
    if n < 10 {
        seq![digit_char(n)]
    } else {
        decimal(n / 10).push(digit_char(n % 10))
    }
}

/// A decimal rendering is a non-empty run of digits whose value is the
/// number rendered.
pub proof fn lemma_decimal(n: nat)
    ensures
        decimal(n).len() > 0,
        all_digits(decimal(n)),
        digits_value(decimal(n)) == n,
        decimal(n)[0] != '+',
        decimal(n)[0] != '.',
        !is_whitespace(decimal(n)[0]),
    decreases n,
{
    let d = decimal(n);
    lemma_digit_char((n % 10) as nat);
    if n >= 10 {
        lemma_decimal(n / 10);
        assert(d.drop_last() =~= decimal(n / 10));
        assert(d[0] == decimal(n / 10)[0]);
        assert(n == (n / 10) * 10 + n % 10);
        assert(d.last() == digit_char((n % 10) as nat));
        assert(digits_value(d) == digits_value(d.drop_last()) * 10 + digit_val(d.last()));
        assert forall|i: int| 0 <= i < d.len() implies #[trigger] is_digit(d[i]) by {
            if i < d.len() - 1 {
                assert(d[i] == decimal(n / 10)[i]);
            }
        }
    } else {
        assert(d.drop_last() =~= Seq::<char>::empty());
        assert(n % 10 == n);
        assert(d.last() == digit_char(n));
        assert(digits_value(d) == digits_value(d.drop_last()) * 10 + digit_val(d.last()));
    }
}

/// Digit characters round-trip through their values.
pub proof fn lemma_digit_char(k: nat)
    requires
        k < 10,
    ensures
        is_digit(digit_char(k)),
        digit_val(digit_char(k)) == k,
        digit_char(k) != '+',
        digit_char(k) != '.',
        !is_whitespace(digit_char(k)),
{
    assert(('0' as int) == 48);
    assert(('9' as int) == 57);
}

/// Reading back a decimal rendering gives the number.
pub proof fn lemma_parse_decimal(n: u32)
    ensures
        parse_u32_spec(decimal(n as nat)) == Some(n),
{
    lemma_decimal(n as nat);
    assert(unsigned_body(decimal(n as nat)) =~= decimal(n as nat));
}

/// A decimal rendering holds no `.`.
pub proof fn lemma_decimal_no_dot(n: nat)
    ensures
        forall|i: int| 0 <= i < decimal(n).len() ==> decimal(n)[i] != '.',
{
    lemma_decimal(n);
    assert forall|i: int| 0 <= i < decimal(n).len() implies decimal(n)[i] != '.' by {
        assert(is_digit(decimal(n)[i]));
    }
}

/// The exec counterpart of [`digit_char`].
pub fn digit_to_char(d: u32) -> (c: char)
    requires
        d < 10,
    ensures
        c == digit_char(d as nat),
{
    match d {
        0 => '0',
        1 => '1',
        2 => '2',
        3 => '3',
        4 => '4',
        5 => '5',
        6 => '6',
        7 => '7',
        8 => '8',
        _ => '9',
    }
}

/// Append `n` in decimal to `out`.
pub fn push_decimal(out: &mut String, n: u32)
    ensures
        final(out)@ == old(out)@ + decimal(n as nat),
    decreases n,
{
    if n >= 10 {
        push_decimal(out, n / 10);
    }
    let c = digit_to_char(n % 10);
    push_char(out, c);
    proof {
        if n >= 10 {
            assert(decimal(n as nat) == decimal((n / 10) as nat).push(digit_char((n % 10) as nat)));
        }
    }
}

/// `n.to_string()`.
pub fn u32_to_string(n: u32) -> (s: String)
    ensures
        s@ == decimal(n as nat),
{
    let mut s = String::new();
    push_decimal(&mut s, n);
    proof {
        assert(Seq::<char>::empty() + decimal(n as nat) =~= decimal(n as nat));
    }
    s
}

/// `c.is_ascii_digit()`.
pub fn is_ascii_digit(c: char) -> (b: bool)
    ensures
        b == is_digit(c),
{
    '0' <= c && c <= '9'
}

/// The value of an ASCII digit character.
pub fn digit_value_of(c: char) -> (d: u32)
    requires
        is_digit(c),
    ensures
        d as nat == digit_val(c),
        d < 10,
{
    (c as u32) - ('0' as u32)
}

/// `s.parse::<u32>().ok()`.
pub fn parse_u32(s: &str) -> (r: Option<u32>)
    ensures
        r == parse_u32_spec(s@),
{
    let len = s.unicode_len();
    let mut start: usize = 0;
    if len > 0 && s.get_char(0) == '+' {
        start = 1;
    }
    let ghost body = unsigned_body(s@);
    proof {
        assert(body =~= s@.subrange(start as int, len as int));
    }
    if start == len {
        return None;
    }
    let mut i = start;
    let mut acc: u32 = 0;
    let mut overflow = false;
    while i < len
        invariant
            start <= i <= len,
            len == s@.len(),
            body == unsigned_body(s@),
            body =~= s@.subrange(start as int, len as int),
            all_digits(s@.subrange(start as int, i as int)),
            !overflow ==> acc as nat == digits_value(s@.subrange(start as int, i as int)),
            overflow ==> digits_value(s@.subrange(start as int, i as int)) > u32::MAX,
        decreases len - i,
    {
        let c = s.get_char(i);
        if !is_ascii_digit(c) {
            proof {
                assert(body[i - start] == c);
                assert(!is_digit(body[i - start]));
                assert(!all_digits(body));
                assert(body == unsigned_body(s@));
            }
            return None;
        }
        let d = digit_value_of(c);
        let ghost prev = s@.subrange(start as int, i as int);
        let ghost next = s@.subrange(start as int, i + 1);
        proof {
            assert(next.drop_last() =~= prev);
            assert(next.last() == c);
            assert(all_digits(next)) by {
                assert forall|k: int| 0 <= k < next.len() implies is_digit(next[k]) by {
                    if k < prev.len() {
                        assert(next[k] == prev[k]);
                    }
                }
            }
        }
        if !overflow {
            if acc > 429496729 || (acc == 429496729 && d > 5) {
                overflow = true;
            } else {
                acc = acc * 10 + d;
            }
        }
        i = i + 1;
    }
    proof {
        assert(s@.subrange(start as int, len as int) =~= body);
    }
    if overflow {
        None
    } else {
        Some(acc)
    }
}

// ---------------------------------------------------------------------
// Whitespace
// ---------------------------------------------------------------------

/// `char::is_whitespace`: the Unicode `White_Space` property.
pub open spec fn is_whitespace(c: char) -> bool {
    ||| ('\u{9}' <= c && c <= '\u{d}')
    ||| c == ' '
    ||| c == '\u{85}'
    ||| c == '\u{a0}'
    ||| c == '\u{1680}'
    ||| ('\u{2000}' <= c && c <= '\u{200a}')
    ||| c == '\u{2028}'
    ||| c == '\u{2029}'
    ||| c == '\u{202f}'
    ||| c == '\u{205f}'
    ||| c == '\u{3000}'
}

/// The exec counterpart of [`is_whitespace`].
pub fn char_is_whitespace(c: char) -> (b: bool)
    ensures
        b == is_whitespace(c),
{
    ('\u{9}' <= c && c <= '\u{d}') || c == ' ' || c == '\u{85}' || c == '\u{a0}' || c
        == '\u{1680}' || ('\u{2000}' <= c && c <= '\u{200a}') || c == '\u{2028}' || c
        == '\u{2029}' || c == '\u{202f}' || c == '\u{205f}' || c == '\u{3000}'
}

/// `str::trim_start`.
pub open spec fn trim_start_spec(s: Seq<char>) -> Seq<char>
    decreases s.len(),
{
    if s.len() > 0 && is_whitespace(s[0]) {
        trim_start_spec(s.skip(1))
    } else {
        s
    }
}

/// `str::trim_end`.
pub open spec fn trim_end_spec(s: Seq<char>) -> Seq<char>
    decreases s.len(),
{
    if s.len() > 0 && is_whitespace(s.last()) {
        trim_end_spec(s.drop_last())
    } else {
        s
    }
}

/// `str::trim`.
pub open spec fn trim_spec(s: Seq<char>) -> Seq<char> {
    trim_end_spec(trim_start_spec(s))
}

/// A string that neither starts nor ends with whitespace trims to itself.
pub proof fn lemma_trim_noop(s: Seq<char>)
    requires
        s.len() > 0 ==> !is_whitespace(s[0]) && !is_whitespace(s.last()),
    ensures
        trim_spec(s) == s,
{
}

/// Digits never need trimming.
pub proof fn lemma_trim_digits(s: Seq<char>)
    requires
        all_digits(s),
    ensures
        trim_spec(s) == s,
{
    if s.len() > 0 {
        assert(is_digit(s[0]));
        assert(is_digit(s[s.len() - 1]));
    }
}

/// `s.trim()`.
pub fn trim(s: &str) -> (t: &str)
    ensures
        t@ == trim_spec(s@),
{
    let len = s.unicode_len();
    let mut i: usize = 0;
    proof {
        assert(s@.subrange(0, len as int) =~= s@);
    }
    while i < len && char_is_whitespace(s.get_char(i))
        invariant
            i <= len,
            len == s@.len(),
            trim_start_spec(s@) == trim_start_spec(s@.subrange(i as int, len as int)),
        decreases len - i,
    {
        proof {
            let cur = s@.subrange(i as int, len as int);
            assert(cur.skip(1) =~= s@.subrange(i + 1, len as int));
        }
        i = i + 1;
    }
    let ghost front = s@.subrange(i as int, len as int);
    proof {
        assert(trim_start_spec(front) == front);
    }
    let mut j: usize = len;
    while j > i && char_is_whitespace(s.get_char(j - 1))
        invariant
            i <= j <= len,
            len == s@.len(),
            front == s@.subrange(i as int, len as int),
            trim_spec(s@) == trim_end_spec(s@.subrange(i as int, j as int)),
        decreases j,
    {
        proof {
            let cur = s@.subrange(i as int, j as int);
            assert(cur.drop_last() =~= s@.subrange(i as int, j - 1));
        }
        j = j - 1;
    }
    s.substring_char(i, j)
}

// ---------------------------------------------------------------------
// ASCII case
// ---------------------------------------------------------------------

/// `char::to_ascii_lowercase`.
pub open spec fn ascii_lower(c: char) -> char {
    if 'A' <= c && c <= 'Z' {
        ((c as int + 32) as char)
    } else {
        c
    }
}

/// `str::to_ascii_lowercase`.
pub open spec fn ascii_lower_seq(s: Seq<char>) -> Seq<char> {
    s.map_values(|c: char| ascii_lower(c))
}

/// The exec counterpart of [`ascii_lower`].
pub fn char_to_ascii_lower(c: char) -> (r: char)
    ensures
        r == ascii_lower(c),
{
    if 'A' <= c && c <= 'Z' {
        let code = (c as u32) + 32;
        match code {
            97 => 'a',
            98 => 'b',
            99 => 'c',
            100 => 'd',
            101 => 'e',
            102 => 'f',
            103 => 'g',
            104 => 'h',
            105 => 'i',
            106 => 'j',
            107 => 'k',
            108 => 'l',
            109 => 'm',
            110 => 'n',
            111 => 'o',
            112 => 'p',
            113 => 'q',
            114 => 'r',
            115 => 's',
            116 => 't',
            117 => 'u',
            118 => 'v',
            119 => 'w',
            120 => 'x',
            121 => 'y',
            _ => 'z',
        }
    } else {
        c
    }
}

/// `a.eq_ignore_ascii_case(b)`.
pub fn eq_ignore_ascii_case(a: &str, b: &str) -> (r: bool)
    ensures
        r == (ascii_lower_seq(a@) == ascii_lower_seq(b@)),
{
    let la = a.unicode_len();
    let lb = b.unicode_len();
    if la != lb {
        proof {
            assert(ascii_lower_seq(a@).len() != ascii_lower_seq(b@).len());
        }
        return false;
    }
    let mut i: usize = 0;
    while i < la
        invariant
            i <= la,
            la == a@.len(),
            lb == b@.len(),
            la == lb,
            forall|k: int| 0 <= k < i ==> ascii_lower(a@[k]) == ascii_lower(b@[k]),
        decreases la - i,
    {
        if char_to_ascii_lower(a.get_char(i)) != char_to_ascii_lower(b.get_char(i)) {
            proof {
                assert(ascii_lower_seq(a@)[i as int] != ascii_lower_seq(b@)[i as int]);
            }
            return false;
        }
        i = i + 1;
    }
    proof {
        assert(ascii_lower_seq(a@) =~= ascii_lower_seq(b@));
    }
    true
}

// ---------------------------------------------------------------------
// Comparison and assembly
// ---------------------------------------------------------------------

/// `a == b` on string slices.
pub fn str_eq(a: &str, b: &str) -> (r: bool)
    ensures
        r == (a@ == b@),
{
    let la = a.unicode_len();
    let lb = b.unicode_len();
    if la != lb {
        return false;
    }
    let mut i: usize = 0;
    while i < la
        invariant
            i <= la,
            la == a@.len(),
            lb == b@.len(),
            la == lb,
            forall|k: int| 0 <= k < i ==> a@[k] == b@[k],
        decreases la - i,
    {
        if a.get_char(i) != b.get_char(i) {
            return false;
        }
        i = i + 1;
    }
    proof {
        assert(a@ =~= b@);
    }
    true
}

/// `s.starts_with(prefix)`.
pub fn starts_with(s: &str, prefix: &str) -> (r: bool)
    ensures
        r == (prefix@.len() <= s@.len() && s@.subrange(0, prefix@.len() as int) == prefix@),
{
    let ls = s.unicode_len();
    let lp = prefix.unicode_len();
    if lp > ls {
        return false;
    }
    let mut i: usize = 0;
    while i < lp
        invariant
            i <= lp <= ls,
            ls == s@.len(),
            lp == prefix@.len(),
            forall|k: int| 0 <= k < i ==> s@[k] == prefix@[k],
        decreases lp - i,
    {
        if s.get_char(i) != prefix.get_char(i) {
            proof {
                assert(s@.subrange(0, lp as int)[i as int] != prefix@[i as int]);
            }
            return false;
        }
        i = i + 1;
    }
    proof {
        assert(s@.subrange(0, lp as int) =~= prefix@);
    }
    true
}

/// `s.contains(needle)`: `needle` occurs at some position of `s`.
pub open spec fn occurs_at(s: Seq<char>, needle: Seq<char>, at: int) -> bool {
    0 <= at && at + needle.len() <= s.len() && s.subrange(at, at + needle.len()) == needle
}

/// `s.contains(needle)`.
pub fn contains(s: &str, needle: &str) -> (r: bool)
    ensures
        r == exists|at: int| occurs_at(s@, needle@, at),
{
    let ls = s.unicode_len();
    let ln = needle.unicode_len();
    if ln > ls {
        proof {
            assert forall|at: int| !occurs_at(s@, needle@, at) by {}
        }
        return false;
    }
    let mut at: usize = 0;
    while at <= ls - ln
        invariant
            ln <= ls,
            ls == s@.len(),
            ln == needle@.len(),
            at <= ls - ln + 1,
            forall|p: int| 0 <= p < at ==> !occurs_at(s@, needle@, p),
        decreases ls + 1 - at,
    {
        let mut k: usize = 0;
        let mut same = true;
        while k < ln
            invariant
                k <= ln,
                at + ln <= ls,
                ls == s@.len(),
                ln == needle@.len(),
                same == forall|q: int| 0 <= q < k ==> s@[at + q] == needle@[q],
            decreases ln - k,
        {
            if s.get_char(at + k) != needle.get_char(k) {
                same = false;
            }
            k = k + 1;
        }
        if same {
            proof {
                assert(s@.subrange(at as int, at + ln) =~= needle@);
                assert(occurs_at(s@, needle@, at as int));
            }
            return true;
        }
        proof {
            assert(!occurs_at(s@, needle@, at as int)) by {
                let q = choose|q: int| 0 <= q < ln && s@[at + q] != needle@[q];
                assert(s@.subrange(at as int, at + ln)[q] != needle@[q]);
            }
        }
        at = at + 1;
    }
    proof {
        assert forall|p: int| !occurs_at(s@, needle@, p) by {
            if p >= at {
                assert(p + ln > ls);
            }
        }
    }
    false
}

/// `i` is the first position of `c` in `s`.
pub open spec fn is_first_index_of(s: Seq<char>, c: char, i: int) -> bool {
    0 <= i < s.len() && s[i] == c && forall|j: int| 0 <= j < i ==> s[j] != c
}

/// The first position of `c` in `s`, if it occurs.
pub open spec fn find_char_spec(s: Seq<char>, c: char) -> Option<int> {
    if exists|i: int| is_first_index_of(s, c, i) {
        Some(choose|i: int| is_first_index_of(s, c, i))
    } else {
        None
    }
}

/// Only one position can be the first occurrence.
pub proof fn lemma_first_index_unique(s: Seq<char>, c: char, i: int, j: int)
    requires
        is_first_index_of(s, c, i),
        is_first_index_of(s, c, j),
    ensures
        i == j,
{
    if i < j {
        assert(s[i] != c);
    } else if j < i {
        assert(s[j] != c);
    }
}

/// The first position of `c` in `s` at or after `from`.
pub fn find_char_from(s: &str, c: char, from: usize) -> (r: Option<usize>)
    requires
        from <= s@.len(),
    ensures
        match r {
            Some(i) => from <= i < s@.len() && s@[i as int] == c && forall|j: int|
                from <= j < i ==> s@[j] != c,
            None => forall|j: int| from <= j < s@.len() ==> s@[j] != c,
        },
{
    let len = s.unicode_len();
    let mut i = from;
    while i < len
        invariant
            from <= i <= len,
            len == s@.len(),
            forall|j: int| from <= j < i ==> s@[j] != c,
        decreases len - i,
    {
        if s.get_char(i) == c {
            return Some(i);
        }
        i = i + 1;
    }
    None
}

/// `i` is the last position of `c` in `s`.
pub open spec fn is_last_index_of(s: Seq<char>, c: char, i: int) -> bool {
    0 <= i < s.len() && s[i] == c && forall|j: int| i < j < s.len() ==> s[j] != c
}

/// The last position of `c` in `s`, if it occurs.
pub open spec fn rfind_char_spec(s: Seq<char>, c: char) -> Option<int> {
    if exists|i: int| is_last_index_of(s, c, i) {
        Some(choose|i: int| is_last_index_of(s, c, i))
    } else {
        None
    }
}

/// The last position of `c` in `s`.
pub fn rfind_char(s: &str, c: char) -> (r: Option<usize>)
    ensures
        match r {
            Some(i) => rfind_char_spec(s@, c) == Some(i as int),
            None => rfind_char_spec(s@, c) is None,
        },
{
    let len = s.unicode_len();
    let mut i = len;
    while i > 0
        invariant
            i <= len,
            len == s@.len(),
            forall|j: int| i <= j < len ==> s@[j] != c,
        decreases i,
    {
        if s.get_char(i - 1) == c {
            proof {
                assert(is_last_index_of(s@, c, i - 1));
                let w = choose|k: int| is_last_index_of(s@, c, k);
                if w < i - 1 {
                    assert(s@[i - 1] != c);
                } else if w > i - 1 {
                    assert(s@[w] != c);
                }
            }
            return Some(i - 1);
        }
        i = i - 1;
    }
    proof {
        assert forall|k: int| !is_last_index_of(s@, c, k) by {
            if 0 <= k < len {
                assert(s@[k] != c);
            }
        }
    }
    None
}

/// `s.ends_with(suffix)`.
pub fn ends_with(s: &str, suffix: &str) -> (r: bool)
    ensures
        r == (suffix@.len() <= s@.len() && s@.subrange(
            s@.len() - suffix@.len(),
            s@.len() as int,
        ) == suffix@),
{
    let ls = s.unicode_len();
    let lx = suffix.unicode_len();
    if lx > ls {
        return false;
    }
    let tail = s.substring_char(ls - lx, ls);
    str_eq(tail, suffix)
}

/// Append one character: `String::push`.
#[verifier::external_body]
pub(crate) fn push_char(s: &mut String, c: char)
    ensures
        final(s)@ == old(s)@.push(c),
{
    s.push(c)
}

/// Append a string slice.
pub fn push_str(s: &mut String, t: &str)
    ensures
        final(s)@ == old(s)@ + t@,
{
    s.append(t)
}

/// An owned copy of a string slice.
pub fn to_owned_string(t: &str) -> (s: String)
    ensures
        s@ == t@,
{
    String::from_str(t)
}

/// Concatenate two string slices.
pub fn concat2(a: &str, b: &str) -> (s: String)
    ensures
        s@ == a@ + b@,
{
    let mut s = to_owned_string(a);
    push_str(&mut s, b);
    s
}

// ---------------------------------------------------------------------
// Unicode case
// ---------------------------------------------------------------------

/// What `str::to_lowercase` returns: full Unicode lowercasing.
pub uninterp spec fn unicode_lowercase(s: Seq<char>) -> Seq<char>;

/// What `str::to_uppercase` returns: full Unicode uppercasing.
pub uninterp spec fn unicode_uppercase(s: Seq<char>) -> Seq<char>;

/// Calls `str::to_lowercase`. The contract names the result
/// [`unicode_lowercase`] of the input and claims nothing else about
/// Unicode case mapping.
#[verifier::external_body]
pub(crate) fn to_lowercase(s: &str) -> (r: String)
    ensures
        r@ == unicode_lowercase(s@),
{
    s.to_lowercase()
}

/// Calls `str::to_uppercase`. The contract names the result
/// [`unicode_uppercase`] of the input and claims nothing else about
/// Unicode case mapping.
#[verifier::external_body]
pub(crate) fn to_uppercase(s: &str) -> (r: String)
    ensures
        r@ == unicode_uppercase(s@),
{
    s.to_uppercase()
}

// ---------------------------------------------------------------------
// Splitting
// ---------------------------------------------------------------------

/// The first position of `c` in `s`.
pub fn find_char(s: &str, c: char) -> (r: Option<usize>)
    ensures
        match r {
            Some(i) => find_char_spec(s@, c) == Some(i as int) && is_first_index_of(s@, c, i as int),
            None => find_char_spec(s@, c) is None,
        },
{
    match find_char_from(s, c, 0) {
        Some(i) => {
            proof {
                assert(is_first_index_of(s@, c, i as int));
                let w = choose|w: int| is_first_index_of(s@, c, w);
                lemma_first_index_unique(s@, c, w, i as int);
            }
            Some(i)
        },
        None => {
            proof {
                assert forall|w: int| !is_first_index_of(s@, c, w) by {
                    if 0 <= w < s@.len() {
                        assert(s@[w] != c);
                    }
                }
            }
            None
        },
    }
}

/// The position of the first `\n` at or after `k`, or the length.
pub open spec fn next_newline(s: Seq<char>, k: int) -> int
    decreases s.len() - k,
{
    if k >= s.len() {
        s.len() as int
    } else if s[k] == '\n' {
        k
    } else {
        next_newline(s, k + 1)
    }
}

/// A line without its `\r` before a `\n`.
pub open spec fn strip_cr(line: Seq<char>) -> Seq<char> {
    if line.len() > 0 && line.last() == '\r' {
        line.drop_last()
    } else {
        line
    }
}

/// `str::lines` from position `k` on: lines end at `\n` or `\r\n`;
/// the final line ending is optional; a bare `\r` stays.
pub open spec fn lines_from(s: Seq<char>, k: int) -> Seq<Seq<char>>
    decreases s.len() - k,
{
    if k < 0 || k >= s.len() {
        Seq::empty()
    } else {
        let e = next_newline(s, k);
        proof {
            lemma_next_newline_bounds(s, k);
        }
        if e < s.len() {
            seq![strip_cr(s.subrange(k, e))] + lines_from(s, e + 1)
        } else {
            seq![s.subrange(k, e)]
        }
    }
}

/// `str::lines`.
pub open spec fn lines_spec(s: Seq<char>) -> Seq<Seq<char>> {
    lines_from(s, 0)
}

/// The first newline at or after `k` is the one the scan found.
pub proof fn lemma_next_newline(s: Seq<char>, k: int, e: int)
    requires
        0 <= k <= e <= s.len(),
        e == s.len() || s[e] == '\n',
        forall|j: int| k <= j < e ==> s[j] != '\n',
    ensures
        next_newline(s, k) == e,
    decreases e - k,
{
    if k < e {
        lemma_next_newline(s, k + 1, e);
    }
}

/// The lines of a string, as `str::lines` splits it.
pub fn split_lines(s: &str) -> (r: Vec<String>)
    ensures
        r@.map_values(|l: String| l@) == lines_spec(s@),
{
    let len = s.unicode_len();
    let mut out: Vec<String> = Vec::new();
    let mut k: usize = 0;
    while k < len
        invariant
            k <= len,
            len == s@.len(),
            lines_spec(s@) == out@.map_values(|l: String| l@) + lines_from(s@, k as int),
        decreases len - k,
    {
        let e = match find_char_from(s, '\n', k) {
            Some(e) => e,
            None => len,
        };
        proof {
            lemma_next_newline(s@, k as int, e as int);
        }
        let line = s.substring_char(k, e);
        let ll = line.unicode_len();
        let piece = if e < len && ll > 0 && line.get_char(ll - 1) == '\r' {
            line.substring_char(0, ll - 1)
        } else {
            line
        };
        let ghost before = out@;
        out.push(to_owned_string(piece));
        proof {
            assert(piece@ == (if e < len { strip_cr(line@) } else { line@ })) by {
                if e < len && ll > 0 && line@.last() == '\r' {
                    assert(line@.drop_last() =~= line@.subrange(0, ll - 1));
                }
            }
            assert(out@.map_values(|l: String| l@) =~= before.map_values(|l: String| l@).push(
                piece@,
            ));
            if e < len {
                assert(lines_from(s@, k as int) == seq![piece@] + lines_from(s@, e + 1));
                assert(before.map_values(|l: String| l@) + lines_from(s@, k as int)
                    =~= out@.map_values(|l: String| l@) + lines_from(s@, e + 1));
            } else {
                assert(lines_from(s@, k as int) == seq![piece@]);
                assert(before.map_values(|l: String| l@) + lines_from(s@, k as int)
                    =~= out@.map_values(|l: String| l@));
            }
        }
        if e == len {
            return out;
        }
        k = e + 1;
    }
    proof {
        assert(lines_from(s@, k as int) =~= Seq::<Seq<char>>::empty());
        assert(out@.map_values(|l: String| l@) + Seq::<Seq<char>>::empty() =~= out@.map_values(
            |l: String| l@,
        ));
    }
    out
}

/// Lines from a position inside an appended tail are the tail's own.
pub proof fn lemma_lines_shift(p: Seq<char>, r: Seq<char>, k: int)
    requires
        0 <= k,
        p.len() == 0 || p.last() == '\n',
    ensures
        lines_from(p + r, p.len() + k) == lines_from(r, k),
    decreases r.len() - k,
{
    let s = p + r;
    if k < r.len() {
        let e = next_newline(r, k);
        lemma_next_newline_bounds(r, k);
        assert forall|j: int| p.len() + k <= j < p.len() + e implies s[j] != '\n' by {
            assert(s[j] == r[j - p.len()]);
            lemma_no_newline_before(r, k, j - p.len());
        }
        if e < r.len() {
            assert(s[p.len() + e] == r[e]);
        }
        lemma_next_newline(s, p.len() + k, p.len() + e);
        assert(s.subrange(p.len() + k, p.len() + e) =~= r.subrange(k, e));
        if e < r.len() {
            lemma_lines_shift(p, r, e + 1);
        }
    }
}

/// Where the next newline lies.
pub proof fn lemma_next_newline_bounds(s: Seq<char>, k: int)
    requires
        0 <= k <= s.len(),
    ensures
        k <= next_newline(s, k) <= s.len(),
        next_newline(s, k) == s.len() || s[next_newline(s, k)] == '\n',
    decreases s.len() - k,
{
    if k < s.len() && s[k] != '\n' {
        lemma_next_newline_bounds(s, k + 1);
    }
}

/// No newline lies before the next one.
pub proof fn lemma_no_newline_before(s: Seq<char>, k: int, j: int)
    requires
        0 <= k <= j < next_newline(s, k),
    ensures
        s[j] != '\n',
    decreases j - k,
{
    if k < j {
        lemma_no_newline_before(s, k + 1, j);
    }
}

/// The lines of text made of newline-free pieces, each ended by `\n`
/// and none ending in `\r`, are those pieces.
/// No line holds a newline.
pub proof fn lemma_lines_have_no_newline(s: Seq<char>, k: int)
    requires
        0 <= k,
    ensures
        forall|i: int| 0 <= i < lines_from(s, k).len() ==> !(#[trigger] lines_from(s, k)[i]).contains('\n'),
    decreases s.len() - k,
{
    if k < s.len() {
        let e = next_newline(s, k);
        lemma_next_newline_bounds(s, k);
        let line = s.subrange(k, e);
        assert(!line.contains('\n')) by {
            if line.contains('\n') {
                let j = choose|j: int| 0 <= j < line.len() && line[j] == '\n';
                lemma_no_newline_before(s, k, k + j);
            }
        }
        let first = if e < s.len() { strip_cr(line) } else { line };
        assert(!first.contains('\n')) by {
            if first.contains('\n') {
                let j = choose|j: int| 0 <= j < first.len() && first[j] == '\n';
                assert(line[j] == first[j]);
            }
        }
        if e < s.len() {
            lemma_lines_have_no_newline(s, e + 1);
            let rest = lines_from(s, e + 1);
            assert(lines_from(s, k) == seq![first] + rest);
            assert forall|i: int| 0 <= i < lines_from(s, k).len() implies !(#[trigger] lines_from(s, k)[i]).contains('\n') by {
                if i > 0 {
                    assert(lines_from(s, k)[i] == rest[i - 1]);
                }
            }
        } else {
            assert(lines_from(s, k) == seq![first]);
        }
    }
}

pub proof fn lemma_lines_of_joined(pieces: Seq<Seq<char>>)
    requires
        forall|i: int| 0 <= i < pieces.len() ==> !(#[trigger] pieces[i]).contains('\n'),
        forall|i: int|
            0 <= i < pieces.len() ==> (#[trigger] pieces[i]).len() == 0 || pieces[i].last() != '\r',
    ensures
        lines_spec(joined_lines(pieces)) == pieces,
    decreases pieces.len(),
{
    if pieces.len() > 0 {
        let first = pieces[0];
        let rest = pieces.drop_first();
        assert forall|i: int| 0 <= i < rest.len() implies !(#[trigger] rest[i]).contains('\n') by {
            assert(rest[i] == pieces[i + 1]);
        }
        assert forall|i: int|
            0 <= i < rest.len() implies (#[trigger] rest[i]).len() == 0 || rest[i].last() != '\r' by {
            assert(rest[i] == pieces[i + 1]);
        }
        lemma_lines_of_joined(rest);
        let p = first + seq!['\n'];
        let s = p + joined_lines(rest);
        assert(joined_lines(pieces) == s);
        assert forall|j: int| 0 <= j < first.len() implies s[j] != '\n' by {
            assert(s[j] == first[j]);
            if s[j] == '\n' {
                assert(first.contains('\n'));
            }
        }
        assert(s[first.len() as int] == '\n');
        lemma_next_newline(s, 0, first.len() as int);
        assert(s.subrange(0, first.len() as int) =~= first);
        lemma_lines_shift(p, joined_lines(rest), 0);
        assert(lines_from(s, 0) =~= seq![first] + lines_from(s, first.len() + 1int));
    }
}

/// Pieces joined, each followed by `\n`.
pub open spec fn joined_lines(pieces: Seq<Seq<char>>) -> Seq<char>
    decreases pieces.len(),
{
    if pieces.len() == 0 {
        Seq::empty()
    } else {
        pieces[0] + seq!['\n'] + joined_lines(pieces.drop_first())
    }
}

} // verus!
