//! Character-level string utilities with exact specifications.

use vstd::prelude::*;

verus! {

/// Appends one character to a `String` (`String::push`).
/// The contract states what the standard library documents: the character is
/// added at the end and nothing else changes.
#[verifier::external_body]
pub(crate) fn push_char(s: &mut String, c: char)
    ensures
        final(s)@ == old(s)@.push(c),
{
    s.push(c);
}

/// The characters of `s`, in order.
pub fn chars_of(s: &str) -> (r: Vec<char>)
    ensures
        r@ == s@,
{
    let n = s.unicode_len();
    let mut r: Vec<char> = Vec::new();
    let mut i: usize = 0;
    while i < n
        invariant
            n == s@.len(),
            i <= n,
            r@ == s@.take(i as int),
        decreases n - i,
    {
        let c = s.get_char(i);
        r.push(c);
        i += 1;
        assert(r@ =~= s@.take(i as int));
    }
    assert(r@ =~= s@);
    r
}

/// A `String` holding the characters of `cs` from `from` (inclusive) to `to` (exclusive).
pub fn string_from_range(cs: &[char], from: usize, to: usize) -> (r: String)
    requires
        from <= to <= cs@.len(),
    ensures
        r@ == cs@.subrange(from as int, to as int),
{
    let mut r = String::new();
    let mut i: usize = from;
    while i < to
        invariant
            from <= i <= to <= cs@.len(),
            r@ == cs@.subrange(from as int, i as int),
        decreases to - i,
    {
        push_char(&mut r, cs[i]);
        i += 1;
        assert(r@ =~= cs@.subrange(from as int, i as int));
    }
    r
}

/// A `String` copy of `s`.
pub fn owned(s: &str) -> (r: String)
    ensures
        r@ == s@,
{
    String::from_str(s)
}

/// `a` followed by `b`.
pub fn concat2(a: &str, b: &str) -> (r: String)
    ensures
        r@ == a@ + b@,
{
    let mut r = String::from_str(a);
    r.append(b);
    r
}

/// `a`, `b` and `c` one after the other.
pub fn concat3(a: &str, b: &str, c: &str) -> (r: String)
    ensures
        r@ == a@ + b@ + c@,
{
    let mut r = String::from_str(a);
    r.append(b);
    r.append(c);
    r
}

// ---------------------------------------------------------------------------
// Decimal digits and unsigned integers
// ---------------------------------------------------------------------------

/// An ASCII decimal digit.
pub open spec fn is_digit(c: char) -> bool {
    '0' <= c && c <= '9'
}

/// The value of an ASCII decimal digit.
pub open spec fn digit_value(c: char) -> nat {
    (c as int - '0' as int) as nat
}

/// The character of a decimal digit `d < 10`.
pub open spec fn digit_char(d: nat) -> char {
    (d + '0' as int) as char
}

/// Every character of `s` is an ASCII decimal digit.
pub open spec fn all_digits(s: Seq<char>) -> bool {
    forall|i: int| 0 <= i < s.len() ==> #[trigger] is_digit(s[i])
}

/// The number that the decimal digits `s` denote (most significant first).
pub open spec fn digits_value(s: Seq<char>) -> nat
    decreases s.len(),
{
    if s.len() == 0 {
        0
    } else {
        digits_value(s.drop_last()) * 10 + digit_value(s.last())
    }
}

/// The part of `s` that must be digits when it is read as an unsigned number:
/// everything after a leading `+`, if there is one.
pub open spec fn unsigned_digits(s: Seq<char>) -> Seq<char> {
    if s.len() > 0 && s[0] == '+' {
        s.drop_first()
    } else {
        s
    }
}

/// What `str::parse::<u32>` accepts and returns: an optional leading `+`, then at
/// least one ASCII digit and nothing else, denoting a value that fits in `u32`.
#[verifier::opaque]
pub open spec fn spec_parse_u32(s: Seq<char>) -> Option<u32> {
    let d = unsigned_digits(s);
    if d.len() == 0 || !all_digits(d) || digits_value(d) > u32::MAX {
        None
    } else {
        Some(digits_value(d) as u32)
    }
}

/// The shortest decimal notation of `n` (as `Display` writes an unsigned integer).
pub open spec fn decimal(n: nat) -> Seq<char>
    decreases n,
{
    if n < 10 {
        seq![digit_char(n)]
    } else {
        decimal(n / 10).push(digit_char(n % 10))
    }
}

proof fn lemma_digit_char(d: nat)
    requires
        d < 10,
    ensures
        is_digit(digit_char(d)),
        digit_value(digit_char(d)) == d,
        digit_char(d) != '+',
{
}

/// The decimal notation is made of digits, denotes the number and never starts with `+`.
pub proof fn lemma_decimal(n: nat)
    ensures
        decimal(n).len() > 0,
        all_digits(decimal(n)),
        digits_value(decimal(n)) == n,
        decimal(n)[0] != '+',
    decreases n,
{
    if n < 10 {
        lemma_digit_char(n);
        assert(decimal(n).drop_last() =~= Seq::<char>::empty());
        assert(digits_value(Seq::<char>::empty()) == 0);
    } else {
        lemma_decimal(n / 10);
        lemma_digit_char(n % 10);
        let d = decimal(n);
        assert(d.drop_last() =~= decimal(n / 10));
        assert(d.last() == digit_char(n % 10));
        assert(digits_value(d) == digits_value(decimal(n / 10)) * 10 + digit_value(d.last()));
        assert(n == (n / 10) * 10 + n % 10);
        assert(all_digits(d)) by {
            assert forall|i: int| 0 <= i < d.len() implies #[trigger] is_digit(d[i]) by {
                if i < d.len() - 1 {
                    assert(d[i] == decimal(n / 10)[i]);
                }
            }
        }
    }
}

/// Law: reading back the decimal notation of a `u32` gives the same number.
pub proof fn lemma_parse_decimal_roundtrip(n: u32)
    ensures
        spec_parse_u32(decimal(n as nat)) == Some(n),
{
    reveal(spec_parse_u32);
    lemma_decimal(n as nat);
}

proof fn lemma_digits_value_step(s: Seq<char>, i: int)
    requires
        0 <= i < s.len(),
    ensures
        digits_value(s.take(i + 1)) == digits_value(s.take(i)) * 10 + digit_value(s[i]),
{
    assert(s.take(i + 1).drop_last() =~= s.take(i));
}

/// `str::parse::<u32>` on the characters `s`.
pub fn parse_u32(s: &[char]) -> (r: Option<u32>)
    ensures
        r == spec_parse_u32(s@),
{
    reveal(spec_parse_u32);
    let n = s.len();
    let start: usize = if n > 0 && s[0] == '+' { 1 } else { 0 };
    let ghost d = unsigned_digits(s@);
    assert(d =~= s@.subrange(start as int, n as int));
    if start == n {
        return None;
    }
    let mut value: u64 = 0;
    let mut over = false;
    let mut i: usize = start;
    while i < n
        invariant
            n == s@.len(),
            start <= i <= n,
            d =~= s@.subrange(start as int, n as int),
            d == unsigned_digits(s@),
            all_digits(d.take(i - start)),
            !over ==> value == digits_value(d.take(i - start)) && value <= u32::MAX,
            over ==> digits_value(d.take(i - start)) > u32::MAX,
        decreases n - i,
    {
        let c = s[i];
        if !('0' <= c && c <= '9') {
            assert(d[i - start] == c);
            assert(!is_digit(d[i - start]));
            assert(!all_digits(d));
            proof {
                reveal(spec_parse_u32);
            }
            return None;
        }
        proof {
            lemma_digits_value_step(d, i - start);
            assert(d.take(i - start + 1) =~= d.take(i - start).push(c));
            assert(all_digits(d.take(i - start + 1))) by {
                let t = d.take(i - start + 1);
                assert forall|j: int| 0 <= j < t.len() implies #[trigger] is_digit(t[j]) by {
                    if j < t.len() - 1 {
                        assert(t[j] == d.take(i - start)[j]);
                    }
                }
            }
        }
        let dv = (c as u32 - '0' as u32) as u64;
        if !over {
            let next = value * 10 + dv;
            if next > 0xffff_ffff {
                over = true;
            } else {
                value = next;
            }
        } else {
            assert(digits_value(d.take(i - start)) * 10 + digit_value(c) > u32::MAX)
                by (nonlinear_arith)
                requires
                    digits_value(d.take(i - start)) > u32::MAX,
            ;
        }
        i += 1;
    }
    assert(d.take(n - start) =~= d);
    if over {
        None
    } else {
        Some(value as u32)
    }
}

/// Appends the decimal notation of `n` to `out`.
pub fn push_decimal(out: &mut String, n: u64)
    ensures
        final(out)@ == old(out)@ + decimal(n as nat),
    decreases n,
{
    if n >= 10 {
        push_decimal(out, n / 10);
    }
    let d = n % 10;
    let c: char = if d == 0 {
        '0'
    } else if d == 1 {
        '1'
    } else if d == 2 {
        '2'
    } else if d == 3 {
        '3'
    } else if d == 4 {
        '4'
    } else if d == 5 {
        '5'
    } else if d == 6 {
        '6'
    } else if d == 7 {
        '7'
    } else if d == 8 {
        '8'
    } else {
        '9'
    };
    assert(c == digit_char(d as nat));
    push_char(out, c);
    proof {
        if n >= 10 {
            assert(decimal(n as nat) == decimal((n / 10) as nat).push(digit_char((n % 10) as nat)));
        }
    }
    assert(final(out)@ =~= old(out)@ + decimal(n as nat));
}

/// `s` followed by the decimal notation of `n`.
pub fn cat_num(s: String, n: u64) -> (r: String)
    ensures
        r@ == s@ + decimal(n as nat),
{
    let mut r = s;
    push_decimal(&mut r, n);
    r
}

/// The decimal notation of `n`, as `n.to_string()` writes it.
pub fn u64_to_string(n: u64) -> (r: String)
    ensures
        r@ == decimal(n as nat),
{
    let mut r = String::new();
    push_decimal(&mut r, n);
    assert(r@ =~= decimal(n as nat));
    r
}

// ---------------------------------------------------------------------------
// Searching, prefixes and case
// ---------------------------------------------------------------------------

/// The index of the first `c` in `s`, or the length of `s` when there is none.
#[verifier::opaque]
pub open spec fn first_index(s: Seq<char>, c: char) -> int {
    if s.contains(c) {
        choose|i: int| 0 <= i < s.len() && s[i] == c && forall|j: int| 0 <= j < i ==> s[j] != c
    } else {
        s.len() as int
    }
}

/// What comes before the first `c` in `s` (all of `s` when there is no `c`): the
/// first piece that `str::split(c)` yields.
pub open spec fn before_first(s: Seq<char>, c: char) -> Seq<char> {
    s.take(first_index(s, c))
}

/// What comes after the first `c` in `s`: the remaining pieces of `str::split(c)`
/// joined again with `c`.
pub open spec fn after_first(s: Seq<char>, c: char) -> Seq<char> {
    s.skip(first_index(s, c) + 1)
}

/// `str::split(c)` on `s` yields exactly two pieces: `c` occurs exactly once.
pub open spec fn splits_in_two(s: Seq<char>, c: char) -> bool {
    s.contains(c) && !after_first(s, c).contains(c)
}

/// `s` starts with `p`.
pub open spec fn starts_with(s: Seq<char>, p: Seq<char>) -> bool {
    p.len() <= s.len() && s.take(p.len() as int) == p
}

/// `s` ends with `p`.
pub open spec fn ends_with(s: Seq<char>, p: Seq<char>) -> bool {
    p.len() <= s.len() && s.skip(s.len() - p.len()) == p
}

/// `p` occurs in `s` as a contiguous piece.
pub open spec fn contains_seq(s: Seq<char>, p: Seq<char>) -> bool {
    exists|i: int| 0 <= i <= s.len() - p.len() && #[trigger] s.subrange(i, i + p.len()) == p
}

/// The code of `c` after ASCII lower-casing (`char::to_ascii_lowercase`).
pub open spec fn ascii_lower_code(c: char) -> int {
    if 'A' <= c && c <= 'Z' {
        c as int + 32
    } else {
        c as int
    }
}

/// `str::eq_ignore_ascii_case`.
pub open spec fn eq_ignore_ascii_case(a: Seq<char>, b: Seq<char>) -> bool {
    a.len() == b.len() && forall|i: int|
        0 <= i < a.len() ==> #[trigger] ascii_lower_code(a[i]) == ascii_lower_code(b[i])
}

/// The first index is the one where `c` first occurs.
pub proof fn lemma_first_index(s: Seq<char>, c: char, i: int)
    requires
        0 <= i <= s.len(),
        forall|j: int| 0 <= j < i ==> s[j] != c,
        i == s.len() || s[i] == c,
    ensures
        first_index(s, c) == i,
{
    reveal(first_index);
    if i < s.len() {
        assert(s.contains(c)) by {
            assert(s[i] == c);
        }
        let k = choose|k: int| 0 <= k < s.len() && s[k] == c && forall|j: int| 0 <= j < k ==> s[j] != c;
        assert(0 <= i < s.len() && s[i] == c && forall|j: int| 0 <= j < i ==> s[j] != c);
        if k < i {
            assert(s[k] != c);
        } else if k > i {
            assert(s[i] != c);
        }
    } else {
        assert(!s.contains(c)) by {
            if s.contains(c) {
                let k = choose|k: int| 0 <= k < s.len() && s[k] == c;
                assert(s[k] != c);
            }
        }
    }
}

/// The index of the first `c` in `s` at or after `from`, or `s.len()`.
pub fn find_char(s: &[char], c: char, from: usize) -> (r: usize)
    requires
        from <= s@.len(),
    ensures
        from <= r <= s@.len(),
        forall|j: int| from <= j < r ==> s@[j] != c,
        r < s@.len() ==> s@[r as int] == c,
{
    let mut i = from;
    while i < s.len()
        invariant
            from <= i <= s@.len(),
            forall|j: int| from <= j < i ==> s@[j] != c,
        decreases s@.len() - i,
    {
        if s[i] == c {
            return i;
        }
        i += 1;
    }
    i
}

/// The text of `s` before its first `c`, and the text after it when `c` occurs.
pub fn split_first(s: &str, c: char) -> (r: (String, Option<String>))
    ensures
        r.0@ == before_first(s@, c),
        r.1 is Some <==> s@.contains(c),
        r.1 matches Some(t) ==> t@ == after_first(s@, c),
{
    let cs = chars_of(s);
    let n = cs.len();
    let i = find_char(cs.as_slice(), c, 0);
    proof {
        lemma_first_index(s@, c, i as int);
    }
    let head = string_from_range(cs.as_slice(), 0, i);
    if i < n {
        assert(s@.contains(c)) by {
            assert(s@[i as int] == c);
        }
        let tail = string_from_range(cs.as_slice(), i + 1, n);
        assert(tail@ =~= after_first(s@, c));
        (head, Some(tail))
    } else {
        assert(!s@.contains(c)) by {
            if s@.contains(c) {
                let k = choose|k: int| 0 <= k < s@.len() && s@[k] == c;
                assert(s@[k] != c);
            }
        }
        (head, None)
    }
}

/// Whether `s` starts with `p`.
pub fn has_prefix(s: &[char], p: &[char]) -> (r: bool)
    ensures
        r == starts_with(s@, p@),
{
    if p.len() > s.len() {
        return false;
    }
    let mut i: usize = 0;
    while i < p.len()
        invariant
            p@.len() <= s@.len(),
            i <= p@.len(),
            forall|j: int| 0 <= j < i ==> s@[j] == p@[j],
        decreases p@.len() - i,
    {
        if s[i] != p[i] {
            assert(s@.take(p@.len() as int)[i as int] != p@[i as int]);
            return false;
        }
        i += 1;
    }
    assert(s@.take(p@.len() as int) =~= p@);
    true
}

/// Whether `s` ends with `p`.
pub fn has_suffix(s: &[char], p: &[char]) -> (r: bool)
    ensures
        r == ends_with(s@, p@),
{
    if p.len() > s.len() {
        return false;
    }
    let n = s.len();
    let off = n - p.len();
    let mut i: usize = 0;
    while i < p.len()
        invariant
            n == s@.len(),
            p@.len() <= s@.len(),
            off == s@.len() - p@.len(),
            i <= p@.len(),
            forall|j: int| 0 <= j < i ==> s@[off + j] == p@[j],
        decreases p@.len() - i,
    {
        if s[off + i] != p[i] {
            assert(s@.skip(off as int)[i as int] != p@[i as int]);
            return false;
        }
        i += 1;
    }
    assert(s@.skip(off as int) =~= p@);
    true
}

/// Whether `p` occurs in `s` as a contiguous piece (`str::contains`).
pub fn has_infix(s: &[char], p: &[char]) -> (r: bool)
    ensures
        r == contains_seq(s@, p@),
{
    if p.len() > s.len() {
        assert(!contains_seq(s@, p@));
        return false;
    }
    let n = s.len();
    let last = n - p.len();
    let mut i: usize = 0;
    while i <= last
        invariant
            n == s@.len(),
            p@.len() <= s@.len(),
            last == s@.len() - p@.len(),
            i <= last + 1,
            forall|k: int| 0 <= k < i ==> #[trigger] s@.subrange(k, k + p@.len()) != p@,
        decreases last + 1 - i,
    {
        let mut j: usize = 0;
        let mut same = true;
        while j < p.len()
            invariant
                n == s@.len(),
                p@.len() <= s@.len(),
                i <= last,
                last == s@.len() - p@.len(),
                j <= p@.len(),
                same == (forall|t: int| 0 <= t < j ==> s@[i + t] == #[trigger] p@[t]),
            decreases p@.len() - j,
        {
            if s[i + j] != p[j] {
                same = false;
            }
            j += 1;
        }
        if same {
            assert(s@.subrange(i as int, i + p@.len()) =~= p@);
            return true;
        } else {
            proof {
                let t = choose|t: int| 0 <= t < p@.len() && s@[i + t] != p@[t];
                assert(s@.subrange(i as int, i + p@.len())[t] != p@[t]);
            }
        }
        if i == last {
            return false;
        }
        i += 1;
    }
    false
}

/// The code point of `c`.
pub fn char_code(c: char) -> (r: u32)
    ensures
        r as int == c as int,
{
    c as u32
}

/// Whether `a` and `b` are equal ignoring ASCII case.
pub fn chars_eq_ignore_ascii_case(a: &[char], b: &[char]) -> (r: bool)
    ensures
        r == eq_ignore_ascii_case(a@, b@),
{
    if a.len() != b.len() {
        return false;
    }
    let mut i: usize = 0;
    while i < a.len()
        invariant
            a@.len() == b@.len(),
            i <= a@.len(),
            forall|j: int| 0 <= j < i ==> #[trigger] ascii_lower_code(a@[j]) == ascii_lower_code(b@[j]),
        decreases a@.len() - i,
    {
        let x = a[i];
        let y = b[i];
        let xl: u32 = if 'A' <= x && x <= 'Z' { char_code(x) + 32 } else { char_code(x) };
        let yl: u32 = if 'A' <= y && y <= 'Z' { char_code(y) + 32 } else { char_code(y) };
        if xl != yl {
            assert(ascii_lower_code(a@[i as int]) != ascii_lower_code(b@[i as int]));
            return false;
        }
        i += 1;
    }
    true
}

/// Whether the characters `a` equal those of `b`.
pub fn chars_eq(a: &[char], b: &[char]) -> (r: bool)
    ensures
        r == (a@ == b@),
{
    if a.len() != b.len() {
        return false;
    }
    let mut i: usize = 0;
    while i < a.len()
        invariant
            a@.len() == b@.len(),
            i <= a@.len(),
            forall|j: int| 0 <= j < i ==> a@[j] == b@[j],
        decreases a@.len() - i,
    {
        if a[i] != b[i] {
            return false;
        }
        i += 1;
    }
    assert(a@ =~= b@);
    true
}

/// Whether the strings `a` and `b` are equal.
pub fn str_eq(a: &str, b: &str) -> (r: bool)
    ensures
        r == (a@ == b@),
{
    let x = chars_of(a);
    let y = chars_of(b);
    chars_eq(x.as_slice(), y.as_slice())
}

// ---------------------------------------------------------------------------
// Unicode lower case
// ---------------------------------------------------------------------------

/// What `str::to_lowercase` returns for `s`: its Unicode lower-case mapping,
/// character by character except for a capital sigma, whose form depends on the
/// letters around it (final sigma). It takes tables to state and depends on `s`
/// alone.
pub uninterp spec fn spec_to_lowercase(s: Seq<char>) -> Seq<char>;

/// `str::to_lowercase`. The contract names its result and says nothing more:
/// the library only compares and orders the lower-cased texts.
#[verifier::external_body]
pub(crate) fn to_lowercase(s: &str) -> (r: String)
    ensures
        r@ == spec_to_lowercase(s@),
{
    s.to_lowercase()
}

// ---------------------------------------------------------------------------
// Whitespace
// ---------------------------------------------------------------------------

/// `char::is_whitespace`: the characters with the Unicode `White_Space` property.
pub open spec fn is_white(c: char) -> bool {
    ||| ('\u{9}' <= c && c <= '\u{d}')
    ||| c == ' '
    ||| c == '\u{85}'
    ||| c == '\u{a0}'
    ||| c == '\u{1680}'
    ||| ('\u{2000}' <= c && c <= '\u{200a}')
    ||| c == '\u{2028}'
    ||| c == '\u{2029}'
    ||| c == '\u{202f}'
    ||| c == '\u{205f}'
    ||| c == '\u{3000}'
}

/// `s` without its leading whitespace.
pub open spec fn trim_start(s: Seq<char>) -> Seq<char>
    decreases s.len(),
{
    if s.len() > 0 && is_white(s[0]) {
        trim_start(s.drop_first())
    } else {
        s
    }
}

/// `s` without its trailing whitespace.
pub open spec fn trim_end(s: Seq<char>) -> Seq<char>
    decreases s.len(),
{
    if s.len() > 0 && is_white(s.last()) {
        trim_end(s.drop_last())
    } else {
        s
    }
}

/// `str::trim`: `s` without leading and trailing whitespace.
pub open spec fn trim(s: Seq<char>) -> Seq<char> {
    trim_end(trim_start(s))
}

fn white(c: char) -> (r: bool)
    ensures
        r == is_white(c),
{
    ('\u{9}' <= c && c <= '\u{d}') || c == ' ' || c == '\u{85}' || c == '\u{a0}' || c
        == '\u{1680}' || ('\u{2000}' <= c && c <= '\u{200a}') || c == '\u{2028}' || c
        == '\u{2029}' || c == '\u{202f}' || c == '\u{205f}' || c == '\u{3000}'
}

/// `s.trim()` as an owned string.
pub fn trimmed(s: &str) -> (r: String)
    ensures
        r@ == trim(s@),
{
    let cs = chars_of(s);
    let n = cs.len();
    let mut i: usize = 0;
    assert(s@.skip(0) =~= s@);
    while i < n && white(cs[i])
        invariant
            n == cs@.len(),
            cs@ == s@,
            i <= n,
            trim_start(s@) == trim_start(s@.skip(i as int)),
        decreases n - i,
    {
        assert(s@.skip(i as int).drop_first() =~= s@.skip(i + 1));
        i += 1;
    }
    assert(trim_start(s@) == s@.skip(i as int));
    let mut j: usize = n;
    while j > i && white(cs[j - 1])
        invariant
            n == cs@.len(),
            cs@ == s@,
            i <= j <= n,
            trim_start(s@) == s@.skip(i as int),
            trim(s@) == trim_end(s@.subrange(i as int, j as int)),
        decreases j - i,
    {
        assert(s@.subrange(i as int, j as int).drop_last() =~= s@.subrange(i as int, j - 1));
        j -= 1;
    }
    assert(s@.skip(i as int) =~= s@.subrange(i as int, n as int));
    string_from_range(cs.as_slice(), i, j)
}

} // verus!
