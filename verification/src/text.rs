use vstd::prelude::*;

verus! {

/// `String::push` appends one character.
pub assume_specification[ std::string::String::push ](s: &mut std::string::String, ch: char)
    ensures
        final(s)@ == old(s)@.push(ch),
;

/// `p` is a prefix of `s`.
pub open spec fn starts_with(s: Seq<char>, p: Seq<char>) -> bool {
    p.len() <= s.len() && s.take(p.len() as int) == p
}

/// `p` is a suffix of `s`.
pub open spec fn ends_with(s: Seq<char>, p: Seq<char>) -> bool {
    p.len() <= s.len() && s.skip(s.len() - p.len()) == p
}

/// `p` occurs in `s` starting at position `i`.
pub open spec fn occurs_at(s: Seq<char>, p: Seq<char>, i: int) -> bool {
    0 <= i && i + p.len() <= s.len() && s.subrange(i, i + p.len()) == p
}

/// `p` occurs somewhere in `s`.
pub open spec fn contains(s: Seq<char>, p: Seq<char>) -> bool {
    exists|i: int| occurs_at(s, p, i)
}

/// The first `n` characters of `s` (all of them when `s` is shorter).
pub open spec fn take_chars(s: Seq<char>, n: nat) -> Seq<char> {
    if s.len() <= n { s } else { s.take(n as int) }
}

/// `s` with every trailing `c` removed.
pub open spec fn trim_end_char(s: Seq<char>, c: char) -> Seq<char>
    decreases s.len(),
{
    if s.len() > 0 && s.last() == c { trim_end_char(s.drop_last(), c) } else { s }
}

/// Unicode `White_Space`, the set that `char::is_whitespace` tests.
pub open spec fn is_ws(c: char) -> bool {
    ||| c == '\t' || c == '\n' || c == '\u{0B}' || c == '\u{0C}' || c == '\r' || c == ' '
    ||| c == '\u{85}' || c == '\u{A0}' || c == '\u{1680}'
    ||| ('\u{2000}' <= c && c <= '\u{200A}')
    ||| c == '\u{2028}' || c == '\u{2029}' || c == '\u{202F}' || c == '\u{205F}' || c == '\u{3000}'
}

/// `s` without leading white space.
pub open spec fn trim_start(s: Seq<char>) -> Seq<char>
    decreases s.len(),
{
    if s.len() > 0 && is_ws(s[0]) { trim_start(s.drop_first()) } else { s }
}

/// `s` without trailing white space.
pub open spec fn trim_end(s: Seq<char>) -> Seq<char>
    decreases s.len(),
{
    if s.len() > 0 && is_ws(s.last()) { trim_end(s.drop_last()) } else { s }
}

/// `s` without white space at either end, as `str::trim` gives it.
pub open spec fn trim(s: Seq<char>) -> Seq<char> {
    trim_end(trim_start(s))
}

/// ASCII lower-casing of one character.
pub open spec fn ascii_lower(c: char) -> char {
    if 'A' <= c && c <= 'Z' { ((c as u32) + 32) as char } else { c }
}

/// ASCII lower-casing of a whole text, as `str::to_ascii_lowercase` gives it.
pub open spec fn ascii_lowercase(s: Seq<char>) -> Seq<char> {
    s.map_values(|c: char| ascii_lower(c))
}

/// The characters of `s`, in order.
pub fn chars_of(s: &str) -> (r: Vec<char>)
    ensures
        r@ == s@,
{
    let mut out: Vec<char> = Vec::new();
    for c in it: s.chars()
        invariant
            out@ == it.seq().take(it.index() as int),
            it.seq() == s@,
    {
        out.push(c);
    }
    out
}

/// A `String` holding exactly the characters of `cs`.
pub fn string_from(cs: &[char]) -> (r: String)
    ensures
        r@ == cs@,
{
    let mut out = String::new();
    let mut i: usize = 0;
    while i < cs.len()
        invariant
            i <= cs.len(),
            out@ == cs@.take(i as int),
        decreases cs.len() - i,
    {
        out.push(cs[i]);
        i = i + 1;
        assert(cs@.take(i as int) == cs@.take(i - 1).push(cs@[i - 1]));
    }
    assert(cs@.take(cs.len() as int) == cs@);
    out
}

/// A copy of `s` as an owned `String`.
pub fn owned(s: &str) -> (r: String)
    ensures
        r@ == s@,
{
    let cs = chars_of(s);
    string_from(cs.as_slice())
}

/// Character-wise equality of two sequences.
pub fn chars_eq(a: &[char], b: &[char]) -> (r: bool)
    ensures
        r == (a@ == b@),
{
    if a.len() != b.len() {
        return false;
    }
    let mut i: usize = 0;
    while i < a.len()
        invariant
            a.len() == b.len(),
            i <= a.len(),
            forall|j: int| 0 <= j < i ==> a@[j] == b@[j],
        decreases a.len() - i,
    {
        if a[i] != b[i] {
            return false;
        }
        i = i + 1;
    }
    assert(a@ =~= b@);
    true
}

/// Equality of two texts.
pub fn str_eq(a: &str, b: &str) -> (r: bool)
    ensures
        r == (a@ == b@),
{
    let x = chars_of(a);
    let y = chars_of(b);
    chars_eq(x.as_slice(), y.as_slice())
}

/// Whether `p` occurs in `s` at position `i`.
pub fn chars_occur_at(s: &[char], p: &[char], i: usize) -> (r: bool)
    ensures
        r == occurs_at(s@, p@, i as int),
{
    if i > s.len() || p.len() > s.len() - i {
        return false;
    }
    let mut j: usize = 0;
    while j < p.len()
        invariant
            i + p.len() <= s.len(),
            j <= p.len(),
            forall|k: int| 0 <= k < j ==> s@[i + k] == p@[k],
        decreases p.len() - j,
    {
        if s[i + j] != p[j] {
            assert(s@.subrange(i as int, i + p.len())[j as int] != p@[j as int]);
            return false;
        }
        j = j + 1;
    }
    assert(s@.subrange(i as int, i + p.len()) =~= p@);
    true
}

/// Whether `s` begins with `p`.
pub fn chars_starts_with(s: &[char], p: &[char]) -> (r: bool)
    ensures
        r == starts_with(s@, p@),
{
    let r = chars_occur_at(s, p, 0);
    assert(s@.take(p@.len() as int) == s@.subrange(0, p@.len() as int));
    r
}

/// Whether `s` ends with `p`.
pub fn chars_ends_with(s: &[char], p: &[char]) -> (r: bool)
    ensures
        r == ends_with(s@, p@),
{
    if p.len() > s.len() {
        return false;
    }
    let r = chars_occur_at(s, p, s.len() - p.len());
    assert(s@.skip(s@.len() - p@.len()) == s@.subrange(s@.len() - p@.len(), s@.len() as int));
    r
}

/// The first position at which `p` occurs in `s`, if any.
pub fn chars_find(s: &[char], p: &[char]) -> (r: Option<usize>)
    ensures
        match r {
            Some(i) => occurs_at(s@, p@, i as int) && forall|j: int| 0 <= j < i ==> !occurs_at(s@, p@, j),
            None => !contains(s@, p@),
        },
{
    if p.len() > s.len() {
        return None;
    }
    if p.len() == 0 {
        assert(s@.subrange(0, 0) =~= p@);
        return Some(0);
    }
    let mut i: usize = 0;
    while i <= s.len() - p.len()
        invariant
            0 < p.len() <= s.len(),
            i <= s.len() - p.len() + 1,
            forall|j: int| 0 <= j < i ==> !occurs_at(s@, p@, j),
        decreases s.len() - p.len() + 1 - i,
    {
        if chars_occur_at(s, p, i) {
            return Some(i);
        }
        i = i + 1;
    }
    None
}

/// Whether `p` occurs in `s`.
pub fn chars_contains(s: &[char], p: &[char]) -> (r: bool)
    ensures
        r == contains(s@, p@),
{
    chars_find(s, p).is_some()
}

/// Whether the text `s` contains the text `p`.
pub fn str_contains(s: &str, p: &str) -> (r: bool)
    ensures
        r == contains(s@, p@),
{
    let x = chars_of(s);
    let y = chars_of(p);
    chars_contains(x.as_slice(), y.as_slice())
}

/// Whether the text `s` begins with the text `p`.
pub fn str_starts_with(s: &str, p: &str) -> (r: bool)
    ensures
        r == starts_with(s@, p@),
{
    let x = chars_of(s);
    let y = chars_of(p);
    chars_starts_with(x.as_slice(), y.as_slice())
}

/// Whether the text `s` ends with the text `p`.
pub fn str_ends_with(s: &str, p: &str) -> (r: bool)
    ensures
        r == ends_with(s@, p@),
{
    let x = chars_of(s);
    let y = chars_of(p);
    chars_ends_with(x.as_slice(), y.as_slice())
}

/// The concatenation of `a` and `b`.
pub fn concat(a: &str, b: &str) -> (r: String)
    ensures
        r@ == a@ + b@,
{
    let mut out = owned(a);
    let y = chars_of(b);
    let mut i: usize = 0;
    while i < y.len()
        invariant
            i <= y.len(),
            y@ == b@,
            out@ == a@ + b@.take(i as int),
        decreases y.len() - i,
    {
        out.push(y[i]);
        i = i + 1;
        assert(b@.take(i as int) == b@.take(i - 1).push(b@[i - 1]));
    }
    assert(b@.take(y.len() as int) == b@);
    out
}

/// The first `n` characters of `s`.
pub fn prefix_chars(s: &str, n: usize) -> (r: String)
    ensures
        r@ == take_chars(s@, n as nat),
{
    let x = chars_of(s);
    if x.len() <= n {
        string_from(x.as_slice())
    } else {
        let mut out = String::new();
        let mut i: usize = 0;
        while i < n
            invariant
                i <= n,
                n < x.len(),
                x@ == s@,
                out@ == s@.take(i as int),
            decreases n - i,
        {
            out.push(x[i]);
            i = i + 1;
            assert(s@.take(i as int) == s@.take(i - 1).push(s@[i - 1]));
        }
        out
    }
}

/// `s` with every trailing `c` removed.
pub fn trim_end_matches_char(s: &[char], c: char) -> (r: Vec<char>)
    ensures
        r@ == trim_end_char(s@, c),
{
    let mut n = s.len();
    assert(s@.take(n as int) == s@);
    while n > 0 && s[n - 1] == c
        invariant
            n <= s.len(),
            trim_end_char(s@, c) == trim_end_char(s@.take(n as int), c),
        decreases n,
    {
        assert(s@.take(n as int).drop_last() == s@.take(n - 1));
        n = n - 1;
    }
    let mut out: Vec<char> = Vec::new();
    let mut i: usize = 0;
    while i < n
        invariant
            i <= n <= s.len(),
            out@ == s@.take(i as int),
        decreases n - i,
    {
        out.push(s[i]);
        i = i + 1;
        assert(s@.take(i as int) == s@.take(i - 1).push(s@[i - 1]));
    }
    out
}

/// Whether `c` is Unicode white space.
pub fn char_is_ws(c: char) -> (r: bool)
    ensures
        r == is_ws(c),
{
    c == '\t' || c == '\n' || c == '\u{0B}' || c == '\u{0C}' || c == '\r' || c == ' '
        || c == '\u{85}' || c == '\u{A0}' || c == '\u{1680}'
        || ('\u{2000}' <= c && c <= '\u{200A}')
        || c == '\u{2028}' || c == '\u{2029}' || c == '\u{202F}' || c == '\u{205F}' || c == '\u{3000}'
}

proof fn lemma_trim_start_skip(s: Seq<char>, i: int)
    requires
        0 <= i <= s.len(),
        forall|j: int| 0 <= j < i ==> is_ws(s[j]),
    ensures
        trim_start(s) == trim_start(s.skip(i)),
    decreases i,
{
    if i > 0 {
        let t = s.drop_first();
        assert(is_ws(s[0]));
        assert(trim_start(s) == trim_start(t));
        assert(t.skip(i - 1) =~= s.skip(i));
        assert forall|j: int| 0 <= j < i - 1 implies is_ws(t[j]) by {
            assert(t[j] == s[j + 1]);
        }
        lemma_trim_start_skip(t, i - 1);
    } else {
        assert(s.skip(0) =~= s);
    }
}

/// `s` without white space at either end.
pub fn trim_chars(s: &[char]) -> (r: Vec<char>)
    ensures
        r@ == trim(s@),
{
    let mut a: usize = 0;
    while a < s.len() && char_is_ws(s[a])
        invariant
            a <= s.len(),
            forall|j: int| 0 <= j < a ==> is_ws(s@[j]),
        decreases s.len() - a,
    {
        a = a + 1;
    }
    proof {
        lemma_trim_start_skip(s@, a as int);
    }
    let ghost t = s@.skip(a as int);
    assert(trim_start(t) == t);
    let mut b: usize = s.len();
    while b > a && char_is_ws(s[b - 1])
        invariant
            a <= b <= s.len(),
            t == s@.skip(a as int),
            trim_end(t) == trim_end(s@.subrange(a as int, b as int)),
        decreases b,
    {
        assert(s@.subrange(a as int, b as int).drop_last() == s@.subrange(a as int, b - 1));
        b = b - 1;
    }
    assert(s@.subrange(a as int, s.len() as int) == t);
    let mut out: Vec<char> = Vec::new();
    let mut i: usize = a;
    while i < b
        invariant
            a <= i <= b <= s.len(),
            out@ == s@.subrange(a as int, i as int),
        decreases b - i,
    {
        out.push(s[i]);
        i = i + 1;
        assert(s@.subrange(a as int, i as int) == s@.subrange(a as int, i - 1).push(s@[i - 1]));
    }
    assert(trim_end(s@.subrange(a as int, b as int)) == s@.subrange(a as int, b as int));
    out
}

/// `s` without white space at either end.
pub fn trim_str(s: &str) -> (r: String)
    ensures
        r@ == trim(s@),
{
    let x = chars_of(s);
    let t = trim_chars(x.as_slice());
    string_from(t.as_slice())
}

/// ASCII lower-casing of one character.
pub fn char_ascii_lower(c: char) -> (r: char)
    ensures
        r == ascii_lower(c),
{
    if 'A' <= c && c <= 'Z' {
        let b: u8 = (c as u32) as u8;
        assert(b as u32 == c as u32);
        let r = (b + 32) as char;
        r
    } else {
        c
    }
}

/// Unicode lower-casing of a text, as `str::to_lowercase` computes it.
pub uninterp spec fn unicode_lowercase(s: Seq<char>) -> Seq<char>;

/// `str::to_lowercase`: the Unicode lower-case form of `s`.
#[verifier::external_body]
pub(crate) fn to_lowercase(s: &str) -> (r: String)
    ensures
        r@ == unicode_lowercase(s@),
{
    s.to_lowercase()
}

/// ASCII lower-casing of a text.
pub fn to_ascii_lowercase(s: &str) -> (r: String)
    ensures
        r@ == ascii_lowercase(s@),
{
    let x = chars_of(s);
    let mut out: Vec<char> = Vec::new();
    let mut i: usize = 0;
    while i < x.len()
        invariant
            i <= x.len(),
            x@ == s@,
            out@ == ascii_lowercase(s@.take(i as int)),
        decreases x.len() - i,
    {
        out.push(char_ascii_lower(x[i]));
        i = i + 1;
        assert(ascii_lowercase(s@.take(i as int)) =~= ascii_lowercase(s@.take(i - 1)).push(ascii_lower(s@[i - 1])));
    }
    assert(s@.take(x.len() as int) == s@);
    string_from(out.as_slice())
}

/// The decimal digit for `n < 10`.
pub open spec fn digit_char(n: nat) -> char {
    ((n + 48) as u32) as char
}

/// The decimal numeral of `n`, without leading zeros.
pub open spec fn decimal(n: nat) -> Seq<char>
    decreases n,
{
    if n < 10 {
        seq![digit_char(n)]
    } else {
        decimal(n / 10).push(digit_char(n % 10))
    }
}

/// The decimal numeral of `i`, with a leading `-` when negative.
pub open spec fn signed_decimal(i: int) -> Seq<char> {
    if i < 0 { seq!['-'] + decimal((-i) as nat) } else { decimal(i as nat) }
}

/// The character for a decimal digit.
fn digit_of(n: u64) -> (r: char)
    requires
        n < 10,
    ensures
        r == digit_char(n as nat),
{
    let b: u8 = (n as u8) + 48;
    b as char
}

/// The decimal numeral of `n`.
pub fn u64_to_decimal(n: u64) -> (r: String)
    ensures
        r@ == decimal(n as nat),
    decreases n,
{
    if n < 10 {
        let mut s = String::new();
        s.push(digit_of(n));
        s
    } else {
        let mut s = u64_to_decimal(n / 10);
        s.push(digit_of(n % 10));
        s
    }
}

/// The decimal numeral of `i`, signed.
pub fn i64_to_decimal(i: i64) -> (r: String)
    ensures
        r@ == signed_decimal(i as int),
{
    if i < 0 {
        let magnitude: u64 = if i == i64::MIN { 9223372036854775808u64 } else { (-i) as u64 };
        let digits = u64_to_decimal(magnitude);
        proof {
            reveal_strlit("-");
            assert("-"@ =~= seq!['-']);
        }
        concat("-", digits.as_str())
    } else {
        u64_to_decimal(i as u64)
    }
}

/// Every character is an ASCII digit.
pub open spec fn all_ascii_digits(s: Seq<char>) -> bool {
    forall|i: int| 0 <= i < s.len() ==> '0' <= #[trigger] s[i] && s[i] <= '9'
}

/// The value of a run of ASCII digits.
pub open spec fn digits_value(s: Seq<char>) -> nat
    decreases s.len(),
{
    if s.len() == 0 {
        0
    } else {
        digits_value(s.drop_last()) * 10 + ((s.last() as u32) - 48) as nat
    }
}

/// What `str::parse::<u64>` gives: an optional `+`, then one or more ASCII
/// digits whose value fits in 64 bits.
pub open spec fn parsed_u64(s: Seq<char>) -> Option<u64> {
    let d = if s.len() > 0 && s[0] == '+' { s.drop_first() } else { s };
    if d.len() > 0 && all_ascii_digits(d) && digits_value(d) <= u64::MAX {
        Some(digits_value(d) as u64)
    } else {
        None
    }
}

/// What `str::parse::<i64>` gives: an optional sign, then one or more ASCII
/// digits whose signed value fits in 64 bits.
pub open spec fn parsed_i64(s: Seq<char>) -> Option<i64> {
    let negative = s.len() > 0 && s[0] == '-';
    let d = if s.len() > 0 && (s[0] == '+' || s[0] == '-') { s.drop_first() } else { s };
    if d.len() > 0 && all_ascii_digits(d) {
        if negative && digits_value(d) <= 9223372036854775808 {
            Some((-(digits_value(d) as int)) as i64)
        } else if !negative && digits_value(d) <= i64::MAX {
            Some(digits_value(d) as i64)
        } else {
            None
        }
    } else {
        None
    }
}

proof fn lemma_digits_value_grows(s: Seq<char>, c: char)
    requires
        '0' <= c <= '9',
    ensures
        digits_value(s.push(c)) == digits_value(s) * 10 + ((c as u32) - 48) as nat,
        digits_value(s.push(c)) >= digits_value(s),
{
    assert(s.push(c).drop_last() == s);
}

proof fn lemma_digits_value_prefix(s: Seq<char>, i: int)
    requires
        0 <= i <= s.len(),
        all_ascii_digits(s),
    ensures
        digits_value(s.take(i)) <= digits_value(s),
    decreases s.len() - i,
{
    if i < s.len() {
        lemma_digits_value_prefix(s, i + 1);
        assert(s.take(i + 1) == s.take(i).push(s[i]));
        lemma_digits_value_grows(s.take(i), s[i]);
    } else {
        assert(s.take(i) == s);
    }
}

/// The value of the ASCII digits `d` when it fits in 64 bits.
fn digits_to_u64(d: &[char]) -> (r: Option<u64>)
    ensures
        match r {
            Some(v) => all_ascii_digits(d@) && digits_value(d@) <= u64::MAX && v == digits_value(d@),
            None => !all_ascii_digits(d@) || digits_value(d@) > u64::MAX,
        },
{
    let mut value: u64 = 0;
    let mut i: usize = 0;
    while i < d.len()
        invariant
            i <= d.len(),
            all_ascii_digits(d@.take(i as int)),
            value == digits_value(d@.take(i as int)),
        decreases d.len() - i,
    {
        let c = d[i];
        assert(d@.take(i + 1) == d@.take(i as int).push(c));
        if c < '0' || c > '9' {
            assert(!all_ascii_digits(d@)) by {
                assert(d@[i as int] == c);
            }
            return None;
        }
        proof {
            lemma_digits_value_grows(d@.take(i as int), c);
        }
        let digit: u64 = ((c as u32) - 48) as u64;
        match value.checked_mul(10) {
            Some(m) => match m.checked_add(digit) {
                Some(v) => {
                    value = v;
                },
                None => {
                    proof {
                        lemma_overflow_persists(d@, i as int);
                    }
                    return None;
                },
            },
            None => {
                proof {
                    lemma_overflow_persists(d@, i as int);
                }
                return None;
            },
        }
        i = i + 1;
    }
    assert(d@.take(d.len() as int) == d@);
    Some(value)
}

/// When a prefix of `d` already overflows, either `d` is not all digits or its value overflows too.
proof fn lemma_overflow_persists(d: Seq<char>, i: int)
    requires
        0 <= i < d.len(),
        '0' <= d[i] <= '9',
        digits_value(d.take(i + 1)) > u64::MAX,
        d.take(i + 1) == d.take(i).push(d[i]),
    ensures
        !all_ascii_digits(d) || digits_value(d) > u64::MAX,
{
    if all_ascii_digits(d) {
        lemma_digits_value_prefix(d, i + 1);
    }
}

/// The slice of `s` from `start` on.
fn chars_from(s: &[char], start: usize) -> (r: Vec<char>)
    requires
        start <= s.len(),
    ensures
        r@ == s@.skip(start as int),
{
    let mut out: Vec<char> = Vec::new();
    let mut i: usize = start;
    while i < s.len()
        invariant
            start <= i <= s.len(),
            out@ == s@.subrange(start as int, i as int),
        decreases s.len() - i,
    {
        out.push(s[i]);
        i = i + 1;
        assert(s@.subrange(start as int, i as int) == s@.subrange(start as int, i - 1).push(s@[i - 1]));
    }
    out
}

/// `str::parse::<u64>`.
pub fn parse_u64(s: &str) -> (r: Option<u64>)
    ensures
        r == parsed_u64(s@),
{
    let cs = chars_of(s);
    let start: usize = if cs.len() > 0 && cs[0] == '+' { 1 } else { 0 };
    let d = chars_from(cs.as_slice(), start);
    assert(s@.skip(1) == s@.drop_first());
    assert(s@.skip(0) == s@);
    if d.len() == 0 {
        return None;
    }
    digits_to_u64(d.as_slice())
}

/// `str::parse::<i64>`.
pub fn parse_i64(s: &str) -> (r: Option<i64>)
    ensures
        r == parsed_i64(s@),
{
    let cs = chars_of(s);
    let negative = cs.len() > 0 && cs[0] == '-';
    let start: usize = if cs.len() > 0 && (cs[0] == '+' || cs[0] == '-') { 1 } else { 0 };
    let d = chars_from(cs.as_slice(), start);
    assert(s@.skip(1) == s@.drop_first());
    assert(s@.skip(0) == s@);
    if d.len() == 0 {
        return None;
    }
    match digits_to_u64(d.as_slice()) {
        Some(v) => {
            if negative {
                if v <= 9223372036854775807u64 {
                    Some(-(v as i64))
                } else if v == 9223372036854775808u64 {
                    Some(i64::MIN)
                } else {
                    None
                }
            } else if v <= 9223372036854775807u64 {
                Some(v as i64)
            } else {
                None
            }
        },
        None => None,
    }
}

/// Scanning state of `split_whitespace`: the words completed so far and the word in progress.
pub open spec fn word_scan(s: Seq<char>) -> (Seq<Seq<char>>, Seq<char>)
    decreases s.len(),
{
    if s.len() == 0 {
        (Seq::empty(), Seq::empty())
    } else {
        let (done, cur) = word_scan(s.drop_last());
        if is_ws(s.last()) {
            if cur.len() > 0 { (done.push(cur), Seq::empty()) } else { (done, cur) }
        } else {
            (done, cur.push(s.last()))
        }
    }
}

/// The maximal runs of non-white-space characters of `s`, in order
/// (`str::split_whitespace`).
pub open spec fn words(s: Seq<char>) -> Seq<Seq<char>> {
    let (done, cur) = word_scan(s);
    if cur.len() > 0 { done.push(cur) } else { done }
}

/// The pieces joined with `sep` between consecutive pieces.
pub open spec fn join_with(pieces: Seq<Seq<char>>, sep: Seq<char>) -> Seq<char>
    decreases pieces.len(),
{
    if pieces.len() == 0 {
        Seq::empty()
    } else if pieces.len() == 1 {
        pieces[0]
    } else {
        join_with(pieces.drop_last(), sep) + sep + pieces.last()
    }
}

/// Scanning state of `str::lines`: the lines completed so far and the line in progress.
pub open spec fn line_scan(s: Seq<char>) -> (Seq<Seq<char>>, Seq<char>)
    decreases s.len(),
{
    if s.len() == 0 {
        (Seq::empty(), Seq::empty())
    } else {
        let (done, cur) = line_scan(s.drop_last());
        if s.last() == '\n' {
            (done.push(strip_cr(cur)), Seq::empty())
        } else {
            (done, cur.push(s.last()))
        }
    }
}

/// A line without its carriage return.
pub open spec fn strip_cr(line: Seq<char>) -> Seq<char> {
    if line.len() > 0 && line.last() == '\r' { line.drop_last() } else { line }
}

/// The lines of `s` (`str::lines`): split at `\n`, a `\r` before it dropped;
/// a last line without `\n` is kept when non-empty.
pub open spec fn lines(s: Seq<char>) -> Seq<Seq<char>> {
    let (done, cur) = line_scan(s);
    if cur.len() > 0 { done.push(cur) } else { done }
}

/// The views of a list of character vectors.
pub open spec fn char_vecs(v: Seq<Vec<char>>) -> Seq<Seq<char>> {
    v.map_values(|x: Vec<char>| x@)
}

/// `split_whitespace`, as character vectors.
pub fn split_words(s: &[char]) -> (r: Vec<Vec<char>>)
    ensures
        char_vecs(r@) == words(s@),
{
    let mut done: Vec<Vec<char>> = Vec::new();
    let mut cur: Vec<char> = Vec::new();
    let mut i: usize = 0;
    while i < s.len()
        invariant
            i <= s.len(),
            (char_vecs(done@), cur@) == word_scan(s@.take(i as int)),
        decreases s.len() - i,
    {
        let c = s[i];
        assert(s@.take(i + 1).drop_last() == s@.take(i as int));
        assert(s@.take(i + 1).last() == c);
        if char_is_ws(c) {
            if cur.len() > 0 {
                let finished = cur;
                let ghost before = done@;
                let ghost fin = finished@;
                done.push(finished);
                assert(char_vecs(done@) =~= char_vecs(before).push(fin));
                cur = Vec::new();
            }
        } else {
            cur.push(c);
        }
        i = i + 1;
    }
    assert(s@.take(s.len() as int) == s@);
    if cur.len() > 0 {
        let ghost before = done@;
        done.push(cur);
        assert(char_vecs(done@) =~= char_vecs(before).push(done@.last()@));
    }
    done
}

/// `lines`, as character vectors.
pub fn split_lines(s: &[char]) -> (r: Vec<Vec<char>>)
    ensures
        char_vecs(r@) == lines(s@),
{
    let mut done: Vec<Vec<char>> = Vec::new();
    let mut cur: Vec<char> = Vec::new();
    let mut i: usize = 0;
    while i < s.len()
        invariant
            i <= s.len(),
            (char_vecs(done@), cur@) == line_scan(s@.take(i as int)),
        decreases s.len() - i,
    {
        let c = s[i];
        assert(s@.take(i + 1).drop_last() == s@.take(i as int));
        assert(s@.take(i + 1).last() == c);
        if c == '\n' {
            let mut finished = cur;
            if finished.len() > 0 && finished[finished.len() - 1] == '\r' {
                finished.pop();
            }
            let ghost before = done@;
            let ghost fin = finished@;
            done.push(finished);
            assert(char_vecs(done@) =~= char_vecs(before).push(fin));
            cur = Vec::new();
        } else {
            cur.push(c);
        }
        i = i + 1;
    }
    assert(s@.take(s.len() as int) == s@);
    if cur.len() > 0 {
        let ghost before = done@;
        done.push(cur);
        assert(char_vecs(done@) =~= char_vecs(before).push(done@.last()@));
    }
    done
}

/// The words of `raw` joined by single spaces.
pub fn collapse_whitespace(raw: &str) -> (r: String)
    ensures
        r@ == join_with(words(raw@), " "@),
{
    proof {
        reveal_strlit(" ");
        assert(" "@ =~= seq![' ']);
    }
    let cs = chars_of(raw);
    let ws = split_words(cs.as_slice());
    let mut out: Vec<char> = Vec::new();
    let mut i: usize = 0;
    while i < ws.len()
        invariant
            i <= ws.len(),
            char_vecs(ws@) == words(raw@),
            out@ == join_with(char_vecs(ws@).take(i as int), seq![' ']),
        decreases ws.len() - i,
    {
        let ghost pieces = char_vecs(ws@).take(i + 1);
        assert(pieces.drop_last() == char_vecs(ws@).take(i as int));
        assert(pieces.last() == ws@[i as int]@);
        if i > 0 {
            out.push(' ');
        }
        let w = &ws[i];
        let mut j: usize = 0;
        let ghost base = out@;
        while j < w.len()
            invariant
                j <= w.len(),
                out@ == base + w@.take(j as int),
            decreases w.len() - j,
        {
            out.push(w[j]);
            j = j + 1;
            assert(w@.take(j as int) == w@.take(j - 1).push(w@[j - 1]));
        }
        assert(w@.take(w.len() as int) == w@);
        i = i + 1;
    }
    assert(char_vecs(ws@).take(ws.len() as int) == char_vecs(ws@));
    string_from(out.as_slice())
}

/// `s` with every non-overlapping occurrence of `p`, from the left, replaced
/// by `r` (`str::replace` for a non-empty pattern).
pub open spec fn replace_all(s: Seq<char>, p: Seq<char>, r: Seq<char>) -> Seq<char>
    decreases s.len(),
{
    if p.len() == 0 || s.len() < p.len() {
        s
    } else if s.take(p.len() as int) == p {
        r + replace_all(s.skip(p.len() as int), p, r)
    } else {
        seq![s[0]] + replace_all(s.drop_first(), p, r)
    }
}

/// `str::replace` for a non-empty pattern.
pub fn replace_str(s: &str, p: &str, r: &str) -> (out: String)
    requires
        p@.len() > 0,
    ensures
        out@ == replace_all(s@, p@, r@),
{
    let cs = chars_of(s);
    let ps = chars_of(p);
    let rs = chars_of(r);
    let mut out: Vec<char> = Vec::new();
    let mut i: usize = 0;
    assert(s@.skip(0) == s@);
    while i < cs.len()
        invariant
            i <= cs.len(),
            cs@ == s@,
            ps@ == p@,
            rs@ == r@,
            ps.len() > 0,
            replace_all(s@, p@, r@) == out@ + replace_all(s@.skip(i as int), p@, r@),
        decreases cs.len() - i,
    {
        let ghost rest = s@.skip(i as int);
        if cs.len() - i >= ps.len() && chars_occur_at(cs.as_slice(), ps.as_slice(), i) {
            assert(rest.take(p@.len() as int) == s@.subrange(i as int, i + p@.len()));
            assert(rest.skip(p@.len() as int) == s@.skip(i + p@.len()));
            let ghost before = out@;
            let mut k: usize = 0;
            while k < rs.len()
                invariant
                    k <= rs.len(),
                    out@ == before + rs@.take(k as int),
                decreases rs.len() - k,
            {
                out.push(rs[k]);
                k = k + 1;
                assert(rs@.take(k as int) == rs@.take(k - 1).push(rs@[k - 1]));
            }
            assert(rs@.take(rs.len() as int) == rs@);
            assert(before + r@ + replace_all(rest.skip(p@.len() as int), p@, r@) == before + (r@ + replace_all(
                rest.skip(p@.len() as int),
                p@,
                r@,
            )));
            i = i + ps.len();
        } else {
            if cs.len() - i >= ps.len() {
                assert(rest.take(p@.len() as int) != p@) by {
                    assert(rest.take(p@.len() as int) == s@.subrange(i as int, i + p@.len()));
                }
                assert(rest.drop_first() == s@.skip(i + 1));
                assert(out@.push(cs@[i as int]) + replace_all(rest.drop_first(), p@, r@) == out@ + (seq![rest[0]]
                    + replace_all(rest.drop_first(), p@, r@)));
            } else {
                assert(replace_all(rest, p@, r@) == rest);
                assert(replace_all(rest.drop_first(), p@, r@) == rest.drop_first());
                assert(rest == seq![rest[0]] + rest.drop_first());
                assert(s@.skip(i + 1) == rest.drop_first());
                assert(out@.push(cs@[i as int]) + rest.drop_first() == out@ + rest);
            }
            out.push(cs[i]);
            i = i + 1;
        }
    }
    assert(s@.skip(cs.len() as int) =~= Seq::<char>::empty());
    assert(out@ + Seq::<char>::empty() == out@);
    string_from(out.as_slice())
}


/// The texts of `pieces` joined with `sep` between consecutive ones.
pub fn join_texts(pieces: &Vec<String>, sep: &str) -> (r: String)
    ensures
        r@ == join_with(pieces@.map_values(|p: String| p@), sep@),
{
    let ghost all = pieces@.map_values(|p: String| p@);
    let mut out = String::new();
    let mut i: usize = 0;
    while i < pieces.len()
        invariant
            i <= pieces.len(),
            all == pieces@.map_values(|p: String| p@),
            out@ == join_with(all.take(i as int), sep@),
        decreases pieces.len() - i,
    {
        let ghost t = all.take(i + 1);
        assert(t.drop_last() == all.take(i as int));
        assert(t.last() == pieces@[i as int]@);
        if i == 1 {
            assert(all.take(1) =~= seq![all[0]]);
        }
        let next = if i == 0 {
            concat(out.as_str(), pieces[i].as_str())
        } else {
            let with_sep = concat(out.as_str(), sep);
            concat(with_sep.as_str(), pieces[i].as_str())
        };
        if i == 0 {
            assert(next@ =~= join_with(t, sep@));
        }
        out = next;
        i = i + 1;
    }
    assert(all.take(pieces.len() as int) == all);
    out
}

} // verus!
