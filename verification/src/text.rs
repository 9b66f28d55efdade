//! Text as sequences of characters: trimming, splitting into words, and
//! decimal numbers in both directions.
use vstd::prelude::*;
use vstd::string::*;
use vstd::utf8::{decode_utf8, valid_utf8};

verus! {

/// `String::push` appends the given character to the end of the string.
pub assume_specification[ String::push ](s: &mut String, c: char)
    ensures
        final(s)@ == old(s)@.push(c),
;

// ---------------------------------------------------------------------------
// Strings and character vectors
// ---------------------------------------------------------------------------

/// The characters of `s`, in order.
pub fn chars_of(s: &str) -> (r: Vec<char>)
    ensures
        r@ == s@,
{
    let mut out: Vec<char> = Vec::new();
    for c in it: s.chars()
        invariant
            out@ == s@.take(it.index() as int),
            it.seq() == s@,
    {
        out.push(c);
    }
    out
}

/// The string made of the characters of `v`.
pub fn string_of(v: &[char]) -> (r: String)
    ensures
        r@ == v@,
{
    let mut out: String = String::new();
    push_chars(&mut out, v);
    out
}

/// Appends the characters of `v` to `out`.
pub fn push_chars(out: &mut String, v: &[char])
    ensures
        final(out)@ == old(out)@ + v@,
{
    let ghost before = out@;
    let mut i: usize = 0;
    while i < v.len()
        invariant
            i <= v@.len(),
            out@ == before + v@.take(i as int),
        decreases v@.len() - i,
    {
        out.push(v[i]);
        i = i + 1;
    }
}

/// The text that `String::from_utf8_lossy` makes of bytes.
pub uninterp spec fn lossy_text(bytes: Seq<u8>) -> Seq<char>;

/// `String::from_utf8_lossy`: the text that the bytes encode, with
/// replacement characters for what is not UTF-8. Which of them stand where is
/// left to the name [`lossy_text`].
#[verifier::external_body]
pub(crate) fn text_lossy(bytes: &[u8]) -> (r: String)
    ensures
        r@ == lossy_text(bytes@),
        valid_utf8(bytes@) ==> r@ == decode_utf8(bytes@),
{
    String::from_utf8_lossy(bytes).into_owned()
}

/// Bytes read as characters of the same code (ISO 8859-1).
pub open spec fn latin1(bytes: Seq<u8>) -> Seq<char> {
    bytes.map_values(|b: u8| b as char)
}

/// The bytes of `bytes`, each as the character of the same code.
pub fn latin1_of(bytes: &[u8]) -> (r: Vec<char>)
    ensures
        r@ == latin1(bytes@),
{
    let mut out: Vec<char> = Vec::new();
    let mut i: usize = 0;
    while i < bytes.len()
        invariant
            i <= bytes@.len(),
            out@ == latin1(bytes@.take(i as int)),
        decreases bytes@.len() - i,
    {
        out.push(bytes[i] as char);
        i = i + 1;
    }
    out
}

/// Whether two character sequences hold the same characters.
pub fn same_chars(a: &[char], b: &[char]) -> (r: bool)
    ensures
        r == (a@ == b@),
{
    if a.len() != b.len() {
        return false;
    }
    let mut i: usize = 0;
    while i < a.len()
        invariant
            i <= a@.len(),
            a@.len() == b@.len(),
            forall|k: int| 0 <= k < i ==> a@[k] == b@[k],
        decreases a@.len() - i,
    {
        if a[i] != b[i] {
            return false;
        }
        i = i + 1;
    }
    assert(a@ =~= b@);
    true
}

/// Whether the characters of `a` are exactly those of the text `b`.
pub fn is_text(a: &[char], b: &str) -> (r: bool)
    ensures
        r == (a@ == b@),
{
    let w: Vec<char> = chars_of(b);
    same_chars(a, w.as_slice())
}

/// Whether two strings hold the same text.
pub fn same_text(a: &str, b: &str) -> (r: bool)
    ensures
        r == (a@ == b@),
{
    let v: Vec<char> = chars_of(a);
    is_text(v.as_slice(), b)
}

/// `p` stands at the start of `s`.
pub open spec fn has_prefix(s: Seq<char>, p: Seq<char>) -> bool {
    s.len() >= p.len() && s.take(p.len() as int) == p
}

/// Whether `s` starts with `p`.
pub fn starts_with(s: &[char], p: &[char]) -> (r: bool)
    ensures
        r == has_prefix(s@, p@),
{
    if s.len() < p.len() {
        return false;
    }
    same_chars(vstd::slice::slice_subrange(s, 0, p.len()), p)
}

// ---------------------------------------------------------------------------
// Runs of characters of one kind
// ---------------------------------------------------------------------------

/// How many characters at the start of `s` satisfy `p`.
pub open spec fn leading(s: Seq<char>, p: spec_fn(char) -> bool) -> nat
    decreases s.len(),
{
    if s.len() > 0 && p(s[0]) {
        1 + leading(s.skip(1), p)
    } else {
        0
    }
}

/// How many characters at the end of `s` satisfy `p`.
pub open spec fn trailing(s: Seq<char>, p: spec_fn(char) -> bool) -> nat
    decreases s.len(),
{
    if s.len() > 0 && p(s.last()) {
        1 + trailing(s.drop_last(), p)
    } else {
        0
    }
}

/// A run is found by its length: all of it satisfies `p`, and what follows
/// it, if anything, does not.
pub proof fn lemma_leading(s: Seq<char>, p: spec_fn(char) -> bool, n: nat)
    requires
        n <= s.len(),
        forall|k: int| 0 <= k < n ==> #[trigger] p(s[k]),
        n == s.len() || !p(s[n as int]),
    ensures
        leading(s, p) == n,
    decreases n,
{
    if n > 0 {
        let t = s.skip(1);
        lemma_leading(t, p, (n - 1) as nat);
    }
}

/// The counterpart of [`lemma_leading`] at the other end.
pub proof fn lemma_trailing(s: Seq<char>, p: spec_fn(char) -> bool, n: nat)
    requires
        n <= s.len(),
        forall|k: int| s.len() - n <= k < s.len() ==> #[trigger] p(s[k]),
        n == s.len() || !p(s[s.len() - n - 1]),
    ensures
        trailing(s, p) == n,
    decreases n,
{
    if n > 0 {
        let t = s.drop_last();
        lemma_trailing(t, p, (n - 1) as nat);
    }
}

/// The length of a run is within the sequence, its members satisfy `p`, and
/// the character behind it does not.
pub proof fn lemma_leading_run(s: Seq<char>, p: spec_fn(char) -> bool)
    ensures
        leading(s, p) <= s.len(),
        forall|k: int| 0 <= k < leading(s, p) ==> #[trigger] p(s[k]),
        leading(s, p) < s.len() ==> !p(s[leading(s, p) as int]),
    decreases s.len(),
{
    if s.len() > 0 && p(s[0]) {
        let t = s.skip(1);
        lemma_leading_run(t, p);
        assert forall|k: int| 0 <= k < leading(s, p) implies #[trigger] p(s[k]) by {
            if k > 0 {
                assert(p(t[k - 1]));
            }
        }
    }
}

/// Unicode white space: the characters with the `White_Space` property.
pub open spec fn is_white(c: char) -> bool {
    ||| '\u{9}' <= c <= '\u{d}'
    ||| c == ' '
    ||| c == '\u{85}'
    ||| c == '\u{a0}'
    ||| c == '\u{1680}'
    ||| '\u{2000}' <= c <= '\u{200a}'
    ||| c == '\u{2028}'
    ||| c == '\u{2029}'
    ||| c == '\u{202f}'
    ||| c == '\u{205f}'
    ||| c == '\u{3000}'
}

/// Whether `c` is Unicode white space.
pub fn white(c: char) -> (r: bool)
    ensures
        r == is_white(c),
{
    ('\u{9}' <= c && c <= '\u{d}') || c == ' ' || c == '\u{85}' || c == '\u{a0}' || c == '\u{1680}'
        || ('\u{2000}' <= c && c <= '\u{200a}') || c == '\u{2028}' || c == '\u{2029}' || c
        == '\u{202f}' || c == '\u{205f}' || c == '\u{3000}'
}

/// `s` without the white space at its two ends.
pub open spec fn trim(s: Seq<char>) -> Seq<char> {
    let t = s.skip(leading(s, |c: char| is_white(c)) as int);
    t.take(t.len() - trailing(t, |c: char| is_white(c)))
}

/// `s` without the white space at its two ends.
pub fn trimmed(s: &[char]) -> (r: &[char])
    ensures
        r@ == trim(s@),
{
    let ghost p = |c: char| is_white(c);
    let mut from: usize = 0;
    while from < s.len() && white(s[from])
        invariant
            from <= s@.len(),
            forall|k: int| 0 <= k < from ==> is_white(#[trigger] s@[k]),
        decreases s@.len() - from,
    {
        from = from + 1;
    }
    proof {
        lemma_leading(s@, p, from as nat);
    }
    let mut to: usize = s.len();
    while from < to && white(s[to - 1])
        invariant
            from <= to <= s@.len(),
            forall|k: int| to <= k < s@.len() ==> is_white(#[trigger] s@[k]),
        decreases to,
    {
        to = to - 1;
    }
    let r = vstd::slice::slice_subrange(s, from, to);
    proof {
        let t = s@.skip(from as int);
        lemma_trailing(t, p, (s@.len() - to) as nat);
    }
    r
}

/// The text of `s` without the white space at its two ends.
pub fn trimmed_text(s: &str) -> (r: String)
    ensures
        r@ == trim(s@),
{
    let v: Vec<char> = chars_of(s);
    string_of(trimmed(v.as_slice()))
}

/// ASCII white space as the line protocols mean it: space, tab, line feed,
/// form feed and carriage return.
pub open spec fn is_ascii_white(c: char) -> bool {
    c == ' ' || c == '\t' || c == '\n' || c == '\u{c}' || c == '\r'
}

/// Whether `c` is ASCII white space.
pub fn ascii_white(c: char) -> (r: bool)
    ensures
        r == is_ascii_white(c),
{
    c == ' ' || c == '\t' || c == '\n' || c == '\u{c}' || c == '\r'
}

/// The words of `s`: its maximal runs without ASCII white space, in order.
pub open spec fn words(s: Seq<char>) -> Seq<Seq<char>>
    decreases s.len(),
{
    let t = s.skip(leading(s, |c: char| is_ascii_white(c)) as int);
    if t.len() == 0 {
        Seq::empty()
    } else {
        let n = leading(t, |c: char| !is_ascii_white(c));
        proof {
            lemma_leading_run(s, |c: char| is_ascii_white(c));
            lemma_leading_run(t, |c: char| !is_ascii_white(c));
        }
        seq![t.take(n as int)] + words(t.skip(n as int))
    }
}

/// The words of `s`, in order.
pub fn words_of(s: &[char]) -> (r: Vec<Vec<char>>)
    ensures
        r@.len() == words(s@).len(),
        forall|k: int| 0 <= k < r@.len() ==> (#[trigger] r@[k])@ == words(s@)[k],
{
    let ghost white_fn = |c: char| is_ascii_white(c);
    let ghost word_fn = |c: char| !is_ascii_white(c);
    let mut out: Vec<Vec<char>> = Vec::new();
    let mut at: usize = 0;
    assert(s@.skip(0) =~= s@);
    loop
        invariant
            at <= s@.len(),
            white_fn == (|c: char| is_ascii_white(c)),
            word_fn == (|c: char| !is_ascii_white(c)),
            out@.len() + words(s@.skip(at as int)).len() == words(s@).len(),
            forall|k: int| 0 <= k < out@.len() ==> (#[trigger] out@[k])@ == words(s@)[k],
            forall|k: int|
                0 <= k < words(s@.skip(at as int)).len() ==> #[trigger] words(
                    s@.skip(at as int),
                )[k] == words(s@)[out@.len() + k],
        decreases s@.len() - at,
    {
        let ghost rest = s@.skip(at as int);
        let start = at;
        let mut from: usize = at;
        while from < s.len() && ascii_white(s[from])
            invariant
                start <= from <= s@.len(),
                forall|k: int| start <= k < from ==> is_ascii_white(#[trigger] s@[k]),
            decreases s@.len() - from,
        {
            from = from + 1;
        }
        proof {
            lemma_leading(rest, white_fn, (from - start) as nat);
            assert(rest.skip(from - start) =~= s@.skip(from as int));
        }
        if from == s.len() {
            return out;
        }
        let mut to: usize = from;
        while to < s.len() && !ascii_white(s[to])
            invariant
                from <= to <= s@.len(),
                forall|k: int| from <= k < to ==> !is_ascii_white(#[trigger] s@[k]),
            decreases s@.len() - to,
        {
            to = to + 1;
        }
        let ghost t = s@.skip(from as int);
        let mut word: Vec<char> = Vec::new();
        let mut i: usize = from;
        while i < to
            invariant
                from <= i <= to <= s@.len(),
                word@ == s@.subrange(from as int, i as int),
            decreases to - i,
        {
            word.push(s[i]);
            i = i + 1;
        }
        proof {
            lemma_leading(t, word_fn, (to - from) as nat);
            assert(t.skip(to - from) =~= s@.skip(to as int));
            assert(words(rest)[0] == word@);
            assert forall|k: int|
                0 <= k < words(s@.skip(to as int)).len() implies #[trigger] words(
                s@.skip(to as int),
            )[k] == words(s@)[out@.len() + 1 + k] by {
                assert(words(rest)[k + 1] == words(s@.skip(to as int))[k]);
            }
        }
        out.push(word);
        at = to;
    }
}

// ---------------------------------------------------------------------------
// Decimal numbers
// ---------------------------------------------------------------------------

/// `'0'` to `'9'`.
pub open spec fn is_digit(c: char) -> bool {
    '0' <= c <= '9'
}

/// Whether `c` is a decimal digit.
pub fn digit(c: char) -> (r: bool)
    ensures
        r == is_digit(c),
{
    '0' <= c && c <= '9'
}

/// The decimal digit for `d`.
pub open spec fn digit_char(d: nat) -> char {
    (48 + d) as char
}

/// Every character is a decimal digit.
pub open spec fn all_digits(s: Seq<char>) -> bool {
    forall|k: int| 0 <= k < s.len() ==> is_digit(#[trigger] s[k])
}

/// The number that a sequence of digits writes.
pub open spec fn value(s: Seq<char>) -> nat
    decreases s.len(),
{
    if s.len() == 0 {
        0
    } else {
        value(s.drop_last()) * 10 + (s.last() as nat - 48) as nat
    }
}

/// `n` in decimal, without leading zeros.
pub open spec fn decimal(n: nat) -> Seq<char>
    decreases n,
{
    if n < 10 {
        seq![digit_char(n)]
    } else {
        decimal(n / 10).push(digit_char(n % 10))
    }
}

/// `count` zeros.
pub open spec fn zeros(count: nat) -> Seq<char> {
    Seq::new(count, |i: int| '0')
}

/// `n` in decimal, with leading zeros up to `width` characters.
pub open spec fn padded(n: nat, width: nat) -> Seq<char> {
    let d = decimal(n);
    if d.len() >= width {
        d
    } else {
        zeros((width - d.len()) as nat) + d
    }
}

/// `n` in decimal with its sign, `+` for zero.
pub open spec fn signed_decimal(n: int) -> Seq<char> {
    if n < 0 {
        seq!['-'] + decimal((-n) as nat)
    } else {
        seq!['+'] + decimal(n as nat)
    }
}

/// The characters of `n` in decimal.
pub fn decimal_chars(n: u64) -> (r: Vec<char>)
    ensures
        r@ == decimal(n as nat),
    decreases n,
{
    let mut out: Vec<char> = if n >= 10 {
        decimal_chars(n / 10)
    } else {
        Vec::new()
    };
    let d: u8 = (n % 10) as u8;
    out.push((48u8 + d) as char);
    out
}

/// Appends `n` in decimal.
pub fn push_decimal(out: &mut String, n: u64)
    ensures
        final(out)@ == old(out)@ + decimal(n as nat),
{
    let digits: Vec<char> = decimal_chars(n);
    push_chars(out, digits.as_slice());
}

/// Appends `n` in decimal, with leading zeros up to `width` characters.
pub fn push_padded(out: &mut String, n: u64, width: usize)
    ensures
        final(out)@ == old(out)@ + padded(n as nat, width as nat),
{
    let digits: Vec<char> = decimal_chars(n);
    let ghost before = out@;
    let mut len: usize = digits.len();
    while len < width
        invariant
            digits@.len() <= len,
            len <= width || len == digits@.len(),
            out@ == before + zeros((len - digits@.len()) as nat),
        decreases width - len,
    {
        out.push('0');
        len = len + 1;
    }
    push_chars(out, digits.as_slice());
}

/// Appends `n` in decimal with its sign, `+` for zero.
pub fn push_signed(out: &mut String, n: i32)
    ensures
        final(out)@ == old(out)@ + signed_decimal(n as int),
{
    if n < 0 {
        out.push('-');
        push_decimal(out, (-(n as i64)) as u64);
    } else {
        out.push('+');
        push_decimal(out, n as u64);
    }
}

/// What unsigned decimal text stands for: digits, with an optional `+` in
/// front, for a number of at most `max`. Anything else stands for nothing.
pub open spec fn unsigned_text(s: Seq<char>, max: nat) -> Option<nat> {
    let d = if s.len() > 0 && s[0] == '+' {
        s.skip(1)
    } else {
        s
    };
    if d.len() > 0 && all_digits(d) && value(d) <= max {
        Some(value(d))
    } else {
        None
    }
}

/// What signed decimal text stands for: digits, with an optional sign in
/// front, for a number from `min` to `max`.
pub open spec fn signed_text(s: Seq<char>, min: int, max: int) -> Option<int> {
    let d = if s.len() > 0 && (s[0] == '+' || s[0] == '-') {
        s.skip(1)
    } else {
        s
    };
    let v = if s.len() > 0 && s[0] == '-' {
        -value(d)
    } else {
        value(d) as int
    };
    if d.len() > 0 && all_digits(d) && min <= v <= max {
        Some(v)
    } else {
        None
    }
}

/// More digits never make a number smaller.
proof fn lemma_value_grows(s: Seq<char>, n: int)
    requires
        0 <= n <= s.len(),
    ensures
        value(s.take(n)) <= value(s),
    decreases s.len() - n,
{
    if n < s.len() {
        lemma_value_grows(s, n + 1);
        assert(s.take(n + 1).drop_last() =~= s.take(n));
    } else {
        assert(s.take(n) =~= s);
    }
}

/// The number that the digits from `from` on write, if there are any, if
/// nothing else stands there, and if it is at most `max`.
fn digits_value(s: &[char], from: usize, max: u64) -> (r: Option<u64>)
    requires
        from <= s@.len(),
    ensures
        r == ({
            let d = s@.skip(from as int);
            if d.len() > 0 && all_digits(d) && value(d) <= max {
                Some(value(d) as u64)
            } else {
                None
            }
        }),
{
    let ghost d = s@.skip(from as int);
    if from == s.len() {
        return None;
    }
    let mut i: usize = from;
    let mut n: u64 = 0;
    while i < s.len()
        invariant
            from <= i <= s@.len(),
            d == s@.skip(from as int),
            n == value(d.take(i - from)),
            n <= max,
            forall|k: int| 0 <= k < i - from ==> is_digit(#[trigger] d[k]),
        decreases s@.len() - i,
    {
        let c: char = s[i];
        assert(d[i - from] == c);
        assert(d.take(i - from + 1).drop_last() =~= d.take(i - from));
        if !digit(c) {
            return None;
        }
        let next: u128 = n as u128 * 10 + (c as u128 - 48);
        if next > max as u128 {
            proof {
                lemma_value_grows(d, i - from + 1);
            }
            return None;
        }
        n = next as u64;
        i = i + 1;
    }
    assert(d.take(i - from) =~= d);
    Some(n)
}

/// Reads unsigned decimal text for a number of at most `max`.
pub fn parse_unsigned(s: &[char], max: u64) -> (r: Option<u64>)
    ensures
        r == (match unsigned_text(s@, max as nat) {
            Some(v) => Some(v as u64),
            None => None,
        }),
{
    if s.len() > 0 && s[0] == '+' {
        digits_value(s, 1, max)
    } else {
        assert(s@.skip(0) =~= s@);
        digits_value(s, 0, max)
    }
}

/// Reads signed decimal text for a number that fits 32 bits.
pub fn parse_signed(s: &[char]) -> (r: Option<i32>)
    ensures
        r == (match signed_text(s@, i32::MIN as int, i32::MAX as int) {
            Some(v) => Some(v as i32),
            None => None,
        }),
{
    if s.len() > 0 && s[0] == '-' {
        match digits_value(s, 1, 2_147_483_648) {
            Some(v) => Some((-(v as i64)) as i32),
            None => None,
        }
    } else if s.len() > 0 && s[0] == '+' {
        match digits_value(s, 1, 2_147_483_647) {
            Some(v) => Some(v as i32),
            None => None,
        }
    } else {
        assert(s@.skip(0) =~= s@);
        match digits_value(s, 0, 2_147_483_647) {
            Some(v) => Some(v as i32),
            None => None,
        }
    }
}

/// Decimal text consists of digits, has at least one, and writes its number.
pub proof fn lemma_decimal(n: nat)
    ensures
        decimal(n).len() >= 1,
        all_digits(decimal(n)),
        value(decimal(n)) == n,
    decreases n,
{
    if n >= 10 {
        lemma_decimal(n / 10);
        let s = decimal(n);
        assert(s.drop_last() =~= decimal(n / 10));
    } else {
        let s = decimal(n);
        assert(value(s.drop_last()) == 0);
    }
}

/// A number below the `k`-th power of ten takes at most `k` characters.
pub proof fn lemma_decimal_len(n: nat, k: nat)
    requires
        k >= 1,
        n < vstd::arithmetic::power::pow(10, k),
    ensures
        decimal(n).len() <= k,
    decreases k,
{
    reveal(vstd::arithmetic::power::pow);
    if n >= 10 {
        if k == 1 {
            assert(vstd::arithmetic::power::pow(10, 1) == 10 * vstd::arithmetic::power::pow(10, 0));
        } else {
            lemma_decimal_len(n / 10, (k - 1) as nat);
        }
    }
}

/// Leading zeros change no value, and padding keeps digits.
pub proof fn lemma_padded(n: nat, width: nat)
    ensures
        all_digits(padded(n, width)),
        value(padded(n, width)) == n,
        padded(n, width).len() == if decimal(n).len() >= width {
            decimal(n).len()
        } else {
            width
        },
{
    lemma_decimal(n);
    if decimal(n).len() < width {
        lemma_zeros_value((width - decimal(n).len()) as nat, decimal(n));
    }
}

proof fn lemma_zeros_value(count: nat, s: Seq<char>)
    ensures
        value(zeros(count) + s) == value(s),
    decreases s.len() + count,
{
    if s.len() > 0 {
        assert((zeros(count) + s).drop_last() =~= zeros(count) + s.drop_last());
        lemma_zeros_value(count, s.drop_last());
    } else if count > 0 {
        assert((zeros(count) + s).drop_last() =~= zeros((count - 1) as nat) + s);
        lemma_zeros_value((count - 1) as nat, s);
    }
}

/// Padded decimal text reads back as the number it was written from.
pub proof fn lemma_padded_reads_back(n: nat, width: nat, max: nat)
    requires
        n <= max,
    ensures
        unsigned_text(padded(n, width), max) == Some(n),
        unsigned_text(decimal(n), max) == Some(n),
{
    lemma_decimal(n);
    lemma_padded(n, width);
}

/// Signed decimal text reads back as the number it was written from.
pub proof fn lemma_signed_reads_back(n: int, min: int, max: int)
    requires
        min <= n <= max,
    ensures
        signed_text(signed_decimal(n), min, max) == Some(n),
{
    if n < 0 {
        lemma_decimal((-n) as nat);
        assert(signed_decimal(n).skip(1) =~= decimal((-n) as nat));
    } else {
        lemma_decimal(n as nat);
        assert(signed_decimal(n).skip(1) =~= decimal(n as nat));
    }
}

// ---------------------------------------------------------------------------
// Laws
// ---------------------------------------------------------------------------

/// White space around a text is removed, and nothing else of it.
pub proof fn law_trimming_keeps_the_text(before: Seq<char>, text: Seq<char>, after: Seq<char>)
    requires
        forall|k: int| 0 <= k < before.len() ==> is_white(#[trigger] before[k]),
        forall|k: int| 0 <= k < after.len() ==> is_white(#[trigger] after[k]),
        text.len() > 0 ==> !is_white(text[0]) && !is_white(text.last()),
    ensures
        trim(before + text + after) == text,
{
    let s = before + text + after;
    let p = |c: char| is_white(c);
    if text.len() == 0 {
        lemma_leading(s, p, s.len());
        let t = s.skip(s.len() as int);
        lemma_trailing(t, p, 0);
        assert(trim(s) =~= text);
    } else {
        lemma_leading(s, p, before.len());
        let t = s.skip(before.len() as int);
        assert(t =~= text + after);
        assert(t[t.len() - after.len() - 1] == text.last());
        lemma_trailing(t, p, after.len());
        assert(trim(s) =~= text);
    }
}

/// The first word of a line is what stands between the white space in front
/// and the next white space; the other words are those of the rest.
pub proof fn law_words_end_at_white_space(before: Seq<char>, word: Seq<char>, rest: Seq<char>)
    requires
        forall|k: int| 0 <= k < before.len() ==> is_ascii_white(#[trigger] before[k]),
        word.len() > 0,
        forall|k: int| 0 <= k < word.len() ==> !is_ascii_white(#[trigger] word[k]),
        rest.len() > 0 ==> is_ascii_white(rest[0]),
    ensures
        words(before + word + rest) == seq![word] + words(rest),
        words(before) == Seq::<Seq<char>>::empty(),
{
    let s = before + word + rest;
    let blank = |c: char| is_ascii_white(c);
    let letter = |c: char| !is_ascii_white(c);
    lemma_leading(s, blank, before.len());
    let t = s.skip(before.len() as int);
    assert(t =~= word + rest);
    lemma_leading(t, letter, word.len());
    assert(t.take(word.len() as int) =~= word);
    assert(t.skip(word.len() as int) =~= rest);
    lemma_leading(before, blank, before.len());
}

/// Numbers that are written are read as themselves, up to the limit.
pub proof fn law_written_numbers_are_read(n: u64, max: u64, w: Vec<char>, s: &[char], r: Option<u64>)
    requires
        call_ensures(decimal_chars, (n,), w),
        s@ == w@,
        call_ensures(parse_unsigned, (s, max), r),
    ensures
        n <= max ==> r == Some(n),
        n > max ==> r is None,
        n < 10 ==> w@.len() == 1,
        n >= 10 ==> w@[0] != '0',
{
    lemma_decimal(n as nat);
    if n <= max {
        lemma_padded_reads_back(n as nat, 0, max as nat);
    }
    lemma_no_leading_zero(n as nat);
    assert(is_digit(w@[0]));
}

proof fn lemma_no_leading_zero(n: nat)
    ensures
        n > 0 ==> decimal(n)[0] != '0',
    decreases n,
{
    if n >= 10 {
        lemma_no_leading_zero(n / 10);
        lemma_decimal(n / 10);
    }
}

/// Text that is no number is read as nothing: the empty text, and any with
/// a character in it that is no digit, but for one sign in front.
pub proof fn law_other_text_is_no_number(s: &[char], max: u64, k: int, r: Option<u64>, t: Option<i32>)
    requires
        call_ensures(parse_unsigned, (s, max), r),
        call_ensures(parse_signed, (s,), t),
    ensures
        s@.len() == 0 ==> r is None && t is None,
        1 <= k < s@.len() && !('0' <= s@[k] <= '9') ==> r is None && t is None,
        s@.len() > 0 && !('0' <= s@[0] <= '9') && s@[0] != '+' ==> r is None,
        s@.len() > 0 && !('0' <= s@[0] <= '9') && s@[0] != '+' && s@[0] != '-' ==> t is None,
{
    if 1 <= k < s@.len() && !('0' <= s@[k] <= '9') {
        assert(!is_digit(s@.skip(1)[k - 1]));
        assert(!is_digit(s@[k]));
    }
    if s@.len() > 0 && !('0' <= s@[0] <= '9') {
        assert(!is_digit(s@[0]));
    }
}

/// The value of digits is what they say: each one more makes ten times as
/// much and itself.
pub proof fn law_digits_make_tens(s: Seq<char>, d: nat)
    requires
        d < 10,
    ensures
        value(s.push((48 + d) as char)) == 10 * value(s) + d,
        value(Seq::empty()) == 0,
{
    assert(s.push((48 + d) as char).drop_last() =~= s);
}

/// White space is what Unicode says it is, and in the line protocols the five
/// characters of ASCII.
pub proof fn law_white_space(c: char, r: bool, ascii: bool)
    requires
        call_ensures(white, (c,), r),
        call_ensures(ascii_white, (c,), ascii),
    ensures
        ({
            let n = c as int;
            &&& r <==> 9 <= n <= 13 || n == 32 || n == 133 || n == 160 || n == 5760 || 8192 <= n
                <= 8202 || n == 8232 || n == 8233 || n == 8239 || n == 8287 || n == 12288
            &&& ascii <==> n == 9 || n == 10 || n == 12 || n == 13 || n == 32
        }),
{
}

/// Trimming, splitting and comparing take characters as they are.
pub proof fn law_text_is_taken_as_it_is(
    s: &str,
    chars: Vec<char>,
    v: &[char],
    text: String,
    a: &str,
    b: &str,
    same: bool,
)
    requires
        call_ensures(chars_of, (s,), chars),
        call_ensures(string_of, (v,), text),
        call_ensures(same_text, (a, b), same),
    ensures
        chars@ == s@,
        text@ == v@,
        same <==> a@ == b@,
{
}

/// Numbers are written behind what stands there already, and read as
/// themselves: padded to their width, or with their sign.
pub proof fn law_numbers_are_added_at_the_end(
    a: &mut String,
    b: &mut String,
    c: &mut String,
    n: u64,
    width: usize,
    v: i32,
)
    ensures
        call_ensures(push_decimal, (a, n), ()) ==> {
            let added = final(a)@.skip(old(a)@.len() as int);
            &&& final(a)@ == old(a)@ + added
            &&& unsigned_text(added, u64::MAX as nat) == Some(n as nat)
        },
        call_ensures(push_padded, (b, n, width), ()) ==> {
            let added = final(b)@.skip(old(b)@.len() as int);
            &&& final(b)@ == old(b)@ + added
            &&& added.len() >= width
            &&& unsigned_text(added, u64::MAX as nat) == Some(n as nat)
        },
        call_ensures(push_signed, (c, v), ()) ==> {
            let added = final(c)@.skip(old(c)@.len() as int);
            &&& final(c)@ == old(c)@ + added
            &&& added[0] == '-' <==> v < 0
            &&& added[0] == '+' <==> v >= 0
            &&& signed_text(added, i32::MIN as int, i32::MAX as int) == Some(v as int)
        },
{
    lemma_decimal(n as nat);
    lemma_padded_reads_back(n as nat, 0, u64::MAX as nat);
    lemma_padded_reads_back(n as nat, width as nat, u64::MAX as nat);
    lemma_signed_reads_back(v as int, i32::MIN as int, i32::MAX as int);
    assert((old(a)@ + decimal(n as nat)).skip(old(a)@.len() as int) =~= decimal(n as nat));
    let p = padded(n as nat, width as nat);
    assert((old(b)@ + p).skip(old(b)@.len() as int) =~= p);
    let s = signed_decimal(v as int);
    assert((old(c)@ + s).skip(old(c)@.len() as int) =~= s);
}

} // verus!
