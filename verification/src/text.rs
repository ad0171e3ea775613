//! Text helpers: decimal rendering of numbers and splitting at white space.
use vstd::prelude::*;

verus! {

/// The decimal digit character for `d`, which is expected to be below ten.
pub open spec fn digit_char(d: int) -> char {
    if d == 0 {
        '0'
    } else if d == 1 {
        '1'
    } else if d == 2 {
        '2'
    } else if d == 3 {
        '3'
    } else if d == 4 {
        '4'
    } else if d == 5 {
        '5'
    } else if d == 6 {
        '6'
    } else if d == 7 {
        '7'
    } else if d == 8 {
        '8'
    } else {
        '9'
    }
}

/// The decimal notation of `n`: no sign, no leading zeros, "0" for zero.
pub open spec fn decimal(n: nat) -> Seq<char>
    decreases n,
{
    if n < 10 {
        seq![digit_char(n as int)]
    } else {
        decimal(n / 10) + seq![digit_char((n % 10) as int)]
    }
}

/// The number a string of decimal digits stands for.
pub open spec fn digits_value(s: Seq<char>) -> int
    decreases s.len(),
{
    if s.len() == 0 {
        0
    } else {
        digits_value(s.drop_last()) * 10 + (s.last() as int - '0' as int)
    }
}

proof fn lemma_digit_char(d: int)
    requires
        0 <= d <= 9,
    ensures
        '0' <= digit_char(d) <= '9',
        1 <= d ==> digit_char(d) != '0',
        digit_char(d) as int - '0' as int == d,
{
}

/// `decimal(n)` is a proper decimal numeral for `n`: at least one digit, only
/// the digits `0` to `9`, no leading zero, and read back it gives `n`.
pub proof fn lemma_decimal_reads_back(n: nat)
    ensures
        decimal(n).len() > 0,
        n >= 10 ==> decimal(n).len() > 1,
        forall|i: int| 0 <= i < decimal(n).len() ==> '0' <= #[trigger] decimal(n)[i] <= '9',
        decimal(n).len() > 1 ==> decimal(n)[0] != '0',
        digits_value(decimal(n)) == n,
    decreases n,
{
    lemma_digit_char((n % 10) as int);
    if n >= 10 {
        lemma_decimal_reads_back(n / 10);
        let d = decimal(n);
        let h = decimal(n / 10);
        if n / 10 <= 9 {
            lemma_digit_char((n / 10) as int);
            assert(h == seq![digit_char((n / 10) as int)]);
        }
        assert(d.drop_last() == h);
        assert(d.last() == digit_char((n % 10) as int));
        assert(digits_value(d) == digits_value(h) * 10 + (n % 10));
        assert((n / 10) * 10 + n % 10 == n);
        assert(d[0] == h[0]);
        assert forall|i: int| 0 <= i < d.len() implies '0' <= #[trigger] d[i] <= '9' by {
            if i < h.len() {
                assert(d[i] == h[i]);
            }
        }
    } else {
        assert(decimal(n).drop_last() == Seq::<char>::empty());
        assert(digits_value(Seq::<char>::empty()) == 0);
    }
}

fn digit_str(d: u128) -> (s: &'static str)
    requires
        d < 10,
    ensures
        s@ == seq![digit_char(d as int)],
{
    if d == 0 {
        proof { reveal_strlit("0"); }
        "0"
    } else if d == 1 {
        proof { reveal_strlit("1"); }
        "1"
    } else if d == 2 {
        proof { reveal_strlit("2"); }
        "2"
    } else if d == 3 {
        proof { reveal_strlit("3"); }
        "3"
    } else if d == 4 {
        proof { reveal_strlit("4"); }
        "4"
    } else if d == 5 {
        proof { reveal_strlit("5"); }
        "5"
    } else if d == 6 {
        proof { reveal_strlit("6"); }
        "6"
    } else if d == 7 {
        proof { reveal_strlit("7"); }
        "7"
    } else if d == 8 {
        proof { reveal_strlit("8"); }
        "8"
    } else {
        proof { reveal_strlit("9"); }
        "9"
    }
}

/// Writes `n` in decimal, as `format!("{}", n)` does.
pub fn decimal_string(n: u128) -> (s: String)
    ensures
        s@ == decimal(n as nat),
{
    let mut m: u128 = n;
    let mut tail = String::new();
    while m >= 10
        invariant
            decimal(n as nat) == decimal(m as nat) + tail@,
        decreases m,
    {
        let d: u128 = m % 10;
        let piece = String::from_str(digit_str(d));
        proof {
            assert(decimal(m as nat) == decimal((m / 10) as nat) + seq![digit_char(d as int)]);
            assert(decimal(m as nat) + tail@ == decimal((m / 10) as nat) + (piece@ + tail@));
        }
        tail = piece.concat(tail.as_str());
        m = m / 10;
    }
    let head = String::from_str(digit_str(m));
    head.concat(tail.as_str())
}

/// Whether `c` has the Unicode `White_Space` property: U+0009 to U+000D,
/// U+0020, U+0085, U+00A0, U+1680, U+2000 to U+200A, U+2028, U+2029, U+202F,
/// U+205F and U+3000.
pub open spec fn unicode_white_space(c: char) -> bool {
    let u = c as u32;
    ||| 0x9 <= u <= 0xd
    ||| u == 0x20
    ||| u == 0x85
    ||| u == 0xa0
    ||| u == 0x1680
    ||| 0x2000 <= u <= 0x200a
    ||| u == 0x2028
    ||| u == 0x2029
    ||| u == 0x202f
    ||| u == 0x205f
    ||| u == 0x3000
}

/// Calls `char::is_whitespace`, which reports the Unicode `White_Space`
/// property; the characters that have it are listed in `unicode_white_space`.
#[verifier::external_body]
fn is_white_space(c: char) -> (r: bool)
    ensures
        r == unicode_white_space(c),
{
    c.is_whitespace()
}

/// `s[i..j]` is the first white-space separated word of `s`: everything before
/// `i` is white space, and `s[i..j]` is a maximal run of other characters.
pub open spec fn first_word_bounds(s: Seq<char>, i: int, j: int) -> bool {
    &&& 0 <= i < j <= s.len()
    &&& forall|t: int| 0 <= t < i ==> unicode_white_space(#[trigger] s[t])
    &&& forall|t: int| i <= t < j ==> !unicode_white_space(#[trigger] s[t])
    &&& (j == s.len() || unicode_white_space(s[j]))
}

/// The first white-space separated word of `s`, as `split_whitespace().next()`
/// gives it; `None` when `s` holds nothing but white space.
pub open spec fn first_word(s: Seq<char>) -> Option<Seq<char>> {
    if exists|i: int, j: int| first_word_bounds(s, i, j) {
        let (i, j) = choose|i: int, j: int| first_word_bounds(s, i, j);
        Some(s.subrange(i, j))
    } else {
        None
    }
}

/// A string has at most one first word.
pub proof fn lemma_first_word_bounds_unique(s: Seq<char>, i1: int, j1: int, i2: int, j2: int)
    requires
        first_word_bounds(s, i1, j1),
        first_word_bounds(s, i2, j2),
    ensures
        i1 == i2,
        j1 == j2,
{
    if i1 < i2 {
        assert(unicode_white_space(s[i1]));
    } else if i2 < i1 {
        assert(unicode_white_space(s[i2]));
    }
    if j1 < j2 {
        assert(!unicode_white_space(s[j1]));
    } else if j2 < j1 {
        assert(!unicode_white_space(s[j2]));
    }
}

/// `first_word` is the first white-space separated word: it is `None` exactly
/// when every character is white space, and otherwise it is the maximal run
/// of other characters that comes after the leading white space.
pub proof fn lemma_first_word_is_first_run(s: Seq<char>, i: int, j: int)
    ensures
        (first_word(s) is None) <==> (forall|t: int| 0 <= t < s.len() ==> unicode_white_space(#[trigger] s[t])),
        (0 <= i < j <= s.len() && (forall|t: int| 0 <= t < i ==> unicode_white_space(#[trigger] s[t]))
            && (forall|t: int| i <= t < j ==> !unicode_white_space(#[trigger] s[t])) && (j == s.len()
            || unicode_white_space(s[j]))) ==> first_word(s) == Some(s.subrange(i, j)),
{
    if exists|a: int, b: int| first_word_bounds(s, a, b) {
        let (a, b) = choose|a: int, b: int| first_word_bounds(s, a, b);
        assert(!unicode_white_space(s[a]));
        if 0 <= i < j <= s.len() && (forall|t: int| 0 <= t < i ==> unicode_white_space(#[trigger] s[t]))
            && (forall|t: int| i <= t < j ==> !unicode_white_space(#[trigger] s[t])) && (j == s.len()
            || unicode_white_space(s[j])) {
            assert(first_word_bounds(s, i, j));
            lemma_first_word_bounds_unique(s, a, b, i, j);
        }
    } else {
        if !(forall|t: int| 0 <= t < s.len() ==> unicode_white_space(#[trigger] s[t])) {
            let k = choose|k: int| 0 <= k < s.len() && !unicode_white_space(s[k]);
            lemma_some_word_exists(s, k);
        }
        if 0 <= i < j <= s.len() && (forall|t: int| 0 <= t < i ==> unicode_white_space(#[trigger] s[t]))
            && (forall|t: int| i <= t < j ==> !unicode_white_space(#[trigger] s[t])) && (j == s.len()
            || unicode_white_space(s[j])) {
            assert(first_word_bounds(s, i, j));
        }
    }
}

/// A string with a character that is not white space has a first word.
proof fn lemma_some_word_exists(s: Seq<char>, k: int)
    requires
        0 <= k < s.len(),
        !unicode_white_space(s[k]),
    ensures
        exists|a: int, b: int| first_word_bounds(s, a, b),
{
    let a = lemma_first_non_white(s, k);
    let b = lemma_end_of_run(s, a, a + 1);
    assert(first_word_bounds(s, a, b));
}

/// The first character that is not white space, at or before `k`.
proof fn lemma_first_non_white(s: Seq<char>, k: int) -> (a: int)
    requires
        0 <= k < s.len(),
        !unicode_white_space(s[k]),
    ensures
        0 <= a <= k,
        !unicode_white_space(s[a]),
        forall|t: int| 0 <= t < a ==> unicode_white_space(#[trigger] s[t]),
    decreases k,
{
    if forall|t: int| 0 <= t < k ==> unicode_white_space(#[trigger] s[t]) {
        k
    } else {
        let k2 = choose|t: int| 0 <= t < k && !unicode_white_space(#[trigger] s[t]);
        lemma_first_non_white(s, k2)
    }
}

/// The end of the run of characters that are not white space starting at `a`
/// and known to reach `j`.
proof fn lemma_end_of_run(s: Seq<char>, a: int, j: int) -> (b: int)
    requires
        0 <= a < j <= s.len(),
        forall|t: int| a <= t < j ==> !unicode_white_space(#[trigger] s[t]),
    ensures
        j <= b <= s.len(),
        forall|t: int| a <= t < b ==> !unicode_white_space(#[trigger] s[t]),
        b == s.len() || unicode_white_space(s[b]),
    decreases s.len() - j,
{
    if j == s.len() || unicode_white_space(s[j]) {
        j
    } else {
        lemma_end_of_run(s, a, j + 1)
    }
}

/// The first white-space separated word of `text`, as
/// `text.split_whitespace().next()` gives it.
pub fn first_word_of(text: &str) -> (w: Option<String>)
    ensures
        match w {
            Some(w) => first_word(text@) == Some(w@),
            None => first_word(text@) is None,
        },
{
    let n = text.unicode_len();
    let mut i: usize = 0;
    while i < n && is_white_space(text.get_char(i))
        invariant
            n == text@.len(),
            i <= n,
            forall|t: int| 0 <= t < i ==> unicode_white_space(#[trigger] text@[t]),
        decreases n - i,
    {
        i = i + 1;
    }
    if i == n {
        proof {
            if exists|a: int, b: int| first_word_bounds(text@, a, b) {
                let (a, b) = choose|a: int, b: int| first_word_bounds(text@, a, b);
                assert(unicode_white_space(text@[a]));
            }
        }
        return None;
    }
    let mut j: usize = i + 1;
    while j < n && !is_white_space(text.get_char(j))
        invariant
            n == text@.len(),
            i < j <= n,
            !unicode_white_space(text@[i as int]),
            forall|t: int| i <= t < j ==> !unicode_white_space(#[trigger] text@[t]),
        decreases n - j,
    {
        j = j + 1;
    }
    let word = String::from_str(text.substring_char(i, j));
    proof {
        assert(first_word_bounds(text@, i as int, j as int));
        let (a, b) = choose|a: int, b: int| first_word_bounds(text@, a, b);
        lemma_first_word_bounds_unique(text@, a, b, i as int, j as int);
    }
    Some(word)
}

} // verus!
