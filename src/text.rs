use vstd::prelude::*;

verus! {

/// A set of ASCII characters that a run may consist of.
#[derive(Debug, PartialEq, Eq, Clone, Copy)]
pub enum CharClass {
    /// `0` to `9`
    Digit,
    /// `a` to `z`, `A` to `Z` and `0` to `9`
    Alphanumeric,
}

pub open spec fn is_digit(c: char) -> bool {
    '0' <= c && c <= '9'
}

pub open spec fn in_class(c: char, k: CharClass) -> bool {
    match k {
        CharClass::Digit => is_digit(c),
        CharClass::Alphanumeric => is_digit(c) || ('a' <= c && c <= 'z') || ('A' <= c && c <= 'Z'),
    }
}

pub fn char_in_class(c: char, k: CharClass) -> (r: bool)
    ensures
        r == in_class(c, k),
{
    match k {
        CharClass::Digit => '0' <= c && c <= '9',
        CharClass::Alphanumeric => ('0' <= c && c <= '9') || ('a' <= c && c <= 'z') || ('A' <= c
            && c <= 'Z'),
    }
}

pub open spec fn all_digits(s: Seq<char>) -> bool {
    forall|i: int| 0 <= i < s.len() ==> is_digit(#[trigger] s[i])
}

pub open spec fn digit_value(c: char) -> nat {
    ((c as int) - ('0' as int)) as nat
}

/// The number that the decimal digits `s` denote.
pub open spec fn digits_value(s: Seq<char>) -> nat
    decreases s.len(),
{
    if s.len() == 0 {
        0
    } else {
        digits_value(s.drop_last()) * 10 + digit_value(s.last())
    }
}

/// `s` without a leading `+`.
pub open spec fn unsigned_digits(s: Seq<char>) -> Seq<char> {
    if s.len() > 0 && s[0] == '+' {
        s.drop_first()
    } else {
        s
    }
}

/// A string reads as an unsigned number when it is an optional `+` followed by at least one
/// decimal digit, and the number fits in a `usize`.
pub open spec fn parsed_usize(s: Seq<char>) -> Option<usize> {
    let d = unsigned_digits(s);
    if d.len() > 0 && all_digits(d) && digits_value(d) <= usize::MAX {
        Some(digits_value(d) as usize)
    } else {
        None
    }
}

proof fn lemma_digits_value_grows(s: Seq<char>, k: int)
    requires
        0 <= k <= s.len(),
        all_digits(s),
    ensures
        digits_value(s.subrange(0, k)) <= digits_value(s),
    decreases s.len() - k,
{
    if k < s.len() {
        lemma_digits_value_grows(s, k + 1);
        let t = s.subrange(0, k + 1);
        assert(t.drop_last() =~= s.subrange(0, k));
    } else {
        assert(s.subrange(0, k) =~= s);
    }
}

/// Reads `s` as an unsigned decimal number, as `str::parse::<usize>` does.
pub fn parse_usize(s: &str) -> (r: Option<usize>)
    ensures
        r == parsed_usize(s@),
{
    let n = s.unicode_len();
    let ghost d = unsigned_digits(s@);
    let start: usize = if n > 0 && s.get_char(0) == '+' {
        1
    } else {
        0
    };
    assert(d =~= s@.subrange(start as int, n as int));
    if start == n {
        return None;
    }
    let mut value: usize = 0;
    let mut i: usize = start;
    while i < n
        invariant
            start <= i <= n,
            n == s@.len(),
            d == unsigned_digits(s@),
            d =~= s@.subrange(start as int, n as int),
            all_digits(s@.subrange(start as int, i as int)),
            value == digits_value(s@.subrange(start as int, i as int)),
        decreases n - i,
    {
        let c = s.get_char(i);
        if !('0' <= c && c <= '9') {
            assert(d[i - start] == c);
            assert(!all_digits(d));
            return None;
        }
        let ghost prefix = s@.subrange(start as int, i as int);
        let ghost next = s@.subrange(start as int, i + 1);
        assert(next.drop_last() =~= prefix);
        assert(next.last() == c);
        assert(digits_value(next) == value * 10 + digit_value(c));
        let digit = (c as u32 - '0' as u32) as usize;
        match value.checked_mul(10) {
            Some(v) => match v.checked_add(digit) {
                Some(w) => {
                    value = w;
                },
                None => {
                    proof {
                        assert(digits_value(next) > usize::MAX);
                        if all_digits(d) {
                            lemma_digits_value_grows(d, i + 1 - start);
                            assert(d.subrange(0, i + 1 - start) =~= next);
                        }
                    }
                    return None;
                },
            },
            None => {
                proof {
                    assert(digits_value(next) > usize::MAX);
                    if all_digits(d) {
                        lemma_digits_value_grows(d, i + 1 - start);
                        assert(d.subrange(0, i + 1 - start) =~= next);
                    }
                }
                return None;
            },
        }
        i = i + 1;
    }
    Some(value)
}

/// The pieces of `s` between occurrences of `sep`, as `str::split` with a character yields
/// them: one piece more than there are separators.
pub open spec fn split(s: Seq<char>, sep: char) -> Seq<Seq<char>>
    decreases s.len(),
{
    if s.len() == 0 {
        seq![Seq::<char>::empty()]
    } else {
        let init = split(s.drop_last(), sep);
        if s.last() == sep {
            init.push(Seq::<char>::empty())
        } else {
            init.update(init.len() - 1, init.last().push(s.last()))
        }
    }
}

proof fn lemma_split_nonempty(s: Seq<char>, sep: char)
    ensures
        split(s, sep).len() >= 1,
    decreases s.len(),
{
    if s.len() > 0 {
        lemma_split_nonempty(s.drop_last(), sep);
    }
}

/// Splits `s` at each occurrence of `sep`.
pub fn split_at_char<'a>(s: &'a str, sep: char) -> (r: Vec<&'a str>)
    ensures
        r@.len() == split(s@, sep).len(),
        forall|i: int| 0 <= i < r@.len() ==> (#[trigger] r@[i])@ == split(s@, sep)[i],
{
    let n = s.unicode_len();
    let mut r: Vec<&'a str> = Vec::new();
    let mut piece_start: usize = 0;
    let mut i: usize = 0;
    while i < n
        invariant
            piece_start <= i <= n,
            n == s@.len(),
            split(s@.subrange(0, i as int), sep).len() == r@.len() + 1,
            forall|j: int| 0 <= j < r@.len() ==> (#[trigger] r@[j])@ == split(
                s@.subrange(0, i as int),
                sep,
            )[j],
            split(s@.subrange(0, i as int), sep).last() == s@.subrange(
                piece_start as int,
                i as int,
            ),
        decreases n - i,
    {
        let ghost prev = s@.subrange(0, i as int);
        let ghost cur = s@.subrange(0, i + 1);
        assert(cur.drop_last() =~= prev);
        proof {
            lemma_split_nonempty(prev, sep);
        }
        let c = s.get_char(i);
        if c == sep {
            let piece = s.substring_char(piece_start, i);
            r.push(piece);
            piece_start = i + 1;
            assert(s@.subrange(piece_start as int, i + 1) =~= Seq::<char>::empty());
        } else {
            assert(s@.subrange(piece_start as int, i + 1) =~= s@.subrange(
                piece_start as int,
                i as int,
            ).push(c));
        }
        i = i + 1;
    }
    let last = s.substring_char(piece_start, n);
    r.push(last);
    assert(s@.subrange(0, n as int) =~= s@);
    r
}

/// Whether `a` and `b` hold the same characters.
pub fn same_text(a: &str, b: &str) -> (r: bool)
    ensures
        r == (a@ == b@),
{
    let n = a.unicode_len();
    if n != b.unicode_len() {
        return false;
    }
    let mut i: usize = 0;
    while i < n
        invariant
            i <= n,
            n == a@.len(),
            n == b@.len(),
            forall|j: int| 0 <= j < i ==> a@[j] == b@[j],
        decreases n - i,
    {
        if a.get_char(i) != b.get_char(i) {
            return false;
        }
        i = i + 1;
    }
    assert(a@ =~= b@);
    true
}

/// `tag` occurs in `s` at position `i`.
pub open spec fn tag_at(s: Seq<char>, tag: Seq<char>, i: int) -> bool {
    0 <= i && i + tag.len() <= s.len() && s.subrange(i, i + tag.len()) == tag
}

/// `tag` occurs in `s` at position `i`, followed by a character of class `k`.
pub open spec fn run_at(s: Seq<char>, tag: Seq<char>, k: CharClass, i: int) -> bool {
    tag_at(s, tag, i) && i + tag.len() < s.len() && in_class(s[i + tag.len()], k)
}

/// The end of the longest stretch of class `k` that starts at `start`.
pub open spec fn run_end(s: Seq<char>, k: CharClass, start: int) -> int
    decreases s.len() - start,
{
    if 0 <= start < s.len() && in_class(s[start], k) {
        run_end(s, k, start + 1)
    } else {
        start
    }
}

/// The characters of class `k` that follow the leftmost occurrence, at `i` or later, of `tag`
/// followed by at least one such character; as many as stand there in a row.
pub open spec fn first_run_from(s: Seq<char>, tag: Seq<char>, k: CharClass, i: int) -> Option<
    Seq<char>,
>
    decreases s.len() - i,
{
    if i < 0 || i >= s.len() {
        None
    } else if run_at(s, tag, k, i) {
        Some(s.subrange(i + tag.len(), run_end(s, k, i + tag.len())))
    } else {
        first_run_from(s, tag, k, i + 1)
    }
}

pub open spec fn first_run(s: Seq<char>, tag: Seq<char>, k: CharClass) -> Option<Seq<char>> {
    first_run_from(s, tag, k, 0)
}

proof fn lemma_run_end_bounds(s: Seq<char>, k: CharClass, start: int)
    requires
        0 <= start <= s.len(),
    ensures
        start <= run_end(s, k, start) <= s.len(),
    decreases s.len() - start,
{
    if start < s.len() && in_class(s[start], k) {
        lemma_run_end_bounds(s, k, start + 1);
    }
}

fn tag_at_exec(s: &str, n: usize, tag: &str, m: usize, i: usize) -> (r: bool)
    requires
        n == s@.len(),
        m == tag@.len(),
        i <= n,
    ensures
        r == tag_at(s@, tag@, i as int),
{
    if m > n - i {
        return false;
    }
    let mut j: usize = 0;
    while j < m
        invariant
            j <= m,
            i + m <= n,
            n == s@.len(),
            m == tag@.len(),
            forall|t: int| 0 <= t < j ==> s@[i + t] == tag@[t],
        decreases m - j,
    {
        if s.get_char(i + j) != tag.get_char(j) {
            assert(s@.subrange(i as int, i + m)[j as int] != tag@[j as int]);
            return false;
        }
        j = j + 1;
    }
    assert(s@.subrange(i as int, i + m) =~= tag@);
    true
}

/// `s` begins with `t`.
pub open spec fn starts_with(s: Seq<char>, t: Seq<char>) -> bool {
    tag_at(s, t, 0)
}

/// `s` finishes with `t`.
pub open spec fn ends_with(s: Seq<char>, t: Seq<char>) -> bool {
    tag_at(s, t, s.len() - t.len())
}

pub fn text_starts_with(s: &str, t: &str) -> (r: bool)
    ensures
        r == starts_with(s@, t@),
{
    tag_at_exec(s, s.unicode_len(), t, t.unicode_len(), 0)
}

pub fn text_ends_with(s: &str, t: &str) -> (r: bool)
    ensures
        r == ends_with(s@, t@),
{
    let n = s.unicode_len();
    let m = t.unicode_len();
    if m > n {
        return false;
    }
    tag_at_exec(s, n, t, m, n - m)
}

/// Finds the leftmost occurrence of `tag` followed by characters of class `k`, and returns
/// where the run of those characters starts and ends.
pub fn find_run(s: &str, tag: &str, k: CharClass) -> (r: Option<(usize, usize)>)
    ensures
        match r {
            Some((a, b)) => a <= b <= s@.len() && first_run(s@, tag@, k) == Some(
                s@.subrange(a as int, b as int),
            ),
            None => first_run(s@, tag@, k) is None,
        },
{
    let n = s.unicode_len();
    let m = tag.unicode_len();
    let mut i: usize = 0;
    while i < n
        invariant
            i <= n,
            n == s@.len(),
            m == tag@.len(),
            first_run(s@, tag@, k) == first_run_from(s@, tag@, k, i as int),
        decreases n - i,
    {
        if tag_at_exec(s, n, tag, m, i) && m < n - i && char_in_class(s.get_char(i + m), k) {
            let start = i + m;
            let mut e: usize = start;
            proof {
                lemma_run_end_bounds(s@, k, start as int);
            }
            while e < n && char_in_class(s.get_char(e), k)
                invariant
                    start <= e <= n,
                    n == s@.len(),
                    run_end(s@, k, e as int) == run_end(s@, k, start as int),
                decreases n - e,
            {
                e = e + 1;
            }
            return Some((start, e));
        }
        i = i + 1;
    }
    None
}

} // verus!

verus! {

/// The characters with the Unicode `White_Space` property, which `char::is_whitespace` tests.
pub open spec fn is_white_space(c: char) -> bool {
    ('\u{9}' <= c && c <= '\u{d}') || c == ' ' || c == '\u{85}' || c == '\u{a0}' || c
        == '\u{1680}' || ('\u{2000}' <= c && c <= '\u{200a}') || c == '\u{2028}' || c
        == '\u{2029}' || c == '\u{202f}' || c == '\u{205f}' || c == '\u{3000}'
}

pub fn char_is_white_space(c: char) -> (r: bool)
    ensures
        r == is_white_space(c),
{
    ('\u{9}' <= c && c <= '\u{d}') || c == ' ' || c == '\u{85}' || c == '\u{a0}' || c
        == '\u{1680}' || ('\u{2000}' <= c && c <= '\u{200a}') || c == '\u{2028}' || c
        == '\u{2029}' || c == '\u{202f}' || c == '\u{205f}' || c == '\u{3000}'
}

pub open spec fn trim_start(s: Seq<char>) -> Seq<char>
    decreases s.len(),
{
    if s.len() > 0 && is_white_space(s[0]) {
        trim_start(s.drop_first())
    } else {
        s
    }
}

pub open spec fn trim_end(s: Seq<char>) -> Seq<char>
    decreases s.len(),
{
    if s.len() > 0 && is_white_space(s.last()) {
        trim_end(s.drop_last())
    } else {
        s
    }
}

/// `s` without white space at either end, as `str::trim` leaves it.
pub open spec fn trimmed(s: Seq<char>) -> Seq<char> {
    trim_end(trim_start(s))
}

/// `s` without white space at either end.
pub fn trim_text<'a>(s: &'a str) -> (r: &'a str)
    ensures
        r@ == trimmed(s@),
{
    let n = s.unicode_len();
    let mut a: usize = 0;
    assert(s@.subrange(0, n as int) =~= s@);
    while a < n && char_is_white_space(s.get_char(a))
        invariant
            a <= n,
            n == s@.len(),
            trim_start(s@) == trim_start(s@.subrange(a as int, n as int)),
        decreases n - a,
    {
        let ghost t = s@.subrange(a as int, n as int);
        assert(t.drop_first() =~= s@.subrange(a + 1, n as int));
        a = a + 1;
    }
    let ghost front = s@.subrange(a as int, n as int);
    assert(trim_start(front) == front);
    let mut b: usize = n;
    while b > a && char_is_white_space(s.get_char(b - 1))
        invariant
            a <= b <= n,
            n == s@.len(),
            trim_end(front) == trim_end(s@.subrange(a as int, b as int)),
        decreases b,
    {
        let ghost t = s@.subrange(a as int, b as int);
        assert(t.drop_last() =~= s@.subrange(a as int, b - 1));
        b = b - 1;
    }
    s.substring_char(a, b)
}

/// The pieces of `parts` with `sep` between each two, as `join` on a slice yields them.
pub open spec fn joined(parts: Seq<Seq<char>>, sep: Seq<char>) -> Seq<char>
    decreases parts.len(),
{
    if parts.len() == 0 {
        Seq::<char>::empty()
    } else if parts.len() == 1 {
        parts[0]
    } else {
        joined(parts.drop_last(), sep) + sep + parts.last()
    }
}

pub open spec fn string_texts(v: Seq<String>) -> Seq<Seq<char>> {
    v.map_values(|x: String| x@)
}

/// The strings of `parts` with `sep` between each two.
pub fn join_texts(parts: &Vec<String>, sep: &str) -> (r: String)
    ensures
        r@ == joined(string_texts(parts@), sep@),
{
    let mut r = String::new();
    let mut i: usize = 0;
    while i < parts.len()
        invariant
            i <= parts@.len(),
            r@ == joined(string_texts(parts@.subrange(0, i as int)), sep@),
        decreases parts@.len() - i,
    {
        let ghost prev = string_texts(parts@.subrange(0, i as int));
        let ghost next = string_texts(parts@.subrange(0, i + 1));
        assert(next.drop_last() =~= prev);
        if i > 0 {
            r.append(sep);
        }
        r.append(parts[i].as_str());
        assert(next.last() == parts@[i as int]@);
        i = i + 1;
    }
    assert(parts@.subrange(0, parts@.len() as int) =~= parts@);
    r
}

} // verus!
