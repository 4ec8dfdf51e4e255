//! Text scanning over the character view of strings: whitespace, trimming,
//! lines, words, substring search and decimal numbers, each with the meaning
//! that Rust's `str` methods of the same purpose document.
use vstd::prelude::*;

verus! {

// ---------------------------------------------------------------------------
// Characters
// ---------------------------------------------------------------------------

/// The Unicode `White_Space` characters, which `char::is_whitespace` accepts.
pub open spec fn is_white(c: char) -> bool {
    ||| '\t' <= c <= '\r'
    ||| c == ' '
    ||| c == '\u{85}'
    ||| c == '\u{A0}'
    ||| c == '\u{1680}'
    ||| '\u{2000}' <= c <= '\u{200A}'
    ||| c == '\u{2028}'
    ||| c == '\u{2029}'
    ||| c == '\u{202F}'
    ||| c == '\u{205F}'
    ||| c == '\u{3000}'
}

/// Whether `c` is a Unicode whitespace character.
pub fn is_white_char(c: char) -> (r: bool)
    ensures
        r == is_white(c),
{
    ('\t' <= c && c <= '\r') || c == ' ' || c == '\u{85}' || c == '\u{A0}' || c == '\u{1680}' || (
    '\u{2000}' <= c && c <= '\u{200A}') || c == '\u{2028}' || c == '\u{2029}' || c == '\u{202F}'
        || c == '\u{205F}' || c == '\u{3000}'
}

/// The characters of `s`, in order.
pub fn chars_of(s: &str) -> (r: Vec<char>)
    ensures
        r@ == s@,
{
    let mut r: Vec<char> = Vec::new();
    for c in it: s.chars()
        invariant
            r@ == it.seq().take(it.index() as int),
    {
        r.push(c);
    }
    r
}

// ---------------------------------------------------------------------------
// Scanning positions
// ---------------------------------------------------------------------------

/// The first position at or after `from` that does not hold whitespace
/// (the length of `s` if there is none).
pub open spec fn skip_white(s: Seq<char>, from: nat) -> nat
    decreases s.len() - from,
{
    if from >= s.len() {
        s.len()
    } else if is_white(s[from as int]) {
        skip_white(s, from + 1)
    } else {
        from
    }
}

/// The first position at or after `from` that holds whitespace
/// (the length of `s` if there is none).
pub open spec fn skip_word(s: Seq<char>, from: nat) -> nat
    decreases s.len() - from,
{
    if from >= s.len() {
        s.len()
    } else if is_white(s[from as int]) {
        from
    } else {
        skip_word(s, from + 1)
    }
}

/// The first position at or after `from` that holds `c`
/// (the length of `s` if there is none).
pub open spec fn find_from(s: Seq<char>, c: char, from: nat) -> nat
    decreases s.len() - from,
{
    if from >= s.len() {
        s.len()
    } else if s[from as int] == c {
        from
    } else {
        find_from(s, c, from + 1)
    }
}

/// The end of `s[..to]` once trailing whitespace is removed.
pub open spec fn trim_end_at(s: Seq<char>, to: nat) -> nat
    decreases to,
{
    if to == 0 || to > s.len() {
        to
    } else if is_white(s[to - 1]) {
        trim_end_at(s, (to - 1) as nat)
    } else {
        to
    }
}

pub proof fn lemma_skip_white_bounds(s: Seq<char>, from: nat)
    ensures
        from <= s.len() ==> from <= skip_white(s, from) <= s.len(),
        skip_white(s, from) < s.len() ==> !is_white(s[skip_white(s, from) as int]),
        forall|k: int| from <= k < skip_white(s, from) ==> is_white(#[trigger] s[k]),
    decreases s.len() - from,
{
    if from < s.len() && is_white(s[from as int]) {
        lemma_skip_white_bounds(s, from + 1);
    }
}

pub proof fn lemma_skip_word_bounds(s: Seq<char>, from: nat)
    ensures
        from <= s.len() ==> from <= skip_word(s, from) <= s.len(),
        skip_word(s, from) < s.len() ==> is_white(s[skip_word(s, from) as int]),
        forall|k: int| from <= k < skip_word(s, from) ==> !is_white(#[trigger] s[k]),
    decreases s.len() - from,
{
    if from < s.len() && !is_white(s[from as int]) {
        lemma_skip_word_bounds(s, from + 1);
    }
}

pub proof fn lemma_find_from_bounds(s: Seq<char>, c: char, from: nat)
    ensures
        from <= s.len() ==> from <= find_from(s, c, from) <= s.len(),
        find_from(s, c, from) < s.len() ==> s[find_from(s, c, from) as int] == c,
        forall|k: int| from <= k < find_from(s, c, from) ==> #[trigger] s[k] != c,
    decreases s.len() - from,
{
    if from < s.len() && s[from as int] != c {
        lemma_find_from_bounds(s, c, from + 1);
    }
}

pub proof fn lemma_trim_end_bounds(s: Seq<char>, to: nat)
    requires
        to <= s.len(),
    ensures
        trim_end_at(s, to) <= to,
        trim_end_at(s, to) > 0 ==> !is_white(s[trim_end_at(s, to) - 1]),
        forall|k: int| trim_end_at(s, to) <= k < to ==> is_white(#[trigger] s[k]),
    decreases to,
{
    if to > 0 && is_white(s[to - 1]) {
        lemma_trim_end_bounds(s, (to - 1) as nat);
    }
}

// ---------------------------------------------------------------------------
// Trimming
// ---------------------------------------------------------------------------

/// `t` is `s` with whitespace cut from both ends and nothing else: a stretch
/// of `s` with only whitespace before and after it, which (unless empty)
/// begins and ends with a character that is not whitespace.
pub open spec fn is_trim_of(s: Seq<char>, t: Seq<char>) -> bool {
    exists|a: int, b: int|
        #![trigger s.subrange(a, b)]
        0 <= a <= b <= s.len() && t == s.subrange(a, b) && (forall|i: int|
            0 <= i < a ==> is_white(#[trigger] s[i])) && (forall|i: int|
            b <= i < s.len() ==> is_white(#[trigger] s[i])) && (a < b ==> !is_white(s[a])
            && !is_white(s[b - 1]))
}

/// Trimming cuts exactly the whitespace at both ends.
pub proof fn lemma_trimmed_cuts_white_ends(s: Seq<char>)
    ensures
        is_trim_of(s, trimmed(s)),
{
    let a = skip_white(s, 0);
    let b = trim_end_at(s, s.len());
    lemma_skip_white_bounds(s, 0);
    lemma_trim_end_bounds(s, s.len());
    if a < b {
        assert(s.subrange(a as int, b as int) == trimmed(s));
    } else {
        assert forall|i: int| a <= i < s.len() implies is_white(#[trigger] s[i]) by {
            assert(b <= i);
        }
        assert(s.subrange(a as int, a as int) =~= trimmed(s));
    }
}

/// `s` without its leading and trailing whitespace, as `str::trim` gives it.
pub open spec fn trimmed(s: Seq<char>) -> Seq<char> {
    let a = skip_white(s, 0);
    let b = trim_end_at(s, s.len());
    if a < b {
        s.subrange(a as int, b as int)
    } else {
        Seq::empty()
    }
}

/// `s` without its leading and trailing whitespace.
pub fn trim(s: &str) -> (r: &str)
    ensures
        r@ == trimmed(s@),
        is_trim_of(s@, r@),
{
    let cs = chars_of(s);
    let n = cs.len();
    let mut a: usize = 0;
    while a < n && is_white_char(cs[a])
        invariant
            a <= n,
            n == cs@.len(),
            cs@ == s@,
            skip_white(s@, a as nat) == skip_white(s@, 0),
        decreases n - a,
    {
        a = a + 1;
    }
    let mut b: usize = n;
    while b > 0 && is_white_char(cs[b - 1])
        invariant
            b <= n,
            n == cs@.len(),
            cs@ == s@,
            trim_end_at(s@, b as nat) == trim_end_at(s@, n as nat),
        decreases b,
    {
        b = b - 1;
    }
    let r = if a < b {
        s.substring_char(a, b)
    } else {
        s.substring_char(0, 0)
    };
    proof {
        lemma_trimmed_cuts_white_ends(s@);
    }
    r
}


// ---------------------------------------------------------------------------
// Words
// ---------------------------------------------------------------------------

/// The whitespace-separated words of `s` from position `from` on.
pub open spec fn words_from(s: Seq<char>, from: nat) -> Seq<Seq<char>>
    decreases s.len() - from,
{
    let a = skip_white(s, from);
    if from >= s.len() || a >= s.len() {
        Seq::empty()
    } else {
        let b = skip_word(s, a);
        proof {
            lemma_skip_white_bounds(s, from);
            lemma_skip_word_bounds(s, a);
            lemma_skip_word_advances(s, a);
        }
        seq![s.subrange(a as int, b as int)] + words_from(s, b)
    }
}

/// The whitespace-separated words of `s`, as `str::split_whitespace` yields them.
pub open spec fn words(s: Seq<char>) -> Seq<Seq<char>> {
    words_from(s, 0)
}

pub proof fn lemma_skip_word_advances(s: Seq<char>, a: nat)
    requires
        a < s.len(),
        !is_white(s[a as int]),
    ensures
        skip_word(s, a) > a,
{
    lemma_skip_word_bounds(s, a + 1);
}

/// The whitespace-separated words of `s`, in order.
pub fn split_words<'a>(s: &'a str) -> (r: Vec<&'a str>)
    ensures
        r.deep_view() == words(s@),
        forall|k: int| 0 <= k < r@.len() ==> (#[trigger] r@[k])@.len() > 0,
        forall|k: int, i: int|
            0 <= k < r@.len() && 0 <= i < r@[k]@.len() ==> !is_white(#[trigger] r@[k]@[i]),
{
    let r = scan_words(s);
    proof {
        lemma_words_are_nonempty_and_unbroken(s@, 0);
        assert forall|k: int| 0 <= k < r@.len() implies (#[trigger] r@[k])@.len() > 0 by {
            assert(r.deep_view()[k] == r@[k]@);
            assert(words_from(s@, 0)[k].len() > 0);
        }
        assert forall|k: int, i: int|
            0 <= k < r@.len() && 0 <= i < r@[k]@.len() implies !is_white(#[trigger] r@[k]@[i]) by {
            assert(r.deep_view()[k] == r@[k]@);
            assert(!is_white(words_from(s@, 0)[k][i]));
        }
    }
    r
}

fn scan_words<'a>(s: &'a str) -> (r: Vec<&'a str>)
    ensures
        r.deep_view() == words(s@),
{
    let cs = chars_of(s);
    let n = cs.len();
    let mut r: Vec<&'a str> = Vec::new();
    let mut from: usize = 0;
    loop
        invariant
            from <= n,
            n == cs@.len(),
            cs@ == s@,
            r.deep_view() + words_from(s@, from as nat) == words(s@),
        decreases n - from,
    {
        let mut a = from;
        while a < n && is_white_char(cs[a])
            invariant
                from <= a <= n,
                n == cs@.len(),
                cs@ == s@,
                skip_white(s@, a as nat) == skip_white(s@, from as nat),
            decreases n - a,
        {
            a = a + 1;
        }
        if a >= n {
            assert(words_from(s@, from as nat) =~= Seq::<Seq<char>>::empty());
            assert(r.deep_view() + Seq::<Seq<char>>::empty() =~= r.deep_view());
            return r;
        }
        let mut b = a;
        while b < n && !is_white_char(cs[b])
            invariant
                a <= b <= n,
                n == cs@.len(),
                cs@ == s@,
                skip_word(s@, b as nat) == skip_word(s@, a as nat),
            decreases n - b,
        {
            b = b + 1;
        }
        proof {
            lemma_skip_word_advances(s@, a as nat);
        }
        let w = s.substring_char(a, b);
        let ghost old_r = r.deep_view();
        r.push(w);
        assert(r.deep_view() =~= old_r.push(w@));
        assert(words_from(s@, from as nat) =~= seq![w@] + words_from(s@, b as nat));
        assert(r.deep_view() + words_from(s@, b as nat) =~= old_r + words_from(s@, from as nat));
        from = b;
    }
}

// ---------------------------------------------------------------------------
// Lines
// ---------------------------------------------------------------------------

/// `t` without one trailing carriage return.
pub open spec fn strip_cr(t: Seq<char>) -> Seq<char> {
    if t.len() > 0 && t.last() == '\r' {
        t.drop_last()
    } else {
        t
    }
}

/// The lines of `s` from position `from` on.
pub open spec fn lines_from(s: Seq<char>, from: nat) -> Seq<Seq<char>>
    decreases s.len() - from,
{
    if from >= s.len() {
        Seq::empty()
    } else {
        let j = find_from(s, '\n', from);
        proof {
            lemma_find_from_bounds(s, '\n', from);
        }
        if j >= s.len() {
            seq![s.subrange(from as int, s.len() as int)]
        } else {
            seq![strip_cr(s.subrange(from as int, j as int))] + lines_from(s, j + 1)
        }
    }
}

/// The lines of `s`, as `str::lines` yields them: split at `\n`, a `\r`
/// directly before a `\n` dropped, no empty line after a final `\n`.
pub open spec fn lines(s: Seq<char>) -> Seq<Seq<char>> {
    lines_from(s, 0)
}

/// The lines of `s`, in order.
pub fn split_lines<'a>(s: &'a str) -> (r: Vec<&'a str>)
    ensures
        r.deep_view() == lines(s@),
        forall|k: int, i: int|
            0 <= k < r@.len() && 0 <= i < r@[k]@.len() ==> #[trigger] r@[k]@[i] != '\n',
{
    let r = scan_lines(s);
    proof {
        lemma_lines_hold_no_line_feed(s@, 0);
        assert forall|k: int, i: int|
            0 <= k < r@.len() && 0 <= i < r@[k]@.len() implies #[trigger] r@[k]@[i] != '\n' by {
            assert(r.deep_view()[k] == r@[k]@);
            assert(lines_from(s@, 0)[k][i] != '\n');
        }
    }
    r
}

fn scan_lines<'a>(s: &'a str) -> (r: Vec<&'a str>)
    ensures
        r.deep_view() == lines(s@),
{
    let cs = chars_of(s);
    let n = cs.len();
    let mut r: Vec<&'a str> = Vec::new();
    let mut from: usize = 0;
    while from < n
        invariant
            from <= n,
            n == cs@.len(),
            cs@ == s@,
            r.deep_view() + lines_from(s@, from as nat) == lines(s@),
        decreases n - from,
    {
        let mut j = from;
        while j < n && cs[j] != '\n'
            invariant
                from <= j <= n,
                n == cs@.len(),
                cs@ == s@,
                find_from(s@, '\n', j as nat) == find_from(s@, '\n', from as nat),
            decreases n - j,
        {
            j = j + 1;
        }
        let ghost old_r = r.deep_view();
        if j >= n {
            let line = s.substring_char(from, n);
            r.push(line);
            assert(r.deep_view() =~= old_r.push(line@));
            assert(lines_from(s@, from as nat) =~= seq![line@]);
            assert(lines_from(s@, n as nat) =~= Seq::<Seq<char>>::empty());
            assert(r.deep_view() + lines_from(s@, n as nat) =~= old_r + lines_from(s@, from as nat));
            from = n;
        } else {
            let end = if j > from && cs[j - 1] == '\r' {
                j - 1
            } else {
                j
            };
            let line = s.substring_char(from, end);
            assert(line@ =~= strip_cr(s@.subrange(from as int, j as int)));
            r.push(line);
            assert(r.deep_view() =~= old_r.push(line@));
            assert(lines_from(s@, from as nat) =~= seq![line@] + lines_from(s@, (j + 1) as nat));
            assert(r.deep_view() + lines_from(s@, (j + 1) as nat) =~= old_r + lines_from(s@, from as nat));
            from = j + 1;
        }
    }
    assert(lines_from(s@, from as nat) =~= Seq::<Seq<char>>::empty());
    assert(r.deep_view() + Seq::<Seq<char>>::empty() =~= r.deep_view());
    r
}


// ---------------------------------------------------------------------------
// Substrings
// ---------------------------------------------------------------------------

/// `p` occurs in `s` starting at position `i`.
pub open spec fn occurs_at(s: Seq<char>, p: Seq<char>, i: int) -> bool {
    0 <= i && i + p.len() <= s.len() && s.subrange(i, i + p.len()) == p
}

/// `p` occurs somewhere in `s`, as `str::contains` tests it.
pub open spec fn has_substring(s: Seq<char>, p: Seq<char>) -> bool {
    exists|i: int| occurs_at(s, p, i)
}

/// `s` begins with `p`, as `str::starts_with` tests it.
pub open spec fn has_prefix(s: Seq<char>, p: Seq<char>) -> bool {
    occurs_at(s, p, 0)
}

fn occurs_at_exec(s: &Vec<char>, p: &Vec<char>, i: usize) -> (r: bool)
    requires
        i + p.len() <= s.len(),
    ensures
        r == occurs_at(s@, p@, i as int),
{
    let m = p.len();
    let mut k: usize = 0;
    while k < m
        invariant
            k <= m,
            m == p@.len(),
            i + m <= s.len(),
            forall|q: int| 0 <= q < k ==> s@[i + q] == p@[q],
        decreases m - k,
    {
        if s[i + k] != p[k] {
            assert(s@.subrange(i as int, i + m)[k as int] != p@[k as int]);
            return false;
        }
        k = k + 1;
    }
    assert(s@.subrange(i as int, i + m) =~= p@);
    true
}

/// Whether `p` occurs in `s`.
pub fn contains(s: &str, p: &str) -> (r: bool)
    ensures
        r == has_substring(s@, p@),
{
    let cs = chars_of(s);
    let ps = chars_of(p);
    let n = cs.len();
    let m = ps.len();
    if m > n {
        assert forall|i: int| !occurs_at(s@, p@, i) by {}
        return false;
    }
    if m == 0 {
        assert(s@.subrange(0, 0) =~= p@);
        assert(occurs_at(s@, p@, 0));
        return true;
    }
    let mut i: usize = 0;
    while i <= n - m
        invariant
            0 < m <= n,
            n == cs@.len(),
            m == ps@.len(),
            cs@ == s@,
            ps@ == p@,
            forall|q: int| 0 <= q < i ==> !occurs_at(s@, p@, q),
        decreases n - m + 1 - i,
    {
        if occurs_at_exec(&cs, &ps, i) {
            return true;
        }
        i = i + 1;
    }
    assert forall|q: int| !occurs_at(s@, p@, q) by {
        if 0 <= q && q + m <= n {
            assert(q < i);
        }
    }
    false
}

/// Whether `s` begins with `p`.
pub fn starts_with(s: &str, p: &str) -> (r: bool)
    ensures
        r == has_prefix(s@, p@),
{
    let cs = chars_of(s);
    let ps = chars_of(p);
    if ps.len() > cs.len() {
        return false;
    }
    occurs_at_exec(&cs, &ps, 0)
}


/// Whether `a` and `b` hold the same characters.
pub fn equals(a: &str, b: &str) -> (r: bool)
    ensures
        r == (a@ == b@),
{
    let ac = chars_of(a);
    let bc = chars_of(b);
    if ac.len() != bc.len() {
        return false;
    }
    assert(a@.subrange(0, b@.len() as int) =~= a@);
    occurs_at_exec(&ac, &bc, 0)
}

// ---------------------------------------------------------------------------
// Decimal numbers
// ---------------------------------------------------------------------------

pub open spec fn is_digit(c: char) -> bool {
    '0' <= c <= '9'
}

pub open spec fn all_digits(s: Seq<char>) -> bool {
    forall|i: int| 0 <= i < s.len() ==> is_digit(#[trigger] s[i])
}

/// The value of the decimal digits `s`.
pub open spec fn digits_value(s: Seq<char>) -> nat
    decreases s.len(),
{
    if s.len() == 0 {
        0
    } else {
        digits_value(s.drop_last()) * 10 + ((s.last() as int - '0' as int) as nat)
    }
}

/// What `str::parse::<u64>` gives: an optional `+`, then one or more ASCII
/// digits whose value fits in a `u64`.
pub open spec fn parse_u64_spec(s: Seq<char>) -> Option<u64> {
    let d = if s.len() > 0 && s[0] == '+' {
        s.drop_first()
    } else {
        s
    };
    if d.len() > 0 && all_digits(d) && digits_value(d) <= u64::MAX {
        Some(digits_value(d) as u64)
    } else {
        None
    }
}

proof fn lemma_digits_value_grows(s: Seq<char>, i: int)
    requires
        0 <= i <= s.len(),
        all_digits(s),
    ensures
        digits_value(s.take(i)) <= digits_value(s),
    decreases s.len() - i,
{
    if i < s.len() {
        lemma_digits_value_grows(s, i + 1);
        assert(s.take(i + 1).drop_last() =~= s.take(i));
    } else {
        assert(s.take(i) =~= s);
    }
}

/// The `u64` that `s` spells in decimal, if any.
pub fn parse_u64(s: &str) -> (r: Option<u64>)
    ensures
        r == parse_u64_spec(s@),
{
    let cs = chars_of(s);
    let n = cs.len();
    let start: usize = if n > 0 && cs[0] == '+' {
        1
    } else {
        0
    };
    let ghost d = if s@.len() > 0 && s@[0] == '+' {
        s@.drop_first()
    } else {
        s@
    };
    assert(d =~= s@.subrange(start as int, n as int));
    if start >= n {
        return None;
    }
    let mut value: u64 = 0;
    let mut i: usize = start;
    while i < n
        invariant
            start <= i <= n,
            start < n,
            n == cs@.len(),
            cs@ == s@,
            d == s@.subrange(start as int, n as int),
            d == (if s@.len() > 0 && s@[0] == '+' {
                s@.drop_first()
            } else {
                s@
            }),
            all_digits(d.take(i - start)),
            value == digits_value(d.take(i - start)),
        decreases n - i,
    {
        let c = cs[i];
        assert(d[i - start] == c);
        if !('0' <= c && c <= '9') {
            assert(!is_digit(d[i - start]));
            assert(!all_digits(d));
            assert(parse_u64_spec(s@) is None);
            return None;
        }
        let dv: u64 = (c as u32 - '0' as u32) as u64;
        assert(dv == c as int - '0' as int);
        assert(d.take(i - start + 1).drop_last() =~= d.take(i - start));
        assert(d.take(i - start + 1).last() == c);
        if value > (u64::MAX - dv) / 10 {
            proof {
                assert(digits_value(d.take(i - start + 1)) == value * 10 + dv);
                assert(value * 10 + dv > u64::MAX) by (nonlinear_arith)
                    requires
                        value > (u64::MAX - dv) / 10,
                        dv <= 9,
                ;
                if all_digits(d) {
                    lemma_digits_value_grows(d, i - start + 1);
                    assert(digits_value(d) > u64::MAX);
                }
                assert(parse_u64_spec(s@) is None);
            }
            return None;
        }
        assert(value * 10 + dv <= u64::MAX) by (nonlinear_arith)
            requires
                value <= (u64::MAX - dv) / 10,
                dv <= 9,
        ;
        value = value * 10 + dv;
        i = i + 1;
    }
    assert(d.take(n - start) =~= d);
    Some(value)
}


// ---------------------------------------------------------------------------
// Laws of lines, words and numbers
// ---------------------------------------------------------------------------

/// No line holds a line feed, and a line ends in a carriage return only when
/// it is the last line and the text does not end in a line feed.
pub proof fn lemma_lines_hold_no_line_feed(s: Seq<char>, from: nat)
    ensures
        forall|k: int, i: int|
            0 <= k < lines_from(s, from).len() && 0 <= i < lines_from(s, from)[k].len()
                ==> #[trigger] lines_from(s, from)[k][i] != '\n',
    decreases s.len() - from,
{
    if from < s.len() {
        let j = find_from(s, '\n', from);
        lemma_find_from_bounds(s, '\n', from);
        if j < s.len() {
            lemma_lines_hold_no_line_feed(s, j + 1);
            let first = strip_cr(s.subrange(from as int, j as int));
            assert forall|k: int, i: int|
                0 <= k < lines_from(s, from).len() && 0 <= i < lines_from(s, from)[k].len()
                    implies #[trigger] lines_from(s, from)[k][i] != '\n' by {
                if k == 0 {
                    assert(lines_from(s, from)[0] == first);
                    assert(first[i] == s[from + i]);
                } else {
                    assert(lines_from(s, from)[k] == lines_from(s, j + 1)[k - 1]);
                }
            }
        } else {
            assert forall|k: int, i: int|
                0 <= k < lines_from(s, from).len() && 0 <= i < lines_from(s, from)[k].len()
                    implies #[trigger] lines_from(s, from)[k][i] != '\n' by {
                assert(lines_from(s, from)[k] == s.subrange(from as int, s.len() as int));
                assert(s.subrange(from as int, s.len() as int)[i] == s[from + i]);
            }
        }
    }
}

/// Every word is non-empty and holds no whitespace.
pub proof fn lemma_words_are_nonempty_and_unbroken(s: Seq<char>, from: nat)
    ensures
        forall|k: int| 0 <= k < words_from(s, from).len() ==> (#[trigger] words_from(s, from)[k]).len() > 0,
        forall|k: int, i: int|
            0 <= k < words_from(s, from).len() && 0 <= i < words_from(s, from)[k].len()
                ==> !is_white(#[trigger] words_from(s, from)[k][i]),
    decreases s.len() - from,
{
    let a = skip_white(s, from);
    if from < s.len() && a < s.len() {
        lemma_skip_white_bounds(s, from);
        lemma_skip_word_bounds(s, a);
        lemma_skip_word_advances(s, a);
        let b = skip_word(s, a);
        lemma_words_are_nonempty_and_unbroken(s, b);
        let w = s.subrange(a as int, b as int);
        assert(words_from(s, from) == seq![w] + words_from(s, b));
        assert forall|k: int| 0 <= k < words_from(s, from).len() implies (#[trigger] words_from(
            s,
            from,
        )[k]).len() > 0 by {
            if k > 0 {
                assert(words_from(s, from)[k] == words_from(s, b)[k - 1]);
            }
        }
        assert forall|k: int, i: int|
            0 <= k < words_from(s, from).len() && 0 <= i < words_from(s, from)[k].len()
                implies !is_white(#[trigger] words_from(s, from)[k][i]) by {
            if k == 0 {
                assert(w[i] == s[a + i]);
            } else {
                assert(words_from(s, from)[k] == words_from(s, b)[k - 1]);
            }
        }
    }
}

/// The decimal digits of a number read back as that number.
pub proof fn lemma_decimal_digits_value(n: nat)
    ensures
        all_digits(crate::size_format::decimal_text(n)),
        crate::size_format::decimal_text(n).len() > 0,
        digits_value(crate::size_format::decimal_text(n)) == n,
    decreases n,
{
    let t = crate::size_format::decimal_text(n);
    if n >= 10 {
        lemma_decimal_digits_value(n / 10);
        let p = crate::size_format::decimal_text(n / 10);
        assert(t.drop_last() =~= p);
        assert forall|i: int| 0 <= i < t.len() implies is_digit(#[trigger] t[i]) by {
            if i < p.len() {
                assert(t[i] == p[i]);
            }
        }
        assert(t.last() as int == (n % 10) + 48);
        assert(n == (n / 10) * 10 + n % 10);
        assert(digits_value(t) == digits_value(p) * 10 + (t.last() as int - '0' as int));
        assert(digits_value(p) == n / 10);
        assert(digits_value(t) == n);
    } else {
        assert(t[0] as int == n + 48);
        assert(t.drop_last() =~= Seq::<char>::empty());
        assert(t.last() == t[0]);
        assert(digits_value(t) == digits_value(t.drop_last()) * 10 + (t.last() as int - '0' as int));
        assert(digits_value(t) == n);
    }
}

/// Parsing the decimal digits of a `u64` gives that `u64` back.
pub proof fn lemma_parse_reads_decimal_text(n: u64)
    ensures
        parse_u64_spec(crate::size_format::decimal_text(n as nat)) == Some(n),
{
    lemma_decimal_digits_value(n as nat);
    let t = crate::size_format::decimal_text(n as nat);
    assert(is_digit(t[0]));
}

} // verus!
