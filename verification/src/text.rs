//! Character-level text utilities with exact specifications.
//!
//! Text is handled as sequences of `char`s (the view of a `str` or `String`).
//! Each function here mirrors one operation of `str` that the library relies on,
//! and its contract states that operation's documented behaviour.
use vstd::prelude::*;
use vstd::string::StringExecFns;

verus! {

// ---------------------------------------------------------------------------
// Specifications
// ---------------------------------------------------------------------------

/// `pat` occurs in `s` starting at position `i`.
pub open spec fn matches_at(s: Seq<char>, pat: Seq<char>, i: int) -> bool {
    0 <= i && i + pat.len() <= s.len() && s.subrange(i, i + pat.len()) == pat
}

/// The first position at or after `i` where `pat` occurs in `s`.
pub open spec fn find_from(s: Seq<char>, pat: Seq<char>, i: int) -> Option<int>
    decreases s.len() + 1 - i,
{
    if i < 0 || i + pat.len() > s.len() {
        None
    } else if matches_at(s, pat, i) {
        Some(i)
    } else {
        find_from(s, pat, i + 1)
    }
}

/// The position of the first occurrence of `pat` in `s` (`str::find`, counted in chars).
pub open spec fn find(s: Seq<char>, pat: Seq<char>) -> Option<int> {
    find_from(s, pat, 0)
}

/// `str::contains`.
pub open spec fn contains(s: Seq<char>, pat: Seq<char>) -> bool {
    find(s, pat) is Some
}

/// `str::starts_with`.
pub open spec fn starts_with(s: Seq<char>, pat: Seq<char>) -> bool {
    pat.len() <= s.len() && s.take(pat.len() as int) == pat
}

/// `char::is_whitespace`: the Unicode `White_Space` property.
pub open spec fn is_whitespace(c: char) -> bool {
    let n = c as int;
    ||| 0x09 <= n <= 0x0d
    ||| n == 0x20
    ||| n == 0x85
    ||| n == 0xa0
    ||| n == 0x1680
    ||| 0x2000 <= n <= 0x200a
    ||| n == 0x2028
    ||| n == 0x2029
    ||| n == 0x202f
    ||| n == 0x205f
    ||| n == 0x3000
}

/// `str::trim_start`.
pub open spec fn trim_start(s: Seq<char>) -> Seq<char>
    decreases s.len(),
{
    if s.len() > 0 && is_whitespace(s[0]) {
        trim_start(s.drop_first())
    } else {
        s
    }
}

/// `str::trim_end`.
pub open spec fn trim_end(s: Seq<char>) -> Seq<char>
    decreases s.len(),
{
    if s.len() > 0 && is_whitespace(s.last()) {
        trim_end(s.drop_last())
    } else {
        s
    }
}

/// `str::trim`.
pub open spec fn trim(s: Seq<char>) -> Seq<char> {
    trim_end(trim_start(s))
}

/// A line as `str::lines` yields it: without its `'\n'`, and without a `'\r'` just before it.
pub open spec fn strip_cr(line: Seq<char>) -> Seq<char> {
    if line.len() > 0 && line.last() == '\r' {
        line.drop_last()
    } else {
        line
    }
}

/// `str::lines`: split at `'\n'`, a final line ending being optional.
pub open spec fn lines(s: Seq<char>) -> Seq<Seq<char>>
    decreases s.len(),
{
    if s.len() == 0 {
        Seq::empty()
    } else {
        match find(s, seq!['\n']) {
            Some(i) => {
                if 0 <= i < s.len() {
                    seq![strip_cr(s.take(i))] + lines(s.skip(i + 1))
                } else {
                    Seq::empty()
                }
            },
            None => seq![s],
        }
    }
}

/// The text strictly between the first occurrence of `start` and the first
/// occurrence of `end` after it.
pub open spec fn between(text: Seq<char>, start: Seq<char>, end: Seq<char>) -> Option<Seq<char>> {
    match find(text, start) {
        None => None,
        Some(i) => {
            let rest = text.skip(i + start.len());
            match find(rest, end) {
                None => None,
                Some(j) => Some(rest.take(j)),
            }
        },
    }
}

/// `c` is an ASCII decimal digit.
pub open spec fn is_digit(c: char) -> bool {
    '0' <= c && c <= '9'
}

/// The value of an ASCII decimal digit.
pub open spec fn digit_value(c: char) -> nat {
    ((c as int) - ('0' as int)) as nat
}

/// The value of a string of decimal digits.
pub open spec fn digits_value(s: Seq<char>) -> nat
    decreases s.len(),
{
    if s.len() == 0 {
        0
    } else {
        digits_value(s.drop_last()) * 10 + digit_value(s.last())
    }
}

/// Every character of `s` is an ASCII decimal digit.
pub open spec fn all_digits(s: Seq<char>) -> bool {
    forall|i: int| 0 <= i < s.len() ==> is_digit(#[trigger] s[i])
}

/// `<u8 as FromStr>::from_str`: an optional `'+'`, then one or more decimal digits,
/// whose value is at most 255.
pub open spec fn parse_u8(s: Seq<char>) -> Option<u8> {
    let d = if s.len() > 1 && s[0] == '+' {
        s.drop_first()
    } else {
        s
    };
    if d.len() > 0 && all_digits(d) && digits_value(d) <= 255 {
        Some(digits_value(d) as u8)
    } else {
        None
    }
}

/// The character of a decimal digit.
pub open spec fn digit_char(d: nat) -> char {
    if d == 0 {
        '0'
    } else if d == 1 {
        '1'
    } else if d == 2 {
        '2'
    } else if d == 3 {
        '3'
    } else if d == 4 {
        '4'
    } else if d == 5 {
        '5'
    } else if d == 6 {
        '6'
    } else if d == 7 {
        '7'
    } else if d == 8 {
        '8'
    } else {
        '9'
    }
}

/// The decimal representation of `n`, as `Display` writes an unsigned integer.
pub open spec fn decimal(n: nat) -> Seq<char>
    decreases n,
{
    if n < 10 {
        seq![digit_char(n)]
    } else {
        decimal(n / 10) + seq![digit_char(n % 10)]
    }
}

/// The length of the run of non-whitespace characters that starts `s`.
pub open spec fn word_len(s: Seq<char>) -> nat
    decreases s.len(),
{
    if s.len() == 0 || is_whitespace(s[0]) {
        0
    } else {
        1 + word_len(s.drop_first())
    }
}

/// `str::split_whitespace`: the maximal runs of non-whitespace characters, in order.
pub open spec fn split_ws(s: Seq<char>) -> Seq<Seq<char>>
    decreases s.len(),
{
    if s.len() == 0 {
        Seq::empty()
    } else if is_whitespace(s[0]) {
        split_ws(s.drop_first())
    } else {
        let k = word_len(s);
        if 0 < k <= s.len() {
            seq![s.take(k as int)] + split_ws(s.skip(k as int))
        } else {
            Seq::empty()
        }
    }
}

/// The upper-case form of an ASCII lower-case letter.
pub open spec fn ascii_upper(c: char) -> int {
    (c as u32) - 32
}

/// `s.to_lowercase() == word`, for a `word` of ASCII lower-case letters other
/// than `i` and `k`: each character of `s` is the word's letter or its upper-case
/// form. (No other character lower-cases to such a letter, and no character
/// lower-cases to several characters among them.)
pub open spec fn lowercases_to(s: Seq<char>, word: Seq<char>) -> bool {
    &&& s.len() == word.len()
    &&& forall|j: int|
        0 <= j < s.len() ==> (#[trigger] s[j] == word[j] || s[j] as u32 == ascii_upper(word[j]))
}

// ---------------------------------------------------------------------------
// Lemmas
// ---------------------------------------------------------------------------

/// If `pat` does not occur in `[i, k)` and occurs at `k`, the search from `i` finds `k`.
pub proof fn lemma_find_from_first(s: Seq<char>, pat: Seq<char>, i: int, k: int)
    requires
        0 <= i <= k,
        matches_at(s, pat, k),
        forall|j: int| i <= j < k ==> !matches_at(s, pat, j),
    ensures
        find_from(s, pat, i) == Some(k),
    decreases k - i,
{
    if i < k {
        lemma_find_from_first(s, pat, i + 1, k);
    }
}

/// If `pat` does not occur at or after `i`, the search from `i` finds nothing.
pub proof fn lemma_find_from_none(s: Seq<char>, pat: Seq<char>, i: int)
    requires
        0 <= i,
        forall|j: int| i <= j ==> !matches_at(s, pat, j),
    ensures
        find_from(s, pat, i) is None,
    decreases s.len() + 1 - i,
{
    if i + pat.len() <= s.len() {
        lemma_find_from_none(s, pat, i + 1);
    }
}

/// What a search result means: a first occurrence, or none at all.
pub proof fn lemma_find_from_spec(s: Seq<char>, pat: Seq<char>, i: int)
    requires
        0 <= i,
    ensures
        match find_from(s, pat, i) {
            Some(k) => i <= k && matches_at(s, pat, k) && forall|j: int|
                i <= j < k ==> !matches_at(s, pat, j),
            None => forall|j: int| i <= j ==> !matches_at(s, pat, j),
        },
    decreases s.len() + 1 - i,
{
    if i + pat.len() <= s.len() && !matches_at(s, pat, i) {
        lemma_find_from_spec(s, pat, i + 1);
    }
}

/// The first occurrence of `pat` in `s`, characterised without recursion.
pub proof fn lemma_find_spec(s: Seq<char>, pat: Seq<char>)
    ensures
        match find(s, pat) {
            Some(k) => 0 <= k && k + pat.len() <= s.len() && matches_at(s, pat, k) && forall|
                j: int,
            | 0 <= j < k ==> !matches_at(s, pat, j),
            None => forall|j: int| 0 <= j ==> !matches_at(s, pat, j),
        },
{
    lemma_find_from_spec(s, pat, 0);
}

/// The length of a word followed by whitespace or by nothing.
pub proof fn lemma_word_len(w: Seq<char>, r: Seq<char>)
    requires
        forall|j: int| 0 <= j < w.len() ==> !is_whitespace(#[trigger] w[j]),
        r.len() == 0 || is_whitespace(r[0]),
    ensures
        word_len(w + r) == w.len(),
    decreases w.len(),
{
    if w.len() > 0 {
        assert((w + r).drop_first() == w.drop_first() + r);
        lemma_word_len(w.drop_first(), r);
    } else {
        assert(w + r == r);
    }
}

/// A word followed by whitespace or by nothing is split off whole.
pub proof fn lemma_split_ws_word(w: Seq<char>, r: Seq<char>)
    requires
        w.len() > 0,
        forall|j: int| 0 <= j < w.len() ==> !is_whitespace(#[trigger] w[j]),
        r.len() == 0 || is_whitespace(r[0]),
    ensures
        split_ws(w + r) == seq![w] + split_ws(r),
{
    lemma_word_len(w, r);
    assert((w + r)[0] == w[0]);
    assert((w + r).take(w.len() as int) == w);
    assert((w + r).skip(w.len() as int) == r);
}

/// A prefix of a string of digits has a value no larger than the whole.
pub proof fn lemma_digits_value_prefix(s: Seq<char>, k: int)
    requires
        0 <= k <= s.len(),
    ensures
        digits_value(s.take(k)) <= digits_value(s),
    decreases s.len(),
{
    if k < s.len() {
        assert(s.drop_last().take(k) == s.take(k));
        lemma_digits_value_prefix(s.drop_last(), k);
    } else {
        assert(s.take(k) == s);
    }
}

/// Text whose last line is ended by `'\n'` splits into its own lines followed by
/// the lines of whatever comes after it.
pub proof fn lemma_lines_append(a: Seq<char>, b: Seq<char>)
    requires
        a.len() == 0 || a.last() == '\n',
    ensures
        lines(a + b) == lines(a) + lines(b),
    decreases a.len(),
{
    if a.len() == 0 {
        assert(a + b =~= b);
        assert(lines(a) + lines(b) =~= lines(b));
    } else {
        let nl = seq!['\n'];
        let ab = a + b;
        lemma_find_spec(a, nl);
        assert(a.subrange(a.len() - 1, a.len() as int) =~= nl);
        assert(matches_at(a, nl, a.len() - 1));
        assert(find(a, nl) is Some);
        let i = find(a, nl)->Some_0;
        assert(0 <= i && i + 1 <= a.len());
        assert forall|j: int| 0 <= j < i implies !matches_at(ab, nl, j) by {
            assert(!matches_at(a, nl, j));
            assert(ab.subrange(j, j + 1) =~= a.subrange(j, j + 1));
        }
        assert(ab.subrange(i, i + 1) =~= a.subrange(i, i + 1));
        lemma_find_from_first(ab, nl, 0, i);
        assert(ab.take(i) =~= a.take(i));
        let rest = a.skip(i + 1);
        assert(ab.skip(i + 1) =~= rest + b);
        if rest.len() > 0 {
            assert(rest.last() == a.last());
        }
        lemma_lines_append(rest, b);
        assert(lines(ab) == seq![strip_cr(ab.take(i))] + lines(ab.skip(i + 1)));
        assert(lines(a) == seq![strip_cr(a.take(i))] + lines(rest));
        assert(lines(ab) =~= lines(a) + lines(b));
    }
}

/// Reading back the decimal representation of `n` gives `n`.
pub proof fn lemma_decimal_value(n: nat)
    ensures
        all_digits(decimal(n)),
        digits_value(decimal(n)) == n,
    decreases n,
{
    if n >= 10 {
        lemma_decimal_value(n / 10);
        let d = decimal(n);
        assert(d.drop_last() == decimal(n / 10));
        assert(d.last() == digit_char(n % 10));
        assert(digit_value(digit_char(n % 10)) == n % 10);
        assert(digits_value(d) == digits_value(d.drop_last()) * 10 + digit_value(d.last()));
        assert(digits_value(d) == (n / 10) * 10 + n % 10);
        assert(n == (n / 10) * 10 + n % 10);
    } else {
        let d = decimal(n);
        assert(d.drop_last() =~= Seq::<char>::empty());
        assert(digits_value(d.drop_last()) == 0);
        assert(digit_value(digit_char(n)) == n);
        assert(digits_value(d) == digits_value(d.drop_last()) * 10 + digit_value(d.last()));
    }
}

/// Distinct numbers have distinct decimal representations.
pub proof fn lemma_decimal_injective(n: nat, m: nat)
    requires
        decimal(n) == decimal(m),
    ensures
        n == m,
{
    lemma_decimal_value(n);
    lemma_decimal_value(m);
}

// ---------------------------------------------------------------------------
// Executable operations
// ---------------------------------------------------------------------------

/// `String::push`: appends one character to the string.
#[verifier::external_body]
fn push_char(s: &mut String, c: char)
    ensures
        final(s)@ == old(s)@.push(c),
{
    s.push(c);
}

/// The characters of `s`, in order.
pub fn chars_of(s: &str) -> (v: Vec<char>)
    ensures
        v@ == s@,
{
    let mut v: Vec<char> = Vec::new();
    for c in it: s.chars()
        invariant
            it.seq() == s@,
            v@ == it.seq().take(it.index()),
    {
        v.push(c);
    }
    v
}

/// A `String` holding the characters of `v`.
pub fn string_from(v: &[char]) -> (s: String)
    ensures
        s@ == v@,
{
    let mut s = String::new();
    let mut i: usize = 0;
    while i < v.len()
        invariant
            i <= v.len(),
            s@ == v@.take(i as int),
        decreases v.len() - i,
    {
        push_char(&mut s, v[i]);
        assert(v@.take(i + 1) == v@.take(i as int).push(v@[i as int]));
        i = i + 1;
    }
    assert(v@.take(v.len() as int) == v@);
    s
}

/// A new `String` holding `a` followed by `b`.
pub fn joined(a: &str, b: &str) -> (s: String)
    ensures
        s@ == a@ + b@,
{
    let mut s = String::from_str(a);
    s.append(b);
    s
}

/// The decimal representation of `n` as a `String`.
pub fn decimal_string(n: u64) -> (s: String)
    ensures
        s@ == decimal(n as nat),
{
    let v = decimal_exec(n);
    string_from(v.as_slice())
}

/// The characters of `v` from `from` up to `to`.
pub fn sub_chars(v: &[char], from: usize, to: usize) -> (r: Vec<char>)
    requires
        from <= to <= v.len(),
    ensures
        r@ == v@.subrange(from as int, to as int),
{
    let mut r: Vec<char> = Vec::new();
    let mut i: usize = from;
    while i < to
        invariant
            from <= i <= to <= v.len(),
            r@ == v@.subrange(from as int, i as int),
        decreases to - i,
    {
        r.push(v[i]);
        assert(v@.subrange(from as int, i + 1) == v@.subrange(from as int, i as int).push(
            v@[i as int],
        ));
        i = i + 1;
    }
    r
}

/// Whether `pat` occurs in `s` at position `i`.
pub fn matches_at_exec(s: &[char], pat: &[char], i: usize) -> (b: bool)
    ensures
        b == matches_at(s@, pat@, i as int),
{
    if i > s.len() || pat.len() > s.len() - i {
        return false;
    }
    let mut k: usize = 0;
    while k < pat.len()
        invariant
            i + pat.len() <= s.len(),
            k <= pat.len(),
            forall|j: int| 0 <= j < k ==> s@[i + j] == pat@[j],
        decreases pat.len() - k,
    {
        if s[i + k] != pat[k] {
            assert(s@.subrange(i as int, i + pat.len())[k as int] != pat@[k as int]);
            return false;
        }
        k = k + 1;
    }
    assert(s@.subrange(i as int, i + pat.len()) == pat@);
    true
}

/// `str::find`: the position of the first occurrence of `pat` in `s`.
pub fn find_exec(s: &[char], pat: &[char]) -> (r: Option<usize>)
    ensures
        match r {
            Some(k) => find(s@, pat@) == Some(k as int),
            None => find(s@, pat@) is None,
        },
{
    if pat.len() > s.len() {
        return None;
    }
    let last = s.len() - pat.len();
    let mut i: usize = 0;
    loop
        invariant
            last + pat.len() == s.len(),
            i <= last,
            find(s@, pat@) == find_from(s@, pat@, i as int),
        decreases last - i,
    {
        if matches_at_exec(s, pat, i) {
            return Some(i);
        }
        if i == last {
            proof {
                assert(find_from(s@, pat@, i + 1) is None);
            }
            return None;
        }
        i = i + 1;
    }
}

/// `str::contains`.
pub fn contains_exec(s: &[char], pat: &[char]) -> (b: bool)
    ensures
        b == contains(s@, pat@),
{
    find_exec(s, pat).is_some()
}

/// `str::starts_with`.
pub fn starts_with_exec(s: &[char], pat: &[char]) -> (b: bool)
    ensures
        b == starts_with(s@, pat@),
{
    let b = matches_at_exec(s, pat, 0);
    proof {
        if b {
            assert(s@.take(pat@.len() as int) == s@.subrange(0, pat@.len() as int));
        } else if pat@.len() <= s@.len() {
            assert(s@.take(pat@.len() as int) == s@.subrange(0, pat@.len() as int));
        }
    }
    b
}

/// `char::is_whitespace`.
pub fn is_whitespace_exec(c: char) -> (b: bool)
    ensures
        b == is_whitespace(c),
{
    let n = c as u32;
    (0x09 <= n && n <= 0x0d) || n == 0x20 || n == 0x85 || n == 0xa0 || n == 0x1680 || (0x2000
        <= n && n <= 0x200a) || n == 0x2028 || n == 0x2029 || n == 0x202f || n == 0x205f || n
        == 0x3000
}

/// `str::trim`: `v` without leading and trailing whitespace.
pub fn trim_exec(v: &[char]) -> (r: Vec<char>)
    ensures
        r@ == trim(v@),
{
    let mut start: usize = 0;
    assert(v@.skip(0) == v@);
    while start < v.len() && is_whitespace_exec(v[start])
        invariant
            start <= v.len(),
            trim_start(v@) == trim_start(v@.skip(start as int)),
        decreases v.len() - start,
    {
        assert(v@.skip(start as int).drop_first() == v@.skip(start + 1));
        start = start + 1;
    }
    let ghost t = v@.skip(start as int);
    assert(trim_start(v@) == t);
    let mut end: usize = v.len();
    while end > start && is_whitespace_exec(v[end - 1])
        invariant
            start <= end <= v.len(),
            t == v@.skip(start as int),
            trim_end(t) == trim_end(v@.subrange(start as int, end as int)),
        decreases end - start,
    {
        assert(v@.subrange(start as int, end as int).drop_last() == v@.subrange(
            start as int,
            end - 1,
        ));
        end = end - 1;
    }
    proof {
        assert(v@.skip(start as int) == v@.subrange(start as int, v.len() as int));
    }
    sub_chars(v, start, end)
}

/// `str::lines`: the lines of `v`.
pub fn lines_exec(v: &[char]) -> (r: Vec<Vec<char>>)
    ensures
        r@.map_values(|l: Vec<char>| l@) == lines(v@),
{
    let mut done: Vec<Vec<char>> = Vec::new();
    let mut cur: Vec<char> = Vec::new();
    let mut i: usize = 0;
    assert(cur@ + v@.skip(0) == v@);
    assert(done@.map_values(|l: Vec<char>| l@) == Seq::<Seq<char>>::empty());
    while i < v.len()
        invariant
            i <= v.len(),
            forall|j: int| 0 <= j < cur@.len() ==> cur@[j] != '\n',
            lines(v@) == done@.map_values(|l: Vec<char>| l@) + lines(cur@ + v@.skip(i as int)),
        decreases v.len() - i,
    {
        let ghost rest = cur@ + v@.skip(i as int);
        let c = v[i];
        if c == '\n' {
            proof {
                let nl = seq!['\n'];
                assert(matches_at(rest, nl, cur@.len() as int)) by {
                    assert(rest.subrange(cur@.len() as int, cur@.len() as int + 1) == nl);
                }
                assert forall|j: int| 0 <= j < cur@.len() implies !matches_at(rest, nl, j) by {
                    assert(rest[j] == cur@[j]);
                    assert(rest.subrange(j, j + 1)[0] == rest[j]);
                }
                lemma_find_from_first(rest, nl, 0, cur@.len() as int);
                assert(rest.take(cur@.len() as int) == cur@);
                assert(rest.skip(cur@.len() as int + 1) == v@.skip(i + 1));
                assert(seq![] + v@.skip(i + 1) == v@.skip(i + 1));
            }
            let line = if cur.len() > 0 && cur[cur.len() - 1] == '\r' {
                sub_chars(&cur, 0, cur.len() - 1)
            } else {
                sub_chars(&cur, 0, cur.len())
            };
            proof {
                assert(cur@.subrange(0, cur@.len() as int) == cur@);
                assert(cur@.len() > 0 ==> cur@.subrange(0, cur@.len() - 1) == cur@.drop_last());
                assert(line@ == strip_cr(cur@));
            }
            let ghost old_done = done@;
            done.push(line);
            proof {
                assert(done@.map_values(|l: Vec<char>| l@) == old_done.map_values(
                    |l: Vec<char>| l@,
                ).push(line@));
            }
            cur = Vec::new();
        } else {
            cur.push(c);
            proof {
                assert(cur@ + v@.skip(i + 1) == rest);
            }
        }
        i = i + 1;
    }
    proof {
        let rest = cur@ + v@.skip(i as int);
        assert(rest == cur@);
        if cur@.len() > 0 {
            let nl = seq!['\n'];
            assert forall|j: int| 0 <= j implies !matches_at(cur@, nl, j) by {
                if matches_at(cur@, nl, j) {
                    assert(cur@.subrange(j, j + 1)[0] == cur@[j]);
                }
            }
            lemma_find_from_none(cur@, nl, 0);
            let ghost old_done = done@;
            assert(lines(cur@) == seq![cur@]);
        } else {
            assert(lines(cur@) == Seq::<Seq<char>>::empty());
        }
    }
    if cur.len() > 0 {
        let ghost old_done = done@;
        done.push(cur);
        proof {
            assert(done@.map_values(|l: Vec<char>| l@) == old_done.map_values(
                |l: Vec<char>| l@,
            ).push(done@.last()@));
        }
    }
    done
}

/// The text strictly between the first `start` and the first `end` after it.
pub fn between_exec(text: &[char], start: &[char], end: &[char]) -> (r: Option<Vec<char>>)
    ensures
        match r {
            Some(v) => between(text@, start@, end@) == Some(v@),
            None => between(text@, start@, end@) is None,
        },
{
    proof {
        lemma_find_spec(text@, start@);
    }
    match find_exec(text, start) {
        None => None,
        Some(i) => {
            let sl = start.len();
            assert(i + sl <= text.len());
            let rest = sub_chars(text, i + sl, text.len());
            proof {
                assert(rest@ == text@.skip(i + start@.len()));
                lemma_find_spec(rest@, end@);
            }
            match find_exec(&rest, end) {
                None => None,
                Some(j) => {
                    let r = sub_chars(&rest, 0, j);
                    proof {
                        assert(r@ == rest@.take(j as int));
                    }
                    Some(r)
                },
            }
        },
    }
}

/// Whether `c` is an ASCII decimal digit.
pub fn is_digit_exec(c: char) -> (b: bool)
    ensures
        b == is_digit(c),
{
    '0' <= c && c <= '9'
}

/// `<u8 as FromStr>::from_str` on the characters `s`.
pub fn parse_u8_exec(s: &[char]) -> (r: Option<u8>)
    ensures
        r == parse_u8(s@),
{
    let skip: usize = if s.len() > 1 && s[0] == '+' {
        1
    } else {
        0
    };
    let d = sub_chars(s, skip, s.len());
    proof {
        if s@.len() > 1 && s@[0] == '+' {
            assert(d@ == s@.drop_first());
        } else {
            assert(d@ == s@);
        }
    }
    if d.len() == 0 {
        return None;
    }
    let mut acc: u32 = 0;
    let mut i: usize = 0;
    while i < d.len()
        invariant
            i <= d.len(),
            acc == digits_value(d@.take(i as int)),
            acc <= 255,
            forall|j: int| 0 <= j < i ==> is_digit(#[trigger] d@[j]),
            d@.len() > 0,
            d@ == (if s@.len() > 1 && s@[0] == '+' {
                s@.drop_first()
            } else {
                s@
            }),
        decreases d.len() - i,
    {
        let c = d[i];
        if !is_digit_exec(c) {
            assert(!is_digit(d@[i as int]));
            return None;
        }
        let dv = (c as u32) - ('0' as u32);
        proof {
            assert(d@.take(i + 1).drop_last() == d@.take(i as int));
            assert(d@.take(i + 1).last() == c);
        }
        let next = acc * 10 + dv;
        assert(digits_value(d@.take(i + 1)) == next);
        if next > 255 {
            proof {
                if all_digits(d@) {
                    lemma_digits_value_prefix(d@, i + 1);
                }
            }
            return None;
        }
        acc = next;
        i = i + 1;
    }
    proof {
        assert(d@.take(d@.len() as int) == d@);
    }
    Some(acc as u8)
}

/// The character of the decimal digit `d`.
pub fn digit_char_exec(d: u64) -> (c: char)
    requires
        d < 10,
    ensures
        c == digit_char(d as nat),
{
    if d == 0 {
        '0'
    } else if d == 1 {
        '1'
    } else if d == 2 {
        '2'
    } else if d == 3 {
        '3'
    } else if d == 4 {
        '4'
    } else if d == 5 {
        '5'
    } else if d == 6 {
        '6'
    } else if d == 7 {
        '7'
    } else if d == 8 {
        '8'
    } else {
        '9'
    }
}

/// The decimal representation of `n`.
pub fn decimal_exec(n: u64) -> (r: Vec<char>)
    ensures
        r@ == decimal(n as nat),
    decreases n,
{
    if n < 10 {
        let mut r: Vec<char> = Vec::new();
        r.push(digit_char_exec(n));
        r
    } else {
        let mut r = decimal_exec(n / 10);
        r.push(digit_char_exec(n % 10));
        r
    }
}

/// `str::split_whitespace`: the words of `v`.
pub fn split_ws_exec(v: &[char]) -> (r: Vec<Vec<char>>)
    ensures
        r@.map_values(|w: Vec<char>| w@) == split_ws(v@),
{
    let mut done: Vec<Vec<char>> = Vec::new();
    let mut cur: Vec<char> = Vec::new();
    let mut i: usize = 0;
    assert(cur@ + v@.skip(0) == v@);
    assert(done@.map_values(|w: Vec<char>| w@) == Seq::<Seq<char>>::empty());
    while i < v.len()
        invariant
            i <= v.len(),
            forall|j: int| 0 <= j < cur@.len() ==> !is_whitespace(#[trigger] cur@[j]),
            split_ws(v@) == done@.map_values(|w: Vec<char>| w@) + split_ws(cur@ + v@.skip(i as int)),
        decreases v.len() - i,
    {
        let c = v[i];
        let ghost rest = v@.skip(i as int);
        assert(rest[0] == c);
        assert(rest.drop_first() == v@.skip(i + 1));
        if is_whitespace_exec(c) {
            if cur.len() > 0 {
                proof {
                    lemma_split_ws_word(cur@, rest);
                }
                let ghost old_done = done@;
                let ghost w = cur@;
                done.push(cur);
                proof {
                    let a = old_done.map_values(|w: Vec<char>| w@);
                    assert(done@.map_values(|w: Vec<char>| w@) == a.push(w));
                    assert(a + (seq![w] + split_ws(rest)) == a.push(w) + split_ws(rest));
                }
                cur = Vec::new();
            }
            proof {
                assert(cur@ + rest == rest);
                assert(cur@ + v@.skip(i + 1) == v@.skip(i + 1));
                assert(split_ws(rest) == split_ws(rest.drop_first()));
            }
            assert(split_ws(v@) == done@.map_values(|w: Vec<char>| w@) + split_ws(cur@ + v@.skip(i + 1)));
        } else {
            let ghost old_cur = cur@;
            cur.push(c);
            proof {
                assert(cur@ + v@.skip(i + 1) =~= old_cur + rest);
            }
            assert(split_ws(v@) == done@.map_values(|w: Vec<char>| w@) + split_ws(cur@ + v@.skip(i + 1)));
        }
        i = i + 1;
    }
    proof {
        assert(v@.skip(i as int) == Seq::<char>::empty());
        assert(cur@ + v@.skip(i as int) == cur@);
        if cur@.len() > 0 {
            lemma_split_ws_word(cur@, Seq::empty());
            assert(cur@ + Seq::<char>::empty() == cur@);
            assert(split_ws(Seq::<char>::empty()) == Seq::<Seq<char>>::empty());
        }
    }
    if cur.len() > 0 {
        let ghost old_done = done@;
        done.push(cur);
        proof {
            assert(done@.map_values(|w: Vec<char>| w@) == old_done.map_values(|w: Vec<char>| w@).push(
                done@.last()@,
            ));
        }
    }
    done
}

/// Whether `s` lower-cases to `word` (a word of ASCII lower-case letters).
pub fn lowercases_to_exec(s: &[char], word: &[char]) -> (b: bool)
    requires
        forall|j: int| 0 <= j < word@.len() ==> 'a' <= #[trigger] word@[j] && word@[j] <= 'z',
    ensures
        b == lowercases_to(s@, word@),
{
    if s.len() != word.len() {
        return false;
    }
    let mut i: usize = 0;
    while i < s.len()
        invariant
            i <= s.len(),
            s@.len() == word@.len(),
            forall|j: int| 0 <= j < word@.len() ==> 'a' <= #[trigger] word@[j] && word@[j] <= 'z',
            forall|j: int|
                0 <= j < i ==> (#[trigger] s@[j] == word@[j] || s@[j] as u32 == ascii_upper(
                    word@[j],
                )),
        decreases s.len() - i,
    {
        let c = s[i];
        let w = word[i];
        assert('a' <= w && w <= 'z');
        let same = c == w;
        let upper = (c as u32) == (w as u32) - 32;
        assert(upper ==> c as u32 == ascii_upper(w));
        if !same && !upper {
            return false;
        }
        assert(s@[i as int] == c && word@[i as int] == w);
        assert(c == w || c as u32 == ascii_upper(w));
        i = i + 1;
    }
    true
}

/// Whether `a` and `b` hold the same characters.
pub fn chars_eq(a: &[char], b: &[char]) -> (r: bool)
    ensures
        r == (a@ == b@),
{
    if a.len() != b.len() {
        return false;
    }
    let mut i: usize = 0;
    while i < a.len()
        invariant
            i <= a.len(),
            a@.len() == b@.len(),
            forall|j: int| 0 <= j < i ==> a@[j] == b@[j],
        decreases a.len() - i,
    {
        if a[i] != b[i] {
            return false;
        }
        i = i + 1;
    }
    assert(a@ =~= b@);
    true
}

} // verus!
