//! Character-level text handling over `str`, `String` and `Vec<char>`,
//! each operation stated over `Seq<char>`.

use vstd::prelude::*;

verus! {

/// Appends one character to a `String` (std's `String::push`).
#[verifier::external_body]
fn push_char(s: &mut String, c: char)
    ensures
        final(s)@ == old(s)@.push(c),
{
    s.push(c);
}

/// The characters of `s`, in order.
pub fn chars_of(s: &str) -> (v: Vec<char>)
    ensures
        v@ == s@,
{
    let mut v: Vec<char> = Vec::new();
    for c in it: s.chars()
        invariant
            v@ == it.seq().take(it.index() as int),
    {
        v.push(c);
    }
    v
}

/// A `String` holding exactly the characters of `v`.
pub fn string_of(v: &[char]) -> (s: String)
    ensures
        s@ == v@,
{
    let mut s = String::new();
    let mut i: usize = 0;
    while i < v.len()
        invariant
            i <= v.len(),
            s@ == v@.take(i as int),
        decreases v.len() - i,
    {
        push_char(&mut s, v[i]);
        assert(v@.take(i as int).push(v@[i as int]) =~= v@.take(i + 1));
        i = i + 1;
    }
    assert(v@.take(v.len() as int) =~= v@);
    s
}

/// The characters with the Unicode `White_Space` property, as `char::is_whitespace`
/// and the `\s` class of a regular expression define them.
pub open spec fn is_ws(c: char) -> bool {
    ||| ('\u{9}' <= c && c <= '\u{d}')
    ||| c == ' '
    ||| c == '\u{85}'
    ||| c == '\u{a0}'
    ||| c == '\u{1680}'
    ||| ('\u{2000}' <= c && c <= '\u{200a}')
    ||| c == '\u{2028}'
    ||| c == '\u{2029}'
    ||| c == '\u{202f}'
    ||| c == '\u{205f}'
    ||| c == '\u{3000}'
}

pub fn is_whitespace(c: char) -> (b: bool)
    ensures
        b == is_ws(c),
{
    ('\u{9}' <= c && c <= '\u{d}') || c == ' ' || c == '\u{85}' || c == '\u{a0}' || c
        == '\u{1680}' || ('\u{2000}' <= c && c <= '\u{200a}') || c == '\u{2028}' || c
        == '\u{2029}' || c == '\u{202f}' || c == '\u{205f}' || c == '\u{3000}'
}

/// `s` without its longest prefix of characters satisfying `p`.
pub open spec fn strip_start_by(s: Seq<char>, p: spec_fn(char) -> bool) -> Seq<char>
    decreases s.len(),
{
    if s.len() > 0 && p(s[0]) {
        strip_start_by(s.drop_first(), p)
    } else {
        s
    }
}

/// `s` without its longest suffix of characters satisfying `p`.
pub open spec fn strip_end_by(s: Seq<char>, p: spec_fn(char) -> bool) -> Seq<char>
    decreases s.len(),
{
    if s.len() > 0 && p(s.last()) {
        strip_end_by(s.drop_last(), p)
    } else {
        s
    }
}

pub open spec fn ws_pred() -> spec_fn(char) -> bool {
    |c: char| is_ws(c)
}

pub open spec fn char_pred(x: char) -> spec_fn(char) -> bool {
    |c: char| c == x
}

/// `str::trim`: no leading or trailing whitespace.
pub open spec fn trim(s: Seq<char>) -> Seq<char> {
    strip_end_by(strip_start_by(s, ws_pred()), ws_pred())
}

/// `str::trim_matches` with a single character.
pub open spec fn trim_char(s: Seq<char>, c: char) -> Seq<char> {
    strip_end_by(strip_start_by(s, char_pred(c)), char_pred(c))
}

/// `str::trim_start_matches` with a single character.
pub open spec fn trim_start_char(s: Seq<char>, c: char) -> Seq<char> {
    strip_start_by(s, char_pred(c))
}

/// The predicate that `only` selects: that one character, or whitespace.
pub open spec fn strip_pred(only: Option<char>) -> spec_fn(char) -> bool {
    if only is Some {
        char_pred(only->0)
    } else {
        ws_pred()
    }
}

fn hits(c: char, only: Option<char>) -> (b: bool)
    ensures
        b == strip_pred(only)(c),
{
    match only {
        Some(x) => c == x,
        None => is_whitespace(c),
    }
}

/// Index of the first character of `v` that `strip_pred(only)` does not hold of.
fn skip_prefix_ws_or(v: &[char], only: Option<char>) -> (i: usize)
    ensures
        i <= v.len(),
        strip_start_by(v@, strip_pred(only)) == v@.skip(i as int),
{
    let ghost p = strip_pred(only);
    let mut i: usize = 0;
    assert(v@.skip(0) =~= v@);
    while i < v.len() && hits(v[i], only)
        invariant
            i <= v.len(),
            p == strip_pred(only),
            strip_start_by(v@, p) == strip_start_by(v@.skip(i as int), p),
        decreases v.len() - i,
    {
        assert(v@.skip(i as int).drop_first() =~= v@.skip(i + 1));
        i = i + 1;
    }
    i
}

/// Length of the prefix of `v` that stays when the suffix that `strip_pred(only)`
/// holds of goes.
fn keep_before_suffix(v: &[char], only: Option<char>) -> (j: usize)
    ensures
        j <= v.len(),
        strip_end_by(v@, strip_pred(only)) == v@.take(j as int),
{
    let ghost p = strip_pred(only);
    let mut j: usize = v.len();
    assert(v@.take(j as int) =~= v@);
    while j > 0 && hits(v[j - 1], only)
        invariant
            j <= v.len(),
            p == strip_pred(only),
            strip_end_by(v@, p) == strip_end_by(v@.take(j as int), p),
        decreases j,
    {
        assert(v@.take(j as int).drop_last() =~= v@.take(j - 1));
        j = j - 1;
    }
    j
}

/// `str::trim` on characters.
pub fn trim_chars(v: &[char]) -> (r: Vec<char>)
    ensures
        r@ == trim(v@),
{
    let i = skip_prefix_ws_or(v, None);
    let rest = copy_range(v, i, v.len());
    assert(rest@ =~= v@.skip(i as int));
    let j = keep_before_suffix(rest.as_slice(), None);
    let out = copy_range(rest.as_slice(), 0, j);
    assert(out@ =~= rest@.take(j as int));
    out
}

/// `str::trim_matches(c)` on characters.
pub fn trim_char_chars(v: &[char], c: char) -> (r: Vec<char>)
    ensures
        r@ == trim_char(v@, c),
{
    let i = skip_prefix_ws_or(v, Some(c));
    let rest = copy_range(v, i, v.len());
    assert(rest@ =~= v@.skip(i as int));
    let j = keep_before_suffix(rest.as_slice(), Some(c));
    let out = copy_range(rest.as_slice(), 0, j);
    assert(out@ =~= rest@.take(j as int));
    out
}

/// `str::trim_start_matches(c)` on characters.
pub fn trim_start_char_chars(v: &[char], c: char) -> (r: Vec<char>)
    ensures
        r@ == trim_start_char(v@, c),
{
    let i = skip_prefix_ws_or(v, Some(c));
    let out = copy_range(v, i, v.len());
    assert(out@ =~= v@.skip(i as int));
    out
}

/// A copy of the characters of `v` from `a` up to `b`.
pub fn copy_range(v: &[char], a: usize, b: usize) -> (r: Vec<char>)
    requires
        a <= b <= v.len(),
    ensures
        r@ == v@.subrange(a as int, b as int),
{
    let mut r: Vec<char> = Vec::new();
    let mut i: usize = a;
    while i < b
        invariant
            a <= i <= b <= v.len(),
            r@ == v@.subrange(a as int, i as int),
        decreases b - i,
    {
        r.push(v[i]);
        assert(v@.subrange(a as int, i as int).push(v@[i as int]) =~= v@.subrange(a as int, i + 1));
        i = i + 1;
    }
    r
}

/// `str::starts_with` for a prefix.
pub open spec fn starts_with(s: Seq<char>, p: Seq<char>) -> bool {
    p.len() <= s.len() && s.take(p.len() as int) == p
}

pub fn starts_with_chars(v: &[char], p: &[char]) -> (b: bool)
    ensures
        b == starts_with(v@, p@),
{
    if p.len() > v.len() {
        return false;
    }
    let mut i: usize = 0;
    while i < p.len()
        invariant
            i <= p.len() <= v.len(),
            forall|k: int| 0 <= k < i ==> v@[k] == p@[k],
        decreases p.len() - i,
    {
        if v[i] != p[i] {
            assert(v@.take(p.len() as int)[i as int] != p@[i as int]);
            return false;
        }
        i = i + 1;
    }
    assert(v@.take(p.len() as int) =~= p@);
    true
}

/// `str::split` at a single character: the pieces between occurrences of `c`,
/// always at least one.
pub open spec fn split(s: Seq<char>, c: char) -> Seq<Seq<char>>
    decreases s.len(),
{
    if s.len() == 0 {
        seq![Seq::<char>::empty()]
    } else {
        let rest = split(s.drop_last(), c);
        if s.last() == c {
            rest.push(Seq::<char>::empty())
        } else {
            rest.update(rest.len() - 1, rest.last().push(s.last()))
        }
    }
}

pub proof fn lemma_split_nonempty(s: Seq<char>, c: char)
    ensures
        split(s, c).len() >= 1,
    decreases s.len(),
{
    if s.len() > 0 {
        lemma_split_nonempty(s.drop_last(), c);
    }
}

/// `str::split(c)` on characters.
pub fn split_chars(v: &[char], c: char) -> (r: Vec<Vec<char>>)
    ensures
        rows(r@) == split(v@, c),
{
    let mut pieces: Vec<Vec<char>> = Vec::new();
    let mut cur: Vec<char> = Vec::new();
    let mut i: usize = 0;
    assert(v@.take(0) =~= Seq::<char>::empty());
    while i < v.len()
        invariant
            i <= v.len(),
            split(v@.take(i as int), c) == rows(pieces@).push(cur@),
        decreases v.len() - i,
    {
        let ghost before = v@.take(i as int);
        assert(v@.take(i + 1).drop_last() =~= before);
        assert(v@.take(i + 1).last() == v@[i as int]);
        proof {
            lemma_split_nonempty(before, c);
        }
        if v[i] == c {
            let ghost old_pieces = rows(pieces@);
            let done = cur;
            let ghost done_view = done@;
            pieces.push(done);
            cur = Vec::new();
            proof {
                lemma_deep_view_push(old_pieces, rows(pieces@), done_view);
            }
            assert(rows(pieces@) =~= split(before, c));
        } else {
            cur.push(v[i]);
            assert(rows(pieces@).push(cur@) =~= split(before, c).update(
                split(before, c).len() - 1,
                split(before, c).last().push(v@[i as int]),
            ));
        }
        i = i + 1;
    }
    assert(v@.take(v.len() as int) =~= v@);
    let ghost old_pieces = rows(pieces@);
    let ghost cur_view = cur@;
    pieces.push(cur);
    assert(rows(pieces@) =~= old_pieces.push(cur_view)) by {
        assert(rows(pieces@).len() == old_pieces.len() + 1);
    }
    pieces
}

/// The character sequences of a vector of character vectors.
pub open spec fn rows(v: Seq<Vec<char>>) -> Seq<Seq<char>> {
    v.map_values(|x: Vec<char>| x@)
}

proof fn lemma_deep_view_push(before: Seq<Seq<char>>, after: Seq<Seq<char>>, x: Seq<char>)
    requires
        after.len() == before.len() + 1,
        forall|k: int| 0 <= k < before.len() ==> after[k] == before[k],
        after[before.len() as int] == x,
    ensures
        after == before.push(x),
{
    assert(after =~= before.push(x));
}

/// A line without the carriage return that ends it, if one does.
pub open spec fn strip_cr(s: Seq<char>) -> Seq<char> {
    if s.len() > 0 && s.last() == '\r' {
        s.drop_last()
    } else {
        s
    }
}

/// `str::lines`: the text split at `\n`; each line that a `\n` ends also loses one
/// `\r` before it; a final `\n` opens no further line, and empty text has no lines.
pub open spec fn lines(s: Seq<char>) -> Seq<Seq<char>> {
    let p = split(s, '\n');
    if s.len() == 0 {
        Seq::empty()
    } else if s.last() == '\n' {
        p.drop_last().map_values(|l: Seq<char>| strip_cr(l))
    } else {
        p.drop_last().map_values(|l: Seq<char>| strip_cr(l)).push(p.last())
    }
}

/// `str::lines` on characters.
pub fn lines_chars(v: &[char]) -> (r: Vec<Vec<char>>)
    ensures
        rows(r@) == lines(v@),
{
    let p = split_chars(v, '\n');
    proof {
        lemma_split_nonempty(v@, '\n');
    }
    let mut out: Vec<Vec<char>> = Vec::new();
    if v.len() == 0 {
        assert(rows(out@) =~= lines(v@));
        return out;
    }
    let n = p.len() - 1;
    let mut k: usize = 0;
    while k < n
        invariant
            n == p.len() - 1,
            rows(p@) == split(v@, '\n'),
            k <= n,
            rows(out@) =~= rows(p@).take(k as int).map_values(
                |l: Seq<char>| strip_cr(l),
            ),
        decreases n - k,
    {
        let line = &p[k];
        let mut l = copy_range(line.as_slice(), 0, line.len());
        assert(l@ =~= line@);
        if l.len() > 0 && l[l.len() - 1] == '\r' {
            l.pop();
        }
        assert(l@ == strip_cr(rows(p@)[k as int]));
        let ghost old_out = rows(out@);
        let ghost l_view = l@;
        out.push(l);
        assert(rows(out@) =~= old_out.push(l_view)) by {
            assert(rows(out@).len() == old_out.len() + 1);
        }
        assert(rows(p@).take(k + 1) =~= rows(p@).take(k as int).push(
            rows(p@)[k as int],
        ));
        k = k + 1;
    }
    assert(rows(p@).take(n as int) =~= rows(p@).drop_last());
    if v[v.len() - 1] != '\n' {
        let last = &p[n];
        let l = copy_range(last.as_slice(), 0, last.len());
        assert(l@ =~= last@);
        let ghost old_out = rows(out@);
        let ghost l_view = l@;
        out.push(l);
        assert(rows(out@) =~= old_out.push(l_view)) by {
            assert(rows(out@).len() == old_out.len() + 1);
        }
    }
    out
}

/// ASCII upper-case letters map to lower case; every other character stays.
pub open spec fn ascii_lower(c: char) -> char {
    if 'A' <= c && c <= 'Z' {
        ((c as u32) + 32) as char
    } else {
        c
    }
}

/// `str::to_ascii_lowercase`.
pub open spec fn to_ascii_lower(s: Seq<char>) -> Seq<char> {
    s.map_values(|c: char| ascii_lower(c))
}

pub fn ascii_lower_char(c: char) -> (r: char)
    ensures
        r == ascii_lower(c),
{
    if 'A' <= c && c <= 'Z' {
        let n: u32 = (c as u32) + 32;
        
        char_from_ascii(n)
    } else {
        c
    }
}

/// The ASCII character with code `n`.
fn char_from_ascii(n: u32) -> (c: char)
    requires
        n < 128,
    ensures
        c == n as char,
{
    let b: u8 = n as u8;
    b as char
}

pub fn to_ascii_lower_chars(v: &[char]) -> (r: Vec<char>)
    ensures
        r@ == to_ascii_lower(v@),
{
    let mut r: Vec<char> = Vec::new();
    let mut i: usize = 0;
    while i < v.len()
        invariant
            i <= v.len(),
            r@ =~= to_ascii_lower(v@.take(i as int)),
        decreases v.len() - i,
    {
        r.push(ascii_lower_char(v[i]));
        assert(v@.take(i + 1) =~= v@.take(i as int).push(v@[i as int]));
        i = i + 1;
    }
    assert(v@.take(v.len() as int) =~= v@);
    r
}

/// Whether two character slices hold the same characters.
pub fn chars_eq(a: &[char], b: &[char]) -> (r: bool)
    ensures
        r == (a@ == b@),
{
    if a.len() != b.len() {
        return false;
    }
    let mut i: usize = 0;
    while i < a.len()
        invariant
            i <= a.len() == b.len(),
            forall|k: int| 0 <= k < i ==> a@[k] == b@[k],
        decreases a.len() - i,
    {
        if a[i] != b[i] {
            return false;
        }
        i = i + 1;
    }
    assert(a@ =~= b@);
    true
}

/// Whether two texts are equal.
pub fn text_eq(a: &str, b: &str) -> (r: bool)
    ensures
        r == (a@ == b@),
{
    let x = chars_of(a);
    let y = chars_of(b);
    chars_eq(x.as_slice(), y.as_slice())
}

/// `p` occurs in `s` starting at index `i`.
pub open spec fn occurs_at(s: Seq<char>, p: Seq<char>, i: int) -> bool {
    0 <= i && i + p.len() <= s.len() && s.subrange(i, i + p.len()) == p
}

/// `str::contains` for a text pattern.
pub open spec fn contains_text(s: Seq<char>, p: Seq<char>) -> bool {
    exists|i: int| occurs_at(s, p, i)
}

/// Whether `p` occurs in `v` at index `i`.
pub fn occurs_at_chars(v: &[char], p: &[char], i: usize) -> (b: bool)
    ensures
        b == occurs_at(v@, p@, i as int),
{
    if i > v.len() || p.len() > v.len() - i {
        return false;
    }
    let mut k: usize = 0;
    while k < p.len()
        invariant
            k <= p.len(),
            i + p.len() <= v.len(),
            forall|j: int| 0 <= j < k ==> v@[i + j] == p@[j],
        decreases p.len() - k,
    {
        if v[i + k] != p[k] {
            assert(v@.subrange(i as int, i + p.len())[k as int] != p@[k as int]);
            return false;
        }
        k = k + 1;
    }
    assert(v@.subrange(i as int, i + p.len()) =~= p@);
    true
}

/// The first index at or after `from` where `p` occurs in `v`.
pub open spec fn find_from(s: Seq<char>, p: Seq<char>, from: int) -> Option<int>
    decreases s.len() + 1 - from,
{
    if from < 0 || from + p.len() > s.len() {
        None
    } else if occurs_at(s, p, from) {
        Some(from)
    } else {
        find_from(s, p, from + 1)
    }
}

/// `str::find` for a text pattern, counted in characters.
pub open spec fn find(s: Seq<char>, p: Seq<char>) -> Option<int> {
    find_from(s, p, 0)
}

pub proof fn lemma_find_from(s: Seq<char>, p: Seq<char>, from: int)
    requires
        0 <= from,
    ensures
        match find_from(s, p, from) {
            Some(i) => from <= i && occurs_at(s, p, i) && forall|j: int|
                from <= j < i ==> !occurs_at(s, p, j),
            None => forall|j: int| from <= j ==> !occurs_at(s, p, j),
        },
    decreases s.len() + 1 - from,
{
    if from + p.len() <= s.len() && !occurs_at(s, p, from) {
        lemma_find_from(s, p, from + 1);
    }
}

/// `str::find` on characters, starting the search at `from`.
pub fn find_chars(v: &[char], p: &[char], from: usize) -> (r: Option<usize>)
    ensures
        match r {
            Some(i) => find_from(v@, p@, from as int) == Some(i as int),
            None => find_from(v@, p@, from as int) is None,
        },
{
    let mut i: usize = from;
    while i <= v.len() && p.len() <= v.len() - i
        invariant
            from <= i,
            find_from(v@, p@, from as int) == find_from(v@, p@, i as int),
        decreases v.len() + 1 - i,
    {
        if occurs_at_chars(v, p, i) {
            return Some(i);
        }
        assert(p.len() > 0) by {
            if p.len() == 0 {
                assert(v@.subrange(i as int, i as int) =~= p@);
            }
        }
        i = i + 1;
    }
    None
}

/// Whether `p` occurs anywhere in `v`.
pub fn contains_chars(v: &[char], p: &[char]) -> (b: bool)
    ensures
        b == contains_text(v@, p@),
{
    proof {
        lemma_find_from(v@, p@, 0);
    }
    match find_chars(v, p, 0) {
        Some(i) => true,
        None => false,
    }
}

/// The ASCII digit for `d`.
pub open spec fn digit_char(d: nat) -> char {
    (48 + d) as char
}

/// The decimal notation of `n`, as `u32::to_string` writes it.
pub open spec fn decimal(n: nat) -> Seq<char>
    decreases n,
{
    if n < 10 {
        seq![digit_char(n)]
    } else {
        decimal(n / 10).push(digit_char(n % 10))
    }
}

fn push_decimal(n: u64, out: &mut Vec<char>)
    ensures
        final(out)@ == old(out)@ + decimal(n as nat),
    decreases n,
{
    if n >= 10 {
        push_decimal(n / 10, out);
    }
    let d: u32 = (n % 10) as u32;
    out.push(char_from_ascii(48 + d));
    assert(old(out)@ + decimal(n as nat) =~= final(out)@) by {
        if n >= 10 {
            assert(decimal(n as nat) == decimal((n / 10) as nat).push(digit_char((n % 10) as nat)));
        }
    }
}

/// `n` in decimal notation.
pub fn decimal_string(n: u32) -> (s: String)
    ensures
        s@ == decimal(n as nat),
{
    let mut v: Vec<char> = Vec::new();
    push_decimal(n as u64, &mut v);
    assert(v@ =~= decimal(n as nat));
    string_of(v.as_slice())
}

/// `n` in decimal notation.
pub fn decimal_string_usize(n: usize) -> (s: String)
    ensures
        s@ == decimal(n as nat),
{
    let mut v: Vec<char> = Vec::new();
    push_decimal(n as u64, &mut v);
    assert(v@ =~= decimal(n as nat));
    string_of(v.as_slice())
}

/// Whether `c` is an ASCII digit.
pub open spec fn is_ascii_digit(c: char) -> bool {
    '0' <= c && c <= '9'
}

/// The value of a sequence of ASCII digits.
pub open spec fn digits_value(s: Seq<char>) -> nat
    decreases s.len(),
{
    if s.len() == 0 {
        0
    } else {
        digits_value(s.drop_last()) * 10 + ((s.last() as u32) - 48) as nat
    }
}

/// The text after an optional leading `+`.
pub open spec fn unsigned_part(s: Seq<char>) -> Seq<char> {
    if s.len() > 0 && s[0] == '+' {
        s.drop_first()
    } else {
        s
    }
}

pub open spec fn all_digits(s: Seq<char>) -> bool {
    forall|i: int| 0 <= i < s.len() ==> is_ascii_digit(#[trigger] s[i])
}

/// `u32::from_str`: an optional `+`, then one or more ASCII digits whose value
/// fits in a `u32`.
pub open spec fn parse_u32(s: Seq<char>) -> Option<u32> {
    let ds = unsigned_part(s);
    if ds.len() > 0 && all_digits(ds) && digits_value(ds) <= u32::MAX {
        Some(digits_value(ds) as u32)
    } else {
        None
    }
}

proof fn lemma_digits_value_grows(s: Seq<char>, k: int)
    requires
        0 <= k <= s.len(),
        all_digits(s),
    ensures
        digits_value(s.take(k)) <= digits_value(s),
    decreases s.len() - k,
{
    if k < s.len() {
        lemma_digits_value_grows(s, k + 1);
        assert(s.take(k + 1).drop_last() =~= s.take(k));
        assert(is_ascii_digit(s[k]));
    } else {
        assert(s.take(k) =~= s);
    }
}

/// `text.parse::<u32>()` on characters.
pub fn parse_u32_chars(v: &[char]) -> (r: Option<u32>)
    ensures
        r == parse_u32(v@),
{
    let start: usize = if v.len() > 0 && v[0] == '+' {
        1
    } else {
        0
    };
    let ghost ds = unsigned_part(v@);
    assert(ds =~= v@.skip(start as int));
    if start >= v.len() {
        return None;
    }
    let mut value: u64 = 0;
    let mut i: usize = start;
    assert(v@.subrange(start as int, start as int) =~= Seq::<char>::empty());
    while i < v.len()
        invariant
            start <= i <= v.len(),
            start <= 1,
            ds == v@.skip(start as int),
            ds == unsigned_part(v@),
            value == digits_value(ds.take(i - start)),
            value <= u32::MAX,
            all_digits(ds.take(i - start)),
        decreases v.len() - i,
    {
        let c = v[i];
        assert(ds[i - start] == c);
        if !('0' <= c && c <= '9') {
            assert(!all_digits(ds));
            return None;
        }
        let d: u64 = ((c as u32) - 48) as u64;
        let next: u64 = value * 10 + d;
        assert(ds.take(i + 1 - start).drop_last() =~= ds.take(i - start));
        assert(all_digits(ds.take(i + 1 - start)));
        if next > 0xffff_ffff {
            proof {
                if all_digits(ds) {
                    lemma_digits_value_grows(ds, i + 1 - start);
                }
            }
            return None;
        }
        value = next;
        i = i + 1;
    }
    assert(ds.take(v.len() - start) =~= ds);
    Some(value as u32)
}

proof fn lemma_strip_start_prefix(w: Seq<char>, s: Seq<char>, p: spec_fn(char) -> bool)
    requires
        forall|i: int| 0 <= i < w.len() ==> p(#[trigger] w[i]),
    ensures
        strip_start_by(w + s, p) == strip_start_by(s, p),
    decreases w.len(),
{
    if w.len() == 0 {
        assert(w + s =~= s);
    } else {
        assert((w + s)[0] == w[0]);
        assert((w + s).drop_first() =~= w.drop_first() + s);
        assert forall|i: int| 0 <= i < w.drop_first().len() implies p(#[trigger] w.drop_first()[i]) by {
            assert(w.drop_first()[i] == w[i + 1]);
        }
        lemma_strip_start_prefix(w.drop_first(), s, p);
    }
}

proof fn lemma_strip_end_suffix(s: Seq<char>, w: Seq<char>, p: spec_fn(char) -> bool)
    requires
        forall|i: int| 0 <= i < w.len() ==> p(#[trigger] w[i]),
    ensures
        strip_end_by(s + w, p) == strip_end_by(s, p),
    decreases w.len(),
{
    if w.len() == 0 {
        assert(s + w =~= s);
    } else {
        assert((s + w).last() == w[w.len() - 1]);
        assert((s + w).drop_last() =~= s + w.drop_last());
        lemma_strip_end_suffix(s, w.drop_last(), p);
    }
}

proof fn lemma_strip_start_append(s: Seq<char>, t: Seq<char>, p: spec_fn(char) -> bool)
    ensures
        strip_start_by(s + t, p) == if strip_start_by(s, p).len() > 0 {
            strip_start_by(s, p) + t
        } else {
            strip_start_by(t, p)
        },
    decreases s.len(),
{
    if s.len() == 0 {
        assert(s + t =~= t);
    } else {
        assert((s + t)[0] == s[0]);
        if p(s[0]) {
            assert((s + t).drop_first() =~= s.drop_first() + t);
            lemma_strip_start_append(s.drop_first(), t, p);
        }
    }
}

/// Surrounding whitespace makes no difference to `trim`.
pub proof fn lemma_trim_padded(w1: Seq<char>, s: Seq<char>, w2: Seq<char>)
    requires
        forall|i: int| 0 <= i < w1.len() ==> is_ws(#[trigger] w1[i]),
        forall|i: int| 0 <= i < w2.len() ==> is_ws(#[trigger] w2[i]),
    ensures
        trim(w1 + s + w2) == trim(s),
{
    let p = ws_pred();
    assert(w1 + s + w2 =~= w1 + (s + w2));
    lemma_strip_start_prefix(w1, s + w2, p);
    lemma_strip_start_append(s, w2, p);
    if strip_start_by(s, p).len() > 0 {
        lemma_strip_end_suffix(strip_start_by(s, p), w2, p);
    } else {
        lemma_strip_start_prefix(w2, Seq::<char>::empty(), p);
        assert(w2 + Seq::<char>::empty() =~= w2);
    }
}

proof fn lemma_lower_keeps_ws(c: char)
    ensures
        is_ws(ascii_lower(c)) == is_ws(c),
{
}

proof fn lemma_strip_start_lower(s: Seq<char>)
    ensures
        strip_start_by(to_ascii_lower(s), ws_pred()) == to_ascii_lower(strip_start_by(s, ws_pred())),
    decreases s.len(),
{
    if s.len() > 0 {
        lemma_lower_keeps_ws(s[0]);
        assert(to_ascii_lower(s)[0] == ascii_lower(s[0]));
        assert(to_ascii_lower(s).drop_first() =~= to_ascii_lower(s.drop_first()));
        lemma_strip_start_lower(s.drop_first());
    }
}

proof fn lemma_strip_end_lower(s: Seq<char>)
    ensures
        strip_end_by(to_ascii_lower(s), ws_pred()) == to_ascii_lower(strip_end_by(s, ws_pred())),
    decreases s.len(),
{
    if s.len() > 0 {
        lemma_lower_keeps_ws(s.last());
        assert(to_ascii_lower(s).last() == ascii_lower(s.last()));
        assert(to_ascii_lower(s).drop_last() =~= to_ascii_lower(s.drop_last()));
        lemma_strip_end_lower(s.drop_last());
    }
}

/// `trim` and ASCII lower-casing may come in either order.
pub proof fn lemma_trim_lower(s: Seq<char>)
    ensures
        trim(to_ascii_lower(s)) == to_ascii_lower(trim(s)),
{
    lemma_strip_start_lower(s);
    lemma_strip_end_lower(strip_start_by(s, ws_pred()));
}

} // verus!
