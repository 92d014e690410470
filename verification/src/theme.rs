//! Reading the accent colour out of a theme's `colors.toml` text.

use vstd::prelude::*;
use crate::text::{
    chars_of, lines, lines_chars, rows, split, split_chars, starts_with, starts_with_chars, string_of,
    trim, trim_char, trim_char_chars, trim_chars, trim_start_char, trim_start_char_chars,
};

verus! {

pub open spec fn rgb_key() -> Seq<char> {
    seq!['r', 'g', 'b']
}

pub open spec fn accent_key() -> Seq<char> {
    seq!['a', 'c', 'c', 'e', 'n', 't']
}

/// The value of a `key = value` line: the text after the `=`, without surrounding
/// whitespace, then without surrounding `"`, then without leading `#`.
pub open spec fn line_value(line: Seq<char>) -> Seq<char> {
    trim_start_char(trim_char(trim(split(line, '=')[1]), '"'), '#')
}

/// The colour a single line offers: the line starts with `rgb` or `accent`, holds
/// exactly one `=`, and its value is not empty.
pub open spec fn line_color(line: Seq<char>) -> Option<Seq<char>> {
    if (starts_with(line, rgb_key()) || starts_with(line, accent_key())) && split(line, '=').len()
        == 2 && line_value(line).len() > 0 {
        Some(line_value(line))
    } else {
        None
    }
}

/// The colour of the first line that starts with `rgb` and offers one.
pub open spec fn first_rgb_color(ls: Seq<Seq<char>>) -> Option<Seq<char>>
    decreases ls.len(),
{
    if ls.len() == 0 {
        None
    } else {
        match first_rgb_color(ls.drop_last()) {
            Some(c) => Some(c),
            None => if starts_with(ls.last(), rgb_key()) {
                line_color(ls.last())
            } else {
                None
            },
        }
    }
}

/// The colour of the first line that offers one.
pub open spec fn first_line_color(ls: Seq<Seq<char>>) -> Option<Seq<char>>
    decreases ls.len(),
{
    if ls.len() == 0 {
        None
    } else {
        match first_line_color(ls.drop_last()) {
            Some(c) => Some(c),
            None => line_color(ls.last()),
        }
    }
}

/// The theme colour of a `colors.toml` text: an `rgb` line wins over an `accent`
/// line wherever they stand; among lines of one kind the first wins.
pub open spec fn theme_color(content: Seq<char>) -> Option<Seq<char>> {
    match first_rgb_color(lines(content)) {
        Some(c) => Some(c),
        None => first_line_color(lines(content)),
    }
}

/// Once a prefix of the lines offers an `rgb` colour, the whole text offers that one.
proof fn lemma_first_rgb_prefix(ls: Seq<Seq<char>>, n: int)
    requires
        0 <= n <= ls.len(),
        first_rgb_color(ls.take(n)) is Some,
    ensures
        first_rgb_color(ls) == first_rgb_color(ls.take(n)),
    decreases ls.len() - n,
{
    if n < ls.len() {
        assert(ls.take(n + 1).drop_last() =~= ls.take(n));
        lemma_first_rgb_prefix(ls, n + 1);
    } else {
        assert(ls.take(n) =~= ls);
    }
}

fn line_color_of(line: &[char]) -> (r: Option<Vec<char>>)
    ensures
        match r {
            Some(v) => line_color(line@) == Some(v@),
            None => line_color(line@) is None,
        },
{
    let rgb = vec!['r', 'g', 'b'];
    let accent = vec!['a', 'c', 'c', 'e', 'n', 't'];
    assert(rgb@ =~= rgb_key());
    assert(accent@ =~= accent_key());
    if !(starts_with_chars(line, rgb.as_slice()) || starts_with_chars(line, accent.as_slice())) {
        return None;
    }
    let parts = split_chars(line, '=');
    if parts.len() != 2 {
        return None;
    }
    let t = trim_chars(parts[1].as_slice());
    let q = trim_char_chars(t.as_slice(), '"');
    let color = trim_start_char_chars(q.as_slice(), '#');
    if color.len() == 0 {
        None
    } else {
        Some(color)
    }
}

/// The accent colour that a theme's `colors.toml` text names, without `"` and `#`.
pub fn parse_theme_color(content: &str) -> (r: Option<String>)
    ensures
        match r {
            Some(s) => theme_color(content@) == Some(s@),
            None => theme_color(content@) is None,
        },
{
    let chars = chars_of(content);
    let ls = lines_chars(chars.as_slice());
    let ghost all = rows(ls@);
    let mut accent: Option<Vec<char>> = None;
    let mut k: usize = 0;
    while k < ls.len()
        invariant
            all == rows(ls@),
            all == lines(content@),
            k <= ls.len(),
            first_rgb_color(all.take(k as int)) is None,
            match accent {
                Some(v) => first_line_color(all.take(k as int)) == Some(v@),
                None => first_line_color(all.take(k as int)) is None,
            },
        decreases ls.len() - k,
    {
        let line = ls[k].as_slice();
        assert(all.take(k + 1).drop_last() =~= all.take(k as int));
        assert(all.take(k + 1).last() == line@);
        let rgb = vec!['r', 'g', 'b'];
        assert(rgb@ =~= rgb_key());
        let found = line_color_of(line);
        match found {
            Some(c) => {
                if starts_with_chars(line, rgb.as_slice()) {
                    proof {
                        lemma_first_rgb_prefix(all, k + 1);
                    }
                    return Some(string_of(c.as_slice()));
                }
                if accent.is_none() {
                    accent = Some(c);
                }
            },
            None => {},
        }
        k = k + 1;
    }
    assert(all.take(ls.len() as int) =~= all);
    match accent {
        Some(v) => Some(string_of(v.as_slice())),
        None => None,
    }
}

/// A line that offers an `rgb` colour.
pub open spec fn rgb_line(l: Seq<char>) -> bool {
    starts_with(l, rgb_key()) && line_color(l) is Some
}

proof fn lemma_no_rgb_line(ls: Seq<Seq<char>>)
    requires
        forall|j: int| 0 <= j < ls.len() ==> !rgb_line(#[trigger] ls[j]),
    ensures
        first_rgb_color(ls) is None,
    decreases ls.len(),
{
    if ls.len() > 0 {
        assert(!rgb_line(ls[ls.len() - 1]));
        lemma_no_rgb_line(ls.drop_last());
    }
}

proof fn lemma_first_rgb_line(ls: Seq<Seq<char>>, i: int)
    requires
        0 <= i < ls.len(),
        rgb_line(ls[i]),
        forall|j: int| 0 <= j < i ==> !rgb_line(#[trigger] ls[j]),
    ensures
        first_rgb_color(ls) == line_color(ls[i]),
    decreases ls.len(),
{
    if i < ls.len() - 1 {
        lemma_first_rgb_line(ls.drop_last(), i);
    } else {
        lemma_no_rgb_line(ls.drop_last());
    }
}

proof fn lemma_no_color_line(ls: Seq<Seq<char>>)
    requires
        forall|j: int| 0 <= j < ls.len() ==> line_color(#[trigger] ls[j]) is None,
    ensures
        first_line_color(ls) is None,
    decreases ls.len(),
{
    if ls.len() > 0 {
        assert(line_color(ls[ls.len() - 1]) is None);
        lemma_no_color_line(ls.drop_last());
    }
}

proof fn lemma_first_color_line(ls: Seq<Seq<char>>, i: int)
    requires
        0 <= i < ls.len(),
        line_color(ls[i]) is Some,
        forall|j: int| 0 <= j < i ==> line_color(#[trigger] ls[j]) is None,
    ensures
        first_line_color(ls) == line_color(ls[i]),
    decreases ls.len(),
{
    if i < ls.len() - 1 {
        lemma_first_color_line(ls.drop_last(), i);
    } else {
        lemma_no_color_line(ls.drop_last());
    }
}

/// The theme colour is the value of the first line that starts with `rgb` and offers
/// a colour, if any does; else the value of the first line that offers one, which
/// then starts with `accent`; else there is none. A line offers a colour when it
/// starts with `rgb` or `accent`, holds exactly one `=`, and its value (`line_value`)
/// is not empty.
pub proof fn law_theme_color_prefers_rgb(content: Seq<char>, i: int)
    ensures
        ({
            let ls = lines(content);
            &&& (0 <= i < ls.len() && rgb_line(ls[i]) && (forall|j: int|
                0 <= j < i ==> !rgb_line(#[trigger] ls[j]))) ==> theme_color(content) == Some(
                line_value(ls[i]),
            )
            &&& ((forall|j: int| 0 <= j < ls.len() ==> !rgb_line(#[trigger] ls[j])) && 0 <= i
                < ls.len() && line_color(ls[i]) is Some && (forall|j: int|
                0 <= j < i ==> line_color(#[trigger] ls[j]) is None)) ==> theme_color(content)
                == Some(line_value(ls[i])) && starts_with(ls[i], accent_key())
            &&& (forall|j: int| 0 <= j < ls.len() ==> line_color(#[trigger] ls[j]) is None)
                ==> theme_color(content) is None
        }),
{
    let ls = lines(content);
    if 0 <= i < ls.len() && rgb_line(ls[i]) && (forall|j: int| 0 <= j < i ==> !rgb_line(#[trigger] ls[j])) {
        lemma_first_rgb_line(ls, i);
    }
    if (forall|j: int| 0 <= j < ls.len() ==> !rgb_line(#[trigger] ls[j])) {
        lemma_no_rgb_line(ls);
        if 0 <= i < ls.len() && line_color(ls[i]) is Some && (forall|j: int|
            0 <= j < i ==> line_color(#[trigger] ls[j]) is None) {
            lemma_first_color_line(ls, i);
            assert(!rgb_line(ls[i]));
        }
    }
    if forall|j: int| 0 <= j < ls.len() ==> line_color(#[trigger] ls[j]) is None {
        assert forall|j: int| 0 <= j < ls.len() implies !rgb_line(#[trigger] ls[j]) by {
            assert(line_color(ls[j]) is None);
        }
        lemma_no_rgb_line(ls);
        lemma_no_color_line(ls);
    }
}

} // verus!
