//! What this library takes on trust about the standard library's text
//! functions, and the helpers built on them.

use vstd::prelude::*;
use vstd::string::*;

verus! {

/// The lowercase form of a text, as `str::to_lowercase` defines it.
pub uninterp spec fn lowercase(s: Seq<char>) -> Seq<char>;

/// `str::to_lowercase` returns the lowercase form of the text, which
/// depends on the text alone.
pub assume_specification[ str::to_lowercase ](s: &str) -> (r: String)
    ensures
        r@ == lowercase(s@),
;

/// Whether `s` ends with `pat`.
pub open spec fn ends_with(s: Seq<char>, pat: Seq<char>) -> bool {
    pat.len() <= s.len() && s.subrange(s.len() - pat.len(), s.len() as int) == pat
}

/// `s` without the copies of `pat` that it ends with, however many
/// there are.
pub open spec fn trimmed_end(s: Seq<char>, pat: Seq<char>) -> Seq<char>
    decreases s.len(),
{
    if pat.len() > 0 && ends_with(s, pat) {
        trimmed_end(s.subrange(0, s.len() - pat.len()), pat)
    } else {
        s
    }
}

/// Whether the first `end` characters of a text end with a pattern of
/// `m` characters.
fn ends_at(s: &str, end: usize, pat: &str, m: usize) -> (b: bool)
    requires
        m == pat@.len(),
        m <= end <= s@.len(),
    ensures
        b == ends_with(s@.subrange(0, end as int), pat@),
{
    let mut k: usize = 0;
    while k < m
        invariant
            m == pat@.len(),
            m <= end <= s@.len(),
            0 <= k <= m,
            forall|j: int| 0 <= j < k ==> s@[end - m + j] == pat@[j],
        decreases m - k,
    {
        if s.get_char(end - m + k) != pat.get_char(k) {
            proof {
                let tail = s@.subrange(0, end as int).subrange(end - m, end as int);
                assert(tail[k as int] == s@[end - m + k]);
            }
            return false;
        }
        k += 1;
    }
    proof {
        assert(s@.subrange(0, end as int).subrange(end - m, end as int) =~= pat@);
    }
    true
}

/// The part of a text that is left when every copy of a pattern at its
/// end is removed.
pub fn trim_end_matches<'a>(s: &'a str, pat: &str) -> (r: &'a str)
    ensures
        r@ == trimmed_end(s@, pat@),
{
    let n: usize = s.unicode_len();
    let m: usize = pat.unicode_len();
    if m == 0 {
        return s;
    }
    let mut end: usize = n;
    proof {
        assert(s@.subrange(0, n as int) =~= s@);
    }
    loop
        invariant_except_break
            n == s@.len(),
            m == pat@.len(),
            m > 0,
            0 <= end <= n,
            trimmed_end(s@, pat@) == trimmed_end(s@.subrange(0, end as int), pat@),
        ensures
            0 <= end <= n,
            n == s@.len(),
            trimmed_end(s@, pat@) == s@.subrange(0, end as int),
        decreases end,
    {
        if end < m {
            break ;
        }
        if !ends_at(s, end, pat, m) {
            break ;
        }
        proof {
            assert(s@.subrange(0, end as int).subrange(0, end - m) =~= s@.subrange(0, end - m));
        }
        end = end - m;
    }
    s.substring_char(0, end)
}

/// The views of a list of texts.
pub open spec fn views_of(texts: Seq<String>) -> Seq<Seq<char>> {
    texts.map_values(|t: String| t@)
}

/// The place of a text in a list, if it is there.
pub fn position_of(texts: &Vec<String>, wanted: &String) -> (at: Option<usize>)
    ensures
        match at {
            Some(i) => i < texts@.len() && texts@[i as int]@ == wanted@ && forall|k: int|
                0 <= k < i ==> texts@[k]@ != wanted@,
            None => forall|k: int| 0 <= k < texts@.len() ==> texts@[k]@ != wanted@,
        },
{
    let mut i: usize = 0;
    while i < texts.len()
        invariant
            0 <= i <= texts@.len(),
            forall|k: int| 0 <= k < i ==> texts@[k]@ != wanted@,
        decreases texts@.len() - i,
    {
        if texts[i] == *wanted {
            return Some(i);
        }
        i += 1;
    }
    None
}

/// The lowercase forms of a list of names, as a set.
pub open spec fn lowercase_set(names: Seq<String>) -> Set<Seq<char>> {
    Set::new(|n: Seq<char>| exists|i: int| 0 <= i < names.len() && lowercase(#[trigger] names[i]@) == n)
}

/// A copy of a list of texts.
pub fn clone_texts(texts: &Vec<String>) -> (copy: Vec<String>)
    ensures
        copy@ == texts@,
{
    let mut copy: Vec<String> = Vec::new();
    let mut i: usize = 0;
    while i < texts.len()
        invariant
            0 <= i <= texts@.len(),
            copy@ == texts@.subrange(0, i as int),
        decreases texts@.len() - i,
    {
        copy.push(texts[i].clone());
        assert(copy@ =~= texts@.subrange(0, i as int + 1));
        i += 1;
    }
    assert(texts@.subrange(0, texts@.len() as int) =~= texts@);
    copy
}

/// Whether a character is white space: the characters that Unicode
/// gives the property White_Space.
pub open spec fn is_white_space(c: char) -> bool {
    let n = c as u32;
    ||| 0x09 <= n <= 0x0d
    ||| n == 0x20
    ||| n == 0x85
    ||| n == 0xa0
    ||| n == 0x1680
    ||| 0x2000 <= n <= 0x200a
    ||| n == 0x2028
    ||| n == 0x2029
    ||| n == 0x202f
    ||| n == 0x205f
    ||| n == 0x3000
}

/// Whether a character is white space.
pub fn white_space(c: char) -> (b: bool)
    ensures
        b == is_white_space(c),
{
    let n: u32 = c as u32;
    (0x09 <= n && n <= 0x0d) || n == 0x20 || n == 0x85 || n == 0xa0 || n == 0x1680 || (0x2000 <= n && n
        <= 0x200a) || n == 0x2028 || n == 0x2029 || n == 0x202f || n == 0x205f || n == 0x3000
}

/// The text without the white space it begins with.
pub open spec fn trimmed_start(s: Seq<char>) -> Seq<char>
    decreases s.len(),
{
    if s.len() > 0 && is_white_space(s[0]) {
        trimmed_start(s.drop_first())
    } else {
        s
    }
}

/// The text without the white space it ends with.
pub open spec fn trimmed_tail(s: Seq<char>) -> Seq<char>
    decreases s.len(),
{
    if s.len() > 0 && is_white_space(s.last()) {
        trimmed_tail(s.drop_last())
    } else {
        s
    }
}

/// The text without the white space at its two ends.
pub open spec fn trimmed(s: Seq<char>) -> Seq<char> {
    trimmed_tail(trimmed_start(s))
}

/// The part of a text that is left without the white space at its two
/// ends.
pub fn trim_white_space<'a>(s: &'a str) -> (r: &'a str)
    ensures
        r@ == trimmed(s@),
{
    let n: usize = s.unicode_len();
    let mut start: usize = 0;
    proof {
        assert(s@.subrange(0, n as int) =~= s@);
    }
    loop
        invariant_except_break
            n == s@.len(),
            0 <= start <= n,
            trimmed_start(s@) == trimmed_start(s@.subrange(start as int, n as int)),
        ensures
            n == s@.len(),
            0 <= start <= n,
            trimmed_start(s@) == s@.subrange(start as int, n as int),
        decreases n - start,
    {
        if start >= n {
            break ;
        }
        if !white_space(s.get_char(start)) {
            break ;
        }
        proof {
            assert(s@.subrange(start as int, n as int).drop_first() =~= s@.subrange(
                start as int + 1,
                n as int,
            ));
        }
        start = start + 1;
    }
    let mut end: usize = n;
    loop
        invariant_except_break
            n == s@.len(),
            0 <= start <= end <= n,
            trimmed(s@) == trimmed_tail(s@.subrange(start as int, end as int)),
        ensures
            n == s@.len(),
            0 <= start <= end <= n,
            trimmed(s@) == s@.subrange(start as int, end as int),
        decreases end - start,
    {
        if end <= start {
            break ;
        }
        if !white_space(s.get_char(end - 1)) {
            break ;
        }
        proof {
            assert(s@.subrange(start as int, end as int).drop_last() =~= s@.subrange(
                start as int,
                end as int - 1,
            ));
        }
        end = end - 1;
    }
    s.substring_char(start, end)
}

/// The pieces of a text between its separators, in order. A text without
/// a separator is one piece, and a separator at an end of the text, or
/// next to another, borders on an empty piece.
pub open spec fn split_on(s: Seq<char>, sep: char) -> Seq<Seq<char>>
    decreases s.len(),
{
    if s.len() == 0 {
        seq![Seq::<char>::empty()]
    } else {
        let before = split_on(s.drop_last(), sep);
        if s.last() == sep {
            before.push(Seq::empty())
        } else {
            before.drop_last().push(before.last().push(s.last()))
        }
    }
}

/// Cuts a text at every separator.
pub fn split_text(s: &str, sep: char) -> (parts: Vec<String>)
    ensures
        views_of(parts@) == split_on(s@, sep),
{
    let n: usize = s.unicode_len();
    let mut parts: Vec<String> = Vec::new();
    let mut start: usize = 0;
    let mut i: usize = 0;
    proof {
        assert(s@.subrange(0, 0) =~= Seq::<char>::empty());
        assert(views_of(parts@).push(s@.subrange(0, 0)) =~= seq![Seq::<char>::empty()]);
    }
    while i < n
        invariant
            n == s@.len(),
            0 <= start <= i <= n,
            split_on(s@.subrange(0, i as int), sep) == views_of(parts@).push(
                s@.subrange(start as int, i as int),
            ),
        decreases n - i,
    {
        let c = s.get_char(i);
        let ghost before = views_of(parts@);
        let ghost piece = s@.subrange(start as int, i as int);
        proof {
            let longer = s@.subrange(0, i as int + 1);
            assert(longer.drop_last() =~= s@.subrange(0, i as int));
            assert(longer.last() == c);
            assert(before.push(piece).drop_last() =~= before);
            assert(before.push(piece).last() == piece);
        }
        if c == sep {
            parts.push(String::from_str(s.substring_char(start, i)));
            start = i + 1;
            proof {
                assert(views_of(parts@) =~= before.push(piece));
                assert(s@.subrange(start as int, i as int + 1) =~= Seq::<char>::empty());
            }
        } else {
            proof {
                assert(piece.push(c) =~= s@.subrange(start as int, i as int + 1));
            }
        }
        i += 1;
    }
    let ghost before = views_of(parts@);
    parts.push(String::from_str(s.substring_char(start, n)));
    proof {
        assert(s@.subrange(0, n as int) =~= s@);
        assert(views_of(parts@) =~= before.push(s@.subrange(start as int, n as int)));
    }
    parts
}

/// The names in a list that is written with commas: the pieces between
/// the commas, each without the white space at its ends, except those
/// that are empty then.
pub open spec fn listed_names(text: Seq<char>) -> Seq<Seq<char>> {
    split_on(text, ',').map_values(|piece: Seq<char>| trimmed(piece)).filter(
        |name: Seq<char>| name.len() > 0,
    )
}

/// Reads a list of names that is written with commas.
pub fn parse_list(text: &str) -> (names: Vec<String>)
    ensures
        views_of(names@) == listed_names(text@),
{
    let parts = split_text(text, ',');
    let mut names: Vec<String> = Vec::new();
    let ghost trim = |piece: Seq<char>| trimmed(piece);
    let ghost named = |name: Seq<char>| name.len() > 0;
    let ghost pieces = views_of(parts@);
    let mut i: usize = 0;
    proof {
        reveal(Seq::filter);
        assert(pieces.subrange(0, 0).map_values(trim).filter(named) =~= Seq::<Seq<char>>::empty());
        assert(views_of(names@) =~= Seq::<Seq<char>>::empty());
    }
    while i < parts.len()
        invariant
            0 <= i <= parts@.len(),
            pieces == views_of(parts@),
            trim == |piece: Seq<char>| trimmed(piece),
            named == |name: Seq<char>| name.len() > 0,
            views_of(names@) == pieces.subrange(0, i as int).map_values(trim).filter(named),
        decreases parts@.len() - i,
    {
        let name = trim_white_space(parts[i].as_str());
        let ghost before = views_of(names@);
        proof {
            reveal(Seq::filter);
            let shorter = pieces.subrange(0, i as int).map_values(trim);
            let longer = pieces.subrange(0, i as int + 1).map_values(trim);
            assert(longer.drop_last() =~= shorter);
            assert(longer.last() == trimmed(parts@[i as int]@));
        }
        if !name.is_empty() {
            names.push(name.to_owned());
            assert(views_of(names@) =~= before.push(name@));
        }
        i += 1;
    }
    proof {
        assert(pieces.subrange(0, parts@.len() as int) =~= pieces);
    }
    names
}

} // verus!
