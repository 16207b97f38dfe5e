//! Clipboard text transforms (upper, lower, title, sentence, trim, one line,
//! reverse, slug).
use vstd::prelude::*;
use crate::text::{
    char_is_alphanumeric, char_to_upper, char_upper, chars_of, collapse, collapse_chars, extend_chars,
    is_alphanumeric, join, join_chars, keep_nonempty, lemma_join_concat, lemma_split_by_concat,
    lemma_split_by_no_sep, lemma_split_by_nonempty, nonempty, reverse_chars, split_by, split_chars,
    str_eq, str_lower, str_to_lower, str_to_upper, str_upper, string_of, trim, trim_chars, views,
    Separator,
};

verus! {

/// A word with its first character upper-cased and the rest lower-cased.
pub open spec fn capitalize(w: Seq<char>) -> Seq<char> {
    if w.len() == 0 {
        w
    } else {
        char_upper(w[0]) + str_lower(w.drop_first())
    }
}

/// Every space-separated word capitalized; runs of spaces are kept.
pub open spec fn title_case(s: Seq<char>) -> Seq<char> {
    join(split_by(s, Separator::Char(' ')).map_values(|w: Seq<char>| capitalize(w)), seq![' '])
}

/// The whole text lower-cased, then its first character upper-cased.
pub open spec fn sentence_case(s: Seq<char>) -> Seq<char> {
    let l = str_lower(s);
    if l.len() == 0 {
        l
    } else {
        char_upper(l[0]) + l.drop_first()
    }
}

/// A line without the carriage return of a CRLF line ending.
pub open spec fn strip_cr(l: Seq<char>) -> Seq<char> {
    if l.len() > 0 && l.last() == '\r' {
        l.drop_last()
    } else {
        l
    }
}

/// The lines of `s` as `str::lines` yields them: split at `\n`, a `\r`
/// before a `\n` dropped, and no empty line after a final line ending.
pub open spec fn lines_of(s: Seq<char>) -> Seq<Seq<char>> {
    let p = split_by(s, Separator::Char('\n'));
    let body = p.drop_last().map_values(|l: Seq<char>| strip_cr(l));
    if p.last().len() == 0 {
        body
    } else {
        body.push(p.last())
    }
}

/// Each line's words joined by single spaces, the lines joined by `\n`, and
/// the whole trimmed.
pub open spec fn tidy_lines(s: Seq<char>) -> Seq<char> {
    trim(join(lines_of(s).map_values(|l: Seq<char>| collapse(l)), seq!['\n']))
}

/// A character of a slug: itself when alphanumeric, `-` otherwise.
pub open spec fn slug_char(c: char) -> char {
    if char_is_alphanumeric(c) {
        c
    } else {
        '-'
    }
}

/// The lower-cased text with every run of non-alphanumerics turned into one
/// `-`, and none at either end.
pub open spec fn slug(s: Seq<char>) -> Seq<char> {
    let m = str_lower(s).map_values(|c: char| slug_char(c));
    join(nonempty(split_by(m, Separator::Char('-'))), seq!['-'])
}

/// What `transform` returns for `text` in `mode`; an unknown mode leaves the
/// text as it is.
pub open spec fn transformed(text: Seq<char>, mode: Seq<char>) -> Seq<char> {
    if mode == "upper"@ {
        str_upper(text)
    } else if mode == "lower"@ {
        str_lower(text)
    } else if mode == "title"@ {
        title_case(text)
    } else if mode == "sentence"@ {
        sentence_case(text)
    } else if mode == "trim"@ {
        tidy_lines(text)
    } else if mode == "oneline"@ || mode == "plain"@ {
        collapse(text)
    } else if mode == "reverse"@ {
        text.reverse()
    } else if mode == "slug"@ {
        slug(text)
    } else {
        text
    }
}

/// Reversing twice gives the text back.
pub proof fn lemma_reverse_twice(text: Seq<char>)
    ensures
        transformed(transformed(text, "reverse"@), "reverse"@) == text,
{
    reveal_strlit("reverse");
    reveal_strlit("upper");
    reveal_strlit("lower");
    reveal_strlit("title");
    reveal_strlit("sentence");
    reveal_strlit("trim");
    reveal_strlit("oneline");
    reveal_strlit("plain");
    assert("reverse"@ != "upper"@) by { assert("reverse"@[0] != "upper"@[0]); }
    assert("reverse"@ != "lower"@) by { assert("reverse"@[0] != "lower"@[0]); }
    assert("reverse"@ != "title"@) by { assert("reverse"@[0] != "title"@[0]); }
    assert("reverse"@ != "sentence"@) by { assert("reverse"@[0] != "sentence"@[0]); }
    assert("reverse"@ != "trim"@) by { assert("reverse"@[0] != "trim"@[0]); }
    assert("reverse"@ != "oneline"@) by { assert("reverse"@[0] != "oneline"@[0]); }
    assert("reverse"@ != "plain"@) by { assert("reverse"@[0] != "plain"@[0]); }
    assert(text.reverse().reverse() =~= text);
}

proof fn lemma_title_mode(text: Seq<char>)
    ensures
        transformed(text, "title"@) == title_case(text),
{
    reveal_strlit("title");
    reveal_strlit("upper");
    reveal_strlit("lower");
    assert("title"@ != "upper"@) by { assert("title"@[0] != "upper"@[0]); }
    assert("title"@ != "lower"@) by { assert("title"@[0] != "lower"@[0]); }
}

/// In `title` mode a single word (no spaces) has its first character
/// upper-cased and the rest lower-cased, whatever its length.
pub proof fn lemma_title_word(w: Seq<char>)
    requires
        w.len() > 0,
        forall|i: int| 0 <= i < w.len() ==> #[trigger] w[i] != ' ',
    ensures
        transformed(w, "title"@) == char_upper(w[0]) + str_lower(w.drop_first()),
{
    lemma_title_mode(w);
    lemma_split_by_no_sep(w, Separator::Char(' '));
    let caps = split_by(w, Separator::Char(' ')).map_values(|x: Seq<char>| capitalize(x));
    assert(caps =~= seq![capitalize(w)]);
}

/// In `title` mode, words separated by a space are transformed each on its
/// own, and the space is kept.
pub proof fn lemma_title_concat(a: Seq<char>, b: Seq<char>)
    ensures
        transformed(a + seq![' '] + b, "title"@) == transformed(a, "title"@) + seq![' ']
            + transformed(b, "title"@),
{
    lemma_title_mode(a + seq![' '] + b);
    lemma_title_mode(a);
    lemma_title_mode(b);
    let sep = Separator::Char(' ');
    lemma_split_by_concat(a, ' ', b, sep);
    lemma_split_by_nonempty(a, sep);
    lemma_split_by_nonempty(b, sep);
    let pa = split_by(a, sep).map_values(|x: Seq<char>| capitalize(x));
    let pb = split_by(b, sep).map_values(|x: Seq<char>| capitalize(x));
    assert((split_by(a, sep) + split_by(b, sep)).map_values(|x: Seq<char>| capitalize(x)) =~= pa
        + pb);
    lemma_join_concat(pa, pb, seq![' ']);
}

fn capitalize_chars(w: &Vec<char>) -> (r: Vec<char>)
    ensures
        r@ == capitalize(w@),
{
    if w.len() == 0 {
        return Vec::new();
    }
    let first = chars_of(char_to_upper(w[0]).as_str());
    let mut rest: Vec<char> = Vec::new();
    let mut i: usize = 1;
    while i < w.len()
        invariant
            1 <= i <= w.len(),
            rest@ == w@.subrange(1, i as int),
        decreases w.len() - i,
    {
        rest.push(w[i]);
        assert(w@.subrange(1, i + 1) =~= w@.subrange(1, i as int).push(w@[i as int]));
        i += 1;
    }
    assert(rest@ =~= w@.drop_first());
    let lowered = chars_of(str_to_lower(string_of(&rest).as_str()).as_str());
    let mut out = first;
    extend_chars(&mut out, &lowered);
    out
}

fn title_chars(s: &Vec<char>) -> (r: Vec<char>)
    ensures
        r@ == title_case(s@),
{
    let pieces = split_chars(s, Separator::Char(' '));
    let mut caps: Vec<Vec<char>> = Vec::new();
    let mut i: usize = 0;
    while i < pieces.len()
        invariant
            i <= pieces.len(),
            views(caps@) == views(pieces@).take(i as int).map_values(
                |w: Seq<char>| capitalize(w),
            ),
        decreases pieces.len() - i,
    {
        let ghost before = views(caps@);
        let c = capitalize_chars(&pieces[i]);
        caps.push(c);
        assert(views(caps@) =~= before.push(capitalize(pieces@[i as int]@)));
        assert(views(pieces@).take(i + 1) =~= views(pieces@).take(i as int).push(pieces@[i as int]@));
        assert(views(caps@) =~= views(pieces@).take(i + 1).map_values(
            |w: Seq<char>| capitalize(w),
        ));
        i += 1;
    }
    assert(views(pieces@).take(pieces.len() as int) =~= views(pieces@));
    let sep = vec![' '];
    assert(sep@ =~= seq![' ']);
    join_chars(&caps, &sep)
}

fn sentence_chars(text: &str) -> (r: Vec<char>)
    ensures
        r@ == sentence_case(text@),
{
    let lower = chars_of(str_to_lower(text).as_str());
    if lower.len() == 0 {
        return lower;
    }
    let mut out = chars_of(char_to_upper(lower[0]).as_str());
    let mut i: usize = 1;
    while i < lower.len()
        invariant
            1 <= i <= lower.len(),
            out@ == char_upper(lower@[0]) + lower@.subrange(1, i as int),
        decreases lower.len() - i,
    {
        out.push(lower[i]);
        assert(lower@.subrange(1, i + 1) =~= lower@.subrange(1, i as int).push(lower@[i as int]));
        i += 1;
    }
    assert(lower@.subrange(1, lower.len() as int) =~= lower@.drop_first());
    out
}

fn strip_cr_chars(l: &Vec<char>) -> (r: Vec<char>)
    ensures
        r@ == strip_cr(l@),
{
    let mut out = l.clone();
    if out.len() > 0 && out[out.len() - 1] == '\r' {
        out.pop();
        assert(out@ =~= l@.drop_last());
    }
    out
}

fn tidy_chars(s: &Vec<char>) -> (r: Vec<char>)
    ensures
        r@ == tidy_lines(s@),
{
    let pieces = split_chars(s, Separator::Char('\n'));
    proof {
        lemma_split_by_nonempty(s@, Separator::Char('\n'));
    }
    let ghost p = views(pieces@);
    let ghost ls = lines_of(s@);
    let n = pieces.len();
    let mut out: Vec<Vec<char>> = Vec::new();
    let mut i: usize = 0;
    while i + 1 < n
        invariant
            n == pieces@.len(),
            n >= 1,
            i + 1 <= n,
            p == views(pieces@),
            p == split_by(s@, Separator::Char('\n')),
            views(out@) == p.take(i as int).map_values(|l: Seq<char>| collapse(strip_cr(l))),
        decreases n - i,
    {
        let ghost before = views(out@);
        let line = strip_cr_chars(&pieces[i]);
        let c = collapse_chars(&line);
        out.push(c);
        assert(views(out@) =~= before.push(collapse(strip_cr(p[i as int]))));
        assert(p.take(i + 1) =~= p.take(i as int).push(p[i as int]));
        assert(views(out@) =~= p.take(i + 1).map_values(|l: Seq<char>| collapse(strip_cr(l))));
        i += 1;
    }
    assert(p.drop_last() =~= p.take(i as int));
    if pieces[n - 1].len() > 0 {
        let ghost before = views(out@);
        out.push(collapse_chars(&pieces[n - 1]));
        assert(views(out@) =~= before.push(collapse(p.last())));
    }
    assert(views(out@) =~= ls.map_values(|l: Seq<char>| collapse(l)));
    let sep = vec!['\n'];
    assert(sep@ =~= seq!['\n']);
    let joined = join_chars(&out, &sep);
    trim_chars(&joined)
}

fn slug_chars(text: &str) -> (r: Vec<char>)
    ensures
        r@ == slug(text@),
{
    let lower = chars_of(str_to_lower(text).as_str());
    let mut m: Vec<char> = Vec::new();
    let mut i: usize = 0;
    while i < lower.len()
        invariant
            i <= lower.len(),
            m@ == lower@.take(i as int).map_values(|c: char| slug_char(c)),
        decreases lower.len() - i,
    {
        let c = lower[i];
        if is_alphanumeric(c) {
            m.push(c);
        } else {
            m.push('-');
        }
        assert(m@ =~= lower@.take(i + 1).map_values(|c: char| slug_char(c)));
        i += 1;
    }
    assert(lower@.take(lower.len() as int) =~= lower@);
    let pieces = split_chars(&m, Separator::Char('-'));
    let kept = keep_nonempty(&pieces);
    let sep = vec!['-'];
    assert(sep@ =~= seq!['-']);
    join_chars(&kept, &sep)
}

/// Rewrites clipboard text according to `mode`: `upper`, `lower`, `title`,
/// `sentence`, `trim`, `oneline` (or `plain`), `reverse` or `slug`. Any other
/// mode returns the text unchanged.
pub fn transform(text: &str, mode: &str) -> (r: String)
    ensures
        r@ == transformed(text@, mode@),
{
    if str_eq(mode, "upper") {
        str_to_upper(text)
    } else if str_eq(mode, "lower") {
        str_to_lower(text)
    } else if str_eq(mode, "title") {
        string_of(&title_chars(&chars_of(text)))
    } else if str_eq(mode, "sentence") {
        string_of(&sentence_chars(text))
    } else if str_eq(mode, "trim") {
        string_of(&tidy_chars(&chars_of(text)))
    } else if str_eq(mode, "oneline") || str_eq(mode, "plain") {
        string_of(&collapse_chars(&chars_of(text)))
    } else if str_eq(mode, "reverse") {
        string_of(&reverse_chars(&chars_of(text)))
    } else if str_eq(mode, "slug") {
        string_of(&slug_chars(text))
    } else {
        String::from_str(text)
    }
}

} // verus!
