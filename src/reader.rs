//! Turns source text into lines of lowercase lexemes.
use vstd::prelude::*;
use crate::text::{chars_of, lower_of, lowercase, string_of};
use crate::tokenizer::lines_view;

verus! {

/// Whether `c` has the Unicode `White_Space` property.
pub open spec fn is_space(c: char) -> bool {
    ('\u{9}' <= c && c <= '\u{d}') || c == ' ' || c == '\u{85}' || c == '\u{a0}' || c
        == '\u{1680}' || ('\u{2000}' <= c && c <= '\u{200a}') || c == '\u{2028}' || c
        == '\u{2029}' || c == '\u{202f}' || c == '\u{205f}' || c == '\u{3000}'
}

fn is_whitespace(c: char) -> (r: bool)
    ensures
        r == is_space(c),
{
    ('\u{9}' <= c && c <= '\u{d}') || c == ' ' || c == '\u{85}' || c == '\u{a0}' || c
        == '\u{1680}' || ('\u{2000}' <= c && c <= '\u{200a}') || c == '\u{2028}' || c
        == '\u{2029}' || c == '\u{202f}' || c == '\u{205f}' || c == '\u{3000}'
}

/// How a text is cut into pieces.
#[derive(Clone, Copy, PartialEq, Eq, Structural)]
pub enum Split {
    /// At each newline, which is dropped.
    Lines,
    /// At each run of white space, which is dropped.
    Whitespace,
    /// At each of the given delimiters, each kept as a piece of its own.
    Kept,
}

pub open spec fn separates(mode: Split, delimiters: Seq<char>, c: char) -> bool {
    match mode {
        Split::Lines => c == '\n',
        Split::Whitespace => is_space(c),
        Split::Kept => delimiters.contains(c),
    }
}

/// The pieces finished so far and the piece being read.
pub open spec fn split_scan(s: Seq<char>, mode: Split, delimiters: Seq<char>) -> (
    Seq<Seq<char>>,
    Seq<char>,
)
    decreases s.len(),
{
    if s.len() == 0 {
        (Seq::empty(), Seq::empty())
    } else {
        let (done, current) = split_scan(s.drop_last(), mode, delimiters);
        let c = s.last();
        if separates(mode, delimiters, c) {
            let done = if current.len() > 0 {
                done.push(current)
            } else {
                done
            };
            if mode is Kept {
                (done.push(seq![c]), Seq::empty())
            } else {
                (done, Seq::empty())
            }
        } else {
            (done, current.push(c))
        }
    }
}

/// The non-empty pieces of `s`.
pub open spec fn split_by(s: Seq<char>, mode: Split, delimiters: Seq<char>) -> Seq<Seq<char>> {
    let (done, current) = split_scan(s, mode, delimiters);
    if current.len() > 0 {
        done.push(current)
    } else {
        done
    }
}

/// `s` up to its first `d`.
pub open spec fn before_delimiter(s: Seq<char>, d: char) -> Seq<char>
    decreases s.len(),
{
    if s.len() == 0 {
        Seq::empty()
    } else if s[0] == d {
        Seq::empty()
    } else {
        seq![s[0]] + before_delimiter(s.drop_first(), d)
    }
}

pub open spec fn opens(c: char) -> bool {
    c == '(' || c == '[' || c == '{'
}

pub open spec fn closes(c: char) -> bool {
    c == ')' || c == ']' || c == '}'
}

/// Whether the end of `s` lies inside brackets.
pub open spec fn inside_after(s: Seq<char>) -> bool
    decreases s.len(),
{
    if s.len() == 0 {
        false
    } else if opens(s.last()) {
        true
    } else if closes(s.last()) {
        false
    } else {
        inside_after(s.drop_last())
    }
}

/// `s` without the white space that stands inside brackets.
pub open spec fn squish(s: Seq<char>) -> Seq<char>
    decreases s.len(),
{
    if s.len() == 0 {
        Seq::empty()
    } else if inside_after(s) && is_space(s.last()) {
        squish(s.drop_last())
    } else {
        squish(s.drop_last()).push(s.last())
    }
}

/// The lexemes of words: each lowercased, then cut at `, ( ) ~`, which stay.
pub open spec fn lexemes_of(words: Seq<Seq<char>>) -> Seq<Seq<char>>
    decreases words.len(),
{
    if words.len() == 0 {
        Seq::empty()
    } else {
        lexemes_of(words.drop_last()) + split_by(lower_of(words.last()), Split::Kept, ",()~"@)
    }
}

/// The lexemes of one source line.
pub open spec fn line_lexemes(line: Seq<char>) -> Seq<Seq<char>> {
    lexemes_of(split_by(squish(before_delimiter(line, ';')), Split::Whitespace, Seq::empty()))
}

/// The lexeme lines of source lines, lines without lexemes left out.
pub open spec fn contents_of(lines: Seq<Seq<char>>) -> Seq<Seq<Seq<char>>>
    decreases lines.len(),
{
    if lines.len() == 0 {
        Seq::empty()
    } else if line_lexemes(lines.last()).len() > 0 {
        contents_of(lines.drop_last()).push(line_lexemes(lines.last()))
    } else {
        contents_of(lines.drop_last())
    }
}

pub open spec fn strings_view(v: Seq<String>) -> Seq<Seq<char>> {
    v.map_values(|s: String| s@)
}

pub open spec fn pieces_view(v: Seq<Vec<char>>) -> Seq<Seq<char>> {
    v.map_values(|p: Vec<char>| p@)
}

/// Cuts `s` as `mode` says; `delimiters` serve `Split::Kept` alone.
fn split_chars(s: &Vec<char>, mode: Split, delimiters: &Vec<char>) -> (r: Vec<Vec<char>>)
    ensures
        pieces_view(r@) == split_by(s@, mode, delimiters@),
{
    let mut done: Vec<Vec<char>> = Vec::new();
    let mut current: Vec<char> = Vec::new();
    let mut k: usize = 0;
    assert(pieces_view(done@) =~= Seq::<Seq<char>>::empty());
    assert(s@.subrange(0, 0) =~= Seq::<char>::empty());
    while k < s.len()
        invariant
            k <= s.len(),
            (pieces_view(done@), current@) == split_scan(
                s@.subrange(0, k as int),
                mode,
                delimiters@,
            ),
        decreases s.len() - k,
    {
        assert(s@.subrange(0, k + 1).drop_last() =~= s@.subrange(0, k as int));
        let c = s[k];
        let sep = match mode {
            Split::Lines => c == '\n',
            Split::Whitespace => is_whitespace(c),
            Split::Kept => contains_char(delimiters, c),
        };
        if sep {
            if current.len() > 0 {
                let ghost prev = done@;
                let ghost piece = current@;
                done.push(current);
                current = Vec::new();
                assert(pieces_view(done@) =~= pieces_view(prev).push(piece));
            }
            if mode == Split::Kept {
                let ghost prev = done@;
                let mut single: Vec<char> = Vec::new();
                single.push(c);
                done.push(single);
                assert(pieces_view(done@) =~= pieces_view(prev).push(seq![c]));
            }
            current = Vec::new();
            assert(current@ =~= Seq::<char>::empty());
        } else {
            current.push(c);
        }
        k = k + 1;
    }
    assert(s@.subrange(0, k as int) =~= s@);
    if current.len() > 0 {
        let ghost prev = done@;
        let ghost piece = current@;
        done.push(current);
        assert(pieces_view(done@) =~= pieces_view(prev).push(piece));
    }
    done
}

fn contains_char(v: &Vec<char>, c: char) -> (r: bool)
    ensures
        r == v@.contains(c),
{
    let mut k: usize = 0;
    while k < v.len()
        invariant
            k <= v.len(),
            forall|j: int| 0 <= j < k ==> v@[j] != c,
        decreases v.len() - k,
    {
        if v[k] == c {
            return true;
        }
        k = k + 1;
    }
    false
}

fn strings_of(pieces: &Vec<Vec<char>>) -> (r: Vec<String>)
    ensures
        strings_view(r@) == pieces_view(pieces@),
{
    let mut out: Vec<String> = Vec::new();
    let mut k: usize = 0;
    while k < pieces.len()
        invariant
            k <= pieces.len(),
            strings_view(out@) == pieces_view(pieces@).subrange(0, k as int),
        decreases pieces.len() - k,
    {
        let piece = string_of(&pieces[k]);
        assert(piece@ == pieces_view(pieces@)[k as int]);
        let ghost prev = out@;
        out.push(piece);
        assert(strings_view(out@) =~= strings_view(prev).push(piece@));
        assert(pieces_view(pieces@).subrange(0, k + 1) =~= pieces_view(pieces@).subrange(
            0,
            k as int,
        ).push(piece@));
        k = k + 1;
    }
    assert(pieces_view(pieces@).subrange(0, k as int) =~= pieces_view(pieces@));
    out
}

/// Cuts `input` at each character of `delimiter`, keeping each delimiter as a
/// piece of its own.
pub fn split_inclusive(input: &str, delimiter: &str) -> (r: Vec<String>)
    ensures
        strings_view(r@) == split_by(input@, Split::Kept, delimiter@),
{
    let pieces = split_chars(&chars_of(input), Split::Kept, &chars_of(delimiter));
    strings_of(&pieces)
}

/// `input` up to its first `delimiter`.
fn remove_after_delimiter(input: String, delimiter: char) -> (r: String)
    ensures
        r@ == before_delimiter(input@, delimiter),
{
    let s = chars_of(input.as_str());
    let mut out: Vec<char> = Vec::new();
    let mut k: usize = 0;
    assert(s@.subrange(0, s@.len() as int) =~= s@);
    assert(out@ + before_delimiter(s@, delimiter) =~= before_delimiter(s@, delimiter));
    while k < s.len()
        invariant
            k <= s.len(),
            s@ == input@,
            before_delimiter(s@, delimiter) == out@ + before_delimiter(
                s@.subrange(k as int, s@.len() as int),
                delimiter,
            ),
        decreases s.len() - k,
    {
        assert(s@.subrange(k as int, s@.len() as int).drop_first() =~= s@.subrange(
            k + 1,
            s@.len() as int,
        ));
        assert(s@.subrange(k as int, s@.len() as int)[0] == s@[k as int]);
        if s[k] == delimiter {
            assert(s@.subrange(k as int, s@.len() as int).len() > 0);
            assert(before_delimiter(s@.subrange(k as int, s@.len() as int), delimiter)
                =~= Seq::<char>::empty());
            assert(out@ + Seq::<char>::empty() =~= out@);
            return string_of(&out);
        }
        let ghost prev = out@;
        out.push(s[k]);
        assert(prev + (seq![s@[k as int]] + before_delimiter(
            s@.subrange(k + 1, s@.len() as int),
            delimiter,
        )) =~= out@ + before_delimiter(s@.subrange(k + 1, s@.len() as int), delimiter));
        k = k + 1;
    }
    assert(s@.subrange(k as int, s@.len() as int) =~= Seq::<char>::empty());
    assert(out@ + Seq::<char>::empty() =~= out@);
    string_of(&out)
}

/// `input` without the white space inside `( )`, `[ ]` or `{ }`.
fn squish_between_delimiters(input: String) -> (r: String)
    ensures
        r@ == squish(input@),
{
    let s = chars_of(input.as_str());
    let mut result: Vec<char> = Vec::new();
    let mut is_inside = false;
    let mut k: usize = 0;
    assert(s@.subrange(0, 0) =~= Seq::<char>::empty());
    while k < s.len()
        invariant
            k <= s.len(),
            result@ == squish(s@.subrange(0, k as int)),
            is_inside == inside_after(s@.subrange(0, k as int)),
        decreases s.len() - k,
    {
        let c = s[k];
        assert(s@.subrange(0, k + 1).drop_last() =~= s@.subrange(0, k as int));
        assert(s@.subrange(0, k + 1).last() == c);
        if c == '(' || c == '[' || c == '{' {
            is_inside = true;
        } else if c == ')' || c == ']' || c == '}' {
            is_inside = false;
        }
        if !is_inside || !is_whitespace(c) {
            result.push(c);
        }
        k = k + 1;
    }
    assert(s@.subrange(0, k as int) =~= s@);
    string_of(&result)
}

/// Reads source text into lines of lexemes.
pub struct Reader {
    contents: Vec<Vec<String>>,
}

impl Reader {
    /// The lines of lexemes read so far.
    pub closed spec fn lines(&self) -> Seq<Seq<Seq<char>>> {
        lines_view(self.contents@)
    }

    pub fn new() -> (r: Reader)
        ensures
            r.lines() == Seq::<Seq<Seq<char>>>::empty(),
    {
        let r = Reader { contents: Vec::new() };
        assert(r.lines() =~= Seq::<Seq<Seq<char>>>::empty());
        r
    }

    /// Reads every line of `buffer`: comments after `;` go, white space inside
    /// brackets goes, the rest is cut into lowercase words and the words at
    /// `, ( ) ~`. Lines left without lexemes are dropped.
    pub fn read_buffer_and_split(&mut self, buffer: String)
        ensures
            final(self).lines() == old(self).lines() + contents_of(
                split_by(buffer@, Split::Lines, Seq::empty()),
            ),
    {
        let lines = split_chars(&chars_of(buffer.as_str()), Split::Lines, &Vec::new());
        let mut k: usize = 0;
        let ghost lv = pieces_view(lines@);
        assert(lv.subrange(0, 0) =~= Seq::<Seq<char>>::empty());
        assert(old(self).lines() + contents_of(lv.subrange(0, 0)) =~= old(self).lines());
        while k < lines.len()
            invariant
                k <= lines.len(),
                lv == pieces_view(lines@),
                lv == split_by(buffer@, Split::Lines, Seq::empty()),
                self.lines() == old(self).lines() + contents_of(lv.subrange(0, k as int)),
            decreases lines.len() - k,
        {
            let lexemes = self.read_line(string_of(&lines[k]));
            assert(lv.subrange(0, k + 1).drop_last() =~= lv.subrange(0, k as int));
            if lexemes.len() > 0 {
                let ghost prev = self.contents@;
                self.contents.push(lexemes);
                assert(lines_view(self.contents@) =~= lines_view(prev).push(
                    strings_view(lexemes@),
                ));
                assert(strings_view(lexemes@) =~= lines_view(self.contents@).last());
            }
            k = k + 1;
        }
        assert(lv.subrange(0, k as int) =~= lv);
    }

    /// The lexemes of one source line.
    fn read_line(&self, line: String) -> (r: Vec<String>)
        ensures
            strings_view(r@) == line_lexemes(line@),
    {
        let line = squish_between_delimiters(remove_after_delimiter(line, ';'));
        let words = split_chars(&chars_of(line.as_str()), Split::Whitespace, &Vec::new());
        let ghost wv = pieces_view(words@);
        let mut tokens: Vec<String> = Vec::new();
        let mut k: usize = 0;
        assert(wv.subrange(0, 0) =~= Seq::<Seq<char>>::empty());
        assert(strings_view(tokens@) =~= Seq::<Seq<char>>::empty());
        while k < words.len()
            invariant
                k <= words.len(),
                wv == pieces_view(words@),
                strings_view(tokens@) == lexemes_of(wv.subrange(0, k as int)),
            decreases words.len() - k,
        {
            let word = lowercase(string_of(&words[k]).as_str());
            let pieces = split_inclusive(word.as_str(), ",()~");
            assert(wv.subrange(0, k + 1).drop_last() =~= wv.subrange(0, k as int));
            let ghost prev = tokens@;
            let mut m: usize = 0;
            while m < pieces.len()
                invariant
                    m <= pieces.len(),
                    strings_view(tokens@) == strings_view(prev) + strings_view(pieces@).subrange(
                        0,
                        m as int,
                    ),
                decreases pieces.len() - m,
            {
                let ghost before = tokens@;
                let piece = pieces[m].clone();
                tokens.push(piece);
                assert(strings_view(tokens@) =~= strings_view(before).push(pieces@[m as int]@));
                assert(strings_view(pieces@).subrange(0, m + 1) =~= strings_view(pieces@).subrange(
                    0,
                    m as int,
                ).push(pieces@[m as int]@));
                assert(strings_view(tokens@) =~= strings_view(prev) + strings_view(
                    pieces@,
                ).subrange(0, m + 1));
                m = m + 1;
            }
            assert(strings_view(pieces@).subrange(0, m as int) =~= strings_view(pieces@));
            k = k + 1;
        }
        assert(wv.subrange(0, k as int) =~= wv);
        tokens
    }

    pub fn get_contents(&self) -> (r: &Vec<Vec<String>>)
        ensures
            lines_view(r@) == self.lines(),
    {
        &self.contents
    }
}

} // verus!
