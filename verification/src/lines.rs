//! Texts as sequences of lines.

use crate::text::{chars_of, lemma_run_len, lemma_run_len_is, run_len, CharClass};
use vstd::prelude::*;

verus! {

/// The pieces of `s` that end with `delimiter`, each with its delimiter, and
/// after them what is left of `s`, where anything is left.
pub open spec fn split_inclusive(s: Seq<char>, delimiter: char) -> Seq<Seq<char>>
    decreases s.len(),
{
    let n = run_len(s, CharClass::Except(delimiter, delimiter));
    if s.len() == 0 {
        Seq::empty()
    } else if n >= s.len() {
        seq![s]
    } else {
        proof {
            lemma_run_len(s, CharClass::Except(delimiter, delimiter));
        }
        seq![s.take(n as int + 1)] + split_inclusive(s.skip(n as int + 1), delimiter)
    }
}

/// A line without the line feed that ends it and without the carriage
/// return in front of that line feed.
pub open spec fn strip_line_ending(line: Seq<char>) -> Seq<char> {
    if line.len() > 0 && line.last() == '\n' {
        let line = line.drop_last();
        if line.len() > 0 && line.last() == '\r' {
            line.drop_last()
        } else {
            line
        }
    } else {
        line
    }
}

/// The lines of `s` with their line endings.
pub open spec fn lines_inclusive(s: Seq<char>) -> Seq<Seq<char>> {
    split_inclusive(s, '\n')
}

/// The lines of `s` without their line endings. A line ends with a line
/// feed or with a carriage return and a line feed; the last line may end
/// with the text.
pub open spec fn lines_of(s: Seq<char>) -> Seq<Seq<char>> {
    lines_inclusive(s).map_values(|line: Seq<char>| strip_line_ending(line))
}

/// The texts of `pieces`, one after the other.
pub open spec fn concat(pieces: Seq<Seq<char>>) -> Seq<char>
    decreases pieces.len(),
{
    if pieces.len() == 0 {
        Seq::empty()
    } else {
        pieces[0] + concat(pieces.drop_first())
    }
}

/// Splitting a text loses nothing: the pieces in order are the text.
pub proof fn lemma_split_inclusive_concat(s: Seq<char>, delimiter: char)
    ensures
        concat(split_inclusive(s, delimiter)) == s,
    decreases s.len(),
{
    let n = run_len(s, CharClass::Except(delimiter, delimiter)) as int;
    let pieces = split_inclusive(s, delimiter);
    lemma_run_len(s, CharClass::Except(delimiter, delimiter));
    if s.len() == 0 {
        assert(concat(pieces) =~= s);
    } else if n >= s.len() {
        assert(pieces.drop_first() =~= Seq::<Seq<char>>::empty());
        assert(concat(pieces.drop_first()) =~= Seq::<char>::empty());
        assert(concat(pieces) =~= s);
    } else {
        lemma_split_inclusive_concat(s.skip(n + 1), delimiter);
        assert(pieces.drop_first() =~= split_inclusive(s.skip(n + 1), delimiter));
        assert(concat(pieces) =~= s);
    }
}

/// Every piece of a split is non-empty, holds the delimiter nowhere but at
/// its end, and every piece but the last ends with the delimiter.
pub proof fn lemma_split_inclusive_pieces(s: Seq<char>, delimiter: char)
    ensures
        forall|i: int|
            #![trigger split_inclusive(s, delimiter)[i]]
            0 <= i < split_inclusive(s, delimiter).len() ==> {
                let piece = split_inclusive(s, delimiter)[i];
                &&& piece.len() > 0
                &&& forall|j: int| 0 <= j < piece.len() - 1 ==> piece[j] != delimiter
                &&& i < split_inclusive(s, delimiter).len() - 1 ==> piece.last() == delimiter
            },
    decreases s.len(),
{
    let class = CharClass::Except(delimiter, delimiter);
    let n = run_len(s, class) as int;
    let pieces = split_inclusive(s, delimiter);
    lemma_run_len(s, class);
    if s.len() == 0 {
    } else if n >= s.len() {
    } else {
        let rest = split_inclusive(s.skip(n + 1), delimiter);
        lemma_split_inclusive_pieces(s.skip(n + 1), delimiter);
        assert forall|i: int| #![trigger pieces[i]] 0 <= i < pieces.len() implies {
            let piece = pieces[i];
            &&& piece.len() > 0
            &&& forall|j: int| 0 <= j < piece.len() - 1 ==> piece[j] != delimiter
            &&& i < pieces.len() - 1 ==> piece.last() == delimiter
        } by {
            if i > 0 {
                assert(pieces[i] == rest[i - 1]);
            }
        }
    }
}

/// The pieces of `text` that end with `delimiter`, each with its delimiter,
/// and after them what is left of `text`, where anything is left.
pub fn split_inclusive_pieces<'a>(text: &'a str, delimiter: char) -> (pieces: Vec<&'a str>)
    ensures
        pieces.deep_view() == split_inclusive(text@, delimiter),
{
    let ghost class = CharClass::Except(delimiter, delimiter);
    let v = chars_of(text);
    let mut pieces: Vec<&'a str> = Vec::new();
    let mut start: usize = 0;
    proof {
        assert(text@.skip(0) =~= text@);
        assert(pieces.deep_view() + split_inclusive(text@, delimiter) =~= split_inclusive(
            text@,
            delimiter,
        ));
    }
    while start < v.len()
        invariant
            start <= v.len(),
            v@ == text@,
            class == CharClass::Except(delimiter, delimiter),
            pieces.deep_view() + split_inclusive(text@.skip(start as int), delimiter)
                == split_inclusive(text@, delimiter),
        decreases v.len() - start,
    {
        let mut end: usize = start;
        while end < v.len() && v[end] != delimiter
            invariant
                start <= end <= v.len(),
                forall|k: int| start <= k < end ==> v@[k] != delimiter,
            decreases v.len() - end,
        {
            end += 1;
        }
        let stop = if end < v.len() {
            end + 1
        } else {
            end
        };
        let ghost before = pieces.deep_view();
        let ghost rest = text@.skip(start as int);
        let piece = text.substring_char(start, stop);
        proof {
            assert forall|k: int| 0 <= k < end - start implies class.contains(#[trigger] rest[k]) by {
                assert(rest[k] == v@[start + k]);
            }
            if end < v.len() {
                assert(rest[end - start] == v@[end as int]);
            }
            lemma_run_len_is(rest, class, end - start);
            assert(piece@ =~= rest.take(stop - start));
            assert(rest.skip(stop - start) =~= text@.skip(stop as int));
            if end >= v.len() {
                assert(rest.take(stop - start) =~= rest);
                assert(text@.skip(stop as int) =~= Seq::<char>::empty());
                assert(split_inclusive(rest, delimiter) =~= seq![piece@] + split_inclusive(
                    text@.skip(stop as int),
                    delimiter,
                ));
            }
        }
        pieces.push(piece);
        proof {
            assert(pieces.deep_view() =~= before.push(piece@));
            assert(before.push(piece@) + split_inclusive(text@.skip(stop as int), delimiter)
                =~= before + (seq![piece@] + split_inclusive(text@.skip(stop as int), delimiter)));
        }
        start = stop;
    }
    proof {
        assert(text@.skip(start as int) =~= Seq::<char>::empty());
        assert(pieces.deep_view() + Seq::<Seq<char>>::empty() =~= pieces.deep_view());
    }
    pieces
}

/// The lines of `text` with their line endings.
pub fn split_lines_inclusive<'a>(text: &'a str) -> (lines: Vec<&'a str>)
    ensures
        lines.deep_view() == lines_inclusive(text@),
{
    split_inclusive_pieces(text, '\n')
}

/// `line` without its line ending.
pub fn strip_ending<'a>(line: &'a str) -> (r: &'a str)
    ensures
        r@ == strip_line_ending(line@),
{
    let v = chars_of(line);
    let n = v.len();
    if n > 0 && v[n - 1] == '\n' {
        if n > 1 && v[n - 2] == '\r' {
            line.substring_char(0, n - 2)
        } else {
            line.substring_char(0, n - 1)
        }
    } else {
        line
    }
}

/// The lines of `text` without their line endings.
pub fn split_lines<'a>(text: &'a str) -> (lines: Vec<&'a str>)
    ensures
        lines.deep_view() == lines_of(text@),
{
    let pieces = split_lines_inclusive(text);
    let mut lines: Vec<&'a str> = Vec::new();
    let mut i: usize = 0;
    while i < pieces.len()
        invariant
            i <= pieces.len(),
            lines.len() == i,
            pieces.deep_view() == lines_inclusive(text@),
            forall|j: int| 0 <= j < i ==> (#[trigger] lines@[j])@ == strip_line_ending(pieces@[j]@),
        decreases pieces.len() - i,
    {
        lines.push(strip_ending(pieces[i]));
        i += 1;
    }
    proof {
        assert forall|j: int| 0 <= j < lines.len() implies lines.deep_view()[j] == lines_of(
            text@,
        )[j] by {
            assert(pieces.deep_view()[j] == pieces@[j]@);
        }
        assert(lines.deep_view() =~= lines_of(text@));
    }
    lines
}

/// The lines of a text and a place among them: the lines before the place
/// have been read, the others are still to come.
#[derive(Debug)]
pub struct LineCursor<'a> {
    lines: Vec<&'a str>,
    position: usize,
}

impl<'a> LineCursor<'a> {
    #[verifier::type_invariant]
    spec fn in_range(self) -> bool {
        self.position <= self.lines.len()
    }

    /// All lines of the text, read or not.
    pub closed spec fn lines(&self) -> Seq<Seq<char>> {
        self.lines.deep_view()
    }

    /// The number of lines that have been read.
    pub closed spec fn position(&self) -> nat {
        self.position as nat
    }

    /// A cursor in front of the first line of `text`.
    pub fn new(text: &'a str) -> (r: Self)
        ensures
            r.lines() == lines_of(text@),
            r.position() == 0,
    {
        LineCursor { lines: split_lines(text), position: 0 }
    }

    /// Reads the next line: its index and its text. `None` once every line
    /// has been read.
    pub fn next(&mut self) -> (r: Option<(usize, &'a str)>)
        ensures
            final(self).lines() == old(self).lines(),
            old(self).position() <= old(self).lines().len() <= usize::MAX,
            old(self).position() < old(self).lines().len() ==> {
                &&& final(self).position() == old(self).position() + 1
                &&& r matches Some((index, line))
                &&& index == old(self).position()
                &&& line@ == old(self).lines()[index as int]
            },
            old(self).position() >= old(self).lines().len() ==> {
                &&& r is None
                &&& final(self).position() == old(self).position()
            },
    {
        proof {
            use_type_invariant(&*self);
        }
        if self.position < self.lines.len() {
            let index = self.position;
            let line = self.lines[index];
            self.position = index + 1;
            Some((index, line))
        } else {
            None
        }
    }

    /// The number of lines that have been read.
    pub fn lines_read(&self) -> (n: usize)
        ensures
            n == self.position(),
            n <= self.lines().len(),
    {
        proof {
            use_type_invariant(self);
        }
        self.position
    }

    /// The number of lines that have not been read.
    pub fn count(self) -> (n: usize)
        ensures
            n == self.lines().len() - self.position(),
    {
        proof {
            use_type_invariant(&self);
        }
        self.lines.len() - self.position
    }

    /// The lines that have not been read, each with its index.
    pub fn remaining(&self) -> (r: Vec<(usize, &'a str)>)
        ensures
            r.len() == self.lines().len() - self.position(),
            forall|i: int|
                0 <= i < r.len() ==> (#[trigger] r@[i]).0 == self.position() + i && r@[i].1@
                    == self.lines()[self.position() + i],
    {
        proof {
            use_type_invariant(self);
        }
        let mut r: Vec<(usize, &'a str)> = Vec::new();
        let mut i: usize = self.position;
        while i < self.lines.len()
            invariant
                self.position <= i <= self.lines.len(),
                r.len() == i - self.position,
                forall|j: int|
                    0 <= j < r.len() ==> (#[trigger] r@[j]).0 == self.position + j && r@[j].1@
                        == self.lines.deep_view()[self.position + j],
            decreases self.lines.len() - i,
        {
            r.push((i, self.lines[i]));
            i += 1;
        }
        r
    }
}

} // verus!
