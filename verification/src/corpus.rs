//! The corpus store: an append-only buffer of characters, logically split
//! at a delimiter into an ordered sequence of entries. An entry's identity
//! is its original index — its position in the split — and appending never
//! moves or rewrites an existing entry, so an original index denotes the
//! same text for the whole life of the corpus.

use vstd::prelude::*;

use crate::text::{lemma_split_concat, split_chars, split_entries, texts_of};

verus! {

/// The entries contributed by a batch of appended lines: each line splits
/// at the delimiter, in order.
pub open spec fn lines_entries(lines: Seq<Seq<char>>, delimiter: char) -> Seq<Seq<char>>
    decreases lines.len(),
{
    if lines.len() == 0 {
        Seq::empty()
    } else {
        lines_entries(lines.drop_last(), delimiter) + split_entries(lines.last(), delimiter)
    }
}

/// The append-only text buffer. While nothing has been appended the corpus
/// has no entries; afterwards its entries are the delimiter-split buffer,
/// and every append extends the buffer behind a fresh delimiter.
pub struct Corpus {
    text: Vec<char>,
    started: bool,
}

impl Corpus {
    /// The accumulated buffer.
    pub closed spec fn buffer(self) -> Seq<char> {
        self.text@
    }

    /// Whether any line has ever been appended.
    pub closed spec fn has_input(self) -> bool {
        self.started
    }

    pub open spec fn wf(self) -> bool {
        !self.has_input() ==> self.buffer().len() == 0
    }

    /// The entries of the corpus under the given delimiter; the original
    /// index of an entry is its position here.
    pub open spec fn entries(self, delimiter: char) -> Seq<Seq<char>> {
        if !self.has_input() {
            Seq::empty()
        } else {
            split_entries(self.buffer(), delimiter)
        }
    }

    pub fn new() -> (r: Corpus)
        ensures
            r.wf(),
            !r.has_input(),
            forall|d: char| r.entries(d) == Seq::<Seq<char>>::empty(),
    {
        Corpus { text: Vec::new(), started: false }
    }

    /// Appends one line: the corpus gains exactly the line's own split
    /// entries, after all existing entries, which stay untouched.
    pub fn append_line(&mut self, line: &Vec<char>, delimiter: char)
        requires
            old(self).wf(),
        ensures
            final(self).wf(),
            final(self).has_input(),
            final(self).entries(delimiter)
                == old(self).entries(delimiter) + split_entries(line@, delimiter),
    {
        let ghost old_buffer = self.text@;
        let ghost was_started = self.started;
        if self.started {
            self.text.push(delimiter);
        } else {
            self.started = true;
        }
        let ghost mid_buffer = self.text@;
        let n = line.len();
        for k in 0..n
            invariant
                n == line@.len(),
                self.text@ == mid_buffer + line@.take(k as int),
                self.started,
        {
            let c = line[k];
            self.text.push(c);
            proof {
                assert(mid_buffer + line@.take(k as int) + seq![line@[k as int]]
                    =~= mid_buffer + line@.take(k + 1));
            }
        }
        proof {
            assert(line@.take(n as int) =~= line@);
            if !was_started {
                // first append: the buffer becomes the line itself
                assert(self.text@ =~= line@);
                assert(old(self).entries(delimiter) + split_entries(line@, delimiter)
                    =~= split_entries(line@, delimiter));
            } else {
                // later append: buffer = old ++ delimiter ++ line
                assert(mid_buffer =~= old_buffer + seq![delimiter]);
                assert(self.text@ =~= old_buffer + seq![delimiter] + line@);
                lemma_split_concat(old_buffer, line@, delimiter);
            }
        }
    }

    /// Appends a batch of lines in order. Every previously valid original
    /// index resolves to the same entry afterwards: the old entries are a
    /// prefix of the new ones.
    pub fn append(&mut self, lines: &Vec<Vec<char>>, delimiter: char)
        requires
            old(self).wf(),
        ensures
            final(self).wf(),
            final(self).entries(delimiter)
                == old(self).entries(delimiter) + lines_entries(texts_of(lines@), delimiter),
    {
        let n = lines.len();
        proof {
            assert(lines_entries(texts_of(lines@).take(0), delimiter) =~= Seq::empty());
            assert(old(self).entries(delimiter) + Seq::<Seq<char>>::empty()
                =~= old(self).entries(delimiter));
        }
        for j in 0..n
            invariant
                n == lines@.len(),
                self.wf(),
                self.entries(delimiter) == old(self).entries(delimiter)
                    + lines_entries(texts_of(lines@).take(j as int), delimiter),
        {
            let line = &lines[j];
            self.append_line(line, delimiter);
            proof {
                let all = texts_of(lines@);
                assert(all.take(j + 1).drop_last() =~= all.take(j as int));
                assert(all.take(j + 1).last() == lines@[j as int]@);
                assert(old(self).entries(delimiter)
                    + lines_entries(all.take(j as int), delimiter)
                    + split_entries(lines@[j as int]@, delimiter)
                    =~= old(self).entries(delimiter)
                        + lines_entries(all.take(j + 1), delimiter));
            }
        }
        proof {
            assert(texts_of(lines@).take(n as int) =~= texts_of(lines@));
        }
    }

    /// The entries under the given delimiter, as owned character vectors.
    pub fn split(&self, delimiter: char) -> (r: Vec<Vec<char>>)
        ensures
            texts_of(r@) == self.entries(delimiter),
    {
        if !self.started {
            let r: Vec<Vec<char>> = Vec::new();
            proof {
                assert(texts_of(r@) =~= Seq::<Seq<char>>::empty());
            }
            r
        } else {
            split_chars(&self.text, delimiter)
        }
    }

    /// How many entries the corpus holds under the given delimiter.
    pub fn count(&self, delimiter: char) -> (r: usize)
        ensures
            r == self.entries(delimiter).len(),
    {
        let parts = self.split(delimiter);
        proof {
            assert(texts_of(parts@).len() == parts@.len());
        }
        parts.len()
    }

    /// Resolves an original index against the live corpus: the entry at
    /// that position, or nothing if the index lies beyond the entries.
    pub fn entry_at(&self, index: usize, delimiter: char) -> (r: Option<Vec<char>>)
        ensures
            match r {
                Some(v) => index < self.entries(delimiter).len()
                    && v@ == self.entries(delimiter)[index as int],
                None => index >= self.entries(delimiter).len(),
            },
    {
        let mut parts = self.split(delimiter);
        proof {
            assert(texts_of(parts@).len() == parts@.len());
        }
        if index < parts.len() {
            let v = parts.swap_remove(index);
            Some(v)
        } else {
            None
        }
    }

    /// An independent copy for a ranking job to read while the live corpus
    /// keeps growing.
    pub fn snapshot(&self) -> (r: Corpus)
        ensures
            r.wf() == self.wf(),
            r.has_input() == self.has_input(),
            r.buffer() == self.buffer(),
            forall|d: char| r.entries(d) == self.entries(d),
    {
        let text = self.text.clone();
        proof {
            assert(text@ =~= self.text@);
        }
        Corpus { text, started: self.started }
    }
}

} // verus!
