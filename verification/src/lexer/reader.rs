use vstd::prelude::*;
use crate::text::{
    byte_len, byte_length, byte_offset, chars_of, lemma_byte_offset_monotone,
    lemma_byte_offset_step, utf8_width,
};

verus! {

/// How many line feeds `cs` holds.
pub open spec fn newlines(cs: Seq<char>) -> nat
    decreases cs.len(),
{
    if cs.len() == 0 {
        0
    } else {
        newlines(cs.drop_last()) + if cs.last() == '\n' {
            1nat
        } else {
            0nat
        }
    }
}

/// A line count never exceeds the number of characters.
pub proof fn lemma_newlines_bound(cs: Seq<char>)
    ensures
        newlines(cs) <= cs.len(),
    decreases cs.len(),
{
    if cs.len() > 0 {
        lemma_newlines_bound(cs.drop_last());
    }
}

/// A forward-only cursor over the characters of a source text.
///
/// `start` and `cursor` are byte offsets into the text: `start` is where the token being read
/// begins, `cursor` is where the next unread character begins. `line` is the line, counted from
/// one, on which the next unread character stands.
pub struct Reader<'de> {
    source: &'de str,
    chars: Vec<char>,
    position: usize,
    token_position: usize,
    pub start: usize,
    pub cursor: usize,
    pub line: usize,
}

impl<'de> Reader<'de> {
    /// The text being read.
    pub closed spec fn text(&self) -> Seq<char> {
        self.source@
    }

    /// The index, in characters, of the next unread character.
    pub closed spec fn index(&self) -> int {
        self.position as int
    }

    /// The index, in characters, at which the token being read begins.
    pub closed spec fn start_index(&self) -> int {
        self.token_position as int
    }

    /// The byte offset at which the token being read begins.
    pub closed spec fn start_at(&self) -> usize {
        self.start
    }

    /// The byte offset of the next unread character.
    pub closed spec fn cursor_at(&self) -> usize {
        self.cursor
    }

    /// The line of the next unread character.
    pub closed spec fn line_at(&self) -> usize {
        self.line
    }

    /// The reader's fields agree with each other and with the text.
    pub closed spec fn wf(&self) -> bool {
        &&& self.text().len() < usize::MAX
        &&& self.chars@ == self.source@
        &&& byte_len(self.text()) <= usize::MAX
        &&& self.index() <= self.text().len()
        &&& 0 <= self.start_index() <= self.index()
        &&& self.start == byte_offset(self.text(), self.start_index())
        &&& self.cursor == byte_offset(self.text(), self.index())
        &&& self.line == 1 + newlines(self.text().take(self.index()))
    }

    /// What `wf` says of the public fields.
    pub proof fn lemma_wf(&self)
        requires
            self.wf(),
        ensures
            0 <= self.start_index() <= self.index() <= self.text().len(),
            self.text().len() < usize::MAX,
            self.start_at() == byte_offset(self.text(), self.start_index()),
            self.cursor_at() == byte_offset(self.text(), self.index()),
            self.line_at() == 1 + newlines(self.text().take(self.index())),
    {
    }

    /// The byte offset at which the token being read begins.
    pub fn start_offset(&self) -> (at: usize)
        ensures
            at == self.start_at(),
    {
        self.start
    }

    /// The byte offset of the next unread character.
    pub fn cursor_offset(&self) -> (at: usize)
        ensures
            at == self.cursor_at(),
    {
        self.cursor
    }

    /// The line of the next unread character.
    pub fn line_number(&self) -> (line: usize)
        ensures
            line == self.line_at(),
    {
        self.line
    }

    pub fn new(source: &'de str) -> (reader: Reader<'de>)
        requires
            source@.len() < usize::MAX,
        ensures
            reader.wf(),
            reader.text() == source@,
            reader.index() == 0,
            reader.start_index() == 0,
    {
        let chars = chars_of(source);
        let _ = byte_length(source);
        let reader = Reader {
            source,
            chars,
            position: 0,
            token_position: 0,
            start: 0,
            cursor: 0,
            line: 1,
        };
        proof {
            assert(source@.take(0) =~= Seq::<char>::empty());
            reveal_with_fuel(vstd::utf8::encode_utf8, 1);
        }
        reader
    }

    /// The source text.
    pub fn source(&self) -> (s: &'de str)
        ensures
            s@ == self.text(),
    {
        self.source
    }

    /// The next unread character, or `None` at the end of the text. Nothing is consumed.
    pub fn peek(&self) -> (c: Option<char>)
        requires
            self.wf(),
        ensures
            c == if self.index() < self.text().len() {
                Some(self.text()[self.index()])
            } else {
                None
            },
    {
        if self.position < self.chars.len() {
            Some(self.chars[self.position])
        } else {
            None
        }
    }

    /// Consumes and returns the next character, or returns `None` at the end of the text.
    /// A consumed line feed begins a new line.
    pub fn advance(&mut self) -> (c: Option<char>)
        requires
            old(self).wf(),
        ensures
            final(self).wf(),
            final(self).text() == old(self).text(),
            final(self).start_index() == old(self).start_index(),
            old(self).index() < old(self).text().len() ==> c == Some(
                old(self).text()[old(self).index()],
            ) && final(self).index() == old(self).index() + 1,
            old(self).index() >= old(self).text().len() ==> c is None && final(self).index()
                == old(self).index(),
    {
        if self.position >= self.chars.len() {
            return None;
        }
        let c = self.chars[self.position];
        proof {
            let src = self.text();
            let i = self.index();
            lemma_byte_offset_step(src, i);
            lemma_byte_offset_monotone(src, i + 1, src.len() as int);
            assert(src.take(i + 1).drop_last() =~= src.take(i));
            lemma_newlines_bound(src.take(i));
        }
        self.position = self.position + 1;
        self.cursor = self.cursor + utf8_width(c);
        if c == '\n' {
            self.line = self.line + 1;
        }
        Some(c)
    }

    /// Consumes characters for as long as `f` accepts the next one.
    pub fn advance_while<F>(&mut self, f: F) where F: Fn(char) -> bool
        requires
            old(self).wf(),
            forall|c: char| f.requires((c,)),
        ensures
            final(self).wf(),
            final(self).text() == old(self).text(),
            final(self).start_index() == old(self).start_index(),
            old(self).index() <= final(self).index() <= old(self).text().len(),
            forall|k: int|
                old(self).index() <= k < final(self).index() ==> f.ensures(
                    (#[trigger] old(self).text()[k],),
                    true,
                ),
            final(self).index() < old(self).text().len() ==> f.ensures(
                (old(self).text()[final(self).index()],),
                false,
            ),
    {
        loop
            invariant
                self.wf(),
                self.text() == old(self).text(),
                self.start_index() == old(self).start_index(),
                old(self).index() <= self.index() <= old(self).text().len(),
                forall|c: char| f.requires((c,)),
                forall|k: int|
                    old(self).index() <= k < self.index() ==> f.ensures(
                        (#[trigger] old(self).text()[k],),
                        true,
                    ),
            ensures
                self.index() < old(self).text().len() ==> f.ensures(
                    (old(self).text()[self.index()],),
                    false,
                ),
            decreases self.text().len() - self.index(),
        {
            match self.peek() {
                None => {
                    break ;
                },
                Some(c) => {
                    if f(c) {
                        self.advance();
                    } else {
                        break ;
                    }
                },
            }
        }
    }

    /// Marks the current position as the start of the next token.
    pub fn sync(&mut self)
        requires
            old(self).wf(),
        ensures
            final(self).wf(),
            final(self).text() == old(self).text(),
            final(self).index() == old(self).index(),
            final(self).start_index() == old(self).index(),
    {
        self.start = self.cursor;
        self.token_position = self.position;
    }
}

} // verus!
