//! A text accumulator that breaks lines so that none grows past a given width.

use vstd::prelude::*;
use vstd::string::*;
use vstd::utf8::encode_utf8;

verus! {

/// The width that `word` takes on a line: the number of bytes that encode it.
pub open spec fn width_of(word: Seq<char>) -> nat {
    encode_utf8(word).len()
}

/// The text after `word` has been added to `text`, whose last line holds
/// `column` bytes, under the line limit `limit`.
///
/// A word that opens a line is added as it is. Otherwise it follows a single
/// space, unless the line would then be longer than `limit`: in that case the
/// word opens a new line.
pub open spec fn text_after_append(
    text: Seq<char>,
    column: nat,
    limit: nat,
    word: Seq<char>,
) -> Seq<char> {
    if column == 0 {
        text + word
    } else if column + width_of(word) + 1 > limit {
        text + seq!['\n'] + word
    } else {
        text + seq![' '] + word
    }
}

/// The width of the last line after `word` has been added.
pub open spec fn column_after_append(column: nat, limit: nat, word: Seq<char>) -> nat {
    if column == 0 || column + width_of(word) + 1 > limit {
        width_of(word)
    } else {
        column + width_of(word) + 1
    }
}

/// Accumulates words into lines of bounded width.
pub struct WrappingStringBuilder {
    max_width: usize,
    curr_width: usize,
    s: String,
}

impl WrappingStringBuilder {
    /// Everything written so far.
    pub closed spec fn text(&self) -> Seq<char> {
        self.s@
    }

    /// The width of the line that is being written.
    pub closed spec fn column(&self) -> nat {
        self.curr_width as nat
    }

    /// The width that a line may reach before a word is moved to the next one.
    pub closed spec fn limit(&self) -> nat {
        self.max_width as nat
    }

    /// An empty builder whose lines hold at most `max_width` bytes.
    pub fn new(max_width: usize) -> (b: Self)
        ensures
            b.text() == Seq::<char>::empty(),
            b.column() == 0,
            b.limit() == max_width,
    {
        WrappingStringBuilder { max_width, curr_width: 0, s: String::new() }
    }

    /// Ends the current line.
    pub fn newline(&mut self)
        ensures
            final(self).text() == old(self).text() + seq!['\n'],
            final(self).column() == 0,
            final(self).limit() == old(self).limit(),
    {
        proof {
            reveal_strlit("\n");
            assert("\n"@ =~= seq!['\n']);
        }
        self.s.append("\n");
        self.curr_width = 0;
    }

    /// Adds `s` to the current line, or to a new one where the current line
    /// has no room left for it.
    pub fn append(&mut self, s: &str)
        ensures
            final(self).text() == text_after_append(
                old(self).text(),
                old(self).column(),
                old(self).limit(),
                s@,
            ),
            final(self).column() == column_after_append(old(self).column(), old(self).limit(), s@),
            final(self).limit() == old(self).limit(),
    {
        let w0: usize = self.curr_width;
        let ws: usize = s.as_bytes().len();
        if w0 == 0 {
            self.s.append(s);
            self.curr_width = ws;
            return ;
        }
        if ws >= self.max_width || w0 >= self.max_width - ws {
            self.newline();
            self.s.append(s);
            self.curr_width = ws;
            return ;
        }
        proof {
            reveal_strlit(" ");
            assert(" "@ =~= seq![' ']);
        }
        self.s.append(" ");
        self.s.append(s);
        self.curr_width = w0 + ws + 1;
    }

    /// Adds `s` as `append` does, then ends the line.
    pub fn append_line(&mut self, s: &str)
        ensures
            final(self).text() == text_after_append(
                old(self).text(),
                old(self).column(),
                old(self).limit(),
                s@,
            ) + seq!['\n'],
            final(self).column() == 0,
            final(self).limit() == old(self).limit(),
    {
        self.append(s);
        self.newline();
    }

    /// Hands out the accumulated text.
    pub fn into_string(self) -> (text: String)
        ensures
            text@ == self.text(),
    {
        self.s
    }
}

/// A line never grows past the limit as long as no single word does.
pub proof fn lemma_append_keeps_line_within_limit(column: nat, limit: nat, word: Seq<char>)
    requires
        column <= limit,
        width_of(word) <= limit,
    ensures
        column_after_append(column, limit, word) <= limit,
{
}

} // verus!
