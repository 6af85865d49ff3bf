//! A cursor over one line of a source text.
//!
//! A `ProgramLine` holds the line and how far it has been read. What is
//! left to read is its view.

use crate::text::{
    char_is_whitespace, contains_char, is_comment_or_empty, is_whitespace, lemma_prefix_len,
    lemma_starts_with_concat, prefix_len, starts_comment, starts_with, starts_with_at, to_chars,
    to_string, trim_start,
};
use vstd::prelude::*;
use vstd::std_specs::convert::FromSpecImpl;

verus! {

/// One line of a source text, read from left to right.
#[derive(Debug)]
pub struct ProgramLine {
    line: Vec<char>,
    pos: usize,
}

/// What a line holds, judged by how it begins.
#[derive(Clone, Copy, Debug, PartialEq, Eq, Structural)]
pub enum LineType {
    /// The line begins with `@`.
    AInstruction,
    /// The line begins with anything else that is no comment.
    CInstruction,
    /// The line begins with `(`.
    Label,
    /// The line is empty or begins a comment.
    Other,
}

impl View for ProgramLine {
    type V = Seq<char>;

    /// What is left to read.
    closed spec fn view(&self) -> Seq<char> {
        self.line@.skip(self.pos as int)
    }
}

/// The kind of a line of which `rest` is left.
pub open spec fn line_type_of(rest: Seq<char>) -> LineType {
    if starts_comment(rest) || rest.len() == 0 {
        LineType::Other
    } else if rest[0] == '@' {
        LineType::AInstruction
    } else if rest[0] == '(' {
        LineType::Label
    } else {
        LineType::CInstruction
    }
}

/// The views of a list of texts.
pub open spec fn views_of(texts: Seq<&str>) -> Seq<Seq<char>> {
    Seq::new(texts.len(), |i: int| texts[i]@)
}

/// The longest of `options` that is not empty and with which, followed by
/// `followed_by`, `rest` begins; of several of that length the first. Empty
/// where there is none.
pub open spec fn longest_match_of(
    rest: Seq<char>,
    options: Seq<Seq<char>>,
    followed_by: Seq<char>,
) -> Seq<char>
    decreases options.len(),
{
    if options.len() == 0 {
        Seq::empty()
    } else {
        let best = longest_match_of(rest, options.drop_last(), followed_by);
        let option = options.last();
        if starts_with(rest, option + followed_by) && option.len() > best.len() {
            option
        } else {
            best
        }
    }
}

/// How many characters at the start of `rest` occur in `valid`.
pub open spec fn valid_len(rest: Seq<char>, valid: Seq<char>) -> nat {
    prefix_len(rest, |c: char| valid.contains(c))
}

impl ProgramLine {
    /// The cursor never leaves the line.
    #[verifier::type_invariant]
    closed spec fn within_line(self) -> bool {
        self.pos <= self.line.len()
    }

    /// The whole line, read or not.
    pub closed spec fn line_text(&self) -> Seq<char> {
        self.line@
    }

    /// A cursor over `line`, set behind the white space at its start.
    pub fn new(line: Vec<char>) -> (result: Self)
        ensures
            result.line_text() == line@,
            result@ == trim_start(line@),
    {
        let mut pos: usize = 0;
        while pos < line.len() && char_is_whitespace(line[pos])
            invariant
                pos <= line.len(),
                forall|i: int| 0 <= i < pos ==> is_whitespace(#[trigger] line@[i]),
            decreases line.len() - pos,
        {
            pos += 1;
        }
        proof {
            lemma_prefix_len(line@, |c: char| is_whitespace(c), pos as int);
        }
        ProgramLine { line, pos }
    }

    /// What kind of line this is, judged by the first character left.
    pub fn line_type(&self) -> (result: LineType)
        ensures
            result == line_type_of(self@),
    {
        proof {
            use_type_invariant(self);
        }
        let left = self.line.len() - self.pos;
        if left >= 2 && self.line[self.pos] == '/' && self.line[self.pos + 1] == '/' {
            return LineType::Other;
        }
        if left == 0 {
            return LineType::Other;
        }
        let c = self.line[self.pos];
        if c == '@' {
            LineType::AInstruction
        } else if c == '(' {
            LineType::Label
        } else {
            LineType::CInstruction
        }
    }

    /// The longest of `options` with which, followed by `followed_by`, the
    /// rest begins. Reads nothing.
    fn longest_match<'b>(&self, options: &[&'b str], followed_by: &str) -> (result: &'b str)
        ensures
            result@ == longest_match_of(self@, views_of(options@), followed_by@),
    {
        proof {
            use_type_invariant(self);
        }
        let follow = to_chars(followed_by);
        let mut longest_len: usize = 0;
        let mut longest_str: &'b str = "";
        proof {
            reveal_strlit("");
            assert(views_of(options@).take(0) =~= Seq::<Seq<char>>::empty());
        }
        let mut i: usize = 0;
        while i < options.len()
            invariant
                i <= options.len(),
                self.pos <= self.line.len(),
                follow@ == followed_by@,
                longest_len == longest_str@.len(),
                longest_str@ == longest_match_of(
                    self@,
                    views_of(options@).take(i as int),
                    followed_by@,
                ),
            decreases options.len() - i,
        {
            let option = options[i];
            let chars = to_chars(option);
            proof {
                let seen = views_of(options@).take(i + 1);
                assert(seen.drop_last() =~= views_of(options@).take(i as int));
                assert(seen.last() == option@);
                lemma_starts_with_concat(self@, option@, followed_by@);
            }
            if chars.len() > longest_len && starts_with_at(&self.line, self.pos, &chars) {
                assert(self.line@.skip(self.pos as int).skip(chars.len() as int)
                    =~= self.line@.skip(self.pos + chars.len()));
                if starts_with_at(&self.line, self.pos + chars.len(), &follow) {
                    longest_len = chars.len();
                    longest_str = option;
                }
            }
            i += 1;
        }
        assert(views_of(options@).take(options.len() as int) =~= views_of(options@));
        longest_str
    }

    /// Reads `prefix` where the rest begins with it, and nothing otherwise.
    pub fn consume(&mut self, prefix: &str)
        ensures
            final(self).line_text() == old(self).line_text(),
            final(self)@ == if starts_with(old(self)@, prefix@) {
                old(self)@.skip(prefix@.len() as int)
            } else {
                old(self)@
            },
    {
        proof {
            use_type_invariant(&*self);
        }
        let chars = to_chars(prefix);
        if starts_with_at(&self.line, self.pos, &chars) {
            self.advance(chars.len());
        }
    }

    /// Reads the longest of `prefixes` with which, followed by
    /// `followed_by`, the rest begins, and `followed_by` after it. Returns
    /// that prefix, or the empty text, having read nothing, where there is
    /// none.
    pub fn take_longest_prefix<'b>(&mut self, prefixes: &[&'b str], followed_by: &str) -> (result:
        &'b str)
        ensures
            final(self).line_text() == old(self).line_text(),
            result@ == longest_match_of(old(self)@, views_of(prefixes@), followed_by@),
            final(self)@ == if result@.len() > 0 {
                old(self)@.skip((result@.len() + followed_by@.len()) as int)
            } else {
                old(self)@
            },
    {
        let longest = self.longest_match(prefixes, followed_by);
        let taken = to_chars(longest);
        if taken.len() > 0 {
            let follow = to_chars(followed_by);
            proof {
                use_type_invariant(&*self);
                lemma_longest_match_matches(self@, views_of(prefixes@), followed_by@);
                assert((longest@ + followed_by@).len() <= self@.len());
            }
            self.advance(taken.len() + follow.len());
        }
        longest
    }

    /// Reads the characters at the start of the rest that occur in `valid`,
    /// and returns them.
    pub fn take_valid(&mut self, valid: &str) -> (result: String)
        ensures
            final(self).line_text() == old(self).line_text(),
            result@ == old(self)@.take(valid_len(old(self)@, valid@) as int),
            final(self)@ == old(self)@.skip(valid_len(old(self)@, valid@) as int),
    {
        proof {
            use_type_invariant(&*self);
        }
        let set = to_chars(valid);
        let start = self.pos;
        let mut end: usize = start;
        while end < self.line.len() && contains_char(&set, self.line[end])
            invariant
                start <= end <= self.line.len(),
                start == self.pos,
                set@ == valid@,
                forall|i: int| start <= i < end ==> valid@.contains(#[trigger] self.line@[i]),
            decreases self.line.len() - end,
        {
            end += 1;
        }
        proof {
            lemma_prefix_len(self@, |c: char| valid@.contains(c), end - start);
        }
        self.take(end - start)
    }

    /// Whether nothing but white space and, at most, a comment is left.
    pub fn rest_is_comment_or_empty(&self) -> (result: bool)
        ensures
            result == is_comment_or_empty(self@),
    {
        proof {
            use_type_invariant(self);
        }
        let mut i: usize = self.pos;
        while i < self.line.len() && char_is_whitespace(self.line[i])
            invariant
                self.pos <= i <= self.line.len(),
                forall|j: int| self.pos <= j < i ==> is_whitespace(#[trigger] self.line@[j]),
            decreases self.line.len() - i,
        {
            i += 1;
        }
        proof {
            lemma_prefix_len(self@, |c: char| is_whitespace(c), i - self.pos);
            assert(trim_start(self@) =~= self.line@.skip(i as int));
        }
        let left = self.line.len() - i;
        left == 0 || (left >= 2 && self.line[i] == '/' && self.line[i + 1] == '/')
    }

    /// The first character left, if there is one. Reads nothing.
    pub fn peek(&self) -> (result: Option<char>)
        ensures
            result == if self@.len() > 0 {
                Some(self@[0])
            } else {
                None
            },
    {
        proof {
            use_type_invariant(self);
        }
        if self.pos < self.line.len() {
            Some(self.line[self.pos])
        } else {
            None
        }
    }

    /// The character that stands `offset` characters behind the first one
    /// left, if there is one. Reads nothing.
    pub fn peek_at(&self, offset: usize) -> (result: Option<char>)
        ensures
            self@.len() <= usize::MAX,
            result == if offset < self@.len() {
                Some(self@[offset as int])
            } else {
                None
            },
    {
        proof {
            use_type_invariant(self);
        }
        if offset < self.line.len() - self.pos {
            Some(self.line[self.pos + offset])
        } else {
            None
        }
    }

    /// Reads `count` characters and returns them.
    pub fn take(&mut self, count: usize) -> (result: String)
        requires
            count <= old(self)@.len(),
        ensures
            final(self).line_text() == old(self).line_text(),
            result@ == old(self)@.take(count as int),
            final(self)@ == old(self)@.skip(count as int),
    {
        proof {
            use_type_invariant(&*self);
            assert(self@.take(count as int) =~= self.line@.subrange(
                self.pos as int,
                self.pos + count,
            ));
        }
        let result = to_string(&self.line, self.pos, self.pos + count);
        self.advance(count);
        result
    }

    /// Reads `by` characters.
    pub fn advance(&mut self, by: usize)
        requires
            by <= old(self)@.len(),
        ensures
            final(self).line_text() == old(self).line_text(),
            final(self)@ == old(self)@.skip(by as int),
    {
        proof {
            use_type_invariant(&*self);
            assert(self.line@.skip(self.pos as int).skip(by as int) =~= self.line@.skip(
                self.pos + by,
            ));
        }
        self.pos = self.pos + by;
    }

    /// What is left to read, as a string.
    pub fn rest(&self) -> (result: String)
        ensures
            result@ == self@,
    {
        proof {
            use_type_invariant(self);
        }
        to_string(&self.line, self.pos, self.line.len())
    }

    /// The whole line, as a string.
    pub fn line(&self) -> (result: String)
        ensures
            result@ == self.line_text(),
    {
        assert(self.line@.subrange(0, self.line.len() as int) =~= self.line@);
        to_string(&self.line, 0, self.line.len())
    }
}

/// What [`longest_match_of`] returns is empty or one of the options, and the
/// rest begins with it and what must follow.
pub proof fn lemma_longest_match_matches(
    rest: Seq<char>,
    options: Seq<Seq<char>>,
    followed_by: Seq<char>,
)
    ensures
        ({
            let best = longest_match_of(rest, options, followed_by);
            best.len() > 0 ==> options.contains(best) && starts_with(rest, best + followed_by)
        }),
    decreases options.len(),
{
    if options.len() > 0 {
        lemma_longest_match_matches(rest, options.drop_last(), followed_by);
        let best = longest_match_of(rest, options, followed_by);
        let before = longest_match_of(rest, options.drop_last(), followed_by);
        if best.len() > 0 {
            if best == before {
                let i = choose|i: int| 0 <= i < options.drop_last().len() && options.drop_last()[i] == best;
                assert(options[i] == best);
            } else {
                assert(options[options.len() - 1] == best);
            }
        }
    }
}

impl<'a> FromSpecImpl<&'a str> for ProgramLine {
    open spec fn obeys_from_spec() -> bool {
        false
    }

    open spec fn from_spec(v: &'a str) -> Self {
        arbitrary()
    }
}

impl<'a> From<&'a str> for ProgramLine {
    /// A cursor over the line `val`, set behind the white space at its start.
    fn from(val: &'a str) -> (result: Self)
        ensures
            result.line_text() == val@,
            result@ == trim_start(val@),
    {
        ProgramLine::new(to_chars(val))
    }
}

} // verus!
