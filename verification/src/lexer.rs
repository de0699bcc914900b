//! The cursor over the input text: position tracking, white space,
//! literals, keywords, and error construction.

use vstd::prelude::*;
use crate::model::{FileFormat, ParseError, ParseWarning};
use crate::text::{
    char_eq_ci, chars_of, eq_ci, is_alnum_spec, is_alpha_spec, is_ascii_alphabetic,
    is_ascii_alphanumeric, is_whitespace, is_ws_spec, lower_spec, push_char, push_str,
    string_from_range, string_from_str,
};
use crate::values::{split_char, split_char_bounds};

verus! {

/// 1-based line of position `i`.
pub open spec fn line_at(s: Seq<char>, i: int) -> int
    decreases i,
{
    if i <= 0 {
        1
    } else {
        line_at(s, i - 1) + if s[i - 1] == '\n' {
            1int
        } else {
            0int
        }
    }
}

/// 1-based column of position `i`.
pub open spec fn col_at(s: Seq<char>, i: int) -> int
    decreases i,
{
    if i <= 0 {
        1
    } else if s[i - 1] == '\n' {
        1
    } else {
        col_at(s, i - 1) + 1
    }
}

pub proof fn lemma_position_bounds(s: Seq<char>, i: int)
    requires
        0 <= i,
    ensures
        1 <= line_at(s, i) <= i + 1,
        1 <= col_at(s, i) <= i + 1,
    decreases i,
{
    if i > 0 {
        lemma_position_bounds(s, i - 1);
    }
}

/// First position at or after `i` that does not hold white space.
pub open spec fn skip_ws_from(s: Seq<char>, i: int) -> int
    decreases s.len() - i,
{
    if i < 0 || i >= s.len() {
        i
    } else if is_ws_spec(s[i]) {
        skip_ws_from(s, i + 1)
    } else {
        i
    }
}

pub open spec fn is_keyword_start_spec(c: char) -> bool {
    is_alpha_spec(c) || c == '_'
}

pub open spec fn is_keyword_char_spec(c: char) -> bool {
    is_alnum_spec(c) || c == '_'
}

/// First position at or after `i` that does not hold a keyword character.
pub open spec fn keyword_end(s: Seq<char>, i: int) -> int
    decreases s.len() - i,
{
    if i < 0 || i >= s.len() {
        i
    } else if is_keyword_char_spec(s[i]) {
        keyword_end(s, i + 1)
    } else {
        i
    }
}

pub fn is_keyword_start(ch: char) -> (b: bool)
    ensures
        b == is_keyword_start_spec(ch),
{
    is_ascii_alphabetic(ch) || ch == '_'
}

pub fn is_keyword_char(ch: char) -> (b: bool)
    ensures
        b == is_keyword_char_spec(ch),
{
    is_ascii_alphanumeric(ch) || ch == '_'
}

/// `str::lines` on character sequences: split at `\n`, a `\r` before the
/// `\n` dropped, and no empty line after a final `\n`.
pub open spec fn strip_cr(p: Seq<char>) -> Seq<char> {
    if p.len() > 0 && p.last() == '\r' {
        p.drop_last()
    } else {
        p
    }
}

pub open spec fn text_lines(s: Seq<char>) -> Seq<Seq<char>> {
    let pieces = split_char(s, '\n');
    let full = pieces.drop_last().map_values(|p: Seq<char>| strip_cr(p));
    if pieces.last().len() == 0 {
        full
    } else {
        full.push(pieces.last())
    }
}

/// The text of 1-based line `line`, or nothing past the last line.
pub open spec fn snippet_of(s: Seq<char>, line: int) -> Seq<char> {
    if 1 <= line <= text_lines(s).len() {
        text_lines(s)[line - 1]
    } else {
        Seq::empty()
    }
}

pub proof fn lemma_split_char_nonempty(s: Seq<char>, c: char)
    ensures
        split_char(s, c).len() >= 1,
    decreases s.len(),
{
    match crate::values::find_char(s, c, 0) {
        Some(i) => if 0 <= i < s.len() {
            lemma_split_char_nonempty(s.subrange(i + 1, s.len() as int), c);
        },
        None => {},
    }
}

/// Builds the text of line `line` of `s`.
pub fn line_snippet(s: &Vec<char>, line: usize) -> (r: String)
    ensures
        r@ == snippet_of(s@, line as int),
{
    let b = split_char_bounds(s, 0, s.len(), '\n');
    let ghost pieces = split_char(s@.subrange(0, s@.len() as int), '\n');
    assert(s@.subrange(0, s@.len() as int) =~= s@);
    proof {
        lemma_split_char_nonempty(s@, '\n');
    }
    let n = b.len();
    let (llo, lhi) = b[n - 1];
    let last_empty = llo == lhi;
    let count: usize = if last_empty {
        n - 1
    } else {
        n
    };
    assert(text_lines(s@).len() == count);
    if line == 0 || line > count {
        return String::new();
    }
    let (lo, hi) = b[line - 1];
    if line - 1 < n - 1 {
        // a line ended by `\n`
        if hi > lo && s[hi - 1] == '\r' {
            assert(s@.subrange(lo as int, hi - 1) =~= strip_cr(pieces[line - 1]));
            string_from_range(s, lo, hi - 1)
        } else {
            string_from_range(s, lo, hi)
        }
    } else {
        string_from_range(s, lo, hi)
    }
}

#[derive(Clone, Copy)]
pub struct Snapshot {
    pub index: usize,
    pub line: usize,
    pub column: usize,
}

/// The reading state over one input text.
pub struct Parser {
    pub chars: Vec<char>,
    pub index: usize,
    pub line: usize,
    pub column: usize,
    pub format: FileFormat,
    pub strict: bool,
    pub warnings: Vec<ParseWarning>,
}

/// The message of a missing expected character.
pub open spec fn expected_char_message(c: char) -> Seq<char> {
    "Expected '"@.push(c) + "'"@
}

/// `w` holds the given code and message.
pub open spec fn warning_is(w: ParseWarning, code: Seq<char>, message: Seq<char>) -> bool {
    w.code@ == code && w.message@ == message
}

/// Between `old_p` and `new_p` the reader recorded `issues` (code and
/// message): a strict reader nothing, and only when there were none; a
/// lenient one each as a warning, in order, after the warnings it had.
pub open spec fn recorded(old_p: Parser, new_p: Parser, issues: Seq<(Seq<char>, Seq<char>)>) -> bool {
    &&& old_p.strict ==> new_p.warnings@ == old_p.warnings@ && issues.len() == 0
    &&& !old_p.strict ==> {
        &&& new_p.warnings@.len() == old_p.warnings@.len() + issues.len()
        &&& forall|i: int| 0 <= i < old_p.warnings@.len() ==> new_p.warnings@[i] == old_p.warnings@[i]
        &&& forall|i: int|
            0 <= i < issues.len() ==> warning_is(
                #[trigger] new_p.warnings@[old_p.warnings@.len() + i],
                issues[i].0,
                issues[i].1,
            )
    }
}

/// A lenient reader that records one more warning has recorded one more issue.
pub proof fn lemma_recorded_push(
    start: Parser,
    before: Parser,
    after: Parser,
    issues: Seq<(Seq<char>, Seq<char>)>,
    code: Seq<char>,
    message: Seq<char>,
)
    requires
        !start.strict,
        recorded(start, before, issues),
        after.warnings@.len() == before.warnings@.len() + 1,
        after.warnings@.drop_last() == before.warnings@,
        warning_is(after.warnings@.last(), code, message),
    ensures
        recorded(start, after, issues.push((code, message))),
{
    let n = start.warnings@.len();
    assert forall|i: int| 0 <= i < n implies after.warnings@[i] == start.warnings@[i] by {
        assert(after.warnings@.drop_last()[i] == after.warnings@[i]);
    }
    assert forall|i: int| 0 <= i < issues.push((code, message)).len() implies warning_is(
        #[trigger] after.warnings@[n + i],
        issues.push((code, message))[i].0,
        issues.push((code, message))[i].1,
    ) by {
        if i < issues.len() {
            assert(after.warnings@.drop_last()[n + i] == after.warnings@[n + i]);
        }
    }
}

/// A check that raises `issues` ran between `old_p` and `new_p`: a strict
/// reader fails on the first of them with an error at the current position
/// and records nothing; a lenient one succeeds and records each as a
/// warning, in order.
pub open spec fn raises(
    old_p: Parser,
    new_p: Parser,
    r: Result<(), ParseError>,
    issues: Seq<(Seq<char>, Seq<char>)>,
) -> bool {
    &&& old_p.same_source(&new_p)
    &&& new_p.index == old_p.index
    &&& new_p.line == old_p.line
    &&& new_p.column == old_p.column
    &&& old_p.strict ==> {
        &&& new_p.warnings@ == old_p.warnings@
        &&& r is Err <==> issues.len() > 0
        &&& r matches Err(e) ==> old_p.error_here_is(e, issues[0].1)
    }
    &&& !old_p.strict ==> r is Ok && recorded(old_p, new_p, issues)
}

/// Recordings run one after the other add up.
pub proof fn lemma_recorded_chain(
    a: Parser,
    b: Parser,
    c: Parser,
    first: Seq<(Seq<char>, Seq<char>)>,
    second: Seq<(Seq<char>, Seq<char>)>,
)
    requires
        a.strict == b.strict,
        recorded(a, b, first),
        recorded(b, c, second),
    ensures
        recorded(a, c, first + second),
{
    if !a.strict {
        let n = a.warnings@.len();
        let m = b.warnings@.len();
        assert forall|i: int| 0 <= i < (first + second).len() implies warning_is(
            #[trigger] c.warnings@[n + i],
            (first + second)[i].0,
            (first + second)[i].1,
        ) by {
            if i < first.len() {
                assert(b.warnings@[n + i] == c.warnings@[n + i]);
            } else {
                assert(n + i == m + (i - first.len()));
            }
        }
    } else {
        assert(first + second =~= Seq::<(Seq<char>, Seq<char>)>::empty());
    }
}

/// After checks that recorded `done`, a check that raises `now` and fails
/// ends the run: the whole run raises `done`, `now`, then whatever the
/// checks not run would have raised; one that succeeds has recorded more.
pub proof fn lemma_raises_after(
    start: Parser,
    mid: Parser,
    end: Parser,
    r: Result<(), ParseError>,
    done: Seq<(Seq<char>, Seq<char>)>,
    now: Seq<(Seq<char>, Seq<char>)>,
    rest: Seq<(Seq<char>, Seq<char>)>,
)
    requires
        start.same_source(&mid),
        mid.index == start.index,
        mid.line == start.line,
        mid.column == start.column,
        recorded(start, mid, done),
        raises(mid, end, r, now),
    ensures
        r is Ok ==> recorded(start, end, done + now),
        r is Err ==> raises(start, end, r, done + now + rest),
{
    if r is Ok {
        lemma_recorded_chain(start, mid, end, done, now);
    } else {
        assert(start.strict);
        assert(done + now + rest =~= now + rest);
    }
}

/// The next check of a run raises `now`, before the checks that raise
/// `rest`: a failure ends the run with all of `total` raised; a success
/// records `now` and leaves `rest` to come.
pub proof fn lemma_raises_step(
    start: Parser,
    mid: Parser,
    end: Parser,
    r: Result<(), ParseError>,
    done: Seq<(Seq<char>, Seq<char>)>,
    now: Seq<(Seq<char>, Seq<char>)>,
    rest: Seq<(Seq<char>, Seq<char>)>,
    total: Seq<(Seq<char>, Seq<char>)>,
)
    requires
        start.same_source(&mid),
        mid.index == start.index,
        mid.line == start.line,
        mid.column == start.column,
        recorded(start, mid, done),
        raises(mid, end, r, now),
        total == done + (now + rest),
    ensures
        r is Err ==> raises(start, end, r, total),
        r is Ok ==> recorded(start, end, done + now),
        r is Ok ==> total == (done + now) + rest,
{
    lemma_raises_after(start, mid, end, r, done, now, rest);
    assert(done + (now + rest) =~= done + now + rest);
}

/// Checks that recorded `done`, a strict run only when there was nothing
/// to record, raise `done`.
pub proof fn lemma_raises_done(start: Parser, end: Parser, done: Seq<(Seq<char>, Seq<char>)>)
    requires
        start.same_source(&end),
        end.index == start.index,
        end.line == start.line,
        end.column == start.column,
        recorded(start, end, done),
    ensures
        raises(start, end, Ok(()), done),
{
}

impl Parser {
    /// The position is inside the text and line/column describe it.
    pub open spec fn wf(&self) -> bool {
        &&& self.chars@.len() < usize::MAX
        &&& self.index <= self.chars@.len()
        &&& self.line == line_at(self.chars@, self.index as int)
        &&& self.column == col_at(self.chars@, self.index as int)
    }

    /// `new` reads the same text, in the same format and mode, as `self`.
    pub open spec fn same_source(&self, new: &Parser) -> bool {
        &&& new.chars@ == self.chars@
        &&& new.format == self.format
        &&& new.strict == self.strict
    }

    /// `new` has kept every warning of `self`, in order.
    pub open spec fn keeps_warnings(&self, new: &Parser) -> bool {
        &&& new.warnings@.len() >= self.warnings@.len()
        &&& forall|i: int| 0 <= i < self.warnings@.len() ==> new.warnings@[i] == self.warnings@[i]
    }

    /// A strict reader records no warning between `self` and `new`.
    pub open spec fn quiet_if_strict(&self, new: &Parser) -> bool {
        self.strict ==> new.warnings@ == self.warnings@
    }

    /// A reader of a Part 21 file records no warning between `self` and `new`.
    pub open spec fn quiet_for_p21(&self, new: &Parser) -> bool {
        self.format == FileFormat::P21 ==> new.warnings@ == self.warnings@
    }

    /// The error `e` reports the current position.
    pub open spec fn error_here_is(&self, e: ParseError, message: Seq<char>) -> bool {
        &&& e.message@ == message
        &&& e.line == self.line
        &&& e.column == self.column
        &&& e.snippet@ == snippet_of(self.chars@, self.line as int)
    }

    pub open spec fn peek_spec(&self) -> Option<char> {
        if self.index < self.chars@.len() {
            Some(self.chars@[self.index as int])
        } else {
            None
        }
    }

    pub fn new(input: &str, format: FileFormat, strict: bool) -> (p: Parser)
        requires
            input@.len() < usize::MAX,
        ensures
            p.wf(),
            p.chars@ == input@,
            p.index == 0,
            p.format == format,
            p.strict == strict,
            p.warnings@.len() == 0,
    {
        Parser {
            chars: chars_of(input),
            index: 0,
            line: 1,
            column: 1,
            format,
            strict,
            warnings: Vec::new(),
        }
    }

    pub fn is_eof(&self) -> (b: bool)
        ensures
            b == (self.index >= self.chars@.len()),
    {
        self.index >= self.chars.len()
    }

    pub fn peek_char(&self) -> (r: Option<char>)
        ensures
            r == self.peek_spec(),
    {
        if self.index < self.chars.len() {
            Some(self.chars[self.index])
        } else {
            None
        }
    }

    pub fn peek_next_char(&self) -> (r: Option<char>)
        requires
            self.wf(),
        ensures
            r == (if self.index + 1 < self.chars@.len() {
                Some(self.chars@[self.index + 1])
            } else {
                None::<char>
            }),
    {
        if self.index + 1 < self.chars.len() {
            Some(self.chars[self.index + 1])
        } else {
            None
        }
    }

    /// The first character at or after `index + offset` that is not white space.
    pub fn peek_following_non_ws_char(&self, offset: usize) -> (r: Option<char>)
        requires
            self.wf(),
            offset <= 1,
        ensures
            ({
                let j = skip_ws_from(self.chars@, self.index + offset);
                r == (if j < self.chars@.len() {
                    Some(self.chars@[j])
                } else {
                    None::<char>
                })
            }),
    {
        let mut idx: usize = self.index + offset;
        while idx < self.chars.len() && is_whitespace(self.chars[idx])
            invariant
                self.index + offset <= idx,
                skip_ws_from(self.chars@, self.index + offset) == skip_ws_from(
                    self.chars@,
                    idx as int,
                ),
            decreases self.chars@.len() - idx,
        {
            idx = idx + 1;
        }
        if idx < self.chars.len() {
            Some(self.chars[idx])
        } else {
            None
        }
    }

    pub fn advance_char(&mut self)
        requires
            old(self).wf(),
        ensures
            final(self).wf(),
            old(self).same_source(&*final(self)),
            final(self).warnings@ == old(self).warnings@,
            final(self).index == (if old(self).index < old(self).chars@.len() {
                old(self).index + 1
            } else {
                old(self).index as int
            }),
    {
        if self.index < self.chars.len() {
            let ch = self.chars[self.index];
            proof {
                lemma_position_bounds(self.chars@, self.index + 1);
            }
            self.index = self.index + 1;
            if ch == '\n' {
                self.line = self.line + 1;
                self.column = 1;
            } else {
                self.column = self.column + 1;
            }
        }
    }

    pub fn snapshot(&self) -> (s: Snapshot)
        ensures
            s.index == self.index,
            s.line == self.line,
            s.column == self.column,
    {
        Snapshot { index: self.index, line: self.line, column: self.column }
    }

    pub fn restore(&mut self, snapshot: Snapshot)
        ensures
            final(self).index == snapshot.index,
            final(self).line == snapshot.line,
            final(self).column == snapshot.column,
            old(self).same_source(&*final(self)),
            final(self).warnings@ == old(self).warnings@,
    {
        self.index = snapshot.index;
        self.line = snapshot.line;
        self.column = snapshot.column;
    }

    pub fn skip_ws(&mut self)
        requires
            old(self).wf(),
        ensures
            final(self).wf(),
            old(self).same_source(&*final(self)),
            final(self).warnings@ == old(self).warnings@,
            final(self).index == skip_ws_from(old(self).chars@, old(self).index as int),
            old(self).index <= final(self).index,
    {
        proof {
            lemma_skip_ws_idem(self.chars@, self.index as int);
        }
        while self.index < self.chars.len() && is_whitespace(self.chars[self.index])
            invariant
                self.wf(),
                old(self).same_source(&*self),
                self.warnings@ == old(self).warnings@,
                skip_ws_from(old(self).chars@, old(self).index as int) == skip_ws_from(
                    self.chars@,
                    self.index as int,
                ),
            decreases self.chars@.len() - self.index,
        {
            self.advance_char();
        }
    }

    pub fn try_consume_char(&mut self, expected: char) -> (b: bool)
        requires
            old(self).wf(),
        ensures
            final(self).wf(),
            old(self).same_source(&*final(self)),
            final(self).warnings@ == old(self).warnings@,
            b == (old(self).peek_spec() == Some(expected)),
            final(self).index == (if b {
                old(self).index + 1
            } else {
                old(self).index as int
            }),
    {
        if self.peek_char() == Some(expected) {
            self.advance_char();
            true
        } else {
            false
        }
    }

    pub fn current_line_snippet(&self) -> (r: String)
        ensures
            r@ == snippet_of(self.chars@, self.line as int),
    {
        line_snippet(&self.chars, self.line)
    }

    pub fn error_here(&self, message: String) -> (e: ParseError)
        ensures
            self.error_here_is(e, message@),
    {
        ParseError::new(message, self.line, self.column, self.current_line_snippet())
    }

    pub fn error_at(&self, snapshot: Snapshot, message: String) -> (e: ParseError)
        ensures
            e.message@ == message@,
            e.line == snapshot.line,
            e.column == snapshot.column,
            e.snippet@ == snippet_of(self.chars@, snapshot.line as int),
    {
        ParseError::new(message, snapshot.line, snapshot.column, line_snippet(&self.chars, snapshot.line))
    }

    pub fn consume_char(&mut self, expected: char) -> (r: Result<(), ParseError>)
        requires
            old(self).wf(),
        ensures
            final(self).wf(),
            old(self).same_source(&*final(self)),
            final(self).warnings@ == old(self).warnings@,
            r is Ok <==> old(self).peek_spec() == Some(expected),
            r is Ok ==> final(self).index == old(self).index + 1,
            r matches Err(e) ==> final(self).index == old(self).index && old(self).error_here_is(
                e,
                expected_char_message(expected),
            ),
    {
        if self.peek_char() == Some(expected) {
            self.advance_char();
            Ok(())
        } else {
            let mut m = string_from_str("Expected '");
            push_char(&mut m, expected);
            push_str(&mut m, "'");
            Err(self.error_here(m))
        }
    }

    pub fn push_warning(&mut self, code: &str, message: String)
        ensures
            old(self).same_source(&*final(self)),
            final(self).index == old(self).index,
            final(self).line == old(self).line,
            final(self).column == old(self).column,
            final(self).warnings@.len() == old(self).warnings@.len() + 1,
            final(self).warnings@.drop_last() == old(self).warnings@,
            warning_is(final(self).warnings@.last(), code@, message@),
    {
        self.warnings.push(ParseWarning { code: string_from_str(code), message });
        assert(self.warnings@.drop_last() =~= old(self).warnings@);
    }

    /// A strict reader fails with `message` at the current position; a lenient
    /// one records it as a warning with `code` and goes on.
    pub fn issue_or_error(&mut self, code: &str, message: String) -> (r: Result<(), ParseError>)
        ensures
            old(self).same_source(&*final(self)),
            final(self).index == old(self).index,
            final(self).line == old(self).line,
            final(self).column == old(self).column,
            old(self).strict ==> (r matches Err(e) && old(self).error_here_is(e, message@)
                && final(self).warnings@ == old(self).warnings@),
            !old(self).strict ==> r is Ok && final(self).warnings@.len() == old(
                self,
            ).warnings@.len() + 1 && final(self).warnings@.drop_last() == old(self).warnings@
                && warning_is(final(self).warnings@.last(), code@, message@),
            raises(*old(self), *final(self), r, seq![(code@, message@)]),
    {
        let ghost start = *self;
        let ghost text = message@;
        if self.strict {
            return Err(self.error_here(message));
        }
        self.push_warning(code, message);
        proof {
            lemma_recorded_push(start, start, *self, Seq::empty(), code@, text);
        }
        Ok(())
    }

    /// Advances over `n` characters.
    fn advance_n(&mut self, n: usize)
        requires
            old(self).wf(),
            old(self).index + n <= old(self).chars@.len(),
        ensures
            final(self).wf(),
            old(self).same_source(&*final(self)),
            final(self).warnings@ == old(self).warnings@,
            final(self).index == old(self).index + n,
    {
        let mut k: usize = 0;
        while k < n
            invariant
                self.wf(),
                old(self).same_source(&*self),
                self.warnings@ == old(self).warnings@,
                k <= n,
                self.index == old(self).index + k,
                old(self).index + n <= old(self).chars@.len(),
            decreases n - k,
        {
            self.advance_char();
            k = k + 1;
        }
    }

    pub fn try_consume_literal_ci(&mut self, expected: &str) -> (b: bool)
        requires
            old(self).wf(),
        ensures
            final(self).wf(),
            old(self).same_source(&*final(self)),
            final(self).warnings@ == old(self).warnings@,
            b == matches_ci_at(old(self).chars@, old(self).index as int, expected@),
            final(self).index == (if b {
                old(self).index + expected@.len()
            } else {
                old(self).index as int
            }),
    {
        let n = expected.unicode_len();
        if self.chars.len() - self.index < n {
            return false;
        }
        let mut j: usize = 0;
        while j < n
            invariant
                self.wf(),
                n == expected@.len(),
                self.index + n <= self.chars@.len(),
                j <= n,
                forall|q: int|
                    0 <= q < j ==> lower_spec(#[trigger] self.chars@[self.index + q]) == lower_spec(
                        expected@[q],
                    ),
            decreases n - j,
        {
            if !char_eq_ci(self.chars[self.index + j], expected.get_char(j)) {
                return false;
            }
            j = j + 1;
        }
        self.advance_n(n);
        true
    }

    pub fn consume_literal_ci(&mut self, expected: &str) -> (r: Result<(), ParseError>)
        requires
            old(self).wf(),
        ensures
            final(self).wf(),
            old(self).same_source(&*final(self)),
            final(self).warnings@ == old(self).warnings@,
            r is Ok <==> matches_ci_at(old(self).chars@, old(self).index as int, expected@),
            r is Ok ==> final(self).index == old(self).index + expected@.len(),
            r matches Err(e) ==> final(self).index == old(self).index && old(self).error_here_is(
                e,
                "Expected literal "@ + expected@,
            ),
    {
        if self.try_consume_literal_ci(expected) {
            Ok(())
        } else {
            let mut m = string_from_str("Expected literal ");
            push_str(&mut m, expected);
            Err(self.error_here(m))
        }
    }

    /// Moves just past the first case-insensitive occurrence of `expected`,
    /// or to the end when there is none.
    pub fn seek_literal_ci(&mut self, expected: &str) -> (b: bool)
        requires
            old(self).wf(),
        ensures
            final(self).wf(),
            old(self).same_source(&*final(self)),
            final(self).warnings@ == old(self).warnings@,
            b <==> first_match_ci(old(self).chars@, old(self).index as int, expected@) is Some,
            b ==> final(self).index == first_match_ci(
                old(self).chars@,
                old(self).index as int,
                expected@,
            )->0 + expected@.len(),
            !b ==> final(self).index == old(self).chars@.len(),
    {
        while !self.is_eof()
            invariant
                self.wf(),
                old(self).same_source(&*self),
                self.warnings@ == old(self).warnings@,
                old(self).index <= self.index,
                first_match_ci(old(self).chars@, old(self).index as int, expected@)
                    == first_match_ci(self.chars@, self.index as int, expected@),
            decreases self.chars@.len() - self.index,
        {
            if self.try_consume_literal_ci(expected) {
                return true;
            }
            self.advance_char();
        }
        false
    }

    /// Reads the keyword after any white space.
    pub fn read_keyword_chars(&mut self) -> (r: (usize, usize))
        requires
            old(self).wf(),
        ensures
            final(self).wf(),
            old(self).same_source(&*final(self)),
            final(self).warnings@ == old(self).warnings@,
            r.0 == skip_ws_from(old(self).chars@, old(self).index as int),
            r.1 == keyword_end(old(self).chars@, r.0 as int),
            r.0 <= r.1 <= old(self).chars@.len(),
            final(self).index == r.1,
    {
        self.skip_ws();
        let start = self.index;
        while self.index < self.chars.len() && is_keyword_char(self.chars[self.index])
            invariant
                self.wf(),
                old(self).same_source(&*self),
                self.warnings@ == old(self).warnings@,
                start <= self.index,
                keyword_end(self.chars@, start as int) == keyword_end(
                    self.chars@,
                    self.index as int,
                ),
            decreases self.chars@.len() - self.index,
        {
            self.advance_char();
        }
        (start, self.index)
    }

    pub fn try_consume_keyword_ci(&mut self, expected: &str) -> (b: bool)
        requires
            old(self).wf(),
        ensures
            final(self).wf(),
            old(self).same_source(&*final(self)),
            final(self).warnings@ == old(self).warnings@,
            b == keyword_ci_at(old(self).chars@, old(self).index as int, expected@),
            old(self).index <= final(self).index,
            final(self).index == (if b {
                keyword_end(
                    old(self).chars@,
                    skip_ws_from(old(self).chars@, old(self).index as int),
                )
            } else {
                old(self).index as int
            }),
    {
        let snapshot = self.snapshot();
        proof {
            lemma_skip_ws_idem(self.chars@, self.index as int);
            lemma_keyword_end(self.chars@, skip_ws_from(self.chars@, self.index as int));
        }
        let (start, end) = self.read_keyword_chars();
        if end > start && crate::text::slice_eq_ci_str(
            slice_range(&self.chars, start, end),
            expected,
        ) {
            true
        } else {
            self.restore(snapshot);
            false
        }
    }

    pub fn consume_keyword_ci(&mut self, expected: &str) -> (r: Result<(), ParseError>)
        requires
            old(self).wf(),
        ensures
            final(self).wf(),
            old(self).same_source(&*final(self)),
            final(self).warnings@ == old(self).warnings@,
            r is Ok <==> keyword_ci_at(old(self).chars@, old(self).index as int, expected@),
            old(self).index <= final(self).index,
            r is Ok ==> final(self).index == keyword_end(
                old(self).chars@,
                skip_ws_from(old(self).chars@, old(self).index as int),
            ),
            r matches Err(e) ==> final(self).index == old(self).index && old(self).error_here_is(
                e,
                "Expected keyword "@ + expected@,
            ),
    {
        if self.try_consume_keyword_ci(expected) {
            Ok(())
        } else {
            let mut m = string_from_str("Expected keyword ");
            push_str(&mut m, expected);
            Err(self.error_here(m))
        }
    }

    pub fn parse_keyword(&mut self) -> (r: Result<String, ParseError>)
        requires
            old(self).wf(),
        ensures
            final(self).wf(),
            old(self).index <= final(self).index,
            old(self).same_source(&*final(self)),
            final(self).warnings@ == old(self).warnings@,
            ({
                let j = skip_ws_from(old(self).chars@, old(self).index as int);
                let e = keyword_end(old(self).chars@, j);
                &&& r is Ok <==> e > j
                &&& r matches Ok(k) ==> k@ == old(self).chars@.subrange(j, e)
                    && final(self).index == e
                &&& r matches Err(err) ==> err.message@ == "Expected keyword"@ && err.line
                    == line_at(old(self).chars@, j) && err.column == col_at(old(self).chars@, j)
            }),
    {
        self.skip_ws();
        let start = self.snapshot();
        proof {
            lemma_skip_ws_idem(self.chars@, old(self).index as int);
        }
        let (lo, hi) = self.read_keyword_chars();
        if hi == lo {
            Err(self.error_at(start, string_from_str("Expected keyword")))
        } else {
            Ok(string_from_range(&self.chars, lo, hi))
        }
    }
}

fn slice_range(v: &Vec<char>, lo: usize, hi: usize) -> (r: &[char])
    requires
        lo <= hi <= v@.len(),
    ensures
        r@ == v@.subrange(lo as int, hi as int),
{
    let s = v.as_slice();
    &s[lo..hi]
}

pub proof fn lemma_skip_ws_idem(s: Seq<char>, i: int)
    requires
        0 <= i,
    ensures
        skip_ws_from(s, skip_ws_from(s, i)) == skip_ws_from(s, i),
        i <= skip_ws_from(s, i),
        i <= s.len() ==> skip_ws_from(s, i) <= s.len(),
        skip_ws_from(s, i) < s.len() ==> !is_ws_spec(s[skip_ws_from(s, i)]),
    decreases s.len() - i,
{
    if i < s.len() && is_ws_spec(s[i]) {
        lemma_skip_ws_idem(s, i + 1);
    }
}

pub proof fn lemma_keyword_end(s: Seq<char>, i: int)
    requires
        0 <= i <= s.len(),
    ensures
        i <= keyword_end(s, i) <= s.len(),
        keyword_end(s, i) < s.len() ==> !is_keyword_char_spec(s[keyword_end(s, i)]),
    decreases s.len() - i,
{
    if i < s.len() && is_keyword_char_spec(s[i]) {
        lemma_keyword_end(s, i + 1);
    }
}

/// `lit` occurs at `i`, compared case-insensitively (ASCII).
pub open spec fn matches_ci_at(s: Seq<char>, i: int, lit: Seq<char>) -> bool {
    &&& 0 <= i
    &&& i + lit.len() <= s.len()
    &&& forall|q: int| 0 <= q < lit.len() ==> lower_spec(#[trigger] s[i + q]) == lower_spec(lit[q])
}

/// First position at or after `i`, before the end, where `lit` occurs case-insensitively.
pub open spec fn first_match_ci(s: Seq<char>, i: int, lit: Seq<char>) -> Option<int>
    decreases s.len() - i,
{
    if i < 0 || i >= s.len() {
        None
    } else if matches_ci_at(s, i, lit) {
        Some(i)
    } else {
        first_match_ci(s, i + 1, lit)
    }
}

/// After white space, a keyword equal to `kw` (ASCII case-insensitively) starts at `i`.
pub open spec fn keyword_ci_at(s: Seq<char>, i: int, kw: Seq<char>) -> bool {
    let j = skip_ws_from(s, i);
    let e = keyword_end(s, j);
    e > j && eq_ci(s.subrange(j, e), kw)
}

/// First position at or after `i` that does not hold an ASCII digit.
pub open spec fn digit_end(s: Seq<char>, i: int) -> int
    decreases s.len() - i,
{
    if i < 0 || i >= s.len() {
        i
    } else if crate::text::is_digit_spec(s[i]) {
        digit_end(s, i + 1)
    } else {
        i
    }
}

pub proof fn lemma_digit_end(s: Seq<char>, i: int)
    requires
        0 <= i <= s.len(),
    ensures
        i <= digit_end(s, i) <= s.len(),
        crate::number::all_digits(s.subrange(i, digit_end(s, i))),
        digit_end(s, i) < s.len() ==> !crate::text::is_digit_spec(s[digit_end(s, i)]),
    decreases s.len() - i,
{
    if i < s.len() && crate::text::is_digit_spec(s[i]) {
        lemma_digit_end(s, i + 1);
        assert forall|k: int| 0 <= k < digit_end(s, i) - i implies crate::text::is_digit_spec(
            #[trigger] s.subrange(i, digit_end(s, i))[k],
        ) by {
            if k > 0 {
                assert(s.subrange(i, digit_end(s, i))[k] == s.subrange(i + 1, digit_end(s, i))[k
                    - 1]);
            }
        }
    }
}

/// Body of a `'…'` string starting at `k`, already decoded into `acc`:
/// the decoded text and the position after the closing quote.
pub open spec fn quoted_from(s: Seq<char>, k: int, acc: Seq<char>) -> Option<(Seq<char>, int)>
    decreases s.len() - k,
{
    if k < 0 || k >= s.len() {
        None
    } else if s[k] == '\'' {
        if k + 1 < s.len() && s[k + 1] == '\'' {
            quoted_from(s, k + 2, acc.push('\''))
        } else {
            Some((acc, k + 1))
        }
    } else if s[k] == '\\' {
        if k + 1 < s.len() && s[k + 1] == '\\' {
            quoted_from(s, k + 2, acc.push('\\'))
        } else {
            quoted_from(s, k + 1, acc.push('\\'))
        }
    } else {
        quoted_from(s, k + 1, acc.push(s[k]))
    }
}

/// Body of a `\'…\'` string starting at `k`; a lone `'` ends it when the next
/// non-white-space character is `,` or `)`.
pub open spec fn backslash_quoted_from(s: Seq<char>, k: int, acc: Seq<char>) -> Option<
    (Seq<char>, int),
>
    decreases s.len() - k,
{
    if k < 0 || k >= s.len() {
        None
    } else if s[k] == '\\' {
        if k + 1 < s.len() && s[k + 1] == '\'' {
            Some((acc, k + 2))
        } else if k + 1 < s.len() && s[k + 1] == '\\' {
            backslash_quoted_from(s, k + 2, acc.push('\\'))
        } else {
            backslash_quoted_from(s, k + 1, acc.push('\\'))
        }
    } else if s[k] == '\'' {
        let j = skip_ws_from(s, k + 1);
        if j < s.len() && (s[j] == ',' || s[j] == ')') {
            Some((acc, k + 1))
        } else {
            backslash_quoted_from(s, k + 1, acc.push('\''))
        }
    } else {
        backslash_quoted_from(s, k + 1, acc.push(s[k]))
    }
}

/// Whether an SFC string holds a NUL character.
pub open spec fn has_nul(v: Seq<char>) -> bool {
    exists|i: int| 0 <= i < v.len() && v[i] == '\0'
}

/// Warning codes an SFC string raises: NUL characters, then characters
/// Shift-JIS cannot represent.
pub open spec fn string_issue_codes(v: Seq<char>) -> Seq<Seq<char>> {
    (if has_nul(v) {
        seq!["sfc-string-nul"@]
    } else {
        Seq::empty()
    }) + (if crate::encoding::shift_jis_encoding(v).1 {
        seq!["sfc-string-encoding"@]
    } else {
        Seq::empty()
    })
}

/// Warning codes reading a string raises in the given format.
pub open spec fn string_codes_for(format: FileFormat, v: Seq<char>) -> Seq<Seq<char>> {
    if format == FileFormat::Sfc {
        string_issue_codes(v)
    } else {
        Seq::empty()
    }
}

impl Parser {
    /// `new` holds the warnings of `self` followed by warnings with `codes`.
    pub open spec fn added_codes(&self, new: &Parser, codes: Seq<Seq<char>>) -> bool {
        &&& new.warnings@.len() == self.warnings@.len() + codes.len()
        &&& new.warnings@.subrange(0, self.warnings@.len() as int) == self.warnings@
        &&& forall|i: int|
            0 <= i < codes.len() ==> (#[trigger] new.warnings@[self.warnings@.len() + i]).code@
                == codes[i]
    }

    pub proof fn lemma_added_none(&self)
        ensures
            self.added_codes(self, Seq::empty()),
    {
        assert(self.warnings@.subrange(0, self.warnings@.len() as int) =~= self.warnings@);
    }

    /// One more warning with `code` extends what was added.
    pub proof fn lemma_added_push(&self, mid: &Parser, new: &Parser, codes: Seq<Seq<char>>, code: Seq<char>)
        requires
            self.added_codes(mid, codes),
            new.warnings@.len() == mid.warnings@.len() + 1,
            new.warnings@.drop_last() == mid.warnings@,
            new.warnings@.last().code@ == code,
        ensures
            self.added_codes(new, codes.push(code)),
    {
        let n = self.warnings@.len() as int;
        assert(new.warnings@.subrange(0, n) =~= mid.warnings@.subrange(0, n)) by {
            assert forall|q: int| 0 <= q < n implies new.warnings@[q] == mid.warnings@[q] by {
                assert(new.warnings@.drop_last()[q] == new.warnings@[q]);
            }
        }
        assert forall|i: int| 0 <= i < codes.push(code).len() implies (#[trigger] new.warnings@[n
            + i]).code@ == codes.push(code)[i] by {
            if i < codes.len() {
                assert(new.warnings@.drop_last()[n + i] == new.warnings@[n + i]);
                assert(mid.warnings@[n + i].code@ == codes[i]);
            }
        }
    }

    pub fn parse_reference_id(&mut self) -> (r: Result<i64, ParseError>)
        requires
            old(self).wf(),
        ensures
            final(self).wf(),
            old(self).index <= final(self).index,
            old(self).same_source(&*final(self)),
            final(self).warnings@ == old(self).warnings@,
            ({
                let s = old(self).chars@;
                let i = old(self).index as int;
                let e = digit_end(s, i + 1);
                &&& r is Ok <==> (old(self).peek_spec() == Some('#') && e > i + 1
                    && crate::number::parse_int_spec(s.subrange(i + 1, e)) is Some)
                &&& r matches Ok(id) ==> crate::number::parse_int_spec(s.subrange(i + 1, e))
                    == Some(id as int) && final(self).index == e
                &&& r matches Err(err) ==> old(self).error_here_is(
                    err,
                    if old(self).peek_spec() != Some('#') {
                        expected_char_message('#')
                    } else if e == i + 1 {
                        "Reference must contain at least one digit"@
                    } else {
                        "Reference id is out of range"@
                    },
                )
            }),
    {
        let start = self.snapshot();
        self.consume_char('#')?;
        let lo = self.index;
        proof {
            lemma_digit_end(self.chars@, lo as int);
        }
        while self.index < self.chars.len() && crate::text::is_ascii_digit(self.chars[self.index])
            invariant
                self.wf(),
                old(self).same_source(&*self),
                self.warnings@ == old(self).warnings@,
                lo <= self.index,
                digit_end(self.chars@, lo as int) == digit_end(self.chars@, self.index as int),
            decreases self.chars@.len() - self.index,
        {
            self.advance_char();
        }
        let hi = self.index;
        if hi == lo {
            let message = string_from_str("Reference must contain at least one digit");
            proof {
                reveal_strlit("Reference must contain at least one digit");
            }
            return Err(self.error_at(start, message));
        }
        match crate::number::parse_int_range(&self.chars, lo, hi) {
            Some(v) => Ok(v),
            None => {
                let message = string_from_str("Reference id is out of range");
                proof {
                    reveal_strlit("Reference id is out of range");
                }
                Err(self.error_at(start, message))
            },
        }
    }

    /// Reports NUL characters and characters outside Shift-JIS in an SFC string.
    pub fn validate_sfc_string(&mut self, value: String) -> (r: Result<String, ParseError>)
        requires
            old(self).wf(),
        ensures
            final(self).wf(),
            old(self).same_source(&*final(self)),
            final(self).index == old(self).index,
            old(self).format != FileFormat::Sfc ==> (r matches Ok(v) && v@ == value@),
            old(self).format != FileFormat::Sfc ==> final(self).warnings@ == old(self).warnings@,
            old(self).format == FileFormat::Sfc && old(self).strict ==> (r is Ok
                <==> string_issue_codes(value@).len() == 0),
            old(self).format == FileFormat::Sfc && old(self).strict ==> final(self).warnings@
                == old(self).warnings@,
            old(self).format == FileFormat::Sfc && !old(self).strict ==> r is Ok,
            old(self).format == FileFormat::Sfc && !old(self).strict ==> old(self).added_codes(
                &*final(self),
                string_issue_codes(value@),
            ),
            r matches Ok(v) ==> v@ == value@,
            r is Ok ==> old(self).added_codes(&*final(self), string_codes_for(old(self).format, value@)),
    {
        if self.format != FileFormat::Sfc {
            proof {
                self.lemma_added_none();
            }
            return Ok(value);
        }
        let cs = chars_of(value.as_str());
        let mut k: usize = 0;
        let mut nul = false;
        while k < cs.len()
            invariant
                k <= cs@.len(),
                cs@ == value@,
                nul == exists|i: int| 0 <= i < k && cs@[i] == '\0',
            decreases cs@.len() - k,
        {
            if cs[k] == '\0' {
                nul = true;
            }
            k = k + 1;
        }
        assert(nul == has_nul(value@));
        proof {
            self.lemma_added_none();
        }
        let ghost before = *self;
        if nul {
            self.issue_or_error(
                "sfc-string-nul",
                string_from_str("SFC strings must not contain NUL characters"),
            )?;
        }
        let ghost mid = *self;
        let (_, had_errors) = crate::encoding::shift_jis_encode(value.as_str());
        if had_errors {
            self.issue_or_error(
                "sfc-string-encoding",
                string_from_str(
                    "SFC string contains characters that cannot be represented in Shift-JIS",
                ),
            )?;
        }
        proof {
            let codes = string_issue_codes(value@);
            if before.strict {
                before.lemma_added_none();
            }
            if !before.strict {
                assert(before.added_codes(&*self, codes)) by {
                    assert(self.warnings@.subrange(0, before.warnings@.len() as int) =~= before.warnings@);
                    if nul && had_errors {
                        assert(mid.warnings@.drop_last() == before.warnings@);
                    }
                }
            }
        }
        Ok(value)
    }

    pub fn parse_quoted_string(&mut self) -> (r: Result<String, ParseError>)
        requires
            old(self).wf(),
        ensures
            final(self).wf(),
            old(self).quiet_if_strict(&*final(self)),
            old(self).quiet_for_p21(&*final(self)),
            r is Ok ==> old(self).index < final(self).index,
            old(self).same_source(&*final(self)),
            old(self).keeps_warnings(&*final(self)),
            old(self).index <= final(self).index,
            ({
                let q = quoted_from(old(self).chars@, old(self).index + 1, Seq::empty());
                &&& old(self).peek_spec() != Some('\'') ==> r is Err
                &&& q is None ==> r is Err
                &&& r is Ok ==> old(self).peek_spec() == Some('\'')
                &&& r matches Ok(v) ==> (q matches Some((text, end)) && v@ == text
                    && final(self).index == end) && old(self).added_codes(
                    &*final(self),
                    string_codes_for(old(self).format, v@),
                )
                &&& (old(self).peek_spec() == Some('\'') && q is Some && (old(self).format
                    != FileFormat::Sfc || !old(self).strict || string_issue_codes(q.unwrap().0).len()
                    == 0)) ==> r is Ok
            }),
    {
        self.consume_char('\'')?;
        let ghost s = self.chars@;
        let mut out = String::new();
        loop
            invariant_except_break
                quoted_from(s, old(self).index + 1, Seq::empty()) == quoted_from(
                    s,
                    self.index as int,
                    out@,
                ),
            invariant
                self.wf(),
                old(self).same_source(&*self),
                self.warnings@ == old(self).warnings@,
                old(self).index < self.index,
                s == old(self).chars@,
            ensures
                quoted_from(s, old(self).index + 1, Seq::empty()) == Some(
                    (out@, self.index as int),
                ),
            decreases self.chars@.len() - self.index,
        {
            match self.peek_char() {
                Some(c) => {
                    if c == '\'' {
                        self.advance_char();
                        if self.peek_char() == Some('\'') {
                            self.advance_char();
                            push_char(&mut out, '\'');
                        } else {
                            break ;
                        }
                    } else if c == '\\' {
                        self.advance_char();
                        if self.peek_char() == Some('\\') {
                            self.advance_char();
                            push_char(&mut out, '\\');
                        } else {
                            push_char(&mut out, '\\');
                        }
                    } else {
                        self.advance_char();
                        push_char(&mut out, c);
                    }
                },
                None => {
                    return Err(self.error_here(string_from_str("Unterminated quoted string literal")));
                },
            }
        }
        self.validate_sfc_string(out)
    }

    pub fn parse_backslash_quoted_string(&mut self) -> (r: Result<String, ParseError>)
        requires
            old(self).wf(),
        ensures
            final(self).wf(),
            old(self).quiet_if_strict(&*final(self)),
            old(self).quiet_for_p21(&*final(self)),
            r is Ok ==> old(self).index < final(self).index,
            old(self).same_source(&*final(self)),
            old(self).keeps_warnings(&*final(self)),
            old(self).index <= final(self).index,
            ({
                let s = old(self).chars@;
                let i = old(self).index as int;
                let opens = i + 1 < s.len() && s[i] == '\\' && s[i + 1] == '\'';
                let q = backslash_quoted_from(s, i + 2, Seq::empty());
                &&& !opens ==> r is Err
                &&& q is None ==> r is Err
                &&& r matches Ok(v) ==> opens && (q matches Some((text, end)) && v@ == text
                    && final(self).index == end) && old(self).added_codes(
                    &*final(self),
                    string_codes_for(old(self).format, v@),
                )
                &&& (opens && q is Some && (old(self).format != FileFormat::Sfc
                    || !old(self).strict || string_issue_codes(q.unwrap().0).len() == 0)) ==> r is Ok
            }),
    {
        self.consume_char('\\')?;
        self.consume_char('\'')?;
        let ghost s = self.chars@;
        let mut out = String::new();
        loop
            invariant_except_break
                backslash_quoted_from(s, old(self).index + 2, Seq::empty()) == backslash_quoted_from(
                    s,
                    self.index as int,
                    out@,
                ),
            invariant
                self.wf(),
                old(self).same_source(&*self),
                self.warnings@ == old(self).warnings@,
                old(self).index + 2 <= self.index,
                s == old(self).chars@,
            ensures
                backslash_quoted_from(s, old(self).index + 2, Seq::empty()) == Some(
                    (out@, self.index as int),
                ),
            decreases self.chars@.len() - self.index,
        {
            match self.peek_char() {
                Some(c) => {
                    if c == '\\' && self.peek_next_char() == Some('\'') {
                        self.advance_char();
                        self.advance_char();
                        break ;
                    } else if c == '\\' {
                        self.advance_char();
                        if self.peek_char() == Some('\\') {
                            self.advance_char();
                            push_char(&mut out, '\\');
                        } else {
                            push_char(&mut out, '\\');
                        }
                    } else if c == '\'' {
                        let follow = self.peek_following_non_ws_char(1);
                        if follow == Some(',') || follow == Some(')') {
                            self.advance_char();
                            break ;
                        }
                        self.advance_char();
                        push_char(&mut out, '\'');
                    } else {
                        self.advance_char();
                        push_char(&mut out, c);
                    }
                },
                None => {
                    return Err(self.error_here(string_from_str("Unterminated quoted string literal")));
                },
            }
        }
        self.validate_sfc_string(out)
    }

    /// A `"…"` literal: everything up to the next `"`, taken as it stands.
    pub fn parse_binary_literal(&mut self) -> (r: Result<String, ParseError>)
        requires
            old(self).wf(),
        ensures
            final(self).wf(),
            r is Ok ==> old(self).index < final(self).index,
            old(self).index <= final(self).index,
            old(self).same_source(&*final(self)),
            final(self).warnings@ == old(self).warnings@,
            ({
                let s = old(self).chars@;
                let i = old(self).index as int;
                let close = crate::values::find_char(s, '"', i + 1);
                &&& r is Ok <==> old(self).peek_spec() == Some('"') && close is Some
                &&& r matches Ok(v) ==> v@ == s.subrange(i + 1, close.unwrap())
                    && final(self).index == close.unwrap() + 1
                &&& r matches Err(e) ==> e.message@ == (if old(self).peek_spec() == Some('"') {
                    "Unterminated binary literal"@
                } else {
                    expected_char_message('"')
                })
            }),
    {
        self.consume_char('"')?;
        let lo = self.index;
        while self.index < self.chars.len() && self.chars[self.index] != '"'
            invariant
                self.wf(),
                old(self).same_source(&*self),
                self.warnings@ == old(self).warnings@,
                lo == old(self).index + 1,
                lo <= self.index,
                crate::values::find_char(self.chars@, '"', lo as int) == crate::values::find_char(
                    self.chars@,
                    '"',
                    self.index as int,
                ),
            decreases self.chars@.len() - self.index,
        {
            self.advance_char();
        }
        if self.index >= self.chars.len() {
            return Err(self.error_here(string_from_str("Unterminated binary literal")));
        }
        let hi = self.index;
        self.advance_char();
        Ok(string_from_range(&self.chars, lo, hi))
    }

    /// A `.NAME.` enumeration value.
    pub fn parse_enum_value(&mut self) -> (r: Result<String, ParseError>)
        requires
            old(self).wf(),
        ensures
            final(self).wf(),
            r is Ok ==> old(self).index < final(self).index,
            old(self).index <= final(self).index,
            old(self).same_source(&*final(self)),
            final(self).warnings@ == old(self).warnings@,
            ({
                let s = old(self).chars@;
                let i = old(self).index as int;
                let e = keyword_end(s, i + 1);
                &&& r is Ok <==> (old(self).peek_spec() == Some('.') && e > i + 1 && e < s.len()
                    && s[e] == '.')
                &&& r matches Ok(v) ==> v@ == s.subrange(i + 1, e) && final(self).index == e + 1
                &&& r matches Err(err) ==> err.message@ == (if old(self).peek_spec() != Some('.') {
                    expected_char_message('.')
                } else if e == i + 1 {
                    "Enumeration value is empty"@
                } else {
                    expected_char_message('.')
                })
            }),
    {
        self.consume_char('.')?;
        let start = self.snapshot();
        let lo = self.index;
        while self.index < self.chars.len() && is_keyword_char(self.chars[self.index])
            invariant
                self.wf(),
                old(self).same_source(&*self),
                self.warnings@ == old(self).warnings@,
                lo == old(self).index + 1,
                lo <= self.index,
                keyword_end(self.chars@, lo as int) == keyword_end(self.chars@, self.index as int),
            decreases self.chars@.len() - self.index,
        {
            self.advance_char();
        }
        let hi = self.index;
        if hi == lo {
            return Err(self.error_at(start, string_from_str("Enumeration value is empty")));
        }
        self.consume_char('.')?;
        Ok(string_from_range(&self.chars, lo, hi))
    }
}

} // verus!
