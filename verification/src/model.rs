//! The scan as mathematics: what each line is taken for, and what it does to
//! the state of the scan.
//!
//! A source text is cut into lines, each line loses the white space at its
//! end, and the lines are fed one by one to `step`. What a line is taken for
//! (`classify`) depends on the line and on two things only: whether an ignore
//! region is open, and the `Mode`. What it then does (`apply`) is to add to
//! the buffer, to emit blocks, or to change the mode.

use crate::block::{BlockKind, BlockView, ScanError};
use crate::text::{
    contains, ends_with, first_occurrence, is_blank, last_occurrence, starts_with, trim, trim_end,
};
use vstd::prelude::*;

verus! {

/// `--#--`, alone on a line: opens or closes an ignore region.
pub const IGNORE_TOGGLE: [char; 5] = ['-', '-', '#', '-', '-'];

/// `--#` at the end of a line: the line is left out.
pub const EXCLUDE_SUFFIX: [char; 3] = ['-', '-', '#'];

/// `--!` at the end of a line: the rest of the line is taken as it stands.
pub const INCLUDE_SUFFIX: [char; 3] = ['-', '-', '!'];

/// `--@quiz:` at the start of a line inside a comment, followed by a name.
pub const QUIZ_START: [char; 8] = ['-', '-', '@', 'q', 'u', 'i', 'z', ':'];

/// `--@quiz-end`, alone on a line inside a comment.
pub const QUIZ_END: [char; 11] = ['-', '-', '@', 'q', 'u', 'i', 'z', '-', 'e', 'n', 'd'];

/// `/-` opens a comment.
pub const COMMENT_OPEN: [char; 2] = ['/', '-'];

/// `/--` opens a comment that documents the declaration after it.
pub const DOC_OPEN: [char; 3] = ['/', '-', '-'];

/// `-/` closes a comment of either kind.
pub const COMMENT_CLOSE: [char; 2] = ['-', '/'];

/// `--+` at the end of a line: the comment on it is a call-out.
pub const ADMONISH_SUFFIX: [char; 3] = ['-', '-', '+'];

/// Three backticks: a code fence.
pub const FENCE: [char; 3] = ['`', '`', '`'];

/// The fence that opens a code example inside a comment.
pub const FENCE_OPEN: [char; 7] = ['`', '`', '`', 'l', 'e', 'a', 'n'];

/// Where the scan stands between two lines.
#[derive(Clone, Copy, PartialEq, Eq, Debug, Structural)]
pub enum Mode {
    /// In source code.
    Normal,
    /// Inside a comment that was opened on an earlier line.
    Comment {
        /// Inside a code example.
        fenced: bool,
        /// Capturing the body of a quiz.
        capturing: bool,
    },
}

/// What a line is taken for.
#[derive(Clone, Copy, PartialEq, Eq, Debug, Structural)]
pub enum LineKind {
    /// Opens or closes an ignore region.
    IgnoreToggle,
    /// Stands inside an ignore region.
    Ignored,
    /// Names a quiz and starts its capture.
    QuizStart,
    /// Ends the capture of a quiz.
    QuizEnd,
    /// Belongs to the quiz that is being captured.
    QuizBody,
    /// Ends in the exclude suffix.
    Excluded,
    /// Ends in the include suffix.
    ForceInclude,
    /// Opens a code example inside a comment.
    FenceOpen,
    /// Closes a code example inside a comment.
    FenceClose,
    /// Stands inside a code example.
    FenceBody,
    /// Closes the comment.
    CommentClose,
    /// Prose inside the comment.
    CommentBody,
    /// A documenting comment on one line, marked as a call-out.
    AdmonishDocstring,
    /// A documenting comment on one line; it stays with the code.
    InlineDocstring,
    /// A comment opened and closed on one line.
    InlineComment,
    /// Opens a comment that goes on.
    CommentOpen,
    /// Source code.
    Code,
}

/// A captured quiz: its name, and its text as it stood.
pub type QuizView = (Seq<char>, Seq<char>);

/// The state of a scan between two lines.
pub struct ScanView {
    /// An ignore region is open.
    pub ignoring: bool,
    pub mode: Mode,
    /// The text of the block that is being built.
    pub buffer: Seq<char>,
    /// The name of the quiz that is being captured.
    pub quiz_name: Seq<char>,
    /// What has been captured of it.
    pub quiz_body: Seq<char>,
    /// The blocks emitted so far.
    pub blocks: Seq<BlockView>,
    /// The quizzes captured so far.
    pub quizzes: Seq<QuizView>,
}

/// What a line inside a comment is taken for.
pub open spec fn classify_in_comment(fenced: bool, capturing: bool, line: Seq<char>) -> LineKind {
    if !capturing && starts_with(line, QUIZ_START@) {
        LineKind::QuizStart
    } else if capturing && line == QUIZ_END@ {
        LineKind::QuizEnd
    } else if capturing {
        LineKind::QuizBody
    } else if ends_with(line, EXCLUDE_SUFFIX@) {
        LineKind::Excluded
    } else if ends_with(line, INCLUDE_SUFFIX@) {
        LineKind::ForceInclude
    } else if trim(line) == FENCE_OPEN@ {
        LineKind::FenceOpen
    } else if fenced && trim(line) == FENCE@ {
        LineKind::FenceClose
    } else if fenced {
        LineKind::FenceBody
    } else if ends_with(line, COMMENT_CLOSE@) && !contains(line, FENCE@) {
        LineKind::CommentClose
    } else {
        LineKind::CommentBody
    }
}

/// What a line outside a comment is taken for.
pub open spec fn classify_in_code(line: Seq<char>) -> LineKind {
    if ends_with(line, EXCLUDE_SUFFIX@) {
        LineKind::Excluded
    } else if ends_with(line, INCLUDE_SUFFIX@) {
        LineKind::ForceInclude
    } else if starts_with(line, DOC_OPEN@) {
        if !contains(line, COMMENT_CLOSE@) {
            LineKind::Code
        } else if ends_with(line, ADMONISH_SUFFIX@) {
            LineKind::AdmonishDocstring
        } else {
            LineKind::InlineDocstring
        }
    } else if starts_with(line, COMMENT_OPEN@) {
        if contains(line, COMMENT_CLOSE@) {
            LineKind::InlineComment
        } else {
            LineKind::CommentOpen
        }
    } else {
        LineKind::Code
    }
}

/// What `line` is taken for. The order of the tests is part of the meaning:
/// a line may look like several things at once, and the first that fits wins.
pub open spec fn classify(ignoring: bool, mode: Mode, line: Seq<char>) -> LineKind {
    if line == IGNORE_TOGGLE@ {
        LineKind::IgnoreToggle
    } else if ignoring {
        LineKind::Ignored
    } else {
        match mode {
            Mode::Comment { fenced, capturing } => classify_in_comment(fenced, capturing, line),
            Mode::Normal => classify_in_code(line),
        }
    }
}

/// The mode after a line of the given kind.
pub open spec fn next_mode(mode: Mode, kind: LineKind) -> Mode {
    match (mode, kind) {
        (Mode::Normal, LineKind::CommentOpen) => Mode::Comment { fenced: false, capturing: false },
        (Mode::Comment { fenced, .. }, LineKind::QuizStart) => Mode::Comment {
            fenced,
            capturing: true,
        },
        (Mode::Comment { fenced, .. }, LineKind::QuizEnd) => Mode::Comment {
            fenced,
            capturing: false,
        },
        (Mode::Comment { capturing, .. }, LineKind::FenceOpen) => Mode::Comment {
            fenced: true,
            capturing,
        },
        (Mode::Comment { capturing, .. }, LineKind::FenceClose) => Mode::Comment {
            fenced: false,
            capturing,
        },
        (Mode::Comment { .. }, LineKind::CommentClose) => Mode::Normal,
        _ => mode,
    }
}

/// `blocks`, and after them `text` as a block of the given kind, unless
/// `text` is blank: a block without content is never made.
pub open spec fn emit(blocks: Seq<BlockView>, text: Seq<char>, kind: BlockKind) -> Seq<BlockView> {
    if is_blank(text) {
        blocks
    } else {
        blocks.push(BlockView::of_text(text, kind))
    }
}

/// The kind of the block that a closing line ends.
pub open spec fn close_kind(line: Seq<char>) -> BlockKind {
    if ends_with(line, ADMONISH_SUFFIX@) {
        BlockKind::Admonish
    } else {
        BlockKind::Text
    }
}

/// The text of a one-line comment: what stands between the opening marker,
/// `open` characters long, and the last closing marker. Where the two
/// overlap there is none.
pub open spec fn comment_text(line: Seq<char>, open: int) -> Seq<char> {
    let close = last_occurrence(line, COMMENT_CLOSE@);
    if open <= close {
        line.subrange(open, close)
    } else {
        Seq::empty()
    }
}

/// What follows the first closing marker on the line, up to the next one.
pub open spec fn after_comment(line: Seq<char>) -> Seq<char> {
    let tail = line.skip(first_occurrence(line, COMMENT_CLOSE@) + COMMENT_CLOSE@.len());
    if contains(tail, COMMENT_CLOSE@) {
        tail.take(first_occurrence(tail, COMMENT_CLOSE@))
    } else {
        tail
    }
}

/// The code that a one-line comment leaves in the buffer: what follows the
/// comment, unless that is blank or ends in the call-out suffix.
pub open spec fn trailing_code(line: Seq<char>) -> Seq<char> {
    let rest = after_comment(line);
    if !is_blank(rest) && !ends_with(trim_end(rest), ADMONISH_SUFFIX@) {
        rest.push('\n')
    } else {
        Seq::empty()
    }
}

/// The state after a line that is taken for `kind`.
pub open spec fn apply(st: ScanView, kind: LineKind, line: Seq<char>) -> ScanView {
    let mode = next_mode(st.mode, kind);
    match kind {
        LineKind::IgnoreToggle => ScanView { ignoring: !st.ignoring, ..st },
        LineKind::Ignored | LineKind::Excluded => st,
        LineKind::QuizStart => ScanView {
            mode,
            quiz_name: trim(line.skip(QUIZ_START@.len() as int)),
            quiz_body: Seq::empty(),
            ..st
        },
        LineKind::QuizEnd => ScanView {
            mode,
            buffer: Seq::empty(),
            quiz_name: Seq::empty(),
            quiz_body: Seq::empty(),
            blocks: emit(st.blocks, st.buffer, BlockKind::Text).push(
                BlockView::of_quiz(st.quiz_name),
            ),
            quizzes: st.quizzes.push((st.quiz_name, st.quiz_body)),
            ..st
        },
        LineKind::QuizBody => ScanView { quiz_body: st.quiz_body + line.push('\n'), ..st },
        LineKind::ForceInclude => ScanView {
            buffer: st.buffer + trim_end(line.take(line.len() - INCLUDE_SUFFIX@.len())).push('\n'),
            ..st
        },
        LineKind::FenceOpen
        | LineKind::FenceClose
        | LineKind::FenceBody
        | LineKind::CommentBody
        | LineKind::InlineDocstring
        | LineKind::Code => ScanView { mode, buffer: st.buffer + line.push('\n'), ..st },
        LineKind::CommentClose => ScanView {
            mode,
            buffer: Seq::empty(),
            blocks: emit(
                st.blocks,
                st.buffer + line.take(last_occurrence(line, COMMENT_CLOSE@)).push('\n'),
                close_kind(line),
            ),
            ..st
        },
        LineKind::AdmonishDocstring => ScanView {
            buffer: Seq::empty(),
            blocks: emit(
                emit(st.blocks, st.buffer, BlockKind::Code),
                comment_text(line, DOC_OPEN@.len() as int),
                BlockKind::Admonish,
            ),
            ..st
        },
        LineKind::InlineComment => ScanView {
            buffer: trailing_code(line),
            blocks: emit(
                emit(st.blocks, st.buffer, BlockKind::Code),
                comment_text(line, COMMENT_OPEN@.len() as int),
                BlockKind::Text,
            ),
            ..st
        },
        LineKind::CommentOpen => ScanView {
            mode,
            buffer: line.skip(COMMENT_OPEN@.len() as int).push('\n'),
            blocks: emit(st.blocks, st.buffer, BlockKind::Code),
            ..st
        },
    }
}

/// The state after `line`, which has no white space at its end.
pub open spec fn step(st: ScanView, line: Seq<char>) -> ScanView {
    apply(st, classify(st.ignoring, st.mode, line), line)
}

/// The state after all of `lines`, in their order.
pub open spec fn run(st: ScanView, lines: Seq<Seq<char>>) -> ScanView
    decreases lines.len(),
{
    if lines.len() == 0 {
        st
    } else {
        run(step(st, lines.first()), lines.drop_first())
    }
}

/// The state before the first line.
pub open spec fn initial() -> ScanView {
    ScanView {
        ignoring: false,
        mode: Mode::Normal,
        buffer: Seq::empty(),
        quiz_name: Seq::empty(),
        quiz_body: Seq::empty(),
        blocks: Seq::empty(),
        quizzes: Seq::empty(),
    }
}

/// What the scan gives at the end of the input: the blocks, the buffer as a
/// last block of code among them, and the quizzes; or nothing, where a
/// comment is still open.
pub open spec fn finish(st: ScanView) -> Result<(Seq<BlockView>, Seq<QuizView>), ScanError> {
    match st.mode {
        Mode::Comment { .. } => Err(ScanError::UnterminatedComment),
        Mode::Normal => Ok((emit(st.blocks, st.buffer, BlockKind::Code), st.quizzes)),
    }
}

/// The number of characters before the first newline of `text`, or in all
/// of it where it has none.
pub open spec fn line_len(text: Seq<char>) -> int
    decreases text.len(),
{
    if text.len() == 0 || text.first() == '\n' {
        0
    } else {
        1 + line_len(text.drop_first())
    }
}

pub proof fn lemma_line_len(text: Seq<char>)
    ensures
        0 <= line_len(text) <= text.len(),
        line_len(text) < text.len() ==> text[line_len(text)] == '\n',
        forall|i: int| 0 <= i < line_len(text) ==> text[i] != '\n',
    decreases text.len(),
{
    if text.len() == 0 || text.first() == '\n' {
    } else {
        let rest = text.drop_first();
        lemma_line_len(rest);
        assert forall|i: int| 0 <= i < line_len(text) implies text[i] != '\n' by {
            if i > 0 {
                assert(text[i] == rest[i - 1]);
            }
        }
    }
}

/// The lines of `text`. A line ends at a newline or at the end of the text,
/// and a newline at the very end starts no further line.
pub open spec fn split_lines(text: Seq<char>) -> Seq<Seq<char>>
    decreases text.len(),
{
    if text.len() == 0 {
        Seq::empty()
    } else {
        let n = line_len(text);
        if 0 <= n < text.len() {
            seq![text.take(n)] + split_lines(text.skip(n + 1))
        } else {
            seq![text]
        }
    }
}

/// The lines of `text`, each without the white space at its end. A carriage
/// return before the newline is white space, and goes with the rest of it.
pub open spec fn source_lines(text: Seq<char>) -> Seq<Seq<char>> {
    split_lines(text).map_values(|line: Seq<char>| trim_end(line))
}

/// The first of the lines is what stands before the first newline, and the
/// others are the lines of what follows it.
pub proof fn lemma_source_lines(text: Seq<char>)
    requires
        text.len() > 0,
    ensures
        0 <= line_len(text) <= text.len(),
        source_lines(text).len() > 0,
        source_lines(text).first() == trim_end(text.take(line_len(text))),
        source_lines(text).drop_first() == if line_len(text) < text.len() {
            source_lines(text.skip(line_len(text) + 1))
        } else {
            Seq::empty()
        },
{
    lemma_line_len(text);
    let n = line_len(text);
    if n < text.len() {
        let rest = text.skip(n + 1);
        assert(source_lines(text).drop_first() =~= source_lines(rest));
    } else {
        assert(text.take(n) =~= text);
        assert(source_lines(text).drop_first() =~= Seq::empty());
    }
}

/// What scanning `text` gives.
pub open spec fn scan(text: Seq<char>) -> Result<(Seq<BlockView>, Seq<QuizView>), ScanError> {
    finish(run(initial(), source_lines(text)))
}

} // verus!
