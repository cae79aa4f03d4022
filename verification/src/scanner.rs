//! The scan as a program: a state that takes one line at a time, and
//! `build_blocks`, which cuts a text into lines and feeds them to it.

use crate::block::{Block, BlockKind, BlockView, ScanError};
use crate::laws::{
    all_well_formed, ends_in_comment, lemma_close_is_text, lemma_scan_fails_on_open_comment,
    lemma_scan_well_formed,
};
use crate::model::{
    after_comment, apply, classify, classify_in_code, classify_in_comment, comment_text, emit,
    finish, initial, lemma_source_lines, line_len, next_mode, run, scan, source_lines, step,
    trailing_code, LineKind, Mode, QuizView, ScanView, ADMONISH_SUFFIX, COMMENT_CLOSE,
    COMMENT_OPEN, DOC_OPEN, EXCLUDE_SUFFIX, FENCE, FENCE_OPEN, IGNORE_TOGGLE, INCLUDE_SUFFIX,
    QUIZ_END, QUIZ_START,
};
use crate::text::{
    contains, find, from_chars, has_prefix, has_suffix, lemma_trim_blank, occurs_at,
    push_all, push_line, rfind, same_chars, to_chars, trim, trim_end, trim_end_len, trim_range,
};
use vstd::prelude::*;
use vstd::slice::slice_subrange;

verus! {

/// What a line inside a comment is taken for.
fn classify_line_in_comment(fenced: bool, capturing: bool, line: &[char]) -> (kind: LineKind)
    ensures
        kind == classify_in_comment(fenced, capturing, line@),
{
    if !capturing && has_prefix(line, &QUIZ_START) {
        return LineKind::QuizStart;
    }
    if capturing {
        return if same_chars(line, &QUIZ_END) {
            LineKind::QuizEnd
        } else {
            LineKind::QuizBody
        };
    }
    if has_suffix(line, &EXCLUDE_SUFFIX) {
        return LineKind::Excluded;
    }
    if has_suffix(line, &INCLUDE_SUFFIX) {
        return LineKind::ForceInclude;
    }
    let (start, end) = trim_range(line);
    let trimmed = slice_subrange(line, start, end);
    if same_chars(trimmed, &FENCE_OPEN) {
        LineKind::FenceOpen
    } else if fenced {
        if same_chars(trimmed, &FENCE) {
            LineKind::FenceClose
        } else {
            LineKind::FenceBody
        }
    } else if has_suffix(line, &COMMENT_CLOSE) && find(line, &FENCE).is_none() {
        LineKind::CommentClose
    } else {
        LineKind::CommentBody
    }
}

/// What a line outside a comment is taken for.
fn classify_line_in_code(line: &[char]) -> (kind: LineKind)
    ensures
        kind == classify_in_code(line@),
{
    if has_suffix(line, &EXCLUDE_SUFFIX) {
        LineKind::Excluded
    } else if has_suffix(line, &INCLUDE_SUFFIX) {
        LineKind::ForceInclude
    } else if has_prefix(line, &DOC_OPEN) {
        if find(line, &COMMENT_CLOSE).is_none() {
            LineKind::Code
        } else if has_suffix(line, &ADMONISH_SUFFIX) {
            LineKind::AdmonishDocstring
        } else {
            LineKind::InlineDocstring
        }
    } else if has_prefix(line, &COMMENT_OPEN) {
        if find(line, &COMMENT_CLOSE).is_some() {
            LineKind::InlineComment
        } else {
            LineKind::CommentOpen
        }
    } else {
        LineKind::Code
    }
}

/// What `line` is taken for where `ignoring` says whether an ignore region
/// is open and `mode` where the scan stands.
pub fn classify_line(ignoring: bool, mode: Mode, line: &[char]) -> (kind: LineKind)
    ensures
        kind == classify(ignoring, mode, line@),
{
    if same_chars(line, &IGNORE_TOGGLE) {
        LineKind::IgnoreToggle
    } else if ignoring {
        LineKind::Ignored
    } else {
        match mode {
            Mode::Comment { fenced, capturing } => classify_line_in_comment(
                fenced,
                capturing,
                line,
            ),
            Mode::Normal => classify_line_in_code(line),
        }
    }
}

/// The mode after a line of the given kind.
pub fn mode_after(mode: Mode, kind: LineKind) -> (next: Mode)
    ensures
        next == next_mode(mode, kind),
{
    match (mode, kind) {
        (Mode::Normal, LineKind::CommentOpen) => Mode::Comment { fenced: false, capturing: false },
        (Mode::Comment { fenced, .. }, LineKind::QuizStart) => Mode::Comment {
            fenced,
            capturing: true,
        },
        (Mode::Comment { fenced, .. }, LineKind::QuizEnd) => Mode::Comment {
            fenced,
            capturing: false,
        },
        (Mode::Comment { capturing, .. }, LineKind::FenceOpen) => Mode::Comment {
            fenced: true,
            capturing,
        },
        (Mode::Comment { capturing, .. }, LineKind::FenceClose) => Mode::Comment {
            fenced: false,
            capturing,
        },
        (Mode::Comment { .. }, LineKind::CommentClose) => Mode::Normal,
        _ => mode,
    }
}

/// Adds `text` to `blocks` as a block of the given kind, unless it is blank.
fn emit_block(blocks: &mut Vec<Block>, text: &[char], kind: BlockKind)
    ensures
        final(blocks).deep_view() == emit(old(blocks).deep_view(), text@, kind),
{
    let (start, end) = trim_range(text);
    proof {
        lemma_trim_blank(text@);
    }
    if start < end {
        let content = from_chars(slice_subrange(text, start, end));
        let block = Block { content, kind, quiz_reference: None };
        blocks.push(block);
        assert(blocks.deep_view() =~= old(blocks).deep_view().push(block@));
    }
}

/// The text of a one-line comment whose opening marker is `open` long.
fn comment_text_of(line: &[char], open: usize) -> (text: &[char])
    requires
        contains(line@, COMMENT_CLOSE@),
    ensures
        text@ == comment_text(line@, open as int),
{
    match rfind(line, &COMMENT_CLOSE) {
        Some(close) => {
            if open <= close {
                slice_subrange(line, open, close)
            } else {
                slice_subrange(line, 0, 0)
            }
        },
        None => slice_subrange(line, 0, 0),
    }
}

/// What follows the first closing marker of `line`, up to the next one.
fn after_comment_of(line: &[char]) -> (rest: &[char])
    requires
        contains(line@, COMMENT_CLOSE@),
    ensures
        rest@ == after_comment(line@),
{
    match find(line, &COMMENT_CLOSE) {
        Some(first) => {
            let len = line.len();
            assert(occurs_at(line@, COMMENT_CLOSE@, first as int));
            let tail = slice_subrange(line, first + COMMENT_CLOSE.len(), len);
            assert(tail@ =~= line@.skip(first + 2));
            match find(tail, &COMMENT_CLOSE) {
                Some(next) => {
                    let rest = slice_subrange(tail, 0, next);
                    assert(rest@ =~= tail@.take(next as int));
                    rest
                },
                None => tail,
            }
        },
        None => line,
    }
}

/// The code that a one-line comment leaves behind it.
fn trailing_code_of(line: &[char]) -> (buffer: Vec<char>)
    requires
        contains(line@, COMMENT_CLOSE@),
    ensures
        buffer@ == trailing_code(line@),
{
    let rest = after_comment_of(line);
    let mut buffer: Vec<char> = Vec::new();
    let (start, end) = trim_range(rest);
    proof {
        lemma_trim_blank(rest@);
    }
    if start < end {
        let n = trim_end_len(rest);
        if !has_suffix(slice_subrange(rest, 0, n), &ADMONISH_SUFFIX) {
            push_line(&mut buffer, rest);
            assert(buffer@ =~= rest@.push('\n'));
        }
    }
    buffer
}

/// The state of a scan between two lines.
pub struct ScanState {
    ignoring: bool,
    mode: Mode,
    buffer: Vec<char>,
    quiz_name: Vec<char>,
    quiz_body: Vec<char>,
    blocks: Vec<Block>,
    quizzes: Vec<(String, String)>,
}

impl View for ScanState {
    type V = ScanView;

    closed spec fn view(&self) -> ScanView {
        ScanView {
            ignoring: self.ignoring,
            mode: self.mode,
            buffer: self.buffer@,
            quiz_name: self.quiz_name@,
            quiz_body: self.quiz_body@,
            blocks: self.blocks.deep_view(),
            quizzes: self.quizzes.deep_view(),
        }
    }
}

impl ScanState {
    /// The state before the first line.
    pub fn new() -> (state: ScanState)
        ensures
            state@ == initial(),
    {
        let state = ScanState {
            ignoring: false,
            mode: Mode::Normal,
            buffer: Vec::new(),
            quiz_name: Vec::new(),
            quiz_body: Vec::new(),
            blocks: Vec::new(),
            quizzes: Vec::new(),
        };
        assert(state.blocks.deep_view() =~= Seq::empty());
        assert(state.quizzes.deep_view() =~= Seq::empty());
        state
    }

    /// Where the scan stands.
    pub fn mode(&self) -> (mode: Mode)
        ensures
            mode == self@.mode,
    {
        self.mode
    }

    /// Whether an ignore region is open.
    pub fn is_ignoring(&self) -> (ignoring: bool)
        ensures
            ignoring == self@.ignoring,
    {
        self.ignoring
    }

    /// The state after `line`, which is taken for `kind`.
    fn apply(self, kind: LineKind, line: &[char]) -> (next: ScanState)
        requires
            kind == classify(self@.ignoring, self@.mode, line@),
        ensures
            next@ == apply(self@, kind, line@),
    {
        let ScanState {
            ignoring,
            mode,
            mut buffer,
            mut quiz_name,
            mut quiz_body,
            mut blocks,
            mut quizzes,
        } = self;
        let next = mode_after(mode, kind);
        match kind {
            LineKind::IgnoreToggle => ScanState {
                ignoring: !ignoring,
                mode,
                buffer,
                quiz_name,
                quiz_body,
                blocks,
                quizzes,
            },
            LineKind::Ignored | LineKind::Excluded => ScanState {
                ignoring,
                mode,
                buffer,
                quiz_name,
                quiz_body,
                blocks,
                quizzes,
            },
            LineKind::QuizStart => {
                let name = slice_subrange(line, QUIZ_START.len(), line.len());
                assert(name@ =~= line@.skip(QUIZ_START@.len() as int));
                let (start, end) = trim_range(name);
                let mut quiz_name: Vec<char> = Vec::new();
                push_all(&mut quiz_name, slice_subrange(name, start, end));
                assert(quiz_name@ =~= trim(name@));
                ScanState {
                    ignoring,
                    mode: next,
                    buffer,
                    quiz_name,
                    quiz_body: Vec::new(),
                    blocks,
                    quizzes,
                }
            },
            LineKind::QuizEnd => {
                emit_block(&mut blocks, buffer.as_slice(), BlockKind::Text);
                let ghost emitted = blocks.deep_view();
                let name = from_chars(quiz_name.as_slice());
                let block = Block {
                    content: String::new(),
                    kind: BlockKind::Text,
                    quiz_reference: Some(name),
                };
                blocks.push(block);
                assert(blocks.deep_view() =~= emitted.push(block@));
                let quiz = (from_chars(quiz_name.as_slice()), from_chars(quiz_body.as_slice()));
                let ghost captured = quizzes.deep_view();
                quizzes.push(quiz);
                assert(quizzes.deep_view() =~= captured.push((quiz_name@, quiz_body@)));
                ScanState {
                    ignoring,
                    mode: next,
                    buffer: Vec::new(),
                    quiz_name: Vec::new(),
                    quiz_body: Vec::new(),
                    blocks,
                    quizzes,
                }
            },
            LineKind::QuizBody => {
                push_line(&mut quiz_body, line);
                ScanState { ignoring, mode, buffer, quiz_name, quiz_body, blocks, quizzes }
            },
            LineKind::ForceInclude => {
                let head = slice_subrange(line, 0, line.len() - INCLUDE_SUFFIX.len());
                assert(head@ =~= line@.take(line@.len() - 3));
                let n = trim_end_len(head);
                let kept = slice_subrange(head, 0, n);
                assert(kept@ =~= head@.take(n as int));
                push_line(&mut buffer, kept);
                ScanState { ignoring, mode, buffer, quiz_name, quiz_body, blocks, quizzes }
            },
            LineKind::FenceOpen
            | LineKind::FenceClose
            | LineKind::FenceBody
            | LineKind::CommentBody
            | LineKind::InlineDocstring
            | LineKind::Code => {
                push_line(&mut buffer, line);
                ScanState { ignoring, mode: next, buffer, quiz_name, quiz_body, blocks, quizzes }
            },
            LineKind::CommentClose => {
                let close = match rfind(line, &COMMENT_CLOSE) {
                    Some(close) => close,
                    None => 0,
                };
                let head = slice_subrange(line, 0, close);
                assert(head@ =~= line@.take(close as int));
                push_line(&mut buffer, head);
                proof {
                    lemma_close_is_text(line@);
                }
                emit_block(&mut blocks, buffer.as_slice(), BlockKind::Text);
                ScanState {
                    ignoring,
                    mode: next,
                    buffer: Vec::new(),
                    quiz_name,
                    quiz_body,
                    blocks,
                    quizzes,
                }
            },
            LineKind::AdmonishDocstring => {
                emit_block(&mut blocks, buffer.as_slice(), BlockKind::Code);
                emit_block(&mut blocks, comment_text_of(line, DOC_OPEN.len()), BlockKind::Admonish);
                ScanState {
                    ignoring,
                    mode,
                    buffer: Vec::new(),
                    quiz_name,
                    quiz_body,
                    blocks,
                    quizzes,
                }
            },
            LineKind::InlineComment => {
                emit_block(&mut blocks, buffer.as_slice(), BlockKind::Code);
                emit_block(&mut blocks, comment_text_of(line, COMMENT_OPEN.len()), BlockKind::Text);
                ScanState {
                    ignoring,
                    mode,
                    buffer: trailing_code_of(line),
                    quiz_name,
                    quiz_body,
                    blocks,
                    quizzes,
                }
            },
            LineKind::CommentOpen => {
                emit_block(&mut blocks, buffer.as_slice(), BlockKind::Code);
                let mut buffer: Vec<char> = Vec::new();
                let rest = slice_subrange(line, COMMENT_OPEN.len(), line.len());
                assert(rest@ =~= line@.skip(2));
                push_line(&mut buffer, rest);
                assert(buffer@ =~= rest@.push('\n'));
                ScanState { ignoring, mode: next, buffer, quiz_name, quiz_body, blocks, quizzes }
            },
        }
    }

    /// The state after one more line of the source. The white space at the
    /// end of `line` does not count.
    pub fn feed(self, line: &[char]) -> (next: ScanState)
        ensures
            next@ == step(self@, trim_end(line@)),
    {
        let n = trim_end_len(line);
        let line = slice_subrange(line, 0, n);
        let kind = classify_line(self.ignoring, self.mode, line);
        self.apply(kind, line)
    }

    /// What the scan gives when the input ends here.
    pub fn finish(self) -> (result: Result<(Vec<Block>, Vec<(String, String)>), ScanError>)
        ensures
            match result {
                Ok((blocks, quizzes)) => finish(self@) == Ok::<_, ScanError>(
                    (blocks.deep_view(), quizzes.deep_view()),
                ),
                Err(e) => finish(self@) == Err::<(Seq<BlockView>, Seq<QuizView>), _>(e),
            },
    {
        let ScanState { mode, buffer, mut blocks, quizzes, .. } = self;
        match mode {
            Mode::Comment { .. } => Err(ScanError::UnterminatedComment),
            Mode::Normal => {
                emit_block(&mut blocks, buffer.as_slice(), BlockKind::Code);
                Ok((blocks, quizzes))
            },
        }
    }
}

/// The index at which the line that starts at `from` ends: that of the next
/// newline, or the length of `text`.
fn line_end(text: &[char], from: usize) -> (end: usize)
    requires
        from <= text.len(),
    ensures
        from <= end <= text.len(),
        end - from == line_len(text@.skip(from as int)),
{
    let mut end: usize = from;
    while end < text.len() && text[end] != '\n'
        invariant
            from <= end <= text.len(),
            line_len(text@.skip(from as int)) == (end - from) + line_len(text@.skip(end as int)),
        decreases text.len() - end,
    {
        assert(text@.skip(end as int).drop_first() =~= text@.skip(end + 1));
        end += 1;
    }
    end
}

/// Scans the text of one file: the blocks in their order, and the quizzes
/// that were captured, each with its name and its text.
pub fn build_blocks(content: &str) -> (result: Result<(Vec<Block>, Vec<(String, String)>), ScanError>)
    ensures
        match result {
            Ok((blocks, quizzes)) => scan(content@) == Ok::<_, ScanError>(
                (blocks.deep_view(), quizzes.deep_view()),
            ),
            Err(e) => scan(content@) == Err::<(Seq<BlockView>, Seq<QuizView>), _>(e),
        },
        result is Err <==> ends_in_comment(content@),
        result matches Ok((blocks, _)) ==> all_well_formed(blocks.deep_view()),
{
    proof {
        lemma_scan_fails_on_open_comment(content@);
        lemma_scan_well_formed(content@);
    }
    let text = to_chars(content);
    let mut state = ScanState::new();
    let mut pos: usize = 0;
    assert(text@.skip(0) =~= text@);
    while pos < text.len()
        invariant
            pos <= text.len(),
            text@ == content@,
            run(initial(), source_lines(text@)) == run(state@, source_lines(text@.skip(pos as int))),
        decreases text.len() - pos,
    {
        let end = line_end(text.as_slice(), pos);
        let line = slice_subrange(text.as_slice(), pos, end);
        let next_pos: usize = if end < text.len() {
            end + 1
        } else {
            end
        };
        proof {
            let rest = text@.skip(pos as int);
            lemma_source_lines(rest);
            assert(rest.take(end - pos) =~= line@);
            if end < text.len() {
                assert(rest.skip(end - pos + 1) =~= text@.skip(next_pos as int));
            } else {
                assert(source_lines(text@.skip(next_pos as int)) =~= Seq::empty());
            }
        }
        state = state.feed(line);
        pos = next_pos;
    }
    assert(source_lines(text@.skip(pos as int)) =~= Seq::empty());
    state.finish()
}

} // verus!
