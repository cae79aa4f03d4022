//! What holds of every scan.

use crate::block::{BlockKind, BlockView, ScanError};
use crate::model::{
    classify, close_kind, comment_text, emit, finish, initial, lemma_line_len, line_len,
    next_mode, run, scan, source_lines, split_lines, step, LineKind, Mode, QuizView, ScanView,
    ADMONISH_SUFFIX, COMMENT_CLOSE, COMMENT_OPEN, DOC_OPEN, EXCLUDE_SUFFIX, IGNORE_TOGGLE, INCLUDE_SUFFIX,
    QUIZ_END, QUIZ_START,
};
use crate::text::{
    ends_with, is_blank, is_space, join_lines, last_occurrence, lemma_join_lines_front,
    lemma_trim_blank, lemma_trim_idempotent, starts_with, trim, trim_end,
};
use vstd::prelude::*;

verus! {

/// Feeding one line is one step.
pub proof fn lemma_run_one(st: ScanView, line: Seq<char>)
    ensures
        run(st, seq![line]) == step(st, line),
{
    assert(seq![line].drop_first() =~= Seq::empty());
    assert(run(step(st, line), Seq::empty()) == step(st, line));
}

/// Feeding two runs of lines one after the other is feeding them in a row.
pub proof fn lemma_run_append(st: ScanView, first: Seq<Seq<char>>, second: Seq<Seq<char>>)
    ensures
        run(st, first + second) == run(run(st, first), second),
    decreases first.len(),
{
    if first.len() == 0 {
        assert(first + second =~= second);
    } else {
        assert((first + second).first() == first.first());
        assert((first + second).drop_first() =~= first.drop_first() + second);
        lemma_run_append(step(st, first.first()), first.drop_first(), second);
    }
}

/// Whether an ignore region is open after a line of the given kind.
pub open spec fn next_ignoring(ignoring: bool, kind: LineKind) -> bool {
    if kind == LineKind::IgnoreToggle {
        !ignoring
    } else {
        ignoring
    }
}

/// Whether an ignore region is open, and the mode, after `lines`. Neither
/// depends on what the buffer holds or on what was emitted.
pub open spec fn track(ignoring: bool, mode: Mode, lines: Seq<Seq<char>>) -> (bool, Mode)
    decreases lines.len(),
{
    if lines.len() == 0 {
        (ignoring, mode)
    } else {
        let kind = classify(ignoring, mode, lines.first());
        track(next_ignoring(ignoring, kind), next_mode(mode, kind), lines.drop_first())
    }
}

/// Whether `text` ends inside a comment: one was opened, and the line that
/// would close it never came.
pub open spec fn ends_in_comment(text: Seq<char>) -> bool {
    track(false, Mode::Normal, source_lines(text)).1 is Comment
}

/// A step moves the ignore region and the mode as the kind of the line says.
pub proof fn lemma_step_tracks(st: ScanView, line: Seq<char>)
    ensures
        step(st, line).ignoring == next_ignoring(
            st.ignoring,
            classify(st.ignoring, st.mode, line),
        ),
        step(st, line).mode == next_mode(st.mode, classify(st.ignoring, st.mode, line)),
{
}

/// A run moves the ignore region and the mode as `track` says.
pub proof fn lemma_run_tracks(st: ScanView, lines: Seq<Seq<char>>)
    ensures
        (run(st, lines).ignoring, run(st, lines).mode) == track(st.ignoring, st.mode, lines),
    decreases lines.len(),
{
    if lines.len() > 0 {
        lemma_step_tracks(st, lines.first());
        lemma_run_tracks(step(st, lines.first()), lines.drop_first());
    }
}

/// A scan gives blocks and quizzes exactly when the text does not end inside
/// a comment, and otherwise fails because the comment was not closed.
pub proof fn lemma_scan_fails_on_open_comment(text: Seq<char>)
    ensures
        ends_in_comment(text) <==> scan(text) is Err,
        !ends_in_comment(text) <==> scan(text) is Ok,
        scan(text) is Err ==> scan(text)->Err_0 == ScanError::UnterminatedComment,
{
    lemma_run_tracks(initial(), source_lines(text));
}

/// Whether every block either stands for a quiz or holds trimmed text that
/// is not empty.
pub open spec fn all_well_formed(blocks: Seq<BlockView>) -> bool {
    forall|i: int| 0 <= i < blocks.len() ==> (#[trigger] blocks[i]).well_formed()
}

/// What is emitted is well formed.
pub proof fn lemma_emit_well_formed(blocks: Seq<BlockView>, text: Seq<char>, kind: BlockKind)
    requires
        all_well_formed(blocks),
    ensures
        all_well_formed(emit(blocks, text, kind)),
{
    lemma_trim_blank(text);
    lemma_trim_idempotent(text);
}

/// A step keeps the blocks well formed.
pub proof fn lemma_step_well_formed(st: ScanView, line: Seq<char>)
    requires
        all_well_formed(st.blocks),
    ensures
        all_well_formed(step(st, line).blocks),
{
    let kind = classify(st.ignoring, st.mode, line);
    match kind {
        LineKind::QuizEnd => {
            lemma_emit_well_formed(st.blocks, st.buffer, BlockKind::Text);
        },
        LineKind::CommentClose => {
            lemma_emit_well_formed(
                st.blocks,
                st.buffer + line.take(last_occurrence(line, COMMENT_CLOSE@)).push(
                    '\n',
                ),
                close_kind(line),
            );
        },
        LineKind::AdmonishDocstring => {
            lemma_emit_well_formed(st.blocks, st.buffer, BlockKind::Code);
            lemma_emit_well_formed(
                emit(st.blocks, st.buffer, BlockKind::Code),
                comment_text(line, DOC_OPEN@.len() as int),
                BlockKind::Admonish,
            );
        },
        LineKind::InlineComment => {
            lemma_emit_well_formed(st.blocks, st.buffer, BlockKind::Code);
            lemma_emit_well_formed(
                emit(st.blocks, st.buffer, BlockKind::Code),
                comment_text(line, COMMENT_OPEN@.len() as int),
                BlockKind::Text,
            );
        },
        LineKind::CommentOpen => {
            lemma_emit_well_formed(st.blocks, st.buffer, BlockKind::Code);
        },
        _ => {},
    }
}

/// A run keeps the blocks well formed.
pub proof fn lemma_run_well_formed(st: ScanView, lines: Seq<Seq<char>>)
    requires
        all_well_formed(st.blocks),
    ensures
        all_well_formed(run(st, lines).blocks),
    decreases lines.len(),
{
    if lines.len() > 0 {
        lemma_step_well_formed(st, lines.first());
        lemma_run_well_formed(step(st, lines.first()), lines.drop_first());
    }
}

/// No scan gives a block without content, unless the block stands for a quiz.
pub proof fn lemma_scan_well_formed(text: Seq<char>)
    ensures
        scan(text) matches Ok((blocks, _)) ==> all_well_formed(blocks),
{
    let st = run(initial(), source_lines(text));
    lemma_run_well_formed(initial(), source_lines(text));
    lemma_emit_well_formed(st.blocks, st.buffer, BlockKind::Code);
}

/// A line that ends in the closing marker does not end in the call-out
/// suffix: the block that it closes is text.
pub proof fn lemma_close_is_text(line: Seq<char>)
    requires
        ends_with(line, COMMENT_CLOSE@),
    ensures
        close_kind(line) == BlockKind::Text,
{
    if ends_with(line, ADMONISH_SUFFIX@) {
        let n = line.len() as int;
        assert(line.subrange(n - 2, n)[1] == '/');
        assert(line.subrange(n - 3, n)[2] == '+');
    }
}

/// Whether none of `lines` is the ignore toggle.
pub open spec fn no_toggle(lines: Seq<Seq<char>>) -> bool {
    forall|i: int| 0 <= i < lines.len() ==> #[trigger] lines[i] != IGNORE_TOGGLE@
}

/// While an ignore region is open, lines that are not the toggle do nothing.
pub proof fn lemma_ignored_lines(st: ScanView, lines: Seq<Seq<char>>)
    requires
        st.ignoring,
        no_toggle(lines),
    ensures
        run(st, lines) == st,
    decreases lines.len(),
{
    if lines.len() > 0 {
        assert(lines[0] != IGNORE_TOGGLE@);
        assert forall|i: int| 0 <= i < lines.drop_first().len() implies #[trigger] lines.drop_first()[i]
            != IGNORE_TOGGLE@ by {
            assert(lines.drop_first()[i] == lines[i + 1]);
        }
        lemma_ignored_lines(st, lines.drop_first());
    }
}

/// An ignore region leaves no trace: the lines from one toggle to the next,
/// both included, can be taken out of the source without changing anything,
/// in whatever mode the region stands and whatever its lines look like.
pub proof fn lemma_ignore_region(
    st: ScanView,
    before: Seq<Seq<char>>,
    region: Seq<Seq<char>>,
    after: Seq<Seq<char>>,
)
    requires
        !run(st, before).ignoring,
        no_toggle(region),
    ensures
        run(st, before + seq![IGNORE_TOGGLE@] + region + seq![IGNORE_TOGGLE@] + after) == run(
            st,
            before + after,
        ),
{
    let toggle = seq![IGNORE_TOGGLE@];
    let at_start = run(st, before);
    let inside = ScanView { ignoring: true, ..at_start };
    lemma_run_append(st, before, after);
    assert(before + toggle + region + toggle + after =~= before + (toggle + (region + (toggle
        + after))));
    lemma_run_append(st, before, toggle + (region + (toggle + after)));
    lemma_run_append(at_start, toggle, region + (toggle + after));
    lemma_run_one(at_start, IGNORE_TOGGLE@);
    lemma_run_append(inside, region, toggle + after);
    lemma_ignored_lines(inside, region);
    lemma_run_append(inside, toggle, after);
    lemma_run_one(inside, IGNORE_TOGGLE@);
}

/// An ignore region that is still open when the source ends leaves no trace
/// either.
pub proof fn lemma_ignore_region_at_end(
    st: ScanView,
    before: Seq<Seq<char>>,
    region: Seq<Seq<char>>,
)
    requires
        !run(st, before).ignoring,
        no_toggle(region),
    ensures
        finish(run(st, before + seq![IGNORE_TOGGLE@] + region)) == finish(run(st, before)),
{
    let toggle = seq![IGNORE_TOGGLE@];
    let at_start = run(st, before);
    let inside = ScanView { ignoring: true, ..at_start };
    assert(before + toggle + region =~= before + (toggle + region));
    lemma_run_append(st, before, toggle + region);
    lemma_run_append(at_start, toggle, region);
    lemma_run_one(at_start, IGNORE_TOGGLE@);
    lemma_ignored_lines(inside, region);
}

/// Whether the scan, in the state `st`, looks at how `line` ends. It does
/// not while it captures a quiz, nor on the line that names one.
pub open spec fn reads_suffix(st: ScanView, line: Seq<char>) -> bool {
    match st.mode {
        Mode::Normal => true,
        Mode::Comment { capturing, .. } => !capturing && !starts_with(line, QUIZ_START@),
    }
}

/// A line that ends in the exclude suffix changes nothing, in or out of a
/// comment, wherever the scan looks at how the line ends.
pub proof fn lemma_excluded_line(st: ScanView, line: Seq<char>)
    requires
        ends_with(line, EXCLUDE_SUFFIX@),
        st.ignoring || reads_suffix(st, line),
    ensures
        step(st, line) == st,
{
    let n = line.len() as int;
    assert(line.subrange(n - 3, n)[2] == '#');
    assert(IGNORE_TOGGLE@[4] == '-');
}

/// A line that ends in the exclude suffix can be taken out of the source
/// without changing anything.
pub proof fn lemma_excluded_line_leaves_no_trace(
    st: ScanView,
    before: Seq<Seq<char>>,
    line: Seq<char>,
    after: Seq<Seq<char>>,
)
    requires
        ends_with(line, EXCLUDE_SUFFIX@),
        run(st, before).ignoring || reads_suffix(run(st, before), line),
    ensures
        run(st, before + seq![line] + after) == run(st, before + after),
{
    let at_line = run(st, before);
    assert(before + seq![line] + after =~= before + (seq![line] + after));
    lemma_run_append(st, before, seq![line] + after);
    lemma_run_append(at_line, seq![line], after);
    lemma_run_one(at_line, line);
    lemma_excluded_line(at_line, line);
    lemma_run_append(st, before, after);
}

/// A line that ends in the include suffix goes into the buffer without the
/// suffix and without the white space before it, whatever else the line
/// looks like: nothing is emitted and the mode stays.
pub proof fn lemma_force_included_line(st: ScanView, line: Seq<char>)
    requires
        ends_with(line, INCLUDE_SUFFIX@),
        !st.ignoring,
        reads_suffix(st, line),
    ensures
        step(st, line) == (ScanView {
            buffer: st.buffer + trim_end(line.take(line.len() - 3)).push('\n'),
            ..st
        }),
{
    let n = line.len() as int;
    assert(line.subrange(n - 3, n)[2] == '!');
    assert(IGNORE_TOGGLE@[4] == '-');
    if ends_with(line, EXCLUDE_SUFFIX@) {
        assert(line.subrange(n - 3, n)[2] == '#');
    }
}

/// While a quiz is captured, each line that neither ends the quiz nor is the
/// ignore toggle is added to its text as it stands.
pub proof fn lemma_quiz_body(st: ScanView, body: Seq<Seq<char>>)
    requires
        !st.ignoring,
        st.mode matches Mode::Comment { capturing, .. } && capturing,
        no_toggle(body),
        forall|i: int| 0 <= i < body.len() ==> #[trigger] body[i] != QUIZ_END@,
    ensures
        run(st, body) == (ScanView { quiz_body: st.quiz_body + join_lines(body), ..st }),
    decreases body.len(),
{
    if body.len() == 0 {
        assert(st.quiz_body + join_lines(body) =~= st.quiz_body);
    } else {
        let rest = body.drop_first();
        assert(body[0] != IGNORE_TOGGLE@ && body[0] != QUIZ_END@);
        assert forall|i: int| 0 <= i < rest.len() implies #[trigger] rest[i] != IGNORE_TOGGLE@
            && rest[i] != QUIZ_END@ by {
            assert(rest[i] == body[i + 1]);
        }
        lemma_quiz_body(step(st, body.first()), rest);
        lemma_join_lines_front(body.first(), rest);
        assert(seq![body.first()] + rest =~= body);
        assert(st.quiz_body + body.first().push('\n') + join_lines(rest) =~= st.quiz_body + (
        body.first().push('\n') + join_lines(rest)));
    }
}

/// A quiz inside a comment: the line that names it, its text, and the line
/// that ends it. The quiz joins the quizzes under its trimmed name, with the
/// lines of its text as they stood, each with its newline. What the comment
/// held before it leaves as a block of text, and a block that stands for the
/// quiz follows in its place. The mode is as it was before.
pub proof fn lemma_quiz_capture(st: ScanView, start: Seq<char>, body: Seq<Seq<char>>)
    requires
        !st.ignoring,
        st.mode matches Mode::Comment { capturing, .. } && !capturing,
        starts_with(start, QUIZ_START@),
        no_toggle(body),
        forall|i: int| 0 <= i < body.len() ==> #[trigger] body[i] != QUIZ_END@,
    ensures
        run(st, seq![start] + body + seq![QUIZ_END@]) == (ScanView {
            buffer: Seq::empty(),
            quiz_name: Seq::empty(),
            quiz_body: Seq::empty(),
            blocks: emit(st.blocks, st.buffer, BlockKind::Text).push(
                BlockView::of_quiz(trim(start.skip(8))),
            ),
            quizzes: st.quizzes.push((trim(start.skip(8)), join_lines(body))),
            ..st
        }),
{
    assert(start.subrange(0, 8)[2] == '@');
    assert(IGNORE_TOGGLE@[2] == '#');
    let named = step(st, start);
    let captured = ScanView { quiz_body: join_lines(body), ..named };
    assert(seq![start] + body + seq![QUIZ_END@] =~= seq![start] + (body + seq![QUIZ_END@]));
    lemma_run_append(st, seq![start], body + seq![QUIZ_END@]);
    lemma_run_one(st, start);
    lemma_run_append(named, body, seq![QUIZ_END@]);
    lemma_quiz_body(named, body);
    assert(named.quiz_body + join_lines(body) =~= join_lines(body));
    lemma_run_one(captured, QUIZ_END@);
    assert(QUIZ_END@.len() != IGNORE_TOGGLE@.len());
}

/// Whether `line`, outside a comment, is taken for code and nothing else.
pub open spec fn is_code_line(line: Seq<char>) -> bool {
    classify(false, Mode::Normal, line) == LineKind::Code
}

/// A line without any marker is code: it is not the ignore toggle, it ends
/// in neither suffix, and it does not open a comment.
pub proof fn lemma_line_without_marker(line: Seq<char>)
    requires
        line != IGNORE_TOGGLE@,
        !ends_with(line, EXCLUDE_SUFFIX@),
        !ends_with(line, INCLUDE_SUFFIX@),
        !starts_with(line, COMMENT_OPEN@),
    ensures
        is_code_line(line),
{
    if starts_with(line, DOC_OPEN@) {
        assert(line.subrange(0, 2) =~= line.subrange(0, 3).subrange(0, 2));
        assert(DOC_OPEN@.subrange(0, 2) =~= COMMENT_OPEN@);
    }
}

/// Lines of code gather in the buffer, each with its newline.
pub proof fn lemma_code_lines(st: ScanView, lines: Seq<Seq<char>>)
    requires
        !st.ignoring,
        st.mode == Mode::Normal,
        forall|i: int| 0 <= i < lines.len() ==> is_code_line(#[trigger] lines[i]),
    ensures
        run(st, lines) == (ScanView { buffer: st.buffer + join_lines(lines), ..st }),
    decreases lines.len(),
{
    if lines.len() == 0 {
        assert(st.buffer + join_lines(lines) =~= st.buffer);
    } else {
        let rest = lines.drop_first();
        assert(is_code_line(lines[0]));
        assert forall|i: int| 0 <= i < rest.len() implies is_code_line(#[trigger] rest[i]) by {
            assert(rest[i] == lines[i + 1]);
        }
        lemma_code_lines(step(st, lines.first()), rest);
        lemma_join_lines_front(lines.first(), rest);
        assert(seq![lines.first()] + rest =~= lines);
        assert(st.buffer + lines.first().push('\n') + join_lines(rest) =~= st.buffer + (
        lines.first().push('\n') + join_lines(rest)));
    }
}

/// A source that is code from end to end gives no quiz and at most one
/// block: its lines, joined and trimmed, as code.
pub proof fn lemma_code_only(text: Seq<char>)
    requires
        forall|i: int|
            0 <= i < source_lines(text).len() ==> is_code_line(#[trigger] source_lines(text)[i]),
    ensures
        scan(text) == Ok::<_, ScanError>(
            (
                emit(Seq::empty(), join_lines(source_lines(text)), BlockKind::Code),
                Seq::<QuizView>::empty(),
            ),
        ),
{
    lemma_code_lines(initial(), source_lines(text));
    assert(initial().buffer + join_lines(source_lines(text)) =~= join_lines(source_lines(text)));
}

/// The lines of a text, joined again, are the text, with a newline at its
/// end where it had none.
pub proof fn lemma_join_split_lines(text: Seq<char>)
    requires
        text.len() > 0,
    ensures
        join_lines(split_lines(text)) == if text.last() == '\n' {
            text
        } else {
            text.push('\n')
        },
    decreases text.len(),
{
    lemma_line_len(text);
    let n = line_len(text);
    if n < text.len() {
        let rest = text.skip(n + 1);
        lemma_join_lines_front(text.take(n), split_lines(rest));
        if rest.len() == 0 {
            assert(join_lines(split_lines(rest)) =~= Seq::empty());
            assert(text.take(n).push('\n') + Seq::<char>::empty() =~= text);
        } else {
            lemma_join_split_lines(rest);
            assert(rest.last() == text.last());
            assert(text.take(n).push('\n') + rest =~= text);
            assert(text.take(n).push('\n') + rest.push('\n') =~= text.push('\n'));
        }
    } else {
        assert(split_lines(text) =~= seq![text]);
        lemma_join_lines_front(text, Seq::empty());
        assert(seq![text] + Seq::<Seq<char>>::empty() =~= seq![text]);
        assert(join_lines(Seq::<Seq<char>>::empty()) =~= Seq::empty());
        assert(text.push('\n') + Seq::<char>::empty() =~= text.push('\n'));
        assert(text[text.len() - 1] != '\n');
    }
}

/// Whether no line of `text` ends in white space.
pub open spec fn lines_are_trimmed(text: Seq<char>) -> bool {
    forall|i: int|
        0 <= i < split_lines(text).len() ==> trim_end(#[trigger] split_lines(text)[i])
            == split_lines(text)[i]
}

/// A source that is code from end to end, and whose lines do not end in
/// white space, gives one block of code: the source itself, trimmed. Where
/// the source is blank it gives none.
pub proof fn lemma_code_only_is_the_source(text: Seq<char>)
    requires
        lines_are_trimmed(text),
        forall|i: int|
            0 <= i < split_lines(text).len() ==> is_code_line(#[trigger] split_lines(text)[i]),
    ensures
        scan(text) == Ok::<_, ScanError>(
            (emit(Seq::empty(), text, BlockKind::Code), Seq::<QuizView>::empty()),
        ),
{
    let lines = split_lines(text);
    assert(source_lines(text) =~= lines);
    lemma_code_only(text);
    if text.len() > 0 {
        lemma_join_split_lines(text);
        if text.last() != '\n' {
            let joined = text.push('\n');
            assert(joined.drop_last() =~= text);
            assert(trim_end(joined) == trim_end(text));
            assert(is_blank(joined) <==> is_blank(text)) by {
                if is_blank(text) {
                    assert forall|i: int| 0 <= i < joined.len() implies is_space(
                        #[trigger] joined[i],
                    ) by {
                        if i < text.len() {
                            assert(joined[i] == text[i]);
                        }
                    }
                }
                if is_blank(joined) {
                    assert forall|i: int| 0 <= i < text.len() implies is_space(
                        #[trigger] text[i],
                    ) by {
                        assert(joined[i] == text[i]);
                    }
                }
            }
        }
    } else {
        assert(join_lines(lines) =~= text);
    }
}

} // verus!
