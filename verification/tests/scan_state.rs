use lean2md::model::{LineKind, Mode};
use lean2md::scanner::{classify_line, mode_after, ScanState};
use lean2md::{Block, BlockKind, ScanError};

fn chars(s: &str) -> Vec<char> {
    s.chars().collect()
}

const COMMENT: Mode = Mode::Comment { fenced: false, capturing: false };
const FENCED: Mode = Mode::Comment { fenced: true, capturing: false };
const CAPTURING: Mode = Mode::Comment { fenced: false, capturing: true };

fn kind(ignoring: bool, mode: Mode, line: &str) -> LineKind {
    classify_line(ignoring, mode, &chars(line))
}

#[test]
fn toggle_comes_first() {
    assert_eq!(kind(false, Mode::Normal, "--#--"), LineKind::IgnoreToggle);
    assert_eq!(kind(true, Mode::Normal, "--#--"), LineKind::IgnoreToggle);
    assert_eq!(kind(true, CAPTURING, "--#--"), LineKind::IgnoreToggle);
    assert_eq!(kind(false, FENCED, "--#--"), LineKind::IgnoreToggle);
}

#[test]
fn ignoring_hides_everything_else() {
    assert_eq!(kind(true, Mode::Normal, "/- x"), LineKind::Ignored);
    assert_eq!(kind(true, COMMENT, "-/"), LineKind::Ignored);
    assert_eq!(kind(true, COMMENT, "--@quiz:q"), LineKind::Ignored);
    assert_eq!(kind(true, CAPTURING, "--@quiz-end"), LineKind::Ignored);
}

#[test]
fn lines_in_code() {
    assert_eq!(kind(false, Mode::Normal, "x --#"), LineKind::Excluded);
    assert_eq!(kind(false, Mode::Normal, "x --!"), LineKind::ForceInclude);
    assert_eq!(kind(false, Mode::Normal, "/-- d -/ --+"), LineKind::AdmonishDocstring);
    assert_eq!(kind(false, Mode::Normal, "/-- d -/"), LineKind::InlineDocstring);
    assert_eq!(kind(false, Mode::Normal, "/-- d"), LineKind::Code);
    assert_eq!(kind(false, Mode::Normal, "/-- d --+"), LineKind::Code);
    assert_eq!(kind(false, Mode::Normal, "/- c -/"), LineKind::InlineComment);
    assert_eq!(kind(false, Mode::Normal, "/- c"), LineKind::CommentOpen);
    assert_eq!(kind(false, Mode::Normal, " /- c"), LineKind::Code);
    assert_eq!(kind(false, Mode::Normal, "def a := 1"), LineKind::Code);
    assert_eq!(kind(false, Mode::Normal, "-/"), LineKind::Code);
    assert_eq!(kind(false, Mode::Normal, "--@quiz:q"), LineKind::Code);
    assert_eq!(kind(false, Mode::Normal, "```lean"), LineKind::Code);
    assert_eq!(kind(false, Mode::Normal, ""), LineKind::Code);
}

#[test]
fn suffixes_come_before_comment_markers() {
    assert_eq!(kind(false, Mode::Normal, "/- c -/ --#"), LineKind::Excluded);
    assert_eq!(kind(false, Mode::Normal, "/- c --!"), LineKind::ForceInclude);
    assert_eq!(kind(false, COMMENT, "-/ --#"), LineKind::Excluded);
    assert_eq!(kind(false, FENCED, "x --#"), LineKind::Excluded);
    assert_eq!(kind(false, FENCED, "x --!"), LineKind::ForceInclude);
}

#[test]
fn lines_in_a_comment() {
    assert_eq!(kind(false, COMMENT, "--@quiz:q"), LineKind::QuizStart);
    assert_eq!(kind(false, COMMENT, "--@quiz:q --#"), LineKind::QuizStart);
    assert_eq!(kind(false, COMMENT, "--@quiz-end"), LineKind::CommentBody);
    assert_eq!(kind(false, COMMENT, "```lean"), LineKind::FenceOpen);
    assert_eq!(kind(false, COMMENT, "   ```lean"), LineKind::FenceOpen);
    assert_eq!(kind(false, COMMENT, "```"), LineKind::CommentBody);
    assert_eq!(kind(false, COMMENT, "text -/"), LineKind::CommentClose);
    assert_eq!(kind(false, COMMENT, "-/"), LineKind::CommentClose);
    assert_eq!(kind(false, COMMENT, "``` -/"), LineKind::CommentBody);
    assert_eq!(kind(false, COMMENT, "-/ --+"), LineKind::CommentBody);
    assert_eq!(kind(false, COMMENT, "/- nested"), LineKind::CommentBody);
    assert_eq!(kind(false, COMMENT, "prose"), LineKind::CommentBody);
}

#[test]
fn lines_in_a_code_example() {
    assert_eq!(kind(false, FENCED, "```"), LineKind::FenceClose);
    assert_eq!(kind(false, FENCED, "  ```"), LineKind::FenceClose);
    assert_eq!(kind(false, FENCED, "```lean"), LineKind::FenceOpen);
    assert_eq!(kind(false, FENCED, "-/"), LineKind::FenceBody);
    assert_eq!(kind(false, FENCED, "x"), LineKind::FenceBody);
    assert_eq!(kind(false, FENCED, "--@quiz:q"), LineKind::QuizStart);
}

#[test]
fn lines_in_a_quiz() {
    assert_eq!(kind(false, CAPTURING, "--@quiz-end"), LineKind::QuizEnd);
    assert_eq!(kind(false, CAPTURING, "--@quiz:r"), LineKind::QuizBody);
    assert_eq!(kind(false, CAPTURING, "x --#"), LineKind::QuizBody);
    assert_eq!(kind(false, CAPTURING, "x --!"), LineKind::QuizBody);
    assert_eq!(kind(false, CAPTURING, "-/"), LineKind::QuizBody);
    assert_eq!(kind(false, CAPTURING, " --@quiz-end"), LineKind::QuizBody);
}

#[test]
fn modes_follow_kinds() {
    assert_eq!(mode_after(Mode::Normal, LineKind::CommentOpen), COMMENT);
    assert_eq!(mode_after(Mode::Normal, LineKind::Code), Mode::Normal);
    assert_eq!(mode_after(Mode::Normal, LineKind::InlineComment), Mode::Normal);
    assert_eq!(mode_after(COMMENT, LineKind::CommentClose), Mode::Normal);
    assert_eq!(mode_after(COMMENT, LineKind::FenceOpen), FENCED);
    assert_eq!(mode_after(FENCED, LineKind::FenceClose), COMMENT);
    assert_eq!(mode_after(FENCED, LineKind::FenceBody), FENCED);
    assert_eq!(mode_after(COMMENT, LineKind::QuizStart), CAPTURING);
    assert_eq!(mode_after(CAPTURING, LineKind::QuizEnd), COMMENT);
    assert_eq!(
        mode_after(FENCED, LineKind::QuizStart),
        Mode::Comment { fenced: true, capturing: true }
    );
    assert_eq!(mode_after(COMMENT, LineKind::IgnoreToggle), COMMENT);
}

#[test]
fn state_line_by_line() {
    let state = ScanState::new();
    assert_eq!(state.mode(), Mode::Normal);
    assert!(!state.is_ignoring());

    let state = state.feed(&chars("def a := 1   "));
    let state = state.feed(&chars("--#--\r"));
    assert!(state.is_ignoring());
    let state = state.feed(&chars("/- hidden"));
    assert_eq!(state.mode(), Mode::Normal);
    let state = state.feed(&chars("--#--"));
    assert!(!state.is_ignoring());
    let state = state.feed(&chars("/- open"));
    assert_eq!(state.mode(), COMMENT);
    let state = state.feed(&chars("```lean"));
    assert_eq!(state.mode(), FENCED);
    let state = state.feed(&chars("```"));
    let state = state.feed(&chars("closed -/"));
    assert_eq!(state.mode(), Mode::Normal);

    let (blocks, quizzes) = state.finish().unwrap();
    assert_eq!(
        blocks,
        vec![
            Block {
                content: "def a := 1".to_string(),
                kind: BlockKind::Code,
                quiz_reference: None
            },
            Block {
                content: "open\n```lean\n```\nclosed".to_string(),
                kind: BlockKind::Text,
                quiz_reference: None
            },
        ]
    );
    assert!(quizzes.is_empty());
}

#[test]
fn state_that_ends_in_a_comment_fails() {
    let state = ScanState::new().feed(&chars("/- open"));
    assert_eq!(state.finish(), Err(ScanError::UnterminatedComment));
}

#[test]
fn block_kind_tests() {
    let code = Block { content: "x".to_string(), kind: BlockKind::Code, quiz_reference: None };
    let note = Block { content: "x".to_string(), kind: BlockKind::Admonish, quiz_reference: None };
    assert!(code.is_code() && !code.is_admonish());
    assert!(note.is_admonish() && !note.is_code());
}
