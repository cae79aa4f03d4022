use lean2md::{build_blocks, Block, BlockKind, ScanError};

fn text(content: &str) -> Block {
    Block { content: content.to_string(), kind: BlockKind::Text, quiz_reference: None }
}

fn code(content: &str) -> Block {
    Block { content: content.to_string(), kind: BlockKind::Code, quiz_reference: None }
}

fn admonish(content: &str) -> Block {
    Block { content: content.to_string(), kind: BlockKind::Admonish, quiz_reference: None }
}

fn quiz(name: &str) -> Block {
    Block { content: String::new(), kind: BlockKind::Text, quiz_reference: Some(name.to_string()) }
}

fn blocks_of(input: &str) -> Vec<Block> {
    build_blocks(input).unwrap().0
}

#[test]
fn test_build_blocks_basic() {
    let input = "/- Simple comment -/\ndef foo := 1";
    let (blocks, _) = build_blocks(input).unwrap();

    println!("Number of blocks: {}", blocks.len());
    for (i, block) in blocks.iter().enumerate() {
        println!("Block {}: is_code={}, content='{}'", i, block.is_code(), block.content);
    }

    assert_eq!(blocks.len(), 2);
}

#[test]
fn test_ignore_marker() {
    let input = "line 1\nline 2 --#\nline 3";
    let (blocks, _) = build_blocks(input).unwrap();
    assert!(!blocks[0].content.contains("line 2"));
}

#[test]
fn test_force_include_marker() {
    let input = "line 1\nline 2 --#--!\nline 3";
    let (blocks, _) = build_blocks(input).unwrap();
    assert!(blocks[0].content.contains("line 2 --#"));
}

#[test]
fn basic_blocks_have_kinds_and_contents() {
    assert_eq!(
        blocks_of("/- Simple comment -/\ndef foo := 1"),
        vec![text("Simple comment"), code("def foo := 1")]
    );
}

#[test]
fn comment_then_code() {
    let (blocks, quizzes) = build_blocks("/- Hello -/\ncode_line").unwrap();
    assert_eq!(blocks, vec![text("Hello"), code("code_line")]);
    assert!(quizzes.is_empty());
}

#[test]
fn empty_input_gives_nothing() {
    let (blocks, quizzes) = build_blocks("").unwrap();
    assert!(blocks.is_empty());
    assert!(quizzes.is_empty());
}

#[test]
fn blank_input_gives_nothing() {
    assert!(blocks_of("  \n\t\n\n").is_empty());
}

#[test]
fn plain_code_is_one_block() {
    assert_eq!(
        blocks_of("def a := 1\n\ndef b := 2\n\n\n"),
        vec![code("def a := 1\n\ndef b := 2")]
    );
}

#[test]
fn plain_code_loses_white_space_at_line_ends() {
    assert_eq!(blocks_of("  a  \r\nb\t\n"), vec![code("a\nb")]);
}

#[test]
fn excluded_line_is_left_out() {
    assert_eq!(blocks_of("line 1\nline 2 --#\nline 3"), vec![code("line 1\nline 3")]);
}

#[test]
fn excluded_line_is_left_out_of_a_comment() {
    assert_eq!(blocks_of("/-\nkept\nhidden --#\n-/"), vec![text("kept")]);
}

#[test]
fn excluded_line_is_left_out_of_a_code_example() {
    assert_eq!(
        blocks_of("/-\n```lean\nshown\nhidden --#\n```\n-/"),
        vec![text("```lean\nshown\n```")]
    );
}

#[test]
fn force_included_line_keeps_its_text() {
    assert_eq!(
        blocks_of("line 1\nline 2 --#--!\nline 3"),
        vec![code("line 1\nline 2 --#\nline 3")]
    );
}

#[test]
fn force_included_line_loses_the_space_before_the_marker() {
    assert_eq!(blocks_of("a\nb   --!\nc"), vec![code("a\nb\nc")]);
}

#[test]
fn force_included_comment_opener_is_code() {
    assert_eq!(blocks_of("/- not a comment --!\nx"), vec![code("/- not a comment\nx")]);
}

#[test]
fn force_include_is_stripped_inside_a_code_example() {
    assert_eq!(
        blocks_of("/-\n```lean\nx --!\n```\n-/"),
        vec![text("```lean\nx\n```")]
    );
}

#[test]
fn ignore_region_is_left_out() {
    assert_eq!(blocks_of("a\n--#--\nb\n/- c -/\n--#--\nd"), vec![code("a\nd")]);
}

#[test]
fn ignore_region_hides_markers() {
    let input = "/-\ntext\n--#--\n-/\n--@quiz:x\n--#--\nmore\n-/\ncode";
    assert_eq!(blocks_of(input), vec![text("text\nmore"), code("code")]);
}

#[test]
fn ignore_region_open_at_the_end() {
    assert_eq!(blocks_of("a\n--#--\nb\n/-\nc"), vec![code("a")]);
}

#[test]
fn ignore_toggle_may_carry_white_space_at_its_end() {
    assert_eq!(blocks_of("a\n--#--  \nb\n--#--\t\nc"), vec![code("a\nc")]);
}

#[test]
fn indented_ignore_toggle_is_code() {
    assert_eq!(blocks_of("a\n  --#--\nb"), vec![code("a\n  --#--\nb")]);
}

#[test]
fn multi_line_comment_is_text() {
    assert_eq!(
        blocks_of("/- first\nsecond\nthird -/\ncode"),
        vec![text("first\nsecond\nthird"), code("code")]
    );
}

#[test]
fn code_before_a_comment_is_flushed() {
    assert_eq!(
        blocks_of("a\n/-\nb\n-/\nc"),
        vec![code("a"), text("b"), code("c")]
    );
}

#[test]
fn empty_comment_gives_no_block() {
    assert_eq!(blocks_of("/-\n-/\ncode"), vec![code("code")]);
    assert_eq!(blocks_of("/- -/\ncode"), vec![code("code")]);
}

#[test]
fn comment_close_inside_code_example_is_kept() {
    assert_eq!(
        blocks_of("/-\n```lean\n/- inner -/\n```\nend -/"),
        vec![text("```lean\n/- inner -/\n```\nend")]
    );
}

#[test]
fn line_with_fence_and_close_does_not_close() {
    assert_eq!(build_blocks("/-\n``` -/"), Err(ScanError::UnterminatedComment));
    assert_eq!(blocks_of("/-\n``` -/\n-/"), vec![text("``` -/")]);
}

#[test]
fn code_example_fences_may_be_indented() {
    assert_eq!(
        blocks_of("/-\n  ```lean\n  x -/\n  ```\n-/"),
        vec![text("```lean\n  x -/\n  ```")]
    );
}

#[test]
fn closing_fence_without_opening_is_prose() {
    assert_eq!(blocks_of("/-\n```\n-/"), vec![text("```")]);
}

#[test]
fn unterminated_comment_is_an_error() {
    assert_eq!(build_blocks("/- never closed"), Err(ScanError::UnterminatedComment));
    assert_eq!(build_blocks("code\n/-\ntext\n"), Err(ScanError::UnterminatedComment));
}

#[test]
fn unterminated_code_example_is_an_error() {
    assert_eq!(build_blocks("/-\n```lean\nx\n-/\n"), Err(ScanError::UnterminatedComment));
}

#[test]
fn unterminated_quiz_is_an_error() {
    assert_eq!(build_blocks("/-\n--@quiz:q\nbody\n-/\n"), Err(ScanError::UnterminatedComment));
}

#[test]
fn close_followed_by_admonish_suffix_does_not_close() {
    assert_eq!(build_blocks("/-\ntext\n-/ --+"), Err(ScanError::UnterminatedComment));
}

#[test]
fn error_message() {
    assert_eq!(
        ScanError::UnterminatedComment.message(),
        "Unclosed comment block at the end of file"
    );
}

#[test]
fn inline_admonish_docstring() {
    assert_eq!(blocks_of("/-- doc -/ --+"), vec![admonish("doc")]);
}

#[test]
fn inline_admonish_docstring_after_code() {
    assert_eq!(
        blocks_of("def a := 1\n/-- doc -/ --+\ndef b := 2"),
        vec![code("def a := 1"), admonish("doc"), code("def b := 2")]
    );
}

#[test]
fn docstring_that_is_not_closed_on_its_line_is_code() {
    assert_eq!(blocks_of("/-- doc --+"), vec![code("/-- doc --+")]);
    assert_eq!(
        blocks_of("/-- doc\nmore -/\ndef a := 1"),
        vec![code("/-- doc\nmore -/\ndef a := 1")]
    );
}

#[test]
fn inline_docstring_stays_with_the_code() {
    assert_eq!(
        blocks_of("/-- doc -/\ndef a := 1"),
        vec![code("/-- doc -/\ndef a := 1")]
    );
}

#[test]
fn admonish_docstring_without_room_for_text() {
    assert_eq!(blocks_of("a\n/--/ --+\nb"), vec![code("a"), code("b")]);
}

#[test]
fn inline_comment_with_code_after_it() {
    assert_eq!(
        blocks_of("/- note -/ def a := 1\ndef b := 2"),
        vec![text("note"), code("def a := 1\ndef b := 2")]
    );
}

#[test]
fn inline_comment_keeps_what_stands_before_the_second_close() {
    assert_eq!(
        blocks_of("/- a -/ b -/ c"),
        vec![text("a -/ b"), code("b")]
    );
}

#[test]
fn inline_comment_followed_by_admonish_suffix() {
    assert_eq!(blocks_of("/- a -/ --+\nb"), vec![text("a"), code("b")]);
}

#[test]
fn inline_comment_of_overlapping_markers() {
    assert_eq!(blocks_of("a\n/-/\nb"), vec![code("a"), code("b")]);
}

#[test]
fn quiz_is_captured() {
    let input = "/-\nIntro\n--@quiz:foo\n[[questions]]\ntype = \"x\"\n--@quiz-end\nOutro\n-/\ncode";
    let (blocks, quizzes) = build_blocks(input).unwrap();
    assert_eq!(blocks, vec![text("Intro"), quiz("foo"), text("Outro"), code("code")]);
    assert_eq!(
        quizzes,
        vec![("foo".to_string(), "[[questions]]\ntype = \"x\"\n".to_string())]
    );
}

#[test]
fn quiz_name_is_trimmed() {
    let (blocks, quizzes) = build_blocks("/-\n--@quiz:   spaced name \n--@quiz-end\n-/").unwrap();
    assert_eq!(blocks, vec![quiz("spaced name")]);
    assert_eq!(quizzes, vec![("spaced name".to_string(), String::new())]);
}

#[test]
fn quiz_body_keeps_marked_lines() {
    let input = "/-\n--@quiz:q\nhidden --#\nkept --!\n--@quiz:other\n-/\n  indented\n--@quiz-end\n-/";
    let (blocks, quizzes) = build_blocks(input).unwrap();
    assert_eq!(blocks, vec![quiz("q")]);
    assert_eq!(
        quizzes,
        vec![(
            "q".to_string(),
            "hidden --#\nkept --!\n--@quiz:other\n-/\n  indented\n".to_string()
        )]
    );
}

#[test]
fn quiz_body_skips_an_ignore_region() {
    let input = "/-\n--@quiz:q\na\n--#--\nb\n--@quiz-end\n--#--\nc\n--@quiz-end\n-/";
    let (_, quizzes) = build_blocks(input).unwrap();
    assert_eq!(quizzes, vec![("q".to_string(), "a\nc\n".to_string())]);
}

#[test]
fn quiz_markers_outside_a_comment_are_code() {
    let (blocks, quizzes) = build_blocks("--@quiz:foo\nbody\n--@quiz-end").unwrap();
    assert_eq!(blocks, vec![code("--@quiz:foo\nbody\n--@quiz-end")]);
    assert!(quizzes.is_empty());
}

#[test]
fn quiz_end_without_start_is_prose() {
    assert_eq!(blocks_of("/-\n--@quiz-end\n-/"), vec![text("--@quiz-end")]);
}

#[test]
fn two_quizzes_may_share_a_name() {
    let input = "/-\n--@quiz:q\na\n--@quiz-end\n--@quiz:q\nb\n--@quiz-end\n-/";
    let (blocks, quizzes) = build_blocks(input).unwrap();
    assert_eq!(blocks, vec![quiz("q"), quiz("q")]);
    assert_eq!(
        quizzes,
        vec![("q".to_string(), "a\n".to_string()), ("q".to_string(), "b\n".to_string())]
    );
}

#[test]
fn quiz_inside_a_code_example_leaves_the_example_open() {
    let input = "/-\n```lean\n--@quiz:q\nbody\n--@quiz-end\n-/\n```\n-/";
    let (blocks, quizzes) = build_blocks(input).unwrap();
    assert_eq!(blocks, vec![text("```lean"), quiz("q"), text("-/\n```")]);
    assert_eq!(quizzes, vec![("q".to_string(), "body\n".to_string())]);
}

#[test]
fn text_beyond_ascii() {
    assert_eq!(
        blocks_of("/- λ → α\u{3000}-/\ndef f := \"é\"\u{a0}\n"),
        vec![text("λ → α"), code("def f := \"é\"")]
    );
}

#[test]
fn every_block_has_content_or_a_quiz() {
    let input = "\n/-\n-/\n/- -/\n/-- -/ --+\n/-\n--@quiz:q\n--@quiz-end\n-/\n \n";
    let (blocks, _) = build_blocks(input).unwrap();
    assert_eq!(blocks, vec![quiz("q")]);
}
