//! What a scan gives back: blocks of content, and the one error.

use crate::text::trim;
use vstd::prelude::*;
use vstd::string::StringExecFns;

verus! {

/// How a block is to be shown.
#[derive(Clone, Copy, PartialEq, Eq, Debug, Structural)]
pub enum BlockKind {
    /// Prose taken out of a comment.
    Text,
    /// Source code, passed through.
    Code,
    /// Prose to be shown as a call-out.
    Admonish,
}

/// One unit of output.
#[derive(Clone, PartialEq, Eq, Debug)]
pub struct Block {
    /// The trimmed text of the block; empty where the block stands for a quiz.
    pub content: String,
    pub kind: BlockKind,
    /// The name of the quiz that this block stands in for, if it does.
    pub quiz_reference: Option<String>,
}

/// A `Block` as plain values.
pub struct BlockView {
    pub content: Seq<char>,
    pub kind: BlockKind,
    pub quiz_reference: Option<Seq<char>>,
}

impl BlockView {
    /// A block of trimmed text, never empty.
    pub open spec fn of_text(text: Seq<char>, kind: BlockKind) -> BlockView {
        BlockView { content: trim(text), kind, quiz_reference: None }
    }

    /// The block that stands where the quiz `name` was captured.
    pub open spec fn of_quiz(name: Seq<char>) -> BlockView {
        BlockView { content: Seq::empty(), kind: BlockKind::Text, quiz_reference: Some(name) }
    }

    /// A block either stands for a quiz and has no content, or holds text
    /// that is not empty and has no white space at either end.
    pub open spec fn well_formed(self) -> bool {
        match self.quiz_reference {
            Some(_) => self.content.len() == 0 && self.kind == BlockKind::Text,
            None => self.content.len() > 0 && trim(self.content) == self.content,
        }
    }
}

impl View for Block {
    type V = BlockView;

    open spec fn view(&self) -> BlockView {
        BlockView {
            content: self.content@,
            kind: self.kind,
            quiz_reference: match self.quiz_reference {
                Some(name) => Some(name@),
                None => None,
            },
        }
    }
}

impl DeepView for Block {
    type V = BlockView;

    open spec fn deep_view(&self) -> BlockView {
        self@
    }
}

impl Block {
    pub fn is_code(&self) -> (r: bool)
        ensures
            r == (self.kind == BlockKind::Code),
    {
        matches!(self.kind, BlockKind::Code)
    }

    pub fn is_admonish(&self) -> (r: bool)
        ensures
            r == (self.kind == BlockKind::Admonish),
    {
        matches!(self.kind, BlockKind::Admonish)
    }
}

/// Why a scan gave nothing.
#[derive(Clone, Copy, PartialEq, Eq, Debug, Structural)]
pub enum ScanError {
    /// The input ended inside a comment.
    UnterminatedComment,
}

impl ScanError {
    pub open spec fn message_text(self) -> Seq<char> {
        "Unclosed comment block at the end of file"@
    }

    /// The error in words.
    pub fn message(&self) -> (s: String)
        ensures
            s@ == self.message_text(),
    {
        String::from_str("Unclosed comment block at the end of file")
    }
}

} // verus!
