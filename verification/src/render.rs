//! From blocks to Markdown.

use crate::block::{Block, BlockKind, BlockView};
use crate::text::{from_chars, push_str, trim_end, trim_end_len};
use vstd::prelude::*;

verus! {

/// One block as Markdown, with the empty line that parts it from the next.
/// A block without content that stands for no quiz gives nothing.
pub open spec fn render_block(block: BlockView) -> Seq<char> {
    match block.quiz_reference {
        Some(name) => "{{#quiz ../quizzes/"@ + name + ".toml}}\n\n"@,
        None => if block.content.len() == 0 {
            Seq::empty()
        } else {
            match block.kind {
                BlockKind::Code => "```lean\n"@ + block.content + "\n```\n\n"@,
                BlockKind::Admonish => {
                    "```admonish abstract collapsible = false, title = \"Docstring\"\n"@
                        + block.content + "\n```\n\n"@
                },
                BlockKind::Text => block.content + "\n\n"@,
            }
        },
    }
}

/// The blocks as Markdown, one after the other.
pub open spec fn render_blocks(blocks: Seq<BlockView>) -> Seq<char>
    decreases blocks.len(),
{
    if blocks.len() == 0 {
        Seq::empty()
    } else {
        render_blocks(blocks.drop_last()) + render_block(blocks.last())
    }
}

/// The Markdown of a file: its blocks, without white space at the end, and
/// one newline.
pub open spec fn render(blocks: Seq<BlockView>) -> Seq<char> {
    trim_end(render_blocks(blocks)).push('\n')
}

/// Appends one block as Markdown to `out`.
fn render_block_into(out: &mut Vec<char>, block: &Block)
    ensures
        final(out)@ == old(out)@ + render_block(block@),
{
    match &block.quiz_reference {
        Some(name) => {
            push_str(out, "{{#quiz ../quizzes/");
            push_str(out, name.as_str());
            push_str(out, ".toml}}\n\n");
            assert(out@ =~= old(out)@ + render_block(block@));
        },
        None => {
            let content = block.content.as_str();
            if content.is_empty() {
                assert(out@ =~= old(out)@ + render_block(block@));
                return ;
            }
            match block.kind {
                BlockKind::Code => {
                    push_str(out, "```lean\n");
                    push_str(out, content);
                    push_str(out, "\n```\n\n");
                },
                BlockKind::Admonish => {
                    push_str(
                        out,
                        "```admonish abstract collapsible = false, title = \"Docstring\"\n",
                    );
                    push_str(out, content);
                    push_str(out, "\n```\n\n");
                },
                BlockKind::Text => {
                    push_str(out, content);
                    push_str(out, "\n\n");
                },
            }
            assert(out@ =~= old(out)@ + render_block(block@));
        },
    }
}

/// The Markdown of a file, from its blocks.
pub fn merge_blocks(blocks: &[Block]) -> (markdown: String)
    ensures
        markdown@ == render(blocks.deep_view()),
{
    let mut out: Vec<char> = Vec::new();
    let mut i: usize = 0;
    assert(blocks.deep_view().take(0) =~= Seq::empty());
    while i < blocks.len()
        invariant
            i <= blocks.len(),
            out@ == render_blocks(blocks.deep_view().take(i as int)),
        decreases blocks.len() - i,
    {
        render_block_into(&mut out, &blocks[i]);
        proof {
            let done = blocks.deep_view().take(i + 1);
            assert(done.drop_last() =~= blocks.deep_view().take(i as int));
            assert(done.last() == blocks[i as int]@);
        }
        i += 1;
    }
    assert(blocks.deep_view().take(i as int) =~= blocks.deep_view());
    let n = trim_end_len(out.as_slice());
    out.truncate(n);
    out.push('\n');
    from_chars(out.as_slice())
}

} // verus!
