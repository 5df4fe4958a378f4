//! The per-line comment state machine.
use vstd::prelude::*;

use crate::markers::{
    block_comment_prefixes, block_comment_suffixes, chars_of, has_prefix_in, has_suffix_in,
    single_comment_prefixes, starts_with, Markers,
};

verus! {

/// What a line counts as.
#[derive(Clone, Copy, Debug, PartialEq, Eq, Structural)]
pub enum Category {
    Blank,
    Comment,
    Code,
}

/// The category of a trimmed line and the block state after it, given the
/// block state before it. The first rule that applies decides.
pub open spec fn classify_spec(line: Seq<char>, in_block: bool) -> (Category, bool) {
    if line.len() == 0 {
        (Category::Blank, in_block)
    } else if has_prefix_in(line, single_comment_prefixes()) {
        (Category::Comment, in_block)
    } else if has_prefix_in(line, block_comment_prefixes()) {
        (Category::Comment, true)
    } else if in_block {
        (Category::Comment, !has_suffix_in(line, block_comment_suffixes()))
    } else {
        (Category::Code, false)
    }
}

impl Markers {
    /// Classifies one trimmed line given whether a block comment is open;
    /// returns its category and whether a block comment is open after it.
    pub fn classify(&self, line: &str, in_block: bool) -> (r: (Category, bool))
        requires
            self.wf(),
        ensures
            r == classify_spec(line@, in_block),
    {
        let chars = chars_of(line);
        self.classify_chars(&chars, in_block)
    }

    /// `classify` on a line given as characters.
    pub fn classify_chars(&self, line: &Vec<char>, in_block: bool) -> (r: (Category, bool))
        requires
            self.wf(),
        ensures
            r == classify_spec(line@, in_block),
    {
        if line.len() == 0 {
            (Category::Blank, in_block)
        } else if self.is_single_comment(line) {
            (Category::Comment, in_block)
        } else if self.is_begin_block_comments(line) {
            (Category::Comment, true)
        } else if in_block {
            (Category::Comment, !self.is_end_block_comments(line))
        } else {
            (Category::Code, false)
        }
    }
}

/// A line that starts with a single-line comment marker is a comment and
/// leaves the block state as it was, whether or not it also starts with a
/// block opening marker.
pub proof fn lemma_single_line_priority(line: Seq<char>, in_block: bool)
    requires
        has_prefix_in(line, single_comment_prefixes()),
    ensures
        classify_spec(line, in_block) == (Category::Comment, in_block),
{
}

/// `--` is in both the single-line table and the block opening table, and a
/// line that starts with it is a single-line comment that opens no block.
pub proof fn lemma_double_dash_is_single_line(line: Seq<char>, in_block: bool)
    requires
        starts_with(line, seq!['-', '-']),
    ensures
        has_prefix_in(line, single_comment_prefixes()),
        has_prefix_in(line, block_comment_prefixes()),
        classify_spec(line, in_block) == (Category::Comment, in_block),
{
    assert(single_comment_prefixes()[4] == seq!['-', '-']);
    assert(block_comment_prefixes()[2] == seq!['-', '-']);
    lemma_single_line_priority(line, in_block);
}

} // verus!
