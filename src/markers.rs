//! The comment marker tables and prefix / suffix matching against them.
use vstd::prelude::*;

verus! {

/// `p` is a prefix of `line`.
pub open spec fn starts_with(line: Seq<char>, p: Seq<char>) -> bool {
    p.len() <= line.len() && line.subrange(0, p.len() as int) == p
}

/// `p` is a suffix of `line`.
pub open spec fn ends_with(line: Seq<char>, p: Seq<char>) -> bool {
    p.len() <= line.len() && line.subrange(line.len() - p.len(), line.len() as int) == p
}

/// Some marker of `table` is a prefix of `line`.
pub open spec fn has_prefix_in(line: Seq<char>, table: Seq<Seq<char>>) -> bool {
    exists|i: int| 0 <= i < table.len() && starts_with(line, #[trigger] table[i])
}

/// Some marker of `table` is a suffix of `line`.
pub open spec fn has_suffix_in(line: Seq<char>, table: Seq<Seq<char>>) -> bool {
    exists|i: int| 0 <= i < table.len() && ends_with(line, #[trigger] table[i])
}

/// Markers that make a whole line a comment.
pub open spec fn single_comment_prefixes() -> Seq<Seq<char>> {
    seq![
        seq!['/', '/'],
        seq!['/', '/', '/'],
        seq!['#'],
        seq!['!'],
        seq!['-', '-'],
        seq!['%'],
        seq![';'],
        seq!['#', ';'],
        seq!['\u{235D}'],
        seq!['r', 'e', 'm', ' '],
        seq![':', ':'],
        seq![':', ' ', ' '],
        seq!['\''],
    ]
}

/// Markers that open a block comment.
pub open spec fn block_comment_prefixes() -> Seq<Seq<char>> {
    seq![
        seq!['/', '*'],
        seq!['/', '*', '*'],
        seq!['-', '-'],
        seq!['<', '!', '-', '-'],
        seq!['<', '%', '-', '-'],
        seq!['/', '/', '/', '/'],
        seq!['/', '+'],
        seq!['/', '+', '+'],
        seq!['(', '*'],
        seq!['{', '-'],
        seq!['"', '"', '"'],
        seq!['\'', '\'', '\''],
        seq!['#', '='],
        seq!['-', '-', '[', '['],
        seq!['%', '{'],
        seq!['#', '['],
        seq!['=', 'p', 'o', 'd'],
        seq!['=', 'c', 'o', 'm', 'm', 'e', 'n', 't'],
        seq!['=', 'b', 'e', 'g', 'i', 'n'],
        seq!['<', '#'],
        seq!['#', '|'],
    ]
}

/// Markers that close a block comment.
pub open spec fn block_comment_suffixes() -> Seq<Seq<char>> {
    seq![
        seq!['*', '/'],
        seq!['*', '*', '/'],
        seq!['-', '-', '>'],
        seq!['-', '-', '%', '>'],
        seq!['-', '-'],
        seq!['+', '/'],
        seq!['*', ')'],
        seq!['-', '}'],
        seq!['%', '}'],
        seq!['=', '#'],
        seq!['=', 'c', 'u', 't'],
        seq!['=', 'e', 'n', 'd'],
        seq!['-', '-', ']', ']'],
        seq![']', '#'],
        seq!['#', '>'],
        seq!['"', '"', '"'],
        seq!['\'', '\'', '\''],
        seq!['|', '#'],
    ]
}

/// The three marker tables, built once and shared read-only by every scan.
pub struct Markers {
    single: Vec<Vec<char>>,
    block_open: Vec<Vec<char>>,
    block_close: Vec<Vec<char>>,
}

/// The characters of each marker of an executable table.
pub open spec fn table_view(t: Seq<Vec<char>>) -> Seq<Seq<char>> {
    t.map_values(|m: Vec<char>| m@)
}

impl Markers {
    /// The tables hold exactly the markers of the three spec tables.
    pub closed spec fn wf(&self) -> bool {
        &&& table_view(self.single@) == single_comment_prefixes()
        &&& table_view(self.block_open@) == block_comment_prefixes()
        &&& table_view(self.block_close@) == block_comment_suffixes()
    }

    pub fn new() -> (m: Markers)
        ensures
            m.wf(),
    {
        let single = vec![
            vec!['/', '/'],
            vec!['/', '/', '/'],
            vec!['#'],
            vec!['!'],
            vec!['-', '-'],
            vec!['%'],
            vec![';'],
            vec!['#', ';'],
            vec!['\u{235D}'],
            vec!['r', 'e', 'm', ' '],
            vec![':', ':'],
            vec![':', ' ', ' '],
            vec!['\''],
        ];
        let block_open = vec![
            vec!['/', '*'],
            vec!['/', '*', '*'],
            vec!['-', '-'],
            vec!['<', '!', '-', '-'],
            vec!['<', '%', '-', '-'],
            vec!['/', '/', '/', '/'],
            vec!['/', '+'],
            vec!['/', '+', '+'],
            vec!['(', '*'],
            vec!['{', '-'],
            vec!['"', '"', '"'],
            vec!['\'', '\'', '\''],
            vec!['#', '='],
            vec!['-', '-', '[', '['],
            vec!['%', '{'],
            vec!['#', '['],
            vec!['=', 'p', 'o', 'd'],
            vec!['=', 'c', 'o', 'm', 'm', 'e', 'n', 't'],
            vec!['=', 'b', 'e', 'g', 'i', 'n'],
            vec!['<', '#'],
            vec!['#', '|'],
        ];
        let block_close = vec![
            vec!['*', '/'],
            vec!['*', '*', '/'],
            vec!['-', '-', '>'],
            vec!['-', '-', '%', '>'],
            vec!['-', '-'],
            vec!['+', '/'],
            vec!['*', ')'],
            vec!['-', '}'],
            vec!['%', '}'],
            vec!['=', '#'],
            vec!['=', 'c', 'u', 't'],
            vec!['=', 'e', 'n', 'd'],
            vec!['-', '-', ']', ']'],
            vec![']', '#'],
            vec!['#', '>'],
            vec!['"', '"', '"'],
            vec!['\'', '\'', '\''],
            vec!['|', '#'],
        ];
        let m = Markers { single, block_open, block_close };
        assert forall|i: int| 0 <= i < single_comment_prefixes().len() implies table_view(m.single@)[i]
            =~= single_comment_prefixes()[i] by {}
        assert(table_view(m.single@) =~= single_comment_prefixes());
        assert forall|i: int| 0 <= i < block_comment_prefixes().len() implies table_view(m.block_open@)[i]
            =~= block_comment_prefixes()[i] by {}
        assert(table_view(m.block_open@) =~= block_comment_prefixes());
        assert forall|i: int| 0 <= i < block_comment_suffixes().len() implies table_view(m.block_close@)[i]
            =~= block_comment_suffixes()[i] by {}
        assert(table_view(m.block_close@) =~= block_comment_suffixes());
        m
    }

    /// The line starts with a single-line comment marker.
    pub fn is_single_comment(&self, line: &Vec<char>) -> (r: bool)
        requires
            self.wf(),
        ensures
            r == has_prefix_in(line@, single_comment_prefixes()),
    {
        any_prefix(line, &self.single)
    }

    /// The line starts with a block comment opening marker.
    pub fn is_begin_block_comments(&self, line: &Vec<char>) -> (r: bool)
        requires
            self.wf(),
        ensures
            r == has_prefix_in(line@, block_comment_prefixes()),
    {
        any_prefix(line, &self.block_open)
    }

    /// The line ends with a block comment closing marker.
    pub fn is_end_block_comments(&self, line: &Vec<char>) -> (r: bool)
        requires
            self.wf(),
        ensures
            r == has_suffix_in(line@, block_comment_suffixes()),
    {
        any_suffix(line, &self.block_close)
    }
}

/// Converts a string slice to its characters.
pub fn chars_of(s: &str) -> (r: Vec<char>)
    ensures
        r@ == s@,
{
    let mut r: Vec<char> = Vec::new();
    for c in it: s.chars()
        invariant
            r@ == it.seq().subrange(0, it.index() as int),
    {
        r.push(c);
    }
    r
}

fn is_prefix(line: &Vec<char>, p: &Vec<char>) -> (r: bool)
    ensures
        r == starts_with(line@, p@),
{
    if p.len() > line.len() {
        return false;
    }
    let mut i: usize = 0;
    while i < p.len()
        invariant
            p.len() <= line.len(),
            i <= p.len(),
            forall|k: int| 0 <= k < i ==> line@[k] == p@[k],
        decreases p.len() - i,
    {
        if line[i] != p[i] {
            assert(line@.subrange(0, p.len() as int)[i as int] != p@[i as int]);
            return false;
        }
        i += 1;
    }
    assert(line@.subrange(0, p.len() as int) =~= p@);
    true
}

fn is_suffix(line: &Vec<char>, p: &Vec<char>) -> (r: bool)
    ensures
        r == ends_with(line@, p@),
{
    if p.len() > line.len() {
        return false;
    }
    let off: usize = line.len() - p.len();
    let mut i: usize = 0;
    while i < p.len()
        invariant
            p.len() <= line.len(),
            off == line.len() - p.len(),
            i <= p.len(),
            forall|k: int| 0 <= k < i ==> line@[off + k] == p@[k],
        decreases p.len() - i,
    {
        if line[off + i] != p[i] {
            assert(line@.subrange(off as int, line.len() as int)[i as int] != p@[i as int]);
            return false;
        }
        i += 1;
    }
    assert(line@.subrange(off as int, line.len() as int) =~= p@);
    true
}

fn any_prefix(line: &Vec<char>, table: &Vec<Vec<char>>) -> (r: bool)
    ensures
        r == has_prefix_in(line@, table_view(table@)),
{
    let mut i: usize = 0;
    while i < table.len()
        invariant
            i <= table.len(),
            forall|k: int| 0 <= k < i ==> !starts_with(line@, #[trigger] table@[k]@),
        decreases table.len() - i,
    {
        if is_prefix(line, &table[i]) {
            assert(table_view(table@)[i as int] == table@[i as int]@);
            return true;
        }
        i += 1;
    }
    assert forall|k: int| 0 <= k < table_view(table@).len() implies !starts_with(
        line@,
        #[trigger] table_view(table@)[k],
    ) by {
        assert(table_view(table@)[k] == table@[k]@);
    }
    false
}

fn any_suffix(line: &Vec<char>, table: &Vec<Vec<char>>) -> (r: bool)
    ensures
        r == has_suffix_in(line@, table_view(table@)),
{
    let mut i: usize = 0;
    while i < table.len()
        invariant
            i <= table.len(),
            forall|k: int| 0 <= k < i ==> !ends_with(line@, #[trigger] table@[k]@),
        decreases table.len() - i,
    {
        if is_suffix(line, &table[i]) {
            assert(table_view(table@)[i as int] == table@[i as int]@);
            return true;
        }
        i += 1;
    }
    assert forall|k: int| 0 <= k < table_view(table@).len() implies !ends_with(
        line@,
        #[trigger] table_view(table@)[k],
    ) by {
        assert(table_view(table@)[k] == table@[k]@);
    }
    false
}

} // verus!
