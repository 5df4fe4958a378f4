//! Scanning the lines of one file into a per-file tally, and the file's type tag.
use vstd::prelude::*;
use vstd::string::StrSliceExecFns;

use crate::classify::{classify_spec, Category};
use crate::markers::{chars_of, Markers};

verus! {

/// Counts for one file type, or for one file before it is merged.
#[derive(Debug)]
pub struct FileInfo {
    pub filetype: String,
    pub steps: usize,
    pub blanks: usize,
    pub comments: usize,
    pub files: usize,
    pub bytes: usize,
}

/// The mathematical content of a `FileInfo`.
pub struct Counts {
    pub tag: Seq<char>,
    pub steps: nat,
    pub blanks: nat,
    pub comments: nat,
    pub files: nat,
    pub bytes: nat,
}

impl View for FileInfo {
    type V = Counts;

    open spec fn view(&self) -> Counts {
        Counts {
            tag: self.filetype@,
            steps: self.steps as nat,
            blanks: self.blanks as nat,
            comments: self.comments as nat,
            files: self.files as nat,
            bytes: self.bytes as nat,
        }
    }
}

/// Why a count could not be produced.
#[derive(Debug)]
pub enum CountError {
    /// A file could not be opened or read; carries the path and the cause.
    Io { path: String, cause: String },
    /// The path has no final file name component.
    NoFileName,
    /// A count would not fit in a machine word.
    Overflow,
}

/// The line with leading and trailing whitespace removed.
pub uninterp spec fn trimmed(s: Seq<char>) -> Seq<char>;

/// Relies on `str::trim`: the slice without leading and trailing whitespace,
/// which depends on the characters of the line alone.
#[verifier::external_body]
fn trim_line(s: &str) -> (r: &str)
    ensures
        r@ == trimmed(s@),
{
    s.trim()
}

/// The final component of a path, when it is a normal one.
pub uninterp spec fn file_name_of(path: Seq<char>) -> Option<Seq<char>>;

/// Relies on `std::path::Path::file_name`: the final component of the path,
/// or none when the path ends in `..` or is a root; it depends on the
/// characters of the path alone.
#[verifier::external_body]
fn path_file_name(path: &str) -> (r: Option<String>)
    ensures
        match r {
            Some(n) => file_name_of(path@) == Some(n@),
            None => file_name_of(path@) is None,
        },
{
    match std::path::Path::new(path).file_name() {
        Some(n) => Some(n.to_string_lossy().into_owned()),
        None => None,
    }
}

/// Number of bytes of a character in UTF-8.
pub open spec fn utf8_width(c: char) -> nat {
    if (c as u32) < 0x80 {
        1
    } else if (c as u32) < 0x800 {
        2
    } else if (c as u32) < 0x10000 {
        3
    } else {
        4
    }
}

/// Number of bytes of a character sequence in UTF-8.
pub open spec fn utf8_len(s: Seq<char>) -> nat
    decreases s.len(),
{
    if s.len() == 0 {
        0
    } else {
        utf8_len(s.drop_last()) + utf8_width(s.last())
    }
}

/// Index of the last `.` in `s`, or -1 when there is none.
pub open spec fn last_dot(s: Seq<char>) -> int
    decreases s.len(),
{
    if s.len() == 0 {
        -1
    } else if s.last() == '.' {
        s.len() - 1
    } else {
        last_dot(s.drop_last())
    }
}

/// The extension of a file name: what follows its last `.`; none when it
/// has no `.`, or when its only `.` is its first character.
pub open spec fn extension_of(name: Seq<char>) -> Option<Seq<char>> {
    let d = last_dot(name);
    if d <= 0 {
        None
    } else {
        Some(name.subrange(d + 1, name.len() as int))
    }
}

/// The type tag of a path: the extension of its file name, or the file name
/// itself when it has no extension; none when the path has no file name.
pub open spec fn file_type_of(path: Seq<char>) -> Option<Seq<char>> {
    match file_name_of(path) {
        None => None,
        Some(n) => match extension_of(n) {
            Some(e) => Some(e),
            None => Some(n),
        },
    }
}

/// Running counts over the lines of one file.
pub struct Tally {
    pub steps: nat,
    pub blanks: nat,
    pub comments: nat,
    pub bytes: nat,
    pub in_block: bool,
}

/// The tally of a sequence of trimmed lines, starting outside any block
/// comment: every line is a step and adds its byte length plus one for its
/// newline; blank and comment lines are counted as `classify_spec` says.
pub open spec fn tally(lines: Seq<Seq<char>>) -> Tally
    decreases lines.len(),
{
    if lines.len() == 0 {
        Tally { steps: 0, blanks: 0, comments: 0, bytes: 0, in_block: false }
    } else {
        let t = tally(lines.drop_last());
        let l = lines.last();
        let (c, next) = classify_spec(l, t.in_block);
        Tally {
            steps: t.steps + 1,
            blanks: t.blanks + if c == Category::Blank { 1nat } else { 0nat },
            comments: t.comments + if c == Category::Comment { 1nat } else { 0nat },
            bytes: t.bytes + utf8_len(l) + 1,
            in_block: next,
        }
    }
}

/// The lines of a file as the scanner sees them, trimmed.
pub open spec fn trimmed_lines(lines: Seq<String>) -> Seq<Seq<char>> {
    lines.map_values(|l: String| trimmed(l@))
}

/// Every line is a step, and is blank, comment or code: the code lines,
/// `steps - blanks - comments`, are never negative.
pub proof fn lemma_tally_steps(lines: Seq<Seq<char>>)
    ensures
        tally(lines).steps == lines.len(),
        tally(lines).blanks + tally(lines).comments <= tally(lines).steps,
    decreases lines.len(),
{
    if lines.len() > 0 {
        lemma_tally_steps(lines.drop_last());
    }
}

/// The byte count of a prefix of the lines is at most that of all of them.
pub proof fn lemma_tally_bytes_monotone(lines: Seq<Seq<char>>, i: int)
    requires
        0 <= i <= lines.len(),
    ensures
        tally(lines.subrange(0, i)).bytes <= tally(lines).bytes,
    decreases lines.len() - i,
{
    if i < lines.len() {
        lemma_tally_bytes_monotone(lines, i + 1);
        assert(lines.subrange(0, i + 1).drop_last() =~= lines.subrange(0, i));
    } else {
        assert(lines.subrange(0, i) =~= lines);
    }
}

proof fn lemma_utf8_len_monotone(s: Seq<char>, i: int)
    requires
        0 <= i <= s.len(),
    ensures
        utf8_len(s.subrange(0, i)) <= utf8_len(s),
    decreases s.len() - i,
{
    if i < s.len() {
        lemma_utf8_len_monotone(s, i + 1);
        assert(s.subrange(0, i + 1).drop_last() =~= s.subrange(0, i));
    } else {
        assert(s.subrange(0, i) =~= s);
    }
}

/// Number of bytes of the characters in UTF-8, or none when that does not
/// fit in a machine word.
fn utf8_byte_len(s: &Vec<char>) -> (r: Option<usize>)
    ensures
        r is Some <==> utf8_len(s@) <= usize::MAX,
        r matches Some(n) ==> n == utf8_len(s@),
{
    let mut total: usize = 0;
    let mut i: usize = 0;
    while i < s.len()
        invariant
            i <= s.len(),
            total == utf8_len(s@.subrange(0, i as int)),
        decreases s.len() - i,
    {
        let c = s[i] as u32;
        let w: usize = if c < 0x80 {
            1
        } else if c < 0x800 {
            2
        } else if c < 0x10000 {
            3
        } else {
            4
        };
        assert(s@.subrange(0, i + 1).drop_last() =~= s@.subrange(0, i as int));
        if total > usize::MAX - w {
            proof {
                lemma_utf8_len_monotone(s@, i + 1);
            }
            return None;
        }
        total = total + w;
        i = i + 1;
    }
    assert(s@.subrange(0, i as int) =~= s@);
    Some(total)
}

/// The type tag of a file: the extension of its file name, or the whole file
/// name when it has none (`main.rs` gives `rs`, `Makefile` gives `Makefile`).
pub fn ret_file_type(path: &str) -> (r: Option<String>)
    ensures
        match r {
            Some(t) => file_type_of(path@) == Some(t@),
            None => file_type_of(path@) is None,
        },
{
    let name = match path_file_name(path) {
        Some(n) => n,
        None => return None,
    };
    let chars = chars_of(name.as_str());
    let mut i: usize = chars.len();
    assert(chars@.subrange(0, i as int) =~= chars@);
    while i > 0
        invariant
            i <= chars.len(),
            chars@ == name@,
            last_dot(chars@) == last_dot(chars@.subrange(0, i as int)),
        ensures
            last_dot(chars@) == i - 1,
        decreases i,
    {
        assert(chars@.subrange(0, i as int).drop_last() =~= chars@.subrange(0, i - 1));
        if chars[i - 1] == '.' {
            break;
        }
        i = i - 1;
    }
    if i <= 1 {
        Some(name)
    } else {
        let ext = name.as_str().substring_char(i, chars.len());
        Some(ext.to_owned())
    }
}

/// Counts the lines of one file, each trimmed first, under the given type
/// tag. The result has `files == 0`: it is merged into a bucket as one file.
/// None when the byte count would not fit in a machine word.
pub fn count_lines(filetype: String, lines: &Vec<String>, markers: &Markers) -> (r: Option<FileInfo>)
    requires
        markers.wf(),
    ensures
        r is Some <==> tally(trimmed_lines(lines@)).bytes <= usize::MAX,
        r matches Some(info) ==> {
            let t = tally(trimmed_lines(lines@));
            &&& info@.tag == filetype@
            &&& info@.steps == t.steps
            &&& info@.blanks == t.blanks
            &&& info@.comments == t.comments
            &&& info@.files == 0
            &&& info@.bytes == t.bytes
            &&& info@.blanks + info@.comments <= info@.steps
        },
{
    let ghost all = trimmed_lines(lines@);
    let mut steps: usize = 0;
    let mut blanks: usize = 0;
    let mut comments: usize = 0;
    let mut bytes: usize = 0;
    let mut in_block = false;
    let mut i: usize = 0;
    while i < lines.len()
        invariant
            markers.wf(),
            all == trimmed_lines(lines@),
            i <= lines.len(),
            ({
                let t = tally(all.subrange(0, i as int));
                &&& steps == t.steps
                &&& blanks == t.blanks
                &&& comments == t.comments
                &&& bytes == t.bytes
                &&& in_block == t.in_block
            }),
        decreases lines.len() - i,
    {
        proof {
            lemma_tally_steps(all.subrange(0, i as int));
            assert(all.subrange(0, i + 1).drop_last() =~= all.subrange(0, i as int));
        }
        let line = trim_line(lines[i].as_str());
        let chars = chars_of(line);
        let (cat, next) = markers.classify_chars(&chars, in_block);
        let n = utf8_byte_len(&chars);
        let too_large = match n {
            Some(n) => n >= usize::MAX - bytes,
            None => true,
        };
        if too_large {
            proof {
                lemma_tally_bytes_monotone(all, i + 1);
            }
            return None;
        }
        let n = n.unwrap();
        steps = steps + 1;
        bytes = bytes + n + 1;
        match cat {
            Category::Blank => {
                blanks = blanks + 1;
            },
            Category::Comment => {
                comments = comments + 1;
            },
            Category::Code => {},
        }
        in_block = next;
        i = i + 1;
    }
    assert(all.subrange(0, i as int) =~= all);
    proof {
        lemma_tally_steps(all);
    }
    Some(FileInfo { filetype, steps, blanks, comments, files: 0, bytes })
}

/// Counts one file from its path and its lines: its type tag comes from the
/// path, its counts from `count_lines`.
pub fn count_file(path: &str, lines: &Vec<String>, markers: &Markers) -> (r: Result<
    FileInfo,
    CountError,
>)
    requires
        markers.wf(),
    ensures
        file_type_of(path@) is None ==> r matches Err(CountError::NoFileName),
        file_type_of(path@) is Some && tally(trimmed_lines(lines@)).bytes > usize::MAX ==> r matches Err(
            CountError::Overflow,
        ),
        file_type_of(path@) is Some && tally(trimmed_lines(lines@)).bytes <= usize::MAX ==> r is Ok,
        r matches Ok(info) ==> {
            let t = tally(trimmed_lines(lines@));
            &&& Some(info@.tag) == file_type_of(path@)
            &&& info@.steps == t.steps
            &&& info@.blanks == t.blanks
            &&& info@.comments == t.comments
            &&& info@.files == 0
            &&& info@.bytes == t.bytes
        },
{
    let filetype = match ret_file_type(path) {
        Some(t) => t,
        None => return Err(CountError::NoFileName),
    };
    match count_lines(filetype, lines, markers) {
        Some(info) => Ok(info),
        None => Err(CountError::Overflow),
    }
}

} // verus!
