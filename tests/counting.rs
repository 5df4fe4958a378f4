use line_counter::aggregate::{Aggregator, CntResult};
use line_counter::classify::Category;
use line_counter::dispatch::{chunk_size, count, runs_concurrently, split_chunks, CONCURRENCY_THRESHOLD};
use line_counter::markers::{chars_of, Markers};
use line_counter::scan::{count_file, count_lines, ret_file_type, CountError, FileInfo};

fn strings(lines: &[&str]) -> Vec<String> {
    lines.iter().map(|s| s.to_string()).collect()
}

fn info(tag: &str, steps: usize, blanks: usize, comments: usize, bytes: usize) -> FileInfo {
    FileInfo { filetype: tag.to_string(), steps, blanks, comments, files: 0, bytes }
}

fn io_error(path: &str) -> CountError {
    CountError::Io { path: path.to_string(), cause: "permission denied".to_string() }
}

#[test]
fn classify_blank_keeps_state() {
    let m = Markers::new();
    assert_eq!(m.classify("", false), (Category::Blank, false));
    assert_eq!(m.classify("", true), (Category::Blank, true));
}

#[test]
fn classify_single_line_comments() {
    let m = Markers::new();
    assert_eq!(m.classify("// note", false), (Category::Comment, false));
    assert_eq!(m.classify("# note", true), (Category::Comment, true));
    assert_eq!(m.classify("rem note", false), (Category::Comment, false));
    assert_eq!(m.classify("\u{235D} note", false), (Category::Comment, false));
}

#[test]
fn classify_block_open_and_close() {
    let m = Markers::new();
    assert_eq!(m.classify("/* open", false), (Category::Comment, true));
    assert_eq!(m.classify("inside", true), (Category::Comment, true));
    assert_eq!(m.classify("done */", true), (Category::Comment, false));
    assert_eq!(m.classify("/* again", true), (Category::Comment, true));
}

#[test]
fn classify_code() {
    let m = Markers::new();
    assert_eq!(m.classify("let x = 1;", false), (Category::Code, false));
    assert_eq!(m.classify("x */", false), (Category::Code, false));
}

#[test]
fn classify_is_repeatable() {
    let m = Markers::new();
    for line in ["", "// c", "/* b", "code", "end */"] {
        for state in [false, true] {
            assert_eq!(m.classify(line, state), m.classify(line, state));
        }
    }
}

#[test]
fn double_dash_is_single_line_comment() {
    let m = Markers::new();
    let line = chars_of("-- comment");
    assert!(m.is_single_comment(&line));
    assert!(m.is_begin_block_comments(&line));
    assert_eq!(m.classify("-- comment", false), (Category::Comment, false));
    assert_eq!(m.classify("--", true), (Category::Comment, true));
}

#[test]
fn end_block_markers() {
    let m = Markers::new();
    assert!(m.is_end_block_comments(&chars_of("x -->")));
    assert!(m.is_end_block_comments(&chars_of("|#")));
    assert!(!m.is_end_block_comments(&chars_of("*/ x")));
}

#[test]
fn block_comment_persistence() {
    let m = Markers::new();
    let lines = ["/* start", "still inside", "end */", "code();"];
    let mut state = false;
    let mut cats = Vec::new();
    let mut states = Vec::new();
    for l in lines {
        let (c, next) = m.classify(l, state);
        cats.push(c);
        states.push(next);
        state = next;
    }
    assert_eq!(cats, vec![Category::Comment, Category::Comment, Category::Comment, Category::Code]);
    assert_eq!(states, vec![true, true, false, false]);
}

#[test]
fn block_comment_persistence_counts() {
    let m = Markers::new();
    let lines = strings(&["/* start", "still inside", "end */", "code();"]);
    let r = count_lines("rs".to_string(), &lines, &m).unwrap();
    assert_eq!(r.steps, 4);
    assert_eq!(r.comments, 3);
    assert_eq!(r.blanks, 0);
}

#[test]
fn byte_count_approximation() {
    let m = Markers::new();
    let lines = strings(&["abcd", "", "0123456789"]);
    let r = count_lines("txt".to_string(), &lines, &m).unwrap();
    assert_eq!(r.bytes, 17);
    assert_eq!(r.steps, 3);
    assert_eq!(r.blanks, 1);
    assert_eq!(r.files, 0);
}

#[test]
fn byte_count_uses_trimmed_lines() {
    let m = Markers::new();
    let lines = strings(&["    abcd  ", "\t\t", "  // x"]);
    let r = count_lines("txt".to_string(), &lines, &m).unwrap();
    assert_eq!(r.bytes, 5 + 1 + 5);
    assert_eq!(r.blanks, 1);
    assert_eq!(r.comments, 1);
}

#[test]
fn byte_count_is_utf8_length() {
    let m = Markers::new();
    let lines = strings(&["\u{e9}", "\u{235D}"]);
    let r = count_lines("txt".to_string(), &lines, &m).unwrap();
    assert_eq!(r.bytes, (2 + 1) + (3 + 1));
    assert_eq!(r.comments, 1);
}

#[test]
fn steps_split_into_blank_comment_code() {
    let m = Markers::new();
    let lines = strings(&["fn main() {", "", "    // hi", "    x();", "}", "/*", "*/"]);
    let r = count_lines("rs".to_string(), &lines, &m).unwrap();
    assert_eq!(r.steps, 7);
    assert_eq!(r.blanks, 1);
    assert_eq!(r.comments, 3);
    assert_eq!(r.steps - r.blanks - r.comments, 3);
}

#[test]
fn empty_file_counts_nothing() {
    let m = Markers::new();
    let r = count_lines("rs".to_string(), &Vec::new(), &m).unwrap();
    assert_eq!((r.steps, r.blanks, r.comments, r.bytes), (0, 0, 0, 0));
}

#[test]
fn file_type_tags() {
    assert_eq!(ret_file_type("main.rs"), Some("rs".to_string()));
    assert_eq!(ret_file_type("Makefile"), Some("Makefile".to_string()));
    assert_eq!(ret_file_type("src/archive.tar.gz"), Some("gz".to_string()));
    assert_eq!(ret_file_type("home/.bashrc"), Some(".bashrc".to_string()));
    assert_eq!(ret_file_type("notes."), Some("".to_string()));
    assert_eq!(ret_file_type("a/b/"), Some("b".to_string()));
    assert_eq!(ret_file_type("/"), None);
    assert_eq!(ret_file_type("a/.."), None);
}

#[test]
fn count_file_tags_and_counts() {
    let m = Markers::new();
    let r = count_file("src/lib.rs", &strings(&["// x", "y"]), &m).unwrap();
    assert_eq!(r.filetype, "rs");
    assert_eq!((r.steps, r.comments, r.bytes), (2, 1, 7));
    assert!(matches!(count_file("..", &strings(&["y"]), &m), Err(CountError::NoFileName)));
}

#[test]
fn merge_same_type_shares_bucket() {
    let mut a = Aggregator::new();
    assert!(a.merge(&info("rs", 10, 2, 3, 100)));
    assert!(a.merge(&info("rs", 5, 1, 1, 40)));
    assert!(a.merge(&info("Makefile", 4, 0, 1, 30)));
    let r = a.into_result("root".to_string());
    assert_eq!(r.info.len(), 2);
    let rs = r.info.iter().find(|f| f.filetype == "rs").unwrap();
    assert_eq!((rs.steps, rs.blanks, rs.comments, rs.files, rs.bytes), (15, 3, 4, 2, 140));
    let mk = r.info.iter().find(|f| f.filetype == "Makefile").unwrap();
    assert_eq!(mk.files, 1);
    assert_eq!(r.all_files, 3);
    assert_eq!(r.all_steps, 19);
    assert_eq!(r.input_path, "root");
}

#[test]
fn merge_refuses_overflow() {
    let mut a = Aggregator::new();
    assert!(a.merge(&info("rs", usize::MAX, 0, 0, 0)));
    assert!(!a.merge(&info("rs", 1, 0, 0, 0)));
    let r = a.into_result("root".to_string());
    assert_eq!(r.info.len(), 1);
    assert_eq!(r.info[0].files, 1);
}

#[test]
fn grand_totals_are_fold() {
    let mut r = CntResult {
        info: vec![
            FileInfo { filetype: "rs".to_string(), steps: 10, blanks: 1, comments: 2, files: 3, bytes: 50 },
            FileInfo { filetype: "py".to_string(), steps: 7, blanks: 2, comments: 1, files: 2, bytes: 30 },
            FileInfo { filetype: "c".to_string(), steps: 1, blanks: 0, comments: 0, files: 1, bytes: 5 },
        ],
        input_path: "p".to_string(),
        all_steps: 99,
        all_blanks: 99,
        all_comments: 99,
        all_files: 99,
        all_bytes: 99,
    };
    r.assign_alls();
    assert_eq!(
        (r.all_steps, r.all_blanks, r.all_comments, r.all_files, r.all_bytes),
        (18, 3, 3, 6, 85)
    );
    assert_eq!(r.info.len(), 3);
}

#[test]
fn threshold_is_six() {
    assert_eq!(CONCURRENCY_THRESHOLD, 6);
    assert!(!runs_concurrently(5));
    assert!(runs_concurrently(6));
    assert!(!runs_concurrently(0));
}

#[test]
fn five_files_fail_fast() {
    let outcomes = vec![
        Ok(info("rs", 1, 0, 0, 2)),
        Ok(info("rs", 1, 0, 0, 2)),
        Err(io_error("third.rs")),
        Ok(info("rs", 1, 0, 0, 2)),
        Err(io_error("fifth.rs")),
    ];
    match count(outcomes, "root".to_string()) {
        Err(CountError::Io { path, .. }) => assert_eq!(path, "third.rs"),
        other => panic!("expected the first error, got {:?}", other),
    }
}

#[test]
fn six_files_skip_failures() {
    let outcomes = vec![
        Ok(info("rs", 10, 1, 2, 100)),
        Ok(info("rs", 20, 2, 3, 200)),
        Err(io_error("broken.rs")),
        Ok(info("py", 5, 0, 1, 50)),
        Ok(info("rs", 1, 0, 0, 10)),
        Ok(info("py", 2, 1, 0, 20)),
    ];
    let r = count(outcomes, "root".to_string()).unwrap();
    assert_eq!(r.info.len(), 2);
    assert_eq!(
        (r.all_steps, r.all_blanks, r.all_comments, r.all_files, r.all_bytes),
        (38, 4, 6, 5, 380)
    );
    assert_eq!(r.input_path, "root");
    for f in &r.info {
        assert!(f.files >= 1);
    }
}

#[test]
fn small_count_without_errors() {
    let outcomes = vec![Ok(info("rs", 3, 1, 1, 12)), Ok(info("toml", 2, 0, 0, 8))];
    let r = count(outcomes, "x".to_string()).unwrap();
    assert_eq!(r.info.len(), 2);
    assert_eq!((r.all_steps, r.all_files, r.all_bytes), (5, 2, 20));
}

#[test]
fn empty_count() {
    let r = count(Vec::new(), "x".to_string()).unwrap();
    assert!(r.info.is_empty());
    assert_eq!((r.all_steps, r.all_files), (0, 0));
}

#[test]
fn count_reports_overflow() {
    let outcomes = vec![Ok(info("rs", usize::MAX, 0, 0, 0)), Ok(info("py", 1, 0, 0, 0))];
    assert!(matches!(count(outcomes, "x".to_string()), Err(CountError::Overflow)));
}

#[test]
fn chunking() {
    assert_eq!(chunk_size(7), 3);
    assert_eq!(chunk_size(6), 2);
    assert_eq!(chunk_size(0), 0);
    let files: Vec<String> = (0..7).map(|i| format!("f{}", i)).collect();
    let chunks = split_chunks(&files);
    let lens: Vec<usize> = chunks.iter().map(|c| c.len()).collect();
    assert_eq!(lens, vec![3, 3, 1]);
    assert_eq!(chunks.concat(), files);
    let four: Vec<String> = (0..4).map(|i| format!("f{}", i)).collect();
    let lens: Vec<usize> = split_chunks(&four).iter().map(|c| c.len()).collect();
    assert_eq!(lens, vec![2, 2]);
    assert!(split_chunks(&Vec::new()).is_empty());
    let six: Vec<String> = (0..6).map(|i| format!("f{}", i)).collect();
    let lens: Vec<usize> = split_chunks(&six).iter().map(|c| c.len()).collect();
    assert_eq!(lens, vec![2, 2, 2]);
}

#[test]
fn process_file_merges_one_file() {
    let mut a = Aggregator::new();
    assert!(line_counter::dispatch::process_file(&info("rs", 3, 1, 0, 9), &mut a).is_ok());
    assert!(line_counter::dispatch::process_file(&info("rs", 2, 0, 1, 6), &mut a).is_ok());
    assert!(matches!(
        line_counter::dispatch::process_file(&info("rs", usize::MAX, 0, 0, 0), &mut a),
        Err(CountError::Overflow)
    ));
    let r = a.into_result("p".to_string());
    assert_eq!((r.info[0].steps, r.info[0].files, r.info[0].bytes), (5, 2, 15));
}
