use git_ai::diff::{
    added_line_sets, added_lines, added_lines_between, count_lines, diff_lines, AddedLineEntry,
    FileRevisionPair, LineEditOp,
};

#[test]
fn test_compare_diff_algorithms_blank_lines() {
    let initial = "Line 1\nLine 2\nLine 3";
    let modified = "Line 1\n\nLine 2\n\nLine 3\n\nNew Line";
    let added = added_lines_between(initial, modified);
    assert!(!added.is_empty(), "diff should detect additions");
    // Every added line is a blank line or the trailing new line.
    for l in &added {
        let line = modified.split('\n').nth((*l - 1) as usize).unwrap();
        assert!(line.is_empty() || line == "New Line");
    }
}

#[test]
fn test_end_to_end_added_lines() {
    let added = added_lines_between("A\nB\nC", "A\nX\nB\nC\nD");
    assert_eq!(added, vec![2, 5]);
}

#[test]
fn test_identical_texts_add_nothing() {
    assert_eq!(added_lines_between("abc", "abc"), Vec::<u32>::new());
    assert_eq!(added_lines_between("", ""), Vec::<u32>::new());
    assert_eq!(
        added_lines_between("a\nb\nc\n", "a\nb\nc\n"),
        Vec::<u32>::new()
    );
}

#[test]
fn test_empty_old_adds_every_line() {
    assert_eq!(added_lines_between("", "x\ny"), vec![1, 2]);
    assert_eq!(added_lines_between("", "x\ny\n"), vec![1, 2]);
    assert_eq!(added_lines_between("", "single"), vec![1]);
}

#[test]
fn test_added_lines_within_new_line_count() {
    let old = "a\nb\nc\nd";
    let new = "q\nb\nr\nd\ns";
    let added = added_lines_between(old, new);
    let n = count_lines(new) as u32;
    let mut prev = 0u32;
    for l in &added {
        assert!(1 <= *l && *l <= n);
        assert!(*l > prev);
        prev = *l;
    }
}

#[test]
fn test_full_rewrite() {
    let added = added_lines_between("old text", "entirely\nnew\ntext");
    assert_eq!(added, vec![1, 2, 3]);
}

#[test]
fn test_deletions_add_nothing() {
    assert_eq!(added_lines_between("a\nb\nc", "a\nc"), Vec::<u32>::new());
    assert_eq!(added_lines_between("a\nb\nc", ""), Vec::<u32>::new());
}

#[test]
fn test_count_lines() {
    assert_eq!(count_lines(""), 0);
    assert_eq!(count_lines("a"), 1);
    assert_eq!(count_lines("a\n"), 1);
    assert_eq!(count_lines("a\nb"), 2);
    assert_eq!(count_lines("a\nb\n"), 2);
    assert_eq!(count_lines("\n\n"), 2);
}

#[test]
fn test_diff_lines_script() {
    let ops = diff_lines("A\nB\nC", "A\nX\nB\nC\nD");
    assert_eq!(
        ops,
        vec![
            LineEditOp::Equal { old_line: 1, new_line: 1 },
            LineEditOp::Insert { new_line: 2 },
            LineEditOp::Equal { old_line: 2, new_line: 3 },
            LineEditOp::Equal { old_line: 3, new_line: 4 },
            LineEditOp::Insert { new_line: 5 },
        ]
    );
}

#[test]
fn test_diff_lines_equal_texts() {
    let ops = diff_lines("a\nb", "a\nb");
    assert_eq!(
        ops,
        vec![
            LineEditOp::Equal { old_line: 1, new_line: 1 },
            LineEditOp::Equal { old_line: 2, new_line: 2 },
        ]
    );
}

#[test]
fn test_added_lines_cursor_walk() {
    let ops = vec![
        LineEditOp::Delete { old_line: 1 },
        LineEditOp::Insert { new_line: 1 },
        LineEditOp::Equal { old_line: 2, new_line: 2 },
        LineEditOp::Insert { new_line: 3 },
    ];
    assert_eq!(added_lines(&ops), vec![1, 3]);
}

#[test]
fn test_added_line_sets_per_file() {
    let pairs = vec![
        FileRevisionPair {
            path: "a.txt".to_string(),
            old_text: "A\nB\nC".to_string(),
            new_text: "A\nX\nB\nC\nD".to_string(),
        },
        FileRevisionPair {
            path: "b.txt".to_string(),
            old_text: String::new(),
            new_text: "n1\nn2".to_string(),
        },
    ];
    let sets: Vec<AddedLineEntry> = added_line_sets(&pairs);
    assert_eq!(sets.len(), 2);
    assert_eq!(sets[0].path, "a.txt");
    assert_eq!(sets[0].lines, vec![2, 5]);
    assert_eq!(sets[1].path, "b.txt");
    assert_eq!(sets[1].lines, vec![1, 2]);
}
