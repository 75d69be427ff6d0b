use swarm_ci::context::{entry_less, is_skipped_dir, sort_context, text_less};

fn e(p: &str, c: &str) -> (String, String) {
    (p.to_string(), c.to_string())
}

#[test]
fn build_output_and_git_are_skipped() {
    assert!(is_skipped_dir("target"));
    assert!(is_skipped_dir(".git"));
    assert!(!is_skipped_dir("src"));
    assert!(!is_skipped_dir("targets"));
    assert!(!is_skipped_dir(".github"));
}

#[test]
fn text_order_matches_str_order() {
    let words = ["", "a", "ab", "b", "Z", "é", "src/lib.rs", "src/main.rs", "src", "Cargo.toml"];
    for x in words {
        for y in words {
            assert_eq!(text_less(x, y), x < y, "{x:?} < {y:?}");
        }
    }
}

#[test]
fn entries_order_by_path_then_content() {
    assert!(entry_less(&e("a", "z"), &e("b", "a")));
    assert!(entry_less(&e("a", "a"), &e("a", "b")));
    assert!(!entry_less(&e("a", "b"), &e("a", "b")));
}

#[test]
fn context_is_sorted_like_the_tuple_order() {
    let files = vec![
        e("src/main.rs", "fn main() {}"),
        e("Cargo.toml", "[package]"),
        e("src/lib.rs", "pub fn sum() {}"),
        e("README.md", "# demo"),
        e("src/lib.rs", "older"),
    ];
    let mut expected = files.clone();
    expected.sort();
    assert_eq!(sort_context(files), expected);
}

#[test]
fn empty_context_stays_empty() {
    assert!(sort_context(Vec::new()).is_empty());
}

#[test]
fn walk_order_does_not_change_the_context_order() {
    let a = vec![e("src/lib.rs", "x"), e("Cargo.toml", "y"), e("README.md", "z")];
    let b = vec![e("README.md", "z"), e("src/lib.rs", "x"), e("Cargo.toml", "y")];
    assert_eq!(sort_context(a), sort_context(b));
}
