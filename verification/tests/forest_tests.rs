use pr_forest::forest::pr_to_html;
use pr_forest::record::{Label, PrRecord};

fn rec(number: usize, author: &str, base: &str, head: &str) -> PrRecord {
    PrRecord {
        number,
        title: format!("Title {number}"),
        url: format!("http://example.test/{number}"),
        author_name: author.to_string(),
        base_branch: base.to_string(),
        head_branch: head.to_string(),
        labels: Vec::new(),
    }
}

#[test]
fn render_empty_record_list_is_empty_forest() {
    let prs: Vec<PrRecord> = Vec::new();
    assert_eq!(pr_to_html(&prs, "main", 0), "<ul>\n</ul>\n");
}

#[test]
fn render_chain_nests_child_under_root() {
    let prs = vec![rec(1, "alice", "main", "feat-a"), rec(2, "bob", "feat-a", "feat-b")];
    let expected = "<ul>\n<li>PR #<a href=\"http://example.test/1\">1</a> by alice: Title 1\n<ul>\n<li>PR #<a href=\"http://example.test/2\">2</a> by bob: Title 2\n<ul>\n</ul>\n</li>\n</ul>\n</li>\n</ul>\n";
    assert_eq!(pr_to_html(&prs, "main", 0), expected);
}

#[test]
fn render_is_deterministic_on_identical_input() {
    let prs = vec![
        rec(1, "alice", "main", "feat-a"),
        rec(2, "bob", "feat-a", "feat-b"),
        rec(3, "carol", "main", "feat-c"),
    ];
    let first = pr_to_html(&prs, "main", 0);
    let second = pr_to_html(&prs, "main", 0);
    assert_eq!(first, second);
}

#[test]
fn render_siblings_keep_input_order() {
    let prs = vec![rec(7, "a", "main", "x"), rec(3, "b", "main", "y"), rec(5, "c", "main", "z")];
    let expected = "<ul>\n<li>PR #<a href=\"http://example.test/7\">7</a> by a: Title 7\n<ul>\n</ul>\n</li>\n<li>PR #<a href=\"http://example.test/3\">3</a> by b: Title 3\n<ul>\n</ul>\n</li>\n<li>PR #<a href=\"http://example.test/5\">5</a> by c: Title 5\n<ul>\n</ul>\n</li>\n</ul>\n";
    assert_eq!(pr_to_html(&prs, "main", 0), expected);
}

#[test]
fn render_labels_in_fetch_order() {
    let mut pr = rec(4, "dana", "main", "feat-d");
    pr.labels = vec![
        Label { name: "bug".to_string(), color: "red".to_string() },
        Label { name: "urgent".to_string(), color: "#ff0000".to_string() },
    ];
    let prs = vec![pr];
    let expected = "<ul>\n<li>PR #<a href=\"http://example.test/4\">4</a> by dana: Title 4&nbsp;<span style=\"font-family: arial; font-weight: bold; color: red\">bug</span>&nbsp;<span style=\"font-family: arial; font-weight: bold; color: #ff0000\">urgent</span>\n<ul>\n</ul>\n</li>\n</ul>\n";
    assert_eq!(pr_to_html(&prs, "main", 0), expected);
}

#[test]
fn render_terminates_on_two_branch_cycle() {
    let prs = vec![rec(1, "a", "main", "loop-a"), rec(2, "b", "loop-a", "main")];
    let out = pr_to_html(&prs, "main", 0);
    assert!(out.starts_with("<ul>\n"));
    assert!(out.ends_with("</ul>\n"));
}

#[test]
fn render_terminates_on_self_cycle() {
    let prs = vec![rec(1, "a", "main", "main")];
    let out = pr_to_html(&prs, "main", 0);
    assert!(out.starts_with("<ul>\n"));
    assert!(out.ends_with("</ul>\n"));
}

#[test]
fn render_at_depth_cutoff_is_empty_forest() {
    let prs = vec![rec(1, "a", "main", "feat-a")];
    assert_eq!(pr_to_html(&prs, "main", 64), "<ul>\n</ul>\n");
}

#[test]
fn render_unmatched_base_is_left_out() {
    let prs = vec![rec(1, "a", "main", "feat-a"), rec(2, "b", "orphan-base", "feat-o")];
    let out = pr_to_html(&prs, "main", 0);
    assert!(out.contains("PR #<a href=\"http://example.test/1\">1</a>"));
    assert!(!out.contains("PR #<a href=\"http://example.test/2\">2</a>"));
}

#[test]
fn render_stops_at_the_depth_cutoff_on_deep_chains() {
    let mut prs: Vec<PrRecord> = Vec::new();
    for k in 0..70usize {
        let base = if k == 0 { "main".to_string() } else { format!("b{k}") };
        let mut pr = rec(k + 1, "a", &base, "");
        pr.head_branch = format!("b{}", k + 1);
        prs.push(pr);
    }
    let out = pr_to_html(&prs, "main", 0);
    // the record 64 levels down still renders; the one below the cutoff does not
    assert!(out.contains("\">64</a>"));
    assert!(!out.contains("\">65</a>"));
}

#[test]
fn render_large_pr_number_exactly() {
    let pr = rec(18446744073709551, "a", "main", "feat-a");
    let out = pr_to_html(&vec![pr], "main", 0);
    assert!(out.contains("PR #<a href=\"http://example.test/18446744073709551\">18446744073709551</a>"));
}
