use pr_forest::bot;
use pr_forest::record::{decode_pr, decode_prs, DecodeError, RawAuthor, RawLabel, RawPr};

fn raw_full(number: usize) -> RawPr {
    RawPr {
        author: Some(RawAuthor { name: Some("alice".to_string()) }),
        base: Some("main".to_string()),
        head: Some(format!("feat-{number}")),
        number: Some(number),
        title: Some(format!("Title {number}")),
        url: Some(format!("http://example.test/{number}")),
        labels: Some(vec![RawLabel {
            name: Some("bug".to_string()),
            color: Some("red".to_string()),
        }]),
    }
}

#[test]
fn bot_is_the_placeholder_author() {
    assert_eq!(bot(), "bot");
}

#[test]
fn decode_complete_record() {
    let rec = decode_pr(&raw_full(12)).unwrap();
    assert_eq!(rec.number, 12);
    assert_eq!(rec.title, "Title 12");
    assert_eq!(rec.url, "http://example.test/12");
    assert_eq!(rec.author_name, "alice");
    assert_eq!(rec.base_branch, "main");
    assert_eq!(rec.head_branch, "feat-12");
    assert_eq!(rec.labels.len(), 1);
    assert_eq!(rec.labels[0].name, "bug");
    assert_eq!(rec.labels[0].color, "red");
}

#[test]
fn decode_defaults_absent_author_name_to_bot() {
    let mut raw = raw_full(1);
    raw.author = Some(RawAuthor { name: None });
    let rec = decode_pr(&raw).unwrap();
    assert_eq!(rec.author_name, "bot");
}

#[test]
fn decode_fails_without_author_object() {
    let mut raw = raw_full(1);
    raw.author = None;
    assert!(matches!(decode_pr(&raw), Err(DecodeError::MissingField)));
}

#[test]
fn decode_fails_without_base_branch() {
    let mut raw = raw_full(1);
    raw.base = None;
    assert!(matches!(decode_pr(&raw), Err(DecodeError::MissingField)));
}

#[test]
fn decode_fails_without_head_branch() {
    let mut raw = raw_full(1);
    raw.head = None;
    assert!(matches!(decode_pr(&raw), Err(DecodeError::MissingField)));
}

#[test]
fn decode_fails_without_number() {
    let mut raw = raw_full(1);
    raw.number = None;
    assert!(matches!(decode_pr(&raw), Err(DecodeError::MissingField)));
}

#[test]
fn decode_fails_without_title() {
    let mut raw = raw_full(1);
    raw.title = None;
    assert!(matches!(decode_pr(&raw), Err(DecodeError::MissingField)));
}

#[test]
fn decode_fails_without_url() {
    let mut raw = raw_full(1);
    raw.url = None;
    assert!(matches!(decode_pr(&raw), Err(DecodeError::MissingField)));
}

#[test]
fn decode_fails_without_labels_list() {
    let mut raw = raw_full(1);
    raw.labels = None;
    assert!(matches!(decode_pr(&raw), Err(DecodeError::MissingField)));
}

#[test]
fn decode_fails_on_label_without_color() {
    let mut raw = raw_full(1);
    raw.labels = Some(vec![RawLabel { name: Some("bug".to_string()), color: None }]);
    assert!(matches!(decode_pr(&raw), Err(DecodeError::MissingField)));
}

#[test]
fn decode_fails_on_label_without_name() {
    let mut raw = raw_full(1);
    raw.labels = Some(vec![RawLabel { name: None, color: Some("red".to_string()) }]);
    assert!(matches!(decode_pr(&raw), Err(DecodeError::MissingField)));
}

#[test]
fn decode_list_keeps_order() {
    let raws = vec![raw_full(3), raw_full(1), raw_full(2)];
    let recs = decode_prs(&raws).unwrap();
    assert_eq!(recs.len(), 3);
    assert_eq!(recs[0].number, 3);
    assert_eq!(recs[1].number, 1);
    assert_eq!(recs[2].number, 2);
}

#[test]
fn decode_list_fails_on_one_incomplete_record() {
    let mut bad = raw_full(2);
    bad.url = None;
    let raws = vec![raw_full(1), bad, raw_full(3)];
    assert!(matches!(decode_prs(&raws), Err(DecodeError::MissingField)));
}
