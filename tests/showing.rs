use mr_cache::model::{Author, ExpandedMergeRequests};
use mr_cache::present::{detail_line, invalid_index, list_line, show, url_line};
use mr_cache::text::{decimal_len, push_decimal, push_padded_decimal};
use mr_cache::CACHE_FILE_NAME;

fn record(group: &str, project: &str, title: &str, user: &str, url: &str) -> ExpandedMergeRequests {
    ExpandedMergeRequests {
        project_name: project.to_string(),
        group_name: group.to_string(),
        title: title.to_string(),
        web_url: url.to_string(),
        author: Author { username: user.to_string() },
    }
}

fn cache() -> Vec<ExpandedMergeRequests> {
    vec![
        record("alpha", "web", "Fix login", "ann", "https://gitlab.com/alpha/web/-/merge_requests/1"),
        record("alpha", "api", "Add endpoint", "bob", "https://gitlab.com/alpha/api/-/merge_requests/7"),
        record("beta", "web", "Bump deps", "cy", "https://gitlab.com/beta/web/-/merge_requests/3"),
    ]
}

#[test]
fn list_prints_one_line_per_record() {
    let r = show(&cache(), None);
    assert_eq!(
        r.out,
        vec![
            "  0: [alpha/web] Fix login".to_string(),
            "  1: [alpha/api] Add endpoint".to_string(),
            "  2: [beta/web] Bump deps".to_string(),
        ]
    );
    assert!(r.err.is_empty());
}

#[test]
fn list_of_empty_cache_prints_nothing() {
    let r = show(&vec![], None);
    assert!(r.out.is_empty());
    assert!(r.err.is_empty());
}

#[test]
fn show_first_record_details() {
    let r = show(&cache(), Some(0));
    assert_eq!(
        r.out,
        vec![
            "[alpha/web] Fix login - @ann".to_string(),
            "     https://gitlab.com/alpha/web/-/merge_requests/1".to_string(),
        ]
    );
    assert!(r.err.is_empty());
}

#[test]
fn show_last_record_details() {
    let r = show(&cache(), Some(2));
    assert_eq!(r.out[0], "[beta/web] Bump deps - @cy");
    assert_eq!(r.out[1], "     https://gitlab.com/beta/web/-/merge_requests/3");
}

#[test]
fn index_past_the_end_is_reported() {
    let r = show(&cache(), Some(3));
    assert!(r.out.is_empty());
    assert_eq!(r.err, vec!["Invalid merge request: 3 is larger than 2".to_string()]);
    let r = show(&cache(), Some(100));
    assert!(r.out.is_empty());
    assert_eq!(r.err, vec!["Invalid merge request: 100 is larger than 2".to_string()]);
}

#[test]
fn index_into_empty_cache_is_reported() {
    let r = show(&vec![], Some(0));
    assert!(r.out.is_empty());
    assert_eq!(r.err, vec!["Invalid merge request: 0 is larger than -1".to_string()]);
    assert_eq!(invalid_index(5, 0), "Invalid merge request: 5 is larger than -1");
}

#[test]
fn index_is_right_aligned_to_three() {
    let r = record("g", "p", "t", "u", "w");
    assert_eq!(list_line(7, &r), "  7: [g/p] t");
    assert_eq!(list_line(42, &r), " 42: [g/p] t");
    assert_eq!(list_line(999, &r), "999: [g/p] t");
    assert_eq!(list_line(1234, &r), "1234: [g/p] t");
}

#[test]
fn detail_lines() {
    let r = record("grp", "proj", "Title here", "someone", "https://h/x");
    assert_eq!(detail_line(&r), "[grp/proj] Title here - @someone");
    assert_eq!(url_line(&r), "     https://h/x");
}

#[test]
fn decimal_text() {
    let mut s = String::from("n=");
    push_decimal(&mut s, 0);
    assert_eq!(s, "n=0");
    let mut s = String::new();
    push_decimal(&mut s, usize::MAX);
    assert_eq!(s, usize::MAX.to_string());
    assert_eq!(decimal_len(0), 1);
    assert_eq!(decimal_len(10), 2);
    assert_eq!(decimal_len(usize::MAX), usize::MAX.to_string().len());
    let mut s = String::new();
    push_padded_decimal(&mut s, 5, 4);
    assert_eq!(s, "   5");
}

#[test]
fn cache_file_name() {
    assert_eq!(CACHE_FILE_NAME, ".mr.cache");
}
