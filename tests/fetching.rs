use mr_cache::fetch::{distinct_project_ids, enrich, pair_with_groups, ProjectNames, Session};
use mr_cache::model::{Author, ExpandedMergeRequests, Group, MergeRequests};

fn group(id: usize, name: &str) -> Group {
    Group { id, name: name.to_string() }
}

fn mr(project_id: usize, title: &str) -> MergeRequests {
    MergeRequests {
        project_id,
        title: title.to_string(),
        web_url: format!("https://example.org/mr/{}", title),
        author: Author { username: format!("{}-author", title) },
    }
}

fn session() -> Session {
    match Session::new(Some("SECRET-REDACTED".to_string()), Some("https://git.example.org".to_string())) {
        Ok(s) => s,
        Err(_) => panic!("a token was given"),
    }
}

#[test]
fn missing_token_gives_no_session() {
    assert!(Session::new(None, None).is_err());
    assert!(Session::new(None, Some("https://git.example.org".to_string())).is_err());
}

#[test]
fn default_base_url() {
    let s = match Session::new(Some("t".to_string()), None) {
        Ok(s) => s,
        Err(_) => panic!("a token was given"),
    };
    assert_eq!(s.base, "https://gitlab.com");
    assert_eq!(s.token, "t");
    assert_eq!(s.groups_url(), "https://gitlab.com/api/v4/groups");
}

#[test]
fn request_urls() {
    let s = session();
    assert_eq!(s.groups_url(), "https://git.example.org/api/v4/groups");
    assert_eq!(
        s.merge_requests_url(42),
        "https://git.example.org/api/v4/groups/42/merge_requests?state=opened"
    );
    assert_eq!(s.project_url(0), "https://git.example.org/api/v4/projects/0");
    assert_eq!(s.project_url(1207), "https://git.example.org/api/v4/projects/1207");
}

fn two_groups() -> (Vec<Group>, Vec<Vec<MergeRequests>>) {
    let groups = vec![group(1, "alpha"), group(2, "beta")];
    let mrs = vec![vec![mr(10, "a1"), mr(20, "a2")], vec![mr(10, "b1")]];
    (groups, mrs)
}

#[test]
fn shared_project_is_looked_up_once() {
    let (groups, mrs) = two_groups();
    let pairs = pair_with_groups(&groups, &mrs);
    assert_eq!(distinct_project_ids(&pairs), vec![10, 20]);
}

#[test]
fn ten_merge_requests_one_project() {
    let groups = vec![group(7, "g")];
    let mut v = Vec::new();
    for k in 0..10 {
        v.push(mr(5, &format!("t{}", k)));
    }
    let pairs = pair_with_groups(&groups, &vec![v]);
    assert_eq!(pairs.len(), 10);
    assert_eq!(distinct_project_ids(&pairs), vec![5]);
}

#[test]
fn distinct_ids_in_first_appearance_order() {
    let groups = vec![group(1, "x"), group(2, "y")];
    let mrs = vec![vec![mr(30, "p"), mr(4, "q"), mr(30, "r")], vec![mr(9, "s"), mr(4, "t")]];
    let pairs = pair_with_groups(&groups, &mrs);
    assert_eq!(distinct_project_ids(&pairs), vec![30, 4, 9]);
}

#[test]
fn pairs_keep_group_then_request_order() {
    let (groups, mrs) = two_groups();
    let pairs = pair_with_groups(&groups, &mrs);
    let seen: Vec<(usize, String)> = pairs.iter().map(|(g, m)| (g.id, m.title.clone())).collect();
    assert_eq!(
        seen,
        vec![(1, "a1".to_string()), (1, "a2".to_string()), (2, "b1".to_string())]
    );
}

#[test]
fn no_groups_no_pairs() {
    let pairs = pair_with_groups(&vec![], &vec![]);
    assert!(pairs.is_empty());
    assert!(distinct_project_ids(&pairs).is_empty());
    let names = ProjectNames::new();
    assert_eq!(enrich(&pairs, &names).map(|r| r.len()), Some(0));
}

fn summary(r: &ExpandedMergeRequests) -> String {
    format!(
        "{}|{}|{}|{}|{}",
        r.project_name, r.group_name, r.title, r.web_url, r.author.username
    )
}

#[test]
fn enrich_two_groups() {
    let (groups, mrs) = two_groups();
    let pairs = pair_with_groups(&groups, &mrs);
    let mut names = ProjectNames::new();
    names.insert(10, "ten".to_string());
    names.insert(20, "twenty".to_string());
    let records = enrich(&pairs, &names).expect("every project is known");
    let got: Vec<String> = records.iter().map(summary).collect();
    assert_eq!(
        got,
        vec![
            "ten|alpha|a1|https://example.org/mr/a1|a1-author".to_string(),
            "twenty|alpha|a2|https://example.org/mr/a2|a2-author".to_string(),
            "ten|beta|b1|https://example.org/mr/b1|b1-author".to_string(),
        ]
    );
}

#[test]
fn enrich_fails_on_unknown_project() {
    let (groups, mrs) = two_groups();
    let pairs = pair_with_groups(&groups, &mrs);
    let mut names = ProjectNames::new();
    names.insert(10, "ten".to_string());
    assert!(enrich(&pairs, &names).is_none());
}

#[test]
fn project_names_memo() {
    let mut names = ProjectNames::new();
    assert!(!names.contains(3));
    assert_eq!(names.get(3), None);
    names.insert(3, "three".to_string());
    assert!(names.contains(3));
    assert_eq!(names.get(3), Some("three".to_string()));
    names.insert(3, "again".to_string());
    assert_eq!(names.get(3), Some("again".to_string()));
}
