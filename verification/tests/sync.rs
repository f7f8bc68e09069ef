use gitlab_mirror::client::ProjectFetch;
use gitlab_mirror::db::SQLiteDatabase;
use gitlab_mirror::error::SyncError;
use gitlab_mirror::project::{mirror_records, GitlabProject, GitlabProjectNamespace, Project};

fn remote(id: u32, name: &str) -> GitlabProject {
    GitlabProject {
        id,
        description: Some(format!("project number {id}")),
        name: name.to_string(),
        name_with_namespace: format!("group / {name}"),
        path: name.to_string(),
        path_with_namespace: format!("group/{name}"),
        created_at: "2024-01-01T00:00:00.000Z".to_string(),
        default_branch: Some("main".to_string()),
        tag_list: vec!["tagged".to_string()],
        topics: vec!["topic".to_string()],
        ssh_url_to_repo: format!("git@gitlab.example.com:group/{name}.git"),
        http_url_to_repo: format!("https://gitlab.example.com/group/{name}.git"),
        web_url: format!("https://gitlab.example.com/group/{name}"),
        avatar_url: None,
        star_count: 3,
        last_activity_at: "2024-01-02T00:00:00.000Z".to_string(),
        namespace: GitlabProjectNamespace {
            id: 1,
            name: "group".to_string(),
            path: "group".to_string(),
            kind: "group".to_string(),
            full_path: "group".to_string(),
            parent_id: None,
            avatar_url: Some("https://gitlab.example.com/group.png".to_string()),
            web_url: "https://gitlab.example.com/group".to_string(),
        },
    }
}

fn page(ids: std::ops::RangeInclusive<u32>) -> Vec<GitlabProject> {
    ids.map(|id| remote(id, &format!("p{id}"))).collect()
}

fn next_header(id_after: u32) -> String {
    format!(
        "<https://gitlab.example.com/api/v4/projects?pagination=keyset&per_page=100&id_after={id_after}>; rel=\"next\""
    )
}

#[test]
fn walk_concatenates_pages_in_order() {
    let mut fetch = ProjectFetch::new();
    assert!(!fetch.is_done());
    let h1 = next_header(3);
    fetch.apply_page(vec![remote(1, "a"), remote(3, "b")], Some(&h1)).unwrap();
    assert!(!fetch.is_done());
    let h2 = next_header(4);
    fetch.apply_page(vec![remote(4, "c")], Some(&h2)).unwrap();
    fetch.apply_page(vec![remote(9, "d")], None).unwrap();
    assert!(fetch.is_done());
    let all = fetch.into_projects();
    let ids: Vec<u32> = all.iter().map(|g| g.id).collect();
    assert_eq!(ids, vec![1, 3, 4, 9]);
}

#[test]
fn cursor_from_response_reaches_next_request() {
    let mut fetch = ProjectFetch::new();
    let header = next_header(42);
    fetch.apply_page(page(1..=42), Some(&header)).unwrap();
    assert!(!fetch.is_done());
    assert_eq!(fetch.current_cursor().unwrap().id_after, 42);
    let params = fetch.next_request();
    assert!(params.iter().any(|(k, v)| k == "id_after" && v == "42"));
}

#[test]
fn malformed_cursor_aborts_the_walk() {
    let mut fetch = ProjectFetch::new();
    let header = "<https://gitlab.example.com/api/v4/projects?id_after=oops>; rel=\"next\"";
    let r = fetch.apply_page(page(1..=2), Some(header));
    assert_eq!(r, Err(SyncError::Protocol));
    assert!(!fetch.is_done());
}

#[test]
fn empty_first_page_yields_empty_result_and_untouched_store() {
    let mut fetch = ProjectFetch::new();
    fetch.apply_page(Vec::new(), None).unwrap();
    assert!(fetch.is_done());
    let records = mirror_records(fetch.into_projects());
    assert!(records.is_empty());

    let mut db = SQLiteDatabase::try_new().unwrap();
    db.insert_projects(&records).unwrap();
    assert_eq!(db.count_projects().unwrap(), 0);
    assert!(db.get_projects().unwrap().is_empty());
}

#[test]
fn three_pages_store_exactly_207_rows_in_id_order() {
    let mut fetch = ProjectFetch::new();
    let h1 = next_header(100);
    fetch.apply_page(page(1..=100), Some(&h1)).unwrap();
    let h2 = next_header(200);
    fetch.apply_page(page(101..=200), Some(&h2)).unwrap();
    fetch.apply_page(page(201..=207), None).unwrap();
    assert!(fetch.is_done());

    let records: Vec<Project> = mirror_records(fetch.into_projects());
    assert_eq!(records.len(), 207);

    let mut db = SQLiteDatabase::try_new().unwrap();
    db.insert_projects(&records).unwrap();
    assert_eq!(db.count_projects().unwrap(), 207);
    let rows = db.get_projects().unwrap();
    assert_eq!(rows.len(), 207);
    for (i, row) in rows.iter().enumerate() {
        assert_eq!(row.id, i as u32 + 1);
    }
}

#[test]
fn conversion_projects_the_documented_fields() {
    let g = remote(10, "ten");
    let p = Project::from(remote(10, "ten"));
    assert_eq!(p.id, g.id);
    assert_eq!(p.description, g.description);
    assert_eq!(p.name, g.name);
    assert_eq!(p.name_with_namespace, g.name_with_namespace);
    assert_eq!(p.path, g.path);
    assert_eq!(p.path_with_namespace, g.path_with_namespace);
    assert_eq!(p.created_at, g.created_at);
    assert_eq!(p.ssh_url_to_repo, g.ssh_url_to_repo);
    assert_eq!(p.http_url_to_repo, g.http_url_to_repo);
    assert_eq!(p.web_url, g.web_url);
    assert_eq!(p.avatar_url, g.avatar_url);
    assert_eq!(p.last_activity_at, g.last_activity_at);
    assert_eq!(p.parent_avatar_url, g.namespace.avatar_url);
}

#[test]
fn mirror_records_keeps_arrival_order() {
    let records = mirror_records(vec![remote(5, "five"), remote(2, "two")]);
    let ids: Vec<u32> = records.iter().map(|p| p.id).collect();
    assert_eq!(ids, vec![5, 2]);
}
