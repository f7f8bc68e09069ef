use gitlab_mirror::db::SQLiteDatabase;
use gitlab_mirror::project::Project;

fn rec(id: u32, name: &str) -> Project {
    Project {
        id,
        description: Some(format!("project number {id}")),
        name: name.to_string(),
        name_with_namespace: format!("group / {name}"),
        path: name.to_string(),
        path_with_namespace: format!("group/{name}"),
        created_at: "2024-01-01T00:00:00.000Z".to_string(),
        ssh_url_to_repo: format!("git@gitlab.example.com:group/{name}.git"),
        http_url_to_repo: format!("https://gitlab.example.com/group/{name}.git"),
        web_url: format!("https://gitlab.example.com/group/{name}"),
        avatar_url: None,
        last_activity_at: "2024-01-02T00:00:00.000Z".to_string(),
        parent_avatar_url: Some("https://gitlab.example.com/avatar.png".to_string()),
    }
}

#[test]
fn fresh_store_is_empty() {
    let db = SQLiteDatabase::try_new().unwrap();
    assert_eq!(db.count_projects().unwrap(), 0);
    assert!(db.get_projects().unwrap().is_empty());
}

#[test]
fn insert_then_list_in_id_order() {
    let mut db = SQLiteDatabase::try_new().unwrap();
    let batch = vec![rec(7, "seven"), rec(2, "two"), rec(5, "five")];
    db.insert_projects(&batch).unwrap();
    let rows = db.get_projects().unwrap();
    let ids: Vec<u32> = rows.iter().map(|p| p.id).collect();
    assert_eq!(ids, vec![2, 5, 7]);
    assert_eq!(db.count_projects().unwrap(), 3);
}

#[test]
fn upsert_twice_is_idempotent() {
    let mut db = SQLiteDatabase::try_new().unwrap();
    let batch = vec![rec(1, "one"), rec(3, "three"), rec(2, "two")];
    db.insert_projects(&batch).unwrap();
    let rows_once = db.get_projects().unwrap();
    let count_once = db.count_projects().unwrap();
    db.insert_projects(&batch).unwrap();
    let rows_twice = db.get_projects().unwrap();
    let count_twice = db.count_projects().unwrap();
    assert_eq!(rows_once, rows_twice);
    assert_eq!(count_once, count_twice);
}

#[test]
fn upsert_matching_id_replaces_row() {
    let mut db = SQLiteDatabase::try_new().unwrap();
    db.insert_projects(&[rec(1, "one"), rec(2, "old-name"), rec(3, "three")]).unwrap();
    db.insert_projects(&[rec(2, "new-name")]).unwrap();
    let rows = db.get_projects().unwrap();
    assert_eq!(rows.len(), 3);
    assert_eq!(db.count_projects().unwrap(), 3);
    assert_eq!(rows[1].id, 2);
    assert_eq!(rows[1].name, "new-name");
    assert_eq!(rows[0].name, "one");
    assert_eq!(rows[2].name, "three");
}

#[test]
fn later_record_wins_within_one_batch() {
    let mut db = SQLiteDatabase::try_new().unwrap();
    db.insert_projects(&[rec(4, "first"), rec(4, "second")]).unwrap();
    let rows = db.get_projects().unwrap();
    assert_eq!(rows.len(), 1);
    assert_eq!(rows[0].name, "second");
}

#[test]
fn empty_batch_changes_nothing() {
    let mut db = SQLiteDatabase::try_new().unwrap();
    db.insert_projects(&[rec(9, "nine")]).unwrap();
    db.insert_projects(&[]).unwrap();
    assert_eq!(db.count_projects().unwrap(), 1);
    assert_eq!(db.get_projects().unwrap()[0], rec(9, "nine"));
}

#[test]
fn duplicate_copies_every_field() {
    let p = rec(11, "eleven");
    let q = p.duplicate();
    assert_eq!(p, q);
}
