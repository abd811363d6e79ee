use dbx_core::saved_sql::{SavedSqlFile, SavedSqlFileRecord, SavedSqlFolder, SavedSqlFolderRecord, SavedSqlLibrary};

fn folder_row(id: &str) -> SavedSqlFolderRecord {
    SavedSqlFolderRecord {
        id: id.to_string(),
        connection_id: "c1".to_string(),
        name: format!("folder {id}"),
        created_at: "t0".to_string(),
        updated_at: "t1".to_string(),
    }
}

fn file_row(id: &str) -> SavedSqlFileRecord {
    SavedSqlFileRecord {
        id: id.to_string(),
        connection_id: "c1".to_string(),
        folder_id: Some("f1".to_string()),
        name: format!("file {id}"),
        database_name: "main".to_string(),
        schema_name: None,
        sql_text: "SELECT 2".to_string(),
        created_at: "t2".to_string(),
        updated_at: "t3".to_string(),
    }
}

#[test]
fn folder_from_row() {
    let folder = SavedSqlFolder::from(folder_row("f1"));
    assert_eq!(folder.id, "f1");
    assert_eq!(folder.connection_id, "c1");
    assert_eq!(folder.name, "folder f1");
    assert_eq!(folder.created_at, "t0");
    assert_eq!(folder.updated_at, "t1");
}

#[test]
fn file_from_row_renames_columns() {
    let file = SavedSqlFile::from(file_row("s1"));
    assert_eq!(file.id, "s1");
    assert_eq!(file.folder_id, Some("f1".to_string()));
    assert_eq!(file.database, "main");
    assert_eq!(file.schema, None);
    assert_eq!(file.sql, "SELECT 2");
    assert_eq!(file.created_at, "t2");
    assert_eq!(file.updated_at, "t3");
}

#[test]
fn library_keeps_row_order() {
    let library = SavedSqlLibrary::from_records(
        vec![folder_row("b"), folder_row("a")],
        vec![file_row("z"), file_row("y"), file_row("x")],
    );
    let folders: Vec<&str> = library.folders.iter().map(|f| f.id.as_str()).collect();
    let files: Vec<&str> = library.files.iter().map(|f| f.id.as_str()).collect();
    assert_eq!(folders, vec!["b", "a"]);
    assert_eq!(files, vec!["z", "y", "x"]);
    let empty = SavedSqlLibrary::from_records(vec![], vec![]);
    assert!(empty.folders.is_empty() && empty.files.is_empty());
}
