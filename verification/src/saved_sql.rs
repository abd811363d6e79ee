//! The saved SQL library: folders and files of SQL text kept per connection,
//! and the rows of the tables that hold them.

use vstd::prelude::*;

verus! {

/// A folder of saved SQL files.
pub struct SavedSqlFolder {
    pub id: String,
    pub connection_id: String,
    pub name: String,
    pub created_at: String,
    pub updated_at: String,
}

/// A saved SQL file, possibly inside a folder.
pub struct SavedSqlFile {
    pub id: String,
    pub connection_id: String,
    pub folder_id: Option<String>,
    pub name: String,
    pub database: String,
    pub schema: Option<String>,
    pub sql: String,
    pub created_at: String,
    pub updated_at: String,
}

/// Every saved folder and file.
pub struct SavedSqlLibrary {
    pub folders: Vec<SavedSqlFolder>,
    pub files: Vec<SavedSqlFile>,
}

/// A row of the saved folders table.
pub struct SavedSqlFolderRecord {
    pub id: String,
    pub connection_id: String,
    pub name: String,
    pub created_at: String,
    pub updated_at: String,
}

/// A row of the saved files table.
pub struct SavedSqlFileRecord {
    pub id: String,
    pub connection_id: String,
    pub folder_id: Option<String>,
    pub name: String,
    pub database_name: String,
    pub schema_name: Option<String>,
    pub sql_text: String,
    pub created_at: String,
    pub updated_at: String,
}

impl From<SavedSqlFolderRecord> for SavedSqlFolder {
    fn from(row: SavedSqlFolderRecord) -> (r: SavedSqlFolder)
        ensures
            r.id == row.id,
            r.connection_id == row.connection_id,
            r.name == row.name,
            r.created_at == row.created_at,
            r.updated_at == row.updated_at,
    {
        SavedSqlFolder {
            id: row.id,
            connection_id: row.connection_id,
            name: row.name,
            created_at: row.created_at,
            updated_at: row.updated_at,
        }
    }
}

impl vstd::std_specs::convert::FromSpecImpl<SavedSqlFolderRecord> for SavedSqlFolder {
    open spec fn obeys_from_spec() -> bool {
        true
    }

    open spec fn from_spec(row: SavedSqlFolderRecord) -> SavedSqlFolder {
        folder_from_record(row)
    }
}

/// The folder that a row of the folders table holds.
pub open spec fn folder_from_record(row: SavedSqlFolderRecord) -> SavedSqlFolder {
    SavedSqlFolder {
        id: row.id,
        connection_id: row.connection_id,
        name: row.name,
        created_at: row.created_at,
        updated_at: row.updated_at,
    }
}

impl From<SavedSqlFileRecord> for SavedSqlFile {
    fn from(row: SavedSqlFileRecord) -> (r: SavedSqlFile)
        ensures
            r.id == row.id,
            r.connection_id == row.connection_id,
            r.folder_id == row.folder_id,
            r.name == row.name,
            r.database == row.database_name,
            r.schema == row.schema_name,
            r.sql == row.sql_text,
            r.created_at == row.created_at,
            r.updated_at == row.updated_at,
    {
        SavedSqlFile {
            id: row.id,
            connection_id: row.connection_id,
            folder_id: row.folder_id,
            name: row.name,
            database: row.database_name,
            schema: row.schema_name,
            sql: row.sql_text,
            created_at: row.created_at,
            updated_at: row.updated_at,
        }
    }
}

impl vstd::std_specs::convert::FromSpecImpl<SavedSqlFileRecord> for SavedSqlFile {
    open spec fn obeys_from_spec() -> bool {
        true
    }

    open spec fn from_spec(row: SavedSqlFileRecord) -> SavedSqlFile {
        file_from_record(row)
    }
}

/// The file that a row of the files table holds.
pub open spec fn file_from_record(row: SavedSqlFileRecord) -> SavedSqlFile {
    SavedSqlFile {
        id: row.id,
        connection_id: row.connection_id,
        folder_id: row.folder_id,
        name: row.name,
        database: row.database_name,
        schema: row.schema_name,
        sql: row.sql_text,
        created_at: row.created_at,
        updated_at: row.updated_at,
    }
}

/// A folder read from a row takes each field from its own column.
pub proof fn law_folder_fields_from_columns(row: SavedSqlFolderRecord)
    ensures
        folder_from_record(row).id == row.id,
        folder_from_record(row).connection_id == row.connection_id,
        folder_from_record(row).name == row.name,
        folder_from_record(row).created_at == row.created_at,
        folder_from_record(row).updated_at == row.updated_at,
{
}

/// A file read from a row takes each field from its own column: it belongs to
/// the row's connection and folder, and has the row's name, database, schema,
/// SQL text and times.
pub proof fn law_file_fields_from_columns(row: SavedSqlFileRecord)
    ensures
        file_from_record(row).id == row.id,
        file_from_record(row).connection_id == row.connection_id,
        file_from_record(row).folder_id == row.folder_id,
        file_from_record(row).name == row.name,
        file_from_record(row).database == row.database_name,
        file_from_record(row).schema == row.schema_name,
        file_from_record(row).sql == row.sql_text,
        file_from_record(row).created_at == row.created_at,
        file_from_record(row).updated_at == row.updated_at,
{
}

impl SavedSqlLibrary {
    /// The library that the rows of the folders and files tables hold, each
    /// list in the order of its rows.
    pub fn from_records(
        folder_rows: Vec<SavedSqlFolderRecord>,
        file_rows: Vec<SavedSqlFileRecord>,
    ) -> (r: SavedSqlLibrary)
        ensures
            r.folders@ == folder_rows@.map_values(
                |row: SavedSqlFolderRecord| folder_from_record(row),
            ),
            r.files@ == file_rows@.map_values(
                |row: SavedSqlFileRecord| file_from_record(row),
            ),
            r.folders@.len() == folder_rows@.len(),
            forall|i: int|
                0 <= i < folder_rows@.len() ==> {
                    let folder = #[trigger] r.folders@[i];
                    let row = folder_rows@[i];
                    &&& folder.id == row.id
                    &&& folder.connection_id == row.connection_id
                    &&& folder.name == row.name
                    &&& folder.created_at == row.created_at
                    &&& folder.updated_at == row.updated_at
                },
            r.files@.len() == file_rows@.len(),
            forall|i: int|
                0 <= i < file_rows@.len() ==> {
                    let file = #[trigger] r.files@[i];
                    let row = file_rows@[i];
                    &&& file.id == row.id
                    &&& file.connection_id == row.connection_id
                    &&& file.folder_id == row.folder_id
                    &&& file.name == row.name
                    &&& file.database == row.database_name
                    &&& file.schema == row.schema_name
                    &&& file.sql == row.sql_text
                    &&& file.created_at == row.created_at
                    &&& file.updated_at == row.updated_at
                },
    {
        let ghost all_folders = folder_rows@;
        let mut rest = folder_rows;
        let n = rest.len();
        let mut folders: Vec<SavedSqlFolder> = Vec::new();
        let mut i: usize = 0;
        while i < n
            invariant
                n == all_folders.len(),
                i <= n,
                rest@ == all_folders.skip(i as int),
                folders@ == all_folders.take(i as int).map_values(
                    |row: SavedSqlFolderRecord| folder_from_record(row),
                ),
            decreases n - i,
        {
            let row = rest.remove(0);
            proof {
                assert(all_folders.skip(i as int).remove(0) =~= all_folders.skip(i + 1));
            }
            folders.push(SavedSqlFolder::from(row));
            assert(folders@ =~= all_folders.take(i + 1).map_values(
                |row: SavedSqlFolderRecord| folder_from_record(row),
            ));
            i = i + 1;
        }
        assert(all_folders.take(n as int) =~= all_folders);
        let ghost all_files = file_rows@;
        let mut rest_files = file_rows;
        let m = rest_files.len();
        let mut files: Vec<SavedSqlFile> = Vec::new();
        let mut j: usize = 0;
        while j < m
            invariant
                m == all_files.len(),
                j <= m,
                rest_files@ == all_files.skip(j as int),
                files@ == all_files.take(j as int).map_values(
                    |row: SavedSqlFileRecord| file_from_record(row),
                ),
            decreases m - j,
        {
            let row = rest_files.remove(0);
            proof {
                assert(all_files.skip(j as int).remove(0) =~= all_files.skip(j + 1));
            }
            files.push(SavedSqlFile::from(row));
            assert(files@ =~= all_files.take(j + 1).map_values(
                |row: SavedSqlFileRecord| file_from_record(row),
            ));
            j = j + 1;
        }
        assert(all_files.take(m as int) =~= all_files);
        SavedSqlLibrary { folders, files }
    }
}

} // verus!
