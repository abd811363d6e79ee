//! Query history: the entries the client records, the rows of the history
//! table they are stored in, and the columns that table must have.

use vstd::prelude::*;

use crate::json::views_of;

verus! {

/// An optional string, copied.
pub fn copy_optional_text(text: &Option<String>) -> (r: Option<String>)
    ensures
        r == *text,
{
    match text {
        Some(s) => Some(s.clone()),
        None => None,
    }
}

/// One recorded activity of the client: a query run or a change made.
pub struct HistoryEntry {
    pub id: String,
    pub connection_id: String,
    pub connection_name: String,
    pub database: String,
    pub sql: String,
    pub executed_at: String,
    pub execution_time_ms: u128,
    pub success: bool,
    pub error: Option<String>,
    pub activity_kind: String,
    pub operation: String,
    pub target: String,
    pub affected_rows: Option<i64>,
    pub rollback_sql: Option<String>,
    pub details_json: Option<String>,
}

/// A row of the history table.
pub struct HistoryRecord {
    pub id: String,
    pub connection_id: String,
    pub connection_name: String,
    pub database: String,
    pub sql_text: String,
    pub executed_at: String,
    pub execution_time_ms: i64,
    pub success: bool,
    pub error: Option<String>,
    pub activity_kind: String,
    pub operation: String,
    pub target: String,
    pub affected_rows: Option<i64>,
    pub rollback_sql: Option<String>,
    pub details_json: Option<String>,
}

/// The activity kind an entry gets when its row stores none.
pub open spec fn default_activity_kind() -> Seq<char> {
    "query"@
}

/// The row that stores `entry`. The duration is stored as a signed 64-bit
/// integer: a duration beyond `i64::MAX` wraps, as Rust's `as` does.
pub open spec fn record_of(entry: HistoryEntry) -> HistoryRecord {
    HistoryRecord {
        id: entry.id,
        connection_id: entry.connection_id,
        connection_name: entry.connection_name,
        database: entry.database,
        sql_text: entry.sql,
        executed_at: entry.executed_at,
        execution_time_ms: entry.execution_time_ms as i64,
        success: entry.success,
        error: entry.error,
        activity_kind: entry.activity_kind,
        operation: entry.operation,
        target: entry.target,
        affected_rows: entry.affected_rows,
        rollback_sql: entry.rollback_sql,
        details_json: entry.details_json,
    }
}

/// `entry` is what `record` reads as: every field is taken over, the duration
/// is widened back to 128 bits (a negative one wraps, as Rust's `as` does) and
/// an empty activity kind reads as the default kind.
pub open spec fn entry_read_from(record: HistoryRecord, entry: HistoryEntry) -> bool {
    &&& entry.id == record.id
    &&& entry.connection_id == record.connection_id
    &&& entry.connection_name == record.connection_name
    &&& entry.database == record.database
    &&& entry.sql == record.sql_text
    &&& entry.executed_at == record.executed_at
    &&& entry.execution_time_ms == record.execution_time_ms as u128
    &&& entry.success == record.success
    &&& entry.error == record.error
    &&& if record.activity_kind@.len() == 0 {
        entry.activity_kind@ == default_activity_kind()
    } else {
        entry.activity_kind == record.activity_kind
    }
    &&& entry.operation == record.operation
    &&& entry.target == record.target
    &&& entry.affected_rows == record.affected_rows
    &&& entry.rollback_sql == record.rollback_sql
    &&& entry.details_json == record.details_json
}

impl HistoryRecord {
    /// The row to write for `entry`.
    pub fn from_entry(entry: &HistoryEntry) -> (r: HistoryRecord)
        ensures
            r == record_of(*entry),
            r.id == entry.id,
            r.connection_id == entry.connection_id,
            r.connection_name == entry.connection_name,
            r.database == entry.database,
            r.sql_text == entry.sql,
            r.executed_at == entry.executed_at,
            r.success == entry.success,
            r.error == entry.error,
            r.activity_kind == entry.activity_kind,
            r.operation == entry.operation,
            r.target == entry.target,
            r.affected_rows == entry.affected_rows,
            r.rollback_sql == entry.rollback_sql,
            r.details_json == entry.details_json,
            entry.execution_time_ms <= i64::MAX ==> r.execution_time_ms == entry.execution_time_ms,
    {
        HistoryRecord {
            id: entry.id.clone(),
            connection_id: entry.connection_id.clone(),
            connection_name: entry.connection_name.clone(),
            database: entry.database.clone(),
            sql_text: entry.sql.clone(),
            executed_at: entry.executed_at.clone(),
            execution_time_ms: entry.execution_time_ms as i64,
            success: entry.success,
            error: copy_optional_text(&entry.error),
            activity_kind: entry.activity_kind.clone(),
            operation: entry.operation.clone(),
            target: entry.target.clone(),
            affected_rows: entry.affected_rows,
            rollback_sql: copy_optional_text(&entry.rollback_sql),
            details_json: copy_optional_text(&entry.details_json),
        }
    }

    /// The entry that this row reads as.
    pub fn into_entry(self) -> (r: HistoryEntry)
        ensures
            entry_read_from(self, r),
            r.id == self.id,
            r.connection_id == self.connection_id,
            r.connection_name == self.connection_name,
            r.database == self.database,
            r.sql == self.sql_text,
            r.executed_at == self.executed_at,
            r.success == self.success,
            r.error == self.error,
            self.activity_kind@.len() > 0 ==> r.activity_kind == self.activity_kind,
            self.activity_kind@.len() == 0 ==> r.activity_kind@ == "query"@,
            r.operation == self.operation,
            r.target == self.target,
            r.affected_rows == self.affected_rows,
            r.rollback_sql == self.rollback_sql,
            r.details_json == self.details_json,
            self.execution_time_ms >= 0 ==> r.execution_time_ms == self.execution_time_ms,
    {
        let activity_kind = if self.activity_kind.as_str().is_empty() {
            String::from_str("query")
        } else {
            self.activity_kind
        };
        HistoryEntry {
            id: self.id,
            connection_id: self.connection_id,
            connection_name: self.connection_name,
            database: self.database,
            sql: self.sql_text,
            executed_at: self.executed_at,
            execution_time_ms: self.execution_time_ms as u128,
            success: self.success,
            error: self.error,
            activity_kind,
            operation: self.operation,
            target: self.target,
            affected_rows: self.affected_rows,
            rollback_sql: self.rollback_sql,
            details_json: self.details_json,
        }
    }
}

/// An entry written to the history table and read back is the same entry,
/// provided its duration fits in a signed 64-bit integer and its activity kind
/// is not empty.
pub proof fn law_history_entry_reads_back(entry: HistoryEntry, read: HistoryEntry)
    requires
        entry.execution_time_ms <= i64::MAX,
        entry.activity_kind@.len() > 0,
        entry_read_from(record_of(entry), read),
    ensures
        read == entry,
{
}

/// Each field of an entry is stored in the column of the same meaning: the
/// row for an entry holds its id, connection, database, SQL text, execution
/// time, outcome, activity, affected rows, rollback SQL and details each in
/// its own column, and the duration in the duration column.
pub proof fn law_history_row_columns(entry: HistoryEntry)
    ensures
        record_of(entry).id == entry.id,
        record_of(entry).connection_id == entry.connection_id,
        record_of(entry).connection_name == entry.connection_name,
        record_of(entry).database == entry.database,
        record_of(entry).sql_text == entry.sql,
        record_of(entry).executed_at == entry.executed_at,
        record_of(entry).execution_time_ms == entry.execution_time_ms as i64,
        record_of(entry).success == entry.success,
        record_of(entry).error == entry.error,
        record_of(entry).activity_kind == entry.activity_kind,
        record_of(entry).operation == entry.operation,
        record_of(entry).target == entry.target,
        record_of(entry).affected_rows == entry.affected_rows,
        record_of(entry).rollback_sql == entry.rollback_sql,
        record_of(entry).details_json == entry.details_json,
{
}

/// An entry read from a row takes each field from the column of the same
/// meaning; only an empty activity kind is replaced, by the default kind.
pub proof fn law_history_entry_columns(record: HistoryRecord, entry: HistoryEntry)
    requires
        entry_read_from(record, entry),
    ensures
        entry.id == record.id,
        entry.connection_id == record.connection_id,
        entry.connection_name == record.connection_name,
        entry.database == record.database,
        entry.sql == record.sql_text,
        entry.executed_at == record.executed_at,
        entry.execution_time_ms == record.execution_time_ms as u128,
        entry.success == record.success,
        entry.error == record.error,
        record.activity_kind@.len() > 0 ==> entry.activity_kind == record.activity_kind,
        record.activity_kind@.len() == 0 ==> entry.activity_kind@ == "query"@,
        entry.operation == record.operation,
        entry.target == record.target,
        entry.affected_rows == record.affected_rows,
        entry.rollback_sql == record.rollback_sql,
        entry.details_json == record.details_json,
{
}

/// A column of the history table: its name and its SQL definition.
pub struct HistoryColumn {
    pub name: String,
    pub definition: String,
}

/// The views of a list of columns.
pub open spec fn columns_view(columns: Seq<HistoryColumn>) -> Seq<(Seq<char>, Seq<char>)> {
    columns.map_values(|c: HistoryColumn| (c.name@, c.definition@))
}

/// The columns that later releases added to the history table, in the order
/// in which a table that lacks them gets them.
pub open spec fn added_history_columns() -> Seq<(Seq<char>, Seq<char>)> {
    seq![
        ("activity_kind"@, "TEXT NOT NULL DEFAULT 'query'"@),
        ("connection_id"@, "TEXT NOT NULL DEFAULT ''"@),
        ("operation"@, "TEXT NOT NULL DEFAULT ''"@),
        ("target"@, "TEXT NOT NULL DEFAULT ''"@),
        ("affected_rows"@, "INTEGER"@),
        ("rollback_sql"@, "TEXT"@),
        ("details_json"@, "TEXT"@),
    ]
}

/// The columns of `columns` whose names are not in `existing`, in order.
pub open spec fn columns_missing_from(
    columns: Seq<(Seq<char>, Seq<char>)>,
    existing: Seq<Seq<char>>,
) -> Seq<(Seq<char>, Seq<char>)>
    decreases columns.len(),
{
    if columns.len() == 0 {
        Seq::empty()
    } else {
        let rest = columns_missing_from(columns.drop_last(), existing);
        if existing.contains(columns.last().0) {
            rest
        } else {
            rest.push(columns.last())
        }
    }
}

/// `part` occurs in `text`.
pub open spec fn has_part(text: Seq<char>, part: Seq<char>) -> bool {
    exists|k: int| 0 <= k && k + part.len() <= text.len() && #[trigger] text.subrange(k, k + part.len()) == part
}

/// Every column added to an existing table can be added there: a column that
/// may not hold null comes with a default for the rows already in the table,
/// and each added column is new, no two of them sharing a name.
pub proof fn law_added_columns_can_be_added()
    ensures
        forall|i: int|
            0 <= i < added_history_columns().len() && has_part(
                #[trigger] added_history_columns()[i].1,
                "NOT NULL"@,
            ) ==> has_part(added_history_columns()[i].1, " DEFAULT "@),
        forall|i: int, j: int|
            0 <= i < j < added_history_columns().len() ==> #[trigger] added_history_columns()[i].0
                != #[trigger] added_history_columns()[j].0,
{
    reveal_strlit("NOT NULL");
    reveal_strlit(" DEFAULT ");
    reveal_strlit("TEXT NOT NULL DEFAULT 'query'");
    reveal_strlit("TEXT NOT NULL DEFAULT ''");
    reveal_strlit("INTEGER");
    reveal_strlit("TEXT");
    reveal_strlit("activity_kind");
    reveal_strlit("connection_id");
    reveal_strlit("operation");
    reveal_strlit("target");
    reveal_strlit("affected_rows");
    reveal_strlit("rollback_sql");
    reveal_strlit("details_json");
    let all = added_history_columns();
    let with_query = "TEXT NOT NULL DEFAULT 'query'"@;
    let with_empty = "TEXT NOT NULL DEFAULT ''"@;
    let default_part = " DEFAULT "@;
    assert(with_query.subrange(13, 13 + default_part.len() as int) =~= default_part);
    assert(with_empty.subrange(13, 13 + default_part.len() as int) =~= default_part);
    assert(has_part(with_query, " DEFAULT "@));
    assert(has_part(with_empty, " DEFAULT "@));
    assert(!has_part("INTEGER"@, "NOT NULL"@));
    assert(!has_part("TEXT"@, "NOT NULL"@));
    assert forall|i: int, j: int| 0 <= i < j < all.len() implies #[trigger] all[i].0
        != #[trigger] all[j].0 by {
        assert(all[i].0.len() != all[j].0.len() || all[i].0[0] != all[j].0[0] || all[i].0[1]
            != all[j].0[1]);
    }
}

/// The statement that adds `name` with `definition` to the history table.
pub open spec fn add_column_sql(name: Seq<char>, definition: Seq<char>) -> Seq<char> {
    "ALTER TABLE history ADD COLUMN "@ + name + " "@ + definition
}

fn column(name: &str, definition: &str) -> (r: HistoryColumn)
    ensures
        r.name@ == name@,
        r.definition@ == definition@,
{
    HistoryColumn { name: name.to_owned(), definition: definition.to_owned() }
}

/// The columns that later releases added to the history table.
pub fn added_columns() -> (r: Vec<HistoryColumn>)
    ensures
        columns_view(r@) == added_history_columns(),
{
    let mut r: Vec<HistoryColumn> = Vec::new();
    r.push(column("activity_kind", "TEXT NOT NULL DEFAULT 'query'"));
    r.push(column("connection_id", "TEXT NOT NULL DEFAULT ''"));
    r.push(column("operation", "TEXT NOT NULL DEFAULT ''"));
    r.push(column("target", "TEXT NOT NULL DEFAULT ''"));
    r.push(column("affected_rows", "INTEGER"));
    r.push(column("rollback_sql", "TEXT"));
    r.push(column("details_json", "TEXT"));
    assert(columns_view(r@) =~= added_history_columns());
    r
}

fn contains_name(names: &[String], name: &String) -> (r: bool)
    ensures
        r == views_of(names@).contains(name@),
{
    let mut i: usize = 0;
    while i < names.len()
        invariant
            i <= names@.len(),
            forall|k: int| 0 <= k < i ==> #[trigger] names@[k]@ != name@,
        decreases names@.len() - i,
    {
        if names[i] == *name {
            assert(views_of(names@)[i as int] == name@);
            return true;
        }
        i = i + 1;
    }
    proof {
        if views_of(names@).contains(name@) {
            let k = choose|k: int| 0 <= k < names@.len() && views_of(names@)[k] == name@;
            assert(names@[k]@ == name@);
        }
    }
    false
}

/// The columns the history table still lacks, given the names of the columns
/// it has; they are to be added in this order.
pub fn missing_history_columns(existing: &[String]) -> (r: Vec<HistoryColumn>)
    ensures
        columns_view(r@) == columns_missing_from(added_history_columns(), views_of(existing@)),
{
    let mut columns = added_columns();
    let ghost all = columns@;
    let n = columns.len();
    let mut missing: Vec<HistoryColumn> = Vec::new();
    let mut i: usize = 0;
    while i < n
        invariant
            n == all.len(),
            columns_view(all) == added_history_columns(),
            i <= n,
            columns@ == all.skip(i as int),
            columns_view(missing@) == columns_missing_from(
                columns_view(all.take(i as int)),
                views_of(existing@),
            ),
        decreases n - i,
    {
        let c = columns.remove(0);
        proof {
            assert(all.skip(i as int).remove(0) =~= all.skip(i + 1));
            assert(columns_view(all.take(i + 1)).drop_last() =~= columns_view(all.take(i as int)));
            assert(columns_view(all.take(i + 1)).last() == (c.name@, c.definition@));
        }
        if !contains_name(existing, &c.name) {
            let ghost before = missing@;
            missing.push(c);
            assert(columns_view(missing@) =~= columns_view(before).push((c.name@, c.definition@)));
        }
        i = i + 1;
    }
    assert(all.take(n as int) =~= all);
    missing
}

impl HistoryColumn {
    /// The statement that adds this column to the history table.
    pub fn add_column_statement(&self) -> (r: String)
        ensures
            r@ == add_column_sql(self.name@, self.definition@),
            r@ == "ALTER TABLE history ADD COLUMN "@ + self.name@ + " "@ + self.definition@,
    {
        let mut sql = String::from_str("ALTER TABLE history ADD COLUMN ");
        sql.append(self.name.as_str());
        sql.append(" ");
        sql.append(self.definition.as_str());
        sql
    }
}

/// The statement that adds a column names the history table and the column,
/// and ends with the column's whole definition: `ALTER TABLE history ADD
/// COLUMN`, the name, one space, then the definition as it stands.
pub proof fn law_add_column_statement_shape(name: Seq<char>, definition: Seq<char>)
    ensures
        ({
            let sql = add_column_sql(name, definition);
            let head = "ALTER TABLE history ADD COLUMN "@;
            &&& sql.len() == head.len() + name.len() + 1 + definition.len()
            &&& sql.subrange(0, head.len() as int) == head
            &&& sql.subrange(head.len() as int, (head.len() + name.len()) as int) == name
            &&& sql[(head.len() + name.len()) as int] == ' '
            &&& sql.subrange(sql.len() - definition.len(), sql.len() as int) == definition
        }),
{
    reveal_strlit("ALTER TABLE history ADD COLUMN ");
    reveal_strlit(" ");
    let head = "ALTER TABLE history ADD COLUMN "@;
    let sql = add_column_sql(name, definition);
    assert(sql.subrange(0, head.len() as int) =~= head);
    assert(sql.subrange(head.len() as int, (head.len() + name.len()) as int) =~= name);
    assert(sql.subrange(sql.len() - definition.len(), sql.len() as int) =~= definition);
}

/// Every column that the table is planned to gain is added with its full
/// definition from the list of added columns.
pub proof fn law_planned_columns_added_with_definition(existing: Seq<Seq<char>>, i: int)
    requires
        0 <= i < columns_missing_from(added_history_columns(), existing).len(),
    ensures
        ({
            let column = columns_missing_from(added_history_columns(), existing)[i];
            let sql = add_column_sql(column.0, column.1);
            &&& added_history_columns().contains(column)
            &&& sql.subrange(sql.len() - column.1.len(), sql.len() as int) == column.1
            &&& sql.subrange(0, sql.len() - column.1.len()) == "ALTER TABLE history ADD COLUMN "@
                + column.0 + " "@
        }),
{
    let planned = columns_missing_from(added_history_columns(), existing);
    let column = planned[i];
    assert(planned.contains(column));
    lemma_columns_missing_from_parts(added_history_columns(), existing, column);
    let sql = add_column_sql(column.0, column.1);
    assert(sql.subrange(sql.len() - column.1.len(), sql.len() as int) =~= column.1);
    assert(sql.subrange(0, sql.len() - column.1.len()) =~= "ALTER TABLE history ADD COLUMN "@
        + column.0 + " "@);
}

proof fn lemma_columns_missing_from_parts(
    columns: Seq<(Seq<char>, Seq<char>)>,
    existing: Seq<Seq<char>>,
    column: (Seq<char>, Seq<char>),
)
    ensures
        columns_missing_from(columns, existing).contains(column) <==> columns.contains(column)
            && !existing.contains(column.0),
    decreases columns.len(),
{
    if columns.len() > 0 {
        let rest = columns.drop_last();
        lemma_columns_missing_from_parts(rest, existing, column);
        let missing_rest = columns_missing_from(rest, existing);
        if columns.contains(column) && !existing.contains(column.0) {
            let i = choose|i: int| 0 <= i < columns.len() && columns[i] == column;
            if i < columns.len() - 1 {
                assert(rest[i] == column);
                let k = choose|k: int| 0 <= k < missing_rest.len() && missing_rest[k] == column;
                if !existing.contains(columns.last().0) {
                    assert(missing_rest.push(columns.last())[k] == column);
                }
            } else {
                assert(missing_rest.push(columns.last())[missing_rest.len() as int] == column);
            }
        }
        if columns_missing_from(columns, existing).contains(column) {
            let m = columns_missing_from(columns, existing);
            let k = choose|k: int| 0 <= k < m.len() && m[k] == column;
            if k < missing_rest.len() {
                assert(missing_rest[k] == column);
                let i = choose|i: int| 0 <= i < rest.len() && rest[i] == column;
                assert(columns[i] == column);
            } else {
                assert(column == columns.last());
                assert(columns[columns.len() - 1] == column);
            }
        }
    }
}

proof fn lemma_no_columns_missing(columns: Seq<(Seq<char>, Seq<char>)>, existing: Seq<Seq<char>>)
    requires
        forall|i: int| 0 <= i < columns.len() ==> existing.contains(#[trigger] columns[i].0),
    ensures
        columns_missing_from(columns, existing) == Seq::<(Seq<char>, Seq<char>)>::empty(),
    decreases columns.len(),
{
    if columns.len() > 0 {
        let rest = columns.drop_last();
        assert forall|i: int| 0 <= i < rest.len() implies existing.contains(#[trigger] rest[i].0) by {
            assert(rest[i] == columns[i]);
        }
        lemma_no_columns_missing(rest, existing);
        assert(existing.contains(columns[columns.len() - 1].0));
    }
}

/// Adding the missing columns completes the history table: a column is
/// planned exactly when the table lacks it, and once the planned columns are
/// added nothing is missing any more.
pub proof fn law_history_columns_completed(existing: Seq<Seq<char>>)
    ensures
        forall|column: (Seq<char>, Seq<char>)|
            #![trigger columns_missing_from(added_history_columns(), existing).contains(column)]
            columns_missing_from(added_history_columns(), existing).contains(column)
                <==> added_history_columns().contains(column) && !existing.contains(column.0),
        columns_missing_from(
            added_history_columns(),
            existing + columns_missing_from(added_history_columns(), existing).map_values(
                |c: (Seq<char>, Seq<char>)| c.0,
            ),
        ) == Seq::<(Seq<char>, Seq<char>)>::empty(),
{
    let all = added_history_columns();
    let planned = columns_missing_from(all, existing);
    let names = planned.map_values(|c: (Seq<char>, Seq<char>)| c.0);
    assert forall|column: (Seq<char>, Seq<char>)|
        #![trigger columns_missing_from(added_history_columns(), existing).contains(column)]
        columns_missing_from(added_history_columns(), existing).contains(column)
            <==> added_history_columns().contains(column) && !existing.contains(column.0) by {
        lemma_columns_missing_from_parts(all, existing, column);
    }
    assert forall|i: int| 0 <= i < all.len() implies (existing + names).contains(
        #[trigger] all[i].0,
    ) by {
        if existing.contains(all[i].0) {
            let k = choose|k: int| 0 <= k < existing.len() && existing[k] == all[i].0;
            assert((existing + names)[k] == all[i].0);
        } else {
            assert(all.contains(all[i]));
            lemma_columns_missing_from_parts(all, existing, all[i]);
            let k = choose|k: int| 0 <= k < planned.len() && planned[k] == all[i];
            assert((existing + names)[existing.len() + k] == all[i].0);
        }
    }
    lemma_no_columns_missing(all, existing + names);
}

} // verus!
