//! The tables of the store and how an older store is brought up to date.

use crate::text::{
    append_chars, append_decimal, append_joined, chars_of, contains, contains_text, decimal, join,
    matches_at, same_chars, split, split_chars, split_words, starts_with, string_of, texts,
    trim_chars, trimmed, words,
};
use vstd::prelude::*;
use vstd::string::StringExecFns;

verus! {

/// The version of the schema that this library writes.
pub const CURRENT_SCHEMA_VERSION: i32 = 1;

pub const SQL_CREATE_SCHEMA_VERSION_TABLE: &'static str =
    "\nCREATE TABLE IF NOT EXISTS schema_version (\n    version INTEGER PRIMARY KEY NOT NULL\n);";

pub const SQL_CREATE_CONFIG_TABLE: &'static str =
    "\nCREATE TABLE IF NOT EXISTS config (\n    key TEXT PRIMARY KEY NOT NULL,\n    value TEXT NOT NULL\n);";

pub const SQL_CREATE_SHOWCASES_TABLE: &'static str =
    "\nCREATE TABLE IF NOT EXISTS showcases (\n    id TEXT PRIMARY KEY NOT NULL,\n    title TEXT NOT NULL,\n    description TEXT,\n    status TEXT NOT NULL DEFAULT 'Draft', \n    created_at INTEGER NOT NULL DEFAULT (strftime('%s', 'now')),\n    last_modified INTEGER NOT NULL DEFAULT (strftime('%s', 'now')),\n    phase INTEGER NOT NULL DEFAULT 1,           \n    selected_messages_json TEXT,  \n    pptx_path TEXT,              \n    images_json TEXT                           \n);";

pub const SQL_CREATE_MESSAGES_TABLE: &'static str =
    "\nCREATE TABLE IF NOT EXISTS messages (\n    message_id TEXT PRIMARY KEY NOT NULL,      \n    channel_id TEXT NOT NULL,                  \n    author_id TEXT NOT NULL,                   \n    author_name TEXT NOT NULL,                 \n    author_avatar TEXT,                        \n    message_content TEXT NOT NULL,             \n    attachments TEXT NOT NULL DEFAULT '[]',   \n    timestamp INTEGER NOT NULL,\n    is_used INTEGER NOT NULL DEFAULT 0      \n);";

pub const SQL_CREATE_MESSAGES_CHANNEL_INDEX: &'static str =
    "\nCREATE INDEX IF NOT EXISTS idx_messages_channel_id ON messages (channel_id);";

pub const SQL_CREATE_MESSAGES_TIMESTAMP_INDEX: &'static str =
    "\nCREATE INDEX IF NOT EXISTS idx_messages_timestamp ON messages (timestamp);";

pub const SQL_CREATE_MESSAGES_AUTHOR_INDEX: &'static str =
    "\nCREATE INDEX IF NOT EXISTS idx_messages_author_id ON messages (author_id);";

/// The pattern that finds the name of the table in a statement.
pub const TABLE_NAME_PATTERN: &'static str = "CREATE TABLE IF NOT EXISTS (\\w+)";

/// The pattern that finds the columns between the brackets of a statement.
pub const COLUMNS_PATTERN: &'static str = "\\(\\s*([\\s\\S]+?)\\s*\\);";

/// What the first group of a pattern captures in the leftmost match that
/// `regex` finds in a text; nothing where the pattern is no regular
/// expression, where it does not match, or where the group takes no part in
/// the match.
pub uninterp spec fn first_capture(pattern: Seq<char>, text: Seq<char>) -> Option<Seq<char>>;

/// `regex::Regex::new` on the pattern, `Regex::captures` on the text, and of
/// the captures `Captures::get(1)`, read with `Match::as_str`.
#[verifier::external_body]
pub(crate) fn capture_first(pattern: &str, text: &str) -> (r: Option<String>)
    ensures
        r.deep_view() == first_capture(pattern@, text@),
{
    match regex::Regex::new(pattern) {
        Ok(re) => re.captures(text).and_then(|c| c.get(1)).map(|m| m.as_str().to_string()),
        Err(_) => None,
    }
}

/// What one line between the commas of a table's definition says of a
/// column: its name and its definition, the words after the name with one
/// blank between them. Lines of a key and lines of fewer than two words
/// name no column.
pub open spec fn column_of(line: Seq<char>) -> Option<(Seq<char>, Seq<char>)> {
    let text = trimmed(line);
    if "PRIMARY KEY"@.is_prefix_of(text) || "FOREIGN KEY"@.is_prefix_of(text) || text.len() == 0
        || words(text).len() < 2 {
        None
    } else {
        Some((words(text)[0], join(words(text).skip(1), " "@)))
    }
}

/// The columns that the text between the brackets of a table's definition
/// names, in order.
pub open spec fn columns_of(text: Seq<char>) -> Seq<(Seq<char>, Seq<char>)> {
    split(text, ',').filter_map(|line: Seq<char>| column_of(line))
}

/// The table and the columns that a statement defines, or why none can be
/// read from it.
pub open spec fn table_of(sql: Seq<char>) -> Result<
    (Seq<char>, Seq<(Seq<char>, Seq<char>)>),
    Seq<char>,
> {
    match first_capture(TABLE_NAME_PATTERN@, sql) {
        None => Err("Could not extract table name from CREATE TABLE statement"@),
        Some(name) => match first_capture(COLUMNS_PATTERN@, sql) {
            None => Err("Could not extract column definitions from CREATE TABLE statement"@),
            Some(text) => Ok((name, columns_of(text))),
        },
    }
}

/// The column that one line of a table's definition names, if it names one.
pub fn read_column(line: &Vec<char>) -> (r: Option<(String, String)>)
    ensures
        r.deep_view() == column_of(line@),
{
    let text = trim_chars(line);
    if starts_with(&text, &chars_of("PRIMARY KEY")) || starts_with(&text, &chars_of("FOREIGN KEY"))
        || text.len() == 0 {
        return None;
    }
    let parts = split_words(&text);
    if parts.len() < 2 {
        return None;
    }
    assert(texts(parts@)[0] == parts@[0]@);
    let name = string_of(&parts[0]);
    let mut definition = String::new();
    append_joined(&mut definition, &parts, 1, " ");
    Some((name, definition))
}

/// The columns that the text between the brackets of a table's definition
/// names.
pub fn read_columns(text: &str) -> (columns: Vec<(String, String)>)
    ensures
        columns.deep_view() == columns_of(text@),
{
    let lines = split_chars(&chars_of(text), ',');
    let ghost all = texts(lines@);
    let ghost pick = |line: Seq<char>| column_of(line);
    let mut columns: Vec<(String, String)> = Vec::new();
    let mut i: usize = 0;
    while i < lines.len()
        invariant
            i <= lines.len(),
            all == texts(lines@),
            pick == |line: Seq<char>| column_of(line),
            columns.deep_view() == all.take(i as int).filter_map(pick),
        decreases lines.len() - i,
    {
        proof {
            all.lemma_filter_map_take_succ(pick, i as int);
            assert(all[i as int] == lines@[i as int]@);
        }
        match read_column(&lines[i]) {
            Some(column) => {
                let ghost before = columns.deep_view();
                columns.push(column);
                assert(columns.deep_view() == before + seq![column.deep_view()]);
            },
            None => {},
        }
        i += 1;
    }
    assert(all.take(all.len() as int) == all);
    columns
}

/// Reads the table and the columns that a `CREATE TABLE IF NOT EXISTS`
/// statement defines.
pub fn parse_create_table_statement(create_sql: &str) -> (r: Result<
    (String, Vec<(String, String)>),
    String,
>)
    ensures
        match r {
            Ok(table) => table_of(create_sql@) == Ok::<
                (Seq<char>, Seq<(Seq<char>, Seq<char>)>),
                Seq<char>,
            >((table.0@, table.1.deep_view())),
            Err(why) => table_of(create_sql@) == Err::<
                (Seq<char>, Seq<(Seq<char>, Seq<char>)>),
                Seq<char>,
            >(why@),
        },
{
    let name = match capture_first(TABLE_NAME_PATTERN, create_sql) {
        Some(name) => name,
        None => {
            return Err(
                String::from_str("Could not extract table name from CREATE TABLE statement"),
            );
        },
    };
    let text = match capture_first(COLUMNS_PATTERN, create_sql) {
        Some(text) => text,
        None => {
            return Err(
                String::from_str(
                    "Could not extract column definitions from CREATE TABLE statement",
                ),
            );
        },
    };
    Ok((name, read_columns(text.as_str())))
}

/// How a stored column describes itself: its type, then what else holds of
/// it, in this order.
pub open spec fn described(
    kind: Seq<char>,
    primary_key: bool,
    not_null: bool,
    default: Option<Seq<char>>,
) -> Seq<char> {
    kind + (if primary_key {
        " PRIMARY KEY"@
    } else {
        Seq::empty()
    }) + (if not_null {
        " NOT NULL"@
    } else {
        Seq::empty()
    }) + (match default {
        Some(d) => " DEFAULT "@ + d,
        None => Seq::empty(),
    })
}

/// The definition of a column as the store reports it.
pub fn column_definition(
    kind: &str,
    primary_key: bool,
    not_null: bool,
    default: Option<&str>,
) -> (definition: String)
    ensures
        definition@ == described(
            kind@,
            primary_key,
            not_null,
            match default {
                Some(d) => Some(d@),
                None => None,
            },
        ),
{
    let mut definition = String::from_str(kind);
    if primary_key {
        definition.append(" PRIMARY KEY");
    }
    if not_null {
        definition.append(" NOT NULL");
    }
    match default {
        Some(d) => {
            definition.append(" DEFAULT ");
            definition.append(d);
        },
        None => {},
    }
    assert(definition@ == described(
        kind@,
        primary_key,
        not_null,
        match default {
            Some(d) => Some(d@),
            None => None,
        },
    ));
    definition
}

/// `text` without the occurrences of `pattern`, found from left to right;
/// `pattern` is not empty.
pub open spec fn without(text: Seq<char>, pattern: Seq<char>) -> Seq<char>
    decreases text.len(),
{
    if pattern.len() == 0 || text.len() < pattern.len() {
        text
    } else if pattern.is_prefix_of(text) {
        without(text.skip(pattern.len() as int), pattern)
    } else {
        seq![text.first()] + without(text.drop_first(), pattern)
    }
}

/// The definition with which a column is added to a table that exists: a
/// column cannot be added as a primary key, so those words are taken out.
pub open spec fn addable(definition: Seq<char>) -> Seq<char> {
    if contains_text(definition, "PRIMARY KEY"@) {
        trimmed(without(definition, "PRIMARY KEY"@))
    } else {
        definition
    }
}

/// The statement that adds a column to a table.
pub open spec fn addition_of(table: Seq<char>, column: Seq<char>, definition: Seq<char>) -> Seq<
    char,
> {
    "ALTER TABLE "@ + table + " ADD COLUMN "@ + column + " "@ + addable(definition)
}

/// `text` without the occurrences of `pattern`.
pub fn remove_all(text: &Vec<char>, pattern: &Vec<char>) -> (r: Vec<char>)
    requires
        pattern.len() > 0,
    ensures
        r@ == without(text@, pattern@),
{
    let mut r: Vec<char> = Vec::new();
    let mut i: usize = 0;
    assert(text@.skip(0) == text@);
    while i < text.len() && text.len() - i >= pattern.len()
        invariant
            i <= text.len(),
            pattern.len() > 0,
            without(text@, pattern@) == r@ + without(text@.skip(i as int), pattern@),
        decreases text.len() - i,
    {
        let ghost rest = text@.skip(i as int);
        if matches_at(text, pattern, i) {
            assert(rest.subrange(0, pattern.len() as int) == text@.subrange(
                i as int,
                i + pattern.len(),
            ));
            assert(rest.skip(pattern.len() as int) == text@.skip(i + pattern.len()));
            i += pattern.len();
        } else {
            assert(rest.subrange(0, pattern.len() as int) == text@.subrange(
                i as int,
                i + pattern.len(),
            ));
            assert(rest.drop_first() == text@.skip(i + 1));
            let ghost before = r@;
            r.push(text[i]);
            assert(before + (seq![rest.first()] + without(rest.drop_first(), pattern@)) == r@
                + without(rest.drop_first(), pattern@));
            i += 1;
        }
    }
    let ghost kept = r@;
    let mut k: usize = i;
    while k < text.len()
        invariant
            i <= k <= text.len(),
            r@ == kept + text@.subrange(i as int, k as int),
        decreases text.len() - k,
    {
        r.push(text[k]);
        k += 1;
    }
    assert(text@.subrange(i as int, text.len() as int) == text@.skip(i as int));
    r
}

/// The statement that adds `column` with `definition` to `table`.
pub fn add_column_statement(table: &str, column: &str, definition: &str) -> (sql: String)
    ensures
        sql@ == addition_of(table@, column@, definition@),
{
    let mut sql = String::from_str("ALTER TABLE ");
    sql.append(table);
    sql.append(" ADD COLUMN ");
    sql.append(column);
    sql.append(" ");
    let text = chars_of(definition);
    let key = chars_of("PRIMARY KEY");
    if contains(&text, &key) {
        proof {
            reveal_strlit("PRIMARY KEY");
        }
        let plain = trim_chars(&remove_all(&text, &key));
        append_chars(&mut sql, &plain, 0, plain.len());
        assert(plain@.subrange(0, plain.len() as int) == plain@);
    } else {
        sql.append(definition);
    }
    sql
}

/// What is to be done with a store whose schema has a given version.
#[derive(Debug, Clone, Copy, PartialEq, Eq, Structural)]
pub enum SchemaAction {
    /// The store is older than the library: bring it up to date.
    Update,
    /// The store is as the library writes it.
    Keep,
    /// The store is newer than the library: it cannot be used.
    Refuse,
}

/// What is to be done with a store of version `version`.
pub open spec fn action_for(version: i32) -> SchemaAction {
    if version < CURRENT_SCHEMA_VERSION {
        SchemaAction::Update
    } else if version > CURRENT_SCHEMA_VERSION {
        SchemaAction::Refuse
    } else {
        SchemaAction::Keep
    }
}

/// What is to be done with a store of version `version`.
pub fn schema_action(version: i32) -> (r: SchemaAction)
    ensures
        r == action_for(version),
{
    if version < CURRENT_SCHEMA_VERSION {
        SchemaAction::Update
    } else if version > CURRENT_SCHEMA_VERSION {
        SchemaAction::Refuse
    } else {
        SchemaAction::Keep
    }
}

/// Why a store that is newer than the library is refused.
pub open spec fn refusal_of(version: i32) -> Seq<char>
    recommends
        version >= 0,
{
    "Database schema version "@ + decimal(version as nat)
        + " is newer than application version "@ + decimal(CURRENT_SCHEMA_VERSION as nat)
        + ". Please update the application."@
}

/// Why a store of version `version`, which is newer than the library, is
/// refused.
pub fn refusal_message(version: i32) -> (text: String)
    requires
        version > CURRENT_SCHEMA_VERSION,
    ensures
        text@ == refusal_of(version),
{
    let mut text = String::from_str("Database schema version ");
    append_decimal(&mut text, version as u64);
    text.append(" is newer than application version ");
    append_decimal(&mut text, CURRENT_SCHEMA_VERSION as u64);
    text.append(". Please update the application.");
    text
}

/// Whether `name` is one of `names`.
pub open spec fn is_among(names: Seq<Seq<char>>, name: Seq<char>) -> bool {
    names.contains(name)
}

/// Whether `name` is one of `names`.
pub fn has_name(names: &Vec<String>, name: &str) -> (r: bool)
    ensures
        r == is_among(names.deep_view(), name@),
{
    let wanted = chars_of(name);
    let mut i: usize = 0;
    while i < names.len()
        invariant
            i <= names.len(),
            wanted@ == name@,
            forall|k: int| 0 <= k < i ==> names.deep_view()[k] != name@,
        decreases names.len() - i,
    {
        if same_chars(&chars_of(names[i].as_str()), &wanted) {
            assert(names.deep_view()[i as int] == name@);
            return true;
        }
        i += 1;
    }
    false
}

/// What one expected column adds to the update of a table: its name and the
/// statement that adds it, unless the table has it.
pub open spec fn addition_for(
    table: Seq<char>,
    existing: Seq<Seq<char>>,
    column: (Seq<char>, Seq<char>),
) -> Option<(Seq<char>, Seq<char>)> {
    if is_among(existing, column.0) {
        None
    } else {
        Some((column.0, addition_of(table, column.0, column.1)))
    }
}

/// The statements that bring a table that exists up to date: one for each
/// expected column that it lacks, with the name of the column, in the order
/// of the columns.
pub open spec fn additions_of(
    table: Seq<char>,
    expected: Seq<(Seq<char>, Seq<char>)>,
    existing: Seq<Seq<char>>,
) -> Seq<(Seq<char>, Seq<char>)> {
    expected.filter_map(|column: (Seq<char>, Seq<char>)| addition_for(table, existing, column))
}

/// The columns of `expected` that are not among `existing`, each with the
/// statement that adds it to `table`.
pub fn missing_column_statements(
    table: &str,
    expected: &Vec<(String, String)>,
    existing: &Vec<String>,
) -> (statements: Vec<(String, String)>)
    ensures
        statements.deep_view() == additions_of(
            table@,
            expected.deep_view(),
            existing.deep_view(),
        ),
{
    let ghost all = expected.deep_view();
    let ghost pick = |column: (Seq<char>, Seq<char>)|
        addition_for(table@, existing.deep_view(), column);
    let mut statements: Vec<(String, String)> = Vec::new();
    let mut i: usize = 0;
    while i < expected.len()
        invariant
            i <= expected.len(),
            all == expected.deep_view(),
            pick == |column: (Seq<char>, Seq<char>)|
                addition_for(table@, existing.deep_view(), column),
            statements.deep_view() == all.take(i as int).filter_map(pick),
        decreases expected.len() - i,
    {
        proof {
            all.lemma_filter_map_take_succ(pick, i as int);
            assert(all[i as int] == expected@[i as int].deep_view());
        }
        let column = &expected[i];
        if !has_name(existing, column.0.as_str()) {
            let ghost before = statements.deep_view();
            let sql = add_column_statement(table, column.0.as_str(), column.1.as_str());
            let added = (column.0.clone(), sql);
            statements.push(added);
            assert(statements.deep_view() == before + seq![added.deep_view()]);
        }
        i += 1;
    }
    assert(all.take(all.len() as int) == all);
    statements
}

/// What is to be done for one table when a store is brought up to date.
#[derive(Debug)]
pub enum TableUpdate {
    /// The table is missing: run the statement that defines it.
    Create { table: String, sql: String },
    /// The table exists: add those of `expected` that it lacks.
    Complete { table: String, expected: Vec<(String, String)> },
}

/// The mathematical value of a [`TableUpdate`].
#[verifier::ext_equal]
pub enum TableUpdateView {
    Create { table: Seq<char>, sql: Seq<char> },
    Complete { table: Seq<char>, expected: Seq<(Seq<char>, Seq<char>)> },
}

impl View for TableUpdate {
    type V = TableUpdateView;

    open spec fn view(&self) -> TableUpdateView {
        match self {
            TableUpdate::Create { table, sql } => TableUpdateView::Create {
                table: table@,
                sql: sql@,
            },
            TableUpdate::Complete { table, expected } => TableUpdateView::Complete {
                table: table@,
                expected: expected.deep_view(),
            },
        }
    }
}

/// What is to be done for the table that `sql` defines in a store that has
/// the tables `existing`, or why the statement cannot be read.
pub open spec fn update_for(sql: Seq<char>, existing: Seq<Seq<char>>) -> Result<
    TableUpdateView,
    Seq<char>,
> {
    match table_of(sql) {
        Ok(table) => if is_among(existing, table.0) {
            Ok(TableUpdateView::Complete { table: table.0, expected: table.1 })
        } else {
            Ok(TableUpdateView::Create { table: table.0, sql })
        },
        Err(why) => Err(why),
    }
}

/// What is to be done for the table that `create_sql` defines in a store
/// that has the tables `existing`.
pub fn table_update(create_sql: &str, existing: &Vec<String>) -> (r: Result<TableUpdate, String>)
    ensures
        match r {
            Ok(update) => update_for(create_sql@, existing.deep_view()) == Ok::<
                TableUpdateView,
                Seq<char>,
            >(update@),
            Err(why) => update_for(create_sql@, existing.deep_view()) == Err::<
                TableUpdateView,
                Seq<char>,
            >(why@),
        },
{
    match parse_create_table_statement(create_sql) {
        Ok((table, expected)) => {
            if has_name(existing, table.as_str()) {
                Ok(TableUpdate::Complete { table, expected })
            } else {
                Ok(TableUpdate::Create { table, sql: String::from_str(create_sql) })
            }
        },
        Err(why) => Err(why),
    }
}

} // verus!
