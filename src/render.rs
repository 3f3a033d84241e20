//! The SQL statement text generated for a managed entity: its table, its
//! columns and the statements that read, write and delete its rows.

use vstd::prelude::*;
use crate::migrations::texts;

verus! {

/// `items` with `sep` between each two of them.
pub open spec fn join_spec(items: Seq<Seq<char>>, sep: Seq<char>) -> Seq<char>
    decreases items.len(),
{
    if items.len() == 0 {
        Seq::empty()
    } else if items.len() == 1 {
        items[0]
    } else {
        join_spec(items.drop_last(), sep) + sep + items.last()
    }
}

/// Whether `s` begins with `prefix`.
pub open spec fn starts_with_spec(s: Seq<char>, prefix: Seq<char>) -> bool {
    prefix.len() <= s.len() && s.subrange(0, prefix.len() as int) == prefix
}

/// Whether `s` begins with `prefix`.
pub fn starts_with(s: &str, prefix: &str) -> (r: bool)
    ensures
        r == starts_with_spec(s@, prefix@),
{
    let n = prefix.unicode_len();
    if n > s.unicode_len() {
        return false;
    }
    let mut i: usize = 0;
    while i < n
        invariant
            n == prefix@.len(),
            n <= s@.len(),
            i <= n,
            s@.subrange(0, i as int) == prefix@.subrange(0, i as int),
        decreases n - i,
    {
        if s.get_char(i) != prefix.get_char(i) {
            assert(s@.subrange(0, n as int)[i as int] != prefix@[i as int]);
            return false;
        }
        assert(s@.subrange(0, i + 1) == s@.subrange(0, i as int).push(s@[i as int]));
        assert(prefix@.subrange(0, i + 1) == prefix@.subrange(0, i as int).push(prefix@[i as int]));
        i = i + 1;
    }
    assert(prefix@.subrange(0, n as int) == prefix@);
    true
}

/// The pieces joined with `sep` between each two of them.
pub fn join(pieces: &Vec<String>, sep: &str) -> (r: String)
    ensures
        r@ == join_spec(texts(pieces@), sep@),
{
    let mut r = String::new();
    let mut i: usize = 0;
    while i < pieces.len()
        invariant
            i <= pieces.len(),
            r@ == join_spec(texts(pieces@.subrange(0, i as int)), sep@),
        decreases pieces.len() - i,
    {
        let ghost before = texts(pieces@.subrange(0, i as int));
        assert(texts(pieces@.subrange(0, i + 1)).drop_last() == before);
        assert(texts(pieces@.subrange(0, i + 1)).last() == pieces@[i as int]@);
        if i > 0 {
            r.append(sep);
        } else {
            assert(texts(pieces@.subrange(0, 1)) == seq![pieces@[0]@]);
        }
        r.append(pieces[i].as_str());
        i = i + 1;
    }
    assert(pieces@.subrange(0, pieces.len() as int) == pieces@);
    r
}

/// A column of a managed table.
#[derive(Debug, Clone)]
pub struct Column {
    pub name: String,
    pub rust_type: String,
    pub sql_type: String,
}

/// Why a table cannot be described.
#[derive(Debug, Clone)]
pub enum RenderError {
    /// The field named here has a type that is not wrapped in `Option`.
    NotOptional { field: String },
    /// No field `id: Option<u64>` comes first among those named `id`.
    MissingPrimaryKey,
    /// The table has no column, or its first column is not `id`.
    FirstColumnNotId,
}

/// A managed table: its name and its columns, the first of which is `id`.
pub struct Table {
    name: String,
    columns: Vec<Column>,
}

/// Names of the columns, in order.
pub open spec fn column_names(cols: Seq<Column>) -> Seq<Seq<char>> {
    cols.map_values(|c: Column| c.name@)
}

impl Table {
    pub closed spec fn name_spec(&self) -> Seq<char> {
        self.name@
    }

    pub closed spec fn columns_spec(&self) -> Seq<Column> {
        self.columns@
    }

    /// Every table has an `id` column first.
    pub closed spec fn wf(&self) -> bool {
        self.columns@.len() > 0 && self.columns@[0].name@ == "id"@
    }

    /// The table `name` with `columns`, refused unless the first column is `id`.
    pub fn new(name: String, columns: Vec<Column>) -> (r: Result<Table, RenderError>)
        ensures
            match r {
                Ok(t) => t.wf() && t.name_spec() == name@ && t.columns_spec() == columns@,
                Err(e) => e is FirstColumnNotId && !(columns@.len() > 0 && columns@[0].name@
                    == "id"@),
            },
    {
        if columns.len() == 0 || columns[0].name != String::from_str("id") {
            return Err(RenderError::FirstColumnNotId);
        }
        Ok(Table { name, columns })
    }

    /// The name of the table.
    pub fn table_name(&self) -> (r: &String)
        ensures
            r@ == self.name_spec(),
    {
        &self.name
    }

    /// The columns of the table, in order.
    pub fn columns(&self) -> (r: &Vec<Column>)
        ensures
            r@ == self.columns_spec(),
    {
        &self.columns
    }
}

/// `SELECT `t`.* FROM `t``
pub open spec fn select_spec(name: Seq<char>) -> Seq<char> {
    "SELECT `"@ + name + "`.* FROM `"@ + name + "`"@
}

/// The same, leaving out soft-deleted rows.
pub open spec fn scoped_select_spec(name: Seq<char>) -> Seq<char> {
    select_spec(name) + " WHERE `"@ + name + "`.deleted_at is null"@
}

/// Hard delete of the row with a given `id`.
pub open spec fn delete_spec(name: Seq<char>) -> Seq<char> {
    "DELETE FROM "@ + name + " WHERE id=?"@
}

/// Soft delete of the row with a given `id`, only if it is not deleted yet.
pub open spec fn soft_delete_spec(name: Seq<char>) -> Seq<char> {
    "UPDATE "@ + name + " SET deleted_at = now() WHERE deleted_at is null and id=?"@
}

/// Every row of the table.
pub fn makesql_select(table: &Table) -> (r: String)
    ensures
        r@ == select_spec(table.name_spec()),
{
    let mut s = String::from_str("SELECT `");
    s.append(table.name.as_str());
    s.append("`.* FROM `");
    s.append(table.name.as_str());
    s.append("`");
    s
}

/// Every row of the table that is not soft-deleted.
pub fn makesql_scoped_select(table: &Table) -> (r: String)
    ensures
        r@ == scoped_select_spec(table.name_spec()),
{
    let mut s = makesql_select(table);
    s.append(" WHERE `");
    s.append(table.name.as_str());
    s.append("`.deleted_at is null");
    s
}

/// Removes the row whose `id` is bound.
pub fn makesql_delete(table: &Table) -> (r: String)
    ensures
        r@ == delete_spec(table.name_spec()),
{
    let mut s = String::from_str("DELETE FROM ");
    s.append(table.name.as_str());
    s.append(" WHERE id=?");
    s
}

/// Marks the row whose `id` is bound as deleted, unless it already is.
pub fn makesql_soft_delete(table: &Table) -> (r: String)
    ensures
        r@ == soft_delete_spec(table.name_spec()),
{
    let mut s = String::from_str("UPDATE ");
    s.append(table.name.as_str());
    s.append(" SET deleted_at = now() WHERE deleted_at is null and id=?");
    s
}

/// The names that an insert lists: all but `id` and `deleted_at`.
pub open spec fn insertable(names: Seq<Seq<char>>) -> Seq<Seq<char>>
    decreases names.len(),
{
    if names.len() == 0 {
        Seq::empty()
    } else {
        let rest = insertable(names.drop_last());
        if names.last() == "id"@ || names.last() == "deleted_at"@ {
            rest
        } else {
            rest.push(names.last())
        }
    }
}

/// Each name between backquotes.
pub open spec fn backquoted(names: Seq<Seq<char>>) -> Seq<Seq<char>> {
    names.map_values(|n: Seq<char>| "`"@ + n + "`"@)
}

/// `n` placeholders `?`.
pub open spec fn placeholders(n: nat) -> Seq<Seq<char>> {
    Seq::new(n, |i: int| "?"@)
}

/// Inserts a row: every column but `id` and `deleted_at`, one placeholder each.
pub open spec fn insert_spec(name: Seq<char>, cols: Seq<Column>) -> Seq<char> {
    let ins = insertable(column_names(cols));
    "INSERT INTO `"@ + name + "` ("@ + join_spec(backquoted(ins), ", "@) + ") VALUES ("@
        + join_spec(placeholders(ins.len()), ", "@) + ")"@
}

/// `name=?` for each name.
pub open spec fn assignments(names: Seq<Seq<char>>) -> Seq<Seq<char>> {
    names.map_values(|n: Seq<char>| n + "=?"@)
}

/// Updates every column but the first of the row whose `id` is bound.
pub open spec fn update_spec(name: Seq<char>, cols: Seq<Column>) -> Seq<char> {
    "UPDATE "@ + name + " SET "@ + join_spec(assignments(column_names(cols).drop_first()), ", "@)
        + " WHERE id=?"@
}

/// The line that declares a column in a table definition.
pub open spec fn column_definition(c: Column) -> Seq<char> {
    "\t`"@ + c.name@ + "` "@ + c.sql_type@
}

/// Creates the table, with an index on its `deleted_at` column.
pub open spec fn ddl_spec(name: Seq<char>, cols: Seq<Column>) -> Seq<char> {
    "CREATE TABLE `"@ + name + "` (\n"@ + join_spec(
        cols.map_values(|c: Column| column_definition(c)),
        ",\n"@,
    ) + ",\n\tKEY `idx_"@ + name
        + "_deleted_at` (`deleted_at`)\n) ENGINE=InnoDB DEFAULT CHARSET=utf8mb4 COLLATE=utf8mb4_unicode_ci;"@
}

/// Inserts a row with a value bound for each column but `id` and `deleted_at`.
pub fn makesql_insert(table: &Table) -> (r: String)
    ensures
        r@ == insert_spec(table.name_spec(), table.columns_spec()),
{
    let cols = &table.columns;
    let mut quoted: Vec<String> = Vec::new();
    let mut marks: Vec<String> = Vec::new();
    let mut i: usize = 0;
    while i < cols.len()
        invariant
            i <= cols.len(),
            texts(quoted@) == backquoted(insertable(column_names(cols@.subrange(0, i as int)))),
            texts(marks@) == placeholders(
                insertable(column_names(cols@.subrange(0, i as int))).len(),
            ),
        decreases cols.len() - i,
    {
        let ghost prev = column_names(cols@.subrange(0, i as int));
        assert(column_names(cols@.subrange(0, i + 1)).drop_last() == prev);
        assert(column_names(cols@.subrange(0, i + 1)).last() == cols@[i as int].name@);
        let n = &cols[i].name;
        if *n != String::from_str("id") && *n != String::from_str("deleted_at") {
            let ghost q0 = quoted@;
            let ghost m0 = marks@;
            let mut q = String::from_str("`");
            q.append(n.as_str());
            q.append("`");
            quoted.push(q);
            marks.push(String::from_str("?"));
            assert(texts(quoted@) == texts(q0).push(q@));
            assert(texts(marks@) == texts(m0).push("?"@));
            assert(backquoted(insertable(prev).push(n@)) == backquoted(insertable(prev)).push(
                "`"@ + n@ + "`"@,
            ));
            assert(placeholders(insertable(prev).len() + 1) == placeholders(
                insertable(prev).len(),
            ).push("?"@));
        }
        i = i + 1;
    }
    assert(cols@.subrange(0, cols.len() as int) == cols@);
    let mut s = String::from_str("INSERT INTO `");
    s.append(table.name.as_str());
    s.append("` (");
    s.append(join(&quoted, ", ").as_str());
    s.append(") VALUES (");
    s.append(join(&marks, ", ").as_str());
    s.append(")");
    s
}

/// Sets every column but `id` of the row whose `id` is bound.
pub fn makesql_update(table: &Table) -> (r: String)
    requires
        table.wf(),
    ensures
        r@ == update_spec(table.name_spec(), table.columns_spec()),
{
    let cols = &table.columns;
    let mut parts: Vec<String> = Vec::new();
    let mut i: usize = 1;
    while i < cols.len()
        invariant
            1 <= i <= cols.len(),
            texts(parts@) == assignments(column_names(cols@.subrange(1, i as int))),
        decreases cols.len() - i,
    {
        let ghost p0 = parts@;
        let mut a = cols[i].name.clone();
        a.append("=?");
        parts.push(a);
        assert(texts(parts@) == texts(p0).push(a@));
        assert(column_names(cols@.subrange(1, i + 1)) == column_names(cols@.subrange(1, i as int)).push(
            cols@[i as int].name@,
        ));
        i = i + 1;
    }
    assert(column_names(cols@.subrange(1, cols.len() as int)) == column_names(cols@).drop_first());
    let mut s = String::from_str("UPDATE ");
    s.append(table.name.as_str());
    s.append(" SET ");
    s.append(join(&parts, ", ").as_str());
    s.append(" WHERE id=?");
    s
}

/// Creates the table with a line for each column, and an index on
/// `deleted_at`.
pub fn makesql_ddl(table: &Table) -> (r: String)
    ensures
        r@ == ddl_spec(table.name_spec(), table.columns_spec()),
{
    let cols = &table.columns;
    let mut lines: Vec<String> = Vec::new();
    let mut i: usize = 0;
    while i < cols.len()
        invariant
            i <= cols.len(),
            texts(lines@) == cols@.subrange(0, i as int).map_values(
                |c: Column| column_definition(c),
            ),
        decreases cols.len() - i,
    {
        let ghost l0 = lines@;
        let mut l = String::from_str("\t`");
        l.append(cols[i].name.as_str());
        l.append("` ");
        l.append(cols[i].sql_type.as_str());
        lines.push(l);
        assert(texts(lines@) == texts(l0).push(l@));
        assert(cols@.subrange(0, i + 1).map_values(|c: Column| column_definition(c)) == cols@.subrange(
            0,
            i as int,
        ).map_values(|c: Column| column_definition(c)).push(column_definition(cols@[i as int])));
        i = i + 1;
    }
    assert(cols@.subrange(0, cols.len() as int) == cols@);
    let mut s = String::from_str("CREATE TABLE `");
    s.append(table.name.as_str());
    s.append("` (\n");
    s.append(join(&lines, ",\n").as_str());
    s.append(",\n\tKEY `idx_");
    s.append(table.name.as_str());
    s.append(
        "_deleted_at` (`deleted_at`)\n) ENGINE=InnoDB DEFAULT CHARSET=utf8mb4 COLLATE=utf8mb4_unicode_ci;",
    );
    s
}

/// What `regex` makes of `pattern` on `haystack`: `None` where the pattern
/// does not compile, else whether it matches.
pub uninterp spec fn regex_outcome(pattern: Seq<char>, haystack: Seq<char>) -> Option<bool>;

/// Relies on regex::Regex::new, to compile `pattern`, and on
/// regex::Regex::is_match, to search `haystack` with it; the outcome depends
/// on the two texts alone.
#[verifier::external_body]
fn regex_is_match(pattern: &str, haystack: &str) -> (r: Option<bool>)
    ensures
        r == regex_outcome(pattern@, haystack@),
{
    match regex::Regex::new(pattern) {
        Ok(re) => Some(re.is_match(haystack)),
        Err(_) => None,
    }
}

/// Field types that are a fixed-size byte array, as a token stream prints them.
pub const BYTE_ARRAY_PATTERN: &'static str = r"^Option < \[u8 ; \d+\] >$";

/// The type of the primary key column.
pub open spec fn primary_key_type() -> Seq<char> {
    "BIGINT UNSIGNED NOT NULL AUTO_INCREMENT PRIMARY KEY"@
}

/// Whether a field type is a fixed-size byte array.
pub open spec fn byte_array_spec(rust_type: Seq<char>) -> bool {
    regex_outcome(BYTE_ARRAY_PATTERN@, rust_type) == Some(true)
}

/// The column type stored for a field type other than the primary key's.
pub open spec fn value_sql_type(t: Seq<char>) -> Option<Seq<char>> {
    if t == "Option < i8 >"@ || t == "Option < u8 >"@ || t == "Option < i16 >"@ || t
        == "Option < u16 >"@ || t == "Option < i32 >"@ || t == "Option < u32 >"@ {
        Some("INT"@)
    } else if t == "Option < i64 >"@ {
        Some("BIGINT"@)
    } else if t == "Option < u64 >"@ {
        Some("BIGINT UNSIGNED"@)
    } else if t == "Option < f64 >"@ || t == "Option < f32 >"@ {
        Some("DOUBLE"@)
    } else if t == "Option < bool >"@ {
        Some("TINYINT"@)
    } else if t == "Option < String >"@ {
        Some("LONGTEXT CHARACTER SET utf8mb4 COLLATE utf8mb4_unicode_ci"@)
    } else if t == "Option < DateTime < FixedOffset > >"@ {
        Some("TIMESTAMP"@)
    } else if t == "Option < Blob >"@ || t == "Option < Vec < u8 > >"@ || t
        == "Option < [u8; _] >"@ {
        Some("BLOB"@)
    } else {
        None
    }
}

/// The column type of a field `name` of type `rust_type`; `byte_array` says
/// whether that type is a fixed-size byte array. Types outside `Option` have
/// none; unknown `Option` types are stored as JSON text.
pub open spec fn sql_type_spec(name: Seq<char>, rust_type: Seq<char>, byte_array: bool) -> Option<
    Seq<char>,
> {
    let t = if byte_array {
        "Option < [u8; _] >"@
    } else {
        rust_type
    };
    if name == "id"@ && t == "Option < u64 >"@ {
        Some(primary_key_type())
    } else if value_sql_type(t) is Some {
        value_sql_type(t)
    } else if starts_with_spec(rust_type, "Option < "@) {
        Some("TEXT"@)
    } else {
        None
    }
}

/// Whether the two texts are equal.
pub fn str_equals(a: &str, b: &str) -> (r: bool)
    ensures
        r == (a@ == b@),
{
    let r = a.unicode_len() == b.unicode_len() && starts_with(a, b);
    proof {
        assert(a@ == a@.subrange(0, a@.len() as int));
    }
    r
}

fn value_sql_type_of(t: &str) -> (r: Option<String>)
    ensures
        r matches Some(s) ==> value_sql_type(t@) == Some(s@),
        r is None ==> value_sql_type(t@) is None,
{
    let s = if str_equals(t, "Option < i8 >") || str_equals(t, "Option < u8 >") || str_equals(
        t,
        "Option < i16 >",
    ) || str_equals(t, "Option < u16 >") || str_equals(t, "Option < i32 >") || str_equals(
        t,
        "Option < u32 >",
    ) {
        "INT"
    } else if str_equals(t, "Option < i64 >") {
        "BIGINT"
    } else if str_equals(t, "Option < u64 >") {
        "BIGINT UNSIGNED"
    } else if str_equals(t, "Option < f64 >") || str_equals(t, "Option < f32 >") {
        "DOUBLE"
    } else if str_equals(t, "Option < bool >") {
        "TINYINT"
    } else if str_equals(t, "Option < String >") {
        "LONGTEXT CHARACTER SET utf8mb4 COLLATE utf8mb4_unicode_ci"
    } else if str_equals(t, "Option < DateTime < FixedOffset > >") {
        "TIMESTAMP"
    } else if str_equals(t, "Option < Blob >") || str_equals(t, "Option < Vec < u8 > >")
        || str_equals(t, "Option < [u8; _] >") {
        "BLOB"
    } else {
        return None;
    };
    Some(String::from_str(s))
}

/// The column type of a field `name` of type `rust_type`, given whether that
/// type is a fixed-size byte array; `None` for a type outside `Option`.
pub fn sql_type_for(name: &str, rust_type: &str, byte_array: bool) -> (r: Option<String>)
    ensures
        r matches Some(s) ==> sql_type_spec(name@, rust_type@, byte_array) == Some(s@),
        r is None ==> sql_type_spec(name@, rust_type@, byte_array) is None,
{
    let t = if byte_array {
        "Option < [u8; _] >"
    } else {
        rust_type
    };
    if str_equals(name, "id") && str_equals(t, "Option < u64 >") {
        return Some(String::from_str("BIGINT UNSIGNED NOT NULL AUTO_INCREMENT PRIMARY KEY"));
    }
    let v = value_sql_type_of(t);
    if v.is_some() {
        return v;
    }
    if starts_with(rust_type, "Option < ") {
        Some(String::from_str("TEXT"))
    } else {
        None
    }
}

/// A field of an entity as it is declared: its name, its type as a token
/// stream prints it, and whether it is marked to be left out of the table.
#[derive(Debug, Clone)]
pub struct FieldDecl {
    pub name: String,
    pub rust_type: String,
    pub skip: bool,
}

/// The fields that are not left out, in order.
pub open spec fn kept_fields(f: Seq<FieldDecl>) -> Seq<FieldDecl>
    decreases f.len(),
{
    if f.len() == 0 {
        Seq::empty()
    } else if f.last().skip {
        kept_fields(f.drop_last())
    } else {
        kept_fields(f.drop_last()).push(f.last())
    }
}

/// The column type of a declared field.
pub open spec fn field_sql_type(f: FieldDecl) -> Option<Seq<char>> {
    sql_type_spec(f.name@, f.rust_type@, byte_array_spec(f.rust_type@))
}

/// The first field named `id` is the primary key.
pub open spec fn has_primary_key(k: Seq<FieldDecl>) -> bool {
    exists|i: int|
        0 <= i < k.len() && #[trigger] k[i].name@ == "id"@ && (forall|j: int|
            0 <= j < i ==> k[j].name@ != "id"@) && field_sql_type(k[i]) == Some(primary_key_type())
}

/// The columns of an entity: one for each field not left out, in order, each
/// with the type that its field's type maps to. Refused where a field's type
/// is outside `Option` (the first such field is named), and then where the
/// first field named `id` is not `Option<u64>`.
pub fn extract_columns(fields: &Vec<FieldDecl>) -> (r: Result<Vec<Column>, RenderError>)
    ensures
        ({
            let k = kept_fields(fields@);
            match r {
                Ok(cols) => {
                    &&& forall|i: int| 0 <= i < k.len() ==> (#[trigger] field_sql_type(k[i])) is Some
                    &&& has_primary_key(k)
                    &&& cols@.len() == k.len()
                    &&& forall|i: int|
                        0 <= i < k.len() ==> {
                            &&& (#[trigger] cols@[i]).name@ == k[i].name@
                            &&& cols@[i].rust_type@ == k[i].rust_type@
                            &&& field_sql_type(k[i]) == Some(cols@[i].sql_type@)
                        }
                },
                Err(RenderError::NotOptional { field }) => exists|i: int|
                    0 <= i < k.len() && (#[trigger] field_sql_type(k[i])) is None && field@
                        == k[i].name@ && forall|j: int| 0 <= j < i ==> field_sql_type(k[j]) is Some,
                Err(RenderError::MissingPrimaryKey) => {
                    &&& forall|i: int| 0 <= i < k.len() ==> (#[trigger] field_sql_type(k[i])) is Some
                    &&& !has_primary_key(k)
                },
                Err(RenderError::FirstColumnNotId) => false,
            }
        }),
{
    let mut cols: Vec<Column> = Vec::new();
    let mut i: usize = 0;
    while i < fields.len()
        invariant
            i <= fields.len(),
            ({
                let k = kept_fields(fields@.subrange(0, i as int));
                &&& cols@.len() == k.len()
                &&& forall|j: int| 0 <= j < k.len() ==> (#[trigger] field_sql_type(k[j])) is Some
                &&& forall|j: int|
                    0 <= j < k.len() ==> {
                        &&& (#[trigger] cols@[j]).name@ == k[j].name@
                        &&& cols@[j].rust_type@ == k[j].rust_type@
                        &&& field_sql_type(k[j]) == Some(cols@[j].sql_type@)
                    }
            }),
        decreases fields.len() - i,
    {
        let ghost k0 = kept_fields(fields@.subrange(0, i as int));
        assert(fields@.subrange(0, i + 1).drop_last() == fields@.subrange(0, i as int));
        assert(fields@.subrange(0, i + 1).last() == fields@[i as int]);
        let f = &fields[i];
        if !f.skip {
            let byte_array = match regex_is_match(BYTE_ARRAY_PATTERN, f.rust_type.as_str()) {
                Some(b) => b,
                None => false,
            };
            match sql_type_for(f.name.as_str(), f.rust_type.as_str(), byte_array) {
                Some(t) => {
                    cols.push(Column { name: f.name.clone(), rust_type: f.rust_type.clone(), sql_type: t });
                    proof {
                        let k = kept_fields(fields@.subrange(0, i + 1));
                        assert(k == k0.push(*f));
                        assert forall|j: int| 0 <= j < k.len() implies {
                            &&& (#[trigger] cols@[j]).name@ == k[j].name@
                            &&& cols@[j].rust_type@ == k[j].rust_type@
                            &&& field_sql_type(k[j]) == Some(cols@[j].sql_type@)
                        } by {
                            if j < k0.len() {
                                assert(k[j] == k0[j]);
                            }
                        }
                        assert forall|j: int| 0 <= j < k.len() implies (#[trigger] field_sql_type(
                            k[j],
                        )) is Some by {
                            if j < k0.len() {
                                assert(k[j] == k0[j]);
                            }
                        }
                    }
                },
                None => {
                    proof {
                        let k1 = kept_fields(fields@.subrange(0, i + 1));
                        assert(k1 == k0.push(*f));
                        lemma_kept_fields_extend(fields@, i as int + 1);
                        let k = kept_fields(fields@);
                        assert(k.subrange(0, k1.len() as int) == k1);
                        let w = k0.len() as int;
                        assert(k[w] == k1[w]);
                        assert forall|j: int| 0 <= j < w implies field_sql_type(k[j]) is Some by {
                            assert(k[j] == k1[j]);
                            assert(k1[j] == k0[j]);
                        }
                        assert(field_sql_type(k[w]) is None);
                    }
                    return Err(RenderError::NotOptional { field: f.name.clone() });
                },
            }
        } else {
            assert(kept_fields(fields@.subrange(0, i + 1)) == k0);
        }
        i = i + 1;
    }
    assert(fields@.subrange(0, fields.len() as int) == fields@);
    let ghost k = kept_fields(fields@);
    let mut j: usize = 0;
    while j < cols.len()
        invariant
            j <= cols.len(),
            k == kept_fields(fields@),
            cols@.len() == k.len(),
            forall|m: int|
                0 <= m < k.len() ==> {
                    &&& (#[trigger] cols@[m]).name@ == k[m].name@
                    &&& cols@[m].rust_type@ == k[m].rust_type@
                    &&& field_sql_type(k[m]) == Some(cols@[m].sql_type@)
                },
            forall|m: int| 0 <= m < j ==> k[m].name@ != "id"@,
            forall|m: int| 0 <= m < k.len() ==> (#[trigger] field_sql_type(k[m])) is Some,
        decreases cols.len() - j,
    {
        assert(cols@[j as int].name@ == k[j as int].name@);
        if str_equals(cols[j].name.as_str(), "id") {
            let ok = str_equals(
                cols[j].sql_type.as_str(),
                "BIGINT UNSIGNED NOT NULL AUTO_INCREMENT PRIMARY KEY",
            );
            proof {
                if ok {
                    assert(has_primary_key(k));
                } else {
                    if has_primary_key(k) {
                        let w = choose|w: int|
                            0 <= w < k.len() && #[trigger] k[w].name@ == "id"@ && (forall|m: int|
                                0 <= m < w ==> k[m].name@ != "id"@) && field_sql_type(k[w]) == Some(
                                primary_key_type(),
                            );
                        assert(w == j);
                    }
                }
            }
            if ok {
                return Ok(cols);
            } else {
                return Err(RenderError::MissingPrimaryKey);
            }
        }
        j = j + 1;
    }
    Err(RenderError::MissingPrimaryKey)
}

proof fn lemma_kept_fields_extend(f: Seq<FieldDecl>, n: int)
    requires
        0 <= n <= f.len(),
    ensures
        kept_fields(f.subrange(0, n)).len() <= kept_fields(f).len(),
        kept_fields(f).subrange(0, kept_fields(f.subrange(0, n)).len() as int) == kept_fields(
            f.subrange(0, n),
        ),
    decreases f.len() - n,
{
    if n < f.len() {
        lemma_kept_fields_extend(f, n + 1);
        assert(f.subrange(0, n + 1).drop_last() == f.subrange(0, n));
        let a = kept_fields(f.subrange(0, n));
        let b = kept_fields(f.subrange(0, n + 1));
        assert(b.subrange(0, a.len() as int) == a);
        assert(kept_fields(f).subrange(0, a.len() as int) == kept_fields(f).subrange(
            0,
            b.len() as int,
        ).subrange(0, a.len() as int));
    } else {
        assert(f.subrange(0, n) == f);
    }
}

} // verus!
