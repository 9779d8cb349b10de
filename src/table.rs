//! Schema model: the declarative table configuration, the table metadata
//! derived from it, and the SQL text generated from that metadata.

use vstd::prelude::*;
use crate::text::{bool_text, bool_to_text, decimal, decimal_string, join, join_strings, starts_with, str_eq, utf8_lossy, utf8_lossy_string};
use vstd::slice::slice_subrange;

verus! {

/// Prefix of a table id that names an on-chain table.
pub const ONCHAIN_TABLE: &'static str = "ont";

/// Prefix of a table id that names an off-chain table.
pub const OFFCHAIN_TABLE: &'static str = "oft";

/// One declared table of the configuration document.
pub struct TableJsonInfo {
    /// Declared fields, in document order, as (field name, type tag).
    pub fields: Vec<(String, String)>,
    /// Names of the fields that form the primary key.
    pub keys: Vec<String>,
    pub offchain: bool,
}

/// The configuration document.
pub struct DubheConfigJson {
    /// Component tables, in document order, as (table name, declaration).
    pub components: Vec<(String, TableJsonInfo)>,
    /// Resource tables, in document order, as (table name, declaration).
    pub resources: Vec<(String, TableJsonInfo)>,
    /// Enum declarations: name and its (numeric tag, variant name) pairs.
    pub enums: Vec<(String, Vec<(String, String)>)>,
    pub package_id: Option<String>,
}

/// One column of a table.
pub struct TableField {
    pub field_name: String,
    pub field_type: String,
    /// Position within the key fields, or within the value fields.
    pub field_index: u8,
    pub is_key: bool,
}

/// One logical table.
pub struct TableMetadata {
    pub name: String,
    pub table_type: String,
    pub fields: Vec<TableField>,
    pub offchain: bool,
}

/// Why a configuration document was refused.
#[derive(Debug, PartialEq, Eq, Structural)]
pub enum ConfigError {
    MissingPackageId,
}

pub ghost struct InfoView {
    pub fields: Seq<(Seq<char>, Seq<char>)>,
    pub keys: Seq<Seq<char>>,
    pub offchain: bool,
}

pub ghost struct FieldView {
    pub name: Seq<char>,
    pub ty: Seq<char>,
    pub index: nat,
    pub is_key: bool,
}

pub ghost struct TableView {
    pub name: Seq<char>,
    pub table_type: Seq<char>,
    pub fields: Seq<FieldView>,
    pub offchain: bool,
}

impl View for TableJsonInfo {
    type V = InfoView;

    open spec fn view(&self) -> InfoView {
        InfoView {
            fields: self.fields@.map_values(|p: (String, String)| (p.0@, p.1@)),
            keys: self.keys@.map_values(|k: String| k@),
            offchain: self.offchain,
        }
    }
}

impl View for TableField {
    type V = FieldView;

    open spec fn view(&self) -> FieldView {
        FieldView {
            name: self.field_name@,
            ty: self.field_type@,
            index: self.field_index as nat,
            is_key: self.is_key,
        }
    }
}

impl View for TableMetadata {
    type V = TableView;

    open spec fn view(&self) -> TableView {
        TableView {
            name: self.name@,
            table_type: self.table_type@,
            fields: self.fields@.map_values(|f: TableField| f@),
            offchain: self.offchain,
        }
    }
}

/// Declared tables of one group as (name, declaration) views.
pub open spec fn entries_view(e: Seq<(String, TableJsonInfo)>) -> Seq<(Seq<char>, InfoView)> {
    e.map_values(|p: (String, TableJsonInfo)| (p.0@, p.1@))
}

/// Number of fields in `fields` whose key flag is `k`.
pub open spec fn count_keyed(fields: Seq<FieldView>, k: bool) -> nat
    decreases fields.len(),
{
    if fields.len() == 0 {
        0
    } else {
        count_keyed(fields.drop_last(), k) + if fields.last().is_key == k { 1nat } else { 0nat }
    }
}

/// Fields of a declared table: declaration order kept, each field a key
/// when its name is listed in `keys`, indexes counted separately for key
/// fields and value fields.
pub open spec fn build_fields(decl: Seq<(Seq<char>, Seq<char>)>, keys: Seq<Seq<char>>) -> Seq<FieldView>
    decreases decl.len(),
{
    if decl.len() == 0 {
        Seq::empty()
    } else {
        let prev = build_fields(decl.drop_last(), keys);
        let is_key = keys.contains(decl.last().0);
        prev.push(FieldView {
            name: decl.last().0,
            ty: decl.last().1,
            index: count_keyed(prev, is_key),
            is_key,
        })
    }
}

pub open spec fn table_of(name: Seq<char>, info: InfoView, kind: Seq<char>) -> TableView {
    TableView {
        name,
        table_type: kind,
        fields: build_fields(info.fields, info.keys),
        offchain: info.offchain,
    }
}

pub open spec fn tables_of(entries: Seq<(Seq<char>, InfoView)>, kind: Seq<char>) -> Seq<TableView> {
    entries.map_values(|e: (Seq<char>, InfoView)| table_of(e.0, e.1, kind))
}

/// Number of declared fields that are keys (`k`) or values (`!k`).
pub open spec fn count_declared(decl: Seq<(Seq<char>, Seq<char>)>, keys: Seq<Seq<char>>, k: bool) -> nat
    decreases decl.len(),
{
    if decl.len() == 0 {
        0
    } else {
        count_declared(decl.drop_last(), keys, k) + if keys.contains(decl.last().0) == k { 1nat } else { 0nat }
    }
}

/// A field index is a `u8`: a declared table has at most 256 key fields
/// and at most 256 value fields.
pub open spec fn info_fits(info: InfoView) -> bool {
    &&& count_declared(info.fields, info.keys, true) <= 256
    &&& count_declared(info.fields, info.keys, false) <= 256
}

pub open spec fn entries_fit(e: Seq<(String, TableJsonInfo)>) -> bool {
    forall|i: int| 0 <= i < e.len() ==> info_fits(#[trigger] e[i].1@)
}

/// SQL column type for a type tag.
pub open spec fn sql_type_of(t: Seq<char>) -> Seq<char> {
    if t == "u8"@ { "SMALLINT"@ }
    else if t == "u16"@ { "INTEGER"@ }
    else if t == "u32"@ { "BIGINT"@ }
    else if t == "u64"@ { "BIGINT"@ }
    else if t == "u128"@ { "NUMERIC"@ }
    else if t == "u256"@ { "NUMERIC"@ }
    else if t == "vector<u8>"@ { "SMALLINT[]"@ }
    else if t == "vector<u16>"@ { "INTEGER[]"@ }
    else if t == "vector<u32>"@ { "BIGINT[]"@ }
    else if t == "vector<u64>"@ { "BIGINT[]"@ }
    else if t == "vector<u128>"@ { "NUMERIC[]"@ }
    else if t == "vector<u256>"@ { "NUMERIC[]"@ }
    else if t == "vector<address>"@ { "TEXT[]"@ }
    else if t == "bool"@ { "BOOLEAN"@ }
    else { "TEXT"@ }
}

/// Names of the key fields, in field order.
pub open spec fn key_names(fields: Seq<FieldView>) -> Seq<Seq<char>>
    decreases fields.len(),
{
    if fields.len() == 0 {
        Seq::empty()
    } else {
        key_names(fields.drop_last()) + if fields.last().is_key { seq![fields.last().name] } else { Seq::empty() }
    }
}

/// Names of the value (non-key) fields, in field order.
pub open spec fn value_names(fields: Seq<FieldView>) -> Seq<Seq<char>>
    decreases fields.len(),
{
    if fields.len() == 0 {
        Seq::empty()
    } else {
        value_names(fields.drop_last()) + if fields.last().is_key { Seq::empty() } else { seq![fields.last().name] }
    }
}

pub open spec fn has_key(fields: Seq<FieldView>) -> bool {
    exists|i: int| 0 <= i < fields.len() && (#[trigger] fields[i]).is_key
}

/// Columns of the primary key: the key fields, or every value field when
/// no field is a key.
pub open spec fn primary_key_names(fields: Seq<FieldView>) -> Seq<Seq<char>> {
    if has_key(fields) { key_names(fields) } else { value_names(fields) }
}

pub open spec fn column_def(f: FieldView) -> Seq<char> {
    f.name + " "@ + sql_type_of(f.ty)
}

pub open spec fn bookkeeping_columns() -> Seq<Seq<char>> {
    seq![
        "created_at TIMESTAMPTZ DEFAULT CURRENT_TIMESTAMP"@,
        "updated_at TIMESTAMPTZ DEFAULT CURRENT_TIMESTAMP"@,
        "last_updated_checkpoint BIGINT DEFAULT 0"@,
        "is_deleted BOOLEAN DEFAULT FALSE"@,
    ]
}

pub open spec fn primary_key_clause(fields: Seq<FieldView>) -> Seq<char> {
    "PRIMARY KEY ("@ + join(primary_key_names(fields), ", "@) + ")"@
}

/// Every column definition of the table, the primary key clause last.
pub open spec fn table_columns(t: TableView) -> Seq<Seq<char>> {
    t.fields.map_values(|f: FieldView| column_def(f)) + bookkeeping_columns()
        + seq![primary_key_clause(t.fields)]
}

pub open spec fn create_table_sql(t: TableView) -> Seq<char> {
    "CREATE TABLE IF NOT EXISTS store_"@ + t.name + " ("@ + join(table_columns(t), ", "@) + ")"@
}

pub open spec fn field_insert_sql(table: Seq<char>, f: FieldView) -> Seq<char> {
    "INSERT INTO table_fields (table_name, field_name, field_type, field_index, is_key) VALUES ('"@
        + table + "', '"@ + f.name + "', '"@ + f.ty + "', '"@ + decimal(f.index) + "', "@
        + bool_text(f.is_key) + ")"@
}

pub open spec fn metadata_insert_sql(t: TableView) -> Seq<char> {
    "INSERT INTO table_metadata (table_name, table_type, offchain) VALUES ('"@ + t.name + "', '"@
        + t.table_type + "', "@ + bool_text(t.offchain) + ")"@
}

proof fn lemma_count_keyed_declared(decl: Seq<(Seq<char>, Seq<char>)>, keys: Seq<Seq<char>>, k: bool)
    ensures
        count_keyed(build_fields(decl, keys), k) == count_declared(decl, keys, k),
    decreases decl.len(),
{
    if decl.len() > 0 {
        lemma_count_keyed_declared(decl.drop_last(), keys, k);
        let f = build_fields(decl, keys);
        assert(f.drop_last() =~= build_fields(decl.drop_last(), keys));
    }
}

/// A prefix declares no more key (or value) fields than the whole.
proof fn lemma_count_declared_prefix(decl: Seq<(Seq<char>, Seq<char>)>, keys: Seq<Seq<char>>, n: int, k: bool)
    requires
        0 <= n <= decl.len(),
    ensures
        count_declared(decl.subrange(0, n), keys, k) <= count_declared(decl, keys, k),
    decreases decl.len() - n,
{
    if n < decl.len() {
        lemma_count_declared_prefix(decl, keys, n + 1, k);
        assert(decl.subrange(0, n + 1).drop_last() =~= decl.subrange(0, n));
    } else {
        assert(decl.subrange(0, n) =~= decl);
    }
}

/// Whether `name` is among `keys`.
fn contains_name(keys: &Vec<String>, name: &String) -> (r: bool)
    ensures
        r == keys@.map_values(|k: String| k@).contains(name@),
{
    let ghost kv = keys@.map_values(|k: String| k@);
    let mut i: usize = 0;
    while i < keys.len()
        invariant
            i <= keys.len(),
            kv == keys@.map_values(|k: String| k@),
            forall|j: int| 0 <= j < i ==> kv[j] != name@,
        decreases keys.len() - i,
    {
        if keys[i] == *name {
            assert(kv[i as int] == name@);
            return true;
        }
        i = i + 1;
    }
    false
}

/// Builds the metadata of one declared table.
fn build_table(name: &String, info: &TableJsonInfo, kind: &str) -> (r: TableMetadata)
    requires
        info_fits(info@),
    ensures
        r@ == table_of(name@, info@, kind@),
{
    let ghost decl = info@.fields;
    let ghost keys = info@.keys;
    let mut fields: Vec<TableField> = Vec::new();
    let mut key_count: usize = 0;
    let mut value_count: usize = 0;
    let mut i: usize = 0;
    while i < info.fields.len()
        invariant
            i <= info.fields.len(),
            info_fits(info@),
            decl == info@.fields,
            keys == info@.keys,
            fields@.map_values(|f: TableField| f@) == build_fields(decl.subrange(0, i as int), keys),
            key_count == count_keyed(fields@.map_values(|f: TableField| f@), true),
            value_count == count_keyed(fields@.map_values(|f: TableField| f@), false),
            fields@.len() == i,
        decreases info.fields.len() - i,
    {
        let ghost prev = fields@.map_values(|f: TableField| f@);
        proof {
            lemma_count_keyed_declared(decl.subrange(0, i as int), keys, true);
            lemma_count_keyed_declared(decl.subrange(0, i as int), keys, false);
            lemma_count_declared_prefix(decl, keys, i as int + 1, true);
            lemma_count_declared_prefix(decl, keys, i as int + 1, false);
            assert(decl.subrange(0, i as int + 1).drop_last() =~= decl.subrange(0, i as int));
        }
        let entry = &info.fields[i];
        let is_key = contains_name(&info.keys, &entry.0);
        let index: usize = if is_key { key_count } else { value_count };
        fields.push(TableField {
            field_name: entry.0.clone(),
            field_type: entry.1.clone(),
            field_index: index as u8,
            is_key,
        });
        if is_key {
            key_count = key_count + 1;
        } else {
            value_count = value_count + 1;
        }
        proof {
            let now = fields@.map_values(|f: TableField| f@);
            assert(now.drop_last() =~= prev);
            assert(now =~= build_fields(decl.subrange(0, i as int + 1), keys));
        }
        i = i + 1;
    }
    assert(decl.subrange(0, info.fields.len() as int) =~= decl);
    TableMetadata {
        name: name.clone(),
        table_type: String::from_str(kind),
        fields,
        offchain: info.offchain,
    }
}

/// Appends the metadata of every table of `entries` to `out`.
fn build_tables(entries: &Vec<(String, TableJsonInfo)>, kind: &str, out: &mut Vec<TableMetadata>)
    requires
        entries_fit(entries@),
    ensures
        final(out)@.map_values(|t: TableMetadata| t@)
            == old(out)@.map_values(|t: TableMetadata| t@) + tables_of(entries_view(entries@), kind@),
{
    let ghost start = old(out)@.map_values(|t: TableMetadata| t@);
    let ghost ev = entries_view(entries@);
    let mut i: usize = 0;
    while i < entries.len()
        invariant
            i <= entries.len(),
            entries_fit(entries@),
            ev == entries_view(entries@),
            out@.map_values(|t: TableMetadata| t@) == start + tables_of(ev.subrange(0, i as int), kind@),
        decreases entries.len() - i,
    {
        assert(info_fits(entries@[i as int].1@));
        let t = build_table(&entries[i].0, &entries[i].1, kind);
        let ghost before = out@;
        let ghost tv = t@;
        out.push(t);
        proof {
            assert(out@.map_values(|t: TableMetadata| t@) =~= before.map_values(|t: TableMetadata| t@).push(tv));
            assert(ev[i as int] == (entries@[i as int].0@, entries@[i as int].1@));
            assert(tables_of(ev.subrange(0, i as int + 1), kind@) =~= tables_of(ev.subrange(0, i as int), kind@).push(
                table_of(ev[i as int].0, ev[i as int].1, kind@)));
            assert(out@.map_values(|t: TableMetadata| t@) =~= start + tables_of(ev.subrange(0, i as int + 1), kind@));
        }
        i = i + 1;
    }
    assert(ev.subrange(0, entries.len() as int) =~= ev);
}

impl TableMetadata {
    /// Builds the package id and the table list of a configuration document:
    /// component tables first, then resource tables, each group in document
    /// order. Fails exactly when the document has no package id.
    pub fn from_config(config: DubheConfigJson) -> (r: Result<(String, Vec<TableMetadata>), ConfigError>)
        requires
            entries_fit(config.components@),
            entries_fit(config.resources@),
        ensures
            match r {
                Ok((package_id, tables)) => {
                    &&& config.package_id is Some
                    &&& package_id@ == config.package_id->0@
                    &&& tables@.map_values(|t: TableMetadata| t@)
                        == tables_of(entries_view(config.components@), "component"@)
                            + tables_of(entries_view(config.resources@), "resource"@)
                },
                Err(e) => config.package_id is None && e == ConfigError::MissingPackageId,
            },
    {
        let mut tables: Vec<TableMetadata> = Vec::new();
        proof {
            assert(tables@.map_values(|t: TableMetadata| t@) =~= Seq::<TableView>::empty());
        }
        build_tables(&config.components, "component", &mut tables);
        build_tables(&config.resources, "resource", &mut tables);
        assert(tables@.map_values(|t: TableMetadata| t@) =~= tables_of(entries_view(config.components@), "component"@)
            + tables_of(entries_view(config.resources@), "resource"@));
        match config.package_id {
            Some(package_id) => Ok((package_id, tables)),
            None => Err(ConfigError::MissingPackageId),
        }
    }
}

impl TableMetadata {
    /// SQL column type for a type tag; every unlisted tag maps to `TEXT`.
    pub fn get_sql_type(&self, type_: &str) -> (r: String)
        ensures
            r@ == sql_type_of(type_@),
    {
        let sql = if str_eq(type_, "u8") {
            "SMALLINT"
        } else if str_eq(type_, "u16") {
            "INTEGER"
        } else if str_eq(type_, "u32") {
            "BIGINT"
        } else if str_eq(type_, "u64") {
            "BIGINT"
        } else if str_eq(type_, "u128") {
            "NUMERIC"
        } else if str_eq(type_, "u256") {
            "NUMERIC"
        } else if str_eq(type_, "vector<u8>") {
            "SMALLINT[]"
        } else if str_eq(type_, "vector<u16>") {
            "INTEGER[]"
        } else if str_eq(type_, "vector<u32>") {
            "BIGINT[]"
        } else if str_eq(type_, "vector<u64>") {
            "BIGINT[]"
        } else if str_eq(type_, "vector<u128>") {
            "NUMERIC[]"
        } else if str_eq(type_, "vector<u256>") {
            "NUMERIC[]"
        } else if str_eq(type_, "vector<address>") {
            "TEXT[]"
        } else if str_eq(type_, "bool") {
            "BOOLEAN"
        } else {
            "TEXT"
        };
        String::from_str(sql)
    }

    /// Names of the primary key columns.
    fn primary_key_column_names(&self) -> (r: Vec<String>)
        ensures
            r@.map_values(|n: String| n@) == primary_key_names(self@.fields),
    {
        let ghost fv = self@.fields;
        let mut any_key = false;
        let mut i: usize = 0;
        while i < self.fields.len()
            invariant
                i <= self.fields.len(),
                fv == self@.fields,
                any_key == exists|j: int| 0 <= j < i && (#[trigger] fv[j]).is_key,
            decreases self.fields.len() - i,
        {
            if self.fields[i].is_key {
                assert(fv[i as int].is_key);
                any_key = true;
            }
            i = i + 1;
        }
        let mut names: Vec<String> = Vec::new();
        let mut i: usize = 0;
        while i < self.fields.len()
            invariant
                i <= self.fields.len(),
                fv == self@.fields,
                any_key == has_key(fv),
                names@.map_values(|n: String| n@) == if any_key {
                    key_names(fv.subrange(0, i as int))
                } else {
                    value_names(fv.subrange(0, i as int))
                },
            decreases self.fields.len() - i,
        {
            proof {
                assert(fv.subrange(0, i as int + 1).drop_last() =~= fv.subrange(0, i as int));
            }
            let ghost before = names@;
            if self.fields[i].is_key == any_key {
                names.push(self.fields[i].field_name.clone());
                proof {
                    assert(names@.map_values(|n: String| n@) =~= before.map_values(|n: String| n@).push(fv[i as int].name));
                }
            }
            proof {
                if any_key {
                    assert(names@.map_values(|n: String| n@) =~= key_names(fv.subrange(0, i as int + 1)));
                } else {
                    assert(names@.map_values(|n: String| n@) =~= value_names(fv.subrange(0, i as int + 1)));
                }
            }
            i = i + 1;
        }
        assert(fv.subrange(0, self.fields.len() as int) =~= fv);
        names
    }

    /// The `CREATE TABLE IF NOT EXISTS` statement of the table: every field
    /// with its SQL type, the four bookkeeping columns, then the primary key.
    pub fn generate_create_table_sql(&self) -> (r: String)
        ensures
            r@ == create_table_sql(self@),
    {
        let ghost fv = self@.fields;
        let mut columns: Vec<String> = Vec::new();
        let mut i: usize = 0;
        while i < self.fields.len()
            invariant
                i <= self.fields.len(),
                fv == self@.fields,
                columns@.map_values(|c: String| c@) == fv.subrange(0, i as int).map_values(|f: FieldView| column_def(f)),
            decreases self.fields.len() - i,
        {
            let field = &self.fields[i];
            let mut col = field.field_name.clone();
            col.append(" ");
            let ty = self.get_sql_type(field.field_type.as_str());
            col.append(ty.as_str());
            assert(fv[i as int] == field@);
            assert(col@ == column_def(fv[i as int]));
            let ghost before = columns@;
            let ghost cv = col@;
            columns.push(col);
            proof {
                assert(columns@.map_values(|c: String| c@) =~= before.map_values(|c: String| c@).push(cv));
                assert(columns@.map_values(|c: String| c@) =~= fv.subrange(0, i as int + 1).map_values(|f: FieldView| column_def(f)));
            }
            i = i + 1;
        }
        assert(fv.subrange(0, self.fields.len() as int) =~= fv);
        let ghost cols = columns@.map_values(|c: String| c@);
        columns.push(String::from_str("created_at TIMESTAMPTZ DEFAULT CURRENT_TIMESTAMP"));
        columns.push(String::from_str("updated_at TIMESTAMPTZ DEFAULT CURRENT_TIMESTAMP"));
        columns.push(String::from_str("last_updated_checkpoint BIGINT DEFAULT 0"));
        columns.push(String::from_str("is_deleted BOOLEAN DEFAULT FALSE"));
        let names = self.primary_key_column_names();
        let mut clause = String::from_str("PRIMARY KEY (");
        let joined = join_strings(&names, ", ");
        clause.append(joined.as_str());
        clause.append(")");
        columns.push(clause);
        assert(columns@.map_values(|c: String| c@) =~= table_columns(self@));
        let body = join_strings(&columns, ", ");
        let mut sql = String::from_str("CREATE TABLE IF NOT EXISTS store_");
        sql.append(self.name.as_str());
        sql.append(" (");
        sql.append(body.as_str());
        sql.append(")");
        sql
    }

    /// One catalog statement per field, in field order, recording the
    /// field's table, name, type tag, index and key flag.
    pub fn generate_insert_table_fields_sql(&self) -> (r: Vec<String>)
        ensures
            r@.map_values(|s: String| s@) == self@.fields.map_values(|f: FieldView| field_insert_sql(self@.name, f)),
    {
        let ghost fv = self@.fields;
        let mut out: Vec<String> = Vec::new();
        let mut i: usize = 0;
        while i < self.fields.len()
            invariant
                i <= self.fields.len(),
                fv == self@.fields,
                out@.map_values(|s: String| s@) == fv.subrange(0, i as int).map_values(|f: FieldView| field_insert_sql(self@.name, f)),
            decreases self.fields.len() - i,
        {
            let field = &self.fields[i];
            let mut sql = String::from_str(
                "INSERT INTO table_fields (table_name, field_name, field_type, field_index, is_key) VALUES ('",
            );
            sql.append(self.name.as_str());
            sql.append("', '");
            sql.append(field.field_name.as_str());
            sql.append("', '");
            sql.append(field.field_type.as_str());
            sql.append("', '");
            let index = decimal_string(field.field_index as u128);
            sql.append(index.as_str());
            sql.append("', ");
            let flag = bool_to_text(field.is_key);
            sql.append(flag.as_str());
            sql.append(")");
            assert(fv[i as int] == field@);
            assert(sql@ == field_insert_sql(self@.name, fv[i as int]));
            let ghost before = out@;
            let ghost sv = sql@;
            out.push(sql);
            proof {
                assert(out@.map_values(|s: String| s@) =~= before.map_values(|s: String| s@).push(sv));
                assert(out@.map_values(|s: String| s@) =~= fv.subrange(0, i as int + 1).map_values(|f: FieldView| field_insert_sql(self@.name, f)));
            }
            i = i + 1;
        }
        assert(fv.subrange(0, self.fields.len() as int) =~= fv);
        out
    }

    /// The catalog statement recording the table's name, type and
    /// off-chain flag.
    pub fn generate_insert_table_metadata_sql(&self) -> (r: String)
        ensures
            r@ == metadata_insert_sql(self@),
    {
        let mut sql = String::from_str("INSERT INTO table_metadata (table_name, table_type, offchain) VALUES ('");
        sql.append(self.name.as_str());
        sql.append("', '");
        sql.append(self.table_type.as_str());
        sql.append("', ");
        let flag = bool_to_text(self.offchain);
        sql.append(flag.as_str());
        sql.append(")");
        sql
    }
}

/// `s` without its first three characters when it starts with `"ont"` or
/// `"oft"`, else `s` itself.
pub open spec fn strip_table_prefix(s: Seq<char>) -> Seq<char> {
    if s.len() >= 3 && (s.subrange(0, 3) == "ont"@ || s.subrange(0, 3) == "oft"@) {
        s.subrange(3, s.len() as int)
    } else {
        s
    }
}

/// The table name carried by a table id: the text after its three-byte
/// tag, with a further `ont` or `oft` prefix removed.
pub fn get_name(table_id: &Vec<u8>) -> (r: String)
    requires
        table_id@.len() >= 3,
    ensures
        r@ == strip_table_prefix(utf8_lossy(table_id@.subrange(3, table_id@.len() as int))),
{
    let rest = slice_subrange(table_id.as_slice(), 3, table_id.len());
    let text = utf8_lossy_string(rest);
    if starts_with(text.as_str(), ONCHAIN_TABLE) || starts_with(text.as_str(), OFFCHAIN_TABLE) {
        proof { reveal_strlit("ont"); reveal_strlit("oft"); }
        let n = text.unicode_len();
        String::from_str(text.as_str().substring_char(3, n))
    } else {
        proof { reveal_strlit("ont"); reveal_strlit("oft"); }
        text
    }
}

/// Bytes of the on-chain tag.
pub open spec fn onchain_tag() -> Seq<u8> {
    seq![111u8, 110u8, 116u8]
}

/// Splits a table id into its kind (`"ont"` when it starts with the
/// on-chain tag, else `"oft"`) and the text after its first three bytes.
pub fn parse_table_id(table_id: &Vec<u8>) -> (r: (String, String))
    requires
        table_id@.len() >= 3,
    ensures
        r.0@ == if table_id@.subrange(0, 3) == onchain_tag() { "ont"@ } else { "oft"@ },
        r.1@ == utf8_lossy(table_id@.subrange(3, table_id@.len() as int)),
{
    let onchain = table_id[0] == 111u8 && table_id[1] == 110u8 && table_id[2] == 116u8;
    assert(onchain == (table_id@.subrange(0, 3) == onchain_tag())) by {
        if table_id@.subrange(0, 3) == onchain_tag() {
            assert(table_id@.subrange(0, 3)[0] == table_id@[0]);
            assert(table_id@.subrange(0, 3)[1] == table_id@[1]);
            assert(table_id@.subrange(0, 3)[2] == table_id@[2]);
        }
        if onchain {
            assert(table_id@.subrange(0, 3) =~= onchain_tag());
        }
    }
    let ty = if onchain {
        String::from_str(ONCHAIN_TABLE)
    } else {
        String::from_str(OFFCHAIN_TABLE)
    };
    let rest = slice_subrange(table_id.as_slice(), 3, table_id.len());
    (ty, utf8_lossy_string(rest))
}

/// The statement ends with its only primary key clause, which lists the
/// key fields in field order when any field is a key, and every value
/// field in field order otherwise.
pub proof fn lemma_primary_key_clause(t: TableView)
    ensures
        create_table_sql(t) == "CREATE TABLE IF NOT EXISTS store_"@ + t.name + " ("@
            + join(t.fields.map_values(|f: FieldView| column_def(f)) + bookkeeping_columns(), ", "@)
            + ", "@ + primary_key_clause(t.fields) + ")"@,
        primary_key_clause(t.fields) == "PRIMARY KEY ("@ + join(
            if has_key(t.fields) { key_names(t.fields) } else { value_names(t.fields) },
            ", "@,
        ) + ")"@,
{
    let cols = t.fields.map_values(|f: FieldView| column_def(f)) + bookkeeping_columns();
    let all = table_columns(t);
    assert(all.drop_last() =~= cols);
    assert(all.len() >= 2);
    assert(join(all, ", "@) == join(cols, ", "@) + ", "@ + primary_key_clause(t.fields));
    assert(create_table_sql(t) =~= "CREATE TABLE IF NOT EXISTS store_"@ + t.name + " ("@
        + join(cols, ", "@) + ", "@ + primary_key_clause(t.fields) + ")"@);
}

/// A key name is the name of a key field, and the key fields appear in
/// field order; likewise for value names and value fields.
pub proof fn lemma_key_names_select(fields: Seq<FieldView>)
    ensures
        key_names(fields) == fields.filter(|f: FieldView| f.is_key).map_values(|f: FieldView| f.name),
        value_names(fields) == fields.filter(|f: FieldView| !f.is_key).map_values(|f: FieldView| f.name),
    decreases fields.len(),
{
    reveal(Seq::filter);
    if fields.len() > 0 {
        lemma_key_names_select(fields.drop_last());
        let kf = fields.drop_last().filter(|f: FieldView| f.is_key);
        let vf = fields.drop_last().filter(|f: FieldView| !f.is_key);
        if fields.last().is_key {
            assert(fields.filter(|f: FieldView| f.is_key).map_values(|f: FieldView| f.name)
                =~= kf.map_values(|f: FieldView| f.name) + seq![fields.last().name]);
            assert(fields.filter(|f: FieldView| !f.is_key).map_values(|f: FieldView| f.name)
                =~= vf.map_values(|f: FieldView| f.name));
        } else {
            assert(fields.filter(|f: FieldView| f.is_key).map_values(|f: FieldView| f.name)
                =~= kf.map_values(|f: FieldView| f.name));
            assert(fields.filter(|f: FieldView| !f.is_key).map_values(|f: FieldView| f.name)
                =~= vf.map_values(|f: FieldView| f.name) + seq![fields.last().name]);
        }
    } else {
        assert(fields.filter(|f: FieldView| f.is_key) =~= Seq::<FieldView>::empty());
        assert(fields.filter(|f: FieldView| !f.is_key) =~= Seq::<FieldView>::empty());
    }
}

} // verus!
