//! Exporting the data of the site.
use crate::auth::CurrentUser;
use crate::configuration::{generic_text, generic_value};
use crate::crypto::vec_view;
use crate::error::{bad, forbidden, not_found, str_of, too_many, upstream, ApiError, Failure};
use crate::json::Json;
use crate::text::{alphanumeric, byte_length, chars_of, concat, is_alphanumeric, same, views};
use std::io::{Cursor, Write};
use vstd::prelude::*;
use zip::write::SimpleFileOptions;
use zip::ZipWriter;

verus! {

// ---------------------------------------------------------------------------
// Names
// ---------------------------------------------------------------------------

/// A character that may stand in the name of a download; an underscore for any other.
pub open spec fn download_char(c: char) -> char {
    if is_alphanumeric(c) || c == '-' || c == '_' || c == '.' {
        c
    } else {
        '_'
    }
}

pub open spec fn download_name(value: Seq<char>) -> Seq<char> {
    if value.len() == 0 {
        "CTFZone"@
    } else {
        value.map_values(|c: char| download_char(c))
    }
}

pub fn safe_download_name(value: &str) -> (result: String)
    ensures
        result@ == download_name(value@),
{
    if value.is_empty() {
        return "CTFZone".to_owned();
    }
    let chars = chars_of(value);
    let mut result = String::new();
    let mut i: usize = 0;
    while i < chars.len()
        invariant
            i <= chars.len(),
            chars@ == value@,
            result@ == value@.take(i as int).map_values(|c: char| download_char(c)),
        decreases chars.len() - i,
    {
        let c = chars[i];
        let kept = if alphanumeric(c) || c == '-' || c == '_' || c == '.' {
            c
        } else {
            '_'
        };
        result.push(kept);
        i += 1;
        assert(value@.take(i as int).map_values(|c: char| download_char(c)) =~= value@.take(
            i - 1,
        ).map_values(|c: char| download_char(c)).push(kept));
    }
    assert(value@.take(value@.len() as int) =~= value@);
    result
}

pub fn default_export_type() -> (result: String)
    ensures
        result@ == "_"@,
{
    "_".to_owned()
}

/// The name of a table: letters, digits and underscores.
pub open spec fn is_table_name(name: Seq<char>) -> bool {
    name.len() > 0 && forall|i: int|
        0 <= i < name.len() ==> is_alphanumeric(#[trigger] name[i]) || name[i] == '_'
}

fn table_name_ok(name: &str) -> (result: bool)
    ensures
        result == is_table_name(name@),
{
    if name.is_empty() {
        return false;
    }
    let chars = chars_of(name);
    let mut i: usize = 0;
    while i < chars.len()
        invariant
            i <= chars.len(),
            chars@ == name@,
            forall|j: int| 0 <= j < i ==> is_alphanumeric(#[trigger] name@[j]) || name@[j] == '_',
        decreases chars.len() - i,
    {
        if !alphanumeric(chars[i]) && chars[i] != '_' {
            assert(!(is_alphanumeric(name@[i as int]) || name@[i as int] == '_'));
            return false;
        }
        i += 1;
    }
    true
}

/// The query for the rows of a table.
pub open spec fn table_query(name: Seq<char>) -> Seq<char> {
    "SELECT to_jsonb(export_row) AS value FROM ctfzone.\""@ + name + "\" export_row"@
}

/// The query for the rows of a table that may be exported: it has a plain name and columns.
pub fn load_table(requested: &str, columns: usize) -> (result: Result<String, ApiError>)
    ensures
        match result {
            Ok(query) => is_table_name(requested@) && columns > 0 && query@ == table_query(
                requested@,
            ),
            Err(error) => (!is_table_name(requested@) || columns == 0) && error@ == not_found(
                "Export table not found"@,
            ),
        },
{
    if !table_name_ok(requested) || columns == 0 {
        return Err(ApiError::not_found("Export table not found"));
    }
    let start = concat("SELECT to_jsonb(export_row) AS value FROM ctfzone.\"", requested);
    Ok(concat(start.as_str(), "\" export_row"))
}

// ---------------------------------------------------------------------------
// What is exported
// ---------------------------------------------------------------------------

pub enum ExportPlan {
    Csv { table: String },
    Archive,
}

/// What is exported, by value.
pub enum ExportCourse {
    Csv(Seq<char>),
    Archive,
}

pub open spec fn shown_export(result: Result<ExportPlan, ApiError>) -> Result<
    ExportCourse,
    Failure,
> {
    match result {
        Ok(ExportPlan::Csv { table }) => Ok(ExportCourse::Csv(table@)),
        Ok(ExportPlan::Archive) => Ok(ExportCourse::Archive),
        Err(error) => Err(error@),
    }
}

pub open spec fn export_of(
    admin: bool,
    within_rate: bool,
    export_type: Seq<char>,
    table: Option<Seq<char>>,
) -> Result<ExportCourse, Failure> {
    if !admin {
        Err(forbidden("Administrator access is required"@))
    } else if !within_rate {
        Err(too_many("Too many exports; try again shortly"@))
    } else if export_type == "csv"@ {
        match table {
            Some(name) => Ok(ExportCourse::Csv(name)),
            None => Err(bad("Missing table to export"@)),
        }
    } else if export_type == "_"@ || export_type == "zip"@ || export_type == "backup"@ {
        Ok(ExportCourse::Archive)
    } else {
        Err(bad("Unsupported export type"@))
    }
}

/// What an administrator gets: one table as CSV, or an archive of all.
pub fn raw(user: &CurrentUser, within_rate: bool, export_type: &str, table: Option<&str>) -> (result:
    Result<ExportPlan, ApiError>)
    ensures
        shown_export(result) == export_of(user.admin(), within_rate, export_type@, str_of(table)),
{
    if let Err(error) = crate::auth::require_admin(user) {
        return Err(error);
    }
    if !within_rate {
        return Err(ApiError::too_many_requests("Too many exports; try again shortly"));
    }
    if same(export_type, "csv") {
        return match table {
            Some(name) => Ok(ExportPlan::Csv { table: name.to_owned() }),
            None => Err(ApiError::bad_request("Missing table to export")),
        };
    }
    if same(export_type, "_") || same(export_type, "zip") || same(export_type, "backup") {
        Ok(ExportPlan::Archive)
    } else {
        Err(ApiError::bad_request("Unsupported export type"))
    }
}

/// The name of an exported table; `timestamp` is the time of the export as text.
pub fn csv_filename(product: &str, table: &str, timestamp: &str) -> (result: String)
    ensures
        result@ == download_name(
            download_name(product@) + "-"@ + table@ + "-"@ + timestamp@ + ".csv"@,
        ),
{
    let name = safe_download_name(product);
    let a = concat(name.as_str(), "-");
    let b = concat(a.as_str(), table);
    let c = concat(b.as_str(), "-");
    let d = concat(c.as_str(), timestamp);
    let e = concat(d.as_str(), ".csv");
    safe_download_name(e.as_str())
}

/// The name of an exported archive.
pub fn archive_filename(product: &str, timestamp: &str) -> (result: String)
    ensures
        result@ == download_name(download_name(product@) + "."@ + timestamp@ + ".zip"@),
{
    let name = safe_download_name(product);
    let a = concat(name.as_str(), ".");
    let b = concat(a.as_str(), timestamp);
    let c = concat(b.as_str(), ".zip");
    safe_download_name(c.as_str())
}

// ---------------------------------------------------------------------------
// CSV
// ---------------------------------------------------------------------------

/// The texts of each record.
pub open spec fn record_views(records: Seq<Vec<String>>) -> Seq<Seq<Seq<char>>> {
    records.map_values(|record: Vec<String>| views(record@))
}

/// The records as CSV.
pub uninterp spec fn csv_document(records: Seq<Seq<Seq<char>>>) -> Option<Seq<u8>>;

/// All records have as many fields as the first.
pub open spec fn even_records(records: Seq<Seq<Seq<char>>>) -> bool {
    forall|i: int| 0 <= i < records.len() ==> (#[trigger] records[i]).len() == records[0].len()
}

/// Calls `csv::Writer::from_writer` on a vector, `write_record` for each record and `into_inner`.
/// The bytes depend on the records alone; there are none exactly where a record has another number
/// of fields than the first.
#[verifier::external_body]
fn write_csv(records: &Vec<Vec<String>>) -> (result: Option<Vec<u8>>)
    ensures
        vec_view(result) == csv_document(record_views(records@)),
        result is Some <==> even_records(record_views(records@)),
{
    let mut writer = csv::Writer::from_writer(Vec::new());
    for record in records {
        writer.write_record(record).ok()?;
    }
    writer.into_inner().ok()
}

/// A value of a row; `compact` is the value as JSON text.
pub struct Cell {
    pub column: String,
    pub value: Json,
    pub compact: String,
}

/// A row of a table: its values, where it is an object.
pub type ExportRow = Option<Vec<Cell>>;

/// The cell of a column, from the last one on.
pub open spec fn cell_text(cells: Seq<Cell>, column: Seq<char>) -> Seq<char>
    decreases cells.len(),
{
    if cells.len() == 0 {
        Seq::empty()
    } else if cells.last().column@ == column {
        generic_text(cells.last().value, cells.last().compact@)
    } else {
        cell_text(cells.drop_last(), column)
    }
}

/// The text of a column in a row: empty, where the row has none.
pub fn csv_value(cells: &Vec<Cell>, column: &str) -> (result: String)
    ensures
        result@ == cell_text(cells@, column@),
{
    let mut i: usize = cells.len();
    assert(cells@.take(i as int) =~= cells@);
    while i > 0
        invariant
            i <= cells.len(),
            cell_text(cells@, column@) == cell_text(cells@.take(i as int), column@),
        decreases i,
    {
        assert(cells@.take(i as int).last() == cells@[i - 1]);
        assert(cells@.take(i as int).drop_last() =~= cells@.take(i - 1));
        if same(cells[i - 1].column.as_str(), column) {
            return generic_value(&cells[i - 1].value, cells[i - 1].compact.as_str());
        }
        i -= 1;
    }
    String::new()
}

/// The record of a row: the text of each column.
pub open spec fn record_of(cells: Seq<Cell>, columns: Seq<Seq<char>>) -> Seq<Seq<char>> {
    columns.map_values(|column: Seq<char>| cell_text(cells, column))
}

fn read_record(cells: &Vec<Cell>, columns: &Vec<String>) -> (result: Vec<String>)
    ensures
        views(result@) == record_of(cells@, views(columns@)),
{
    let mut record: Vec<String> = Vec::new();
    let mut i: usize = 0;
    while i < columns.len()
        invariant
            i <= columns.len(),
            record@.len() == i,
            forall|j: int|
                0 <= j < i ==> views(record@)[j] == cell_text(cells@, #[trigger] views(columns@)[j]),
        decreases columns.len() - i,
    {
        let ghost before = record@;
        let text = csv_value(cells, columns[i].as_str());
        let ghost content = text@;
        record.push(text);
        proof {
            assert(views(record@) =~= views(before).push(content));
            assert(views(columns@)[i as int] == columns@[i as int]@);
            assert forall|j: int| 0 <= j < i + 1 implies views(record@)[j] == cell_text(
                cells@,
                #[trigger] views(columns@)[j],
            ) by {
                if j < i {
                    assert(views(before)[j] == cell_text(cells@, views(columns@)[j]));
                }
            }
        }
        i += 1;
    }
    assert(views(record@) =~= record_of(cells@, views(columns@)));
    record
}

/// The records of a table behind the names of its columns; `None` where a row is no object.
pub open spec fn table_records(columns: Seq<Seq<char>>, rows: Seq<ExportRow>, n: int) -> Option<
    Seq<Seq<Seq<char>>>,
>
    decreases n,
{
    if n <= 0 {
        Some(seq![columns])
    } else {
        match (table_records(columns, rows, n - 1), rows[n - 1]) {
            (Some(records), Some(cells)) => Some(records.push(record_of(cells@, columns))),
            _ => None,
        }
    }
}

proof fn lemma_records_fail(columns: Seq<Seq<char>>, rows: Seq<ExportRow>, n: int, m: int)
    requires
        0 <= n <= m,
        table_records(columns, rows, n) is None,
    ensures
        table_records(columns, rows, m) is None,
    decreases m - n,
{
    if n < m {
        lemma_records_fail(columns, rows, n, m - 1);
    }
}

proof fn lemma_records_are_even(columns: Seq<Seq<char>>, rows: Seq<ExportRow>, n: int)
    requires
        table_records(columns, rows, n) is Some,
    ensures
        table_records(columns, rows, n)->Some_0.len() > 0,
        table_records(columns, rows, n)->Some_0[0] == columns,
        even_records(table_records(columns, rows, n)->Some_0),
    decreases n,
{
    if n > 0 {
        lemma_records_are_even(columns, rows, n - 1);
    }
}

fn copy_texts(texts: &Vec<String>) -> (result: Vec<String>)
    ensures
        views(result@) == views(texts@),
{
    let mut result: Vec<String> = Vec::new();
    let mut i: usize = 0;
    while i < texts.len()
        invariant
            i <= texts.len(),
            views(result@) == views(texts@).take(i as int),
        decreases texts.len() - i,
    {
        let ghost before = result@;
        let text = texts[i].clone();
        let ghost content = text@;
        result.push(text);
        assert(views(result@) =~= views(before).push(content));
        assert(views(texts@).take(i + 1) =~= views(texts@).take(i as int).push(
            views(texts@)[i as int],
        ));
        i += 1;
    }
    assert(views(texts@).take(views(texts@).len() as int) =~= views(texts@));
    result
}

/// The records that a table is exported as.
pub fn csv_records(columns: &Vec<String>, rows: &Vec<ExportRow>) -> (result: Result<
    Vec<Vec<String>>,
    ApiError,
>)
    ensures
        match (result, table_records(views(columns@), rows@, rows@.len() as int)) {
            (Ok(records), Some(expected)) => record_views(records@) == expected,
            (Err(error), None) => error@ == upstream("Database row cannot be exported"@),
            _ => false,
        },
{
    let ghost names = views(columns@);
    let mut records: Vec<Vec<String>> = Vec::new();
    records.push(copy_texts(columns));
    assert(record_views(records@) =~= seq![names]);
    let mut i: usize = 0;
    while i < rows.len()
        invariant
            i <= rows.len(),
            names == views(columns@),
            table_records(names, rows@, i as int) == Some(record_views(records@)),
        decreases rows.len() - i,
    {
        match &rows[i] {
            Some(cells) => {
                let ghost before = records@;
                let record = read_record(cells, columns);
                let ghost content = views(record@);
                records.push(record);
                assert(record_views(records@) =~= record_views(before).push(content));
            },
            None => {
                proof {
                    lemma_records_fail(names, rows@, i + 1, rows@.len() as int);
                }
                return Err(ApiError::upstream("Database row cannot be exported"));
            },
        }
        i += 1;
    }
    Ok(records)
}

/// A table as CSV.
pub fn csv_bytes(columns: &Vec<String>, rows: &Vec<ExportRow>) -> (result: Result<
    Vec<u8>,
    ApiError,
>)
    ensures
        match table_records(views(columns@), rows@, rows@.len() as int) {
            None => result matches Err(error) && error@ == upstream(
                "Database row cannot be exported"@,
            ),
            Some(records) => result matches Ok(content) && csv_document(records) == Some(content@),
        },
{
    let records = match csv_records(columns, rows) {
        Ok(records) => records,
        Err(error) => return Err(error),
    };
    proof {
        lemma_records_are_even(views(columns@), rows@, rows@.len() as int);
    }
    match write_csv(&records) {
        Some(bytes) => Ok(bytes),
        None => Err(ApiError::upstream("Unable to create CSV export")),
    }
}

// ---------------------------------------------------------------------------
// The archive
// ---------------------------------------------------------------------------

/// The permissions of the files in an archive.
pub const OWNER_ONLY: u32 = 0o600;

/// Where the writing of an archive failed.
#[derive(Clone, Copy, Debug, PartialEq, Eq, Structural)]
pub enum ArchiveFailure {
    Create,
    Write,
    Finish,
}

/// A file of the archive: its name and what it holds.
pub struct ArchiveFile {
    pub name: String,
    pub content: Vec<u8>,
}

pub open spec fn file_views(files: Seq<ArchiveFile>) -> Seq<(Seq<char>, Seq<u8>)> {
    files.map_values(|file: ArchiveFile| (file.name@, file.content@))
}

/// The names that a ZIP archive can hold, which writes their lengths in 16 bits.
pub open spec fn names_fit(files: Seq<(Seq<char>, Seq<u8>)>) -> bool {
    forall|i: int| 0 <= i < files.len() ==> byte_length((#[trigger] files[i]).0) <= 65_535
}

/// The files as a ZIP archive with these permissions, or where the writing of it fails.
pub uninterp spec fn zip_document(files: Seq<(Seq<char>, Seq<u8>)>, permissions: u32) -> Result<
    Seq<u8>,
    ArchiveFailure,
>;

pub open spec fn archive_view(result: Result<Vec<u8>, ArchiveFailure>) -> Result<
    Seq<u8>,
    ArchiveFailure,
> {
    match result {
        Ok(bytes) => Ok(bytes@),
        Err(failure) => Err(failure),
    }
}

/// Calls `zip::ZipWriter::start_file` and `write_all` for each file, deflated and with these
/// permissions, and `finish`. As the crate is built, without its feature `time`, every file carries
/// the same date, so the bytes depend on the arguments alone. A name of more than 65535 bytes would
/// panic.
#[verifier::external_body]
fn write_archive(files: &Vec<ArchiveFile>, permissions: u32) -> (result: Result<
    Vec<u8>,
    ArchiveFailure,
>)
    requires
        names_fit(file_views(files@)),
    ensures
        archive_view(result) == zip_document(file_views(files@), permissions),
{
    let mut archive = ZipWriter::new(Cursor::new(Vec::new()));
    let options = SimpleFileOptions::default()
        .compression_method(zip::CompressionMethod::Deflated)
        .unix_permissions(permissions);
    for file in files {
        archive.start_file(file.name.clone(), options).map_err(|_| ArchiveFailure::Create)?;
        archive.write_all(&file.content).map_err(|_| ArchiveFailure::Write)?;
    }
    let output = archive.finish().map_err(|_| ArchiveFailure::Finish)?;
    Ok(output.into_inner())
}

pub open spec fn archive_failure(failure: ArchiveFailure) -> Failure {
    match failure {
        ArchiveFailure::Create => upstream("Unable to create backup archive"@),
        ArchiveFailure::Write => upstream("Unable to serialize backup data"@),
        ArchiveFailure::Finish => upstream("Unable to finalize backup archive"@),
    }
}

pub fn archive_error(failure: ArchiveFailure) -> (result: ApiError)
    ensures
        result@ == archive_failure(failure),
{
    match failure {
        ArchiveFailure::Create => ApiError::upstream("Unable to create backup archive"),
        ArchiveFailure::Write => ApiError::upstream("Unable to serialize backup data"),
        ArchiveFailure::Finish => ApiError::upstream("Unable to finalize backup archive"),
    }
}

/// The name of a table's file in the archive.
pub open spec fn archive_name(table: Seq<char>) -> Seq<char> {
    "db/"@ + table + ".json"@
}

/// A table and its rows as a JSON document.
pub struct TableDocument {
    pub table: String,
    pub document: Vec<u8>,
}

pub open spec fn document_files(tables: Seq<TableDocument>) -> Seq<(Seq<char>, Seq<u8>)> {
    tables.map_values(|table: TableDocument| (archive_name(table.table@), table.document@))
}

fn copy_bytes(bytes: &Vec<u8>) -> (result: Vec<u8>)
    ensures
        result@ == bytes@,
{
    let mut result: Vec<u8> = Vec::new();
    let mut i: usize = 0;
    while i < bytes.len()
        invariant
            i <= bytes.len(),
            result@ == bytes@.take(i as int),
        decreases bytes.len() - i,
    {
        result.push(bytes[i]);
        assert(bytes@.take(i + 1) =~= bytes@.take(i as int).push(bytes@[i as int]));
        i += 1;
    }
    assert(bytes@.take(bytes@.len() as int) =~= bytes@);
    result
}

/// The files of the archive, one for each table.
pub fn archive_files(tables: &Vec<TableDocument>) -> (result: Vec<ArchiveFile>)
    ensures
        file_views(result@) == document_files(tables@),
{
    let mut files: Vec<ArchiveFile> = Vec::new();
    let mut i: usize = 0;
    while i < tables.len()
        invariant
            i <= tables.len(),
            file_views(files@) == document_files(tables@).take(i as int),
        decreases tables.len() - i,
    {
        let ghost before = files@;
        let start = concat("db/", tables[i].table.as_str());
        let name = concat(start.as_str(), ".json");
        let content = copy_bytes(&tables[i].document);
        let ghost view = (name@, content@);
        files.push(ArchiveFile { name, content });
        proof {
            assert(file_views(files@) =~= file_views(before).push(view));
            assert(document_files(tables@).take(i + 1) =~= document_files(tables@).take(
                i as int,
            ).push(document_files(tables@)[i as int]));
        }
        i += 1;
    }
    assert(document_files(tables@).take(tables@.len() as int) =~= document_files(tables@));
    files
}

/// The archive of all tables.
pub fn build_archive(tables: &Vec<TableDocument>) -> (result: Result<Vec<u8>, ApiError>)
    requires
        names_fit(document_files(tables@)),
    ensures
        match zip_document(document_files(tables@), OWNER_ONLY) {
            Ok(bytes) => result matches Ok(content) && content@ == bytes,
            Err(failure) => result matches Err(error) && error@ == archive_failure(failure),
        },
{
    let files = archive_files(tables);
    match write_archive(&files, OWNER_ONLY) {
        Ok(bytes) => Ok(bytes),
        Err(failure) => Err(archive_error(failure)),
    }
}

/// The name of a download holds letters, digits, hyphens, underscores and dots, and is not empty.
pub proof fn law_download_names_are_plain(value: Seq<char>)
    ensures
        download_name(value).len() > 0,
        forall|i: int|
            0 <= i < download_name(value).len() ==> download_char(
                #[trigger] download_name(value)[i],
            ) == download_name(value)[i],
{
    reveal_strlit("CTFZone");
    if value.len() == 0 {
        let name = "CTFZone"@;
        assert(name[0] == 'C' && name[1] == 'T' && name[2] == 'F' && name[3] == 'Z' && name[4]
            == 'o' && name[5] == 'n' && name[6] == 'e');
    }
}

/// An administrator within the rate gets a table as CSV where one is named, and the archive where
/// that, a backup or nothing in particular is asked for; each other case is refused with its own
/// message.
pub proof fn law_exports_are_what_is_asked_for(kind: Seq<char>, table: Option<Seq<char>>)
    ensures
        ({
            let result = export_of(true, true, kind, table);
            &&& kind == "csv"@ && table is Some ==> result == Ok::<ExportCourse, Failure>(
                ExportCourse::Csv(table->Some_0),
            )
            &&& kind == "csv"@ && table is None ==> result == Err::<ExportCourse, Failure>(
                bad("Missing table to export"@),
            )
            &&& kind == "_"@ || kind == "zip"@ || kind == "backup"@ ==> result == Ok::<
                ExportCourse,
                Failure,
            >(ExportCourse::Archive)
            &&& kind != "csv"@ && kind != "_"@ && kind != "zip"@ && kind != "backup"@ ==> result
                == Err::<ExportCourse, Failure>(bad("Unsupported export type"@))
        }),
        export_of(false, true, kind, table) == Err::<ExportCourse, Failure>(
            forbidden("Administrator access is required"@),
        ),
        export_of(true, false, kind, table) == Err::<ExportCourse, Failure>(
            too_many("Too many exports; try again shortly"@),
        ),
{
    reveal_strlit("csv");
    reveal_strlit("_");
    reveal_strlit("zip");
    reveal_strlit("backup");
    assert("csv"@.len() == 3 && "_"@.len() == 1 && "zip"@.len() == 3 && "backup"@.len() == 6);
    assert("csv"@[0] != "zip"@[0]);
}

/// The name of a download keeps every letter, digit, hyphen, underscore and dot in its place, and has
/// an underscore for anything else.
pub proof fn law_download_names_keep_their_letters(value: Seq<char>, i: int)
    requires
        0 <= i < value.len(),
    ensures
        download_name(value).len() == value.len(),
        'a' <= value[i] <= 'z' || 'A' <= value[i] <= 'Z' || '0' <= value[i] <= '9' || value[i]
            == '-' || value[i] == '_' || value[i] == '.' ==> download_name(value)[i] == value[i],
        !('a' <= value[i] <= 'z' || 'A' <= value[i] <= 'Z' || '0' <= value[i] <= '9' || value[i]
            == '-' || value[i] == '_' || value[i] == '.') ==> download_name(value)[i] == '_',
        download_name(Seq::empty()) == "CTFZone"@,
{
}

/// The first record of a table holds the names of its columns, and each row adds one, with the text
/// of each column in its place; a row that is no object spoils the table.
pub proof fn law_rows_become_records(columns: Seq<Seq<char>>, rows: Seq<ExportRow>, n: int, c: int)
    requires
        0 <= n < rows.len(),
    ensures
        table_records(columns, rows, 0) == Some(seq![columns]),
        ({
            let before = table_records(columns, rows, n);
            let after = table_records(columns, rows, n + 1);
            &&& after is Some <==> before is Some && rows[n] is Some
            &&& after is Some ==> after->Some_0.len() == before->Some_0.len() + 1
                && after->Some_0.drop_last() == before->Some_0 && after->Some_0.last().len()
                == columns.len()
            &&& after is Some && 0 <= c < columns.len() ==> after->Some_0.last()[c] == cell_text(
                rows[n]->Some_0@,
                columns[c],
            )
        }),
{
    let before = table_records(columns, rows, n);
    let after = table_records(columns, rows, n + 1);
    if after is Some {
        assert(after->Some_0.drop_last() =~= before->Some_0);
    }
}

/// The cell of a column is the last one that was read for it, and empty where there is none.
pub proof fn law_the_last_cell_counts(cells: Seq<Cell>, cell: Cell, column: Seq<char>)
    ensures
        cell_text(cells.push(cell), column) == if cell.column@ == column {
            generic_text(cell.value, cell.compact@)
        } else {
            cell_text(cells, column)
        },
        cell_text(Seq::empty(), column).len() == 0,
{
    assert(cells.push(cell).drop_last() =~= cells);
}

/// Each table is a file of its own in the archive, under its name, with its document as it is.
pub proof fn law_tables_are_archived(tables: Seq<TableDocument>, i: int)
    requires
        0 <= i < tables.len(),
    ensures
        document_files(tables).len() == tables.len(),
        document_files(tables)[i].0 == "db/"@ + tables[i].table@ + ".json"@,
        document_files(tables)[i].1 == tables[i].document@,
{
}

/// The name of a table is made of letters, digits and underscores, and stands in its query as it is,
/// between quotes that it cannot end.
pub proof fn law_table_names_stay_in_their_quotes(name: Seq<char>)
    ensures
        is_table_name(name) ==> 0 < name.len() && !name.contains('"') && !name.contains(' ')
            && !name.contains('.') && !name.contains(';'),
        table_query(name) == "SELECT to_jsonb(export_row) AS value FROM ctfzone.\""@ + name
            + "\" export_row"@,
        0 < name.len() && (forall|i: int|
            0 <= i < name.len() ==> (is_alphanumeric(#[trigger] name[i]) || name[i] == '_'))
            ==> is_table_name(name),
{
    if is_table_name(name) {
        assert forall|c: char| #[trigger] name.contains(c) implies is_alphanumeric(c) || c
            == '_' by {
            let i = choose|i: int| 0 <= i < name.len() && name[i] == c;
            assert(is_alphanumeric(name[i]) || name[i] == '_');
        }
    }
}

/// Each way in which an archive fails has its own message.
pub proof fn law_archive_failures_are_told(failure: ArchiveFailure)
    ensures
        archive_failure(failure) == upstream(
            match failure {
                ArchiveFailure::Create => "Unable to create backup archive"@,
                ArchiveFailure::Write => "Unable to serialize backup data"@,
                ArchiveFailure::Finish => "Unable to finalize backup archive"@,
            },
        ),
{
}

} // verus!
