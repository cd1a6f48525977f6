//! The addresses that may register.
use crate::admin_rules::{escape_like, escaped};
use crate::auth::CurrentUser;
use crate::domains::{is_email, join_texts, joined, valid_email};
use crate::error::{
    bad, conflict, forbidden, not_found, shown, shown_text, str_of, ApiError, Failure,
};
use crate::numbers::{integer_text, natural_to_text};
use crate::text::{
    byte_len, byte_length, chars_of, concat, contains_control, has_control, lowercase, same,
    to_lowercase_ascii, trim, trimmed, views,
};
use crate::text_map::{before, lemma_mapping, TextMap};
use vstd::prelude::*;
use vstd::utf8::{encode_utf8, valid_utf8};

verus! {

// ---------------------------------------------------------------------------
// Listing
// ---------------------------------------------------------------------------

/// A number brought between two bounds.
pub open spec fn bounded(value: i64, min: i64, max: i64) -> int {
    if value < min {
        min as int
    } else if value > max {
        max as int
    } else {
        value as int
    }
}

fn bring_between(value: i64, min: i64, max: i64) -> (result: i64)
    requires
        min <= max,
    ensures
        result == bounded(value, min, max),
        min <= result <= max,
{
    if value < min {
        min
    } else if value > max {
        max
    } else {
        value
    }
}

/// A page of the list: its number and size, what is passed over before it, and the pattern that
/// is searched for.
pub struct AllowlistPage {
    pub page: i64,
    pub per_page: i64,
    pub offset: i64,
    pub pattern: String,
}

pub open spec fn page_number(page: Option<i64>) -> int {
    match page {
        Some(number) => bounded(number, 1, 1_000_000),
        None => 1,
    }
}

pub open spec fn page_length(per_page: Option<i64>) -> int {
    match per_page {
        Some(size) => bounded(size, 1, 200),
        None => 50,
    }
}

pub open spec fn search_text(q: Option<Seq<char>>) -> Seq<char> {
    match q {
        Some(text) => text,
        None => Seq::empty(),
    }
}

pub fn list_registration_emails(
    user: &CurrentUser,
    page: Option<i64>,
    per_page: Option<i64>,
    q: Option<&str>,
) -> (result: Result<AllowlistPage, ApiError>)
    ensures
        match result {
            Ok(list) => {
                let search = search_text(str_of(q));
                &&& user.admin()
                &&& byte_length(search) <= 254 && !has_control(search)
                &&& list.page == page_number(page)
                &&& list.per_page == page_length(per_page)
                &&& list.offset == (page_number(page) - 1) * page_length(per_page)
                &&& list.pattern@ == "%"@ + escaped(trimmed(search)) + "%"@
            },
            Err(error) => if !user.admin() {
                error@ == forbidden("Administrator access is required"@)
            } else {
                (byte_length(search_text(str_of(q))) > 254 || has_control(
                    search_text(str_of(q)),
                )) && error@ == bad("Email search is invalid"@)
            },
        },
{
    if let Err(error) = crate::auth::require_admin(user) {
        return Err(error);
    }
    let number: i64 = match page {
        Some(value) => bring_between(value, 1, 1_000_000),
        None => 1,
    };
    let size: i64 = match per_page {
        Some(value) => bring_between(value, 1, 200),
        None => 50,
    };
    let search = match q {
        Some(text) => text.to_owned(),
        None => String::new(),
    };
    if byte_len(search.as_str()) > 254 || contains_control(search.as_str()) {
        return Err(ApiError::bad_request("Email search is invalid"));
    }
    let content = trim(search.as_str());
    let word = escape_like(content.as_str());
    let start = concat("%", word.as_str());
    let pattern = concat(start.as_str(), "%");
    assert(0 <= (number - 1) * size <= 1_000_000 * 200) by (nonlinear_arith)
        requires
            1 <= number <= 1_000_000,
            1 <= size <= 200,
    ;
    Ok(AllowlistPage { page: number, per_page: size, offset: (number - 1) * size, pattern })
}

/// How many pages so many entries fill.
pub fn page_count(total: i64, per_page: i64) -> (result: i64)
    requires
        0 <= total <= i64::MAX - per_page,
        per_page > 0,
    ensures
        result == (total + per_page - 1) / per_page as int,
        result * per_page >= total,
        (result - 1) * per_page < total || result == 0,
{
    proof {
        let n = (total + per_page - 1) / per_page as int;
        vstd::arithmetic::div_mod::lemma_fundamental_div_mod(total + per_page - 1, per_page as int);
        assert(n * per_page >= total && (n - 1) * per_page <= total - 1) by (nonlinear_arith)
            requires
                total + per_page - 1 == per_page * n + (total + per_page - 1) % per_page as int,
                0 <= (total + per_page - 1) % per_page as int,
                (total + per_page - 1) % per_page as int <= per_page - 1,
                n == (total + per_page - 1) / per_page as int,
                per_page > 0,
        ;
    }
    (total + per_page - 1) / per_page
}

// ---------------------------------------------------------------------------
// One address
// ---------------------------------------------------------------------------

/// The address that is added; `is_admin_address` says whether an administrator has it.
pub fn create_registration_email(user: &CurrentUser, email: &str, is_admin_address: bool) -> (result:
    Result<String, ApiError>)
    ensures
        shown_text(result) == (if !user.admin() {
            Err(forbidden("Administrator access is required"@))
        } else if !is_email(lowercase(trimmed(email@))) {
            Err(bad("Enter a valid email address"@))
        } else if is_admin_address {
            Err(conflict("Administrator emails cannot be added to the allowlist"@))
        } else {
            Ok::<Seq<char>, Failure>(lowercase(trimmed(email@)))
        }),
{
    if let Err(error) = crate::auth::require_admin(user) {
        return Err(error);
    }
    let address = to_lowercase_ascii(trim(email).as_str());
    if !valid_email(address.as_str()) {
        return Err(ApiError::bad_request("Enter a valid email address"));
    }
    if is_admin_address {
        return Err(ApiError::conflict("Administrator emails cannot be added to the allowlist"));
    }
    Ok(address)
}

/// Whether an address may be taken off the list.
pub open spec fn address_deletable(admin: bool, exists: bool, registered: bool) -> bool {
    admin && exists && !registered
}

/// An address stays on the list as long as a user has it.
pub fn delete_registration_email(user: &CurrentUser, exists: bool, registered: bool) -> (result:
    Result<(), ApiError>)
    ensures
        shown(result) == (if !user.admin() {
            Err(forbidden("Administrator access is required"@))
        } else if !exists {
            Err(not_found("Record not found"@))
        } else if registered {
            Err(conflict("Delete the registered user before removing this allowlist entry"@))
        } else {
            Ok::<(), Failure>(())
        }),
        result is Ok <==> address_deletable(user.admin(), exists, registered),
{
    if let Err(error) = crate::auth::require_admin(user) {
        return Err(error);
    }
    if !exists {
        return Err(ApiError::not_found("Record not found"));
    }
    if registered {
        return Err(
            ApiError::conflict("Delete the registered user before removing this allowlist entry"),
        );
    }
    Ok(())
}

// ---------------------------------------------------------------------------
// Reading an uploaded file
// ---------------------------------------------------------------------------

/// Calls `std::str::from_utf8`: the text whose UTF-8 form the bytes are, where they are one.
#[verifier::external_body]
fn utf8_text(bytes: &[u8]) -> (result: Option<String>)
    ensures
        result is Some <==> valid_utf8(bytes@),
        result matches Some(text) ==> encode_utf8(text@) == bytes@,
{
    std::str::from_utf8(bytes).ok().map(|text| text.to_owned())
}

/// The bytes read as text in Windows-1252, or in the encoding that a byte order mark names.
pub uninterp spec fn windows_text(bytes: Seq<u8>) -> Seq<char>;

/// Calls `encoding_rs::WINDOWS_1252.decode`, whose text depends on the bytes alone.
#[verifier::external_body]
fn decode_windows(bytes: &[u8]) -> (result: String)
    ensures
        result@ == windows_text(bytes@),
{
    let (text, _, _) = encoding_rs::WINDOWS_1252.decode(bytes);
    text.into_owned()
}

/// The text without the byte order marks at its start.
pub open spec fn without_marks(s: Seq<char>) -> Seq<char>
    decreases s.len(),
{
    if s.len() > 0 && s[0] == '\u{feff}' {
        without_marks(s.drop_first())
    } else {
        s
    }
}

fn drop_marks(s: &str) -> (result: String)
    ensures
        result@ == without_marks(s@),
{
    let chars = chars_of(s);
    let mut i: usize = 0;
    assert(s@.skip(0) =~= s@);
    while i < chars.len() && chars[i] == '\u{feff}'
        invariant
            i <= chars.len(),
            chars@ == s@,
            without_marks(s@) == without_marks(s@.skip(i as int)),
        decreases chars.len() - i,
    {
        assert(s@.skip(i as int).drop_first() =~= s@.skip(i + 1));
        i += 1;
    }
    assert(s@.subrange(i as int, s@.len() as int) =~= s@.skip(i as int));
    crate::text::slice_to_string(&chars, i, chars.len())
}

/// The text of an uploaded file: UTF-8, or else Windows-1252.
pub open spec fn upload_text(bytes: Seq<u8>) -> Seq<char> {
    if valid_utf8(bytes) {
        without_marks(vstd::utf8::decode_utf8(bytes))
    } else {
        windows_text(bytes)
    }
}

pub fn decode_upload(bytes: &[u8]) -> (result: Result<String, ApiError>)
    ensures
        shown_text(result) == (if bytes@.len() > 5_242_880 {
            Err(bad("CSV files must be 5 MB or smaller"@))
        } else {
            Ok::<Seq<char>, Failure>(upload_text(bytes@))
        }),
{
    if bytes.len() > 5_242_880 {
        return Err(ApiError::bad_request("CSV files must be 5 MB or smaller"));
    }
    match utf8_text(bytes) {
        Some(text) => {
            proof {
                vstd::utf8::encode_utf8_decode_utf8(text@);
            }
            Ok(drop_marks(text.as_str()))
        },
        None => Ok(decode_windows(bytes)),
    }
}

/// A CSV file: its header, and its records where all of them could be read.
pub struct CsvTable {
    pub header: Vec<String>,
    pub records: Option<Vec<Vec<String>>>,
}

/// A CSV file by value.
pub type CsvView = (Seq<Seq<char>>, Option<Seq<Seq<Seq<char>>>>);

pub open spec fn records_view(records: Option<Vec<Vec<String>>>) -> Option<Seq<Seq<Seq<char>>>> {
    match records {
        Some(list) => Some(crate::exports::record_views(list@)),
        None => None,
    }
}

impl View for CsvTable {
    type V = CsvView;

    open spec fn view(&self) -> CsvView {
        (views(self.header@), records_view(self.records))
    }
}

/// The header and the records of a text that is CSV; records may have any number of fields.
pub uninterp spec fn csv_table(
    text: Seq<char>,
) -> Option<(Seq<Seq<char>>, Option<Seq<Seq<Seq<char>>>>)>;

/// Calls `csv::ReaderBuilder` with `flexible(true)`, `headers` and `records`. What is read depends
/// on the text alone.
#[verifier::external_body]
fn read_csv(text: &str) -> (result: Option<CsvTable>)
    ensures
        match result {
            Some(table) => csv_table(text@) == Some(table@),
            None => csv_table(text@) is None,
        },
{
    let mut reader = csv::ReaderBuilder::new().flexible(true).from_reader(text.as_bytes());
    let header = reader.headers().ok()?.iter().map(|field| field.to_owned()).collect();
    let records = reader
        .records()
        .map(|record| record.map(|row| row.iter().map(|field| field.to_owned()).collect()))
        .collect::<Result<Vec<Vec<String>>, csv::Error>>();
    Some(CsvTable { header, records: records.ok() })
}

// ---------------------------------------------------------------------------
// The addresses in it
// ---------------------------------------------------------------------------

/// The first column from `from` on that is named `email`, in any case.
pub open spec fn email_column(header: Seq<Seq<char>>, from: int) -> int
    decreases header.len() - from,
{
    if from >= header.len() || lowercase(trimmed(header[from])) == "email"@ {
        from
    } else {
        email_column(header, from + 1)
    }
}

fn find_column(header: &Vec<String>) -> (result: usize)
    ensures
        result == email_column(views(header@), 0),
        result <= header.len(),
{
    let ghost all = views(header@);
    let mut i: usize = 0;
    while i < header.len()
        invariant
            i <= header.len(),
            all == views(header@),
            email_column(all, 0) == email_column(all, i as int),
        decreases header.len() - i,
    {
        assert(all[i as int] == header@[i as int]@);
        let name = to_lowercase_ascii(trim(header[i].as_str()).as_str());
        if same(name.as_str(), "email") {
            return i;
        }
        i += 1;
    }
    i
}

/// The address in a record: empty, where the record has no such column.
pub open spec fn address_of(record: Seq<Seq<char>>, column: int) -> Seq<char> {
    if 0 <= column < record.len() {
        lowercase(trimmed(record[column]))
    } else {
        lowercase(trimmed(Seq::empty()))
    }
}

fn read_address(record: &Vec<String>, column: usize) -> (result: String)
    ensures
        result@ == address_of(views(record@), column as int),
{
    if column < record.len() {
        assert(views(record@)[column as int] == record@[column as int]@);
        to_lowercase_ascii(trim(record[column].as_str()).as_str())
    } else {
        let nothing = String::new();
        to_lowercase_ascii(trim(nothing.as_str()).as_str())
    }
}

/// The numbers of the rows among the first `n` records that hold no address; the header is the
/// first row of the file.
pub open spec fn bad_rows(records: Seq<Seq<Seq<char>>>, column: int, n: int) -> Seq<int>
    decreases n,
{
    if n <= 0 {
        Seq::empty()
    } else {
        let before_it = bad_rows(records, column, n - 1);
        if is_email(address_of(records[n - 1], column)) {
            before_it
        } else {
            before_it.push(n + 1)
        }
    }
}

/// Up to ten of the row numbers, and dots where there are more.
pub open spec fn row_list(rows: Seq<int>) -> Seq<char> {
    let some = if rows.len() > 10 {
        rows.take(10)
    } else {
        rows
    };
    joined(some.map_values(|row: int| integer_text(row)), ", "@) + if rows.len() > 10 {
        "..."@
    } else {
        Seq::empty()
    }
}

pub open spec fn row_numbers(rows: Seq<u128>) -> Seq<int> {
    rows.map_values(|row: u128| row as int)
}

fn write_rows(rows: &Vec<u128>) -> (result: String)
    ensures
        result@ == row_list(row_numbers(rows@)),
{
    let ghost numbers = row_numbers(rows@);
    let ghost some = if numbers.len() > 10 {
        numbers.take(10)
    } else {
        numbers
    };
    let ghost wanted = some.map_values(|row: int| integer_text(row));
    let count: usize = if rows.len() > 10 {
        10
    } else {
        rows.len()
    };
    let mut shown_rows: Vec<String> = Vec::new();
    let mut i: usize = 0;
    while i < count
        invariant
            i <= count <= rows.len(),
            count == some.len(),
            numbers == row_numbers(rows@),
            some == (if numbers.len() > 10 {
                numbers.take(10)
            } else {
                numbers
            }),
            wanted == some.map_values(|row: int| integer_text(row)),
            views(shown_rows@) == wanted.take(i as int),
        decreases count - i,
    {
        let ghost before_it = shown_rows@;
        let text = natural_to_text(rows[i]);
        let ghost content = text@;
        shown_rows.push(text);
        proof {
            assert(some[i as int] == rows@[i as int] as int);
            assert(views(shown_rows@) =~= views(before_it).push(content));
            assert(wanted.take(i + 1) =~= wanted.take(i as int).push(wanted[i as int]));
        }
        i += 1;
    }
    assert(wanted.take(count as int) =~= wanted);
    let list = join_texts(&shown_rows, ", ");
    if rows.len() > 10 {
        concat(list.as_str(), "...")
    } else {
        assert(list@ + Seq::<char>::empty() =~= list@);
        list
    }
}

/// Texts in ascending order, none of them twice.
pub open spec fn ascending_texts(texts: Seq<Seq<char>>) -> bool {
    forall|i: int, j: int|
        0 <= i < j < texts.len() ==> before(#[trigger] texts[i], #[trigger] texts[j])
}

/// The address stands in one of the first `n` records.
pub open spec fn listed(records: Seq<Seq<Seq<char>>>, column: int, n: int, address: Seq<char>) -> bool {
    exists|i: int|
        0 <= i < n && i < records.len() && #[trigger] address_of(records[i], column) == address
}

fn keys_of(map: &TextMap<bool>) -> (result: Vec<String>)
    requires
        map.ok(),
    ensures
        ascending_texts(views(result@)),
        forall|key: Seq<char>| views(result@).contains(key) <==> #[trigger] map@.contains_key(key),
{
    let mut keys: Vec<String> = Vec::new();
    let ghost pairs = map.pairs();
    let mut i: usize = 0;
    while i < map.len()
        invariant
            i <= pairs.len(),
            pairs == map.pairs(),
            views(keys@).len() == i,
            forall|j: int| 0 <= j < i ==> views(keys@)[j] == (#[trigger] pairs[j]).0,
        decreases pairs.len() - i,
    {
        let ghost before_it = keys@;
        let key = map.key_at(i).to_owned();
        let ghost text = key@;
        keys.push(key);
        proof {
            assert(views(keys@) =~= views(before_it).push(text));
            assert forall|j: int| 0 <= j < i + 1 implies views(keys@)[j] == (
            #[trigger] pairs[j]).0 by {
                if j < i {
                    assert(views(before_it)[j] == pairs[j].0);
                }
            }
        }
        i += 1;
    }
    proof {
        lemma_mapping(pairs);
        let all = views(keys@);
        assert forall|a: int, b: int| 0 <= a < b < all.len() implies before(
            #[trigger] all[a],
            #[trigger] all[b],
        ) by {
            assert(before(pairs[a].0, pairs[b].0));
        }
        assert forall|key: Seq<char>| all.contains(key) <==> #[trigger] map@.contains_key(key) by {
            if all.contains(key) {
                let j = choose|j: int| 0 <= j < all.len() && all[j] == key;
                assert(map@.contains_key(pairs[j].0));
            }
            if map@.contains_key(key) {
                let j = choose|j: int| 0 <= j < pairs.len() && (#[trigger] pairs[j]).0 == key;
                assert(all[j] == key);
            }
        }
    }
    keys
}

/// What is wrong with the addresses of a file.
pub open spec fn addresses_problem(table: CsvView) -> Option<Failure> {
    let column = email_column(table.0, 0);
    if column >= table.0.len() {
        Some(bad("The CSV must contain a column named email"@))
    } else {
        match table.1 {
            None => Some(bad("The uploaded file is not valid CSV"@)),
            Some(records) => {
                let rows = bad_rows(records, column, records.len() as int);
                if rows.len() > 0 {
                    Some(bad("Invalid email address on CSV row(s): "@ + row_list(rows)))
                } else {
                    None
                }
            },
        }
    }
}

/// The addresses in a file, in ascending order and each of them once.
pub fn read_addresses(table: &CsvTable) -> (result: Result<Vec<String>, ApiError>)
    ensures
        match result {
            Ok(addresses) => {
                let records = table@.1->Some_0;
                &&& addresses_problem(table@) is None
                &&& ascending_texts(views(addresses@))
                &&& forall|address: Seq<char>| #[trigger]
                    views(addresses@).contains(address) <==> listed(
                        records,
                        email_column(table@.0, 0),
                        records.len() as int,
                        address,
                    )
            },
            Err(error) => addresses_problem(table@) == Some(error@),
        },
{
    let column: usize = find_column(&table.header);
    assert(views(table.header@).len() == table.header@.len());
    if column == table.header.len() {
        return Err(ApiError::bad_request("The CSV must contain a column named email"));
    }
    let records = match &table.records {
        Some(records) => records,
        None => return Err(ApiError::bad_request("The uploaded file is not valid CSV")),
    };
    collect_addresses(records, column)
}

/// The addresses in the records.
fn collect_addresses(records: &Vec<Vec<String>>, column: usize) -> (result: Result<
    Vec<String>,
    ApiError,
>)
    ensures
        ({
            let all = crate::exports::record_views(records@);
            let rows = bad_rows(all, column as int, all.len() as int);
            match result {
                Ok(addresses) => {
                    &&& rows.len() == 0
                    &&& ascending_texts(views(addresses@))
                    &&& forall|address: Seq<char>| #[trigger]
                        views(addresses@).contains(address) <==> listed(
                            all,
                            column as int,
                            all.len() as int,
                            address,
                        )
                },
                Err(error) => rows.len() > 0 && error@ == bad(
                    "Invalid email address on CSV row(s): "@ + row_list(rows),
                ),
            }
        }),
{
    let ghost all = crate::exports::record_views(records@);
    let mut addresses: TextMap<bool> = TextMap::new();
    let mut rows: Vec<u128> = Vec::new();
    let mut i: usize = 0;
    assert(row_numbers(rows@) =~= Seq::<int>::empty());
    while i < records.len()
        invariant
            i <= records.len(),
            all == crate::exports::record_views(records@),
            all.len() == records@.len(),
            addresses.ok(),
            row_numbers(rows@) == bad_rows(all, column as int, i as int),
            rows@.len() <= i,
            forall|address: Seq<char>| #[trigger]
                addresses@.contains_key(address) ==> listed(all, column as int, i as int, address),
            rows@.len() == 0 ==> forall|address: Seq<char>|
                listed(all, column as int, i as int, address) ==> #[trigger] addresses@.contains_key(
                    address,
                ),
        decreases records.len() - i,
    {
        let record = &records[i];
        assert(all[i as int] == views(record@));
        let address = read_address(record, column);
        let ghost text = address@;
        let ghost known = addresses@;
        let ghost found = rows@;
        if valid_email(address.as_str()) {
            addresses.insert(address, true);
            proof {
                assert forall|a: Seq<char>| #[trigger] addresses@.contains_key(a) implies listed(
                    all,
                    column as int,
                    i + 1,
                    a,
                ) by {
                    if a == text {
                        assert(address_of(all[i as int], column as int) == a);
                    } else {
                        assert(known.contains_key(a));
                        let j = choose|j: int|
                            0 <= j < i && j < all.len() && #[trigger] address_of(
                                all[j],
                                column as int,
                            ) == a;
                        assert(address_of(all[j], column as int) == a);
                    }
                }
                if rows@.len() == 0 {
                    assert forall|a: Seq<char>| listed(
                        all,
                        column as int,
                        i + 1,
                        a,
                    ) implies #[trigger] addresses@.contains_key(a) by {
                        let j = choose|j: int|
                            0 <= j < i + 1 && j < all.len() && #[trigger] address_of(
                                all[j],
                                column as int,
                            ) == a;
                        if j < i {
                            assert(listed(all, column as int, i as int, a));
                            assert(known.contains_key(a));
                        }
                    }
                }
            }
        } else {
            let number: u128 = i as u128 + 2;
            rows.push(number);
            proof {
                assert(row_numbers(rows@) =~= row_numbers(found).push(number as int));
                assert forall|a: Seq<char>| #[trigger] addresses@.contains_key(a) implies listed(
                    all,
                    column as int,
                    i + 1,
                    a,
                ) by {
                    let j = choose|j: int|
                        0 <= j < i && j < all.len() && #[trigger] address_of(all[j], column as int)
                            == a;
                    assert(address_of(all[j], column as int) == a);
                }
            }
        }
        i += 1;
    }
    assert(row_numbers(rows@).len() == rows@.len());
    if rows.len() > 0 {
        let list = write_rows(&rows);
        let message = concat("Invalid email address on CSV row(s): ", list.as_str());
        return Err(ApiError::bad_request(message.as_str()));
    }
    let keys = keys_of(&addresses);
    proof {
        assert forall|a: Seq<char>| #[trigger] views(keys@).contains(a) <==> listed(
            all,
            column as int,
            all.len() as int,
            a,
        ) by {
            assert(views(keys@).contains(a) <==> addresses@.contains_key(a));
        }
    }
    Ok(keys)
}

/// The addresses of an uploaded file.
pub fn import_registration_emails(user: &CurrentUser, upload: Option<&[u8]>) -> (result: Result<
    Vec<String>,
    ApiError,
>)
    ensures
        match result {
            Ok(addresses) => {
                &&& user.admin()
                &&& upload matches Some(bytes) && bytes@.len() <= 5_242_880 && (csv_table(
                    upload_text(bytes@),
                ) matches Some(table) && addresses_problem(table) is None && ascending_texts(
                    views(addresses@),
                ) && forall|address: Seq<char>| #[trigger]
                    views(addresses@).contains(address) <==> listed(
                        table.1->Some_0,
                        email_column(table.0, 0),
                        table.1->Some_0.len() as int,
                        address,
                    ))
            },
            Err(error) => import_problem(user.admin(), slice_view(upload)) == Some(error@),
        },
{
    if let Err(error) = crate::auth::require_admin(user) {
        return Err(error);
    }
    let bytes = match upload {
        Some(bytes) => bytes,
        None => return Err(ApiError::bad_request("Choose a CSV file to import")),
    };
    let text = match decode_upload(bytes) {
        Ok(text) => text,
        Err(error) => return Err(error),
    };
    match read_csv(text.as_str()) {
        Some(table) => read_addresses(&table),
        None => Err(ApiError::bad_request("The uploaded file is not valid CSV")),
    }
}

pub open spec fn slice_view(upload: Option<&[u8]>) -> Option<Seq<u8>> {
    match upload {
        Some(bytes) => Some(bytes@),
        None => None,
    }
}

/// What stands against an import.
pub open spec fn import_problem(admin: bool, upload: Option<Seq<u8>>) -> Option<Failure> {
    if !admin {
        Some(forbidden("Administrator access is required"@))
    } else {
        match upload {
            None => Some(bad("Choose a CSV file to import"@)),
            Some(bytes) => if bytes.len() > 5_242_880 {
                Some(bad("CSV files must be 5 MB or smaller"@))
            } else {
                match csv_table(upload_text(bytes)) {
                    None => Some(bad("The uploaded file is not valid CSV"@)),
                    Some(table) => addresses_problem(table),
                }
            },
        }
    }
}

/// The addresses among the first `n` that are neither on the list nor an administrator's.
pub open spec fn new_among(
    addresses: Seq<Seq<char>>,
    existing: Seq<Seq<char>>,
    administrators: Seq<Seq<char>>,
    n: int,
) -> Seq<Seq<char>>
    decreases n,
{
    if n <= 0 {
        Seq::empty()
    } else {
        let rest = new_among(addresses, existing, administrators, n - 1);
        let address = addresses[n - 1];
        if existing.contains(address) || administrators.contains(address) {
            rest
        } else {
            rest.push(address)
        }
    }
}

/// How many of the first `n` addresses are an administrator's.
pub open spec fn administrators_among(
    addresses: Seq<Seq<char>>,
    administrators: Seq<Seq<char>>,
    n: int,
) -> nat
    decreases n,
{
    if n <= 0 {
        0
    } else {
        administrators_among(addresses, administrators, n - 1) + if administrators.contains(
            addresses[n - 1],
        ) {
            1nat
        } else {
            0nat
        }
    }
}

/// What an import does: the addresses that it adds, how many it passes over, and how many of
/// those are an administrator's.
pub struct ImportPlan {
    pub added: Vec<String>,
    pub skipped: usize,
    pub skipped_administrators: usize,
}

fn holds(texts: &Vec<String>, text: &str) -> (result: bool)
    ensures
        result == views(texts@).contains(text@),
{
    let mut i: usize = 0;
    while i < texts.len()
        invariant
            i <= texts.len(),
            forall|j: int| 0 <= j < i ==> #[trigger] views(texts@)[j] != text@,
        decreases texts.len() - i,
    {
        assert(views(texts@)[i as int] == texts@[i as int]@);
        if same(texts[i].as_str(), text) {
            return true;
        }
        i += 1;
    }
    false
}

pub fn plan_import(
    addresses: &Vec<String>,
    existing: &Vec<String>,
    administrators: &Vec<String>,
) -> (result: ImportPlan)
    ensures
        ({
            let all = views(addresses@);
            let n = all.len() as int;
            &&& views(result.added@) == new_among(
                all,
                views(existing@),
                views(administrators@),
                n,
            )
            &&& result.skipped == n - result.added@.len()
            &&& result.skipped_administrators == administrators_among(
                all,
                views(administrators@),
                n,
            )
        }),
{
    let ghost all = views(addresses@);
    let mut added: Vec<String> = Vec::new();
    let mut admins: usize = 0;
    let mut i: usize = 0;
    assert(views(added@) =~= Seq::<Seq<char>>::empty());
    while i < addresses.len()
        invariant
            i <= addresses.len(),
            all == views(addresses@),
            added@.len() <= i,
            admins <= i,
            views(added@) == new_among(
                all,
                views(existing@),
                views(administrators@),
                i as int,
            ),
            admins == administrators_among(all, views(administrators@), i as int),
        decreases addresses.len() - i,
    {
        let address = &addresses[i];
        assert(all[i as int] == address@);
        let administrator = holds(administrators, address.as_str());
        if administrator {
            admins += 1;
        }
        if !administrator && !holds(existing, address.as_str()) {
            let ghost before_it = added@;
            added.push(address.clone());
            assert(views(added@) =~= views(before_it).push(address@));
        }
        i += 1;
    }
    let skipped: usize = addresses.len() - added.len();
    ImportPlan { added, skipped, skipped_administrators: admins }
}

/// An import adds no address that is on the list already and none of an administrator.
pub proof fn law_imports_add_new_addresses(
    addresses: Seq<Seq<char>>,
    existing: Seq<Seq<char>>,
    administrators: Seq<Seq<char>>,
    n: int,
)
    requires
        0 <= n <= addresses.len(),
    ensures
        forall|i: int|
            0 <= i < new_among(addresses, existing, administrators, n).len() ==> !existing.contains(
                #[trigger] new_among(addresses, existing, administrators, n)[i],
            ) && !administrators.contains(new_among(addresses, existing, administrators, n)[i]),
    decreases n,
{
    if n > 0 {
        law_imports_add_new_addresses(addresses, existing, administrators, n - 1);
        let rest = new_among(addresses, existing, administrators, n - 1);
        let all = new_among(addresses, existing, administrators, n);
        assert forall|i: int| 0 <= i < all.len() implies !existing.contains(#[trigger] all[i])
            && !administrators.contains(all[i]) by {
            if i < rest.len() {
                assert(all[i] == rest[i]);
            }
        }
    }
}

/// An import adds every address that is neither on the list nor an administrator's, in its order,
/// and counts the administrators' among those that it passes over.
pub proof fn law_each_new_address_is_added(
    addresses: Seq<Seq<char>>,
    existing: Seq<Seq<char>>,
    administrators: Seq<Seq<char>>,
    n: int,
)
    requires
        0 <= n < addresses.len(),
    ensures
        ({
            let before = new_among(addresses, existing, administrators, n);
            let after = new_among(addresses, existing, administrators, n + 1);
            let address = addresses[n];
            &&& !existing.contains(address) && !administrators.contains(address) ==> after
                == before.push(address)
            &&& existing.contains(address) || administrators.contains(address) ==> after == before
            &&& administrators_among(addresses, administrators, n + 1) == administrators_among(
                addresses,
                administrators,
                n,
            ) + if administrators.contains(address) {
                1int
            } else {
                0int
            }
        }),
        new_among(addresses, existing, administrators, 0).len() == 0,
        administrators_among(addresses, administrators, 0) == 0,
{
}

/// The addresses of a file stand in its first column of that name, however it is written, and are
/// read in lower case without the white space around them.
pub proof fn law_addresses_stand_in_their_column(
    header: Seq<Seq<char>>,
    record: Seq<Seq<char>>,
    from: int,
    place: int,
)
    requires
        0 <= from <= place <= header.len(),
        forall|i: int| from <= i < place ==> lowercase(trimmed(#[trigger] header[i])) != "email"@,
    ensures
        place < header.len() && lowercase(trimmed(header[place])) == "email"@ ==> email_column(
            header,
            from,
        ) == place,
        place == header.len() ==> email_column(header, from) == header.len(),
        0 <= place < record.len() ==> address_of(record, place) == lowercase(
            trimmed(record[place]),
        ),
    decreases place - from,
{
    if from < place {
        assert(lowercase(trimmed(header[from])) != "email"@);
        law_addresses_stand_in_their_column(header, record, from + 1, place);
    }
}

/// A file is refused exactly where a row of it holds no address: the number of each such row, counted
/// from the header on, is among those that are told.
pub proof fn law_bad_rows_are_told(records: Seq<Seq<Seq<char>>>, column: int, n: int, i: int)
    requires
        0 <= i < n <= records.len(),
    ensures
        bad_rows(records, column, n).contains(i + 2) <==> !is_email(
            address_of(records[i], column),
        ),
    decreases n,
{
    let rest = bad_rows(records, column, n - 1);
    lemma_bad_rows_bound(records, column, n - 1);
    if i < n - 1 {
        law_bad_rows_are_told(records, column, n - 1, i);
        if rest.contains(i + 2) {
            let k = choose|k: int| 0 <= k < rest.len() && rest[k] == i + 2;
            assert(rest.push(n + 1)[k] == i + 2);
        }
        if rest.push(n + 1).contains(i + 2) {
            let longer = rest.push(n + 1);
            let k = choose|k: int| 0 <= k < longer.len() && longer[k] == i + 2;
            assert(rest[k] == i + 2);
        }
    } else {
        assert(rest.push(n + 1)[rest.len() as int] == n + 1);
    }
}

proof fn lemma_bad_rows_bound(records: Seq<Seq<Seq<char>>>, column: int, n: int)
    requires
        n <= records.len(),
    ensures
        forall|k: int|
            0 <= k < bad_rows(records, column, n).len() ==> #[trigger] bad_rows(
                records,
                column,
                n,
            )[k] <= n + 1,
    decreases n,
{
    if n > 0 {
        lemma_bad_rows_bound(records, column, n - 1);
        let rest = bad_rows(records, column, n - 1);
        let rows = bad_rows(records, column, n);
        assert forall|k: int| 0 <= k < rows.len() implies #[trigger] rows[k] <= n + 1 by {
            if k < rest.len() {
                assert(rest[k] <= n);
            }
        }
    }
}

/// A number between the bounds stays, and one beyond a bound becomes it; pages are counted from one,
/// up to a million, with 1 to 200 entries each and fifty where nothing is said.
pub proof fn law_pages_are_bounded(value: i64, min: i64, max: i64)
    requires
        min <= max,
    ensures
        min <= bounded(value, min, max) <= max,
        min <= value <= max ==> bounded(value, min, max) == value,
        value < min ==> bounded(value, min, max) == min,
        value > max ==> bounded(value, min, max) == max,
        1 <= value <= 1_000_000 ==> page_number(Some(value)) == value,
        value < 1 ==> page_number(Some(value)) == 1,
        value > 1_000_000 ==> page_number(Some(value)) == 1_000_000,
        page_number(None) == 1,
        1 <= value <= 200 ==> page_length(Some(value)) == value,
        value < 1 ==> page_length(Some(value)) == 1,
        value > 200 ==> page_length(Some(value)) == 200,
        page_length(None) == 50,
{
}

/// An import is refused without a file, with one of more than five megabytes, with one that is no
/// CSV, and with one whose addresses are; nobody but administrators imports.
pub proof fn law_imports_are_refused_for_a_reason(admin: bool, upload: Option<Seq<u8>>)
    ensures
        ({
            let problem = import_problem(admin, upload);
            let table = csv_table(upload_text(upload->Some_0));
            &&& problem is None <==> admin && upload is Some && upload->Some_0.len() <= 5_242_880
                && table is Some && addresses_problem(table->Some_0) is None
            &&& !admin ==> problem == Some(forbidden("Administrator access is required"@))
            &&& admin && upload is None ==> problem == Some(bad("Choose a CSV file to import"@))
            &&& admin && upload is Some && upload->Some_0.len() > 5_242_880 ==> problem == Some(
                bad("CSV files must be 5 MB or smaller"@),
            )
        }),
        upload is Some && csv_table(upload_text(upload->Some_0)) is Some ==> {
            let table = csv_table(upload_text(upload->Some_0))->Some_0;
            let column = email_column(table.0, 0);
            addresses_problem(table) is None <==> column < table.0.len() && table.1 is Some
                && bad_rows(table.1->Some_0, column, table.1->Some_0.len() as int).len() == 0
        },
{
}

/// Byte order marks at the start of a text come off, all of them, and nothing else does.
pub proof fn law_marks_come_off(s: Seq<char>)
    ensures
        without_marks(seq!['\u{feff}'] + s) == without_marks(s),
        s.len() > 0 && s[0] != '\u{feff}' ==> without_marks(s) == s,
        without_marks(Seq::empty()).len() == 0,
{
    assert((seq!['\u{feff}'] + s).drop_first() =~= s);
}

/// An address that nobody has registered with comes off the list at the word of an administrator, and
/// no other does.
pub proof fn law_registered_addresses_stay(exists: bool, registered: bool)
    ensures
        address_deletable(true, true, false),
        !address_deletable(true, true, true) && !address_deletable(true, false, registered)
            && !address_deletable(false, exists, registered),
{
}

} // verus!
