//! Validation of a `km,price` dataset: the file-name extension, the CSV
//! header and the data rows. Reading the file and turning fields into
//! numbers happen outside; this module decides which error, if any, the
//! dataset is refused with.

use vstd::prelude::*;
use vstd::string::*;

use crate::text::{
    eq_ignore_ascii_case, join, join_with, same_ignoring_ascii_case, str_eq_ignore_ascii_case,
    strings_view,
};
use crate::csv_format::{in_simple_format, simple_table};
use crate::external::{csv_read, file_extension, read_csv};

verus! {

/// One data record as the CSV reader hands it over.
#[derive(Debug, PartialEq, Eq)]
pub enum CsvRecord {
    /// The record's fields, trimmed of surrounding whitespace.
    Fields(Vec<String>),
    /// The reader's message for a record it could not read.
    Unreadable(String),
}

impl View for CsvRecord {
    type V = Result<Seq<Seq<char>>, Seq<char>>;

    open spec fn view(&self) -> Self::V {
        match self {
            CsvRecord::Fields(f) => Ok(strings_view(f@)),
            CsvRecord::Unreadable(m) => Err(m@),
        }
    }
}

/// The views of a sequence of records.
pub open spec fn records_view(v: Seq<CsvRecord>) -> Seq<Result<Seq<Seq<char>>, Seq<char>>> {
    v.map_values(|r: CsvRecord| r@)
}

/// A CSV document read with its first record taken as the header.
#[derive(Debug)]
pub struct CsvTable {
    pub header: Vec<String>,
    pub records: Vec<CsvRecord>,
}

impl View for CsvTable {
    type V = (Seq<Seq<char>>, Seq<Result<Seq<Seq<char>>, Seq<char>>>);

    open spec fn view(&self) -> Self::V {
        (strings_view(self.header@), records_view(self.records@))
    }
}

/// What became of one data row once its fields were read as numbers.
#[derive(Debug, PartialEq, Eq)]
pub enum RowStatus {
    /// Both values were read and are finite.
    Valid,
    /// The row could not be read; the message says why.
    Malformed(String),
    /// The row was read, but a value is infinite or not a number.
    NonFinite,
}

/// What became of one field once it was read as a number.
#[derive(Debug, PartialEq, Eq)]
pub enum NumberRead {
    /// A finite number.
    Finite,
    /// A number, but infinite or not a number (`inf`, `NaN`).
    NotFinite,
    /// Not a number at all, or missing; the message says why.
    Invalid(String),
}

/// The status of a row from how its `km` and `price` fields read: a field
/// that does not read as a number makes the row malformed (`km` looked at
/// first); otherwise a value that is not finite refuses the row; otherwise
/// the row is valid.
pub fn row_status(km: NumberRead, price: NumberRead) -> (r: RowStatus)
    ensures
        match (km, price) {
            (NumberRead::Invalid(m), _) => r == RowStatus::Malformed(m),
            (_, NumberRead::Invalid(m)) => r == RowStatus::Malformed(m),
            (NumberRead::Finite, NumberRead::Finite) => r == RowStatus::Valid,
            _ => r == RowStatus::NonFinite,
        },
{
    match (km, price) {
        (NumberRead::Invalid(m), _) => RowStatus::Malformed(m),
        (_, NumberRead::Invalid(m)) => RowStatus::Malformed(m),
        (NumberRead::Finite, NumberRead::Finite) => RowStatus::Valid,
        _ => RowStatus::NonFinite,
    }
}

/// Why a dataset is refused.
#[derive(Debug, PartialEq, Eq)]
pub enum DatasetError {
    /// The header record could not be read; the reader's message.
    HeaderUnreadable(String),
    /// The header is not exactly `km,price`; what it was, joined with `,`.
    InvalidHeader(String),
    /// The data row on the given line could not be read.
    BadRow { line: usize, reason: String },
    /// The data row on the given line holds a value that is not finite.
    NonFiniteRow { line: usize },
    /// The file holds a header but no data row.
    NoRows,
}

/// The decimal digit `d` (`0` to `9`) as a character.
pub open spec fn digit_char(d: nat) -> char {
    if d == 0 {
        '0'
    } else if d == 1 {
        '1'
    } else if d == 2 {
        '2'
    } else if d == 3 {
        '3'
    } else if d == 4 {
        '4'
    } else if d == 5 {
        '5'
    } else if d == 6 {
        '6'
    } else if d == 7 {
        '7'
    } else if d == 8 {
        '8'
    } else {
        '9'
    }
}

/// `n` written in decimal, without leading zeros.
pub open spec fn decimal(n: nat) -> Seq<char>
    decreases n,
{
    if n < 10 {
        seq![digit_char(n)]
    } else {
        decimal(n / 10).push(digit_char(n % 10))
    }
}

fn digit_str(d: usize) -> (r: &'static str)
    requires
        d < 10,
    ensures
        r@ == seq![digit_char(d as nat)],
{
    proof {
        reveal_strlit("0");
        reveal_strlit("1");
        reveal_strlit("2");
        reveal_strlit("3");
        reveal_strlit("4");
        reveal_strlit("5");
        reveal_strlit("6");
        reveal_strlit("7");
        reveal_strlit("8");
        reveal_strlit("9");
    }
    if d == 0 {
        "0"
    } else if d == 1 {
        "1"
    } else if d == 2 {
        "2"
    } else if d == 3 {
        "3"
    } else if d == 4 {
        "4"
    } else if d == 5 {
        "5"
    } else if d == 6 {
        "6"
    } else if d == 7 {
        "7"
    } else if d == 8 {
        "8"
    } else {
        "9"
    }
}

/// Appends `n` in decimal to `out`.
fn push_decimal(n: usize, out: &mut String)
    ensures
        final(out)@ == old(out)@ + decimal(n as nat),
    decreases n,
{
    if n >= 10 {
        push_decimal(n / 10, out);
    }
    let ghost before = out@;
    out.append(digit_str(n % 10));
    proof {
        if n >= 10 {
            assert(before == old(out)@ + decimal((n / 10) as nat));
            assert(decimal(n as nat) == decimal((n / 10) as nat).push(digit_char((n % 10) as nat)));
            assert(out@ =~= old(out)@ + decimal(n as nat));
        } else {
            assert(out@ =~= old(out)@ + decimal(n as nat));
        }
    }
}

/// The message a refused dataset is reported with.
pub open spec fn error_message(e: DatasetError) -> Seq<char> {
    match e {
        DatasetError::HeaderUnreadable(m) => "failed to read header: "@ + m@,
        DatasetError::InvalidHeader(got) => "invalid header: expected `km,price`, got `"@ + got@ + "`"@,
        DatasetError::BadRow { line, reason } => "line "@ + decimal(line as nat) + ": "@ + reason@,
        DatasetError::NonFiniteRow { line } => "line "@ + decimal(line as nat) + ": values must be finite"@,
        DatasetError::NoRows => "no data rows found"@,
    }
}

impl DatasetError {
    /// The message this refusal is reported with: the reader's message or
    /// the refused header echoed back, or the line of the refused row.
    pub fn message(&self) -> (r: String)
        ensures
            r@ == error_message(*self),
    {
        match self {
            DatasetError::HeaderUnreadable(m) => {
                let mut r = String::from_str("failed to read header: ");
                r.append(m.as_str());
                r
            },
            DatasetError::InvalidHeader(got) => {
                let mut r = String::from_str("invalid header: expected `km,price`, got `");
                r.append(got.as_str());
                r.append("`");
                r
            },
            DatasetError::BadRow { line, reason } => {
                let mut r = String::from_str("line ");
                push_decimal(*line, &mut r);
                r.append(": ");
                r.append(reason.as_str());
                r
            },
            DatasetError::NonFiniteRow { line } => {
                let mut r = String::from_str("line ");
                push_decimal(*line, &mut r);
                r.append(": values must be finite");
                r
            },
            DatasetError::NoRows => String::from_str("no data rows found"),
        }
    }
}

/// The only header a dataset may have: `km`, then `price`.
pub open spec fn expected_header() -> Seq<Seq<char>> {
    seq![seq!['k', 'm'], seq!['p', 'r', 'i', 'c', 'e']]
}

/// The separator used when a refused header is echoed back.
pub open spec fn comma() -> Seq<char> {
    seq![',']
}

/// The extension that a dataset file must carry, in any letter case.
pub open spec fn csv_word() -> Seq<char> {
    seq!['c', 's', 'v']
}

/// A character matches the lower-case ASCII letter `lower` ignoring case
/// exactly when it is `lower` or its upper-case form `upper`.
proof fn lemma_matches_letter(x: char, lower: char, upper: char)
    requires
        97 <= lower as u32 <= 122,
        upper as u32 == lower as u32 - 32,
    ensures
        same_ignoring_ascii_case(x, lower) <==> (x == lower || x == upper),
{
    if x as u32 == upper as u32 {
        assert(x == upper);
    }
}

/// Decides whether a file-name extension marks a CSV file: it must be
/// present and equal `csv` up to ASCII letter case.
pub fn is_csv_extension(ext: Option<&str>) -> (r: bool)
    ensures
        r == (ext matches Some(e) && eq_ignore_ascii_case(e@, csv_word())),
        r == (ext matches Some(e) && e@.len() == 3 && (e@[0] == 'c' || e@[0] == 'C') && (e@[1]
            == 's' || e@[1] == 'S') && (e@[2] == 'v' || e@[2] == 'V')),
{
    match ext {
        Some(e) => {
            let w = "csv";
            proof {
                reveal_strlit("csv");
            }
            assert(w@ =~= csv_word());
            let r = str_eq_ignore_ascii_case(e, w);
            proof {
                if e@.len() == 3 {
                    lemma_matches_letter(e@[0], 'c', 'C');
                    lemma_matches_letter(e@[1], 's', 'S');
                    lemma_matches_letter(e@[2], 'v', 'V');
                    assert(same_ignoring_ascii_case(e@[0], w@[0]) <==> (e@[0] == 'c' || e@[0] == 'C'));
                    assert(same_ignoring_ascii_case(e@[1], w@[1]) <==> (e@[1] == 's' || e@[1] == 'S'));
                    assert(same_ignoring_ascii_case(e@[2], w@[2]) <==> (e@[2] == 'v' || e@[2] == 'V'));
                }
            }
            r
        },
        None => false,
    }
}

/// The path is one plain file name: it holds no separator of any platform
/// (`/`, `\`), no `:` (which a Windows prefix needs), and is not `..`.
pub open spec fn single_file_name(path: Seq<char>) -> bool {
    &&& !path.contains('/')
    &&& !path.contains('\\')
    &&& !path.contains(':')
    &&& path != seq!['.', '.']
}

/// The index of the last occurrence of `c` in `s`, if there is one.
pub open spec fn last_index(s: Seq<char>, c: char) -> Option<int>
    decreases s.len(),
{
    if s.len() == 0 {
        None
    } else if s.last() == c {
        Some(s.len() - 1)
    } else {
        last_index(s.drop_last(), c)
    }
}

/// What follows the last `/` of `path`; the whole path if it has none.
pub open spec fn last_segment(path: Seq<char>) -> Seq<char> {
    match last_index(path, '/') {
        Some(k) => path.subrange(k + 1, path.len() as int),
        None => path,
    }
}

/// The path splits into components at `/` alone on every platform, and its
/// last component is a plain file name: it holds no `\` (a Windows
/// separator) and no `:` (which a Windows prefix needs), does not begin with
/// `//` (a Windows UNC prefix), and what follows its last `/` is neither
/// empty (a trailing `/`), nor `.`, nor `..`.
pub open spec fn plain_dir_path(path: Seq<char>) -> bool {
    &&& !path.contains('\\')
    &&& !path.contains(':')
    &&& !(path.len() >= 2 && path[0] == '/' && path[1] == '/')
    &&& last_segment(path).len() > 0
    &&& last_segment(path) != seq!['.']
    &&& last_segment(path) != seq!['.', '.']
}

/// `c` separates path components on some platform: `/` everywhere, `\`
/// on Windows.
pub open spec fn is_path_separator(c: char) -> bool {
    c == '/' || c == '\\'
}

/// The index of the last separator of any platform in `path`, if any.
pub open spec fn last_separator(path: Seq<char>) -> Option<int>
    decreases path.len(),
{
    if path.len() == 0 {
        None
    } else if is_path_separator(path.last()) {
        Some(path.len() - 1)
    } else {
        last_separator(path.drop_last())
    }
}

/// What follows the last separator of any platform; the whole path if
/// there is none.
pub open spec fn final_name(path: Seq<char>) -> Seq<char> {
    match last_separator(path) {
        Some(k) => path.subrange(k + 1, path.len() as int),
        None => path,
    }
}

/// The path ends in a file name that every platform reads the same way:
/// the path does not begin with two separators (no Windows network or
/// device prefix), and what follows its last separator of any platform
/// holds no `:` (no Windows drive prefix), is not `..`, and holds a `.`
/// after its first character.
pub open spec fn portable_named_path(path: Seq<char>) -> bool {
    &&& !(path.len() >= 2 && is_path_separator(path[0]) && is_path_separator(path[1]))
    &&& !final_name(path).contains(':')
    &&& final_name(path) != seq!['.', '.']
    &&& last_index(final_name(path), '.') matches Some(k) && k > 0
}

/// The extension of a file name: what follows its last `.`, unless the
/// name holds no `.` or its only `.` is the first character.
pub open spec fn name_extension(name: Seq<char>) -> Option<Seq<char>> {
    match last_index(name, '.') {
        Some(k) => if k == 0 {
            None
        } else {
            Some(name.subrange(k + 1, name.len() as int))
        },
        None => None,
    }
}

/// Decides whether the path names a `.csv` file (the extension compared
/// without regard to ASCII letter case), using the platform's reading of
/// the path's extension. A path without any `.` never does; a path that
/// is a single file name, or that splits at `/` alone and ends in a plain
/// file name, does exactly when what follows the file name's last `.` (not
/// its first character) is `csv` in any letter case.
pub fn has_csv_extension(path: &str) -> (r: bool)
    ensures
        !path@.contains('.') ==> !r,
        single_file_name(path@) ==> r == (name_extension(path@) matches Some(e)
            && eq_ignore_ascii_case(e, csv_word())),
        plain_dir_path(path@) ==> r == (name_extension(last_segment(path@)) matches Some(e)
            && eq_ignore_ascii_case(e, csv_word())),
        portable_named_path(path@) ==> r == (name_extension(final_name(path@)) matches Some(e)
            && eq_ignore_ascii_case(e, csv_word())),
{
    let ext = file_extension(path);
    match ext {
        Some(e) => is_csv_extension(Some(e.as_str())),
        None => is_csv_extension(None),
    }
}

/// Checks that the header is exactly `km,price`.
pub fn check_header(header: &Vec<String>) -> (r: Result<(), DatasetError>)
    ensures
        strings_view(header@) == expected_header() ==> r is Ok,
        strings_view(header@) != expected_header() ==> (r matches Err(DatasetError::InvalidHeader(got))
            && got@ == join_with(strings_view(header@), comma())),
{
    let km = String::from_str("km");
    let price = String::from_str("price");
    let sep = ",";
    proof {
        reveal_strlit("km");
        reveal_strlit("price");
        reveal_strlit(",");
    }
    assert(sep@ =~= comma());
    assert(km@ =~= seq!['k', 'm']);
    assert(price@ =~= seq!['p', 'r', 'i', 'c', 'e']);
    if header.len() == 2 && header[0] == km && header[1] == price {
        assert(strings_view(header@)[0] == header@[0]@);
        assert(strings_view(header@)[1] == header@[1]@);
        assert(strings_view(header@) =~= expected_header());
        Ok(())
    } else {
        assert(strings_view(header@) != expected_header()) by {
            if strings_view(header@) == expected_header() {
                assert(strings_view(header@).len() == header@.len());
                assert(header@.len() == 2);
                assert(strings_view(header@)[0] == header@[0]@);
                assert(strings_view(header@)[1] == header@[1]@);
                assert(header@[0]@ =~= km@);
                assert(header@[1]@ =~= price@);
            }
        }
        Err(DatasetError::InvalidHeader(join(header, sep)))
    }
}

/// Checks the header of a table read from a dataset and hands back its
/// data records.
pub fn check_table(table: CsvTable) -> (r: Result<Vec<CsvRecord>, DatasetError>)
    ensures
        table@.0 == expected_header() ==> (r matches Ok(recs) && recs@ == table.records@),
        table@.0 != expected_header() ==> (r matches Err(DatasetError::InvalidHeader(got))
            && got@ == join_with(table@.0, comma())),
{
    match check_header(&table.header) {
        Ok(()) => Ok(table.records),
        Err(e) => Err(e),
    }
}

/// Reads a dataset's bytes as CSV (header first, fields trimmed) and checks
/// the header; hands back the data records in order.
pub fn read_table(input: &[u8]) -> (r: Result<Vec<CsvRecord>, DatasetError>)
    ensures
        match csv_read(input@) {
            Err(m) => r matches Err(DatasetError::HeaderUnreadable(got)) && got@ == m,
            Ok((header, records)) => if header == expected_header() {
                r matches Ok(recs) && records_view(recs@) == records
            } else {
                r matches Err(DatasetError::InvalidHeader(got)) && got@ == join_with(header, comma())
            },
        },
        in_simple_format(input@) ==> if simple_table(input@).0 == expected_header() {
            r matches Ok(recs) && records_view(recs@) == simple_table(input@).1
        } else {
            r matches Err(DatasetError::InvalidHeader(got)) && got@ == join_with(simple_table(input@).0, comma())
        },
{
    match read_csv(input) {
        Ok(table) => check_table(table),
        Err(m) => Err(DatasetError::HeaderUnreadable(m)),
    }
}

/// Every row before index `n` is `Valid`.
pub open spec fn all_valid_before(rows: Seq<RowStatus>, n: int) -> bool {
    forall|j: int| 0 <= j < n ==> #[trigger] rows[j] is Valid
}

/// Scans the rows in order: the first row that is not valid refuses the
/// dataset, reported on its line of the file (the header is line 1, so the
/// row at index `i` is on line `i + 2`); with no row at all the dataset is
/// refused as empty; otherwise the number of rows is returned.
pub fn check_rows(rows: &Vec<RowStatus>) -> (r: Result<usize, DatasetError>)
    requires
        rows@.len() + 2 <= usize::MAX,
    ensures
        match r {
            Ok(n) => n == rows@.len() && n > 0 && all_valid_before(rows@, rows@.len() as int),
            Err(DatasetError::NoRows) => rows@.len() == 0,
            Err(DatasetError::BadRow { line, reason }) => {
                &&& 2 <= line < rows@.len() + 2
                &&& rows@[line - 2] matches RowStatus::Malformed(m) && m@ == reason@
                &&& all_valid_before(rows@, line - 2)
            },
            Err(DatasetError::NonFiniteRow { line }) => {
                &&& 2 <= line < rows@.len() + 2
                &&& rows@[line - 2] is NonFinite
                &&& all_valid_before(rows@, line - 2)
            },
            Err(_) => false,
        },
{
    let mut i: usize = 0;
    while i < rows.len()
        invariant
            i <= rows@.len(),
            rows@.len() + 2 <= usize::MAX,
            all_valid_before(rows@, i as int),
        decreases rows.len() - i,
    {
        match &rows[i] {
            RowStatus::Valid => {},
            RowStatus::Malformed(m) => {
                return Err(DatasetError::BadRow { line: i + 2, reason: m.clone() });
            },
            RowStatus::NonFinite => {
                return Err(DatasetError::NonFiniteRow { line: i + 2 });
            },
        }
        i = i + 1;
    }
    if rows.len() == 0 {
        Err(DatasetError::NoRows)
    } else {
        Ok(rows.len())
    }
}

} // verus!
