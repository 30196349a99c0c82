//! Calls into code that is not verified here: the `csv` crate's reader and
//! the standard library's reading of a path's extension. Each contract
//! below is trusted, not proved.

use vstd::prelude::*;

use crate::csv_format::{in_simple_format, simple_table};
use crate::dataset::{
    final_name, last_segment, name_extension, plain_dir_path, portable_named_path,
    single_file_name, CsvRecord, CsvTable,
};

verus! {

/// What `csv::Reader` produces from `input` when built with
/// `has_headers(true)` and `trim(Trim::All)`: either the message of the
/// error met while reading the header record, or the header's fields and,
/// in order, each further record's fields or the message of the error met
/// while reading it. It depends on the bytes alone.
pub uninterp spec fn csv_read(input: Seq<u8>) -> Result<(Seq<Seq<char>>, Seq<Result<Seq<Seq<char>>, Seq<char>>>), Seq<char>>;

/// Reads `input` with `csv::ReaderBuilder` (first record is the header,
/// fields trimmed, records of a different length than the header refused)
/// through `Reader::headers` and `Reader::records`, turning each error into
/// its message. Trusted: the result is `csv_read` of the bytes; and a
/// document `in_simple_format` reads as `simple_table` says, as `csv_core`'s
/// reader (default `,` delimiter, `"` quote with doubled quotes, `\n`
/// terminator, blank lines skipped, no comments, no escape byte) and
/// `StringRecord::trim` (`str::trim`) define it: the header is the first
/// non-empty line, every further non-empty line is one record, whether or
/// not the input ends in `\n`, and no record fails, all being as long as the
/// header.
#[verifier::external_body]
pub(crate) fn read_csv(input: &[u8]) -> (r: Result<CsvTable, String>)
    ensures
        match r {
            Ok(t) => csv_read(input@) == Ok::<_, Seq<char>>(t@),
            Err(m) => csv_read(input@) == Err::<(Seq<Seq<char>>, Seq<Result<Seq<Seq<char>>, Seq<char>>>), _>(m@),
        },
        match r {
            Ok(t) => in_simple_format(input@) ==> t@ == simple_table(input@),
            Err(m) => !in_simple_format(input@),
        },
{
    let mut rdr = csv::ReaderBuilder::new().has_headers(true).trim(csv::Trim::All).from_reader(input);
    let header = match rdr.headers() {
        Ok(h) => h.iter().map(|f| f.to_string()).collect(),
        Err(e) => return Err(e.to_string()),
    };
    let records = rdr.records().map(|rec| match rec {
        Ok(fields) => CsvRecord::Fields(fields.iter().map(|f| f.to_string()).collect()),
        Err(e) => CsvRecord::Unreadable(e.to_string()),
    }).collect();
    Ok(CsvTable { header, records })
}

/// The extension of the last component of `path`, as
/// `std::path::Path::extension` reads it on the platform at hand (then
/// `OsStr::to_str`, which cannot fail on a path made from a `str`).
/// Trusted, as the documentation of `Path::extension` says: the extension
/// is taken from the file name and is `None` if there is no embedded `.`
/// or the name begins with `.` and has no other, else the part after the
/// final `.`. So a path without any `.` has no extension, and a path that is
/// one plain file name (no separator of any platform, no `:` of a Windows
/// prefix, not `..`, whose file name is then the path itself) has
/// `name_extension` of itself. A path that every platform splits at `/`
/// alone (no `\`, no `:`, no leading `//`) and whose part after the last
/// `/` is a normal component (not empty, `.` or `..`) has that part as its
/// file name, since `Path::components` drops only empty and `.` components
/// before it; its extension is `name_extension` of that part. A path that
/// does not begin with two separators (`/` or `\`: no Windows network,
/// verbatim or device prefix) and whose part after its last `/` or `\`
/// holds no `:`, is not `..` and holds a `.` after its first character, has
/// that part's extension on every platform: on Windows that part is the
/// file name; elsewhere the file name is that part, perhaps preceded by text
/// up to a `\`, and its last `.` is the same one, not its first character.
/// Nothing is stated of other paths: how they split into components differs
/// between platforms.
#[verifier::external_body]
pub(crate) fn file_extension(path: &str) -> (r: Option<String>)
    ensures
        !path@.contains('.') ==> r is None,
        single_file_name(path@) ==> match r {
            Some(e) => name_extension(path@) == Some(e@),
            None => name_extension(path@) is None,
        },
        plain_dir_path(path@) ==> match r {
            Some(e) => name_extension(last_segment(path@)) == Some(e@),
            None => name_extension(last_segment(path@)) is None,
        },
        portable_named_path(path@) ==> match r {
            Some(e) => name_extension(final_name(path@)) == Some(e@),
            None => name_extension(final_name(path@)) is None,
        },
{
    std::path::Path::new(path).extension().and_then(|e| e.to_str()).map(|e| e.to_string())
}

} // verus!
