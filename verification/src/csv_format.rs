//! The part of the CSV format that a dataset file is written in, as the
//! `csv` reader with the settings used here reads it: ASCII text, records
//! on lines ended by `\n`, fields separated by `,`, a field optionally
//! between double quotes (a doubled quote inside standing for one quote),
//! every field trimmed of surrounding whitespace, blank lines skipped, and
//! every record as long as the first one.

use vstd::prelude::*;

verus! {

/// Every byte is ASCII.
pub open spec fn is_ascii_bytes(bytes: Seq<u8>) -> bool {
    forall|i: int| 0 <= i < bytes.len() ==> #[trigger] bytes[i] < 128
}

/// ASCII bytes read as characters.
pub open spec fn ascii_text(bytes: Seq<u8>) -> Seq<char> {
    bytes.map_values(|b: u8| b as char)
}

/// The non-empty lines of `rest`, split at `\n`, where `pending` is the part
/// of the current line already passed over.
pub open spec fn lines_from(rest: Seq<char>, pending: Seq<char>) -> Seq<Seq<char>>
    decreases rest.len(),
{
    if rest.len() == 0 {
        if pending.len() == 0 {
            seq![]
        } else {
            seq![pending]
        }
    } else if rest[0] == '\n' {
        (if pending.len() == 0 {
            seq![]
        } else {
            seq![pending]
        }) + lines_from(rest.drop_first(), seq![])
    } else {
        lines_from(rest.drop_first(), pending.push(rest[0]))
    }
}

/// The non-empty lines of `text`, in order; a final line needs no `\n`.
pub open spec fn nonempty_lines(text: Seq<char>) -> Seq<Seq<char>> {
    lines_from(text, seq![])
}

/// Where the scan of a line stands within the current field.
pub enum FieldState {
    /// At the start of a field.
    Start,
    /// Inside a field not opened by a quote.
    Plain,
    /// Inside a field opened by a quote.
    Quoted,
    /// Just after a quote inside a quoted field: the field's end, or the
    /// first half of a doubled quote.
    AfterQuote,
}

/// `field` followed by the fields in `rest`, if `rest` could be read.
pub open spec fn prepend_field(field: Seq<char>, rest: Option<Seq<Seq<char>>>) -> Option<Seq<Seq<char>>> {
    match rest {
        Some(fields) => Some(seq![field] + fields),
        None => None,
    }
}

/// The fields of the rest of a line, `field` being the text of the current
/// field so far; `None` if the line is not in the format (a quote left
/// open, or text right after a closing quote).
pub open spec fn scan_fields(rest: Seq<char>, field: Seq<char>, state: FieldState) -> Option<Seq<Seq<char>>>
    decreases rest.len(),
{
    if rest.len() == 0 {
        match state {
            FieldState::Quoted => None,
            _ => Some(seq![field]),
        }
    } else {
        let c = rest[0];
        let tail = rest.drop_first();
        match state {
            FieldState::Start => if c == '"' {
                scan_fields(tail, field, FieldState::Quoted)
            } else if c == ',' {
                prepend_field(field, scan_fields(tail, seq![], FieldState::Start))
            } else {
                scan_fields(tail, field.push(c), FieldState::Plain)
            },
            FieldState::Plain => if c == ',' {
                prepend_field(field, scan_fields(tail, seq![], FieldState::Start))
            } else {
                scan_fields(tail, field.push(c), FieldState::Plain)
            },
            FieldState::Quoted => if c == '"' {
                scan_fields(tail, field, FieldState::AfterQuote)
            } else {
                scan_fields(tail, field.push(c), FieldState::Quoted)
            },
            FieldState::AfterQuote => if c == '"' {
                scan_fields(tail, field.push('"'), FieldState::Quoted)
            } else if c == ',' {
                prepend_field(field, scan_fields(tail, seq![], FieldState::Start))
            } else {
                None
            },
        }
    }
}

/// The fields of one line, before trimming.
pub open spec fn line_fields(line: Seq<char>) -> Option<Seq<Seq<char>>> {
    scan_fields(line, seq![], FieldState::Start)
}

/// The whitespace that trimming removes, among ASCII characters: tab, line
/// feed, vertical tab, form feed, carriage return and space.
pub open spec fn is_trimmed_space(c: char) -> bool {
    c == ' ' || (9 <= c as u32 && c as u32 <= 13)
}

/// `s` without its leading whitespace.
pub open spec fn trim_front(s: Seq<char>) -> Seq<char>
    decreases s.len(),
{
    if s.len() > 0 && is_trimmed_space(s[0]) {
        trim_front(s.drop_first())
    } else {
        s
    }
}

/// `s` without its trailing whitespace.
pub open spec fn trim_back(s: Seq<char>) -> Seq<char>
    decreases s.len(),
{
    if s.len() > 0 && is_trimmed_space(s.last()) {
        trim_back(s.drop_last())
    } else {
        s
    }
}

/// `s` without its leading and trailing whitespace.
pub open spec fn trim(s: Seq<char>) -> Seq<char> {
    trim_back(trim_front(s))
}

/// Every field trimmed.
pub open spec fn trim_fields(fields: Seq<Seq<char>>) -> Seq<Seq<char>> {
    fields.map_values(|f: Seq<char>| trim(f))
}

/// The trimmed fields of each line, in order; `None` if a line is not in
/// the format.
pub open spec fn line_records(lines: Seq<Seq<char>>) -> Option<Seq<Seq<Seq<char>>>>
    decreases lines.len(),
{
    if lines.len() == 0 {
        Some(seq![])
    } else {
        match (line_fields(lines[0]), line_records(lines.drop_first())) {
            (Some(f), Some(rest)) => Some(seq![trim_fields(f)] + rest),
            _ => None,
        }
    }
}

/// The records of `input`: one per non-empty line, in order.
pub open spec fn text_records(input: Seq<u8>) -> Option<Seq<Seq<Seq<char>>>> {
    line_records(nonempty_lines(ascii_text(input)))
}

/// `input` is a CSV document in the format: ASCII, no carriage return,
/// every non-empty line a list of fields in the format, and every record
/// as long as the first.
pub open spec fn in_simple_format(input: Seq<u8>) -> bool {
    &&& is_ascii_bytes(input)
    &&& !input.contains(13u8)
    &&& text_records(input) matches Some(rs) && forall|i: int|
        0 <= i < rs.len() ==> #[trigger] rs[i].len() == rs[0].len()
}

/// What such a document reads as: the first record as the header (no
/// field at all if there is no record), then every further record, each
/// read without error.
pub open spec fn simple_table(input: Seq<u8>) -> (Seq<Seq<char>>, Seq<Result<Seq<Seq<char>>, Seq<char>>>) {
    let rs = text_records(input).unwrap();
    if rs.len() == 0 {
        (seq![], seq![])
    } else {
        (rs[0], rs.drop_first().map_values(|r: Seq<Seq<char>>| Ok::<Seq<Seq<char>>, Seq<char>>(r)))
    }
}


/// `t` with every double quote doubled.
pub open spec fn escape_quotes(t: Seq<char>) -> Seq<char>
    decreases t.len(),
{
    if t.len() == 0 {
        seq![]
    } else if t[0] == '"' {
        seq!['"', '"'] + escape_quotes(t.drop_first())
    } else {
        seq![t[0]] + escape_quotes(t.drop_first())
    }
}

/// `t` written as a quoted field: between double quotes, each quote inside
/// doubled.
pub open spec fn quoted(t: Seq<char>) -> Seq<char> {
    seq!['"'] + escape_quotes(t) + seq!['"']
}

proof fn lemma_scan_quoted(t: Seq<char>, field: Seq<char>, after: Seq<char>)
    ensures
        scan_fields(escape_quotes(t) + seq!['"'] + after, field, FieldState::Quoted) == scan_fields(
            after,
            field + t,
            FieldState::AfterQuote,
        ),
    decreases t.len(),
{
    let input = escape_quotes(t) + seq!['"'] + after;
    if t.len() == 0 {
        assert(input =~= seq!['"'] + after);
        assert(input.drop_first() =~= after);
        assert(field + t =~= field);
    } else if t[0] == '"' {
        let t2 = t.drop_first();
        assert(input =~= seq!['"', '"'] + (escape_quotes(t2) + seq!['"'] + after));
        assert(input.drop_first() =~= seq!['"'] + (escape_quotes(t2) + seq!['"'] + after));
        assert(input.drop_first().drop_first() =~= escape_quotes(t2) + seq!['"'] + after);
        assert(scan_fields(input, field, FieldState::Quoted) == scan_fields(
            input.drop_first(),
            field,
            FieldState::AfterQuote,
        ));
        assert(scan_fields(input.drop_first(), field, FieldState::AfterQuote) == scan_fields(
            input.drop_first().drop_first(),
            field.push('"'),
            FieldState::Quoted,
        ));
        lemma_scan_quoted(t2, field.push('"'), after);
        assert(field.push('"') + t2 =~= field + t);
    } else {
        let t2 = t.drop_first();
        assert(input =~= seq![t[0]] + (escape_quotes(t2) + seq!['"'] + after));
        assert(input.drop_first() =~= escape_quotes(t2) + seq!['"'] + after);
        lemma_scan_quoted(t2, field.push(t[0]), after);
        assert(field.push(t[0]) + t2 =~= field + t);
    }
}

/// Law: a field written between double quotes reads as the text between
/// them, a doubled quote standing for one quote, whatever that text holds
/// (commas included); it is then followed by the fields after the next `,`.
pub proof fn law_quoted_field(t: Seq<char>, rest: Seq<char>)
    ensures
        line_fields(quoted(t)) == Some(seq![t]),
        line_fields(quoted(t) + seq![','] + rest) == prepend_field(t, line_fields(rest)),
{
    let e = escape_quotes(t);
    assert(quoted(t).drop_first() =~= e + seq!['"'] + seq![]);
    lemma_scan_quoted(t, seq![], seq![]);
    assert(seq![] + t =~= t);
    let line = quoted(t) + seq![','] + rest;
    assert(line.drop_first() =~= e + seq!['"'] + (seq![','] + rest));
    lemma_scan_quoted(t, seq![], seq![','] + rest);
    assert((seq![','] + rest).drop_first() =~= rest);
}

proof fn lemma_scan_plain(t: Seq<char>, field: Seq<char>, after: Seq<char>)
    requires
        !t.contains(','),
    ensures
        scan_fields(t + after, field, FieldState::Plain) == scan_fields(after, field + t, FieldState::Plain),
    decreases t.len(),
{
    if t.len() == 0 {
        assert(t + after =~= after);
        assert(field + t =~= field);
    } else {
        let t2 = t.drop_first();
        assert(t[0] != ',') by {
            if t[0] == ',' {
                assert(t.contains(','));
            }
        }
        assert(!t2.contains(',')) by {
            if t2.contains(',') {
                let j = choose|j: int| 0 <= j < t2.len() && t2[j] == ',';
                assert(t[j + 1] == ',');
            }
        }
        assert((t + after).drop_first() =~= t2 + after);
        lemma_scan_plain(t2, field.push(t[0]), after);
        assert(field.push(t[0]) + t2 =~= field + t);
    }
}

/// Law: a field not opened by a quote and holding no comma reads as itself
/// (a quote inside it stays a quote); it is then followed by the fields
/// after the next `,`.
pub proof fn law_plain_field(t: Seq<char>, rest: Seq<char>)
    requires
        !t.contains(','),
        t.len() == 0 || t[0] != '"',
    ensures
        line_fields(t) == Some(seq![t]),
        line_fields(t + seq![','] + rest) == prepend_field(t, line_fields(rest)),
{
    let line = t + seq![','] + rest;
    if t.len() == 0 {
        assert(t =~= seq![]);
        assert(line =~= seq![','] + rest);
        assert(line.drop_first() =~= rest);
    } else {
        let t2 = t.drop_first();
        assert(t[0] != ',') by {
            if t[0] == ',' {
                assert(t.contains(','));
            }
        }
        assert(!t2.contains(',')) by {
            if t2.contains(',') {
                let j = choose|j: int| 0 <= j < t2.len() && t2[j] == ',';
                assert(t[j + 1] == ',');
            }
        }
        assert(t.drop_first() =~= t2 + seq![]);
        lemma_scan_plain(t2, seq![t[0]], seq![]);
        assert(seq![t[0]] + t2 =~= t);
        assert(seq![].push(t[0]) =~= seq![t[0]]);
        assert(line.drop_first() =~= t2 + (seq![','] + rest));
        lemma_scan_plain(t2, seq![t[0]], seq![','] + rest);
        assert((seq![','] + rest).drop_first() =~= rest);
    }
}

proof fn lemma_lines_push_newline(rest: Seq<char>, pending: Seq<char>)
    ensures
        lines_from(rest.push('\n'), pending) == lines_from(rest, pending),
    decreases rest.len(),
{
    if rest.len() == 0 {
        assert(rest.push('\n').drop_first() =~= seq![]);
        let empty: Seq<Seq<char>> = seq![];
        assert(lines_from(seq![], seq![]) == empty);
        assert((if pending.len() == 0 {
            empty
        } else {
            seq![pending]
        }) + empty =~= (if pending.len() == 0 {
            empty
        } else {
            seq![pending]
        }));
    } else {
        assert(rest.push('\n').drop_first() =~= rest.drop_first().push('\n'));
        if rest[0] == '\n' {
            lemma_lines_push_newline(rest.drop_first(), seq![]);
        } else {
            lemma_lines_push_newline(rest.drop_first(), pending.push(rest[0]));
        }
    }
}

/// Law: ending the document with a line feed or not changes nothing: the
/// same document with one more `\n` is in the format exactly when it is,
/// and reads as the same header and records; in particular the last line is
/// read as a record whether or not a `\n` ends it.
pub proof fn law_final_newline(input: Seq<u8>)
    ensures
        text_records(input.push(10u8)) == text_records(input),
        in_simple_format(input.push(10u8)) == in_simple_format(input),
        in_simple_format(input) ==> simple_table(input.push(10u8)) == simple_table(input),
{
    assert(ascii_text(input.push(10u8)) =~= ascii_text(input).push('\n'));
    lemma_lines_push_newline(ascii_text(input), seq![]);
    assert(is_ascii_bytes(input.push(10u8)) == is_ascii_bytes(input)) by {
        if is_ascii_bytes(input) {
            assert forall|i: int| 0 <= i < input.push(10u8).len() implies #[trigger] input.push(10u8)[i]
                < 128 by {
                if i < input.len() {
                    assert(input.push(10u8)[i] == input[i]);
                }
            }
        }
        if is_ascii_bytes(input.push(10u8)) {
            assert forall|i: int| 0 <= i < input.len() implies #[trigger] input[i] < 128 by {
                assert(input.push(10u8)[i] == input[i]);
            }
        }
    }
    assert(input.push(10u8).contains(13u8) == input.contains(13u8)) by {
        if input.push(10u8).contains(13u8) {
            let j = choose|j: int| 0 <= j < input.push(10u8).len() && input.push(10u8)[j] == 13u8;
            assert(j < input.len());
            assert(input[j] == 13u8);
        }
        if input.contains(13u8) {
            let j = choose|j: int| 0 <= j < input.len() && input[j] == 13u8;
            assert(input.push(10u8)[j] == 13u8);
        }
    }
}

proof fn lemma_line_records(lines: Seq<Seq<char>>)
    requires
        line_records(lines) is Some,
    ensures
        line_records(lines).unwrap().len() == lines.len(),
        forall|i: int|
            0 <= i < lines.len() ==> line_fields(#[trigger] lines[i]) is Some && line_records(
                lines,
            ).unwrap()[i] == trim_fields(line_fields(lines[i]).unwrap()),
    decreases lines.len(),
{
    if lines.len() > 0 {
        lemma_line_records(lines.drop_first());
        let rs = line_records(lines).unwrap();
        let rest = line_records(lines.drop_first()).unwrap();
        assert forall|i: int| 0 <= i < lines.len() implies line_fields(#[trigger] lines[i]) is Some
            && rs[i] == trim_fields(line_fields(lines[i]).unwrap()) by {
            if i > 0 {
                assert(lines[i] == lines.drop_first()[i - 1]);
                assert(rs[i] == rest[i - 1]);
            }
        }
    }
}

/// Law: a document in the format has one record per non-empty line, in
/// order, each the trimmed fields of its line; the first is the header and
/// every further one a data record.
pub proof fn law_one_record_per_line(input: Seq<u8>)
    requires
        in_simple_format(input),
    ensures
        ({
            let lines = nonempty_lines(ascii_text(input));
            let (header, records) = simple_table(input);
            &&& lines.len() == 0 ==> header.len() == 0 && records.len() == 0
            &&& lines.len() > 0 ==> {
                &&& header == trim_fields(line_fields(lines[0]).unwrap())
                &&& records.len() == lines.len() - 1
                &&& forall|i: int|
                    1 <= i < lines.len() ==> records[i - 1] == Ok::<Seq<Seq<char>>, Seq<char>>(
                        trim_fields(line_fields(#[trigger] lines[i]).unwrap()),
                    )
            }
        }),
{
    let lines = nonempty_lines(ascii_text(input));
    lemma_line_records(lines);
}

} // verus!
