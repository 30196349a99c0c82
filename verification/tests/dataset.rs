use ftlr::dataset::{
    check_header, check_rows, has_csv_extension, is_csv_extension, read_table, row_status,
    CsvRecord, DatasetError, NumberRead, RowStatus,
};

fn fields(vals: &[&str]) -> CsvRecord {
    CsvRecord::Fields(vals.iter().map(|v| v.to_string()).collect())
}

fn strings(vals: &[&str]) -> Vec<String> {
    vals.iter().map(|v| v.to_string()).collect()
}

/// Reads a field as a number, the way the command-line tool does.
fn read_number(fields: &[String], index: usize) -> NumberRead {
    match fields.get(index).map(|f| f.parse::<f64>()) {
        None => NumberRead::Invalid("missing field".to_string()),
        Some(Ok(v)) if v.is_finite() => NumberRead::Finite,
        Some(Ok(_)) => NumberRead::NotFinite,
        Some(Err(e)) => NumberRead::Invalid(e.to_string()),
    }
}

fn classify(rec: &CsvRecord) -> RowStatus {
    match rec {
        CsvRecord::Unreadable(m) => RowStatus::Malformed(m.clone()),
        CsvRecord::Fields(f) => row_status(read_number(f, 0), read_number(f, 1)),
    }
}

fn validate(bytes: &[u8]) -> Result<usize, DatasetError> {
    let records = read_table(bytes)?;
    let statuses: Vec<RowStatus> = records.iter().map(classify).collect();
    check_rows(&statuses)
}

#[test]
fn csv_extension_is_recognised_in_any_case() {
    assert!(is_csv_extension(Some("csv")));
    assert!(is_csv_extension(Some("CSV")));
    assert!(is_csv_extension(Some("Csv")));
    assert!(!is_csv_extension(Some("txt")));
    assert!(!is_csv_extension(Some("")));
    assert!(!is_csv_extension(None));
}

#[test]
fn path_must_end_in_csv_extension() {
    assert!(has_csv_extension("data.csv"));
    assert!(has_csv_extension("some/dir/data.CSV"));
    assert!(!has_csv_extension("data.txt"));
    assert!(!has_csv_extension("data.csv.txt"));
    assert!(!has_csv_extension("csv"));
    assert!(!has_csv_extension(".csv"));
    assert!(has_csv_extension("archive.tar.Csv"));
    assert!(has_csv_extension("/tmp/ftlr_test_1_0.csv"));
    assert!(!has_csv_extension("/tmp/ftlr_test_1_0.txt"));
    assert!(!has_csv_extension("/tmp/data.txt"));
    assert!(has_csv_extension("./rel/dir//data.csv"));
    assert!(!has_csv_extension("dir.csv/data"));
    assert!(!has_csv_extension("data."));
    assert!(!has_csv_extension("..."));
}

#[test]
fn km_price_header_is_accepted() {
    assert_eq!(check_header(&strings(&["km", "price"])), Ok(()));
}

#[test]
fn header_other_than_km_price_is_refused_and_echoed() {
    assert_eq!(
        check_header(&strings(&["mileage", "price"])),
        Err(DatasetError::InvalidHeader("mileage,price".to_string()))
    );
    assert_eq!(
        check_header(&strings(&["price", "km"])),
        Err(DatasetError::InvalidHeader("price,km".to_string()))
    );
    assert_eq!(
        check_header(&strings(&["km", "price", "year"])),
        Err(DatasetError::InvalidHeader("km,price,year".to_string()))
    );
    assert_eq!(check_header(&strings(&[])), Err(DatasetError::InvalidHeader(String::new())));
    assert_eq!(
        check_header(&strings(&["KM", "price"])),
        Err(DatasetError::InvalidHeader("KM,price".to_string()))
    );
}

#[test]
fn well_formed_table_yields_its_records_in_order() {
    let recs = read_table(b"km,price\n10,100\n20,200\n30,300\n").unwrap();
    assert_eq!(recs, vec![fields(&["10", "100"]), fields(&["20", "200"]), fields(&["30", "300"])]);
    assert_eq!(validate(b"km,price\n10,100\n20,200\n30,300\n"), Ok(3));
}

#[test]
fn fields_and_header_are_trimmed() {
    let recs = read_table(b" km , price \n 1 ,\t2 \n").unwrap();
    assert_eq!(recs, vec![fields(&["1", "2"])]);
}

#[test]
fn table_with_wrong_header_is_refused() {
    assert_eq!(
        read_table(b"mileage,price\n10,100\n"),
        Err(DatasetError::InvalidHeader("mileage,price".to_string()))
    );
}

#[test]
fn empty_input_has_an_empty_header() {
    assert_eq!(read_table(b""), Err(DatasetError::InvalidHeader(String::new())));
}

#[test]
fn unreadable_header_is_reported() {
    match read_table(b"k\xffm,price\n1,2\n") {
        Err(DatasetError::HeaderUnreadable(m)) => assert!(!m.is_empty()),
        other => panic!("unexpected result: {other:?}"),
    }
}

#[test]
fn record_of_wrong_length_is_unreadable() {
    let recs = read_table(b"km,price\n10,100,5\n20,200\n").unwrap();
    assert_eq!(recs.len(), 2);
    assert!(matches!(recs[0], CsvRecord::Unreadable(_)));
    assert_eq!(recs[1], fields(&["20", "200"]));
    match validate(b"km,price\n10,100,5\n20,200\n") {
        Err(DatasetError::BadRow { line, .. }) => assert_eq!(line, 2),
        other => panic!("unexpected result: {other:?}"),
    }
}

#[test]
fn header_without_rows_is_refused_as_empty() {
    assert_eq!(read_table(b"km,price\n"), Ok(vec![]));
    assert_eq!(validate(b"km,price\n"), Err(DatasetError::NoRows));
}

#[test]
fn non_finite_value_is_refused_on_its_line() {
    assert_eq!(validate(b"km,price\n10,100\nNaN,200\n"), Err(DatasetError::NonFiniteRow { line: 3 }));
    assert_eq!(validate(b"km,price\n10,inf\n"), Err(DatasetError::NonFiniteRow { line: 2 }));
}

#[test]
fn non_numeric_value_is_refused_on_its_line() {
    match validate(b"km,price\n10,100\n20,200\nabc,300\n") {
        Err(DatasetError::BadRow { line, .. }) => assert_eq!(line, 4),
        other => panic!("unexpected result: {other:?}"),
    }
}

#[test]
fn first_bad_row_wins() {
    let rows = vec![
        RowStatus::Valid,
        RowStatus::NonFinite,
        RowStatus::Malformed("later".to_string()),
    ];
    assert_eq!(check_rows(&rows), Err(DatasetError::NonFiniteRow { line: 3 }));
    let rows = vec![RowStatus::Malformed("first".to_string()), RowStatus::NonFinite];
    assert_eq!(
        check_rows(&rows),
        Err(DatasetError::BadRow { line: 2, reason: "first".to_string() })
    );
}

#[test]
fn all_valid_rows_are_counted() {
    assert_eq!(check_rows(&(0..5).map(|_| RowStatus::Valid).collect()), Ok(5));
    assert_eq!(check_rows(&vec![]), Err(DatasetError::NoRows));
}

#[test]
fn unreadable_field_outranks_non_finite_value() {
    let bad = || NumberRead::Invalid("field 0: invalid float literal".to_string());
    assert_eq!(row_status(bad(), NumberRead::NotFinite), RowStatus::Malformed("field 0: invalid float literal".to_string()));
    assert_eq!(row_status(NumberRead::NotFinite, bad()), RowStatus::Malformed("field 0: invalid float literal".to_string()));
    assert_eq!(
        row_status(NumberRead::Invalid("a".to_string()), NumberRead::Invalid("b".to_string())),
        RowStatus::Malformed("a".to_string())
    );
}

#[test]
fn non_finite_value_in_either_field_refuses_the_row() {
    assert_eq!(row_status(NumberRead::Finite, NumberRead::NotFinite), RowStatus::NonFinite);
    assert_eq!(row_status(NumberRead::NotFinite, NumberRead::Finite), RowStatus::NonFinite);
    assert_eq!(row_status(NumberRead::NotFinite, NumberRead::NotFinite), RowStatus::NonFinite);
    assert_eq!(row_status(NumberRead::Finite, NumberRead::Finite), RowStatus::Valid);
}

#[test]
fn refusal_messages_name_the_header_or_the_line() {
    assert_eq!(
        DatasetError::InvalidHeader("mileage,price".to_string()).message(),
        "invalid header: expected `km,price`, got `mileage,price`"
    );
    assert_eq!(
        DatasetError::HeaderUnreadable("bad utf-8".to_string()).message(),
        "failed to read header: bad utf-8"
    );
    assert_eq!(
        DatasetError::NonFiniteRow { line: 3 }.message(),
        "line 3: values must be finite"
    );
    assert_eq!(
        DatasetError::BadRow { line: 120, reason: "field 0: invalid float literal".to_string() }.message(),
        "line 120: field 0: invalid float literal"
    );
    assert_eq!(
        DatasetError::BadRow { line: usize::MAX, reason: String::new() }.message(),
        format!("line {}: ", usize::MAX)
    );
    assert_eq!(DatasetError::NoRows.message(), "no data rows found");
}
