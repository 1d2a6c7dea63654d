use seeder::date::{format_date, parse_date, Date};
use seeder::doc::{doc_decode, to_document};
use seeder::error::Error;
use seeder::gen::{compose_email, format_u64};
use seeder::record::{Contract, RecordKind, Staff, TableType, Technology};
use seeder::row::{
    from_row, insert_statement, staff_from_row, staff_insert_statement, staff_to_row, Cell,
    GetParams,
};

fn sample_contract() -> TableType {
    TableType::Contract(Contract {
        type_of_contract: "B2B".to_string(),
        start_date: Date { year: 2021, month: 3, day: 7 },
        end_date: Date { year: 2023, month: 11, day: 30 },
        salary: 12500,
    })
}

#[test]
fn date_format_exact() {
    let d = Date { year: 2021, month: 3, day: 7 };
    assert_eq!(format_date(&d), "2021-03-07");
}

#[test]
fn date_parse_exact() {
    assert_eq!(
        parse_date("1999-12-31"),
        Some(Date { year: 1999, month: 12, day: 31 })
    );
}

#[test]
fn date_parse_rejects_malformed() {
    assert_eq!(parse_date(""), None);
    assert_eq!(parse_date("2021-3-7"), None);
    assert_eq!(parse_date("2021/03/07"), None);
    assert_eq!(parse_date("2021-13-01"), None);
    assert_eq!(parse_date("2021-00-10"), None);
    assert_eq!(parse_date("2021-04-31"), None);
    assert_eq!(parse_date("20x1-04-03"), None);
}

#[test]
fn date_leap_year_rules() {
    assert_eq!(
        parse_date("2024-02-29"),
        Some(Date { year: 2024, month: 2, day: 29 })
    );
    assert_eq!(parse_date("2023-02-29"), None);
    assert_eq!(parse_date("1900-02-29"), None);
    assert_eq!(
        parse_date("2000-02-29"),
        Some(Date { year: 2000, month: 2, day: 29 })
    );
}

#[test]
fn date_round_trip_concrete() {
    let dates = vec![
        Date { year: 1000, month: 1, day: 1 },
        Date { year: 2024, month: 2, day: 29 },
        Date { year: 9999, month: 12, day: 31 },
    ];
    for d in dates {
        assert_eq!(parse_date(&format_date(&d)), Some(d));
    }
}

#[test]
fn decimal_format_exact() {
    assert_eq!(format_u64(0), "0");
    assert_eq!(format_u64(7), "7");
    assert_eq!(format_u64(207), "207");
    assert_eq!(format_u64(6_000_000_000), "6000000000");
}

#[test]
fn email_is_lowercased() {
    assert_eq!(
        compose_email("John", "Doe", "example.com"),
        "john.doe@example.com"
    );
    assert_eq!(
        compose_email("ANNA", "SMITH", "gmail.com"),
        "anna.smith@gmail.com"
    );
}

#[test]
fn insert_statement_text() {
    assert_eq!(
        insert_statement(RecordKind::Technology),
        "INSERT IGNORE INTO technology (name, description) VALUES (?, ?)"
    );
    assert_eq!(
        insert_statement(RecordKind::Employee),
        "INSERT IGNORE INTO employee (first_name, last_name, email, phone_number, position, contract_date) VALUES (?, ?, ?, ?, ?, ?)"
    );
    assert_eq!(
        staff_insert_statement(),
        "INSERT IGNORE INTO staff (name, department, salary, phone, hire_date) VALUES (?, ?, ?, ?, ?)"
    );
}

#[test]
fn row_round_trip_contract() {
    let rec = sample_contract();
    let row = rec.get_params();
    assert_eq!(
        row[1],
        Cell::S("2021-03-07".to_string()),
        "dates travel as fixed-form text"
    );
    let back = from_row(RecordKind::Contract, &row).unwrap();
    assert_eq!(back, rec);
}

#[test]
fn row_round_trip_technology() {
    let rec = TableType::Technology(Technology::new(
        "Blockchain".to_string(),
        "A decentralized technology for secure and transparent transactions.".to_string(),
    ));
    let row = rec.get_params();
    let back = from_row(RecordKind::Technology, &row).unwrap();
    assert_eq!(back, rec);
}

#[test]
fn from_row_rejects_wrong_arity() {
    let row: Vec<Cell> = Vec::new();
    assert_eq!(
        from_row(RecordKind::Technology, &row),
        Err(Error::ParseFailure)
    );
}

#[test]
fn from_row_rejects_bad_date() {
    let row = vec![
        Cell::S("B2B".to_string()),
        Cell::S("not-a-date!".to_string()),
        Cell::S("2023-11-30".to_string()),
        Cell::I(12500),
    ];
    assert_eq!(
        from_row(RecordKind::Contract, &row),
        Err(Error::ParseFailure)
    );
}

#[test]
fn from_row_rejects_wrong_cell_type() {
    let row = vec![Cell::I(1), Cell::S("x".to_string())];
    assert_eq!(
        from_row(RecordKind::Technology, &row),
        Err(Error::ParseFailure)
    );
}

#[test]
fn staff_row_round_trip() {
    let s = Staff {
        name: "Anna".to_string(),
        department: "IT".to_string(),
        salary: 54000,
        phone: "+48 7123456789".to_string(),
        hire_date: Date { year: 2019, month: 6, day: 15 },
    };
    let row = staff_to_row(&s);
    assert_eq!(staff_from_row(&row).unwrap(), s);
}

#[test]
fn document_round_trip() {
    let rec = sample_contract();
    let d = to_document(&rec);
    assert_eq!(d.tag, "Contract");
    assert_eq!(d.names[0], "type_of_contract");
    let back = doc_decode(RecordKind::Contract, &d).unwrap();
    assert_eq!(back, rec);
}

#[test]
fn document_rejects_wrong_tag() {
    let rec = sample_contract();
    let mut d = to_document(&rec);
    d.tag = "Employee".to_string();
    assert_eq!(
        doc_decode(RecordKind::Contract, &d),
        Err(Error::ParseFailure)
    );
}

#[test]
fn document_rejects_wrong_schema() {
    let rec = sample_contract();
    let mut d = to_document(&rec);
    d.names[0] = "kind_of_contract".to_string();
    assert_eq!(
        doc_decode(RecordKind::Contract, &d),
        Err(Error::ParseFailure)
    );
}

#[test]
fn error_descriptions() {
    assert_eq!(Error::InvalidArgument.describe(), "invalid argument");
    assert_eq!(Error::BackendUnavailable.describe(), "backend unavailable");
    assert_eq!(Error::WriteFailure.describe(), "write failure");
    assert_eq!(Error::ParseFailure.describe(), "parse failure");
    assert_eq!(Error::ResourceExhausted.describe(), "resource exhausted");
}
