use seeder::dispatch::{
    clear_staff, generate_data, generate_staff, get_data, get_staff, parse_db_type,
    parse_table_name, ClearRequest, DbType, GenerateRequest, GetRequest,
};
use seeder::doc::DocumentStore;
use seeder::error::Error;
use seeder::gen::WordLists;
use seeder::record::{Client, Employee, RecordKind, TableType, Technology};
use seeder::row::{Cell, GetParams};
use seeder::store::RelationalStore;

fn word_lists() -> WordLists {
    WordLists {
        first_names: vec!["John".to_string(), "Anna".to_string(), "Piotr".to_string()],
        last_names: vec!["Doe".to_string(), "Kowalski".to_string()],
        cities: vec!["Warsaw".to_string(), "Gdansk".to_string()],
        streets: vec!["Main Street".to_string(), "Long Street".to_string()],
    }
}

fn wrap_clients(batch: Vec<Client>) -> Vec<TableType> {
    batch.into_iter().map(TableType::Client).collect()
}

fn wrap_employees(batch: Vec<Employee>) -> Vec<TableType> {
    batch.into_iter().map(TableType::Employee).collect()
}

#[test]
fn selectors_resolve() {
    assert_eq!(parse_db_type("mysql"), Ok(DbType::MySql));
    assert_eq!(parse_db_type("mongodb"), Ok(DbType::MongoDb));
    assert_eq!(parse_db_type("oracle"), Err(Error::InvalidArgument));
    assert_eq!(parse_db_type("both"), Err(Error::InvalidArgument));
    assert_eq!(parse_table_name("employee"), Ok(RecordKind::Employee));
    assert_eq!(parse_table_name("bogus"), Err(Error::InvalidArgument));
    assert_eq!(parse_table_name(""), Err(Error::InvalidArgument));
}

#[test]
fn insert_twice_relational_is_idempotent() {
    let lists = word_lists();
    let batch = wrap_clients(
        Client::generate_batch(10, &lists.first_names, &lists.last_names).unwrap(),
    );
    let mut rel = RelationalStore::new();
    rel.insert_batch(&batch).unwrap();
    let once = rel.fetch_all(RecordKind::Client).unwrap();
    assert_eq!(once.len(), 10);
    rel.insert_batch(&batch).unwrap();
    let twice = rel.fetch_all(RecordKind::Client).unwrap();
    assert_eq!(once, twice, "a repeated batch must not duplicate rows");
}

#[test]
fn insert_twice_document_is_idempotent() {
    let lists = word_lists();
    let batch = wrap_employees(
        Employee::generate_batch(8, &lists.first_names, &lists.last_names).unwrap(),
    );
    let mut docs = DocumentStore::new();
    docs.insert_batch(&batch).unwrap();
    let once = docs.fetch_all(RecordKind::Employee);
    assert_eq!(once.len(), 8);
    docs.insert_batch(&batch).unwrap();
    let twice = docs.fetch_all(RecordKind::Employee);
    assert_eq!(once, twice, "the pre-filter must drop every repeated document");
}

#[test]
fn clear_then_fetch_relational_is_empty() {
    let batch = wrap_technologies_sample(5);
    let mut rel = RelationalStore::new();
    rel.insert_batch(&batch).unwrap();
    assert_eq!(rel.fetch_all(RecordKind::Technology).unwrap().len(), 5);
    rel.clear(RecordKind::Technology);
    assert_eq!(rel.fetch_all(RecordKind::Technology).unwrap(), vec![]);
}

fn wrap_technologies_sample(count: usize) -> Vec<TableType> {
    Technology::generate_batch(count)
        .into_iter()
        .map(TableType::Technology)
        .collect()
}

#[test]
fn clear_then_fetch_document_is_empty() {
    let batch = wrap_technologies_sample(4);
    let mut docs = DocumentStore::new();
    docs.insert_batch(&batch).unwrap();
    let deleted = docs.clear(RecordKind::Technology);
    assert_eq!(deleted, 4);
    assert_eq!(docs.fetch_all(RecordKind::Technology), vec![]);
}

#[test]
fn round_trip_relational_equals_originals() {
    let lists = word_lists();
    let batch = wrap_employees(
        Employee::generate_batch(6, &lists.first_names, &lists.last_names).unwrap(),
    );
    let mut rel = RelationalStore::new();
    rel.insert_batch(&batch).unwrap();
    let fetched = rel.fetch_all(RecordKind::Employee).unwrap();
    assert_eq!(fetched, batch, "write then read must be field-for-field equal");
}

#[test]
fn round_trip_document_equals_originals() {
    let lists = word_lists();
    let batch = wrap_clients(
        Client::generate_batch(6, &lists.first_names, &lists.last_names).unwrap(),
    );
    let mut docs = DocumentStore::new();
    docs.insert_batch(&batch).unwrap();
    let fetched = docs.fetch_all(RecordKind::Client);
    assert_eq!(fetched, batch);
}

#[test]
fn insert_into_many_seeds_every_table() {
    let lists = word_lists();
    let mut rel = RelationalStore::new();
    let mut docs = DocumentStore::new();
    let req = GenerateRequest {
        count: 3,
        db_type: "mysql".to_string(),
        table_name: String::new(),
        insert_into_many: true,
    };
    let written = generate_data(&mut rel, &mut docs, &req, &lists).unwrap();
    assert_eq!(written.len(), 24, "one batch of three per known shape");
    let kinds = [
        RecordKind::Address,
        RecordKind::Client,
        RecordKind::Contract,
        RecordKind::Employee,
        RecordKind::Payment,
        RecordKind::Project,
        RecordKind::Task,
        RecordKind::Technology,
    ];
    for k in kinds {
        assert_eq!(rel.fetch_all(k).unwrap().len(), 3);
        assert_eq!(docs.fetch_all(k).len(), 0, "the other backend stays untouched");
    }
}

#[test]
fn invalid_selectors_touch_nothing() {
    let lists = word_lists();
    let mut rel = RelationalStore::new();
    let mut docs = DocumentStore::new();
    rel.insert_batch(&wrap_technologies_sample(2)).unwrap();

    let req = GenerateRequest {
        count: 5,
        db_type: "mysql".to_string(),
        table_name: "bogus".to_string(),
        insert_into_many: false,
    };
    assert_eq!(
        generate_data(&mut rel, &mut docs, &req, &lists).unwrap_err(),
        Error::InvalidArgument
    );

    let req = GenerateRequest {
        count: 5,
        db_type: "oracle".to_string(),
        table_name: "employee".to_string(),
        insert_into_many: false,
    };
    assert_eq!(
        generate_data(&mut rel, &mut docs, &req, &lists).unwrap_err(),
        Error::InvalidArgument
    );

    let creq = ClearRequest { db_type: "oracle".to_string(), table_name: "technology".to_string() };
    assert_eq!(
        clear_staff(&mut rel, &mut docs, &creq).unwrap_err(),
        Error::InvalidArgument
    );
    let creq = ClearRequest { db_type: "mysql".to_string(), table_name: String::new() };
    assert_eq!(
        clear_staff(&mut rel, &mut docs, &creq).unwrap_err(),
        Error::InvalidArgument
    );
    let creq = ClearRequest { db_type: "mysql".to_string(), table_name: "bogus".to_string() };
    assert_eq!(
        clear_staff(&mut rel, &mut docs, &creq).unwrap_err(),
        Error::InvalidArgument
    );

    let greq = GetRequest { db_type: "oracle".to_string(), table_name: "technology".to_string() };
    assert_eq!(
        get_data(&rel, &docs, &greq).unwrap_err(),
        Error::InvalidArgument
    );
    let greq = GetRequest { db_type: "mongodb".to_string(), table_name: "bogus".to_string() };
    assert_eq!(
        get_data(&rel, &docs, &greq).unwrap_err(),
        Error::InvalidArgument
    );

    // Through it all, the stored rows never moved.
    assert_eq!(rel.fetch_all(RecordKind::Technology).unwrap().len(), 2);
}

#[test]
fn technology_scenario_three_rows() {
    let techs = Technology::generate_batch(3);
    let batch: Vec<TableType> = techs.into_iter().map(TableType::Technology).collect();
    let mut rel = RelationalStore::new();
    rel.insert_batch(&batch).unwrap();
    let fetched = rel.fetch_all(RecordKind::Technology).unwrap();
    assert_eq!(fetched.len(), 3);
    let canonical = vec![
        ("Rust Programming", "A systems programming language focused on performance and safety."),
        ("Machine Learning", "A subset of artificial intelligence that focuses on algorithms and models that allow machines to learn from data."),
        ("Blockchain", "A decentralized technology for secure and transparent transactions."),
        ("Quantum Computing", "A new field of computing that uses quantum mechanics to process information."),
        ("Artificial Intelligence", "A field of study in computer science that involves creating intelligent machines capable of performing tasks that usually require human intelligence."),
        ("Cloud Computing", "A model of computing where services and resources are provided over the internet."),
        ("Internet of Things", "A network of physical devices, vehicles, buildings, and other objects embedded with sensors and software for the purpose of connecting and exchanging data."),
    ];
    for rec in fetched {
        match rec {
            TableType::Technology(t) => {
                assert!(canonical
                    .iter()
                    .any(|(n, d)| t.name() == n && t.description() == d));
            },
            other => panic!("fetched a non-technology record: {:?}", other),
        }
    }
}

#[test]
fn generate_through_dispatch_mongodb() {
    let lists = word_lists();
    let mut rel = RelationalStore::new();
    let mut docs = DocumentStore::new();
    let req = GenerateRequest {
        count: 4,
        db_type: "mongodb".to_string(),
        table_name: "payment".to_string(),
        insert_into_many: false,
    };
    let written = generate_data(&mut rel, &mut docs, &req, &lists).unwrap();
    assert_eq!(written.len(), 4);
    let greq = GetRequest { db_type: "mongodb".to_string(), table_name: "payment".to_string() };
    assert_eq!(get_data(&rel, &docs, &greq).unwrap(), written);
    assert_eq!(rel.fetch_all(RecordKind::Payment).unwrap().len(), 0);
}

#[test]
fn clear_through_dispatch_mongodb() {
    let mut rel = RelationalStore::new();
    let mut docs = DocumentStore::new();
    docs.insert_batch(&wrap_technologies_sample(7)).unwrap();
    let creq = ClearRequest { db_type: "mongodb".to_string(), table_name: "technology".to_string() };
    clear_staff(&mut rel, &mut docs, &creq).unwrap();
    assert_eq!(docs.fetch_all(RecordKind::Technology), vec![]);
}

#[test]
fn malformed_relational_row_fails_whole_fetch() {
    let mut rel = RelationalStore::new();
    rel.insert_batch(&wrap_technologies_sample(2)).unwrap();
    assert!(rel.fetch_all(RecordKind::Technology).is_ok());
    rel.push_raw_row(RecordKind::Technology, vec![Cell::I(9)]);
    assert_eq!(
        rel.fetch_all(RecordKind::Technology),
        Err(Error::ParseFailure),
        "one unreadable row is fatal for the relational fetch"
    );
}

#[test]
fn malformed_document_is_skipped_not_fatal() {
    let mut docs = DocumentStore::new();
    let good = wrap_technologies_sample(2);
    docs.insert_batch(&good).unwrap();
    let stray = seeder::doc::Document {
        tag: "SomethingElse".to_string(),
        names: vec![],
        values: vec![],
    };
    docs.push_raw_document(RecordKind::Technology, stray);
    let fetched = docs.fetch_all(RecordKind::Technology);
    assert_eq!(fetched, good, "the document fetch returns the readable subset");
}

#[test]
fn staff_pipeline_generates_and_reads_back() {
    let names = vec!["Anna".to_string(), "Piotr".to_string()];
    let mut rel = RelationalStore::new();
    let written = generate_staff(&mut rel, 5, &names).unwrap();
    assert_eq!(written.len(), 5);
    let fetched = get_staff(&rel).unwrap();
    assert_eq!(fetched, written);
    for s in &fetched {
        assert!(names.contains(&s.name));
        assert!(["HR", "IT", "Finance", "Sales"].contains(&s.department.as_str()));
        assert!(5000 <= s.salary && s.salary < 75000);
        assert!(s.phone.starts_with("+48 "));
        assert!(2017 <= s.hire_date.year && s.hire_date.year <= 2021);
    }
    for i in 0..fetched.len() {
        for j in (i + 1)..fetched.len() {
            assert_ne!(fetched[i].phone, fetched[j].phone);
        }
    }
    rel.clear_staff();
    assert_eq!(get_staff(&rel).unwrap(), vec![]);
}

#[test]
fn staff_insert_twice_is_idempotent() {
    let names = vec!["Anna".to_string()];
    let batch = seeder::record::Staff::generate_batch(6, &names).unwrap();
    let mut rel = RelationalStore::new();
    rel.insert_staff_batch(&batch).unwrap();
    let once = rel.fetch_all_staff().unwrap();
    rel.insert_staff_batch(&batch).unwrap();
    assert_eq!(rel.fetch_all_staff().unwrap(), once);
}

#[test]
fn generate_zero_records() {
    let lists = word_lists();
    let mut rel = RelationalStore::new();
    let mut docs = DocumentStore::new();
    let req = GenerateRequest {
        count: 0,
        db_type: "mysql".to_string(),
        table_name: "address".to_string(),
        insert_into_many: false,
    };
    let written = generate_data(&mut rel, &mut docs, &req, &lists).unwrap();
    assert_eq!(written, vec![]);
    assert_eq!(rel.fetch_all(RecordKind::Address).unwrap(), vec![]);
}

#[test]
fn duplicate_free_kinds_keep_duplicates() {
    // Shapes without a natural key tolerate exact duplicates, as a
    // keyless table does under a duplicate-tolerant insert.
    let one = wrap_technologies_sample(1);
    let mut rel = RelationalStore::new();
    rel.insert_batch(&one).unwrap();
    rel.insert_batch(&one).unwrap();
    assert_eq!(rel.fetch_all(RecordKind::Technology).unwrap().len(), 2);
}

#[test]
fn client_rows_travel_as_cells() {
    let rec = TableType::Client(Client {
        first_name: "Jan".to_string(),
        last_name: "Nowak".to_string(),
        email: "jan.nowak@example.com".to_string(),
        phone_number: "+48 6123456789".to_string(),
    });
    let row = rec.get_params();
    assert_eq!(row.len(), 4);
    assert_eq!(row[3], Cell::S("+48 6123456789".to_string()));
}

#[test]
fn malformed_batch_is_write_failure_and_commits_nothing() {
    let bad = TableType::Contract(seeder::record::Contract {
        type_of_contract: "B2B".to_string(),
        start_date: seeder::date::Date { year: 2021, month: 2, day: 30 },
        end_date: seeder::date::Date { year: 2022, month: 1, day: 1 },
        salary: 5000,
    });
    let good = wrap_technologies_sample(1);
    let batch = vec![good[0].clone(), bad];
    let mut rel = RelationalStore::new();
    assert_eq!(rel.insert_batch(&batch), Err(Error::WriteFailure));
    assert_eq!(
        rel.fetch_all(RecordKind::Technology).unwrap(),
        vec![],
        "a failing transaction commits nothing, not even the valid records"
    );
    let mut docs = DocumentStore::new();
    assert_eq!(docs.insert_batch(&batch), Err(Error::WriteFailure));
    assert_eq!(docs.fetch_all(RecordKind::Technology), vec![]);
}

#[test]
fn malformed_staff_batch_is_write_failure() {
    let bad = seeder::record::Staff {
        name: "Anna".to_string(),
        department: "IT".to_string(),
        salary: 10000,
        phone: "+48 6123456789".to_string(),
        hire_date: seeder::date::Date { year: 2019, month: 13, day: 1 },
    };
    let mut rel = RelationalStore::new();
    assert_eq!(rel.insert_staff_batch(&vec![bad]), Err(Error::WriteFailure));
    assert_eq!(rel.fetch_all_staff().unwrap(), vec![]);
}

#[test]
fn repeated_key_in_one_batch_keeps_first_record() {
    let a = Client {
        first_name: "Jan".to_string(),
        last_name: "Nowak".to_string(),
        email: "jan.nowak@example.com".to_string(),
        phone_number: "+48 6123456789".to_string(),
    };
    let mut b = a.clone();
    b.first_name = "Adam".to_string();
    b.email = "adam.nowak@example.com".to_string();
    let batch = vec![TableType::Client(a.clone()), TableType::Client(b)];
    let mut rel = RelationalStore::new();
    rel.insert_batch(&batch).unwrap();
    assert_eq!(
        rel.fetch_all(RecordKind::Client).unwrap(),
        vec![TableType::Client(a.clone())],
        "a repeated contact number keeps the first record and drops the later one"
    );
    let mut docs = DocumentStore::new();
    docs.insert_batch(&batch).unwrap();
    assert_eq!(docs.fetch_all(RecordKind::Client), vec![TableType::Client(a)]);
}

#[test]
fn generate_through_dispatch_mysql_single_kind() {
    let lists = word_lists();
    let mut rel = RelationalStore::new();
    let mut docs = DocumentStore::new();
    let req = GenerateRequest {
        count: 7,
        db_type: "mysql".to_string(),
        table_name: "technology".to_string(),
        insert_into_many: false,
    };
    // A shape without a bounded unique-value draw is owed success.
    let written = generate_data(&mut rel, &mut docs, &req, &lists).unwrap();
    assert_eq!(written.len(), 7);
    assert_eq!(rel.fetch_all(RecordKind::Technology).unwrap().len(), 7);
}
