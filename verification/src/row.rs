//! The relational codec: records to and from backend rows, and the fixed
//! per-shape insert statement. A row is a list of typed cells, one per
//! column of the shape's table; dates travel as `YYYY-MM-DD` text.
use vstd::prelude::*;

use crate::date::{format_date, parse_date, spec_format_date, spec_parse_date, Date};
use crate::error::Error;
use crate::record::{
    kind_of, record_inv, Address, AddressV, Client, ClientV, Contract, ContractV, Employee,
    EmployeeV, Payment, PaymentV, Project, ProjectV, RecordKind, Staff, StaffV, TableType,
    TableTypeV, Task, TaskV, Technology, TechnologyV,
};

verus! {

/// One column value: text or a signed integer.
#[derive(Debug, Clone, PartialEq)]
pub enum Cell {
    S(String),
    I(i64),
}

/// The view of a `Cell`.
pub enum CellV {
    S(Seq<char>),
    I(int),
}

impl View for Cell {
    type V = CellV;

    open spec fn view(&self) -> CellV {
        match self {
            Cell::S(s) => CellV::S(s@),
            Cell::I(i) => CellV::I(*i as int),
        }
    }
}

/// The view of a whole row.
pub open spec fn row_v(r: Seq<Cell>) -> Seq<CellV> {
    r.map_values(|c: Cell| c@)
}

/// Whether two cells hold the same value.
pub fn cell_eq(a: &Cell, b: &Cell) -> (r: bool)
    ensures
        r == (a@ == b@),
{
    match (a, b) {
        (Cell::S(x), Cell::S(y)) => x.eq(y),
        (Cell::I(x), Cell::I(y)) => *x == *y,
        _ => false,
    }
}

/// The number of columns of a shape's table.
pub open spec fn kind_arity(k: RecordKind) -> int {
    match k {
        RecordKind::Address => 4,
        RecordKind::Client => 4,
        RecordKind::Contract => 4,
        RecordKind::Employee => 6,
        RecordKind::Payment => 3,
        RecordKind::Project => 5,
        RecordKind::Task => 5,
        RecordKind::Technology => 2,
    }
}

/// The row a record is written as: one cell per column, in the insert
/// statement's column order.
pub open spec fn spec_to_row(t: TableTypeV) -> Seq<CellV> {
    match t {
        TableTypeV::Technology(v) => seq![CellV::S(v.name), CellV::S(v.description)],
        TableTypeV::Task(v) => seq![
            CellV::S(v.name),
            CellV::S(v.description),
            CellV::S(spec_format_date(v.start_date)),
            CellV::S(spec_format_date(v.end_date)),
            CellV::S(v.status),
        ],
        TableTypeV::Project(v) => seq![
            CellV::S(v.name),
            CellV::S(v.description),
            CellV::S(spec_format_date(v.start_date)),
            CellV::S(spec_format_date(v.end_date)),
            CellV::S(v.status),
        ],
        TableTypeV::Payment(v) => seq![
            CellV::I(v.amount_cents as int),
            CellV::S(spec_format_date(v.payment_due_date)),
            CellV::S(v.method),
        ],
        TableTypeV::Employee(v) => seq![
            CellV::S(v.first_name),
            CellV::S(v.last_name),
            CellV::S(v.email),
            CellV::S(v.phone_number),
            CellV::S(v.position),
            CellV::S(spec_format_date(v.contract_date)),
        ],
        TableTypeV::Contract(v) => seq![
            CellV::S(v.type_of_contract),
            CellV::S(spec_format_date(v.start_date)),
            CellV::S(spec_format_date(v.end_date)),
            CellV::I(v.salary as int),
        ],
        TableTypeV::Client(v) => seq![
            CellV::S(v.first_name),
            CellV::S(v.last_name),
            CellV::S(v.email),
            CellV::S(v.phone_number),
        ],
        TableTypeV::Address(v) => seq![
            CellV::S(v.city),
            CellV::S(v.street),
            CellV::S(v.street_number),
            CellV::S(v.postal_code),
        ],
    }
}

/// The parameter list a record contributes to its shape's insert
/// statement.
pub trait GetParams: View<V = TableTypeV> {
    /// Encodes the record as one row.
    fn get_params(&self) -> (r: Vec<Cell>)
        requires
            record_inv(self@),
        ensures
            row_v(r@) == spec_to_row(self@),
    ;
}

impl GetParams for TableType {
    fn get_params(&self) -> (r: Vec<Cell>)
        ensures
            row_v(r@) == spec_to_row(self@),
    {
        let mut row: Vec<Cell> = Vec::new();
        match self {
            TableType::Technology(v) => {
                row.push(Cell::S(v.name().clone()));
                row.push(Cell::S(v.description().clone()));
            },
            TableType::Task(v) => {
                row.push(Cell::S(v.name.clone()));
                row.push(Cell::S(v.description.clone()));
                row.push(Cell::S(format_date(&v.start_date)));
                row.push(Cell::S(format_date(&v.end_date)));
                row.push(Cell::S(v.status.clone()));
            },
            TableType::Project(v) => {
                row.push(Cell::S(v.name.clone()));
                row.push(Cell::S(v.description.clone()));
                row.push(Cell::S(format_date(&v.start_date)));
                row.push(Cell::S(format_date(&v.end_date)));
                row.push(Cell::S(v.status.clone()));
            },
            TableType::Payment(v) => {
                row.push(Cell::I(v.amount_cents as i64));
                row.push(Cell::S(format_date(&v.payment_due_date)));
                row.push(Cell::S(v.method.clone()));
            },
            TableType::Employee(v) => {
                row.push(Cell::S(v.first_name.clone()));
                row.push(Cell::S(v.last_name.clone()));
                row.push(Cell::S(v.email.clone()));
                row.push(Cell::S(v.phone_number.clone()));
                row.push(Cell::S(v.position.clone()));
                row.push(Cell::S(format_date(&v.contract_date)));
            },
            TableType::Contract(v) => {
                row.push(Cell::S(v.type_of_contract.clone()));
                row.push(Cell::S(format_date(&v.start_date)));
                row.push(Cell::S(format_date(&v.end_date)));
                row.push(Cell::I(v.salary as i64));
            },
            TableType::Client(v) => {
                row.push(Cell::S(v.first_name.clone()));
                row.push(Cell::S(v.last_name.clone()));
                row.push(Cell::S(v.email.clone()));
                row.push(Cell::S(v.phone_number.clone()));
            },
            TableType::Address(v) => {
                row.push(Cell::S(v.city.clone()));
                row.push(Cell::S(v.street.clone()));
                row.push(Cell::S(v.street_number.clone()));
                row.push(Cell::S(v.postal_code.clone()));
            },
        }
        proof {
            assert(row_v(row@) =~= spec_to_row(self@));
        }
        row
    }
}

/// The text of a cell, or `None` for an integer cell.
pub open spec fn cell_s(c: CellV) -> Option<Seq<char>> {
    match c {
        CellV::S(s) => Some(s),
        CellV::I(_) => None,
    }
}

/// What reading one row of a shape's table yields. `Some` exactly on rows
/// with the shape's arity, the right cell types, dates in the fixed form
/// and integers within the field's machine range.
pub open spec fn spec_from_row(k: RecordKind, row: Seq<CellV>) -> Option<TableTypeV> {
    if row.len() != kind_arity(k) {
        None
    } else {
        match k {
            RecordKind::Technology => {
                if row[0] is S && row[1] is S {
                    Some(
                        TableTypeV::Technology(
                            TechnologyV { name: row[0]->S_0, description: row[1]->S_0 },
                        ),
                    )
                } else {
                    None
                }
            },
            RecordKind::Task => {
                if row[0] is S && row[1] is S && row[2] is S && row[3] is S && row[4] is S
                    && spec_parse_date(row[2]->S_0) is Some && spec_parse_date(row[3]->S_0)
                    is Some {
                    Some(
                        TableTypeV::Task(
                            TaskV {
                                name: row[0]->S_0,
                                description: row[1]->S_0,
                                start_date: spec_parse_date(row[2]->S_0)->Some_0,
                                end_date: spec_parse_date(row[3]->S_0)->Some_0,
                                status: row[4]->S_0,
                            },
                        ),
                    )
                } else {
                    None
                }
            },
            RecordKind::Project => {
                if row[0] is S && row[1] is S && row[2] is S && row[3] is S && row[4] is S
                    && spec_parse_date(row[2]->S_0) is Some && spec_parse_date(row[3]->S_0)
                    is Some {
                    Some(
                        TableTypeV::Project(
                            ProjectV {
                                name: row[0]->S_0,
                                description: row[1]->S_0,
                                start_date: spec_parse_date(row[2]->S_0)->Some_0,
                                end_date: spec_parse_date(row[3]->S_0)->Some_0,
                                status: row[4]->S_0,
                            },
                        ),
                    )
                } else {
                    None
                }
            },
            RecordKind::Payment => {
                if row[0] is I && 0 <= row[0]->I_0 <= u32::MAX && row[1] is S && row[2] is S
                    && spec_parse_date(row[1]->S_0) is Some {
                    Some(
                        TableTypeV::Payment(
                            PaymentV {
                                amount_cents: row[0]->I_0 as u32,
                                payment_due_date: spec_parse_date(row[1]->S_0)->Some_0,
                                method: row[2]->S_0,
                            },
                        ),
                    )
                } else {
                    None
                }
            },
            RecordKind::Employee => {
                if row[0] is S && row[1] is S && row[2] is S && row[3] is S && row[4] is S
                    && row[5] is S && spec_parse_date(row[5]->S_0) is Some {
                    Some(
                        TableTypeV::Employee(
                            EmployeeV {
                                first_name: row[0]->S_0,
                                last_name: row[1]->S_0,
                                email: row[2]->S_0,
                                phone_number: row[3]->S_0,
                                position: row[4]->S_0,
                                contract_date: spec_parse_date(row[5]->S_0)->Some_0,
                            },
                        ),
                    )
                } else {
                    None
                }
            },
            RecordKind::Contract => {
                if row[0] is S && row[1] is S && row[2] is S && row[3] is I && i32::MIN
                    <= row[3]->I_0 <= i32::MAX && spec_parse_date(row[1]->S_0) is Some
                    && spec_parse_date(row[2]->S_0) is Some {
                    Some(
                        TableTypeV::Contract(
                            ContractV {
                                type_of_contract: row[0]->S_0,
                                start_date: spec_parse_date(row[1]->S_0)->Some_0,
                                end_date: spec_parse_date(row[2]->S_0)->Some_0,
                                salary: row[3]->I_0 as i32,
                            },
                        ),
                    )
                } else {
                    None
                }
            },
            RecordKind::Client => {
                if row[0] is S && row[1] is S && row[2] is S && row[3] is S {
                    Some(
                        TableTypeV::Client(
                            ClientV {
                                first_name: row[0]->S_0,
                                last_name: row[1]->S_0,
                                email: row[2]->S_0,
                                phone_number: row[3]->S_0,
                            },
                        ),
                    )
                } else {
                    None
                }
            },
            RecordKind::Address => {
                if row[0] is S && row[1] is S && row[2] is S && row[3] is S {
                    Some(
                        TableTypeV::Address(
                            AddressV {
                                city: row[0]->S_0,
                                street: row[1]->S_0,
                                street_number: row[2]->S_0,
                                postal_code: row[3]->S_0,
                            },
                        ),
                    )
                } else {
                    None
                }
            },
        }
    }
}

/// Reads one stored row back as a record of the given shape. Fails with
/// `ParseFailure` exactly where `spec_from_row` yields nothing.
pub fn from_row(k: RecordKind, row: &Vec<Cell>) -> (r: Result<TableType, Error>)
    ensures
        match spec_from_row(k, row_v(row@)) {
            Some(v) => r is Ok && r->Ok_0@ == v,
            None => r == Err::<TableType, Error>(Error::ParseFailure),
        },
{
    let n = row.len();
    match k {
        RecordKind::Technology => {
            if n != 2 {
                return Err(Error::ParseFailure);
            }
            match (&row[0], &row[1]) {
                (Cell::S(name), Cell::S(description)) => Ok(
                    TableType::Technology(Technology::new(name.clone(), description.clone())),
                ),
                _ => Err(Error::ParseFailure),
            }
        },
        RecordKind::Task => {
            if n != 5 {
                return Err(Error::ParseFailure);
            }
            match (&row[0], &row[1], &row[2], &row[3], &row[4]) {
                (Cell::S(name), Cell::S(description), Cell::S(sd), Cell::S(ed), Cell::S(status)) => {
                    let start_date = match parse_date(sd.as_str()) {
                        Some(d) => d,
                        None => {
                            return Err(Error::ParseFailure);
                        },
                    };
                    let end_date = match parse_date(ed.as_str()) {
                        Some(d) => d,
                        None => {
                            return Err(Error::ParseFailure);
                        },
                    };
                    Ok(
                        TableType::Task(
                            Task {
                                name: name.clone(),
                                description: description.clone(),
                                start_date,
                                end_date,
                                status: status.clone(),
                            },
                        ),
                    )
                },
                _ => Err(Error::ParseFailure),
            }
        },
        RecordKind::Project => {
            if n != 5 {
                return Err(Error::ParseFailure);
            }
            match (&row[0], &row[1], &row[2], &row[3], &row[4]) {
                (Cell::S(name), Cell::S(description), Cell::S(sd), Cell::S(ed), Cell::S(status)) => {
                    let start_date = match parse_date(sd.as_str()) {
                        Some(d) => d,
                        None => {
                            return Err(Error::ParseFailure);
                        },
                    };
                    let end_date = match parse_date(ed.as_str()) {
                        Some(d) => d,
                        None => {
                            return Err(Error::ParseFailure);
                        },
                    };
                    Ok(
                        TableType::Project(
                            Project {
                                name: name.clone(),
                                description: description.clone(),
                                start_date,
                                end_date,
                                status: status.clone(),
                            },
                        ),
                    )
                },
                _ => Err(Error::ParseFailure),
            }
        },
        RecordKind::Payment => {
            if n != 3 {
                return Err(Error::ParseFailure);
            }
            match (&row[0], &row[1], &row[2]) {
                (Cell::I(amount), Cell::S(dd), Cell::S(method)) => {
                    if *amount < 0 || *amount > u32::MAX as i64 {
                        return Err(Error::ParseFailure);
                    }
                    let payment_due_date = match parse_date(dd.as_str()) {
                        Some(d) => d,
                        None => {
                            return Err(Error::ParseFailure);
                        },
                    };
                    Ok(
                        TableType::Payment(
                            Payment {
                                amount_cents: *amount as u32,
                                payment_due_date,
                                method: method.clone(),
                            },
                        ),
                    )
                },
                _ => Err(Error::ParseFailure),
            }
        },
        RecordKind::Employee => {
            if n != 6 {
                return Err(Error::ParseFailure);
            }
            match (&row[0], &row[1], &row[2], &row[3], &row[4], &row[5]) {
                (
                    Cell::S(first_name),
                    Cell::S(last_name),
                    Cell::S(email),
                    Cell::S(phone_number),
                    Cell::S(position),
                    Cell::S(cd),
                ) => {
                    let contract_date = match parse_date(cd.as_str()) {
                        Some(d) => d,
                        None => {
                            return Err(Error::ParseFailure);
                        },
                    };
                    Ok(
                        TableType::Employee(
                            Employee {
                                first_name: first_name.clone(),
                                last_name: last_name.clone(),
                                email: email.clone(),
                                phone_number: phone_number.clone(),
                                position: position.clone(),
                                contract_date,
                            },
                        ),
                    )
                },
                _ => Err(Error::ParseFailure),
            }
        },
        RecordKind::Contract => {
            if n != 4 {
                return Err(Error::ParseFailure);
            }
            match (&row[0], &row[1], &row[2], &row[3]) {
                (Cell::S(type_of_contract), Cell::S(sd), Cell::S(ed), Cell::I(salary)) => {
                    if *salary < i32::MIN as i64 || *salary > i32::MAX as i64 {
                        return Err(Error::ParseFailure);
                    }
                    let start_date = match parse_date(sd.as_str()) {
                        Some(d) => d,
                        None => {
                            return Err(Error::ParseFailure);
                        },
                    };
                    let end_date = match parse_date(ed.as_str()) {
                        Some(d) => d,
                        None => {
                            return Err(Error::ParseFailure);
                        },
                    };
                    Ok(
                        TableType::Contract(
                            Contract {
                                type_of_contract: type_of_contract.clone(),
                                start_date,
                                end_date,
                                salary: *salary as i32,
                            },
                        ),
                    )
                },
                _ => Err(Error::ParseFailure),
            }
        },
        RecordKind::Client => {
            if n != 4 {
                return Err(Error::ParseFailure);
            }
            match (&row[0], &row[1], &row[2], &row[3]) {
                (Cell::S(first_name), Cell::S(last_name), Cell::S(email), Cell::S(phone_number)) => Ok(
                    TableType::Client(
                        Client {
                            first_name: first_name.clone(),
                            last_name: last_name.clone(),
                            email: email.clone(),
                            phone_number: phone_number.clone(),
                        },
                    ),
                ),
                _ => Err(Error::ParseFailure),
            }
        },
        RecordKind::Address => {
            if n != 4 {
                return Err(Error::ParseFailure);
            }
            match (&row[0], &row[1], &row[2], &row[3]) {
                (Cell::S(city), Cell::S(street), Cell::S(street_number), Cell::S(postal_code)) => Ok(
                    TableType::Address(
                        Address {
                            city: city.clone(),
                            street: street.clone(),
                            street_number: street_number.clone(),
                            postal_code: postal_code.clone(),
                        },
                    ),
                ),
                _ => Err(Error::ParseFailure),
            }
        },
    }
}

/// Encoding a record and reading the row back returns the record
/// unchanged: the relational codec loses nothing on records the engine
/// accepts.
pub proof fn lemma_row_round_trip(t: TableTypeV)
    requires
        record_inv(t),
    ensures
        spec_from_row(kind_of(t), spec_to_row(t)) == Some(t),
{
    match t {
        TableTypeV::Technology(v) => {
            assert(spec_from_row(kind_of(t), spec_to_row(t)) == Some(t));
        },
        TableTypeV::Task(v) => {
            crate::date::lemma_date_round_trip(v.start_date);
            crate::date::lemma_date_round_trip(v.end_date);
            assert(spec_from_row(kind_of(t), spec_to_row(t)) == Some(t));
        },
        TableTypeV::Project(v) => {
            crate::date::lemma_date_round_trip(v.start_date);
            crate::date::lemma_date_round_trip(v.end_date);
            assert(spec_from_row(kind_of(t), spec_to_row(t)) == Some(t));
        },
        TableTypeV::Payment(v) => {
            crate::date::lemma_date_round_trip(v.payment_due_date);
            assert(spec_from_row(kind_of(t), spec_to_row(t)) == Some(t));
        },
        TableTypeV::Employee(v) => {
            crate::date::lemma_date_round_trip(v.contract_date);
            assert(spec_from_row(kind_of(t), spec_to_row(t)) == Some(t));
        },
        TableTypeV::Contract(v) => {
            crate::date::lemma_date_round_trip(v.start_date);
            crate::date::lemma_date_round_trip(v.end_date);
            assert(spec_from_row(kind_of(t), spec_to_row(t)) == Some(t));
        },
        TableTypeV::Client(v) => {
            assert(spec_from_row(kind_of(t), spec_to_row(t)) == Some(t));
        },
        TableTypeV::Address(v) => {
            assert(spec_from_row(kind_of(t), spec_to_row(t)) == Some(t));
        },
    }
}

/// The insert statement of a shape, with duplicate keys tolerated.
pub open spec fn spec_insert_statement(k: RecordKind) -> Seq<char> {
    match k {
        RecordKind::Address => "INSERT IGNORE INTO address (city, street, street_number, postal_code) VALUES (?, ?, ?, ?)"@,
        RecordKind::Client => "INSERT IGNORE INTO client (first_name, last_name, email, phone_number) VALUES (?, ?, ?, ?)"@,
        RecordKind::Contract => "INSERT IGNORE INTO contract (type_of_contract, start_date, end_date, salary) VALUES (?, ?, ?, ?)"@,
        RecordKind::Employee => "INSERT IGNORE INTO employee (first_name, last_name, email, phone_number, position, contract_date) VALUES (?, ?, ?, ?, ?, ?)"@,
        RecordKind::Payment => "INSERT IGNORE INTO payment (amount, payment_due_date, method) VALUES (?, ?, ?)"@,
        RecordKind::Project => "INSERT IGNORE INTO project (name, description, start_date, end_date, status) VALUES (?, ?, ?, ?, ?)"@,
        RecordKind::Task => "INSERT IGNORE INTO task (name, description, start_date, end_date, status) VALUES (?, ?, ?, ?, ?)"@,
        RecordKind::Technology => "INSERT IGNORE INTO technology (name, description) VALUES (?, ?)"@,
    }
}

/// The statement text a shape's batch is executed with.
pub fn insert_statement(k: RecordKind) -> (r: &'static str)
    ensures
        r@ == spec_insert_statement(k),
{
    match k {
        RecordKind::Address => "INSERT IGNORE INTO address (city, street, street_number, postal_code) VALUES (?, ?, ?, ?)",
        RecordKind::Client => "INSERT IGNORE INTO client (first_name, last_name, email, phone_number) VALUES (?, ?, ?, ?)",
        RecordKind::Contract => "INSERT IGNORE INTO contract (type_of_contract, start_date, end_date, salary) VALUES (?, ?, ?, ?)",
        RecordKind::Employee => "INSERT IGNORE INTO employee (first_name, last_name, email, phone_number, position, contract_date) VALUES (?, ?, ?, ?, ?, ?)",
        RecordKind::Payment => "INSERT IGNORE INTO payment (amount, payment_due_date, method) VALUES (?, ?, ?)",
        RecordKind::Project => "INSERT IGNORE INTO project (name, description, start_date, end_date, status) VALUES (?, ?, ?, ?, ?)",
        RecordKind::Task => "INSERT IGNORE INTO task (name, description, start_date, end_date, status) VALUES (?, ?, ?, ?, ?)",
        RecordKind::Technology => "INSERT IGNORE INTO technology (name, description) VALUES (?, ?)",
    }
}

/// The staff row: one cell per column of the staff table.
pub open spec fn spec_staff_to_row(v: StaffV) -> Seq<CellV> {
    seq![
        CellV::S(v.name),
        CellV::S(v.department),
        CellV::I(v.salary as int),
        CellV::S(v.phone),
        CellV::S(spec_format_date(v.hire_date)),
    ]
}

/// Encodes a staff member as one row of the staff table.
pub fn staff_to_row(s: &Staff) -> (r: Vec<Cell>)
    requires
        s@.hire_date.valid(),
    ensures
        row_v(r@) == spec_staff_to_row(s@),
{
    let mut row: Vec<Cell> = Vec::new();
    row.push(Cell::S(s.name.clone()));
    row.push(Cell::S(s.department.clone()));
    row.push(Cell::I(s.salary as i64));
    row.push(Cell::S(s.phone.clone()));
    row.push(Cell::S(format_date(&s.hire_date)));
    proof {
        assert(row_v(row@) =~= spec_staff_to_row(s@));
    }
    row
}

/// What reading one row of the staff table yields.
pub open spec fn spec_staff_from_row(row: Seq<CellV>) -> Option<StaffV> {
    if row.len() == 5 && row[0] is S && row[1] is S && row[2] is I && i32::MIN <= row[2]->I_0
        <= i32::MAX && row[3] is S && row[4] is S && spec_parse_date(row[4]->S_0) is Some {
        Some(
            StaffV {
                name: row[0]->S_0,
                department: row[1]->S_0,
                salary: row[2]->I_0 as i32,
                phone: row[3]->S_0,
                hire_date: spec_parse_date(row[4]->S_0)->Some_0,
            },
        )
    } else {
        None
    }
}

/// Reads one stored staff row back.
pub fn staff_from_row(row: &Vec<Cell>) -> (r: Result<Staff, Error>)
    ensures
        match spec_staff_from_row(row_v(row@)) {
            Some(v) => r is Ok && r->Ok_0@ == v,
            None => r == Err::<Staff, Error>(Error::ParseFailure),
        },
{
    if row.len() != 5 {
        return Err(Error::ParseFailure);
    }
    match (&row[0], &row[1], &row[2], &row[3], &row[4]) {
        (Cell::S(name), Cell::S(department), Cell::I(salary), Cell::S(phone), Cell::S(hd)) => {
            if *salary < i32::MIN as i64 || *salary > i32::MAX as i64 {
                return Err(Error::ParseFailure);
            }
            let hire_date = match parse_date(hd.as_str()) {
                Some(d) => d,
                None => {
                    return Err(Error::ParseFailure);
                },
            };
            Ok(
                Staff {
                    name: name.clone(),
                    department: department.clone(),
                    salary: *salary as i32,
                    phone: phone.clone(),
                    hire_date,
                },
            )
        },
        _ => Err(Error::ParseFailure),
    }
}

/// The staff codec loses nothing on staff rows with a valid hire date.
pub proof fn lemma_staff_round_trip(v: StaffV)
    requires
        v.hire_date.valid(),
    ensures
        spec_staff_from_row(spec_staff_to_row(v)) == Some(v),
{
    crate::date::lemma_date_round_trip(v.hire_date);
    assert(spec_staff_from_row(spec_staff_to_row(v)) == Some(v));
}

/// The staff insert statement, with duplicate keys tolerated.
pub fn staff_insert_statement() -> (r: &'static str)
    ensures
        r@ == "INSERT IGNORE INTO staff (name, department, salary, phone, hire_date) VALUES (?, ?, ?, ?, ?)"@,
{
    "INSERT IGNORE INTO staff (name, department, salary, phone, hire_date) VALUES (?, ?, ?, ?, ?)"
}

} // verus!
