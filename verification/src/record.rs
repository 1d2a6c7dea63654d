//! The polymorphic record model: a closed set of entity shapes, a tag type
//! naming each shape, and the mathematical views the contracts speak of.
use vstd::prelude::*;

use crate::date::Date;

verus! {

/// A postal address.
#[derive(Debug, Clone, PartialEq)]
pub struct Address {
    pub city: String,
    pub street: String,
    pub street_number: String,
    pub postal_code: String,
}

/// The view of an `Address`: its fields as character sequences.
pub struct AddressV {
    pub city: Seq<char>,
    pub street: Seq<char>,
    pub street_number: Seq<char>,
    pub postal_code: Seq<char>,
}

impl View for Address {
    type V = AddressV;

    open spec fn view(&self) -> AddressV {
        AddressV {
            city: self.city@,
            street: self.street@,
            street_number: self.street_number@,
            postal_code: self.postal_code@,
        }
    }
}

/// A client with contact data.
#[derive(Debug, Clone, PartialEq)]
pub struct Client {
    pub first_name: String,
    pub last_name: String,
    pub email: String,
    pub phone_number: String,
}

/// The view of a `Client`.
pub struct ClientV {
    pub first_name: Seq<char>,
    pub last_name: Seq<char>,
    pub email: Seq<char>,
    pub phone_number: Seq<char>,
}

impl View for Client {
    type V = ClientV;

    open spec fn view(&self) -> ClientV {
        ClientV {
            first_name: self.first_name@,
            last_name: self.last_name@,
            email: self.email@,
            phone_number: self.phone_number@,
        }
    }
}

/// An employment contract.
#[derive(Debug, Clone, PartialEq)]
pub struct Contract {
    pub type_of_contract: String,
    pub start_date: Date,
    pub end_date: Date,
    pub salary: i32,
}

/// The view of a `Contract`.
pub struct ContractV {
    pub type_of_contract: Seq<char>,
    pub start_date: Date,
    pub end_date: Date,
    pub salary: i32,
}

impl View for Contract {
    type V = ContractV;

    open spec fn view(&self) -> ContractV {
        ContractV {
            type_of_contract: self.type_of_contract@,
            start_date: self.start_date,
            end_date: self.end_date,
            salary: self.salary,
        }
    }
}

/// An employee with contact data, position and contract date.
#[derive(Debug, Clone, PartialEq)]
pub struct Employee {
    pub first_name: String,
    pub last_name: String,
    pub email: String,
    pub phone_number: String,
    pub position: String,
    pub contract_date: Date,
}

/// The view of an `Employee`.
pub struct EmployeeV {
    pub first_name: Seq<char>,
    pub last_name: Seq<char>,
    pub email: Seq<char>,
    pub phone_number: Seq<char>,
    pub position: Seq<char>,
    pub contract_date: Date,
}

impl View for Employee {
    type V = EmployeeV;

    open spec fn view(&self) -> EmployeeV {
        EmployeeV {
            first_name: self.first_name@,
            last_name: self.last_name@,
            email: self.email@,
            phone_number: self.phone_number@,
            position: self.position@,
            contract_date: self.contract_date,
        }
    }
}

/// A payment. The amount is held in cents, so that the engine's values are
/// exact integers.
#[derive(Debug, Clone, PartialEq)]
pub struct Payment {
    pub amount_cents: u32,
    pub payment_due_date: Date,
    pub method: String,
}

/// The view of a `Payment`.
pub struct PaymentV {
    pub amount_cents: u32,
    pub payment_due_date: Date,
    pub method: Seq<char>,
}

impl View for Payment {
    type V = PaymentV;

    open spec fn view(&self) -> PaymentV {
        PaymentV {
            amount_cents: self.amount_cents,
            payment_due_date: self.payment_due_date,
            method: self.method@,
        }
    }
}

/// A project with a status and a date range.
#[derive(Debug, Clone, PartialEq)]
pub struct Project {
    pub name: String,
    pub description: String,
    pub start_date: Date,
    pub end_date: Date,
    pub status: String,
}

/// The view of a `Project`.
pub struct ProjectV {
    pub name: Seq<char>,
    pub description: Seq<char>,
    pub start_date: Date,
    pub end_date: Date,
    pub status: Seq<char>,
}

impl View for Project {
    type V = ProjectV;

    open spec fn view(&self) -> ProjectV {
        ProjectV {
            name: self.name@,
            description: self.description@,
            start_date: self.start_date,
            end_date: self.end_date,
            status: self.status@,
        }
    }
}

/// A task with a status and a date range.
#[derive(Debug, Clone, PartialEq)]
pub struct Task {
    pub name: String,
    pub description: String,
    pub start_date: Date,
    pub end_date: Date,
    pub status: String,
}

/// The view of a `Task`.
pub struct TaskV {
    pub name: Seq<char>,
    pub description: Seq<char>,
    pub start_date: Date,
    pub end_date: Date,
    pub status: Seq<char>,
}

impl View for Task {
    type V = TaskV;

    open spec fn view(&self) -> TaskV {
        TaskV {
            name: self.name@,
            description: self.description@,
            start_date: self.start_date,
            end_date: self.end_date,
            status: self.status@,
        }
    }
}

/// A technology entry. The fields are set only through `new`, which keeps
/// the generator's pairing of a name with its own description.
#[derive(Debug, Clone, PartialEq)]
pub struct Technology {
    name: String,
    description: String,
}

/// The view of a `Technology`.
pub struct TechnologyV {
    pub name: Seq<char>,
    pub description: Seq<char>,
}

impl View for Technology {
    type V = TechnologyV;

    closed spec fn view(&self) -> TechnologyV {
        TechnologyV { name: self.name@, description: self.description@ }
    }
}

impl Technology {
    /// Builds an entry from a name and a description.
    pub fn new(name: String, description: String) -> (r: Technology)
        ensures
            r@.name == name@,
            r@.description == description@,
    {
        Technology { name, description }
    }

    /// The entry's name.
    pub fn name(&self) -> (r: &String)
        ensures
            r@ == self@.name,
    {
        &self.name
    }

    /// The entry's description.
    pub fn description(&self) -> (r: &String)
        ensures
            r@ == self@.description,
    {
        &self.description
    }
}

/// A staff member, the simpler shape kept from an earlier revision of the
/// service. It has its own table and its own write path.
#[derive(Debug, Clone, PartialEq)]
pub struct Staff {
    pub name: String,
    pub department: String,
    pub salary: i32,
    pub phone: String,
    pub hire_date: Date,
}

/// The view of a `Staff` member.
pub struct StaffV {
    pub name: Seq<char>,
    pub department: Seq<char>,
    pub salary: i32,
    pub phone: Seq<char>,
    pub hire_date: Date,
}

impl View for Staff {
    type V = StaffV;

    open spec fn view(&self) -> StaffV {
        StaffV {
            name: self.name@,
            department: self.department@,
            salary: self.salary,
            phone: self.phone@,
            hire_date: self.hire_date,
        }
    }
}

/// The tag naming one of the eight entity shapes. It doubles as the
/// relational table name, the document collection name and the dispatch
/// key.
#[derive(Clone, Copy, Debug, PartialEq, Eq, Structural)]
pub enum RecordKind {
    Address,
    Client,
    Contract,
    Employee,
    Payment,
    Project,
    Task,
    Technology,
}

/// One record of any of the eight shapes.
#[derive(Debug, Clone, PartialEq)]
pub enum TableType {
    Technology(Technology),
    Task(Task),
    Project(Project),
    Payment(Payment),
    Employee(Employee),
    Contract(Contract),
    Client(Client),
    Address(Address),
}

/// The view of a `TableType`: the tagged view of its record.
pub enum TableTypeV {
    Technology(TechnologyV),
    Task(TaskV),
    Project(ProjectV),
    Payment(PaymentV),
    Employee(EmployeeV),
    Contract(ContractV),
    Client(ClientV),
    Address(AddressV),
}

impl View for TableType {
    type V = TableTypeV;

    open spec fn view(&self) -> TableTypeV {
        match self {
            TableType::Technology(t) => TableTypeV::Technology(t@),
            TableType::Task(t) => TableTypeV::Task(t@),
            TableType::Project(p) => TableTypeV::Project(p@),
            TableType::Payment(p) => TableTypeV::Payment(p@),
            TableType::Employee(e) => TableTypeV::Employee(e@),
            TableType::Contract(c) => TableTypeV::Contract(c@),
            TableType::Client(c) => TableTypeV::Client(c@),
            TableType::Address(a) => TableTypeV::Address(a@),
        }
    }
}

/// The shape a record view belongs to.
pub open spec fn kind_of(t: TableTypeV) -> RecordKind {
    match t {
        TableTypeV::Technology(_) => RecordKind::Technology,
        TableTypeV::Task(_) => RecordKind::Task,
        TableTypeV::Project(_) => RecordKind::Project,
        TableTypeV::Payment(_) => RecordKind::Payment,
        TableTypeV::Employee(_) => RecordKind::Employee,
        TableTypeV::Contract(_) => RecordKind::Contract,
        TableTypeV::Client(_) => RecordKind::Client,
        TableTypeV::Address(_) => RecordKind::Address,
    }
}

impl TableType {
    /// The shape this record belongs to.
    pub fn kind(&self) -> (r: RecordKind)
        ensures
            r == kind_of(self@),
    {
        match self {
            TableType::Technology(_) => RecordKind::Technology,
            TableType::Task(_) => RecordKind::Task,
            TableType::Project(_) => RecordKind::Project,
            TableType::Payment(_) => RecordKind::Payment,
            TableType::Employee(_) => RecordKind::Employee,
            TableType::Contract(_) => RecordKind::Contract,
            TableType::Client(_) => RecordKind::Client,
            TableType::Address(_) => RecordKind::Address,
        }
    }
}

/// Every date a record carries is a valid calendar date. Records built by
/// the generators satisfy this, and the backends only accept such records.
pub open spec fn record_inv(t: TableTypeV) -> bool {
    match t {
        TableTypeV::Technology(_) => true,
        TableTypeV::Task(v) => v.start_date.valid() && v.end_date.valid(),
        TableTypeV::Project(v) => v.start_date.valid() && v.end_date.valid(),
        TableTypeV::Payment(v) => v.payment_due_date.valid(),
        TableTypeV::Employee(v) => v.contract_date.valid(),
        TableTypeV::Contract(v) => v.start_date.valid() && v.end_date.valid(),
        TableTypeV::Client(_) => true,
        TableTypeV::Address(_) => true,
    }
}

impl TableType {
    /// Runtime check of `record_inv`.
    pub fn is_well_formed(&self) -> (r: bool)
        ensures
            r == record_inv(self@),
    {
        match self {
            TableType::Technology(_) => true,
            TableType::Task(v) => v.start_date.is_valid() && v.end_date.is_valid(),
            TableType::Project(v) => v.start_date.is_valid() && v.end_date.is_valid(),
            TableType::Payment(v) => v.payment_due_date.is_valid(),
            TableType::Employee(v) => v.contract_date.is_valid(),
            TableType::Contract(v) => v.start_date.is_valid() && v.end_date.is_valid(),
            TableType::Client(_) => true,
            TableType::Address(_) => true,
        }
    }
}

impl RecordKind {
    /// The relational table name and document collection name of the shape.
    pub fn table_name(&self) -> (r: &'static str)
        ensures
            r@ == spec_table_name(*self),
    {
        match self {
            RecordKind::Address => "address",
            RecordKind::Client => "client",
            RecordKind::Contract => "contract",
            RecordKind::Employee => "employee",
            RecordKind::Payment => "payment",
            RecordKind::Project => "project",
            RecordKind::Task => "task",
            RecordKind::Technology => "technology",
        }
    }

    /// The display name of the shape: the tag key a stored document nests
    /// its fields under.
    pub fn display_name(&self) -> (r: &'static str)
        ensures
            r@ == spec_display_name(*self),
    {
        match self {
            RecordKind::Address => "Address",
            RecordKind::Client => "Client",
            RecordKind::Contract => "Contract",
            RecordKind::Employee => "Employee",
            RecordKind::Payment => "Payment",
            RecordKind::Project => "Project",
            RecordKind::Task => "Task",
            RecordKind::Technology => "Technology",
        }
    }
}

/// The relational table name of a shape.
pub open spec fn spec_table_name(k: RecordKind) -> Seq<char> {
    match k {
        RecordKind::Address => "address"@,
        RecordKind::Client => "client"@,
        RecordKind::Contract => "contract"@,
        RecordKind::Employee => "employee"@,
        RecordKind::Payment => "payment"@,
        RecordKind::Project => "project"@,
        RecordKind::Task => "task"@,
        RecordKind::Technology => "technology"@,
    }
}

/// The document tag key of a shape.
pub open spec fn spec_display_name(k: RecordKind) -> Seq<char> {
    match k {
        RecordKind::Address => "Address"@,
        RecordKind::Client => "Client"@,
        RecordKind::Contract => "Contract"@,
        RecordKind::Employee => "Employee"@,
        RecordKind::Payment => "Payment"@,
        RecordKind::Project => "Project"@,
        RecordKind::Task => "Task"@,
        RecordKind::Technology => "Technology"@,
    }
}

/// All eight shapes, in the order the heterogeneous generate mode walks
/// them.
pub open spec fn spec_all_kinds() -> Seq<RecordKind> {
    seq![
        RecordKind::Employee,
        RecordKind::Client,
        RecordKind::Address,
        RecordKind::Contract,
        RecordKind::Payment,
        RecordKind::Project,
        RecordKind::Task,
        RecordKind::Technology,
    ]
}

/// Runtime companion of `spec_all_kinds`.
pub fn all_kinds() -> (r: Vec<RecordKind>)
    ensures
        r@ == spec_all_kinds(),
{
    let mut v: Vec<RecordKind> = Vec::new();
    v.push(RecordKind::Employee);
    v.push(RecordKind::Client);
    v.push(RecordKind::Address);
    v.push(RecordKind::Contract);
    v.push(RecordKind::Payment);
    v.push(RecordKind::Project);
    v.push(RecordKind::Task);
    v.push(RecordKind::Technology);
    proof {
        assert(v@ =~= spec_all_kinds());
    }
    v
}

} // verus!
