//! The dispatch layer: resolves an entity-kind selector and a backend
//! selector to the right generator and adapter, produces batches, and
//! carries out the three operations — generate, clear, fetch — against
//! the backend models. Invalid selectors are rejected before any backend
//! is touched.
use vstd::prelude::*;

use crate::doc::{str_eq, DocumentStore};
use crate::error::Error;
use crate::gen::{
    gen_address_ok, gen_client_ok, gen_contract_ok, gen_employee_ok, gen_payment_ok,
    gen_project_ok, gen_staff_ok, gen_task_ok, is_canonical_tech, WordLists,
};
use crate::record::{
    kind_of, record_inv, spec_all_kinds, Address, Client, Contract, Employee, Payment, Project,
    RecordKind, Staff, TableType, TableTypeV, Task, Technology,
};
use crate::store::{batch_v, RelationalStore};

verus! {

/// The backend selector: the relational store or the document store.
#[derive(Clone, Copy, Debug, PartialEq, Eq, Structural)]
pub enum DbType {
    MySql,
    MongoDb,
}

/// Which backend a selector text names, if any.
pub open spec fn spec_db_type(s: Seq<char>) -> Option<DbType> {
    if s == "mysql"@ {
        Some(DbType::MySql)
    } else if s == "mongodb"@ {
        Some(DbType::MongoDb)
    } else {
        None
    }
}

/// Resolves a backend selector. Any text naming no backend — including a
/// backend the engine does not serve — is an `InvalidArgument`.
pub fn parse_db_type(s: &str) -> (r: Result<DbType, Error>)
    ensures
        match spec_db_type(s@) {
            Some(d) => r == Ok::<DbType, Error>(d),
            None => r == Err::<DbType, Error>(Error::InvalidArgument),
        },
{
    if str_eq(s, "mysql") {
        Ok(DbType::MySql)
    } else if str_eq(s, "mongodb") {
        Ok(DbType::MongoDb)
    } else {
        Err(Error::InvalidArgument)
    }
}

/// Which shape a table-name selector names, if any.
pub open spec fn spec_kind_for_name(s: Seq<char>) -> Option<RecordKind> {
    if s == "address"@ {
        Some(RecordKind::Address)
    } else if s == "client"@ {
        Some(RecordKind::Client)
    } else if s == "contract"@ {
        Some(RecordKind::Contract)
    } else if s == "employee"@ {
        Some(RecordKind::Employee)
    } else if s == "payment"@ {
        Some(RecordKind::Payment)
    } else if s == "project"@ {
        Some(RecordKind::Project)
    } else if s == "task"@ {
        Some(RecordKind::Task)
    } else if s == "technology"@ {
        Some(RecordKind::Technology)
    } else {
        None
    }
}

/// Resolves a table-name selector. Any text naming no known shape is an
/// `InvalidArgument`.
pub fn parse_table_name(s: &str) -> (r: Result<RecordKind, Error>)
    ensures
        match spec_kind_for_name(s@) {
            Some(k) => r == Ok::<RecordKind, Error>(k),
            None => r == Err::<RecordKind, Error>(Error::InvalidArgument),
        },
{
    if str_eq(s, "address") {
        Ok(RecordKind::Address)
    } else if str_eq(s, "client") {
        Ok(RecordKind::Client)
    } else if str_eq(s, "contract") {
        Ok(RecordKind::Contract)
    } else if str_eq(s, "employee") {
        Ok(RecordKind::Employee)
    } else if str_eq(s, "payment") {
        Ok(RecordKind::Payment)
    } else if str_eq(s, "project") {
        Ok(RecordKind::Project)
    } else if str_eq(s, "task") {
        Ok(RecordKind::Task)
    } else if str_eq(s, "technology") {
        Ok(RecordKind::Technology)
    } else {
        Err(Error::InvalidArgument)
    }
}

/// What every record a generator hands the adapters satisfies, by shape.
pub open spec fn gen_record_ok(
    t: TableTypeV,
    firsts: Seq<String>,
    lasts: Seq<String>,
    cities: Seq<String>,
    streets: Seq<String>,
) -> bool {
    match t {
        TableTypeV::Address(a) => gen_address_ok(a, cities, streets),
        TableTypeV::Client(c) => gen_client_ok(c, firsts, lasts),
        TableTypeV::Contract(c) => gen_contract_ok(c),
        TableTypeV::Employee(e) => gen_employee_ok(e, firsts, lasts),
        TableTypeV::Payment(p) => gen_payment_ok(p),
        TableTypeV::Project(p) => gen_project_ok(p),
        TableTypeV::Task(t) => gen_task_ok(t),
        TableTypeV::Technology(v) => is_canonical_tech(v.name, v.description),
    }
}

/// The natural key a record bears, if its shape has one.
pub open spec fn rec_key(t: TableTypeV) -> Option<Seq<char>> {
    match t {
        TableTypeV::Client(c) => Some(c.phone_number),
        TableTypeV::Employee(e) => Some(e.phone_number),
        _ => None,
    }
}

/// Key-bearing records of a batch carry pairwise distinct keys.
pub open spec fn keys_distinct(b: Seq<TableTypeV>) -> bool {
    forall|i: int, j: int|
        0 <= i < j < b.len() && (#[trigger] rec_key(b[i])) is Some ==> rec_key(b[i]) != #[trigger] rec_key(b[j])
}

fn wrap_addresses(mut v: Vec<Address>) -> (r: Vec<TableType>)
    ensures
        r@.len() == v@.len(),
        forall|i: int| 0 <= i < v@.len() ==> (#[trigger] r@[i])@ == TableTypeV::Address(v@[i]@),
{
    let ghost orig = v@;
    let mut out: Vec<TableType> = Vec::new();
    while v.len() > 0
        invariant
            out@.len() + v@.len() == orig.len(),
            v@ =~= orig.subrange(out@.len() as int, orig.len() as int),
            forall|i: int|
                0 <= i < out@.len() ==> (#[trigger] out@[i])@ == TableTypeV::Address(orig[i]@),
        decreases v@.len(),
    {
        let x = v.remove(0);
        proof {
            assert(x == orig[out@.len() as int]);
        }
        out.push(TableType::Address(x));
        proof {
            assert(v@ =~= orig.subrange(out@.len() as int, orig.len() as int));
        }
    }
    out
}

fn wrap_clients(mut v: Vec<Client>) -> (r: Vec<TableType>)
    ensures
        r@.len() == v@.len(),
        forall|i: int| 0 <= i < v@.len() ==> (#[trigger] r@[i])@ == TableTypeV::Client(v@[i]@),
{
    let ghost orig = v@;
    let mut out: Vec<TableType> = Vec::new();
    while v.len() > 0
        invariant
            out@.len() + v@.len() == orig.len(),
            v@ =~= orig.subrange(out@.len() as int, orig.len() as int),
            forall|i: int|
                0 <= i < out@.len() ==> (#[trigger] out@[i])@ == TableTypeV::Client(orig[i]@),
        decreases v@.len(),
    {
        let x = v.remove(0);
        proof {
            assert(x == orig[out@.len() as int]);
        }
        out.push(TableType::Client(x));
        proof {
            assert(v@ =~= orig.subrange(out@.len() as int, orig.len() as int));
        }
    }
    out
}

fn wrap_contracts(mut v: Vec<Contract>) -> (r: Vec<TableType>)
    ensures
        r@.len() == v@.len(),
        forall|i: int| 0 <= i < v@.len() ==> (#[trigger] r@[i])@ == TableTypeV::Contract(v@[i]@),
{
    let ghost orig = v@;
    let mut out: Vec<TableType> = Vec::new();
    while v.len() > 0
        invariant
            out@.len() + v@.len() == orig.len(),
            v@ =~= orig.subrange(out@.len() as int, orig.len() as int),
            forall|i: int|
                0 <= i < out@.len() ==> (#[trigger] out@[i])@ == TableTypeV::Contract(orig[i]@),
        decreases v@.len(),
    {
        let x = v.remove(0);
        proof {
            assert(x == orig[out@.len() as int]);
        }
        out.push(TableType::Contract(x));
        proof {
            assert(v@ =~= orig.subrange(out@.len() as int, orig.len() as int));
        }
    }
    out
}

fn wrap_employees(mut v: Vec<Employee>) -> (r: Vec<TableType>)
    ensures
        r@.len() == v@.len(),
        forall|i: int| 0 <= i < v@.len() ==> (#[trigger] r@[i])@ == TableTypeV::Employee(v@[i]@),
{
    let ghost orig = v@;
    let mut out: Vec<TableType> = Vec::new();
    while v.len() > 0
        invariant
            out@.len() + v@.len() == orig.len(),
            v@ =~= orig.subrange(out@.len() as int, orig.len() as int),
            forall|i: int|
                0 <= i < out@.len() ==> (#[trigger] out@[i])@ == TableTypeV::Employee(orig[i]@),
        decreases v@.len(),
    {
        let x = v.remove(0);
        proof {
            assert(x == orig[out@.len() as int]);
        }
        out.push(TableType::Employee(x));
        proof {
            assert(v@ =~= orig.subrange(out@.len() as int, orig.len() as int));
        }
    }
    out
}

fn wrap_payments(mut v: Vec<Payment>) -> (r: Vec<TableType>)
    ensures
        r@.len() == v@.len(),
        forall|i: int| 0 <= i < v@.len() ==> (#[trigger] r@[i])@ == TableTypeV::Payment(v@[i]@),
{
    let ghost orig = v@;
    let mut out: Vec<TableType> = Vec::new();
    while v.len() > 0
        invariant
            out@.len() + v@.len() == orig.len(),
            v@ =~= orig.subrange(out@.len() as int, orig.len() as int),
            forall|i: int|
                0 <= i < out@.len() ==> (#[trigger] out@[i])@ == TableTypeV::Payment(orig[i]@),
        decreases v@.len(),
    {
        let x = v.remove(0);
        proof {
            assert(x == orig[out@.len() as int]);
        }
        out.push(TableType::Payment(x));
        proof {
            assert(v@ =~= orig.subrange(out@.len() as int, orig.len() as int));
        }
    }
    out
}

fn wrap_projects(mut v: Vec<Project>) -> (r: Vec<TableType>)
    ensures
        r@.len() == v@.len(),
        forall|i: int| 0 <= i < v@.len() ==> (#[trigger] r@[i])@ == TableTypeV::Project(v@[i]@),
{
    let ghost orig = v@;
    let mut out: Vec<TableType> = Vec::new();
    while v.len() > 0
        invariant
            out@.len() + v@.len() == orig.len(),
            v@ =~= orig.subrange(out@.len() as int, orig.len() as int),
            forall|i: int|
                0 <= i < out@.len() ==> (#[trigger] out@[i])@ == TableTypeV::Project(orig[i]@),
        decreases v@.len(),
    {
        let x = v.remove(0);
        proof {
            assert(x == orig[out@.len() as int]);
        }
        out.push(TableType::Project(x));
        proof {
            assert(v@ =~= orig.subrange(out@.len() as int, orig.len() as int));
        }
    }
    out
}

fn wrap_tasks(mut v: Vec<Task>) -> (r: Vec<TableType>)
    ensures
        r@.len() == v@.len(),
        forall|i: int| 0 <= i < v@.len() ==> (#[trigger] r@[i])@ == TableTypeV::Task(v@[i]@),
{
    let ghost orig = v@;
    let mut out: Vec<TableType> = Vec::new();
    while v.len() > 0
        invariant
            out@.len() + v@.len() == orig.len(),
            v@ =~= orig.subrange(out@.len() as int, orig.len() as int),
            forall|i: int|
                0 <= i < out@.len() ==> (#[trigger] out@[i])@ == TableTypeV::Task(orig[i]@),
        decreases v@.len(),
    {
        let x = v.remove(0);
        proof {
            assert(x == orig[out@.len() as int]);
        }
        out.push(TableType::Task(x));
        proof {
            assert(v@ =~= orig.subrange(out@.len() as int, orig.len() as int));
        }
    }
    out
}

fn wrap_technologies(mut v: Vec<Technology>) -> (r: Vec<TableType>)
    ensures
        r@.len() == v@.len(),
        forall|i: int| 0 <= i < v@.len() ==> (#[trigger] r@[i])@ == TableTypeV::Technology(v@[i]@),
{
    let ghost orig = v@;
    let mut out: Vec<TableType> = Vec::new();
    while v.len() > 0
        invariant
            out@.len() + v@.len() == orig.len(),
            v@ =~= orig.subrange(out@.len() as int, orig.len() as int),
            forall|i: int|
                0 <= i < out@.len() ==> (#[trigger] out@[i])@ == TableTypeV::Technology(orig[i]@),
        decreases v@.len(),
    {
        let x = v.remove(0);
        proof {
            assert(x == orig[out@.len() as int]);
        }
        out.push(TableType::Technology(x));
        proof {
            assert(v@ =~= orig.subrange(out@.len() as int, orig.len() as int));
        }
    }
    out
}

/// Produces one batch of exactly `count` records of the given shape: the
/// generate operation's batch. Fails only with `ResourceExhausted`, when
/// a bounded retry for a fresh unique value ran out of attempts; only the
/// client and employee shapes run such a retry, so every other shape, and
/// any batch of at most one record, is owed success.
pub fn generate_for_kind(k: RecordKind, count: usize, lists: &WordLists) -> (r: Result<
    Vec<TableType>,
    Error,
>)
    ensures
        match r {
            Ok(b) => {
                &&& b@.len() == count
                &&& forall|i: int| 0 <= i < count ==> kind_of(#[trigger] b@[i]@) == k
                &&& forall|i: int| 0 <= i < count ==> record_inv(#[trigger] b@[i]@)
                &&& forall|i: int|
                    0 <= i < count ==> gen_record_ok(
                        #[trigger] b@[i]@,
                        lists.first_names@,
                        lists.last_names@,
                        lists.cities@,
                        lists.streets@,
                    )
                &&& keys_distinct(batch_v(b@))
            },
            Err(e) => e == Error::ResourceExhausted,
        },
        (k != RecordKind::Client && k != RecordKind::Employee) ==> r is Ok,
        count <= 1 ==> r is Ok,
{
    match k {
        RecordKind::Address => {
            let batch = Address::generate_batch(count, &lists.cities, &lists.streets);
            Ok(wrap_addresses(batch))
        },
        RecordKind::Client => {
            let batch = Client::generate_batch(count, &lists.first_names, &lists.last_names)?;
            Ok(wrap_clients(batch))
        },
        RecordKind::Contract => {
            let batch = Contract::generate_batch(count);
            Ok(wrap_contracts(batch))
        },
        RecordKind::Employee => {
            let batch = Employee::generate_batch(count, &lists.first_names, &lists.last_names)?;
            Ok(wrap_employees(batch))
        },
        RecordKind::Payment => {
            let batch = Payment::generate_batch(count);
            Ok(wrap_payments(batch))
        },
        RecordKind::Project => {
            let batch = Project::generate_batch(count);
            Ok(wrap_projects(batch))
        },
        RecordKind::Task => {
            let batch = Task::generate_batch(count);
            Ok(wrap_tasks(batch))
        },
        RecordKind::Technology => {
            let batch = Technology::generate_batch(count);
            Ok(wrap_technologies(batch))
        },
    }
}


/// How many records of a shape a batch holds.
pub open spec fn count_of_kind(b: Seq<TableTypeV>, k: RecordKind) -> int
    decreases b.len(),
{
    if b.len() == 0 {
        0
    } else {
        count_of_kind(b.drop_last(), k) + if kind_of(b.last()) == k {
            1int
        } else {
            0int
        }
    }
}

/// Counting distributes over concatenation.
pub proof fn lemma_count_append(a: Seq<TableTypeV>, b: Seq<TableTypeV>, k: RecordKind)
    ensures
        count_of_kind(a + b, k) == count_of_kind(a, k) + count_of_kind(b, k),
    decreases b.len(),
{
    if b.len() == 0 {
        assert(a + b =~= a);
    } else {
        assert((a + b).drop_last() =~= a + b.drop_last());
        assert((a + b).last() == b.last());
        lemma_count_append(a, b.drop_last(), k);
    }
}

/// A homogeneous batch counts its whole length for its shape and nothing
/// for any other.
pub proof fn lemma_count_homogeneous(b: Seq<TableTypeV>, k0: RecordKind, k: RecordKind)
    requires
        forall|i: int| 0 <= i < b.len() ==> kind_of(#[trigger] b[i]) == k0,
    ensures
        count_of_kind(b, k) == if k == k0 {
            b.len() as int
        } else {
            0int
        },
    decreases b.len(),
{
    if b.len() > 0 {
        lemma_count_homogeneous(b.drop_last(), k0, k);
    }
}

/// Moves every record of `src` onto the end of `dst`, in order.
fn append_all(dst: &mut Vec<TableType>, mut src: Vec<TableType>)
    ensures
        final(dst)@ == old(dst)@ + src@,
{
    let ghost orig_dst = old(dst)@;
    let ghost orig_src = src@;
    while src.len() > 0
        invariant
            dst@.len() == orig_dst.len() + orig_src.len() - src@.len(),
            src@ =~= orig_src.subrange(
                orig_src.len() - src@.len(),
                orig_src.len() as int,
            ),
            dst@ =~= orig_dst + orig_src.subrange(0, orig_src.len() - src@.len()),
        decreases src@.len(),
    {
        let x = src.remove(0);
        dst.push(x);
        proof {
            assert(src@ =~= orig_src.subrange(orig_src.len() - src@.len(), orig_src.len() as int));
            assert(dst@ =~= orig_dst + orig_src.subrange(0, orig_src.len() - src@.len()));
        }
    }
    proof {
        assert(dst@ =~= orig_dst + orig_src);
    }
}

/// Produces the heterogeneous batch of the `insert_into_many` mode: one
/// batch of exactly `count` records per known shape, all in one list,
/// grouped shape after shape in the order `spec_all_kinds` gives. Fails
/// only with `ResourceExhausted`, and never for a count of at most one.
pub fn generate_all(count: usize, lists: &WordLists) -> (r: Result<Vec<TableType>, Error>)
    requires
        count <= usize::MAX / 8,
    ensures
        match r {
            Ok(b) => {
                &&& b@.len() == 8 * count
                &&& forall|i: int| 0 <= i < b@.len() ==> record_inv(#[trigger] b@[i]@)
                &&& forall|i: int|
                    0 <= i < b@.len() ==> gen_record_ok(
                        #[trigger] b@[i]@,
                        lists.first_names@,
                        lists.last_names@,
                        lists.cities@,
                        lists.streets@,
                    )
                &&& forall|k: RecordKind| count_of_kind(batch_v(b@), k) == count as int
                &&& forall|i: int|
                    0 <= i < b@.len() ==> kind_of((#[trigger] b@[i])@) == spec_all_kinds()[i / (
                    count as int)]
            },
            Err(e) => e == Error::ResourceExhausted,
        },
        count <= 1 ==> r is Ok,
{
    let mut out: Vec<TableType> = Vec::new();
    proof {
        assert(batch_v(out@) =~= Seq::<TableTypeV>::empty());
    }
    let b0 = generate_for_kind(RecordKind::Employee, count, lists)?;
    extend_counted(&mut out, b0, RecordKind::Employee, Ghost(lists));
    let ghost s1 = out@;
    let b1 = generate_for_kind(RecordKind::Client, count, lists)?;
    extend_counted(&mut out, b1, RecordKind::Client, Ghost(lists));
    let ghost s2 = out@;
    let b2 = generate_for_kind(RecordKind::Address, count, lists)?;
    extend_counted(&mut out, b2, RecordKind::Address, Ghost(lists));
    let ghost s3 = out@;
    let b3 = generate_for_kind(RecordKind::Contract, count, lists)?;
    extend_counted(&mut out, b3, RecordKind::Contract, Ghost(lists));
    let ghost s4 = out@;
    let b4 = generate_for_kind(RecordKind::Payment, count, lists)?;
    extend_counted(&mut out, b4, RecordKind::Payment, Ghost(lists));
    let ghost s5 = out@;
    let b5 = generate_for_kind(RecordKind::Project, count, lists)?;
    extend_counted(&mut out, b5, RecordKind::Project, Ghost(lists));
    let ghost s6 = out@;
    let b6 = generate_for_kind(RecordKind::Task, count, lists)?;
    extend_counted(&mut out, b6, RecordKind::Task, Ghost(lists));
    let ghost s7 = out@;
    let b7 = generate_for_kind(RecordKind::Technology, count, lists)?;
    extend_counted(&mut out, b7, RecordKind::Technology, Ghost(lists));
    let ghost s8 = out@;
    proof {
        assert forall|k: RecordKind| count_of_kind(batch_v(out@), k) == count as int by {
            match k {
                RecordKind::Address => {},
                RecordKind::Client => {},
                RecordKind::Contract => {},
                RecordKind::Employee => {},
                RecordKind::Payment => {},
                RecordKind::Project => {},
                RecordKind::Task => {},
                RecordKind::Technology => {},
            }
        }
        let c = count as int;
        assert(s1.len() == c && s2.len() == 2 * c && s3.len() == 3 * c && s4.len() == 4 * c
            && s5.len() == 5 * c && s6.len() == 6 * c && s7.len() == 7 * c && s8.len() == 8 * c);
        assert forall|i: int|
            0 <= i < out@.len() implies kind_of((#[trigger] out@[i])@) == spec_all_kinds()[i / c] by {
            if i < c {
                vstd::arithmetic::div_mod::lemma_fundamental_div_mod_converse(i, c, 0, i);
                assert(out@[i] == s1[i]);
                assert(kind_of(s1[i]@) == RecordKind::Employee);
                assert(spec_all_kinds()[0] == RecordKind::Employee);
            } else if i < 2 * c {
                vstd::arithmetic::div_mod::lemma_fundamental_div_mod_converse(i, c, 1, i - c);
                assert(out@[i] == s2[i]);
                assert(kind_of(s2[i]@) == RecordKind::Client);
                assert(spec_all_kinds()[1] == RecordKind::Client);
            } else if i < 3 * c {
                vstd::arithmetic::div_mod::lemma_fundamental_div_mod_converse(i, c, 2, i - 2 * c);
                assert(out@[i] == s3[i]);
                assert(kind_of(s3[i]@) == RecordKind::Address);
                assert(spec_all_kinds()[2] == RecordKind::Address);
            } else if i < 4 * c {
                vstd::arithmetic::div_mod::lemma_fundamental_div_mod_converse(i, c, 3, i - 3 * c);
                assert(out@[i] == s4[i]);
                assert(kind_of(s4[i]@) == RecordKind::Contract);
                assert(spec_all_kinds()[3] == RecordKind::Contract);
            } else if i < 5 * c {
                vstd::arithmetic::div_mod::lemma_fundamental_div_mod_converse(i, c, 4, i - 4 * c);
                assert(out@[i] == s5[i]);
                assert(kind_of(s5[i]@) == RecordKind::Payment);
                assert(spec_all_kinds()[4] == RecordKind::Payment);
            } else if i < 6 * c {
                vstd::arithmetic::div_mod::lemma_fundamental_div_mod_converse(i, c, 5, i - 5 * c);
                assert(out@[i] == s6[i]);
                assert(kind_of(s6[i]@) == RecordKind::Project);
                assert(spec_all_kinds()[5] == RecordKind::Project);
            } else if i < 7 * c {
                vstd::arithmetic::div_mod::lemma_fundamental_div_mod_converse(i, c, 6, i - 6 * c);
                assert(out@[i] == s7[i]);
                assert(kind_of(s7[i]@) == RecordKind::Task);
                assert(spec_all_kinds()[6] == RecordKind::Task);
            } else {
                vstd::arithmetic::div_mod::lemma_fundamental_div_mod_converse(i, c, 7, i - 7 * c);
                assert(kind_of(s8[i]@) == RecordKind::Technology);
                assert(spec_all_kinds()[7] == RecordKind::Technology);
            }
        }
    }
    Ok(out)
}

/// Appends one homogeneous segment to the heterogeneous batch being
/// built, carrying the per-shape counts forward.
fn extend_counted(
    out: &mut Vec<TableType>,
    seg: Vec<TableType>,
    k0: RecordKind,
    lists: Ghost<&WordLists>,
)
    requires
        forall|i: int| 0 <= i < seg@.len() ==> kind_of(#[trigger] seg@[i]@) == k0,
        forall|i: int| 0 <= i < seg@.len() ==> record_inv(#[trigger] seg@[i]@),
        forall|i: int|
            0 <= i < seg@.len() ==> gen_record_ok(
                #[trigger] seg@[i]@,
                lists@.first_names@,
                lists@.last_names@,
                lists@.cities@,
                lists@.streets@,
            ),
        forall|i: int| 0 <= i < old(out)@.len() ==> record_inv(#[trigger] old(out)@[i]@),
        forall|i: int|
            0 <= i < old(out)@.len() ==> gen_record_ok(
                #[trigger] old(out)@[i]@,
                lists@.first_names@,
                lists@.last_names@,
                lists@.cities@,
                lists@.streets@,
            ),
    ensures
        final(out)@.len() == old(out)@.len() + seg@.len(),
        forall|i: int| 0 <= i < final(out)@.len() ==> record_inv(#[trigger] final(out)@[i]@),
        forall|i: int|
            0 <= i < final(out)@.len() ==> gen_record_ok(
                #[trigger] final(out)@[i]@,
                lists@.first_names@,
                lists@.last_names@,
                lists@.cities@,
                lists@.streets@,
            ),
        forall|k: RecordKind|
            count_of_kind(batch_v(final(out)@), k) == count_of_kind(batch_v(old(out)@), k) + if k
                == k0 {
                seg@.len() as int
            } else {
                0int
            },
        final(out)@ == old(out)@ + seg@,
        forall|i: int|
            old(out)@.len() <= i < final(out)@.len() ==> kind_of(
                (#[trigger] final(out)@[i])@,
            ) == k0,
{
    let ghost seg_view = seg@;
    append_all(out, seg);
    proof {
        assert(batch_v(out@) =~= batch_v(old(out)@) + batch_v(seg_view));
        assert forall|k: RecordKind|
            count_of_kind(batch_v(out@), k) == count_of_kind(batch_v(old(out)@), k) + if k == k0 {
                seg_view.len() as int
            } else {
                0int
            } by {
            lemma_count_append(batch_v(old(out)@), batch_v(seg_view), k);
            lemma_count_homogeneous(batch_v(seg_view), k0, k);
        }
    }
}


/// The body of a generate request: how many records, which backend,
/// which shape, and whether to seed every shape at once.
#[derive(Debug, Clone)]
pub struct GenerateRequest {
    pub count: usize,
    pub db_type: String,
    pub table_name: String,
    pub insert_into_many: bool,
}

/// The body of a clear request.
#[derive(Debug, Clone)]
pub struct ClearRequest {
    pub db_type: String,
    pub table_name: String,
}

/// The body of a fetch request.
#[derive(Debug, Clone)]
pub struct GetRequest {
    pub db_type: String,
    pub table_name: String,
}

/// The generate operation: resolves the selectors, produces the batch —
/// one shape's batch, or one batch per known shape in the
/// `insert_into_many` mode — and writes it through the selected backend
/// adapter in a single call. Returns the generated records.
///
/// An unknown backend or table selector is rejected with
/// `InvalidArgument` before any store is touched; with valid selectors,
/// success is owed unless the resolved work runs a bounded unique-value
/// retry that can exhaust. A dual-backend write is not offered: a caller
/// wanting both backends issues two calls and composes the two outcomes
/// itself.
pub fn generate_data(
    rel: &mut RelationalStore,
    docs: &mut DocumentStore,
    req: &GenerateRequest,
    lists: &WordLists,
) -> (r: Result<Vec<TableType>, Error>)
    requires
        req.insert_into_many ==> req.count <= usize::MAX / 8,
    ensures
        match r {
            Ok(b) => {
                &&& spec_db_type(req.db_type@) is Some
                &&& (forall|i: int| 0 <= i < b@.len() ==> record_inv(#[trigger] b@[i]@))
                &&& (forall|i: int|
                    0 <= i < b@.len() ==> gen_record_ok(
                        #[trigger] b@[i]@,
                        lists.first_names@,
                        lists.last_names@,
                        lists.cities@,
                        lists.streets@,
                    ))
                &&& (if req.insert_into_many {
                    b@.len() == 8 * req.count && forall|k: RecordKind|
                        count_of_kind(batch_v(b@), k) == req.count as int
                } else {
                    &&& spec_kind_for_name(req.table_name@) is Some
                    &&& b@.len() == req.count
                    &&& (forall|i: int|
                        0 <= i < b@.len() ==> kind_of(#[trigger] b@[i]@) == spec_kind_for_name(
                            req.table_name@,
                        )->Some_0)
                    &&& keys_distinct(batch_v(b@))
                })
                &&& match spec_db_type(req.db_type@)->Some_0 {
                    DbType::MySql => {
                        &&& (forall|k: RecordKind|
                            final(rel).table(k) == crate::store::spec_insert_list(
                                k,
                                old(rel).table(k),
                                batch_v(b@),
                            ))
                        &&& final(rel).staff_table() == old(rel).staff_table()
                        &&& (forall|k: RecordKind|
                            final(docs).collection(k) == old(docs).collection(k))
                    },
                    DbType::MongoDb => {
                        &&& (forall|k: RecordKind|
                            final(docs).collection(k) == crate::doc::spec_insert_doc_list(
                                k,
                                old(docs).collection(k),
                                batch_v(b@),
                            ))
                        &&& (forall|k: RecordKind| final(rel).table(k) == old(rel).table(k))
                        &&& final(rel).staff_table() == old(rel).staff_table()
                    },
                }
            },
            Err(e) => {
                &&& (forall|k: RecordKind| final(rel).table(k) == old(rel).table(k))
                &&& final(rel).staff_table() == old(rel).staff_table()
                &&& (forall|k: RecordKind| final(docs).collection(k) == old(docs).collection(k))
                &&& (e == Error::InvalidArgument || e == Error::ResourceExhausted)
                &&& (e == Error::InvalidArgument <==> (spec_db_type(req.db_type@) is None || (
                !req.insert_into_many && spec_kind_for_name(req.table_name@) is None)))
            },
        },
        ({
            &&& spec_db_type(req.db_type@) is Some
            &&& (if req.insert_into_many {
                req.count <= 1
            } else {
                &&& spec_kind_for_name(req.table_name@) is Some
                &&& ((spec_kind_for_name(req.table_name@)->Some_0 != RecordKind::Client
                    && spec_kind_for_name(req.table_name@)->Some_0 != RecordKind::Employee)
                    || req.count <= 1)
            })
        }) ==> r is Ok,
{
    let db = parse_db_type(req.db_type.as_str())?;
    let batch = if req.insert_into_many {
        generate_all(req.count, lists)?
    } else {
        let k = parse_table_name(req.table_name.as_str())?;
        generate_for_kind(k, req.count, lists)?
    };
    match db {
        DbType::MySql => {
            rel.insert_batch(&batch)?;
        },
        DbType::MongoDb => {
            docs.insert_batch(&batch)?;
        },
    }
    Ok(batch)
}

/// The clear operation: requires a non-empty table selector, resolves
/// both selectors, and deletes every row or document of the shape on the
/// selected backend. Nothing else is touched; invalid selectors are
/// rejected before any store is.
pub fn clear_staff(
    rel: &mut RelationalStore,
    docs: &mut DocumentStore,
    req: &ClearRequest,
) -> (r: Result<(), Error>)
    ensures
        match r {
            Ok(_) => {
                &&& req.table_name@.len() > 0
                &&& spec_db_type(req.db_type@) is Some
                &&& spec_kind_for_name(req.table_name@) is Some
                &&& {
                    let k = spec_kind_for_name(req.table_name@)->Some_0;
                    match spec_db_type(req.db_type@)->Some_0 {
                        DbType::MySql => {
                            &&& final(rel).table(k).len() == 0
                            &&& (forall|k2: RecordKind|
                                k2 != k ==> final(rel).table(k2) == old(rel).table(k2))
                            &&& final(rel).staff_table() == old(rel).staff_table()
                            &&& (forall|k2: RecordKind|
                                final(docs).collection(k2) == old(docs).collection(k2))
                        },
                        DbType::MongoDb => {
                            &&& final(docs).collection(k).len() == 0
                            &&& (forall|k2: RecordKind|
                                k2 != k ==> final(docs).collection(k2) == old(docs).collection(k2))
                            &&& (forall|k2: RecordKind| final(rel).table(k2) == old(rel).table(k2))
                            &&& final(rel).staff_table() == old(rel).staff_table()
                        },
                    }
                }
            },
            Err(e) => {
                &&& e == Error::InvalidArgument
                &&& (req.table_name@.len() == 0 || spec_db_type(req.db_type@) is None
                    || spec_kind_for_name(req.table_name@) is None)
                &&& (forall|k2: RecordKind| final(rel).table(k2) == old(rel).table(k2))
                &&& final(rel).staff_table() == old(rel).staff_table()
                &&& (forall|k2: RecordKind| final(docs).collection(k2) == old(docs).collection(k2))
            },
        },
{
    if req.table_name.as_str().is_empty() {
        return Err(Error::InvalidArgument);
    }
    let db = parse_db_type(req.db_type.as_str())?;
    let k = parse_table_name(req.table_name.as_str())?;
    match db {
        DbType::MySql => {
            rel.clear(k);
        },
        DbType::MongoDb => {
            docs.clear(k);
        },
    }
    Ok(())
}

/// The fetch operation: resolves both selectors and reads every stored
/// record of the shape back from the selected backend. On the relational
/// backend one unreadable row fails the whole call with `ParseFailure`;
/// on the document backend unreadable documents are skipped and the
/// readable subset is returned.
pub fn get_data(rel: &RelationalStore, docs: &DocumentStore, req: &GetRequest) -> (r: Result<
    Vec<TableType>,
    Error,
>)
    ensures
        (spec_db_type(req.db_type@) is None || spec_kind_for_name(req.table_name@) is None) ==> r
            == Err::<Vec<TableType>, Error>(Error::InvalidArgument),
        (spec_db_type(req.db_type@) is Some && spec_kind_for_name(req.table_name@) is Some) ==> {
            let k = spec_kind_for_name(req.table_name@)->Some_0;
            match spec_db_type(req.db_type@)->Some_0 {
                DbType::MySql => {
                    &&& crate::store::table_decodes(k, rel.table(k)) ==> r is Ok && batch_v(
                        r->Ok_0@,
                    ) == crate::store::decoded_table(k, rel.table(k))
                    &&& !crate::store::table_decodes(k, rel.table(k)) ==> r == Err::<
                        Vec<TableType>,
                        Error,
                    >(Error::ParseFailure)
                },
                DbType::MongoDb => r is Ok && batch_v(r->Ok_0@) == crate::doc::spec_fetch_docs(
                    k,
                    docs.collection(k),
                ),
            }
        },
{
    let db = parse_db_type(req.db_type.as_str())?;
    let k = parse_table_name(req.table_name.as_str())?;
    match db {
        DbType::MySql => rel.fetch_all(k),
        DbType::MongoDb => Ok(docs.fetch_all(k)),
    }
}

/// The staff pipeline's generate operation: produces exactly `count`
/// staff members from the supplied name list and writes them into the
/// staff table in one call. Returns the generated batch.
pub fn generate_staff(rel: &mut RelationalStore, count: usize, names: &Vec<String>) -> (r: Result<
    Vec<Staff>,
    Error,
>)
    ensures
        match r {
            Ok(b) => {
                &&& b@.len() == count
                &&& (forall|i: int| 0 <= i < count ==> gen_staff_ok(#[trigger] b@[i]@, names@))
                &&& (forall|i: int, j: int|
                    0 <= i < j < count ==> b@[i]@.phone != b@[j]@.phone)
                &&& final(rel).staff_table() == crate::store::spec_insert_staff_list(
                    old(rel).staff_table(),
                    crate::store::staff_batch_v(b@),
                )
                &&& (forall|k: RecordKind| final(rel).table(k) == old(rel).table(k))
            },
            Err(e) => {
                &&& e == Error::ResourceExhausted
                &&& final(rel).staff_table() == old(rel).staff_table()
                &&& (forall|k: RecordKind| final(rel).table(k) == old(rel).table(k))
            },
        },
        count <= 1 ==> r is Ok,
{
    let batch = Staff::generate_batch(count, names)?;
    rel.insert_staff_batch(&batch)?;
    Ok(batch)
}

/// The staff pipeline's fetch operation: every stored staff row, decoded;
/// one unreadable row fails the whole call.
pub fn get_staff(rel: &RelationalStore) -> (r: Result<Vec<Staff>, Error>)
    ensures
        crate::store::staff_decodes(rel.staff_table()) ==> r is Ok && crate::store::staff_batch_v(
            r->Ok_0@,
        ) == crate::store::decoded_staff(rel.staff_table()),
        !crate::store::staff_decodes(rel.staff_table()) ==> r == Err::<Vec<Staff>, Error>(
            Error::ParseFailure,
        ),
{
    rel.fetch_all_staff()
}

} // verus!
