//! The model of the relational backend: one table of rows per shape, one
//! staff table, insertion with duplicate-key tolerance inside a single
//! all-or-nothing call, full-table delete, and a fetch that decodes every
//! row or fails as a whole.
use vstd::prelude::*;

use crate::error::Error;
use crate::record::{kind_of, record_inv, RecordKind, Staff, StaffV, TableType, TableTypeV};
use crate::row::{
    cell_eq, row_v, spec_from_row, spec_staff_from_row, spec_staff_to_row, spec_to_row, Cell,
    CellV, GetParams,
};

verus! {

/// The views of a list of records.
pub open spec fn batch_v(l: Seq<TableType>) -> Seq<TableTypeV> {
    l.map_values(|t: TableType| t@)
}

/// The views of a table of rows.
pub open spec fn rows_v(t: Seq<Vec<Cell>>) -> Seq<Seq<CellV>> {
    t.map_values(|r: Vec<Cell>| row_v(r@))
}

/// The column holding a shape's natural key, where the shape bears one.
/// Clients and employees are keyed by their contact number, which the
/// generator keeps unique within a batch; the other shapes bear no key
/// and tolerate whole-row duplicates.
pub open spec fn key_col(k: RecordKind) -> Option<int> {
    match k {
        RecordKind::Client => Some(3),
        RecordKind::Employee => Some(3),
        _ => None,
    }
}

/// The natural key of a row, read at the given column.
pub open spec fn row_key_at(col: Option<int>, row: Seq<CellV>) -> Option<CellV> {
    match col {
        Some(i) => if 0 <= i < row.len() {
            Some(row[i])
        } else {
            None
        },
        None => None,
    }
}

/// Whether the table already holds a row with this row's natural key.
/// A row without a key is never considered present.
pub open spec fn key_present_at(col: Option<int>, table: Seq<Seq<CellV>>, row: Seq<CellV>) -> bool {
    match row_key_at(col, row) {
        Some(key) => exists|j: int| 0 <= j < table.len() && row_key_at(col, #[trigger] table[j]) == Some(key),
        None => false,
    }
}

/// One insert with duplicate-key tolerance: a row whose natural key is
/// already present is silently skipped.
pub open spec fn spec_insert_row_at(
    col: Option<int>,
    table: Seq<Seq<CellV>>,
    row: Seq<CellV>,
) -> Seq<Seq<CellV>> {
    if key_present_at(col, table, row) {
        table
    } else {
        table.push(row)
    }
}

/// The table of a shape after a whole batch is applied in order: each
/// record of the shape is encoded and inserted with duplicate-key
/// tolerance; records of other shapes leave this table unchanged.
pub open spec fn spec_insert_list(
    k: RecordKind,
    table: Seq<Seq<CellV>>,
    batch: Seq<TableTypeV>,
) -> Seq<Seq<CellV>>
    decreases batch.len(),
{
    if batch.len() == 0 {
        table
    } else {
        let rest = spec_insert_list(k, table, batch.drop_last());
        if kind_of(batch.last()) == k {
            spec_insert_row_at(key_col(k), rest, spec_to_row(batch.last()))
        } else {
            rest
        }
    }
}

/// The staff table after a staff batch is applied in order, keyed by the
/// contact number column.
pub open spec fn spec_insert_staff_list(table: Seq<Seq<CellV>>, batch: Seq<StaffV>) -> Seq<
    Seq<CellV>,
>
    decreases batch.len(),
{
    if batch.len() == 0 {
        table
    } else {
        spec_insert_row_at(
            Some(3),
            spec_insert_staff_list(table, batch.drop_last()),
            spec_staff_to_row(batch.last()),
        )
    }
}

/// Whether every row of a table decodes as a record of the shape.
pub open spec fn table_decodes(k: RecordKind, t: Seq<Seq<CellV>>) -> bool {
    forall|i: int| 0 <= i < t.len() ==> spec_from_row(k, #[trigger] t[i]) is Some
}

/// The records a fully decodable table holds.
pub open spec fn decoded_table(k: RecordKind, t: Seq<Seq<CellV>>) -> Seq<TableTypeV> {
    t.map_values(|row: Seq<CellV>| spec_from_row(k, row)->Some_0)
}

/// Whether every row of the staff table decodes.
pub open spec fn staff_decodes(t: Seq<Seq<CellV>>) -> bool {
    forall|i: int| 0 <= i < t.len() ==> spec_staff_from_row(#[trigger] t[i]) is Some
}

/// The staff members a fully decodable staff table holds.
pub open spec fn decoded_staff(t: Seq<Seq<CellV>>) -> Seq<StaffV> {
    t.map_values(|row: Seq<CellV>| spec_staff_from_row(row)->Some_0)
}

/// The views of a list of staff members.
pub open spec fn staff_batch_v(l: Seq<Staff>) -> Seq<StaffV> {
    l.map_values(|s: Staff| s@)
}

/// Appends a row unless a row with the same natural key is already there.
fn push_row_with_key(table: &mut Vec<Vec<Cell>>, col: Option<usize>, row: Vec<Cell>)
    ensures
        rows_v(final(table)@) == spec_insert_row_at(
            match col {
                Some(i) => Some(i as int),
                None => None,
            },
            rows_v(old(table)@),
            row_v(row@),
        ),
{
    let ghost colv: Option<int> = match col {
        Some(i) => Some(i as int),
        None => None,
    };
    if let Some(i) = col {
        if i < row.len() {
            let mut j: usize = 0;
            while j < table.len()
                invariant
                    j <= table@.len(),
                    i < row@.len(),
                    col == Some(i),
                    colv == Some(i as int),
                    table@ == old(table)@,
                    forall|p: int|
                        0 <= p < j ==> row_key_at(colv, rows_v(table@)[p]) != Some(row_v(row@)[i as int]),
                decreases table@.len() - j,
            {
                if table[j].len() > i && cell_eq(&table[j][i], &row[i]) {
                    proof {
                        assert(row_key_at(colv, rows_v(table@)[j as int]) == Some(
                            row_v(row@)[i as int],
                        ));
                        assert(key_present_at(colv, rows_v(table@), row_v(row@)));
                    }
                    return ;
                }
                proof {
                    assert(row_key_at(colv, rows_v(table@)[j as int]) != Some(
                        row_v(row@)[i as int],
                    ));
                }
                j += 1;
            }
            proof {
                assert(row_key_at(colv, row_v(row@)) == Some(row_v(row@)[i as int]));
                assert(!key_present_at(colv, rows_v(table@), row_v(row@)));
            }
            table.push(row);
            proof {
                assert(rows_v(table@) =~= spec_insert_row_at(
                    colv,
                    rows_v(old(table)@),
                    row_v(row@),
                ));
            }
            return ;
        }
    }
    proof {
        assert(row_key_at(colv, row_v(row@)) is None);
    }
    table.push(row);
    proof {
        assert(rows_v(table@) =~= spec_insert_row_at(colv, rows_v(old(table)@), row_v(row@)));
    }
}

/// The model of the relational store: one table of rows per shape, plus
/// the staff table of the earlier revision. Rows enter only through the
/// insert operations or through `push_raw_row`, which stands for rows
/// another writer left in the table.
pub struct RelationalStore {
    address: Vec<Vec<Cell>>,
    client: Vec<Vec<Cell>>,
    contract: Vec<Vec<Cell>>,
    employee: Vec<Vec<Cell>>,
    payment: Vec<Vec<Cell>>,
    project: Vec<Vec<Cell>>,
    task: Vec<Vec<Cell>>,
    technology: Vec<Vec<Cell>>,
    staff: Vec<Vec<Cell>>,
}

impl RelationalStore {
    /// The rows of a shape's table.
    pub closed spec fn table(&self, k: RecordKind) -> Seq<Seq<CellV>> {
        match k {
            RecordKind::Address => rows_v(self.address@),
            RecordKind::Client => rows_v(self.client@),
            RecordKind::Contract => rows_v(self.contract@),
            RecordKind::Employee => rows_v(self.employee@),
            RecordKind::Payment => rows_v(self.payment@),
            RecordKind::Project => rows_v(self.project@),
            RecordKind::Task => rows_v(self.task@),
            RecordKind::Technology => rows_v(self.technology@),
        }
    }

    /// The rows of the staff table.
    pub closed spec fn staff_table(&self) -> Seq<Seq<CellV>> {
        rows_v(self.staff@)
    }

    /// An empty store.
    pub fn new() -> (r: RelationalStore)
        ensures
            forall|k: RecordKind| (#[trigger] r.table(k)).len() == 0,
            r.staff_table().len() == 0,
    {
        RelationalStore {
            address: Vec::new(),
            client: Vec::new(),
            contract: Vec::new(),
            employee: Vec::new(),
            payment: Vec::new(),
            project: Vec::new(),
            task: Vec::new(),
            technology: Vec::new(),
            staff: Vec::new(),
        }
    }

    /// The key column of a shape, as the insert scan uses it.
    fn key_col_exec(k: RecordKind) -> (r: Option<usize>)
        ensures
            key_col(k) == match r {
                Some(i) => Some(i as int),
                None => None::<int>,
            },
    {
        match k {
            RecordKind::Client => Some(3),
            RecordKind::Employee => Some(3),
            _ => None,
        }
    }

    /// Inserts one encoded row into the shape's table with duplicate-key
    /// tolerance; every other table is untouched.
    fn push_row(&mut self, k: RecordKind, row: Vec<Cell>)
        ensures
            final(self).table(k) == spec_insert_row_at(
                key_col(k),
                old(self).table(k),
                row_v(row@),
            ),
            forall|k2: RecordKind| k2 != k ==> final(self).table(k2) == old(self).table(k2),
            final(self).staff_table() == old(self).staff_table(),
    {
        let col = Self::key_col_exec(k);
        match k {
            RecordKind::Address => push_row_with_key(&mut self.address, col, row),
            RecordKind::Client => push_row_with_key(&mut self.client, col, row),
            RecordKind::Contract => push_row_with_key(&mut self.contract, col, row),
            RecordKind::Employee => push_row_with_key(&mut self.employee, col, row),
            RecordKind::Payment => push_row_with_key(&mut self.payment, col, row),
            RecordKind::Project => push_row_with_key(&mut self.project, col, row),
            RecordKind::Task => push_row_with_key(&mut self.task, col, row),
            RecordKind::Technology => push_row_with_key(&mut self.technology, col, row),
        }
    }

    /// Writes a whole batch, homogeneous or heterogeneous, in one call:
    /// every record is encoded and inserted with duplicate-key tolerance,
    /// in batch order — the model of one committed transaction. A batch
    /// holding any malformed record is a `WriteFailure`, and then nothing
    /// is committed: the call is all or nothing. No other table is ever
    /// touched.
    pub fn insert_batch(&mut self, list: &Vec<TableType>) -> (r: Result<(), Error>)
        ensures
            match r {
                Ok(_) => {
                    &&& forall|i: int| 0 <= i < list@.len() ==> record_inv(#[trigger] list@[i]@)
                    &&& forall|k: RecordKind|
                        final(self).table(k) == spec_insert_list(
                            k,
                            old(self).table(k),
                            batch_v(list@),
                        )
                },
                Err(e) => {
                    &&& e == Error::WriteFailure
                    &&& !(forall|i: int| 0 <= i < list@.len() ==> record_inv(#[trigger] list@[i]@))
                    &&& forall|k: RecordKind| final(self).table(k) == old(self).table(k)
                },
            },
            final(self).staff_table() == old(self).staff_table(),
    {
        let mut v: usize = 0;
        while v < list.len()
            invariant
                v <= list@.len(),
                *self == *old(self),
                forall|p: int| 0 <= p < v ==> record_inv(#[trigger] list@[p]@),
            decreases list@.len() - v,
        {
            if !list[v].is_well_formed() {
                proof {
                    assert(!(forall|i: int|
                        0 <= i < list@.len() ==> record_inv(#[trigger] list@[i]@))) by {
                        assert(!record_inv(list@[v as int]@));
                    }
                }
                return Err(Error::WriteFailure);
            }
            v += 1;
        }
        let mut i: usize = 0;
        while i < list.len()
            invariant
                i <= list@.len(),
                forall|p: int| 0 <= p < list@.len() ==> record_inv(#[trigger] list@[p]@),
                forall|k: RecordKind|
                    self.table(k) == spec_insert_list(
                        k,
                        old(self).table(k),
                        batch_v(list@.take(i as int)),
                    ),
                self.staff_table() == old(self).staff_table(),
            decreases list@.len() - i,
        {
            let ghost pre = *self;
            let item = &list[i];
            let kind = item.kind();
            let row = item.get_params();
            self.push_row(kind, row);
            proof {
                let taken = batch_v(list@.take(i as int + 1));
                assert(taken.drop_last() =~= batch_v(list@.take(i as int)));
                assert(taken.last() == list@[i as int]@);
                assert forall|k2: RecordKind|
                    self.table(k2) == spec_insert_list(
                        k2,
                        old(self).table(k2),
                        taken,
                    ) by {
                    if k2 == kind {
                        assert(self.table(k2) == spec_insert_row_at(
                            key_col(k2),
                            pre.table(k2),
                            spec_to_row(list@[i as int]@),
                        ));
                    } else {
                        assert(self.table(k2) == pre.table(k2));
                    }
                }
            }
            i += 1;
        }
        proof {
            assert(list@.take(list@.len() as int) =~= list@);
        }
        Ok(())
    }

    /// Deletes every row of the shape's table; every other table keeps
    /// its rows.
    pub fn clear(&mut self, k: RecordKind)
        ensures
            final(self).table(k).len() == 0,
            forall|k2: RecordKind| k2 != k ==> final(self).table(k2) == old(self).table(k2),
            final(self).staff_table() == old(self).staff_table(),
    {
        match k {
            RecordKind::Address => self.address = Vec::new(),
            RecordKind::Client => self.client = Vec::new(),
            RecordKind::Contract => self.contract = Vec::new(),
            RecordKind::Employee => self.employee = Vec::new(),
            RecordKind::Payment => self.payment = Vec::new(),
            RecordKind::Project => self.project = Vec::new(),
            RecordKind::Task => self.task = Vec::new(),
            RecordKind::Technology => self.technology = Vec::new(),
        }
    }

    /// A reference to the shape's rows.
    fn table_ref(&self, k: RecordKind) -> (r: &Vec<Vec<Cell>>)
        ensures
            rows_v(r@) == self.table(k),
    {
        match k {
            RecordKind::Address => &self.address,
            RecordKind::Client => &self.client,
            RecordKind::Contract => &self.contract,
            RecordKind::Employee => &self.employee,
            RecordKind::Payment => &self.payment,
            RecordKind::Project => &self.project,
            RecordKind::Task => &self.task,
            RecordKind::Technology => &self.technology,
        }
    }

    /// Reads every row of the shape's table back as records. One
    /// malformed row is fatal for the whole call: the relational fetch
    /// returns `ParseFailure` and no partial result.
    pub fn fetch_all(&self, k: RecordKind) -> (r: Result<Vec<TableType>, Error>)
        ensures
            table_decodes(k, self.table(k)) ==> r is Ok && batch_v(r->Ok_0@) == decoded_table(
                k,
                self.table(k),
            ),
            !table_decodes(k, self.table(k)) ==> r == Err::<Vec<TableType>, Error>(
                Error::ParseFailure,
            ),
    {
        let t = self.table_ref(k);
        let mut out: Vec<TableType> = Vec::new();
        let mut i: usize = 0;
        while i < t.len()
            invariant
                i <= t@.len(),
                rows_v(t@) == self.table(k),
                out@.len() == i,
                forall|j: int| 0 <= j < i ==> spec_from_row(k, rows_v(t@)[j]) is Some,
                forall|j: int|
                    0 <= j < i ==> (#[trigger] out@[j])@ == spec_from_row(k, rows_v(t@)[j])->Some_0,
            decreases t@.len() - i,
        {
            match crate::row::from_row(k, &t[i]) {
                Ok(rec) => {
                    out.push(rec);
                },
                Err(_) => {
                    proof {
                        assert(spec_from_row(k, rows_v(t@)[i as int]) is None);
                        assert(!table_decodes(k, self.table(k)));
                    }
                    return Err(Error::ParseFailure);
                },
            }
            i += 1;
        }
        proof {
            assert(batch_v(out@) =~= decoded_table(k, self.table(k)));
        }
        Ok(out)
    }

    /// Appends a raw row to the shape's table, as another writer might
    /// leave it; nothing is checked and nothing is deduplicated.
    pub fn push_raw_row(&mut self, k: RecordKind, row: Vec<Cell>)
        ensures
            final(self).table(k) == old(self).table(k).push(row_v(row@)),
            forall|k2: RecordKind| k2 != k ==> final(self).table(k2) == old(self).table(k2),
            final(self).staff_table() == old(self).staff_table(),
    {
        match k {
            RecordKind::Address => self.address.push(row),
            RecordKind::Client => self.client.push(row),
            RecordKind::Contract => self.contract.push(row),
            RecordKind::Employee => self.employee.push(row),
            RecordKind::Payment => self.payment.push(row),
            RecordKind::Project => self.project.push(row),
            RecordKind::Task => self.task.push(row),
            RecordKind::Technology => self.technology.push(row),
        }
        proof {
            assert(final(self).table(k) =~= old(self).table(k).push(row_v(row@)));
        }
    }

    /// Writes a staff batch in one call, keyed by the contact number
    /// column, with duplicate-key tolerance. A batch holding a staff
    /// member with an invalid hire date is a `WriteFailure`, and then
    /// nothing is committed.
    pub fn insert_staff_batch(&mut self, staff_list: &Vec<Staff>) -> (r: Result<(), Error>)
        ensures
            match r {
                Ok(_) => {
                    &&& forall|i: int|
                        0 <= i < staff_list@.len() ==> (#[trigger] staff_list@[i]@).hire_date.valid()
                    &&& final(self).staff_table() == spec_insert_staff_list(
                        old(self).staff_table(),
                        staff_batch_v(staff_list@),
                    )
                },
                Err(e) => {
                    &&& e == Error::WriteFailure
                    &&& !(forall|i: int|
                        0 <= i < staff_list@.len() ==> (
                        #[trigger] staff_list@[i]@).hire_date.valid())
                    &&& final(self).staff_table() == old(self).staff_table()
                },
            },
            forall|k: RecordKind| final(self).table(k) == old(self).table(k),
    {
        let mut v: usize = 0;
        while v < staff_list.len()
            invariant
                v <= staff_list@.len(),
                *self == *old(self),
                forall|p: int| 0 <= p < v ==> (#[trigger] staff_list@[p]@).hire_date.valid(),
            decreases staff_list@.len() - v,
        {
            if !staff_list[v].hire_date.is_valid() {
                proof {
                    assert(!(forall|i: int|
                        0 <= i < staff_list@.len() ==> (
                        #[trigger] staff_list@[i]@).hire_date.valid())) by {
                        assert(!staff_list@[v as int]@.hire_date.valid());
                    }
                }
                return Err(Error::WriteFailure);
            }
            v += 1;
        }
        let mut i: usize = 0;
        while i < staff_list.len()
            invariant
                i <= staff_list@.len(),
                forall|p: int|
                    0 <= p < staff_list@.len() ==> (#[trigger] staff_list@[p]@).hire_date.valid(),
                self.staff_table() == spec_insert_staff_list(
                    old(self).staff_table(),
                    staff_batch_v(staff_list@.take(i as int)),
                ),
                forall|k: RecordKind| self.table(k) == old(self).table(k),
            decreases staff_list@.len() - i,
        {
            let row = crate::row::staff_to_row(&staff_list[i]);
            push_row_with_key(&mut self.staff, Some(3), row);
            proof {
                let taken = staff_batch_v(staff_list@.take(i as int + 1));
                assert(taken.drop_last() =~= staff_batch_v(staff_list@.take(i as int)));
                assert(taken.last() == staff_list@[i as int]@);
            }
            i += 1;
        }
        proof {
            assert(staff_list@.take(staff_list@.len() as int) =~= staff_list@);
        }
        Ok(())
    }

    /// Deletes every row of the staff table.
    pub fn clear_staff(&mut self)
        ensures
            final(self).staff_table().len() == 0,
            forall|k: RecordKind| final(self).table(k) == old(self).table(k),
    {
        self.staff = Vec::new();
    }

    /// Reads every staff row back. One malformed row is fatal for the
    /// whole call.
    pub fn fetch_all_staff(&self) -> (r: Result<Vec<Staff>, Error>)
        ensures
            staff_decodes(self.staff_table()) ==> r is Ok && staff_batch_v(r->Ok_0@)
                == decoded_staff(self.staff_table()),
            !staff_decodes(self.staff_table()) ==> r == Err::<Vec<Staff>, Error>(
                Error::ParseFailure,
            ),
    {
        let mut out: Vec<Staff> = Vec::new();
        let mut i: usize = 0;
        while i < self.staff.len()
            invariant
                i <= self.staff@.len(),
                out@.len() == i,
                forall|j: int| 0 <= j < i ==> spec_staff_from_row(self.staff_table()[j]) is Some,
                forall|j: int|
                    0 <= j < i ==> (#[trigger] out@[j])@ == spec_staff_from_row(
                        self.staff_table()[j],
                    )->Some_0,
            decreases self.staff@.len() - i,
        {
            match crate::row::staff_from_row(&self.staff[i]) {
                Ok(rec) => {
                    out.push(rec);
                },
                Err(_) => {
                    proof {
                        assert(spec_staff_from_row(self.staff_table()[i as int]) is None);
                        assert(!staff_decodes(self.staff_table()));
                    }
                    return Err(Error::ParseFailure);
                },
            }
            i += 1;
        }
        proof {
            assert(staff_batch_v(out@) =~= decoded_staff(self.staff_table()));
        }
        Ok(out)
    }

    /// Appends a raw staff row, as another writer might leave it.
    pub fn push_raw_staff_row(&mut self, row: Vec<Cell>)
        ensures
            final(self).staff_table() == old(self).staff_table().push(row_v(row@)),
            forall|k: RecordKind| final(self).table(k) == old(self).table(k),
    {
        self.staff.push(row);
        proof {
            assert(final(self).staff_table() =~= old(self).staff_table().push(row_v(row@)));
        }
    }
}

} // verus!
