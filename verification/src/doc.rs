//! The model of the document backend: one collection of documents per
//! shape, each document nesting the record's fields under the shape's
//! display-name tag, insertion with an existence pre-filter standing in
//! for duplicate-key tolerance, and a fetch that skips unreadable
//! documents instead of failing.
use vstd::prelude::*;

use crate::error::Error;
use crate::record::{
    kind_of, record_inv, spec_display_name, RecordKind, TableType, TableTypeV,
};
use crate::row::{row_v, spec_from_row, spec_to_row, Cell, CellV, GetParams};
use crate::store::{batch_v, key_col, row_key_at};

verus! {

/// One stored document: the shape's tag, the field names and the field
/// values, names and values in the same order.
#[derive(Debug, Clone, PartialEq)]
pub struct Document {
    pub tag: String,
    pub names: Vec<String>,
    pub values: Vec<Cell>,
}

/// The view of a `Document`.
pub struct DocumentV {
    pub tag: Seq<char>,
    pub names: Seq<Seq<char>>,
    pub values: Seq<CellV>,
}

/// The views of a list of field names.
pub open spec fn names_v(n: Seq<String>) -> Seq<Seq<char>> {
    n.map_values(|s: String| s@)
}

impl View for Document {
    type V = DocumentV;

    open spec fn view(&self) -> DocumentV {
        DocumentV { tag: self.tag@, names: names_v(self.names@), values: row_v(self.values@) }
    }
}

/// The views of a collection of documents.
pub open spec fn docs_v(d: Seq<Document>) -> Seq<DocumentV> {
    d.map_values(|x: Document| x@)
}

/// The field names of a shape, in the same order as its row cells.
pub open spec fn spec_col_names(k: RecordKind) -> Seq<Seq<char>> {
    match k {
        RecordKind::Address => seq!["city"@, "street"@, "street_number"@, "postal_code"@],
        RecordKind::Client => seq!["first_name"@, "last_name"@, "email"@, "phone_number"@],
        RecordKind::Contract => seq!["type_of_contract"@, "start_date"@, "end_date"@, "salary"@],
        RecordKind::Employee => seq![
            "first_name"@,
            "last_name"@,
            "email"@,
            "phone_number"@,
            "position"@,
            "contract_date"@,
        ],
        RecordKind::Payment => seq!["amount"@, "payment_due_date"@, "method"@],
        RecordKind::Project => seq!["name"@, "description"@, "start_date"@, "end_date"@, "status"@],
        RecordKind::Task => seq!["name"@, "description"@, "start_date"@, "end_date"@, "status"@],
        RecordKind::Technology => seq!["name"@, "description"@],
    }
}

/// Builds the field-name list of a shape.
pub fn col_names(k: RecordKind) -> (r: Vec<String>)
    ensures
        names_v(r@) == spec_col_names(k),
{
    let mut v: Vec<String> = Vec::new();
    match k {
        RecordKind::Address => {
            v.push("city".to_owned());
            v.push("street".to_owned());
            v.push("street_number".to_owned());
            v.push("postal_code".to_owned());
        },
        RecordKind::Client => {
            v.push("first_name".to_owned());
            v.push("last_name".to_owned());
            v.push("email".to_owned());
            v.push("phone_number".to_owned());
        },
        RecordKind::Contract => {
            v.push("type_of_contract".to_owned());
            v.push("start_date".to_owned());
            v.push("end_date".to_owned());
            v.push("salary".to_owned());
        },
        RecordKind::Employee => {
            v.push("first_name".to_owned());
            v.push("last_name".to_owned());
            v.push("email".to_owned());
            v.push("phone_number".to_owned());
            v.push("position".to_owned());
            v.push("contract_date".to_owned());
        },
        RecordKind::Payment => {
            v.push("amount".to_owned());
            v.push("payment_due_date".to_owned());
            v.push("method".to_owned());
        },
        RecordKind::Project => {
            v.push("name".to_owned());
            v.push("description".to_owned());
            v.push("start_date".to_owned());
            v.push("end_date".to_owned());
            v.push("status".to_owned());
        },
        RecordKind::Task => {
            v.push("name".to_owned());
            v.push("description".to_owned());
            v.push("start_date".to_owned());
            v.push("end_date".to_owned());
            v.push("status".to_owned());
        },
        RecordKind::Technology => {
            v.push("name".to_owned());
            v.push("description".to_owned());
        },
    }
    proof {
        assert(names_v(v@) =~= spec_col_names(k));
    }
    v
}

/// The document a record is stored as.
pub open spec fn spec_to_document(t: TableTypeV) -> DocumentV {
    DocumentV {
        tag: spec_display_name(kind_of(t)),
        names: spec_col_names(kind_of(t)),
        values: spec_to_row(t),
    }
}

/// Encodes a record as a document of its shape's collection.
pub fn to_document(t: &TableType) -> (r: Document)
    requires
        record_inv(t@),
    ensures
        r@ == spec_to_document(t@),
{
    let kind = t.kind();
    let tag = kind.display_name().to_owned();
    let names = col_names(kind);
    let values = t.get_params();
    let d = Document { tag, names, values };
    proof {
        assert(d@.names =~= spec_to_document(t@).names);
    }
    d
}

/// Whether two texts hold the same characters.
pub fn str_eq(a: &str, b: &str) -> (r: bool)
    ensures
        r == (a@ == b@),
{
    let na = a.unicode_len();
    let nb = b.unicode_len();
    if na != nb {
        return false;
    }
    let mut i: usize = 0;
    while i < na
        invariant
            i <= na,
            na == a@.len(),
            na == b@.len(),
            forall|j: int| 0 <= j < i ==> a@[j] == b@[j],
        decreases na - i,
    {
        if a.get_char(i) != b.get_char(i) {
            return false;
        }
        i += 1;
    }
    proof {
        assert(a@ =~= b@);
    }
    true
}

/// Whether two field-name lists hold the same names.
fn names_eq(a: &Vec<String>, b: &Vec<String>) -> (r: bool)
    ensures
        r == (names_v(a@) == names_v(b@)),
{
    if a.len() != b.len() {
        proof {
            assert(names_v(a@).len() != names_v(b@).len());
        }
        return false;
    }
    let mut i: usize = 0;
    while i < a.len()
        invariant
            i <= a@.len(),
            a@.len() == b@.len(),
            forall|j: int| 0 <= j < i ==> names_v(a@)[j] == names_v(b@)[j],
        decreases a@.len() - i,
    {
        if !str_eq(a[i].as_str(), b[i].as_str()) {
            proof {
                assert(names_v(a@)[i as int] != names_v(b@)[i as int]);
            }
            return false;
        }
        i += 1;
    }
    proof {
        assert(names_v(a@) =~= names_v(b@));
    }
    true
}

/// What reading one document of a shape's collection yields: the nested
/// fields decode as a row exactly when the tag is the shape's display
/// name and the field names are the shape's schema.
pub open spec fn spec_doc_decode(k: RecordKind, d: DocumentV) -> Option<TableTypeV> {
    if d.tag == spec_display_name(k) && d.names == spec_col_names(k) {
        spec_from_row(k, d.values)
    } else {
        None
    }
}

/// Reads one stored document back as a record of the given shape. A
/// document missing the shape's tag or schema, or with unreadable
/// fields, is a per-document `ParseFailure`.
pub fn doc_decode(k: RecordKind, d: &Document) -> (r: Result<TableType, Error>)
    ensures
        match spec_doc_decode(k, d@) {
            Some(v) => r is Ok && r->Ok_0@ == v,
            None => r == Err::<TableType, Error>(Error::ParseFailure),
        },
{
    if !str_eq(d.tag.as_str(), k.display_name()) {
        return Err(Error::ParseFailure);
    }
    let schema = col_names(k);
    if !names_eq(&d.names, &schema) {
        return Err(Error::ParseFailure);
    }
    crate::row::from_row(k, &d.values)
}

/// Encoding a record as a document and reading it back returns the
/// record unchanged: the document codec loses nothing on records the
/// engine accepts.
pub proof fn lemma_doc_round_trip(t: TableTypeV)
    requires
        record_inv(t),
    ensures
        spec_doc_decode(kind_of(t), spec_to_document(t)) == Some(t),
{
    crate::row::lemma_row_round_trip(t);
}

/// Whether the collection already holds a document whose nested fields
/// carry this row's natural key: the pre-filter the document backend
/// runs instead of a storage-level key constraint.
pub open spec fn doc_key_present_at(
    col: Option<int>,
    coll: Seq<DocumentV>,
    values: Seq<CellV>,
) -> bool {
    match row_key_at(col, values) {
        Some(key) => exists|j: int|
            0 <= j < coll.len() && row_key_at(col, (#[trigger] coll[j]).values) == Some(key),
        None => false,
    }
}

/// One insert behind the pre-filter: a document whose key is already
/// present is silently dropped.
pub open spec fn spec_insert_doc_at(col: Option<int>, coll: Seq<DocumentV>, d: DocumentV) -> Seq<
    DocumentV,
> {
    if doc_key_present_at(col, coll, d.values) {
        coll
    } else {
        coll.push(d)
    }
}

/// The collection of a shape after a whole batch is applied in order.
pub open spec fn spec_insert_doc_list(
    k: RecordKind,
    coll: Seq<DocumentV>,
    batch: Seq<TableTypeV>,
) -> Seq<DocumentV>
    decreases batch.len(),
{
    if batch.len() == 0 {
        coll
    } else {
        let rest = spec_insert_doc_list(k, coll, batch.drop_last());
        if kind_of(batch.last()) == k {
            spec_insert_doc_at(key_col(k), rest, spec_to_document(batch.last()))
        } else {
            rest
        }
    }
}

/// What a fetch of a shape's collection returns: the records of the
/// documents that decode, in collection order; unreadable documents are
/// skipped, never fatal.
pub open spec fn spec_fetch_docs(k: RecordKind, coll: Seq<DocumentV>) -> Seq<TableTypeV>
    decreases coll.len(),
{
    if coll.len() == 0 {
        Seq::empty()
    } else {
        let rest = spec_fetch_docs(k, coll.drop_last());
        match spec_doc_decode(k, coll.last()) {
            Some(v) => rest.push(v),
            None => rest,
        }
    }
}

/// Appends a document unless one with the same natural key is already
/// there.
fn push_doc_with_key(coll: &mut Vec<Document>, col: Option<usize>, d: Document)
    ensures
        docs_v(final(coll)@) == spec_insert_doc_at(
            match col {
                Some(i) => Some(i as int),
                None => None,
            },
            docs_v(old(coll)@),
            d@,
        ),
{
    let ghost colv: Option<int> = match col {
        Some(i) => Some(i as int),
        None => None,
    };
    if let Some(i) = col {
        if i < d.values.len() {
            let mut j: usize = 0;
            while j < coll.len()
                invariant
                    j <= coll@.len(),
                    i < d.values@.len(),
                    col == Some(i),
                    colv == Some(i as int),
                    coll@ == old(coll)@,
                    forall|p: int|
                        0 <= p < j ==> row_key_at(colv, docs_v(coll@)[p].values) != Some(
                            row_v(d.values@)[i as int],
                        ),
                decreases coll@.len() - j,
            {
                if coll[j].values.len() > i && crate::row::cell_eq(&coll[j].values[i], &d.values[i]) {
                    proof {
                        assert(row_key_at(colv, docs_v(coll@)[j as int].values) == Some(
                            row_v(d.values@)[i as int],
                        ));
                        assert(doc_key_present_at(colv, docs_v(coll@), row_v(d.values@)));
                    }
                    return ;
                }
                proof {
                    assert(row_key_at(colv, docs_v(coll@)[j as int].values) != Some(
                        row_v(d.values@)[i as int],
                    ));
                }
                j += 1;
            }
            proof {
                assert(row_key_at(colv, row_v(d.values@)) == Some(row_v(d.values@)[i as int]));
                assert(!doc_key_present_at(colv, docs_v(coll@), row_v(d.values@)));
            }
            coll.push(d);
            proof {
                assert(docs_v(coll@) =~= spec_insert_doc_at(
                    colv,
                    docs_v(old(coll)@),
                    docs_v(coll@).last(),
                ));
            }
            return ;
        }
    }
    proof {
        assert(row_key_at(colv, row_v(d.values@)) is None);
    }
    coll.push(d);
    proof {
        assert(docs_v(coll@) =~= spec_insert_doc_at(
            colv,
            docs_v(old(coll)@),
            docs_v(coll@).last(),
        ));
    }
}

/// The model of the document store: one collection of documents per
/// shape. Documents enter only through `insert_batch` or through
/// `push_raw_document`, which stands for documents another writer left
/// in the collection.
pub struct DocumentStore {
    address: Vec<Document>,
    client: Vec<Document>,
    contract: Vec<Document>,
    employee: Vec<Document>,
    payment: Vec<Document>,
    project: Vec<Document>,
    task: Vec<Document>,
    technology: Vec<Document>,
}

impl DocumentStore {
    /// The documents of a shape's collection.
    pub closed spec fn collection(&self, k: RecordKind) -> Seq<DocumentV> {
        match k {
            RecordKind::Address => docs_v(self.address@),
            RecordKind::Client => docs_v(self.client@),
            RecordKind::Contract => docs_v(self.contract@),
            RecordKind::Employee => docs_v(self.employee@),
            RecordKind::Payment => docs_v(self.payment@),
            RecordKind::Project => docs_v(self.project@),
            RecordKind::Task => docs_v(self.task@),
            RecordKind::Technology => docs_v(self.technology@),
        }
    }

    /// An empty store.
    pub fn new() -> (r: DocumentStore)
        ensures
            forall|k: RecordKind| (#[trigger] r.collection(k)).len() == 0,
    {
        DocumentStore {
            address: Vec::new(),
            client: Vec::new(),
            contract: Vec::new(),
            employee: Vec::new(),
            payment: Vec::new(),
            project: Vec::new(),
            task: Vec::new(),
            technology: Vec::new(),
        }
    }

    /// Inserts one document into the shape's collection behind the
    /// pre-filter; every other collection is untouched.
    fn push_doc(&mut self, k: RecordKind, d: Document)
        ensures
            final(self).collection(k) == spec_insert_doc_at(
                key_col(k),
                old(self).collection(k),
                d@,
            ),
            forall|k2: RecordKind|
                k2 != k ==> final(self).collection(k2) == old(self).collection(k2),
    {
        let col = match k {
            RecordKind::Client => Some(3),
            RecordKind::Employee => Some(3),
            _ => None,
        };
        match k {
            RecordKind::Address => push_doc_with_key(&mut self.address, col, d),
            RecordKind::Client => push_doc_with_key(&mut self.client, col, d),
            RecordKind::Contract => push_doc_with_key(&mut self.contract, col, d),
            RecordKind::Employee => push_doc_with_key(&mut self.employee, col, d),
            RecordKind::Payment => push_doc_with_key(&mut self.payment, col, d),
            RecordKind::Project => push_doc_with_key(&mut self.project, col, d),
            RecordKind::Task => push_doc_with_key(&mut self.task, col, d),
            RecordKind::Technology => push_doc_with_key(&mut self.technology, col, d),
        }
    }

    /// Writes a whole batch, homogeneous or heterogeneous: every record
    /// is encoded as a document and inserted behind the pre-filter, in
    /// batch order. A batch holding any malformed record is a
    /// `WriteFailure` before anything is written. Collections are
    /// independent: this call is atomic per collection only, not across
    /// collections.
    pub fn insert_batch(&mut self, list: &Vec<TableType>) -> (r: Result<(), Error>)
        ensures
            match r {
                Ok(_) => {
                    &&& forall|i: int| 0 <= i < list@.len() ==> record_inv(#[trigger] list@[i]@)
                    &&& forall|k: RecordKind|
                        final(self).collection(k) == spec_insert_doc_list(
                            k,
                            old(self).collection(k),
                            batch_v(list@),
                        )
                },
                Err(e) => {
                    &&& e == Error::WriteFailure
                    &&& !(forall|i: int| 0 <= i < list@.len() ==> record_inv(#[trigger] list@[i]@))
                    &&& forall|k: RecordKind|
                        final(self).collection(k) == old(self).collection(k)
                },
            },
    {
        let mut v: usize = 0;
        while v < list.len()
            invariant
                v <= list@.len(),
                *self == *old(self),
                forall|p: int| 0 <= p < v ==> record_inv(#[trigger] list@[p]@),
            decreases list@.len() - v,
        {
            if !list[v].is_well_formed() {
                proof {
                    assert(!(forall|i: int|
                        0 <= i < list@.len() ==> record_inv(#[trigger] list@[i]@))) by {
                        assert(!record_inv(list@[v as int]@));
                    }
                }
                return Err(Error::WriteFailure);
            }
            v += 1;
        }
        let mut i: usize = 0;
        while i < list.len()
            invariant
                i <= list@.len(),
                forall|p: int| 0 <= p < list@.len() ==> record_inv(#[trigger] list@[p]@),
                forall|k: RecordKind|
                    self.collection(k) == spec_insert_doc_list(
                        k,
                        old(self).collection(k),
                        batch_v(list@.take(i as int)),
                    ),
            decreases list@.len() - i,
        {
            let ghost pre = *self;
            let item = &list[i];
            let kind = item.kind();
            let d = to_document(item);
            self.push_doc(kind, d);
            proof {
                let taken = batch_v(list@.take(i as int + 1));
                assert(taken.drop_last() =~= batch_v(list@.take(i as int)));
                assert(taken.last() == list@[i as int]@);
                assert forall|k2: RecordKind|
                    self.collection(k2) == spec_insert_doc_list(
                        k2,
                        old(self).collection(k2),
                        taken,
                    ) by {
                    if k2 == kind {
                        assert(self.collection(k2) == spec_insert_doc_at(
                            key_col(k2),
                            pre.collection(k2),
                            spec_to_document(list@[i as int]@),
                        ));
                    } else {
                        assert(self.collection(k2) == pre.collection(k2));
                    }
                }
            }
            i += 1;
        }
        proof {
            assert(list@.take(list@.len() as int) =~= list@);
        }
        Ok(())
    }

    /// Deletes every document of the shape's collection and reports how
    /// many were deleted; every other collection keeps its documents.
    pub fn clear(&mut self, k: RecordKind) -> (r: usize)
        ensures
            final(self).collection(k).len() == 0,
            r == old(self).collection(k).len(),
            forall|k2: RecordKind|
                k2 != k ==> final(self).collection(k2) == old(self).collection(k2),
    {
        match k {
            RecordKind::Address => {
                let n = self.address.len();
                self.address = Vec::new();
                n
            },
            RecordKind::Client => {
                let n = self.client.len();
                self.client = Vec::new();
                n
            },
            RecordKind::Contract => {
                let n = self.contract.len();
                self.contract = Vec::new();
                n
            },
            RecordKind::Employee => {
                let n = self.employee.len();
                self.employee = Vec::new();
                n
            },
            RecordKind::Payment => {
                let n = self.payment.len();
                self.payment = Vec::new();
                n
            },
            RecordKind::Project => {
                let n = self.project.len();
                self.project = Vec::new();
                n
            },
            RecordKind::Task => {
                let n = self.task.len();
                self.task = Vec::new();
                n
            },
            RecordKind::Technology => {
                let n = self.technology.len();
                self.technology = Vec::new();
                n
            },
        }
    }

    /// A reference to the shape's documents.
    fn collection_ref(&self, k: RecordKind) -> (r: &Vec<Document>)
        ensures
            docs_v(r@) == self.collection(k),
    {
        match k {
            RecordKind::Address => &self.address,
            RecordKind::Client => &self.client,
            RecordKind::Contract => &self.contract,
            RecordKind::Employee => &self.employee,
            RecordKind::Payment => &self.payment,
            RecordKind::Project => &self.project,
            RecordKind::Task => &self.task,
            RecordKind::Technology => &self.technology,
        }
    }

    /// Reads the shape's collection back, returning the records of the
    /// documents that decode, in order. An unreadable document is
    /// skipped, never fatal: the fetch returns the readable subset.
    pub fn fetch_all(&self, k: RecordKind) -> (r: Vec<TableType>)
        ensures
            batch_v(r@) == spec_fetch_docs(k, self.collection(k)),
    {
        let coll = self.collection_ref(k);
        let mut out: Vec<TableType> = Vec::new();
        let mut i: usize = 0;
        while i < coll.len()
            invariant
                i <= coll@.len(),
                docs_v(coll@) == self.collection(k),
                batch_v(out@) == spec_fetch_docs(k, self.collection(k).take(i as int)),
            decreases coll@.len() - i,
        {
            let ghost pre = out@;
            match doc_decode(k, &coll[i]) {
                Ok(rec) => {
                    out.push(rec);
                },
                Err(_) => {},
            }
            proof {
                let taken = self.collection(k).take(i as int + 1);
                assert(taken.drop_last() =~= self.collection(k).take(i as int));
                assert(taken.last() == self.collection(k)[i as int]);
                assert(batch_v(out@) =~= spec_fetch_docs(k, taken));
            }
            i += 1;
        }
        proof {
            assert(self.collection(k).take(self.collection(k).len() as int) =~= self.collection(
                k,
            ));
        }
        out
    }

    /// Appends a raw document to the shape's collection, as another
    /// writer might leave it; nothing is checked and nothing is
    /// pre-filtered.
    pub fn push_raw_document(&mut self, k: RecordKind, d: Document)
        ensures
            final(self).collection(k) == old(self).collection(k).push(d@),
            forall|k2: RecordKind|
                k2 != k ==> final(self).collection(k2) == old(self).collection(k2),
    {
        match k {
            RecordKind::Address => self.address.push(d),
            RecordKind::Client => self.client.push(d),
            RecordKind::Contract => self.contract.push(d),
            RecordKind::Employee => self.employee.push(d),
            RecordKind::Payment => self.payment.push(d),
            RecordKind::Project => self.project.push(d),
            RecordKind::Task => self.task.push(d),
            RecordKind::Technology => self.technology.push(d),
        }
        proof {
            assert(final(self).collection(k) =~= old(self).collection(k).push(d@));
        }
    }
}

} // verus!
