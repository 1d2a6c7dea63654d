//! The engine's laws: what holds across the generators, the codecs and
//! the backend models, stated over the same spec functions the operations'
//! own contracts use, and proved once for every input.
use vstd::prelude::*;

use crate::dispatch::{count_of_kind, keys_distinct, rec_key};
use crate::doc::DocumentStore;
use crate::record::{kind_of, record_inv, RecordKind, TableTypeV};
use crate::row::{spec_from_row, spec_to_row, CellV};
use crate::store::{
    decoded_table, key_col, key_present_at, row_key_at, spec_insert_list, table_decodes,
    RelationalStore,
};

verus! {

/// The subsequence of a batch holding exactly its records of one shape,
/// in batch order.
pub open spec fn of_kind(b: Seq<TableTypeV>, k: RecordKind) -> Seq<TableTypeV>
    decreases b.len(),
{
    if b.len() == 0 {
        Seq::empty()
    } else {
        let rest = of_kind(b.drop_last(), k);
        if kind_of(b.last()) == k {
            rest.push(b.last())
        } else {
            rest
        }
    }
}

/// The rows a list of records is encoded as.
pub open spec fn rows_of(b: Seq<TableTypeV>) -> Seq<Seq<CellV>> {
    b.map_values(|t: TableTypeV| spec_to_row(t))
}

/// A batch holds as many records of a shape as its shape-subsequence is
/// long.
pub proof fn lemma_of_kind_count(b: Seq<TableTypeV>, k: RecordKind)
    ensures
        of_kind(b, k).len() == count_of_kind(b, k),
    decreases b.len(),
{
    if b.len() > 0 {
        lemma_of_kind_count(b.drop_last(), k);
    }
}

/// Every record of a shape-subsequence is a record of the batch, of that
/// shape.
pub proof fn lemma_of_kind_membership(b: Seq<TableTypeV>, k: RecordKind, j: int)
    requires
        0 <= j < of_kind(b, k).len(),
    ensures
        exists|i: int| 0 <= i < b.len() && b[i] == of_kind(b, k)[j] && kind_of(#[trigger] b[i]) == k,
    decreases b.len(),
{
    if b.len() > 0 {
        let rest = of_kind(b.drop_last(), k);
        if kind_of(b.last()) == k && j == rest.len() {
            assert(b[b.len() - 1] == of_kind(b, k)[j] && kind_of(b[b.len() - 1]) == k);
        } else {
            lemma_of_kind_membership(b.drop_last(), k, j);
            let i = choose|i: int|
                0 <= i < b.drop_last().len() && b.drop_last()[i] == of_kind(b.drop_last(), k)[j]
                    && kind_of(#[trigger] b.drop_last()[i]) == k;
            assert(b[i] == of_kind(b, k)[j] && kind_of(b[i]) == k);
        }
    }
}

/// A homogeneous batch is its own shape-subsequence.
pub proof fn lemma_of_kind_all(b: Seq<TableTypeV>, k: RecordKind)
    requires
        forall|i: int| 0 <= i < b.len() ==> kind_of(#[trigger] b[i]) == k,
    ensures
        of_kind(b, k) =~= b,
    decreases b.len(),
{
    if b.len() > 0 {
        lemma_of_kind_all(b.drop_last(), k);
    }
}

/// The natural key a record's encoded row carries at the shape's key
/// column is exactly the record's own natural key.
pub proof fn lemma_rec_key_row(t: TableTypeV)
    ensures
        row_key_at(key_col(kind_of(t)), spec_to_row(t)) == match rec_key(t) {
            Some(p) => Some(CellV::S(p)),
            None => None::<CellV>,
        },
{
    match t {
        TableTypeV::Technology(_) => {},
        TableTypeV::Task(_) => {},
        TableTypeV::Project(_) => {},
        TableTypeV::Payment(_) => {},
        TableTypeV::Employee(_) => {},
        TableTypeV::Contract(_) => {},
        TableTypeV::Client(_) => {},
        TableTypeV::Address(_) => {},
    }
}

/// Inserting a batch into an empty table leaves exactly the encoded rows
/// of the batch's records of that shape, in order: with distinct
/// same-shape keys nothing is skipped, and nothing else appears.
pub proof fn lemma_insert_list_empty(k: RecordKind, batch: Seq<TableTypeV>)
    requires
        forall|i: int| 0 <= i < batch.len() ==> record_inv(#[trigger] batch[i]),
        keys_distinct(batch),
    ensures
        spec_insert_list(k, Seq::empty(), batch) =~= rows_of(of_kind(batch, k)),
    decreases batch.len(),
{
    if batch.len() == 0 {
        assert(of_kind(batch, k) =~= Seq::<TableTypeV>::empty());
    } else {
        let b = batch.drop_last();
        let x = batch.last();
        assert forall|i: int| 0 <= i < b.len() implies record_inv(#[trigger] b[i]) by {
            assert(b[i] == batch[i]);
        }
        assert forall|i: int, j: int|
            0 <= i < j < b.len() && (#[trigger] rec_key(b[i])) is Some && kind_of(b[i]) == kind_of(
                b[j],
            ) implies rec_key(b[i]) != #[trigger] rec_key(b[j]) by {
            assert(b[i] == batch[i] && b[j] == batch[j]);
        }
        lemma_insert_list_empty(k, b);
        let table = spec_insert_list(k, Seq::<Seq<CellV>>::empty(), b);
        if kind_of(x) == k {
            assert(!key_present_at(key_col(k), table, spec_to_row(x))) by {
                if key_present_at(key_col(k), table, spec_to_row(x)) {
                    let key = row_key_at(key_col(k), spec_to_row(x))->Some_0;
                    let j = choose|j: int|
                        0 <= j < table.len() && row_key_at(key_col(k), #[trigger] table[j]) == Some(
                            key,
                        );
                    assert(table[j] == spec_to_row(of_kind(b, k)[j]));
                    lemma_of_kind_membership(b, k, j);
                    let i = choose|i: int|
                        0 <= i < b.len() && b[i] == of_kind(b, k)[j] && kind_of(#[trigger] b[i])
                            == k;
                    lemma_rec_key_row(b[i]);
                    lemma_rec_key_row(x);
                    assert(rec_key(batch[i]) is Some && rec_key(batch[i]) == rec_key(
                        batch[batch.len() - 1],
                    ));
                    assert(kind_of(batch[i]) == kind_of(batch[batch.len() - 1]));
                }
            }
            assert(of_kind(batch, k) == of_kind(b, k).push(x));
            assert(rows_of(of_kind(b, k).push(x)) =~= rows_of(of_kind(b, k)).push(spec_to_row(x)));
        } else {
            assert(of_kind(batch, k) == of_kind(b, k));
        }
    }
}

/// A table holding exactly the encoded rows of well-formed records of one
/// shape decodes in full, back to those records.
pub proof fn lemma_rows_decode(k: RecordKind, b: Seq<TableTypeV>)
    requires
        forall|i: int| 0 <= i < b.len() ==> record_inv(#[trigger] b[i]),
        forall|i: int| 0 <= i < b.len() ==> kind_of(#[trigger] b[i]) == k,
    ensures
        table_decodes(k, rows_of(b)),
        decoded_table(k, rows_of(b)) =~= b,
{
    assert forall|i: int| 0 <= i < rows_of(b).len() implies spec_from_row(
        k,
        #[trigger] rows_of(b)[i],
    ) == Some(b[i]) by {
        crate::row::lemma_row_round_trip(b[i]);
    }
}

/// The write-then-read round trip on the relational backend: a batch
/// written into an empty store and fetched back by shape returns exactly
/// the batch's records of that shape, field for field and in order. The
/// heterogeneous count law rides along: the fetched batch of each shape
/// is as long as the written batch's share of that shape.
pub proof fn lemma_insert_fetch_round_trip(k: RecordKind, batch: Seq<TableTypeV>)
    requires
        forall|i: int| 0 <= i < batch.len() ==> record_inv(#[trigger] batch[i]),
        keys_distinct(batch),
    ensures
        table_decodes(k, spec_insert_list(k, Seq::empty(), batch)),
        decoded_table(k, spec_insert_list(k, Seq::empty(), batch)) =~= of_kind(batch, k),
        decoded_table(k, spec_insert_list(k, Seq::empty(), batch)).len() == count_of_kind(
            batch,
            k,
        ),
{
    lemma_insert_list_empty(k, batch);
    assert forall|j: int| 0 <= j < of_kind(batch, k).len() implies record_inv(
        #[trigger] of_kind(batch, k)[j],
    ) && kind_of(of_kind(batch, k)[j]) == k by {
        lemma_of_kind_membership(batch, k, j);
    }
    lemma_rows_decode(k, of_kind(batch, k));
    lemma_of_kind_count(batch, k);
    assert(decoded_table(k, spec_insert_list(k, Seq::empty(), batch)) =~= of_kind(batch, k));
}

/// The round trip for one shape's own batch: a homogeneous batch with
/// distinct keys, written into an empty store and fetched back, returns
/// exactly the batch, field for field and in order.
pub proof fn lemma_homogeneous_round_trip(k: RecordKind, batch: Seq<TableTypeV>)
    requires
        forall|i: int| 0 <= i < batch.len() ==> record_inv(#[trigger] batch[i]),
        forall|i: int| 0 <= i < batch.len() ==> kind_of(#[trigger] batch[i]) == k,
        keys_distinct(batch),
    ensures
        table_decodes(k, spec_insert_list(k, Seq::empty(), batch)),
        decoded_table(k, spec_insert_list(k, Seq::empty(), batch)) =~= batch,
{
    lemma_insert_fetch_round_trip(k, batch);
    lemma_of_kind_all(batch, k);
}

/// After a clear, a fetch of the same shape on the relational backend
/// succeeds and returns the empty batch.
pub proof fn lemma_clear_then_fetch_relational(s: &RelationalStore, k: RecordKind)
    requires
        s.table(k).len() == 0,
    ensures
        table_decodes(k, s.table(k)),
        decoded_table(k, s.table(k)) =~= Seq::<TableTypeV>::empty(),
{
}

/// After a clear, a fetch of the same shape on the document backend
/// returns the empty batch.
pub proof fn lemma_clear_then_fetch_document(s: &DocumentStore, k: RecordKind)
    requires
        s.collection(k).len() == 0,
    ensures
        crate::doc::spec_fetch_docs(k, s.collection(k)) =~= Seq::<TableTypeV>::empty(),
{
}


/// Inserting never removes rows: the old table stays a prefix of the new.
pub proof fn lemma_insert_list_prefix(k: RecordKind, table: Seq<Seq<CellV>>, batch: Seq<TableTypeV>)
    ensures
        spec_insert_list(k, table, batch).len() >= table.len(),
        forall|j: int|
            0 <= j < table.len() ==> #[trigger] spec_insert_list(k, table, batch)[j] == table[j],
    decreases batch.len(),
{
    if batch.len() > 0 {
        lemma_insert_list_prefix(k, table, batch.drop_last());
    }
}

/// A key present in a table stays present in any extension of it.
pub proof fn lemma_key_present_persists(
    col: Option<int>,
    t1: Seq<Seq<CellV>>,
    t2: Seq<Seq<CellV>>,
    row: Seq<CellV>,
)
    requires
        key_present_at(col, t1, row),
        t2.len() >= t1.len(),
        forall|j: int| 0 <= j < t1.len() ==> #[trigger] t2[j] == t1[j],
    ensures
        key_present_at(col, t2, row),
{
    let key = row_key_at(col, row)->Some_0;
    let j = choose|j: int| 0 <= j < t1.len() && row_key_at(col, #[trigger] t1[j]) == Some(key);
    assert(row_key_at(col, t2[j]) == Some(key));
}

/// After a batch insert, every inserted shape's record has its key
/// present in the table.
pub proof fn lemma_insert_list_keys_present(
    k: RecordKind,
    table: Seq<Seq<CellV>>,
    batch: Seq<TableTypeV>,
)
    requires
        forall|i: int|
            0 <= i < batch.len() && kind_of(#[trigger] batch[i]) == k ==> row_key_at(
                key_col(k),
                spec_to_row(batch[i]),
            ) is Some,
    ensures
        forall|i: int|
            0 <= i < batch.len() && kind_of(#[trigger] batch[i]) == k ==> key_present_at(
                key_col(k),
                spec_insert_list(k, table, batch),
                spec_to_row(batch[i]),
            ),
    decreases batch.len(),
{
    if batch.len() > 0 {
        let b = batch.drop_last();
        let x = batch.last();
        assert forall|i: int|
            0 <= i < b.len() && kind_of(#[trigger] b[i]) == k implies row_key_at(
            key_col(k),
            spec_to_row(b[i]),
        ) is Some by {
            assert(b[i] == batch[i]);
        }
        lemma_insert_list_keys_present(k, table, b);
        let t1 = spec_insert_list(k, table, b);
        let t2 = spec_insert_list(k, table, batch);
        assert(t2.len() >= t1.len() && forall|j: int| 0 <= j < t1.len() ==> #[trigger] t2[j] == t1[j]);
        assert forall|i: int|
            0 <= i < batch.len() && kind_of(#[trigger] batch[i]) == k implies key_present_at(
            key_col(k),
            t2,
            spec_to_row(batch[i]),
        ) by {
            if i < batch.len() - 1 {
                assert(batch[i] == b[i]);
                lemma_key_present_persists(key_col(k), t1, t2, spec_to_row(b[i]));
            } else {
                if key_present_at(key_col(k), t1, spec_to_row(x)) {
                    lemma_key_present_persists(key_col(k), t1, t2, spec_to_row(x));
                } else {
                    assert(t2 == t1.push(spec_to_row(x)));
                    let key = row_key_at(key_col(k), spec_to_row(x))->Some_0;
                    assert(row_key_at(key_col(k), t2[t1.len() as int]) == Some(key));
                }
            }
        }
    }
}

/// A batch whose shape's records all have their keys already present
/// changes nothing when inserted.
pub proof fn lemma_insert_list_stable(k: RecordKind, t0: Seq<Seq<CellV>>, batch: Seq<TableTypeV>)
    requires
        forall|i: int|
            0 <= i < batch.len() && kind_of(#[trigger] batch[i]) == k ==> key_present_at(
                key_col(k),
                t0,
                spec_to_row(batch[i]),
            ),
    ensures
        spec_insert_list(k, t0, batch) == t0,
    decreases batch.len(),
{
    if batch.len() > 0 {
        let b = batch.drop_last();
        assert forall|i: int|
            0 <= i < b.len() && kind_of(#[trigger] b[i]) == k implies key_present_at(
            key_col(k),
            t0,
            spec_to_row(b[i]),
        ) by {
            assert(b[i] == batch[i]);
        }
        lemma_insert_list_stable(k, t0, b);
    }
}

/// Idempotence of the relational insert: writing the same batch twice
/// leaves every table exactly as one write left it, provided every record
/// of the fetched shape bears a natural key — the duplicate-key tolerance
/// absorbs the whole repeat.
pub proof fn lemma_insert_batch_idempotent(
    k: RecordKind,
    table: Seq<Seq<CellV>>,
    batch: Seq<TableTypeV>,
)
    requires
        forall|i: int|
            0 <= i < batch.len() && kind_of(#[trigger] batch[i]) == k ==> rec_key(batch[i]) is Some,
    ensures
        spec_insert_list(k, spec_insert_list(k, table, batch), batch) == spec_insert_list(
            k,
            table,
            batch,
        ),
{
    assert forall|i: int|
        0 <= i < batch.len() && kind_of(#[trigger] batch[i]) == k implies row_key_at(
        key_col(k),
        spec_to_row(batch[i]),
    ) is Some by {
        lemma_rec_key_row(batch[i]);
    }
    lemma_insert_list_keys_present(k, table, batch);
    lemma_insert_list_stable(k, spec_insert_list(k, table, batch), batch);
}

// ---------------------------------------------------------------------
// The same laws for the document backend.
// ---------------------------------------------------------------------
/// The documents a list of records is encoded as.
pub open spec fn docs_of(b: Seq<TableTypeV>) -> Seq<crate::doc::DocumentV> {
    b.map_values(|t: TableTypeV| crate::doc::spec_to_document(t))
}

/// Inserting never removes documents: the old collection stays a prefix.
pub proof fn lemma_doc_insert_list_prefix(
    k: RecordKind,
    coll: Seq<crate::doc::DocumentV>,
    batch: Seq<TableTypeV>,
)
    ensures
        crate::doc::spec_insert_doc_list(k, coll, batch).len() >= coll.len(),
        forall|j: int|
            0 <= j < coll.len() ==> #[trigger] crate::doc::spec_insert_doc_list(k, coll, batch)[j]
                == coll[j],
    decreases batch.len(),
{
    if batch.len() > 0 {
        lemma_doc_insert_list_prefix(k, coll, batch.drop_last());
    }
}

/// A key present in a collection stays present in any extension of it.
pub proof fn lemma_doc_key_present_persists(
    col: Option<int>,
    c1: Seq<crate::doc::DocumentV>,
    c2: Seq<crate::doc::DocumentV>,
    values: Seq<CellV>,
)
    requires
        crate::doc::doc_key_present_at(col, c1, values),
        c2.len() >= c1.len(),
        forall|j: int| 0 <= j < c1.len() ==> #[trigger] c2[j] == c1[j],
    ensures
        crate::doc::doc_key_present_at(col, c2, values),
{
    let key = row_key_at(col, values)->Some_0;
    let j = choose|j: int|
        0 <= j < c1.len() && row_key_at(col, (#[trigger] c1[j]).values) == Some(key);
    assert(row_key_at(col, c2[j].values) == Some(key));
}

/// After a batch insert, every inserted shape's record has its key
/// present in the collection: the pre-filter finds it on a repeat.
pub proof fn lemma_doc_insert_list_keys_present(
    k: RecordKind,
    coll: Seq<crate::doc::DocumentV>,
    batch: Seq<TableTypeV>,
)
    requires
        forall|i: int|
            0 <= i < batch.len() && kind_of(#[trigger] batch[i]) == k ==> row_key_at(
                key_col(k),
                spec_to_row(batch[i]),
            ) is Some,
    ensures
        forall|i: int|
            0 <= i < batch.len() && kind_of(#[trigger] batch[i]) == k ==> crate::doc::doc_key_present_at(
                key_col(k),
                crate::doc::spec_insert_doc_list(k, coll, batch),
                spec_to_row(batch[i]),
            ),
    decreases batch.len(),
{
    if batch.len() > 0 {
        let b = batch.drop_last();
        let x = batch.last();
        assert forall|i: int|
            0 <= i < b.len() && kind_of(#[trigger] b[i]) == k implies row_key_at(
            key_col(k),
            spec_to_row(b[i]),
        ) is Some by {
            assert(b[i] == batch[i]);
        }
        lemma_doc_insert_list_keys_present(k, coll, b);
        let c1 = crate::doc::spec_insert_doc_list(k, coll, b);
        let c2 = crate::doc::spec_insert_doc_list(k, coll, batch);
        assert(c2.len() >= c1.len() && forall|j: int| 0 <= j < c1.len() ==> #[trigger] c2[j] == c1[j]);
        assert forall|i: int|
            0 <= i < batch.len() && kind_of(#[trigger] batch[i]) == k implies crate::doc::doc_key_present_at(
            key_col(k),
            c2,
            spec_to_row(batch[i]),
        ) by {
            if i < batch.len() - 1 {
                assert(batch[i] == b[i]);
                lemma_doc_key_present_persists(key_col(k), c1, c2, spec_to_row(b[i]));
            } else {
                let d = crate::doc::spec_to_document(x);
                if crate::doc::doc_key_present_at(key_col(k), c1, d.values) {
                    lemma_doc_key_present_persists(key_col(k), c1, c2, spec_to_row(x));
                } else {
                    assert(c2 == c1.push(d));
                    let key = row_key_at(key_col(k), spec_to_row(x))->Some_0;
                    assert(row_key_at(key_col(k), c2[c1.len() as int].values) == Some(key));
                }
            }
        }
    }
}

/// A batch whose shape's records the pre-filter already finds changes
/// nothing when inserted.
pub proof fn lemma_doc_insert_list_stable(
    k: RecordKind,
    c0: Seq<crate::doc::DocumentV>,
    batch: Seq<TableTypeV>,
)
    requires
        forall|i: int|
            0 <= i < batch.len() && kind_of(#[trigger] batch[i]) == k ==> crate::doc::doc_key_present_at(
                key_col(k),
                c0,
                spec_to_row(batch[i]),
            ),
    ensures
        crate::doc::spec_insert_doc_list(k, c0, batch) == c0,
    decreases batch.len(),
{
    if batch.len() > 0 {
        let b = batch.drop_last();
        assert forall|i: int|
            0 <= i < b.len() && kind_of(#[trigger] b[i]) == k implies crate::doc::doc_key_present_at(
            key_col(k),
            c0,
            spec_to_row(b[i]),
        ) by {
            assert(b[i] == batch[i]);
        }
        lemma_doc_insert_list_stable(k, c0, b);
    }
}

/// Idempotence of the document insert: on a repeated batch of key-bearing
/// records the pre-filter drops every document, and the collection stays
/// exactly as one write left it.
pub proof fn lemma_doc_insert_batch_idempotent(
    k: RecordKind,
    coll: Seq<crate::doc::DocumentV>,
    batch: Seq<TableTypeV>,
)
    requires
        forall|i: int|
            0 <= i < batch.len() && kind_of(#[trigger] batch[i]) == k ==> rec_key(batch[i]) is Some,
    ensures
        crate::doc::spec_insert_doc_list(
            k,
            crate::doc::spec_insert_doc_list(k, coll, batch),
            batch,
        ) == crate::doc::spec_insert_doc_list(k, coll, batch),
{
    assert forall|i: int|
        0 <= i < batch.len() && kind_of(#[trigger] batch[i]) == k implies row_key_at(
        key_col(k),
        spec_to_row(batch[i]),
    ) is Some by {
        lemma_rec_key_row(batch[i]);
    }
    lemma_doc_insert_list_keys_present(k, coll, batch);
    lemma_doc_insert_list_stable(k, crate::doc::spec_insert_doc_list(k, coll, batch), batch);
}

/// Inserting a batch into an empty collection leaves exactly the encoded
/// documents of the batch's records of that shape, in order.
pub proof fn lemma_doc_insert_list_empty(k: RecordKind, batch: Seq<TableTypeV>)
    requires
        forall|i: int| 0 <= i < batch.len() ==> record_inv(#[trigger] batch[i]),
        keys_distinct(batch),
    ensures
        crate::doc::spec_insert_doc_list(k, Seq::empty(), batch) =~= docs_of(of_kind(batch, k)),
    decreases batch.len(),
{
    if batch.len() == 0 {
        assert(of_kind(batch, k) =~= Seq::<TableTypeV>::empty());
    } else {
        let b = batch.drop_last();
        let x = batch.last();
        assert forall|i: int| 0 <= i < b.len() implies record_inv(#[trigger] b[i]) by {
            assert(b[i] == batch[i]);
        }
        assert forall|i: int, j: int|
            0 <= i < j < b.len() && (#[trigger] rec_key(b[i])) is Some && kind_of(b[i]) == kind_of(
                b[j],
            ) implies rec_key(b[i]) != #[trigger] rec_key(b[j]) by {
            assert(b[i] == batch[i] && b[j] == batch[j]);
        }
        lemma_doc_insert_list_empty(k, b);
        let coll = crate::doc::spec_insert_doc_list(k, Seq::<crate::doc::DocumentV>::empty(), b);
        if kind_of(x) == k {
            let d = crate::doc::spec_to_document(x);
            assert(!crate::doc::doc_key_present_at(key_col(k), coll, d.values)) by {
                if crate::doc::doc_key_present_at(key_col(k), coll, d.values) {
                    let key = row_key_at(key_col(k), d.values)->Some_0;
                    let j = choose|j: int|
                        0 <= j < coll.len() && row_key_at(key_col(k), (#[trigger] coll[j]).values)
                            == Some(key);
                    assert(coll[j] == crate::doc::spec_to_document(of_kind(b, k)[j]));
                    lemma_of_kind_membership(b, k, j);
                    let i = choose|i: int|
                        0 <= i < b.len() && b[i] == of_kind(b, k)[j] && kind_of(#[trigger] b[i])
                            == k;
                    lemma_rec_key_row(b[i]);
                    lemma_rec_key_row(x);
                    assert(rec_key(batch[i]) is Some && rec_key(batch[i]) == rec_key(
                        batch[batch.len() - 1],
                    ));
                    assert(kind_of(batch[i]) == kind_of(batch[batch.len() - 1]));
                }
            }
            assert(of_kind(batch, k) == of_kind(b, k).push(x));
            assert(docs_of(of_kind(b, k).push(x)) =~= docs_of(of_kind(b, k)).push(d));
        } else {
            assert(of_kind(batch, k) == of_kind(b, k));
        }
    }
}

/// A collection holding exactly the encoded documents of well-formed
/// records of one shape is read back in full, to those records.
pub proof fn lemma_docs_fetch(k: RecordKind, b: Seq<TableTypeV>)
    requires
        forall|i: int| 0 <= i < b.len() ==> record_inv(#[trigger] b[i]),
        forall|i: int| 0 <= i < b.len() ==> kind_of(#[trigger] b[i]) == k,
    ensures
        crate::doc::spec_fetch_docs(k, docs_of(b)) =~= b,
    decreases b.len(),
{
    if b.len() > 0 {
        let bb = b.drop_last();
        assert forall|i: int| 0 <= i < bb.len() implies record_inv(#[trigger] bb[i]) && kind_of(
            bb[i],
        ) == k by {
            assert(bb[i] == b[i]);
        }
        lemma_docs_fetch(k, bb);
        assert(docs_of(b).drop_last() =~= docs_of(bb));
        assert(docs_of(b).last() == crate::doc::spec_to_document(b.last()));
        crate::doc::lemma_doc_round_trip(b.last());
    }
}

/// The write-then-read round trip on the document backend: a batch
/// written into an empty store and fetched back by shape returns exactly
/// the batch's records of that shape, field for field and in order.
pub proof fn lemma_doc_insert_fetch_round_trip(k: RecordKind, batch: Seq<TableTypeV>)
    requires
        forall|i: int| 0 <= i < batch.len() ==> record_inv(#[trigger] batch[i]),
        keys_distinct(batch),
    ensures
        crate::doc::spec_fetch_docs(k, crate::doc::spec_insert_doc_list(k, Seq::empty(), batch))
            =~= of_kind(batch, k),
        crate::doc::spec_fetch_docs(
            k,
            crate::doc::spec_insert_doc_list(k, Seq::empty(), batch),
        ).len() == count_of_kind(batch, k),
{
    lemma_doc_insert_list_empty(k, batch);
    assert forall|j: int| 0 <= j < of_kind(batch, k).len() implies record_inv(
        #[trigger] of_kind(batch, k)[j],
    ) && kind_of(of_kind(batch, k)[j]) == k by {
        lemma_of_kind_membership(batch, k, j);
    }
    lemma_docs_fetch(k, of_kind(batch, k));
    lemma_of_kind_count(batch, k);
    assert(crate::doc::spec_fetch_docs(
        k,
        crate::doc::spec_insert_doc_list(k, Seq::empty(), batch),
    ) =~= of_kind(batch, k));
}


// ---------------------------------------------------------------------
// Generated fields are never empty.
// ---------------------------------------------------------------------
/// Every text field of a record, by shape, is non-empty.
pub open spec fn record_fields_nonempty(t: TableTypeV) -> bool {
    match t {
        TableTypeV::Address(a) => a.city.len() > 0 && a.street.len() > 0 && a.street_number.len()
            > 0 && a.postal_code.len() > 0,
        TableTypeV::Client(c) => c.first_name.len() > 0 && c.last_name.len() > 0 && c.email.len()
            > 0 && c.phone_number.len() > 0,
        TableTypeV::Contract(c) => c.type_of_contract.len() > 0,
        TableTypeV::Employee(e) => e.first_name.len() > 0 && e.last_name.len() > 0 && e.email.len()
            > 0 && e.phone_number.len() > 0 && e.position.len() > 0,
        TableTypeV::Payment(p) => p.method.len() > 0,
        TableTypeV::Project(p) => p.name.len() > 0 && p.description.len() > 0 && p.status.len()
            > 0,
        TableTypeV::Task(t) => t.name.len() > 0 && t.description.len() > 0 && t.status.len() > 0,
        TableTypeV::Technology(v) => v.name.len() > 0 && v.description.len() > 0,
    }
}

/// A word drawn from a list of non-empty words, or a non-empty fallback,
/// is non-empty.
pub proof fn lemma_word_nonempty(s: Seq<char>, list: Seq<String>, fb: Seq<char>)
    requires
        crate::gen::from_list_or(s, list, fb),
        fb.len() > 0,
        forall|i: int| 0 <= i < list.len() ==> (#[trigger] list[i])@.len() > 0,
    ensures
        s.len() > 0,
{
    if list.len() > 0 {
        let i = choose|i: int| 0 <= i < list.len() && s == list[i]@;
        assert(list[i]@.len() > 0);
    }
}

/// Every text field of a generated record is non-empty, provided every
/// supplied word is; the numeric bounds are part of the generation
/// predicates themselves.
pub proof fn lemma_generated_fields_nonempty(
    t: TableTypeV,
    firsts: Seq<String>,
    lasts: Seq<String>,
    cities: Seq<String>,
    streets: Seq<String>,
)
    requires
        crate::dispatch::gen_record_ok(t, firsts, lasts, cities, streets),
        forall|i: int| 0 <= i < firsts.len() ==> (#[trigger] firsts[i])@.len() > 0,
        forall|i: int| 0 <= i < lasts.len() ==> (#[trigger] lasts[i])@.len() > 0,
        forall|i: int| 0 <= i < cities.len() ==> (#[trigger] cities[i])@.len() > 0,
        forall|i: int| 0 <= i < streets.len() ==> (#[trigger] streets[i])@.len() > 0,
    ensures
        record_fields_nonempty(t),
{
    reveal_strlit("Default City");
    reveal_strlit("Default Street");
    reveal_strlit("John");
    reveal_strlit("Doe");
    reveal_strlit(".");
    reveal_strlit("-");
    reveal_strlit("+48 ");
    match t {
        TableTypeV::Address(a) => {
            lemma_word_nonempty(a.city, cities, "Default City"@);
            lemma_word_nonempty(a.street, streets, "Default Street"@);
            let n = choose|n: int| 1 <= n <= 200 && a.street_number == crate::gen::dec_str(n);
            crate::gen::lemma_dec_str_len(n);
            let (x, y) = choose|x: int, y: int|
                10 <= x <= 99 && 100 <= y <= 999 && a.postal_code == crate::gen::dec_str(x) + "-"@
                    + crate::gen::dec_str(y);
            crate::gen::lemma_dec_str_len(x);
        },
        TableTypeV::Client(c) => {
            lemma_word_nonempty(c.first_name, firsts, "John"@);
            lemma_word_nonempty(c.last_name, lasts, "Doe"@);
            let n = choose|n: int|
                6_000_000_000 <= n < 9_000_000_000 && c.phone_number == crate::gen::phone_str(n);
            crate::gen::lemma_dec_str_len(n);
        },
        TableTypeV::Contract(c) => {
            reveal_strlit("B2B");
            reveal_strlit("UoP");
            reveal_strlit("Mandate Contract");
            reveal_strlit("Contract of Employment");
        },
        TableTypeV::Employee(e) => {
            lemma_word_nonempty(e.first_name, firsts, "John"@);
            lemma_word_nonempty(e.last_name, lasts, "Doe"@);
            let n = choose|n: int|
                600_000_000 <= n < 999_999_999 && e.phone_number == crate::gen::phone_str(n);
            crate::gen::lemma_dec_str_len(n);
            reveal_strlit("HR");
            reveal_strlit("IT");
            reveal_strlit("Finance");
            reveal_strlit("Sales");
            reveal_strlit("Administration");
            reveal_strlit("Public Relations");
        },
        TableTypeV::Payment(p) => {
            reveal_strlit("Credit Card");
            reveal_strlit("Bank Transfer");
            reveal_strlit("PayPal");
            reveal_strlit("Cash");
            reveal_strlit("Cryptocurrency");
        },
        TableTypeV::Project(p) => {
            reveal_strlit("Project A");
            reveal_strlit("Project B");
            reveal_strlit("Project C");
            reveal_strlit("Project D");
            reveal_strlit("A project focused on AI research.");
            reveal_strlit("A new web development initiative.");
            reveal_strlit("A marketing campaign for a new product.");
            reveal_strlit("A system upgrade for internal software.");
            reveal_strlit("Not Started");
            reveal_strlit("In Progress");
            reveal_strlit("Completed");
        },
        TableTypeV::Task(tk) => {
            reveal_strlit("Task A");
            reveal_strlit("Task B");
            reveal_strlit("Task C");
            reveal_strlit("Task D");
            reveal_strlit("Task to research new technology.");
            reveal_strlit("Task for setting up a new server.");
            reveal_strlit("Task to write documentation.");
            reveal_strlit("Task for a software code review.");
            reveal_strlit("Not Started");
            reveal_strlit("In Progress");
            reveal_strlit("Completed");
        },
        TableTypeV::Technology(v) => {
            reveal_strlit("Rust Programming");
            reveal_strlit("Machine Learning");
            reveal_strlit("Blockchain");
            reveal_strlit("Quantum Computing");
            reveal_strlit("Artificial Intelligence");
            reveal_strlit("Cloud Computing");
            reveal_strlit("Internet of Things");
            reveal_strlit("A systems programming language focused on performance and safety.");
            reveal_strlit(
                "A subset of artificial intelligence that focuses on algorithms and models that allow machines to learn from data.",
            );
            reveal_strlit("A decentralized technology for secure and transparent transactions.");
            reveal_strlit(
                "A new field of computing that uses quantum mechanics to process information.",
            );
            reveal_strlit(
                "A field of study in computer science that involves creating intelligent machines capable of performing tasks that usually require human intelligence.",
            );
            reveal_strlit(
                "A model of computing where services and resources are provided over the internet.",
            );
            reveal_strlit(
                "A network of physical devices, vehicles, buildings, and other objects embedded with sensors and software for the purpose of connecting and exchanging data.",
            );
            let i = choose|i: int|
                0 <= i < 7 && v.name == crate::gen::tech_name(i) && v.description
                    == crate::gen::tech_desc(i);
            assert(v.name.len() > 0 && v.description.len() > 0);
        },
    }
}


// ---------------------------------------------------------------------
// The same laws for the staff pipeline, where every row bears a key.
// ---------------------------------------------------------------------
/// The rows a staff batch is encoded as.
pub open spec fn staff_rows_of(b: Seq<crate::record::StaffV>) -> Seq<Seq<CellV>> {
    b.map_values(|s: crate::record::StaffV| crate::row::spec_staff_to_row(s))
}

/// Inserting staff never removes rows: the old table stays a prefix.
pub proof fn lemma_staff_insert_prefix(table: Seq<Seq<CellV>>, batch: Seq<crate::record::StaffV>)
    ensures
        crate::store::spec_insert_staff_list(table, batch).len() >= table.len(),
        forall|j: int|
            0 <= j < table.len() ==> #[trigger] crate::store::spec_insert_staff_list(
                table,
                batch,
            )[j] == table[j],
    decreases batch.len(),
{
    if batch.len() > 0 {
        lemma_staff_insert_prefix(table, batch.drop_last());
    }
}

/// After a staff batch insert, every member's contact-number key is
/// present in the table.
pub proof fn lemma_staff_keys_present(table: Seq<Seq<CellV>>, batch: Seq<crate::record::StaffV>)
    ensures
        forall|i: int|
            0 <= i < batch.len() ==> key_present_at(
                Some(3),
                crate::store::spec_insert_staff_list(table, batch),
                crate::row::spec_staff_to_row(#[trigger] batch[i]),
            ),
    decreases batch.len(),
{
    if batch.len() > 0 {
        let b = batch.drop_last();
        let x = batch.last();
        lemma_staff_keys_present(table, b);
        let t1 = crate::store::spec_insert_staff_list(table, b);
        let t2 = crate::store::spec_insert_staff_list(table, batch);
        assert(t2.len() >= t1.len() && forall|j: int| 0 <= j < t1.len() ==> #[trigger] t2[j] == t1[j]);
        assert forall|i: int|
            0 <= i < batch.len() implies key_present_at(
            Some(3),
            t2,
            crate::row::spec_staff_to_row(#[trigger] batch[i]),
        ) by {
            if i < batch.len() - 1 {
                assert(batch[i] == b[i]);
                lemma_key_present_persists(
                    Some(3),
                    t1,
                    t2,
                    crate::row::spec_staff_to_row(b[i]),
                );
            } else {
                let row = crate::row::spec_staff_to_row(x);
                if key_present_at(Some(3), t1, row) {
                    lemma_key_present_persists(Some(3), t1, t2, row);
                } else {
                    assert(t2 == t1.push(row));
                    assert(row_key_at(Some(3), t2[t1.len() as int]) == Some(row[3]));
                }
            }
        }
    }
}

/// A staff batch whose members' keys are all present changes nothing when
/// inserted.
pub proof fn lemma_staff_insert_stable(t0: Seq<Seq<CellV>>, batch: Seq<crate::record::StaffV>)
    requires
        forall|i: int|
            0 <= i < batch.len() ==> key_present_at(
                Some(3),
                t0,
                crate::row::spec_staff_to_row(#[trigger] batch[i]),
            ),
    ensures
        crate::store::spec_insert_staff_list(t0, batch) == t0,
    decreases batch.len(),
{
    if batch.len() > 0 {
        let b = batch.drop_last();
        assert forall|i: int|
            0 <= i < b.len() implies key_present_at(
            Some(3),
            t0,
            crate::row::spec_staff_to_row(#[trigger] b[i]),
        ) by {
            assert(b[i] == batch[i]);
        }
        lemma_staff_insert_stable(t0, b);
    }
}

/// Idempotence of the staff insert: every staff row is keyed by its
/// contact number, so a repeated batch never duplicates rows, with no
/// side condition at all.
pub proof fn lemma_staff_insert_idempotent(
    table: Seq<Seq<CellV>>,
    batch: Seq<crate::record::StaffV>,
)
    ensures
        crate::store::spec_insert_staff_list(
            crate::store::spec_insert_staff_list(table, batch),
            batch,
        ) == crate::store::spec_insert_staff_list(table, batch),
{
    lemma_staff_keys_present(table, batch);
    lemma_staff_insert_stable(crate::store::spec_insert_staff_list(table, batch), batch);
}

/// Inserting a staff batch with pairwise distinct contact numbers into an
/// empty table keeps every row, in order.
pub proof fn lemma_staff_insert_list_empty(batch: Seq<crate::record::StaffV>)
    requires
        forall|i: int, j: int| 0 <= i < j < batch.len() ==> batch[i].phone != batch[j].phone,
    ensures
        crate::store::spec_insert_staff_list(Seq::empty(), batch) =~= staff_rows_of(batch),
    decreases batch.len(),
{
    if batch.len() > 0 {
        let b = batch.drop_last();
        let x = batch.last();
        assert forall|i: int, j: int| 0 <= i < j < b.len() implies b[i].phone != b[j].phone by {
            assert(b[i] == batch[i] && b[j] == batch[j]);
        }
        lemma_staff_insert_list_empty(b);
        let table = crate::store::spec_insert_staff_list(Seq::<Seq<CellV>>::empty(), b);
        let row = crate::row::spec_staff_to_row(x);
        assert(!key_present_at(Some(3), table, row)) by {
            if key_present_at(Some(3), table, row) {
                let j = choose|j: int|
                    0 <= j < table.len() && row_key_at(Some(3), #[trigger] table[j]) == Some(
                        row[3],
                    );
                assert(table[j] == crate::row::spec_staff_to_row(b[j]));
                assert(b[j].phone == x.phone);
                assert(batch[j] == b[j] && batch[batch.len() - 1] == x);
            }
        }
        assert(staff_rows_of(batch) =~= staff_rows_of(b).push(row));
    }
}

/// The staff write-then-read round trip: a staff batch with valid hire
/// dates and distinct contact numbers, written into an empty table and
/// fetched back, returns exactly the batch.
pub proof fn lemma_staff_round_trip_store(batch: Seq<crate::record::StaffV>)
    requires
        forall|i: int| 0 <= i < batch.len() ==> (#[trigger] batch[i]).hire_date.valid(),
        forall|i: int, j: int| 0 <= i < j < batch.len() ==> batch[i].phone != batch[j].phone,
    ensures
        crate::store::staff_decodes(crate::store::spec_insert_staff_list(Seq::empty(), batch)),
        crate::store::decoded_staff(
            crate::store::spec_insert_staff_list(Seq::empty(), batch),
        ) =~= batch,
{
    lemma_staff_insert_list_empty(batch);
    assert forall|i: int| 0 <= i < staff_rows_of(batch).len() implies crate::row::spec_staff_from_row(
        #[trigger] staff_rows_of(batch)[i],
    ) == Some(batch[i]) by {
        crate::row::lemma_staff_round_trip(batch[i]);
    }
    assert(crate::store::decoded_staff(crate::store::spec_insert_staff_list(Seq::empty(), batch))
        =~= batch);
}


// ---------------------------------------------------------------------
// Round trips for batches with repeated keys.
// ---------------------------------------------------------------------
/// The records of a batch that survive key-dedup: a record stays when it
/// bears no natural key, or when no earlier record carries the same key.
pub open spec fn dedup_keyed(b: Seq<TableTypeV>) -> Seq<TableTypeV>
    decreases b.len(),
{
    if b.len() == 0 {
        Seq::empty()
    } else {
        let rest = dedup_keyed(b.drop_last());
        if rec_key(b.last()) is Some && (exists|i: int|
            0 <= i < b.len() - 1 && #[trigger] rec_key(b[i]) == rec_key(b.last())) {
            rest
        } else {
            rest.push(b.last())
        }
    }
}

/// Every survivor of key-dedup is a record of the batch.
pub proof fn lemma_dedup_membership(b: Seq<TableTypeV>, j: int)
    requires
        0 <= j < dedup_keyed(b).len(),
    ensures
        exists|i: int| 0 <= i < b.len() && #[trigger] b[i] == dedup_keyed(b)[j],
    decreases b.len(),
{
    if b.len() > 0 {
        let rest = dedup_keyed(b.drop_last());
        if j < rest.len() {
            lemma_dedup_membership(b.drop_last(), j);
            let i = choose|i: int|
                0 <= i < b.drop_last().len() && #[trigger] b.drop_last()[i] == dedup_keyed(
                    b.drop_last(),
                )[j];
            assert(b[i] == dedup_keyed(b)[j]);
        } else {
            assert(b[b.len() - 1] == dedup_keyed(b)[j]);
        }
    }
}

/// Key-dedup keeps every natural key: a key borne by some record of the
/// batch is borne by some survivor.
pub proof fn lemma_dedup_keeps_keys(b: Seq<TableTypeV>, p: Seq<char>)
    requires
        exists|i: int| 0 <= i < b.len() && #[trigger] rec_key(b[i]) == Some(p),
    ensures
        exists|j: int|
            0 <= j < dedup_keyed(b).len() && #[trigger] rec_key(dedup_keyed(b)[j]) == Some(p),
    decreases b.len(),
{
    let x = b.last();
    let bp = b.drop_last();
    let rest = dedup_keyed(bp);
    let i0 = choose|i: int| 0 <= i < b.len() && #[trigger] rec_key(b[i]) == Some(p);
    if rec_key(x) is Some && (exists|i: int|
        0 <= i < b.len() - 1 && #[trigger] rec_key(b[i]) == rec_key(x)) {
        // The last record was dropped; its key, and any other, lives on in
        // the shorter batch.
        if i0 == b.len() - 1 {
            let i1 = choose|i: int|
                0 <= i < b.len() - 1 && #[trigger] rec_key(b[i]) == rec_key(x);
            assert(rec_key(bp[i1]) == Some(p));
        } else {
            assert(rec_key(bp[i0]) == Some(p));
        }
        lemma_dedup_keeps_keys(bp, p);
        let j = choose|j: int|
            0 <= j < rest.len() && #[trigger] rec_key(rest[j]) == Some(p);
        assert(rec_key(dedup_keyed(b)[j]) == Some(p));
    } else {
        if i0 == b.len() - 1 {
            assert(rec_key(dedup_keyed(b)[dedup_keyed(b).len() - 1]) == Some(p));
        } else {
            assert(rec_key(bp[i0]) == Some(p));
            lemma_dedup_keeps_keys(bp, p);
            let j = choose|j: int|
                0 <= j < rest.len() && #[trigger] rec_key(rest[j]) == Some(p);
            assert(rec_key(dedup_keyed(b)[j]) == Some(p));
        }
    }
}

/// Inserting a homogeneous batch into an empty table leaves exactly the
/// encoded rows of the records that survive key-dedup, in order.
pub proof fn lemma_insert_list_dedup(k: RecordKind, batch: Seq<TableTypeV>)
    requires
        forall|i: int| 0 <= i < batch.len() ==> record_inv(#[trigger] batch[i]),
        forall|i: int| 0 <= i < batch.len() ==> kind_of(#[trigger] batch[i]) == k,
    ensures
        spec_insert_list(k, Seq::empty(), batch) =~= rows_of(dedup_keyed(batch)),
    decreases batch.len(),
{
    if batch.len() == 0 {
        assert(dedup_keyed(batch) =~= Seq::<TableTypeV>::empty());
    } else {
        let b = batch.drop_last();
        let x = batch.last();
        assert forall|i: int| 0 <= i < b.len() implies record_inv(#[trigger] b[i]) && kind_of(
            b[i],
        ) == k by {
            assert(b[i] == batch[i]);
        }
        lemma_insert_list_dedup(k, b);
        let table = spec_insert_list(k, Seq::<Seq<CellV>>::empty(), b);
        let rest = dedup_keyed(b);
        lemma_rec_key_row(x);
        match rec_key(x) {
            None => {
                // No key: neither the table insert nor the dedup drops it.
                assert(!key_present_at(key_col(k), table, spec_to_row(x)));
                assert(dedup_keyed(batch) == rest.push(x));
                assert(rows_of(rest.push(x)) =~= rows_of(rest).push(spec_to_row(x)));
            },
            Some(p) => {
                // The table holds the key exactly when some earlier record
                // bears it, so the insert and the dedup agree.
                let present_in_batch = exists|i: int|
                    0 <= i < b.len() && #[trigger] rec_key(b[i]) == Some(p);
                if key_present_at(key_col(k), table, spec_to_row(x)) {
                    let key = row_key_at(key_col(k), spec_to_row(x))->Some_0;
                    let j = choose|j: int|
                        0 <= j < table.len() && row_key_at(key_col(k), #[trigger] table[j]) == Some(
                            key,
                        );
                    assert(table[j] == spec_to_row(rest[j]));
                    lemma_dedup_membership(b, j);
                    let i = choose|i: int| 0 <= i < b.len() && #[trigger] b[i] == rest[j];
                    lemma_rec_key_row(b[i]);
                    assert(rec_key(b[i]) == Some(p));
                    assert(present_in_batch);
                    assert(exists|i2: int|
                        0 <= i2 < batch.len() - 1 && #[trigger] rec_key(batch[i2]) == rec_key(x));
                    assert(dedup_keyed(batch) == rest);
                } else {
                    assert(!present_in_batch) by {
                        if present_in_batch {
                            lemma_dedup_keeps_keys(b, p);
                            let j = choose|j: int|
                                0 <= j < rest.len() && #[trigger] rec_key(rest[j]) == Some(p);
                            lemma_dedup_membership(b, j);
                            let i = choose|i: int| 0 <= i < b.len() && #[trigger] b[i] == rest[j];
                            lemma_rec_key_row(rest[j]);
                            assert(row_key_at(key_col(k), table[j]) == Some(CellV::S(p)));
                            assert(key_present_at(key_col(k), table, spec_to_row(x)));
                        }
                    }
                    assert(!(exists|i2: int|
                        0 <= i2 < batch.len() - 1 && #[trigger] rec_key(batch[i2]) == rec_key(
                            x,
                        ))) by {
                        if exists|i2: int|
                            0 <= i2 < batch.len() - 1 && #[trigger] rec_key(batch[i2]) == rec_key(
                                x,
                            ) {
                            let i2 = choose|i2: int|
                                0 <= i2 < batch.len() - 1 && #[trigger] rec_key(batch[i2])
                                    == rec_key(x);
                            assert(rec_key(b[i2]) == Some(p));
                        }
                    }
                    assert(dedup_keyed(batch) == rest.push(x));
                    assert(rows_of(rest.push(x)) =~= rows_of(rest).push(spec_to_row(x)));
                }
            },
        }
    }
}

/// The write-then-read round trip for a homogeneous batch that may repeat
/// natural keys: the fetch returns exactly the records surviving
/// key-dedup, field for field and in order — duplicates silently
/// absorbed, everything else intact.
pub proof fn lemma_insert_fetch_dedup_round_trip(k: RecordKind, batch: Seq<TableTypeV>)
    requires
        forall|i: int| 0 <= i < batch.len() ==> record_inv(#[trigger] batch[i]),
        forall|i: int| 0 <= i < batch.len() ==> kind_of(#[trigger] batch[i]) == k,
    ensures
        table_decodes(k, spec_insert_list(k, Seq::empty(), batch)),
        decoded_table(k, spec_insert_list(k, Seq::empty(), batch)) =~= dedup_keyed(batch),
{
    lemma_insert_list_dedup(k, batch);
    assert forall|j: int| 0 <= j < dedup_keyed(batch).len() implies record_inv(
        #[trigger] dedup_keyed(batch)[j],
    ) && kind_of(dedup_keyed(batch)[j]) == k by {
        lemma_dedup_membership(batch, j);
    }
    lemma_rows_decode(k, dedup_keyed(batch));
    assert(decoded_table(k, spec_insert_list(k, Seq::empty(), batch)) =~= dedup_keyed(batch));
}


/// Inserting a homogeneous batch into an empty collection leaves exactly
/// the encoded documents of the records that survive key-dedup, in order:
/// the pre-filter drops the same repeats the relational insert ignores.
pub proof fn lemma_doc_insert_list_dedup(k: RecordKind, batch: Seq<TableTypeV>)
    requires
        forall|i: int| 0 <= i < batch.len() ==> record_inv(#[trigger] batch[i]),
        forall|i: int| 0 <= i < batch.len() ==> kind_of(#[trigger] batch[i]) == k,
    ensures
        crate::doc::spec_insert_doc_list(k, Seq::empty(), batch) =~= docs_of(dedup_keyed(batch)),
    decreases batch.len(),
{
    if batch.len() == 0 {
        assert(dedup_keyed(batch) =~= Seq::<TableTypeV>::empty());
    } else {
        let b = batch.drop_last();
        let x = batch.last();
        assert forall|i: int| 0 <= i < b.len() implies record_inv(#[trigger] b[i]) && kind_of(
            b[i],
        ) == k by {
            assert(b[i] == batch[i]);
        }
        lemma_doc_insert_list_dedup(k, b);
        let coll = crate::doc::spec_insert_doc_list(k, Seq::<crate::doc::DocumentV>::empty(), b);
        let rest = dedup_keyed(b);
        let d = crate::doc::spec_to_document(x);
        lemma_rec_key_row(x);
        match rec_key(x) {
            None => {
                assert(!crate::doc::doc_key_present_at(key_col(k), coll, d.values));
                assert(dedup_keyed(batch) == rest.push(x));
                assert(docs_of(rest.push(x)) =~= docs_of(rest).push(d));
            },
            Some(p) => {
                let present_in_batch = exists|i: int|
                    0 <= i < b.len() && #[trigger] rec_key(b[i]) == Some(p);
                if crate::doc::doc_key_present_at(key_col(k), coll, d.values) {
                    let key = row_key_at(key_col(k), d.values)->Some_0;
                    let j = choose|j: int|
                        0 <= j < coll.len() && row_key_at(key_col(k), (#[trigger] coll[j]).values)
                            == Some(key);
                    assert(coll[j] == crate::doc::spec_to_document(rest[j]));
                    lemma_dedup_membership(b, j);
                    let i = choose|i: int| 0 <= i < b.len() && #[trigger] b[i] == rest[j];
                    lemma_rec_key_row(b[i]);
                    assert(rec_key(b[i]) == Some(p));
                    assert(present_in_batch);
                    assert(exists|i2: int|
                        0 <= i2 < batch.len() - 1 && #[trigger] rec_key(batch[i2]) == rec_key(x));
                    assert(dedup_keyed(batch) == rest);
                } else {
                    assert(!present_in_batch) by {
                        if present_in_batch {
                            lemma_dedup_keeps_keys(b, p);
                            let j = choose|j: int|
                                0 <= j < rest.len() && #[trigger] rec_key(rest[j]) == Some(p);
                            lemma_dedup_membership(b, j);
                            let i = choose|i: int| 0 <= i < b.len() && #[trigger] b[i] == rest[j];
                            lemma_rec_key_row(rest[j]);
                            assert(row_key_at(key_col(k), coll[j].values) == Some(CellV::S(p)));
                            assert(crate::doc::doc_key_present_at(key_col(k), coll, d.values));
                        }
                    }
                    assert(!(exists|i2: int|
                        0 <= i2 < batch.len() - 1 && #[trigger] rec_key(batch[i2]) == rec_key(
                            x,
                        ))) by {
                        if exists|i2: int|
                            0 <= i2 < batch.len() - 1 && #[trigger] rec_key(batch[i2]) == rec_key(
                                x,
                            ) {
                            let i2 = choose|i2: int|
                                0 <= i2 < batch.len() - 1 && #[trigger] rec_key(batch[i2])
                                    == rec_key(x);
                            assert(rec_key(b[i2]) == Some(p));
                        }
                    }
                    assert(dedup_keyed(batch) == rest.push(x));
                    assert(docs_of(rest.push(x)) =~= docs_of(rest).push(d));
                }
            },
        }
    }
}

/// The document write-then-read round trip for a homogeneous batch that
/// may repeat natural keys: the fetch returns exactly the records
/// surviving key-dedup, in order.
pub proof fn lemma_doc_insert_fetch_dedup_round_trip(k: RecordKind, batch: Seq<TableTypeV>)
    requires
        forall|i: int| 0 <= i < batch.len() ==> record_inv(#[trigger] batch[i]),
        forall|i: int| 0 <= i < batch.len() ==> kind_of(#[trigger] batch[i]) == k,
    ensures
        crate::doc::spec_fetch_docs(
            k,
            crate::doc::spec_insert_doc_list(k, Seq::empty(), batch),
        ) =~= dedup_keyed(batch),
{
    lemma_doc_insert_list_dedup(k, batch);
    assert forall|j: int| 0 <= j < dedup_keyed(batch).len() implies record_inv(
        #[trigger] dedup_keyed(batch)[j],
    ) && kind_of(dedup_keyed(batch)[j]) == k by {
        lemma_dedup_membership(batch, j);
    }
    lemma_docs_fetch(k, dedup_keyed(batch));
    assert(crate::doc::spec_fetch_docs(
        k,
        crate::doc::spec_insert_doc_list(k, Seq::empty(), batch),
    ) =~= dedup_keyed(batch));
}

} // verus!
