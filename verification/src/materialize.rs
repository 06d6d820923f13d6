//! Materialization of columnar batches into row mappings.

use vstd::prelude::*;

use crate::row::BatchDataFrameRow;
use crate::value::{BatchDataFrameValue, DataFrameError, ScalarModel};

verus! {

/// The decoded data of one column: one plain value per row, or the marker
/// for a column whose declared type is outside the supported set.
#[derive(Debug)]
pub enum ColumnData {
    Integer(Vec<i32>),
    Text(Vec<String>),
    Timestamp(Vec<i64>),
    /// A column declared with a type this library does not materialize;
    /// meeting one fails the whole materialization call.
    Unsupported,
}

impl ColumnData {
    /// Whether this column's declared type is one the library materializes.
    pub open spec fn is_supported(&self) -> bool {
        !(self is Unsupported)
    }

    /// How many cells this column holds.
    pub open spec fn len(&self) -> nat {
        match self {
            ColumnData::Integer(v) => v@.len(),
            ColumnData::Text(v) => v@.len(),
            ColumnData::Timestamp(v) => v@.len(),
            ColumnData::Unsupported => 0,
        }
    }

    /// The scalar this column holds at row `i`.
    pub open spec fn cell(&self, i: int) -> ScalarModel {
        match self {
            ColumnData::Integer(v) => ScalarModel::Integer(v@[i]),
            ColumnData::Text(v) => ScalarModel::Text(v@[i]@),
            ColumnData::Timestamp(v) => ScalarModel::Timestamp(v@[i]),
            ColumnData::Unsupported => arbitrary(),
        }
    }
}

/// One named column of a batch.
#[derive(Debug)]
pub struct Column {
    pub name: String,
    pub data: ColumnData,
}

/// An immutable columnar block: a row count and one decoded column per
/// schema entry, in schema order.
#[derive(Debug)]
pub struct Batch {
    pub num_rows: usize,
    pub columns: Vec<Column>,
}

impl Batch {
    /// Every supported column holds exactly one cell per row. Batches whose
    /// columns disagree on the row count are malformed; materialization
    /// refuses them up front rather than read out of range.
    pub open spec fn wf(&self) -> bool {
        forall|c: int|
            0 <= c < self.columns@.len() && self.columns@[c].data.is_supported()
                ==> (#[trigger] self.columns@[c]).data.len() == self.num_rows
    }

    /// Every column's declared type is supported.
    pub open spec fn ok(&self) -> bool {
        forall|c: int|
            0 <= c < self.columns@.len() ==> (#[trigger] self.columns@[c]).data.is_supported()
    }

    /// The mapping row `i` accumulates after the first `ncols` columns have
    /// been folded in, in schema order: a later column overrides an earlier
    /// one of the same name.
    pub open spec fn row_prefix(&self, ncols: int, i: int) -> Map<Seq<char>, ScalarModel>
        decreases ncols,
    {
        if ncols <= 0 {
            Map::empty()
        } else {
            self.row_prefix(ncols - 1, i).insert(
                self.columns@[ncols - 1].name@,
                self.columns@[ncols - 1].data.cell(i),
            )
        }
    }

    /// The complete mapping for row `i`: every column folded in.
    pub open spec fn row_model(&self, i: int) -> Map<Seq<char>, ScalarModel> {
        self.row_prefix(self.columns@.len() as int, i)
    }

    /// The rows this batch materializes to, in row order.
    pub open spec fn rows_model(&self) -> Seq<Map<Seq<char>, ScalarModel>> {
        Seq::new(self.num_rows as nat, |i: int| self.row_model(i))
    }

    /// The set of column names this batch declares.
    pub open spec fn name_set(&self) -> Set<Seq<char>> {
        Set::new(
            |n: Seq<char>|
                exists|c: int| 0 <= c < self.columns@.len() && self.columns@[c].name@ == n,
        )
    }
}

/// Every batch of the sequence is well-formed.
pub open spec fn batches_wf(batches: Seq<Batch>) -> bool {
    forall|b: int| 0 <= b < batches.len() ==> (#[trigger] batches[b]).wf()
}

/// Every column of every batch of the sequence is supported.
pub open spec fn batches_ok(batches: Seq<Batch>) -> bool {
    forall|b: int| 0 <= b < batches.len() ==> (#[trigger] batches[b]).ok()
}

/// The rows a batch sequence materializes to: each batch's rows in row
/// order, batches concatenated in input order.
pub open spec fn all_rows(batches: Seq<Batch>) -> Seq<Map<Seq<char>, ScalarModel>>
    decreases batches.len(),
{
    if batches.len() == 0 {
        Seq::empty()
    } else {
        all_rows(batches.drop_last()) + batches.last().rows_model()
    }
}

/// The total row count of a batch sequence.
pub open spec fn total_rows(batches: Seq<Batch>) -> nat
    decreases batches.len(),
{
    if batches.len() == 0 {
        0
    } else {
        total_rows(batches.drop_last()) + batches.last().num_rows as nat
    }
}

/// The materialized form of a batch sequence: one row mapping per logical
/// row, batch order and in-batch row order preserved.
#[derive(Debug)]
pub struct BatchDataFrame {
    pub rows: Vec<BatchDataFrameRow>,
}

impl View for BatchDataFrame {
    type V = Seq<Map<Seq<char>, ScalarModel>>;

    open spec fn view(&self) -> Seq<Map<Seq<char>, ScalarModel>> {
        Seq::new(self.rows@.len(), |i: int| self.rows@[i]@)
    }
}

impl BatchDataFrame {
    /// Every row is well-formed, so lookups on it are meaningful.
    pub open spec fn wf(&self) -> bool {
        forall|i: int| 0 <= i < self.rows@.len() ==> (#[trigger] self.rows@[i]).wf()
    }

    /// Materializes an ordered sequence of batches into an ordered sequence
    /// of rows.
    ///
    /// Succeeds exactly when every column of every batch has a supported
    /// declared type; the result then holds, per batch in input order and
    /// per row in batch order, the mapping from column name to that row's
    /// scalar. A column whose type is outside the supported set fails the
    /// whole call with `UnsupportedType` and no partial output.
    pub fn new(batches: Vec<Batch>) -> (r: Result<Self, DataFrameError>)
        requires
            batches_wf(batches@),
        ensures
            (match r {
                Ok(df) => batches_ok(batches@) && df.wf() && df@ == all_rows(batches@),
                Err(e) => e == DataFrameError::UnsupportedType && !batches_ok(batches@),
            }),
    {
        let mut rows: Vec<BatchDataFrameRow> = Vec::new();
        let mut b: usize = 0;
        while b < batches.len()
            invariant
                batches_wf(batches@),
                b <= batches@.len(),
                batches_ok(batches@.take(b as int)),
                rows@.len() == all_rows(batches@.take(b as int)).len(),
                forall|k: int|
                    0 <= k < rows@.len() ==> (#[trigger] rows@[k]).wf() && rows@[k]@ == all_rows(
                        batches@.take(b as int),
                    )[k],
            decreases batches@.len() - b,
        {
            let ghost bt = batches@[b as int];
            let ghost rows_before = rows@;
            let batch = &batches[b];
            let base = rows.len();

            // Pre-allocate one empty row per logical row of this batch.
            let mut i: usize = 0;
            while i < batch.num_rows
                invariant
                    *batch == bt,
                    i <= bt.num_rows,
                    rows@.len() == base + i,
                    rows@.subrange(0, base as int) == rows_before,
                    forall|k: int|
                        base <= k < rows@.len() ==> (#[trigger] rows@[k]).wf() && rows@[k]@
                            == Map::<Seq<char>, ScalarModel>::empty(),
                decreases bt.num_rows - i,
            {
                rows.push(BatchDataFrameRow::new());
                proof {
                    assert(rows@.subrange(0, base as int) =~= rows_before);
                }
                i += 1;
            }
            let total = rows.len();
            assert(total == base + bt.num_rows);

            // Fold each column into the rows, in schema order.
            let mut c: usize = 0;
            while c < batch.columns.len()
                invariant
                    batches_wf(batches@),
                    b < batches@.len(),
                    bt == batches@[b as int],
                    *batch == bt,
                    c <= bt.columns@.len(),
                    base + bt.num_rows <= usize::MAX,
                    rows@.len() == base + bt.num_rows,
                    rows@.subrange(0, base as int) == rows_before,
                    forall|ci: int|
                        0 <= ci < c ==> (#[trigger] bt.columns@[ci]).data.is_supported(),
                    forall|k: int|
                        0 <= k < bt.num_rows ==> (#[trigger] rows@[base + k]).wf() && rows@[base
                            + k]@ == bt.row_prefix(c as int, k),
                decreases bt.columns@.len() - c,
            {
                let column = &batch.columns[c];
                assert(column.data.is_supported() ==> column.data.len() == bt.num_rows);
                match &column.data {
                    ColumnData::Integer(vals) => {
                        let mut i: usize = 0;
                        while i < batch.num_rows
                            invariant
                                *batch == bt,
                                c < bt.columns@.len(),
                                bt.columns@[c as int] == *column,
                                column.data == ColumnData::Integer(*vals),
                                vals@.len() == bt.num_rows,
                                i <= bt.num_rows,
                                base + bt.num_rows <= usize::MAX,
                                rows@.len() == base + bt.num_rows,
                                rows@.subrange(0, base as int) == rows_before,
                                forall|k: int|
                                    0 <= k < i ==> (#[trigger] rows@[base + k]).wf() && rows@[base
                                        + k]@ == bt.row_prefix(c as int + 1, k),
                                forall|k: int|
                                    i <= k < bt.num_rows ==> (#[trigger] rows@[base + k]).wf()
                                        && rows@[base + k]@ == bt.row_prefix(c as int, k),
                            decreases bt.num_rows - i,
                        {
                            let value = BatchDataFrameValue::Integer(vals[i]);
                            let idx = base + i;
                            rows[idx].insert(column.name.clone(), value);
                            proof {
                                assert(rows@.subrange(0, base as int) =~= rows_before);
                            }
                            i += 1;
                        }
                    }
                    ColumnData::Text(vals) => {
                        let mut i: usize = 0;
                        while i < batch.num_rows
                            invariant
                                *batch == bt,
                                c < bt.columns@.len(),
                                bt.columns@[c as int] == *column,
                                column.data == ColumnData::Text(*vals),
                                vals@.len() == bt.num_rows,
                                i <= bt.num_rows,
                                base + bt.num_rows <= usize::MAX,
                                rows@.len() == base + bt.num_rows,
                                rows@.subrange(0, base as int) == rows_before,
                                forall|k: int|
                                    0 <= k < i ==> (#[trigger] rows@[base + k]).wf() && rows@[base
                                        + k]@ == bt.row_prefix(c as int + 1, k),
                                forall|k: int|
                                    i <= k < bt.num_rows ==> (#[trigger] rows@[base + k]).wf()
                                        && rows@[base + k]@ == bt.row_prefix(c as int, k),
                            decreases bt.num_rows - i,
                        {
                            let value = BatchDataFrameValue::Text(vals[i].clone());
                            let idx = base + i;
                            rows[idx].insert(column.name.clone(), value);
                            proof {
                                assert(rows@.subrange(0, base as int) =~= rows_before);
                            }
                            i += 1;
                        }
                    }
                    ColumnData::Timestamp(vals) => {
                        let mut i: usize = 0;
                        while i < batch.num_rows
                            invariant
                                *batch == bt,
                                c < bt.columns@.len(),
                                bt.columns@[c as int] == *column,
                                column.data == ColumnData::Timestamp(*vals),
                                vals@.len() == bt.num_rows,
                                i <= bt.num_rows,
                                base + bt.num_rows <= usize::MAX,
                                rows@.len() == base + bt.num_rows,
                                rows@.subrange(0, base as int) == rows_before,
                                forall|k: int|
                                    0 <= k < i ==> (#[trigger] rows@[base + k]).wf() && rows@[base
                                        + k]@ == bt.row_prefix(c as int + 1, k),
                                forall|k: int|
                                    i <= k < bt.num_rows ==> (#[trigger] rows@[base + k]).wf()
                                        && rows@[base + k]@ == bt.row_prefix(c as int, k),
                            decreases bt.num_rows - i,
                        {
                            let value = BatchDataFrameValue::Timestamp(vals[i]);
                            let idx = base + i;
                            rows[idx].insert(column.name.clone(), value);
                            proof {
                                assert(rows@.subrange(0, base as int) =~= rows_before);
                            }
                            i += 1;
                        }
                    }
                    ColumnData::Unsupported => {
                        proof {
                            assert(!bt.ok());
                            assert(!batches_ok(batches@));
                        }
                        return Err(DataFrameError::UnsupportedType);
                    }
                }
                c += 1;
            }

            // This batch is done: its rows now carry every column.
            proof {
                let ghost taken = batches@.take(b as int);
                let ghost taken1 = batches@.take(b as int + 1);
                assert(taken1.drop_last() =~= taken);
                assert(taken1.last() == bt);
                assert(all_rows(taken1) == all_rows(taken) + bt.rows_model());
                assert forall|k: int| 0 <= k < b + 1 implies (#[trigger] taken1[k]).ok() by {
                    if k < b {
                        assert(taken[k].ok());
                    }
                }
                assert forall|k: int| 0 <= k < rows@.len() implies (#[trigger] rows@[k]).wf()
                    && rows@[k]@ == all_rows(taken1)[k] by {
                    if k < base {
                        assert(rows@.subrange(0, base as int)[k] == rows@[k]);
                        assert(rows_before[k].wf() && rows_before[k]@ == all_rows(taken)[k]);
                    } else {
                        assert(rows@[base + (k - base)]@ == bt.row_prefix(
                            bt.columns@.len() as int,
                            k - base,
                        ));
                        assert(bt.rows_model()[k - base] == bt.row_model(k - base));
                    }
                }
            }
            b += 1;
        }
        proof {
            assert(batches@.take(b as int) =~= batches@);
        }
        let df = BatchDataFrame { rows };
        proof {
            assert(df@ =~= all_rows(batches@));
        }
        Ok(df)
    }
}

/// After the first `ncols` columns are folded in, a row's domain is exactly
/// the set of those columns' names.
proof fn lemma_row_prefix_dom(b: Batch, c: int, i: int)
    requires
        0 <= c <= b.columns@.len(),
    ensures
        b.row_prefix(c, i).dom() == Set::new(
            |n: Seq<char>| exists|j: int| 0 <= j < c && b.columns@[j].name@ == n,
        ),
    decreases c,
{
    let target = Set::new(|n: Seq<char>| exists|j: int| 0 <= j < c && b.columns@[j].name@ == n);
    if c == 0 {
        assert(b.row_prefix(0, i).dom() =~= target);
    } else {
        lemma_row_prefix_dom(b, c - 1, i);
        let inner = Set::new(
            |n: Seq<char>| exists|j: int| 0 <= j < c - 1 && b.columns@[j].name@ == n,
        );
        let name = b.columns@[c - 1].name@;
        assert forall|n: Seq<char>| #[trigger] target.contains(n) implies inner.insert(
            name,
        ).contains(n) by {
            let j = choose|j: int| 0 <= j < c && b.columns@[j].name@ == n;
            if j < c - 1 {
                assert(inner.contains(n));
            }
        }
        assert forall|n: Seq<char>| #[trigger] inner.insert(name).contains(n) implies target.contains(
            n,
        ) by {
            if inner.contains(n) {
                let j = choose|j: int| 0 <= j < c - 1 && b.columns@[j].name@ == n;
                assert(0 <= j < c && b.columns@[j].name@ == n);
            } else {
                assert(b.columns@[c - 1].name@ == n);
            }
        }
        assert(b.row_prefix(c, i).dom() =~= target);
    }
}

/// A materialized row's domain is exactly the batch's column-name set.
pub proof fn lemma_row_model_dom(b: Batch, i: int)
    ensures
        b.row_model(i).dom() == b.name_set(),
{
    lemma_row_prefix_dom(b, b.columns@.len() as int, i);
    assert(b.name_set() =~= Set::new(
        |n: Seq<char>|
            exists|j: int| 0 <= j < b.columns@.len() as int && b.columns@[j].name@ == n,
    ));
}

/// Rows materialized from batches that all declare one and the same set of
/// column names expose exactly that set, whichever batch they came from.
pub proof fn lemma_uniform_schema(batches: Seq<Batch>, names: Set<Seq<char>>, k: int)
    requires
        forall|b: int| 0 <= b < batches.len() ==> (#[trigger] batches[b]).name_set() == names,
        0 <= k < all_rows(batches).len(),
    ensures
        all_rows(batches)[k].dom() == names,
    decreases batches.len(),
{
    let prefix = batches.drop_last();
    let last = batches.last();
    let front = all_rows(prefix);
    if k < front.len() {
        assert forall|bb: int| 0 <= bb < prefix.len() implies (#[trigger] prefix[bb]).name_set()
            == names by {
            assert(prefix[bb] == batches[bb]);
        }
        lemma_uniform_schema(prefix, names, k);
        assert(all_rows(batches)[k] == front[k]);
    } else {
        let j = k - front.len();
        assert(all_rows(batches)[k] == last.rows_model()[j]);
        lemma_row_model_dom(last, j);
        assert(last.name_set() == names);
    }
}

/// A batch with no rows contributes no rows to the output; whether
/// materialization succeeds never depends on a row count.
pub proof fn lemma_zero_row_batch(b: Batch)
    requires
        b.num_rows == 0,
    ensures
        b.rows_model() == Seq::<Map<Seq<char>, ScalarModel>>::empty(),
{
    assert(b.rows_model() =~= Seq::<Map<Seq<char>, ScalarModel>>::empty());
}

/// Materialization yields exactly one row per source row: the output length
/// is the sum of the batches' row counts.
pub proof fn lemma_total_row_count(batches: Seq<Batch>)
    ensures
        all_rows(batches).len() == total_rows(batches),
    decreases batches.len(),
{
    if batches.len() > 0 {
        lemma_total_row_count(batches.drop_last());
    }
}

} // verus!
