//! The batch as an Arrow record batch.

use vstd::prelude::*;
use vstd::utf8::encode_utf8;
use std::sync::Arc;
use arrow_array::make_array;
use arrow_array::Array;
use arrow_array::ArrayRef;
use arrow_array::BinaryArray;
use arrow_array::Float64Array;
use arrow_array::Int32Array;
use arrow_array::Int64Array;
use arrow_array::RecordBatch;
use arrow_array::StringArray;
use arrow_array::UInt64Array;
use arrow_schema::ArrowError;
use arrow_schema::DataType;
use arrow_schema::Field;
use arrow_schema::Schema;
use crate::batch::blobs_view;
use crate::batch::columns_view;
use crate::batch::schema;
use crate::batch::schema_spec;
use crate::batch::texts_view;
use crate::batch::transposed;
use crate::batch::ColumnKind;
use crate::batch::ColumnSpec;
use crate::batch::ColumnSpecView;
use crate::batch::ColumnarBatch;
use crate::batch::ColumnarBatchView;
use crate::error::IngestError;
use crate::error::IngestErrorView;
use crate::record::records_view;
use crate::record::SdRecord;

verus! {

/// The cells of an Arrow array, by the type of the array. A null cell is
/// `None`. A cell of a floating-point array is given by its bit pattern.
/// An array of any other type is `Other`.
pub enum CellsView {
    Utf8(Seq<Option<Seq<char>>>),
    Int64(Seq<Option<i64>>),
    Int32(Seq<Option<i32>>),
    Binary(Seq<Option<Seq<u8>>>),
    Float64(Seq<Option<u64>>),
    Other,
}

impl CellsView {
    /// The type of the cells, where it is one that a batch of records uses.
    pub open spec fn kind(self) -> Option<ColumnKind> {
        match self {
            CellsView::Utf8(_) => Some(ColumnKind::Utf8),
            CellsView::Int64(_) => Some(ColumnKind::Int64),
            CellsView::Int32(_) => Some(ColumnKind::Int32),
            CellsView::Binary(_) => Some(ColumnKind::Binary),
            CellsView::Float64(_) => Some(ColumnKind::Float64),
            CellsView::Other => None,
        }
    }

    /// The number of cells.
    pub open spec fn len(self) -> nat {
        match self {
            CellsView::Utf8(cells) => cells.len(),
            CellsView::Int64(cells) => cells.len(),
            CellsView::Int32(cells) => cells.len(),
            CellsView::Binary(cells) => cells.len(),
            CellsView::Float64(cells) => cells.len(),
            CellsView::Other => 0,
        }
    }

    /// Whether some cell is null.
    pub open spec fn has_null(self) -> bool {
        match self {
            CellsView::Utf8(cells) => exists|i: int| 0 <= i < cells.len() && cells[i] is None,
            CellsView::Int64(cells) => exists|i: int| 0 <= i < cells.len() && cells[i] is None,
            CellsView::Int32(cells) => exists|i: int| 0 <= i < cells.len() && cells[i] is None,
            CellsView::Binary(cells) => exists|i: int| 0 <= i < cells.len() && cells[i] is None,
            CellsView::Float64(cells) => exists|i: int| 0 <= i < cells.len() && cells[i] is None,
            CellsView::Other => false,
        }
    }
}

/// A field of an Arrow schema: its name, the type of its cells where that is
/// one that a batch of records uses, and whether a cell may be null.
pub struct ArrowFieldView {
    pub name: Seq<char>,
    pub kind: Option<ColumnKind>,
    pub nullable: bool,
}

/// The Arrow field that stands for a column.
pub open spec fn arrow_field(column: ColumnSpecView) -> ArrowFieldView {
    ArrowFieldView { name: column.name, kind: Some(column.kind), nullable: column.nullable }
}

/// The Arrow fields that stand for a list of columns.
pub open spec fn arrow_fields(columns: Seq<ColumnSpecView>) -> Seq<ArrowFieldView> {
    Seq::new(columns.len(), |i: int| arrow_field(columns[i]))
}

/// Cells none of which is null.
pub open spec fn present<T>(cells: Seq<T>) -> Seq<Option<T>> {
    Seq::new(cells.len(), |i: int| Some(cells[i]))
}

/// The Arrow columns that stand for a batch, in the order of the schema.
pub open spec fn arrow_cells(batch: ColumnarBatchView) -> Seq<CellsView> {
    seq![
        CellsView::Utf8(present(batch.device_id)),
        CellsView::Int64(present(batch.ts)),
        CellsView::Int32(present(batch.rssi)),
        CellsView::Int32(present(batch.snr)),
        CellsView::Utf8(present(batch.phy)),
        CellsView::Utf8(present(batch.frame_type)),
        CellsView::Binary(present(batch.payload)),
        CellsView::Float64(batch.quality_metric_1),
        CellsView::Int32(batch.quality_metric_2),
        CellsView::Int32(batch.quality_metric_3),
    ]
}

/// The bytes that the texts of a column take together, in UTF-8.
pub open spec fn texts_bytes(cells: Seq<Seq<char>>) -> nat
    decreases cells.len(),
{
    if cells.len() == 0 {
        0
    } else {
        texts_bytes(cells.drop_last()) + encode_utf8(cells.last()).len()
    }
}

/// The bytes that the cells of a binary column take together.
pub open spec fn blobs_bytes(cells: Seq<Seq<u8>>) -> nat
    decreases cells.len(),
{
    if cells.len() == 0 {
        0
    } else {
        blobs_bytes(cells.drop_last()) + cells.last().len()
    }
}

/// The most bytes that a column of texts or of binary cells can hold: Arrow
/// addresses them by 32-bit signed offsets.
pub const MAX_COLUMN_BYTES: usize = 0x7fff_ffff;

/// What is said of a column that is beyond what an Arrow column can hold.
pub const TOO_LARGE: &'static str = "a column holds more bytes than 32-bit offsets address";

/// Whether each column of texts and the binary column are within what an
/// Arrow column can hold.
pub open spec fn fits(batch: ColumnarBatchView) -> bool {
    &&& texts_bytes(batch.device_id) <= MAX_COLUMN_BYTES
    &&& texts_bytes(batch.phy) <= MAX_COLUMN_BYTES
    &&& texts_bytes(batch.frame_type) <= MAX_COLUMN_BYTES
    &&& blobs_bytes(batch.payload) <= MAX_COLUMN_BYTES
}

/// What `RecordBatch::try_new` asks of a schema and columns: as many columns
/// as fields and at least one, every column of the type of its field and as
/// long as the first, and no null cell where the field is not nullable.
pub open spec fn accepted(fields: Seq<ArrowFieldView>, columns: Seq<CellsView>) -> bool {
    &&& fields.len() == columns.len()
    &&& columns.len() > 0
    &&& forall|i: int|
        0 <= i < columns.len() ==> {
            &&& (#[trigger] columns[i]).kind() is Some
            &&& columns[i].kind() == fields[i].kind
            &&& columns[i].len() == columns[0].len()
            &&& (columns[i].has_null() ==> fields[i].nullable)
        }
}

/// `arrow_schema::ArrowError`, carried through as it is.
#[verifier::external_type_specification]
#[verifier::external_body]
pub struct ExArrowError(ArrowError);

/// `arrow_schema::Field`, carried through as it is.
#[verifier::external_type_specification]
#[verifier::external_body]
pub struct ExField(Field);

/// `arrow_schema::Schema`, carried through as it is.
#[verifier::external_type_specification]
#[verifier::external_body]
pub struct ExSchema(Schema);

/// One Arrow array, of any type. What it holds is stated by `column_cells`.
#[verifier::external_body]
pub struct ArrowColumn {
    inner: ArrayRef,
}

/// An Arrow record batch. What it holds is stated by `batch_fields` and
/// `batch_columns`; the batch itself is there to be handed on.
#[verifier::external_body]
pub struct ArrowBatch {
    pub record_batch: RecordBatch,
}

/// What a field says of its column.
pub uninterp spec fn field_view(field: &Field) -> ArrowFieldView;

/// What a list of fields says of its columns, in order.
pub open spec fn fields_view(fields: Seq<Field>) -> Seq<ArrowFieldView> {
    Seq::new(fields.len(), |i: int| field_view(&fields[i]))
}

/// The fields of a schema, in order.
pub uninterp spec fn schema_fields(schema: &Schema) -> Seq<ArrowFieldView>;

/// The cells of an array.
pub uninterp spec fn column_cells(column: ArrowColumn) -> CellsView;

/// The fields of the schema of a record batch, in order.
pub uninterp spec fn batch_fields(batch: ArrowBatch) -> Seq<ArrowFieldView>;

/// The cells of the columns of a record batch, in order.
pub uninterp spec fn batch_columns(batch: ArrowBatch) -> Seq<CellsView>;

/// The cells of a list of arrays, in order.
pub open spec fn columns_cells(columns: Seq<ArrowColumn>) -> Seq<CellsView> {
    Seq::new(columns.len(), |i: int| column_cells(columns[i]))
}

/// `arrow_schema::Field::new`: a field with the name, the type and the
/// nullability of the column.
#[verifier::external_body]
fn make_field(column: &ColumnSpec) -> (field: Field)
    ensures
        field_view(&field) == arrow_field(column@),
{
    let data_type = match column.kind {
        ColumnKind::Utf8 => DataType::Utf8,
        ColumnKind::Int64 => DataType::Int64,
        ColumnKind::Int32 => DataType::Int32,
        ColumnKind::Binary => DataType::Binary,
        ColumnKind::Float64 => DataType::Float64,
    };
    Field::new(column.name, data_type, column.nullable)
}

/// `arrow_schema::Schema::new`: a schema of these fields in this order.
#[verifier::external_body]
fn make_schema(fields: Vec<Field>) -> (made: Arc<Schema>)
    ensures
        schema_fields(&*made) == fields_view(fields@),
{
    Arc::new(Schema::new(fields))
}

/// `StringArray::from` on a vector of string slices: an array of these texts
/// without a null cell. It panics where the texts take more bytes together
/// than a 32-bit signed offset can address.
#[verifier::external_body]
fn utf8_column(cells: &Vec<String>) -> (column: ArrowColumn)
    requires
        texts_bytes(texts_view(cells@)) <= MAX_COLUMN_BYTES,
    ensures
        column_cells(column) == CellsView::Utf8(present(texts_view(cells@))),
{
    let array = StringArray::from(cells.iter().map(|s| s.as_str()).collect::<Vec<_>>());
    ArrowColumn { inner: make_array(array.into_data()) }
}

/// `BinaryArray::from` on a vector of byte slices: an array of these cells
/// without a null cell. It panics where the cells take more bytes together
/// than a 32-bit signed offset can address.
#[verifier::external_body]
fn binary_column(cells: &Vec<Vec<u8>>) -> (column: ArrowColumn)
    requires
        blobs_bytes(blobs_view(cells@)) <= MAX_COLUMN_BYTES,
    ensures
        column_cells(column) == CellsView::Binary(present(blobs_view(cells@))),
{
    let array = BinaryArray::from(cells.iter().map(|b| b.as_slice()).collect::<Vec<_>>());
    ArrowColumn { inner: make_array(array.into_data()) }
}

/// `Int64Array::from` on a vector of numbers: an array of these numbers
/// without a null cell.
#[verifier::external_body]
fn int64_column(cells: &Vec<i64>) -> (column: ArrowColumn)
    ensures
        column_cells(column) == CellsView::Int64(present(cells@)),
{
    ArrowColumn { inner: make_array(Int64Array::from(cells.clone()).into_data()) }
}

/// `Int32Array::from` on a vector of numbers: an array of these numbers
/// without a null cell.
#[verifier::external_body]
fn int32_column(cells: &Vec<i32>) -> (column: ArrowColumn)
    ensures
        column_cells(column) == CellsView::Int32(present(cells@)),
{
    ArrowColumn { inner: make_array(Int32Array::from(cells.clone()).into_data()) }
}

/// `Int32Array::from` on a vector of optional numbers: an array of these
/// cells, null where the number is absent.
#[verifier::external_body]
fn nullable_int32_column(cells: &Vec<Option<i32>>) -> (column: ArrowColumn)
    ensures
        column_cells(column) == CellsView::Int32(cells@),
{
    ArrowColumn { inner: make_array(Int32Array::from(cells.clone()).into_data()) }
}

/// `Float64Array::new` on the values and the nulls of
/// `UInt64Array::from`: an array of floating-point cells, each present one
/// with the bit pattern given, null where it is absent.
#[verifier::external_body]
fn nullable_float64_column(cells: &Vec<Option<u64>>) -> (column: ArrowColumn)
    ensures
        column_cells(column) == CellsView::Float64(cells@),
{
    let (_, bits, nulls) = UInt64Array::from(cells.clone()).into_parts();
    let array = Float64Array::new(bits.into_inner().into(), nulls);
    ArrowColumn { inner: make_array(array.into_data()) }
}

/// `RecordBatch::try_new`: a batch of this schema and these columns. It is
/// made wherever the schema and the columns are as `accepted` says, which
/// is what the function tests before it makes one.
#[verifier::external_body]
fn try_new_batch(made: Arc<Schema>, columns: Vec<ArrowColumn>) -> (res: Result<
    ArrowBatch,
    ArrowError,
>)
    ensures
        accepted(schema_fields(&*made), columns_cells(columns@)) ==> res is Ok,
        res matches Ok(batch) ==> batch_fields(batch) == schema_fields(&*made) && batch_columns(
            batch,
        ) == columns_cells(columns@),
{
    let arrays = columns.into_iter().map(|c| c.inner).collect();
    match RecordBatch::try_new(made, arrays) {
        Ok(record_batch) => Ok(ArrowBatch { record_batch }),
        Err(e) => Err(e),
    }
}

/// The message of an `ArrowError`.
#[verifier::external_body]
fn error_text(e: &ArrowError) -> String {
    e.to_string()
}

proof fn lemma_texts_prefix(cells: Seq<Seq<char>>, k: int)
    requires
        0 <= k <= cells.len(),
    ensures
        texts_bytes(cells.take(k)) <= texts_bytes(cells),
    decreases cells.len(),
{
    if k == cells.len() {
        assert(cells.take(k) =~= cells);
    } else {
        lemma_texts_prefix(cells.drop_last(), k);
        assert(cells.drop_last().take(k) =~= cells.take(k));
    }
}

proof fn lemma_blobs_prefix(cells: Seq<Seq<u8>>, k: int)
    requires
        0 <= k <= cells.len(),
    ensures
        blobs_bytes(cells.take(k)) <= blobs_bytes(cells),
    decreases cells.len(),
{
    if k == cells.len() {
        assert(cells.take(k) =~= cells);
    } else {
        lemma_blobs_prefix(cells.drop_last(), k);
        assert(cells.drop_last().take(k) =~= cells.take(k));
    }
}

/// Whether the texts of a column are within what an Arrow column can hold.
pub fn texts_fit(cells: &Vec<String>) -> (fit: bool)
    ensures
        fit == (texts_bytes(texts_view(cells@)) <= MAX_COLUMN_BYTES),
{
    let ghost all = texts_view(cells@);
    let mut total: usize = 0;
    let mut i: usize = 0;
    assert(all.take(0) =~= Seq::empty());
    while i < cells.len()
        invariant
            i <= cells.len(),
            all == texts_view(cells@),
            total == texts_bytes(all.take(i as int)),
            total <= MAX_COLUMN_BYTES,
        decreases cells.len() - i,
    {
        let n = cells[i].as_str().as_bytes().len();
        proof {
            assert(all.take(i + 1).drop_last() =~= all.take(i as int));
            assert(all.take(i + 1).last() == cells@[i as int]@);
            lemma_texts_prefix(all, i + 1);
        }
        if n > MAX_COLUMN_BYTES - total {
            return false;
        }
        total = total + n;
        i += 1;
    }
    assert(all.take(cells.len() as int) =~= all);
    true
}

/// Whether the cells of a binary column are within what an Arrow column can
/// hold.
pub fn blobs_fit(cells: &Vec<Vec<u8>>) -> (fit: bool)
    ensures
        fit == (blobs_bytes(blobs_view(cells@)) <= MAX_COLUMN_BYTES),
{
    let ghost all = blobs_view(cells@);
    let mut total: usize = 0;
    let mut i: usize = 0;
    assert(all.take(0) =~= Seq::empty());
    while i < cells.len()
        invariant
            i <= cells.len(),
            all == blobs_view(cells@),
            total == blobs_bytes(all.take(i as int)),
            total <= MAX_COLUMN_BYTES,
        decreases cells.len() - i,
    {
        let n = cells[i].len();
        proof {
            assert(all.take(i + 1).drop_last() =~= all.take(i as int));
            assert(all.take(i + 1).last() == cells@[i as int]@);
            lemma_blobs_prefix(all, i + 1);
        }
        if n > MAX_COLUMN_BYTES - total {
            return false;
        }
        total = total + n;
        i += 1;
    }
    assert(all.take(cells.len() as int) =~= all);
    true
}

/// Makes the Arrow schema of every batch.
fn arrow_schema() -> (made: Arc<Schema>)
    ensures
        schema_fields(&*made) == arrow_fields(schema_spec()),
{
    let columns = schema();
    let mut fields: Vec<Field> = Vec::new();
    let mut i: usize = 0;
    while i < columns.len()
        invariant
            i <= columns.len(),
            fields.len() == i,
            forall|j: int|
                0 <= j < i ==> field_view(&#[trigger] fields[j]) == arrow_field(columns[j]@),
        decreases columns.len() - i,
    {
        fields.push(make_field(&columns[i]));
        i += 1;
    }
    let made = make_schema(fields);
    assert(schema_fields(&*made) =~= arrow_fields(columns_view(columns@)));
    made
}

/// Makes the Arrow record batch of a batch: the fields of the schema, and
/// for each a column with the cells of the batch. This succeeds exactly
/// where the columns of texts and the binary column fit; the failure is a
/// schema mismatch.
pub fn to_arrow(batch: &ColumnarBatch) -> (res: Result<ArrowBatch, IngestError>)
    ensures
        res is Ok <==> fits(batch@),
        res matches Ok(made) ==> batch_fields(made) == arrow_fields(schema_spec()) && batch_columns(
            made,
        ) == arrow_cells(batch@),
        res matches Err(e) ==> e@ == (IngestErrorView::SchemaMismatch { detail: TOO_LARGE@ }),
{
    let rows = batch.num_rows();
    if !texts_fit(batch.device_id()) || !texts_fit(batch.phy()) || !texts_fit(batch.frame_type())
        || !blobs_fit(batch.payload()) {
        return Err(IngestError::SchemaMismatch { detail: TOO_LARGE.to_owned() });
    }
    let made = arrow_schema();
    let mut columns: Vec<ArrowColumn> = Vec::new();
    columns.push(utf8_column(batch.device_id()));
    columns.push(int64_column(batch.ts()));
    columns.push(int32_column(batch.rssi()));
    columns.push(int32_column(batch.snr()));
    columns.push(utf8_column(batch.phy()));
    columns.push(utf8_column(batch.frame_type()));
    columns.push(binary_column(batch.payload()));
    columns.push(nullable_float64_column(batch.quality_metric_1()));
    columns.push(nullable_int32_column(batch.quality_metric_2()));
    columns.push(nullable_int32_column(batch.quality_metric_3()));
    proof {
        let cells = columns_cells(columns@);
        let wanted = schema_fields(&*made);
        assert(cells =~= arrow_cells(batch@));
        assert forall|i: int| 0 <= i < cells.len() implies {
            &&& (#[trigger] cells[i]).kind() is Some
            &&& cells[i].kind() == wanted[i].kind
            &&& cells[i].len() == cells[0].len()
            &&& (cells[i].has_null() ==> wanted[i].nullable)
        } by {
            assert(rows == batch@.num_rows());
        }
        assert(accepted(wanted, cells));
    }
    match try_new_batch(made, columns) {
        Ok(made) => Ok(made),
        Err(e) => Err(IngestError::SchemaMismatch { detail: error_text(&e) }),
    }
}

/// Builds the Arrow record batch of a sequence of records: row `j` holds the
/// fields of record `j`, under the schema of every batch.
pub fn build_recordbatch(records: &[SdRecord]) -> (res: Result<ArrowBatch, IngestError>)
    ensures
        res is Ok <==> fits(transposed(records_view(records@))),
        res matches Ok(made) ==> batch_fields(made) == arrow_fields(schema_spec()) && batch_columns(
            made,
        ) == arrow_cells(transposed(records_view(records@))),
        res matches Err(e) ==> e@ == (IngestErrorView::SchemaMismatch { detail: TOO_LARGE@ }),
{
    let batch = ColumnarBatch::from_records(records);
    to_arrow(&batch)
}

} // verus!
