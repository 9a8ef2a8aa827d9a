//! Rows into columns.

use vstd::prelude::*;
use crate::error::IngestError;
use crate::error::IngestErrorView;
use crate::record::records_view;
use crate::record::SdRecord;
use crate::record::SdRecordView;

verus! {

/// The type of the cells of a column.
#[derive(Clone, Copy, Debug, PartialEq, Eq, Structural)]
pub enum ColumnKind {
    Utf8,
    Int64,
    Int32,
    Binary,
    Float64,
}

/// One column of the schema: its name, the type of its cells, and whether a
/// cell may be absent.
#[derive(Clone, Copy, Debug)]
pub struct ColumnSpec {
    pub name: &'static str,
    pub kind: ColumnKind,
    pub nullable: bool,
}

/// The mathematical value of a [`ColumnSpec`].
pub struct ColumnSpecView {
    pub name: Seq<char>,
    pub kind: ColumnKind,
    pub nullable: bool,
}

impl View for ColumnSpec {
    type V = ColumnSpecView;

    open spec fn view(&self) -> ColumnSpecView {
        ColumnSpecView { name: self.name@, kind: self.kind, nullable: self.nullable }
    }
}

/// The schema of every batch: ten columns in this order, the first seven
/// without absent cells.
pub open spec fn schema_spec() -> Seq<ColumnSpecView> {
    seq![
        ColumnSpecView { name: "device_id"@, kind: ColumnKind::Utf8, nullable: false },
        ColumnSpecView { name: "ts"@, kind: ColumnKind::Int64, nullable: false },
        ColumnSpecView { name: "rssi"@, kind: ColumnKind::Int32, nullable: false },
        ColumnSpecView { name: "snr"@, kind: ColumnKind::Int32, nullable: false },
        ColumnSpecView { name: "phy"@, kind: ColumnKind::Utf8, nullable: false },
        ColumnSpecView { name: "frame_type"@, kind: ColumnKind::Utf8, nullable: false },
        ColumnSpecView { name: "payload"@, kind: ColumnKind::Binary, nullable: false },
        ColumnSpecView { name: "quality_metric_1"@, kind: ColumnKind::Float64, nullable: true },
        ColumnSpecView { name: "quality_metric_2"@, kind: ColumnKind::Int32, nullable: true },
        ColumnSpecView { name: "quality_metric_3"@, kind: ColumnKind::Int32, nullable: true },
    ]
}

/// The views of a list of column descriptions, in order.
pub open spec fn columns_view(columns: Seq<ColumnSpec>) -> Seq<ColumnSpecView> {
    Seq::new(columns.len(), |i: int| columns[i]@)
}

/// The schema of every batch.
pub fn schema() -> (columns: Vec<ColumnSpec>)
    ensures
        columns_view(columns@) == schema_spec(),
{
    let mut columns: Vec<ColumnSpec> = Vec::new();
    columns.push(ColumnSpec { name: "device_id", kind: ColumnKind::Utf8, nullable: false });
    columns.push(ColumnSpec { name: "ts", kind: ColumnKind::Int64, nullable: false });
    columns.push(ColumnSpec { name: "rssi", kind: ColumnKind::Int32, nullable: false });
    columns.push(ColumnSpec { name: "snr", kind: ColumnKind::Int32, nullable: false });
    columns.push(ColumnSpec { name: "phy", kind: ColumnKind::Utf8, nullable: false });
    columns.push(ColumnSpec { name: "frame_type", kind: ColumnKind::Utf8, nullable: false });
    columns.push(ColumnSpec { name: "payload", kind: ColumnKind::Binary, nullable: false });
    columns.push(ColumnSpec { name: "quality_metric_1", kind: ColumnKind::Float64, nullable: true });
    columns.push(ColumnSpec { name: "quality_metric_2", kind: ColumnKind::Int32, nullable: true });
    columns.push(ColumnSpec { name: "quality_metric_3", kind: ColumnKind::Int32, nullable: true });
    assert(columns_view(columns@) =~= schema_spec());
    columns
}

/// The mathematical value of a batch: its ten columns. An absent cell of a
/// nullable column is `None`, apart from every number.
pub struct ColumnarBatchView {
    pub device_id: Seq<Seq<char>>,
    pub ts: Seq<i64>,
    pub rssi: Seq<i32>,
    pub snr: Seq<i32>,
    pub phy: Seq<Seq<char>>,
    pub frame_type: Seq<Seq<char>>,
    pub payload: Seq<Seq<u8>>,
    pub quality_metric_1: Seq<Option<u64>>,
    pub quality_metric_2: Seq<Option<i32>>,
    pub quality_metric_3: Seq<Option<i32>>,
}

impl ColumnarBatchView {
    /// Every column has as many cells as the first.
    pub open spec fn well_formed(self) -> bool {
        let n = self.device_id.len();
        &&& self.ts.len() == n
        &&& self.rssi.len() == n
        &&& self.snr.len() == n
        &&& self.phy.len() == n
        &&& self.frame_type.len() == n
        &&& self.payload.len() == n
        &&& self.quality_metric_1.len() == n
        &&& self.quality_metric_2.len() == n
        &&& self.quality_metric_3.len() == n
    }

    /// The number of rows.
    pub open spec fn num_rows(self) -> nat {
        self.device_id.len()
    }

    /// Row `j`: cell `j` of each column.
    pub open spec fn row(self, j: int) -> SdRecordView {
        SdRecordView {
            device_id: self.device_id[j],
            timestamp: self.ts[j],
            rssi: self.rssi[j],
            snr: self.snr[j],
            phy: self.phy[j],
            frame_type: self.frame_type[j],
            payload: self.payload[j],
            quality_metric_1: self.quality_metric_1[j],
            quality_metric_2: self.quality_metric_2[j],
            quality_metric_3: self.quality_metric_3[j],
        }
    }

    /// The rows, in order.
    pub open spec fn rows(self) -> Seq<SdRecordView> {
        Seq::new(self.num_rows(), |j: int| self.row(j))
    }
}

/// The batch of a sequence of records: cell `j` of each column is the field
/// of record `j` that the column is for.
pub open spec fn transposed(records: Seq<SdRecordView>) -> ColumnarBatchView {
    ColumnarBatchView {
        device_id: Seq::new(records.len(), |j: int| records[j].device_id),
        ts: Seq::new(records.len(), |j: int| records[j].timestamp),
        rssi: Seq::new(records.len(), |j: int| records[j].rssi),
        snr: Seq::new(records.len(), |j: int| records[j].snr),
        phy: Seq::new(records.len(), |j: int| records[j].phy),
        frame_type: Seq::new(records.len(), |j: int| records[j].frame_type),
        payload: Seq::new(records.len(), |j: int| records[j].payload),
        quality_metric_1: Seq::new(records.len(), |j: int| records[j].quality_metric_1),
        quality_metric_2: Seq::new(records.len(), |j: int| records[j].quality_metric_2),
        quality_metric_3: Seq::new(records.len(), |j: int| records[j].quality_metric_3),
    }
}

/// The views of the cells of a text column.
pub open spec fn texts_view(cells: Seq<String>) -> Seq<Seq<char>> {
    Seq::new(cells.len(), |i: int| cells[i]@)
}

/// The views of the cells of a binary column.
pub open spec fn blobs_view(cells: Seq<Vec<u8>>) -> Seq<Seq<u8>> {
    Seq::new(cells.len(), |i: int| cells[i]@)
}

/// A snapshot of records by column: ten columns of one length, one row for
/// each record.
#[derive(Debug)]
pub struct ColumnarBatch {
    device_id: Vec<String>,
    ts: Vec<i64>,
    rssi: Vec<i32>,
    snr: Vec<i32>,
    phy: Vec<String>,
    frame_type: Vec<String>,
    payload: Vec<Vec<u8>>,
    quality_metric_1: Vec<Option<u64>>,
    quality_metric_2: Vec<Option<i32>>,
    quality_metric_3: Vec<Option<i32>>,
}

impl View for ColumnarBatch {
    type V = ColumnarBatchView;

    closed spec fn view(&self) -> ColumnarBatchView {
        ColumnarBatchView {
            device_id: texts_view(self.device_id@),
            ts: self.ts@,
            rssi: self.rssi@,
            snr: self.snr@,
            phy: texts_view(self.phy@),
            frame_type: texts_view(self.frame_type@),
            payload: blobs_view(self.payload@),
            quality_metric_1: self.quality_metric_1@,
            quality_metric_2: self.quality_metric_2@,
            quality_metric_3: self.quality_metric_3@,
        }
    }
}

/// What is said of columns that do not have one length.
pub const LENGTHS_DIFFER: &'static str = "columns differ in length";

impl ColumnarBatch {
    #[verifier::type_invariant]
    spec fn columns_agree(self) -> bool {
        self@.well_formed()
    }

    /// Makes a batch of ten columns. They must have one length: columns that
    /// disagree are refused.
    pub fn try_new(
        device_id: Vec<String>,
        ts: Vec<i64>,
        rssi: Vec<i32>,
        snr: Vec<i32>,
        phy: Vec<String>,
        frame_type: Vec<String>,
        payload: Vec<Vec<u8>>,
        quality_metric_1: Vec<Option<u64>>,
        quality_metric_2: Vec<Option<i32>>,
        quality_metric_3: Vec<Option<i32>>,
    ) -> (res: Result<ColumnarBatch, IngestError>)
        ensures
            ({
                let columns = ColumnarBatchView {
                    device_id: texts_view(device_id@),
                    ts: ts@,
                    rssi: rssi@,
                    snr: snr@,
                    phy: texts_view(phy@),
                    frame_type: texts_view(frame_type@),
                    payload: blobs_view(payload@),
                    quality_metric_1: quality_metric_1@,
                    quality_metric_2: quality_metric_2@,
                    quality_metric_3: quality_metric_3@,
                };
                match res {
                    Ok(batch) => columns.well_formed() && batch@ == columns,
                    Err(e) => !columns.well_formed() && e@ == (IngestErrorView::SchemaMismatch {
                        detail: LENGTHS_DIFFER@,
                    }),
                }
            }),
    {
        let n = device_id.len();
        if ts.len() != n || rssi.len() != n || snr.len() != n || phy.len() != n
            || frame_type.len() != n || payload.len() != n || quality_metric_1.len() != n
            || quality_metric_2.len() != n || quality_metric_3.len() != n {
            return Err(IngestError::SchemaMismatch { detail: LENGTHS_DIFFER.to_owned() });
        }
        Ok(
            ColumnarBatch {
                device_id,
                ts,
                rssi,
                snr,
                phy,
                frame_type,
                payload,
                quality_metric_1,
                quality_metric_2,
                quality_metric_3,
            },
        )
    }

    /// The number of rows.
    pub fn num_rows(&self) -> (n: usize)
        ensures
            self@.well_formed(),
            n == self@.num_rows(),
    {
        proof {
            use_type_invariant(self);
        }
        self.device_id.len()
    }

    /// The device identifier of each row.
    pub fn device_id(&self) -> (cells: &Vec<String>)
        ensures
            texts_view(cells@) == self@.device_id,
    {
        &self.device_id
    }

    /// The timestamp of each row.
    pub fn ts(&self) -> (cells: &Vec<i64>)
        ensures
            cells@ == self@.ts,
    {
        &self.ts
    }

    /// The received signal strength of each row.
    pub fn rssi(&self) -> (cells: &Vec<i32>)
        ensures
            cells@ == self@.rssi,
    {
        &self.rssi
    }

    /// The signal-to-noise ratio of each row.
    pub fn snr(&self) -> (cells: &Vec<i32>)
        ensures
            cells@ == self@.snr,
    {
        &self.snr
    }

    /// The physical layer of each row.
    pub fn phy(&self) -> (cells: &Vec<String>)
        ensures
            texts_view(cells@) == self@.phy,
    {
        &self.phy
    }

    /// The frame type of each row.
    pub fn frame_type(&self) -> (cells: &Vec<String>)
        ensures
            texts_view(cells@) == self@.frame_type,
    {
        &self.frame_type
    }

    /// The payload of each row.
    pub fn payload(&self) -> (cells: &Vec<Vec<u8>>)
        ensures
            blobs_view(cells@) == self@.payload,
    {
        &self.payload
    }

    /// The first quality metric of each row, as the bit pattern of a 64-bit
    /// binary floating-point number, where it is present.
    pub fn quality_metric_1(&self) -> (cells: &Vec<Option<u64>>)
        ensures
            cells@ == self@.quality_metric_1,
    {
        &self.quality_metric_1
    }

    /// The second quality metric of each row, where it is present.
    pub fn quality_metric_2(&self) -> (cells: &Vec<Option<i32>>)
        ensures
            cells@ == self@.quality_metric_2,
    {
        &self.quality_metric_2
    }

    /// The third quality metric of each row, where it is present.
    pub fn quality_metric_3(&self) -> (cells: &Vec<Option<i32>>)
        ensures
            cells@ == self@.quality_metric_3,
    {
        &self.quality_metric_3
    }

    /// Transposes a sequence of records: row `j` of the batch holds the fields
    /// of record `j`, and an absent quality metric is an absent cell.
    pub fn from_records(records: &[SdRecord]) -> (batch: ColumnarBatch)
        ensures
            batch@ == transposed(records_view(records@)),
            batch@.well_formed(),
            batch@.rows() == records_view(records@),
    {
        let mut device_id: Vec<String> = Vec::new();
        let mut ts: Vec<i64> = Vec::new();
        let mut rssi: Vec<i32> = Vec::new();
        let mut snr: Vec<i32> = Vec::new();
        let mut phy: Vec<String> = Vec::new();
        let mut frame_type: Vec<String> = Vec::new();
        let mut payload: Vec<Vec<u8>> = Vec::new();
        let mut quality_metric_1: Vec<Option<u64>> = Vec::new();
        let mut quality_metric_2: Vec<Option<i32>> = Vec::new();
        let mut quality_metric_3: Vec<Option<i32>> = Vec::new();
        let mut j: usize = 0;
        while j < records.len()
            invariant
                j <= records.len(),
                device_id.len() == j,
                ts.len() == j,
                rssi.len() == j,
                snr.len() == j,
                phy.len() == j,
                frame_type.len() == j,
                payload.len() == j,
                quality_metric_1.len() == j,
                quality_metric_2.len() == j,
                quality_metric_3.len() == j,
                forall|i: int| 0 <= i < j ==> (#[trigger] device_id[i])@ == records[i].device_id@,
                forall|i: int| 0 <= i < j ==> #[trigger] ts[i] == records[i].timestamp,
                forall|i: int| 0 <= i < j ==> #[trigger] rssi[i] == records[i].rssi,
                forall|i: int| 0 <= i < j ==> #[trigger] snr[i] == records[i].snr,
                forall|i: int| 0 <= i < j ==> (#[trigger] phy[i])@ == records[i].phy@,
                forall|i: int| 0 <= i < j ==> (#[trigger] frame_type[i])@ == records[i].frame_type@,
                forall|i: int| 0 <= i < j ==> (#[trigger] payload[i])@ == records[i].payload@,
                forall|i: int|
                    0 <= i < j ==> #[trigger] quality_metric_1[i] == records[i].quality_metric_1,
                forall|i: int|
                    0 <= i < j ==> #[trigger] quality_metric_2[i] == records[i].quality_metric_2,
                forall|i: int|
                    0 <= i < j ==> #[trigger] quality_metric_3[i] == records[i].quality_metric_3,
            decreases records.len() - j,
        {
            let record = &records[j];
            let bytes = record.payload.clone();
            assert(bytes@ =~= record.payload@);
            device_id.push(record.device_id.clone());
            ts.push(record.timestamp);
            rssi.push(record.rssi);
            snr.push(record.snr);
            phy.push(record.phy.clone());
            frame_type.push(record.frame_type.clone());
            payload.push(bytes);
            quality_metric_1.push(record.quality_metric_1);
            quality_metric_2.push(record.quality_metric_2);
            quality_metric_3.push(record.quality_metric_3);
            j += 1;
        }
        let batch = ColumnarBatch {
            device_id,
            ts,
            rssi,
            snr,
            phy,
            frame_type,
            payload,
            quality_metric_1,
            quality_metric_2,
            quality_metric_3,
        };
        proof {
            let wanted = transposed(records_view(records@));
            assert(batch@.device_id =~= wanted.device_id);
            assert(batch@.ts =~= wanted.ts);
            assert(batch@.rssi =~= wanted.rssi);
            assert(batch@.snr =~= wanted.snr);
            assert(batch@.phy =~= wanted.phy);
            assert(batch@.frame_type =~= wanted.frame_type);
            assert(batch@.payload =~= wanted.payload);
            assert(batch@.quality_metric_1 =~= wanted.quality_metric_1);
            assert(batch@.quality_metric_2 =~= wanted.quality_metric_2);
            assert(batch@.quality_metric_3 =~= wanted.quality_metric_3);
            assert(batch@.rows() =~= records_view(records@));
        }
        batch
    }
}

} // verus!
