//! One frame reception, as a typed row.

use vstd::prelude::*;

verus! {

/// One frame reception of a device.
///
/// `quality_metric_1` is a 64-bit binary floating-point number, kept as its bit
/// pattern. No attribute of the markup sets a quality metric: the three are
/// absent in every record that the assembler completes.
#[derive(Clone, Debug, PartialEq, Eq)]
pub struct SdRecord {
    pub device_id: String,
    pub timestamp: i64,
    pub rssi: i32,
    pub snr: i32,
    pub phy: String,
    pub frame_type: String,
    pub payload: Vec<u8>,
    pub quality_metric_1: Option<u64>,
    pub quality_metric_2: Option<i32>,
    pub quality_metric_3: Option<i32>,
}

/// The mathematical value of an [`SdRecord`].
pub struct SdRecordView {
    pub device_id: Seq<char>,
    pub timestamp: i64,
    pub rssi: i32,
    pub snr: i32,
    pub phy: Seq<char>,
    pub frame_type: Seq<char>,
    pub payload: Seq<u8>,
    pub quality_metric_1: Option<u64>,
    pub quality_metric_2: Option<i32>,
    pub quality_metric_3: Option<i32>,
}

impl View for SdRecord {
    type V = SdRecordView;

    open spec fn view(&self) -> SdRecordView {
        SdRecordView {
            device_id: self.device_id@,
            timestamp: self.timestamp,
            rssi: self.rssi,
            snr: self.snr,
            phy: self.phy@,
            frame_type: self.frame_type@,
            payload: self.payload@,
            quality_metric_1: self.quality_metric_1,
            quality_metric_2: self.quality_metric_2,
            quality_metric_3: self.quality_metric_3,
        }
    }
}

/// The record in which nothing has been set: empty texts, zero numbers, no
/// payload, no quality metric.
pub open spec fn blank_record() -> SdRecordView {
    SdRecordView {
        device_id: Seq::empty(),
        timestamp: 0,
        rssi: 0,
        snr: 0,
        phy: Seq::empty(),
        frame_type: Seq::empty(),
        payload: Seq::empty(),
        quality_metric_1: None,
        quality_metric_2: None,
        quality_metric_3: None,
    }
}

/// The views of a sequence of records, in order.
pub open spec fn records_view(records: Seq<SdRecord>) -> Seq<SdRecordView> {
    Seq::new(records.len(), |i: int| records[i]@)
}

/// A record in which nothing has been set.
pub fn new_sd_record() -> (record: SdRecord)
    ensures
        record@ == blank_record(),
{
    SdRecord {
        device_id: String::new(),
        timestamp: 0,
        rssi: 0,
        snr: 0,
        phy: String::new(),
        frame_type: String::new(),
        payload: Vec::new(),
        quality_metric_1: None,
        quality_metric_2: None,
        quality_metric_3: None,
    }
}

} // verus!
