use arrow_array::{Array, BinaryArray, Float64Array, Int32Array, Int64Array, RecordBatch, StringArray};
use arrow_schema::DataType;
use sd_ingest::arrow_batch::{blobs_fit, build_recordbatch, texts_fit, to_arrow};
use sd_ingest::batch::{schema, ColumnKind, ColumnarBatch};
use sd_ingest::error::IngestError;
use sd_ingest::ingest::{ingest, IngestOutcome};
use sd_ingest::record::{new_sd_record, SdRecord};

fn texts(batch: &RecordBatch, i: usize) -> Vec<Option<String>> {
    let a = batch.column(i).as_any().downcast_ref::<StringArray>().unwrap();
    a.iter().map(|c| c.map(|s| s.to_string())).collect()
}

fn longs(batch: &RecordBatch, i: usize) -> Vec<Option<i64>> {
    batch.column(i).as_any().downcast_ref::<Int64Array>().unwrap().iter().collect()
}

fn ints(batch: &RecordBatch, i: usize) -> Vec<Option<i32>> {
    batch.column(i).as_any().downcast_ref::<Int32Array>().unwrap().iter().collect()
}

fn blobs(batch: &RecordBatch, i: usize) -> Vec<Option<Vec<u8>>> {
    let a = batch.column(i).as_any().downcast_ref::<BinaryArray>().unwrap();
    a.iter().map(|c| c.map(|b| b.to_vec())).collect()
}

fn floats(batch: &RecordBatch, i: usize) -> Vec<Option<f64>> {
    batch.column(i).as_any().downcast_ref::<Float64Array>().unwrap().iter().collect()
}

fn some<T: Clone>(cells: &[T]) -> Vec<Option<T>> {
    cells.iter().map(|c| Some(c.clone())).collect()
}

#[test]
fn schema_has_ten_columns_in_fixed_order() {
    let columns = schema();
    let names: Vec<&str> = columns.iter().map(|c| c.name).collect();
    assert_eq!(
        names,
        vec![
            "device_id",
            "ts",
            "rssi",
            "snr",
            "phy",
            "frame_type",
            "payload",
            "quality_metric_1",
            "quality_metric_2",
            "quality_metric_3",
        ]
    );
    let kinds: Vec<ColumnKind> = columns.iter().map(|c| c.kind).collect();
    assert_eq!(
        kinds,
        vec![
            ColumnKind::Utf8,
            ColumnKind::Int64,
            ColumnKind::Int32,
            ColumnKind::Int32,
            ColumnKind::Utf8,
            ColumnKind::Utf8,
            ColumnKind::Binary,
            ColumnKind::Float64,
            ColumnKind::Int32,
            ColumnKind::Int32,
        ]
    );
    let nullable: Vec<bool> = columns.iter().map(|c| c.nullable).collect();
    assert_eq!(nullable, vec![false, false, false, false, false, false, false, true, true, true]);
}

fn two_records() -> Vec<SdRecord> {
    let mut a = new_sd_record();
    a.device_id = "A".to_string();
    a.timestamp = 1;
    a.rssi = -10;
    a.snr = 5;
    a.phy = "P".to_string();
    a.frame_type = "up".to_string();
    a.payload = vec![1, 2, 3];
    a.quality_metric_1 = Some(1.5f64.to_bits());
    a.quality_metric_2 = Some(0);
    let mut b = new_sd_record();
    b.device_id = "B".to_string();
    b.quality_metric_3 = Some(-1);
    vec![a, b]
}

#[test]
fn from_records_puts_each_field_in_its_column() {
    let batch = ColumnarBatch::from_records(&two_records());
    assert_eq!(batch.num_rows(), 2);
    assert_eq!(batch.device_id(), &vec!["A".to_string(), "B".to_string()]);
    assert_eq!(batch.ts(), &vec![1, 0]);
    assert_eq!(batch.rssi(), &vec![-10, 0]);
    assert_eq!(batch.snr(), &vec![5, 0]);
    assert_eq!(batch.phy(), &vec!["P".to_string(), String::new()]);
    assert_eq!(batch.frame_type(), &vec!["up".to_string(), String::new()]);
    assert_eq!(batch.payload(), &vec![vec![1u8, 2, 3], vec![]]);
    assert_eq!(batch.quality_metric_1(), &vec![Some(1.5f64.to_bits()), None]);
    assert_eq!(batch.quality_metric_2(), &vec![Some(0), None]);
    assert_eq!(batch.quality_metric_3(), &vec![None, Some(-1)]);
}

#[test]
fn from_records_of_no_records_has_no_rows() {
    let batch = ColumnarBatch::from_records(&[]);
    assert_eq!(batch.num_rows(), 0);
    assert!(batch.payload().is_empty());
}

#[test]
fn build_recordbatch_puts_each_field_in_its_column() {
    let batch = build_recordbatch(&two_records()).unwrap().record_batch;
    assert_eq!(batch.num_rows(), 2);
    assert_eq!(batch.num_columns(), 10);
    assert_eq!(texts(&batch, 0), some(&["A".to_string(), "B".to_string()]));
    assert_eq!(longs(&batch, 1), some(&[1, 0]));
    assert_eq!(ints(&batch, 2), some(&[-10, 0]));
    assert_eq!(ints(&batch, 3), some(&[5, 0]));
    assert_eq!(texts(&batch, 4), some(&["P".to_string(), String::new()]));
    assert_eq!(texts(&batch, 5), some(&["up".to_string(), String::new()]));
    assert_eq!(blobs(&batch, 6), some(&[vec![1u8, 2, 3], vec![]]));
    assert_eq!(floats(&batch, 7), vec![Some(1.5), None]);
    assert_eq!(ints(&batch, 8), vec![Some(0), None]);
    assert_eq!(ints(&batch, 9), vec![None, Some(-1)]);
}

#[test]
fn build_recordbatch_gives_the_batch_the_fixed_schema() {
    let batch = build_recordbatch(&two_records()).unwrap().record_batch;
    let schema = batch.schema();
    let fields: Vec<(&str, &DataType, bool)> = schema
        .fields()
        .iter()
        .map(|f| (f.name().as_str(), f.data_type(), f.is_nullable()))
        .collect();
    assert_eq!(
        fields,
        vec![
            ("device_id", &DataType::Utf8, false),
            ("ts", &DataType::Int64, false),
            ("rssi", &DataType::Int32, false),
            ("snr", &DataType::Int32, false),
            ("phy", &DataType::Utf8, false),
            ("frame_type", &DataType::Utf8, false),
            ("payload", &DataType::Binary, false),
            ("quality_metric_1", &DataType::Float64, true),
            ("quality_metric_2", &DataType::Int32, true),
            ("quality_metric_3", &DataType::Int32, true),
        ]
    );
}

#[test]
fn build_recordbatch_of_no_records_has_no_rows() {
    let batch = build_recordbatch(&[]).unwrap().record_batch;
    assert_eq!(batch.num_rows(), 0);
    assert_eq!(batch.num_columns(), 10);
}

#[test]
fn a_null_cell_is_apart_from_every_number() {
    let columns = ColumnarBatch::try_new(
        vec![String::new(); 3],
        vec![0; 3],
        vec![0; 3],
        vec![0; 3],
        vec![String::new(); 3],
        vec![String::new(); 3],
        vec![vec![]; 3],
        vec![Some(0f64.to_bits()), None, Some(f64::MIN.to_bits())],
        vec![Some(0), None, Some(i32::MIN)],
        vec![None, Some(i32::MAX), Some(-1)],
    )
    .unwrap();
    let batch = to_arrow(&columns).unwrap().record_batch;
    assert_eq!(floats(&batch, 7), vec![Some(0.0), None, Some(f64::MIN)]);
    assert_eq!(ints(&batch, 8), vec![Some(0), None, Some(i32::MIN)]);
    assert_eq!(ints(&batch, 9), vec![None, Some(i32::MAX), Some(-1)]);
    assert_eq!(batch.column(7).null_count(), 1);
    assert_eq!(batch.column(0).null_count(), 0);
}

#[test]
fn small_columns_fit() {
    assert!(texts_fit(&vec![]));
    assert!(texts_fit(&vec!["a".to_string(), "héllo".to_string()]));
    assert!(blobs_fit(&vec![]));
    assert!(blobs_fit(&vec![vec![0u8; 1000], vec![], vec![1]]));
}

#[test]
fn try_new_refuses_columns_of_different_lengths() {
    let res = ColumnarBatch::try_new(
        vec!["A".to_string()],
        vec![1, 2],
        vec![0],
        vec![0],
        vec![String::new()],
        vec![String::new()],
        vec![vec![]],
        vec![None],
        vec![None],
        vec![None],
    );
    match res {
        Err(e) => assert_eq!(
            e,
            IngestError::SchemaMismatch { detail: "columns differ in length".to_string() }
        ),
        Ok(_) => panic!("a failure was due"),
    }
    let res = ColumnarBatch::try_new(
        vec!["A".to_string()],
        vec![1],
        vec![0],
        vec![0],
        vec![String::new()],
        vec![String::new()],
        vec![vec![]],
        vec![None],
        vec![None],
        vec![],
    );
    assert!(matches!(res, Err(IngestError::SchemaMismatch { .. })));
}

#[test]
fn try_new_accepts_columns_of_one_length() {
    let batch = ColumnarBatch::try_new(
        vec!["A".to_string()],
        vec![1],
        vec![2],
        vec![3],
        vec!["p".to_string()],
        vec!["t".to_string()],
        vec![vec![9]],
        vec![None],
        vec![Some(4)],
        vec![None],
    )
    .unwrap();
    assert_eq!(batch.num_rows(), 1);
    assert_eq!(batch.quality_metric_2(), &vec![Some(4)]);
}

#[test]
fn two_records_under_one_outer_element() {
    let input = b"<sdl deviceId=\"X\"><sd ts=\"1\" rssi=\"-10\" snr=\"5\" phy=\"A\" type=\"up\">ab</sd><sd ts=\"2\" rssi=\"-20\" snr=\"6\" phy=\"B\" type=\"down\"></sd></sdl>";
    let batch = match ingest(input) {
        Ok(IngestOutcome::Batch(batch)) => batch.record_batch,
        Ok(IngestOutcome::NoRecords) => panic!("records were due"),
        Err(e) => panic!("unexpected: {:?}", e),
    };
    assert_eq!(batch.num_rows(), 2);
    assert_eq!(texts(&batch, 0), some(&["X".to_string(), "X".to_string()]));
    assert_eq!(longs(&batch, 1), some(&[1, 2]));
    assert_eq!(ints(&batch, 2), some(&[-10, -20]));
    assert_eq!(ints(&batch, 3), some(&[5, 6]));
    assert_eq!(texts(&batch, 4), some(&["A".to_string(), "B".to_string()]));
    assert_eq!(texts(&batch, 5), some(&["up".to_string(), "down".to_string()]));
    assert_eq!(blobs(&batch, 6), some(&[vec![0xABu8], vec![]]));
    assert_eq!(floats(&batch, 7), vec![None, None]);
    assert_eq!(ints(&batch, 8), vec![None, None]);
    assert_eq!(ints(&batch, 9), vec![None, None]);
}

#[test]
fn a_document_without_records_builds_no_batch() {
    assert!(matches!(ingest(b""), Ok(IngestOutcome::NoRecords)));
    assert!(matches!(ingest(b"<sdl deviceId=\"X\"></sdl>"), Ok(IngestOutcome::NoRecords)));
    assert!(matches!(
        ingest(b"<sdl deviceId=\"X\"><sd ts=\"1\"/></sdl>"),
        Ok(IngestOutcome::NoRecords)
    ));
}

#[test]
fn a_failure_of_the_parse_is_the_failure_of_the_ingestion() {
    let input = b"<sdl deviceId=\"X\"><sd ts=\"1\">ab</sd></sd></sdl>";
    assert!(matches!(ingest(input), Err(IngestError::MalformedInput { .. })));
    let input = b"<sdl deviceId=\"X\"><sd ts=\"1\" rssi=\"high\">ab</sd></sdl>";
    assert!(matches!(ingest(input), Err(IngestError::FieldParseError { .. })));
}
