//! Materializer behavior: row counts, ordering, schema, and failure.

use batchframe::{Batch, BatchDataFrame, BatchDataFrameValue, Column, ColumnData, DataFrameError};

fn users_batch(ids: Vec<i32>, emails: Vec<&str>) -> Batch {
    let n = ids.len();
    assert_eq!(n, emails.len());
    Batch {
        num_rows: n,
        columns: vec![
            Column {
                name: "user_id".to_string(),
                data: ColumnData::Integer(ids),
            },
            Column {
                name: "email".to_string(),
                data: ColumnData::Text(emails.into_iter().map(|s| s.to_string()).collect()),
            },
        ],
    }
}

#[test]
fn single_integer_round_trip() {
    let batch = Batch {
        num_rows: 1,
        columns: vec![Column {
            name: "answer".to_string(),
            data: ColumnData::Integer(vec![42]),
        }],
    };
    let df = BatchDataFrame::new(vec![batch]).unwrap();
    assert_eq!(df.rows.len(), 1);
    let value = df.rows[0].get("answer").unwrap();
    assert_eq!(value.extract_integer().unwrap(), 42);
    assert!(value.extract_text().is_err());
}

#[test]
fn zero_row_batch_contributes_nothing() {
    let batch = Batch {
        num_rows: 0,
        columns: vec![Column {
            name: "user_id".to_string(),
            data: ColumnData::Integer(vec![]),
        }],
    };
    let df = BatchDataFrame::new(vec![batch]).unwrap();
    assert_eq!(df.rows.len(), 0);
}

#[test]
fn no_batches_no_rows() {
    let df = BatchDataFrame::new(vec![]).unwrap();
    assert_eq!(df.rows.len(), 0);
}

#[test]
fn two_batches_concatenate_in_order() {
    let a = users_batch(vec![1, 2], vec!["a@x", "b@x"]);
    let b = users_batch(vec![3, 4, 5], vec!["c@x", "d@x", "e@x"]);
    let df = BatchDataFrame::new(vec![a, b]).unwrap();
    assert_eq!(df.rows.len(), 5);
    for (i, expected_id) in [1, 2, 3, 4, 5].into_iter().enumerate() {
        let row = &df.rows[i];
        assert_eq!(row.get("user_id").unwrap().extract_integer().unwrap(), expected_id);
    }
    assert_eq!(df.rows[0].get("email").unwrap().extract_text().unwrap(), "a@x");
    assert_eq!(df.rows[4].get("email").unwrap().extract_text().unwrap(), "e@x");
}

#[test]
fn rows_share_the_schema_columns() {
    let a = users_batch(vec![1], vec!["a@x"]);
    let b = users_batch(vec![2, 3], vec!["b@x", "c@x"]);
    let df = BatchDataFrame::new(vec![a, b]).unwrap();
    for row in &df.rows {
        assert_eq!(row.len(), 2);
        assert!(row.get("user_id").is_some());
        assert!(row.get("email").is_some());
        assert!(row.get("department").is_none());
    }
}

#[test]
fn unsupported_column_fails_whole_call() {
    let good = users_batch(vec![1], vec!["a@x"]);
    let bad = Batch {
        num_rows: 1,
        columns: vec![Column {
            name: "weight".to_string(),
            data: ColumnData::Unsupported,
        }],
    };
    let err = BatchDataFrame::new(vec![good, bad]).unwrap_err();
    assert_eq!(err, DataFrameError::UnsupportedType);
}

#[test]
fn all_three_supported_kinds_materialize() {
    let batch = Batch {
        num_rows: 2,
        columns: vec![
            Column {
                name: "user_id".to_string(),
                data: ColumnData::Integer(vec![7, 8]),
            },
            Column {
                name: "email".to_string(),
                data: ColumnData::Text(vec!["a@x".to_string(), "b@x".to_string()]),
            },
            Column {
                name: "created_at".to_string(),
                data: ColumnData::Timestamp(vec![1_600_000_000_000_000, 1_600_000_000_000_001]),
            },
        ],
    };
    let df = BatchDataFrame::new(vec![batch]).unwrap();
    assert_eq!(df.rows.len(), 2);
    let row = &df.rows[1];
    assert_eq!(row.get("user_id").unwrap().extract_integer().unwrap(), 8);
    assert_eq!(row.get("email").unwrap().extract_text().unwrap(), "b@x");
    assert_eq!(
        row.get("created_at").unwrap().extract_timestamp().unwrap(),
        1_600_000_000_000_001
    );
}

#[test]
fn later_duplicate_column_wins() {
    let batch = Batch {
        num_rows: 1,
        columns: vec![
            Column {
                name: "v".to_string(),
                data: ColumnData::Integer(vec![1]),
            },
            Column {
                name: "v".to_string(),
                data: ColumnData::Integer(vec![2]),
            },
        ],
    };
    let df = BatchDataFrame::new(vec![batch]).unwrap();
    assert_eq!(df.rows.len(), 1);
    assert_eq!(df.rows[0].len(), 1);
    assert_eq!(df.rows[0].get("v").unwrap().extract_integer().unwrap(), 2);
}

#[test]
fn row_insert_and_get() {
    let mut row = batchframe::BatchDataFrameRow::new();
    assert_eq!(row.len(), 0);
    row.insert("k".to_string(), BatchDataFrameValue::Integer(5));
    assert_eq!(row.len(), 1);
    assert_eq!(row.get("k").unwrap().extract_integer().unwrap(), 5);
    row.insert("k".to_string(), BatchDataFrameValue::Integer(6));
    assert_eq!(row.len(), 1);
    assert_eq!(row.get("k").unwrap().extract_integer().unwrap(), 6);
    assert!(row.get("missing").is_none());
}
