//! Typed-accessor laws: a matching tag projects the stored value unchanged,
//! a mismatched tag reports expected and actual kinds.

use batchframe::{BatchDataFrameValue, DataFrameError, ScalarKind};

#[test]
fn integer_projects_unchanged() {
    let v = BatchDataFrameValue::Integer(-17);
    assert_eq!(v.extract_integer().unwrap(), -17);
}

#[test]
fn text_projects_unchanged() {
    let v = BatchDataFrameValue::Text("dept-7".to_string());
    assert_eq!(v.extract_text().unwrap(), "dept-7");
}

#[test]
fn timestamp_projects_unchanged() {
    let v = BatchDataFrameValue::Timestamp(1_700_000_000_123_456);
    assert_eq!(v.extract_timestamp().unwrap(), 1_700_000_000_123_456);
}

#[test]
fn float_projects_bits_unchanged() {
    let bits = 1.5f64.to_bits();
    let v = BatchDataFrameValue::Float(bits);
    assert_eq!(f64::from_bits(v.extract_float().unwrap()), 1.5);
}

#[test]
fn mismatch_reports_expected_and_actual() {
    let v = BatchDataFrameValue::Integer(1);
    assert_eq!(
        v.extract_text().unwrap_err(),
        DataFrameError::TypeMismatch {
            expected: ScalarKind::Text,
            actual: ScalarKind::Integer,
        }
    );
    assert_eq!(
        v.extract_float().unwrap_err(),
        DataFrameError::TypeMismatch {
            expected: ScalarKind::Float,
            actual: ScalarKind::Integer,
        }
    );
    assert_eq!(
        v.extract_timestamp().unwrap_err(),
        DataFrameError::TypeMismatch {
            expected: ScalarKind::Timestamp,
            actual: ScalarKind::Integer,
        }
    );
    let t = BatchDataFrameValue::Text("x".to_string());
    assert_eq!(
        t.extract_integer().unwrap_err(),
        DataFrameError::TypeMismatch {
            expected: ScalarKind::Integer,
            actual: ScalarKind::Text,
        }
    );
}

#[test]
fn kind_names_the_active_tag() {
    assert_eq!(BatchDataFrameValue::Integer(0).kind(), ScalarKind::Integer);
    assert_eq!(BatchDataFrameValue::Float(0).kind(), ScalarKind::Float);
    assert_eq!(BatchDataFrameValue::Text(String::new()).kind(), ScalarKind::Text);
    assert_eq!(BatchDataFrameValue::Timestamp(0).kind(), ScalarKind::Timestamp);
}
