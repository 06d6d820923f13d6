//! Tagged scalar values and the typed accessors over them.

use vstd::prelude::*;

verus! {

/// The tag of a scalar value: which of the four kinds it holds.
#[derive(Clone, Copy, PartialEq, Eq, Structural, Debug)]
pub enum ScalarKind {
    Integer,
    Float,
    Text,
    Timestamp,
}

/// One cell of a materialized row: a scalar tagged with its kind.
///
/// Exactly one tag is active per instance. The `Float` variant carries the
/// raw IEEE 754 bit pattern of a 64-bit float, since verified code does not
/// compute with floating point; callers that want the numeric value convert
/// the bits outside the library.
#[derive(Debug)]
pub enum BatchDataFrameValue {
    Integer(i32),
    Float(u64),
    Text(String),
    Timestamp(i64),
}

/// The mathematical model of a scalar: text is seen as a sequence of
/// characters, the other kinds as the machine values they carry.
pub ghost enum ScalarModel {
    Integer(i32),
    Float(u64),
    Text(Seq<char>),
    Timestamp(i64),
}

impl ScalarModel {
    /// The tag of a modeled scalar.
    pub open spec fn kind(self) -> ScalarKind {
        match self {
            ScalarModel::Integer(_) => ScalarKind::Integer,
            ScalarModel::Float(_) => ScalarKind::Float,
            ScalarModel::Text(_) => ScalarKind::Text,
            ScalarModel::Timestamp(_) => ScalarKind::Timestamp,
        }
    }
}

impl View for BatchDataFrameValue {
    type V = ScalarModel;

    open spec fn view(&self) -> ScalarModel {
        match self {
            BatchDataFrameValue::Integer(v) => ScalarModel::Integer(*v),
            BatchDataFrameValue::Float(bits) => ScalarModel::Float(*bits),
            BatchDataFrameValue::Text(s) => ScalarModel::Text(s@),
            BatchDataFrameValue::Timestamp(t) => ScalarModel::Timestamp(*t),
        }
    }
}

/// The failures this library reports.
#[derive(Clone, Copy, PartialEq, Eq, Structural, Debug)]
pub enum DataFrameError {
    /// A column's declared type is outside the supported set; raised during
    /// materialization and fatal for the whole call.
    UnsupportedType,
    /// An accessor expected one scalar kind and found another; raised per
    /// cell access.
    TypeMismatch { expected: ScalarKind, actual: ScalarKind },
}

impl BatchDataFrameValue {
    /// The active tag of this value.
    pub fn kind(&self) -> (k: ScalarKind)
        ensures
            k == self@.kind(),
    {
        match self {
            BatchDataFrameValue::Integer(_) => ScalarKind::Integer,
            BatchDataFrameValue::Float(_) => ScalarKind::Float,
            BatchDataFrameValue::Text(_) => ScalarKind::Text,
            BatchDataFrameValue::Timestamp(_) => ScalarKind::Timestamp,
        }
    }

    /// Projects the stored 32-bit integer; any other tag is a `TypeMismatch`.
    pub fn extract_integer(&self) -> (r: Result<i32, DataFrameError>)
        ensures
            (match self@ {
                ScalarModel::Integer(v) => r == Ok::<i32, DataFrameError>(v),
                m => r == Err::<i32, DataFrameError>(DataFrameError::TypeMismatch {
                    expected: ScalarKind::Integer,
                    actual: m.kind(),
                }),
            }),
    {
        match self {
            BatchDataFrameValue::Integer(v) => Ok(*v),
            other => Err(DataFrameError::TypeMismatch {
                expected: ScalarKind::Integer,
                actual: other.kind(),
            }),
        }
    }

    /// Projects the stored float, as its IEEE 754 bit pattern; any other tag
    /// is a `TypeMismatch`.
    pub fn extract_float(&self) -> (r: Result<u64, DataFrameError>)
        ensures
            (match self@ {
                ScalarModel::Float(bits) => r == Ok::<u64, DataFrameError>(bits),
                m => r == Err::<u64, DataFrameError>(DataFrameError::TypeMismatch {
                    expected: ScalarKind::Float,
                    actual: m.kind(),
                }),
            }),
    {
        match self {
            BatchDataFrameValue::Float(bits) => Ok(*bits),
            other => Err(DataFrameError::TypeMismatch {
                expected: ScalarKind::Float,
                actual: other.kind(),
            }),
        }
    }

    /// Projects the stored text; any other tag is a `TypeMismatch`.
    pub fn extract_text(&self) -> (r: Result<&str, DataFrameError>)
        ensures
            (match self@ {
                ScalarModel::Text(t) => r matches Ok(s) && s@ == t,
                m => r matches Err(e) && e == (DataFrameError::TypeMismatch {
                    expected: ScalarKind::Text,
                    actual: m.kind(),
                }),
            }),
    {
        match self {
            BatchDataFrameValue::Text(s) => Ok(s.as_str()),
            other => Err(DataFrameError::TypeMismatch {
                expected: ScalarKind::Text,
                actual: other.kind(),
            }),
        }
    }

    /// Projects the stored microsecond timestamp; any other tag is a
    /// `TypeMismatch`.
    pub fn extract_timestamp(&self) -> (r: Result<i64, DataFrameError>)
        ensures
            (match self@ {
                ScalarModel::Timestamp(t) => r == Ok::<i64, DataFrameError>(t),
                m => r == Err::<i64, DataFrameError>(DataFrameError::TypeMismatch {
                    expected: ScalarKind::Timestamp,
                    actual: m.kind(),
                }),
            }),
    {
        match self {
            BatchDataFrameValue::Timestamp(t) => Ok(*t),
            other => Err(DataFrameError::TypeMismatch {
                expected: ScalarKind::Timestamp,
                actual: other.kind(),
            }),
        }
    }
}

} // verus!
