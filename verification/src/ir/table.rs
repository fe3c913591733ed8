//! The table representation. Covers CSV, JSON, XML, YAML, TSV. A float value is
//! kept as its IEEE-754 bit pattern and a JSON value as its compact text.
use vstd::prelude::*;
use std::collections::HashMap;
use crate::ir::{api_version, version_of};
use crate::ir::sums::{sum_of, all_nonneg, lemma_sum_step, lemma_sum_all, lemma_sum_nonneg};
use crate::ir::traits::{IntermediateRepresentation, ValidationError, ValidationSeverity, issue, issues_view};
use crate::text::{decimal, u64_to_decimal};

verus! {

/// A table: its schema, its rows and metadata.
#[derive(Debug, Clone)]
pub struct TableIR {
    pub version: semver::Version,
    pub schema: TableSchema,
    pub rows: Vec<TableRow>,
    pub metadata: TableMetadata,
}

#[derive(Debug, Clone)]
pub struct TableSchema {
    pub columns: Vec<ColumnDef>,
    pub primary_key: Option<Vec<usize>>,
}

#[derive(Debug, Clone)]
pub struct ColumnDef {
    pub index: usize,
    pub name: String,
    pub data_type: DataType,
    pub nullable: bool,
    pub description: Option<String>,
}

#[derive(Debug, Clone, Copy, PartialEq, Eq, Structural)]
pub enum DataType {
    String,
    Integer,
    Float,
    Boolean,
    Date,
    DateTime,
    Time,
    Binary,
    Json,
    Null,
}

#[derive(Debug, Clone)]
pub struct TableRow {
    pub values: Vec<DataValue>,
}

/// A cell value. `Float` holds the bit pattern of an `f64`; `Json` holds the value's
/// compact JSON text.
#[derive(Debug, Clone)]
pub enum DataValue {
    Null,
    String(String),
    Integer(i64),
    Float(u64),
    Boolean(bool),
    Date(String),
    DateTime(String),
    Time(String),
    Binary(Vec<u8>),
    Json(String),
}

#[derive(Debug, Clone)]
pub struct TableMetadata {
    pub source_format: String,
    pub row_count: Option<usize>,
    pub encoding: Option<String>,
    pub delimiter: Option<char>,
    pub has_header: bool,
    pub custom: HashMap<String, String>,
}

/// The decimal text of an integer, with a minus sign where it is negative.
pub open spec fn signed_decimal(i: int) -> Seq<char> {
    if i < 0 {
        seq!['-'] + decimal((-i) as nat)
    } else {
        decimal(i as nat)
    }
}

/// The text of a value: nothing for null, the text itself for text, dates and
/// times, the decimal number for an integer, `true` or `false`, the number of
/// bytes of binary data in angle brackets, the JSON text; a floating-point number
/// is written as `float_text`.
pub open spec fn value_text(v: DataValue, float_text: Seq<char>) -> Seq<char> {
    match v {
        DataValue::Null => Seq::empty(),
        DataValue::String(s) => s@,
        DataValue::Integer(i) => signed_decimal(i as int),
        DataValue::Float(_) => float_text,
        DataValue::Boolean(b) => if b { "true"@ } else { "false"@ },
        DataValue::Date(d) => d@,
        DataValue::DateTime(d) => d@,
        DataValue::Time(t) => t@,
        DataValue::Binary(b) => "<"@ + decimal(b@.len()) + " bytes>"@,
        DataValue::Json(j) => j@,
    }
}

impl DataValue {
    /// The value as text (see [`value_text`]); the text of a floating-point value,
    /// which this library does not compute, is `float_text`.
    pub fn to_string_lossy(&self, float_text: &str) -> (r: String)
        ensures
            r@ == value_text(*self, float_text@),
    {
        match self {
            DataValue::Null => String::new(),
            DataValue::String(s) => s.clone(),
            DataValue::Integer(i) => {
                if *i < 0 {
                    let m: i128 = -(*i as i128);
                    let digits = u64_to_decimal(m as u64);
                    let mut r = String::from_str("-");
                    r.append(digits.as_str());
                    proof {
                        reveal_strlit("-");
                        assert(r@ =~= seq!['-'] + decimal((-(*i as int)) as nat));
                    }
                    r
                } else {
                    u64_to_decimal(*i as u64)
                }
            },
            DataValue::Float(_) => String::from_str(float_text),
            DataValue::Boolean(b) => {
                if *b {
                    String::from_str("true")
                } else {
                    String::from_str("false")
                }
            },
            DataValue::Date(d) => d.clone(),
            DataValue::DateTime(d) => d.clone(),
            DataValue::Time(t) => t.clone(),
            DataValue::Binary(b) => {
                let mut r = String::from_str("<");
                let n = u64_to_decimal(b.len() as u64);
                r.append(n.as_str());
                r.append(" bytes>");
                r
            },
            DataValue::Json(j) => j.clone(),
        }
    }
}

/// The size estimate of a value: its bytes and 32 for text, binary data and JSON
/// text; 32 for the rest.
pub open spec fn value_size(v: DataValue) -> int {
    match v {
        DataValue::String(s) => (vstd::utf8::encode_utf8(s@).len() as usize) + 32,
        DataValue::Binary(b) => (b@.len() as int) + 32,
        DataValue::Json(j) => (vstd::utf8::encode_utf8(j@).len() as usize) + 32,
        _ => 32,
    }
}

pub open spec fn value_sizes(vs: Seq<DataValue>) -> Seq<int> {
    vs.map_values(|v: DataValue| value_size(v))
}

pub open spec fn row_sizes(rs: Seq<TableRow>) -> Seq<int> {
    rs.map_values(|r: TableRow| sum_of(value_sizes(r.values@)))
}

/// The memory estimate of a table: its values, 256 bytes per column, and 1 KiB.
pub open spec fn table_memory(t: TableIR) -> int {
    sum_of(row_sizes(t.rows@)) + t.schema.columns@.len() * 256 + 1024
}

/// The problems reported for the first `n` rows: one for each row whose number of
/// values is not the number of columns, in order.
pub open spec fn row_issues(rs: Seq<TableRow>, cols: nat, n: int) -> Seq<(Seq<char>, Seq<char>, ValidationSeverity)>
    decreases n,
{
    if n <= 0 {
        seq![]
    } else if rs[n - 1].values@.len() != cols {
        row_issues(rs, cols, n - 1).push(
            (
                "rows["@ + decimal((n - 1) as nat) + "].values"@,
                "Expected "@ + decimal(cols) + " values, got "@ + decimal(rs[n - 1].values@.len()),
                ValidationSeverity::Warning,
            ),
        )
    } else {
        row_issues(rs, cols, n - 1)
    }
}

/// The problems `validate` reports: no columns at all, then each row of the wrong width.
pub open spec fn table_issues(t: TableIR) -> Seq<(Seq<char>, Seq<char>, ValidationSeverity)> {
    let first: Seq<(Seq<char>, Seq<char>, ValidationSeverity)> = if t.schema.columns@.len() == 0 {
        seq![("schema.columns"@, "No columns defined"@, ValidationSeverity::Error)]
    } else {
        seq![]
    };
    first + row_issues(t.rows@, t.schema.columns@.len(), t.rows@.len() as int)
}

proof fn lemma_value_sizes_nonneg(vs: Seq<DataValue>)
    ensures
        all_nonneg(value_sizes(vs)),
        sum_of(value_sizes(vs)) >= 0,
{
    assert(all_nonneg(value_sizes(vs)));
    lemma_sum_nonneg(value_sizes(vs));
}

/// The size estimate of a row's values.
fn row_bytes(values: &Vec<DataValue>) -> (r: u64)
    requires
        sum_of(value_sizes(values@)) <= u64::MAX,
    ensures
        r == sum_of(value_sizes(values@)),
{
    let ghost s = value_sizes(values@);
    proof {
        lemma_value_sizes_nonneg(values@);
        assert(s.take(0) =~= Seq::<int>::empty());
    }
    let mut acc: u64 = 0;
    let mut i: usize = 0;
    while i < values.len()
        invariant
            i <= values@.len(),
            s == value_sizes(values@),
            all_nonneg(s),
            sum_of(s) <= u64::MAX,
            acc == sum_of(s.take(i as int)),
        decreases values@.len() - i,
    {
        proof {
            lemma_sum_step(s, i as int);
        }
        let n: u64 = match &values[i] {
            DataValue::String(t) => t.as_str().len() as u64 + 32,
            DataValue::Binary(b) => b.len() as u64 + 32,
            DataValue::Json(j) => j.as_str().len() as u64 + 32,
            _ => 32,
        };
        acc = acc + n;
        i = i + 1;
    }
    proof {
        lemma_sum_all(s);
    }
    acc
}

impl TableIR {
    /// An empty table: no columns, no rows, a header expected.
    pub fn new() -> (r: Self)
        ensures
            r.version == version_of(1, 0, 0),
            r.schema.columns@.len() == 0,
            r.schema.primary_key is None,
            r.rows@.len() == 0,
            r.metadata.source_format@.len() == 0,
            r.metadata.row_count is None,
            r.metadata.encoding is None,
            r.metadata.delimiter is None,
            r.metadata.has_header,
            r.metadata.custom@.len() == 0,
    {
        TableIR {
            version: api_version(),
            schema: TableSchema { columns: Vec::new(), primary_key: None },
            rows: Vec::new(),
            metadata: TableMetadata {
                source_format: String::new(),
                row_count: None,
                encoding: None,
                delimiter: None,
                has_header: true,
                custom: HashMap::new(),
            },
        }
    }

    /// The number of columns.
    pub fn column_count(&self) -> (r: usize)
        ensures
            r == self.schema.columns@.len(),
    {
        self.schema.columns.len()
    }

    /// The number of rows.
    pub fn row_count(&self) -> (r: usize)
        ensures
            r == self.rows@.len(),
    {
        self.rows.len()
    }
}

impl Default for TableIR {
    fn default() -> (r: Self)
        ensures
            r.schema.columns@.len() == 0,
            r.rows@.len() == 0,
            r.metadata.has_header,
    {
        Self::new()
    }
}

impl IntermediateRepresentation for TableIR {
    open spec fn usage_fits(&self) -> bool {
        table_memory(*self) <= u64::MAX
    }

    fn version(&self) -> (r: semver::Version)
        ensures
            r == self.version,
    {
        self.version.clone()
    }

    fn ir_type(&self) -> (r: &'static str)
        ensures
            r@ == "Table"@,
    {
        "Table"
    }

    /// The memory estimate: see [`table_memory`].
    fn memory_usage(&self) -> (r: u64)
        ensures
            r == table_memory(*self),
    {
        let ghost s = row_sizes(self.rows@);
        proof {
            assert forall|i: int| 0 <= i < s.len() implies #[trigger] s[i] >= 0 by {
                lemma_value_sizes_nonneg(self.rows@[i].values@);
            }
            lemma_sum_nonneg(s);
            assert(s.take(0) =~= Seq::<int>::empty());
        }
        let mut acc: u64 = 0;
        let mut i: usize = 0;
        while i < self.rows.len()
            invariant
                i <= self.rows@.len(),
                s == row_sizes(self.rows@),
                all_nonneg(s),
                sum_of(s) + self.schema.columns@.len() * 256 + 1024 <= u64::MAX,
                acc == sum_of(s.take(i as int)),
            decreases self.rows@.len() - i,
        {
            proof {
                lemma_sum_step(s, i as int);
            }
            acc = acc + row_bytes(&self.rows[i].values);
            i = i + 1;
        }
        proof {
            lemma_sum_all(s);
        }
        acc + self.schema.columns.len() as u64 * 256 + 1024
    }

    /// The problems found: see [`table_issues`].
    fn validate(&self) -> (r: Vec<ValidationError>)
        ensures
            issues_view(r@) == table_issues(*self),
    {
        let mut errors: Vec<ValidationError> = Vec::new();
        if self.schema.columns.len() == 0 {
            errors.push(issue("schema.columns", "No columns defined", ValidationSeverity::Error));
        }
        let col_count = self.schema.columns.len();
        let ghost first = issues_view(errors@);
        let mut i: usize = 0;
        proof {
            assert(first + row_issues(self.rows@, col_count as nat, 0) =~= first);
        }
        while i < self.rows.len()
            invariant
                i <= self.rows@.len(),
                col_count == self.schema.columns@.len(),
                issues_view(errors@) == first + row_issues(self.rows@, col_count as nat, i as int),
            decreases self.rows@.len() - i,
        {
            let n = self.rows[i].values.len();
            if n != col_count {
                let mut field = String::from_str("rows[");
                field.append(u64_to_decimal(i as u64).as_str());
                field.append("].values");
                let mut message = String::from_str("Expected ");
                message.append(u64_to_decimal(col_count as u64).as_str());
                message.append(" values, got ");
                message.append(u64_to_decimal(n as u64).as_str());
                let ghost before = issues_view(errors@);
                errors.push(ValidationError { field, message, severity: ValidationSeverity::Warning });
                proof {
                    assert(issues_view(errors@) =~= before.push(
                        (
                            "rows["@ + decimal(i as nat) + "].values"@,
                            "Expected "@ + decimal(col_count as nat) + " values, got "@ + decimal(n as nat),
                            ValidationSeverity::Warning,
                        ),
                    ));
                }
            }
            proof {
                assert(issues_view(errors@) =~= first + row_issues(self.rows@, col_count as nat, i + 1));
            }
            i = i + 1;
        }
        errors
    }

    /// Whether the table has no rows.
    fn is_empty(&self) -> (r: bool)
        ensures
            r == (self.rows@.len() == 0),
    {
        self.rows.len() == 0
    }
}

} // verus!
