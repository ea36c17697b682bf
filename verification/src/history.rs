//! The download history: its size limit and its export as CSV.
use vstd::prelude::*;

use crate::text::{chars_of, extend_chars, replace_all, replace_chars, string_of};

verus! {

#[verifier::external_type_specification]
#[verifier::external_body]
pub struct ExJsonValue(serde_json::Value);

/// The most history entries that are saved, loaded or exported.
pub const MAX_HISTORY_ENTRIES: usize = 10000;

/// The largest history file that is read or written (10 MiB).
pub const MAX_HISTORY_BYTES: u64 = 10485760;

/// Why a history operation is refused.
#[derive(Debug, Clone, Copy, PartialEq, Eq, Structural)]
pub enum HistoryError {
    TooManyEntries,
    InvalidFormat,
}

impl HistoryError {
    pub open spec fn message_spec(&self) -> Seq<char> {
        match *self {
            HistoryError::TooManyEntries => "Download history exceeds the limit of 10000 entries"@,
            HistoryError::InvalidFormat => "Invalid format. Use 'csv' or 'json'."@,
        }
    }

    /// The error's text, as the user sees it.
    pub fn message(&self) -> (r: String)
        ensures
            r@ == self.message_spec(),
    {
        match *self {
            HistoryError::TooManyEntries => String::from_str(
                "Download history exceeds the limit of 10000 entries",
            ),
            HistoryError::InvalidFormat => String::from_str("Invalid format. Use 'csv' or 'json'."),
        }
    }
}

/// Refuses a history with more than `MAX_HISTORY_ENTRIES` entries.
pub fn validate_history(history: &[serde_json::Value]) -> (r: Result<(), HistoryError>)
    ensures
        r is Ok <==> history@.len() <= MAX_HISTORY_ENTRIES,
        r is Err ==> r == Err::<(), HistoryError>(HistoryError::TooManyEntries),
{
    if history.len() > MAX_HISTORY_ENTRIES {
        return Err(HistoryError::TooManyEntries);
    }
    Ok(())
}

/// The file format of an export.
#[derive(Debug, Clone, Copy, PartialEq, Eq, Structural)]
pub enum ExportFormat {
    Csv,
    Json,
}

impl ExportFormat {
    pub open spec fn extension_spec(&self) -> Seq<char> {
        match *self {
            ExportFormat::Csv => "csv"@,
            ExportFormat::Json => "json"@,
        }
    }

    /// The file extension of the format.
    pub fn extension(&self) -> (r: &'static str)
        ensures
            r@ == self.extension_spec(),
    {
        match *self {
            ExportFormat::Csv => "csv",
            ExportFormat::Json => "json",
        }
    }
}

/// Reads the export format that the user asked for: `csv` or `json`.
pub fn export_format(format: &str) -> (r: Result<ExportFormat, HistoryError>)
    ensures
        format@ == "csv"@ ==> r == Ok::<ExportFormat, HistoryError>(ExportFormat::Csv),
        format@ == "json"@ ==> r == Ok::<ExportFormat, HistoryError>(ExportFormat::Json),
        format@ != "csv"@ && format@ != "json"@ ==> r == Err::<ExportFormat, HistoryError>(
            HistoryError::InvalidFormat,
        ),
{
    proof {
        reveal_strlit("csv");
        reveal_strlit("json");
        assert("csv"@.len() != "json"@.len());
    }
    let f = chars_of(format);
    let csv = chars_of("csv");
    let json = chars_of("json");
    if crate::text::chars_eq(f.as_slice(), csv.as_slice()) {
        Ok(ExportFormat::Csv)
    } else if crate::text::chars_eq(f.as_slice(), json.as_slice()) {
        Ok(ExportFormat::Json)
    } else {
        Err(HistoryError::InvalidFormat)
    }
}

// ---------------------------------------------------------------------------
// CSV
// ---------------------------------------------------------------------------

/// A character that makes a spreadsheet treat a cell as a formula.
pub open spec fn is_formula_start(c: char) -> bool {
    c == '=' || c == '+' || c == '-' || c == '@' || c == '\t' || c == '\r'
}

/// A field made safe for a quoted CSV cell: quotes doubled, and a leading `'`
/// added when the cell would otherwise start like a formula.
pub open spec fn sanitize_csv_spec(s: Seq<char>) -> Seq<char> {
    let escaped = replace_all(s, "\""@, "\"\""@);
    if escaped.len() > 0 && is_formula_start(escaped[0]) {
        seq!['\''] + escaped
    } else {
        escaped
    }
}

fn sanitize_csv_chars(value: &[char]) -> (r: Vec<char>)
    ensures
        r@ == sanitize_csv_spec(value@),
{
    proof {
        reveal_strlit("\"");
        reveal_strlit("\"\"");
    }
    let quote = chars_of("\"");
    let doubled = chars_of("\"\"");
    let escaped = replace_chars(value, quote.as_slice(), doubled.as_slice());
    if escaped.len() > 0 {
        let c = escaped[0];
        if c == '=' || c == '+' || c == '-' || c == '@' || c == '\t' || c == '\r' {
            let mut r: Vec<char> = Vec::new();
            r.push('\'');
            extend_chars(&mut r, escaped.as_slice());
            return r;
        }
    }
    escaped
}

/// Escapes a value for a quoted CSV cell and defuses spreadsheet formulas.
pub fn sanitize_csv_field(value: &str) -> (r: String)
    ensures
        r@ == sanitize_csv_spec(value@),
{
    let v = chars_of(value);
    let s = sanitize_csv_chars(v.as_slice());
    string_of(s.as_slice())
}

/// A sanitized cell never starts like a spreadsheet formula.
pub proof fn lemma_csv_cell_not_formula(s: Seq<char>)
    ensures
        sanitize_csv_spec(s).len() > 0 ==> !is_formula_start(sanitize_csv_spec(s)[0]),
{
}

/// One history entry as the export reads it: text fields (empty when the
/// entry lacks them) and the progress already written as a percentage with
/// one decimal, such as `100.0%`.
pub struct HistoryRow {
    pub title: String,
    pub artist: String,
    pub album: String,
    pub status: String,
    pub percent: String,
    pub timestamp: String,
    pub file_path: String,
    pub error_msg: String,
}

pub open spec fn csv_header() -> Seq<char> {
    "Title,Artist,Album,Status,Progress,Timestamp,File Path,Error Message\n"@
}

/// One line of the CSV export: eight quoted cells.
pub open spec fn csv_line(r: HistoryRow) -> Seq<char> {
    "\""@ + sanitize_csv_spec(r.title@) + "\",\""@ + sanitize_csv_spec(r.artist@) + "\",\""@
        + sanitize_csv_spec(r.album@) + "\",\""@ + sanitize_csv_spec(r.status@) + "\",\""@
        + r.percent@ + "\",\""@ + sanitize_csv_spec(r.timestamp@) + "\",\""@ + sanitize_csv_spec(
        r.file_path@,
    ) + "\",\""@ + sanitize_csv_spec(r.error_msg@) + "\"\n"@
}

/// The lines of all entries, in order.
pub open spec fn csv_lines(rows: Seq<HistoryRow>) -> Seq<char>
    decreases rows.len(),
{
    if rows.len() == 0 {
        Seq::empty()
    } else {
        csv_lines(rows.drop_last()) + csv_line(rows.last())
    }
}

pub open spec fn csv_spec(rows: Seq<HistoryRow>) -> Seq<char> {
    csv_header() + csv_lines(rows)
}

fn push_lit(v: &mut Vec<char>, s: &str)
    ensures
        final(v)@ == old(v)@ + s@,
{
    let c = chars_of(s);
    extend_chars(v, c.as_slice());
}

fn push_field(v: &mut Vec<char>, s: &String)
    ensures
        final(v)@ == old(v)@ + sanitize_csv_spec(s@),
{
    let c = chars_of(s.as_str());
    let f = sanitize_csv_chars(c.as_slice());
    extend_chars(v, f.as_slice());
}

fn csv_line_chars(row: &HistoryRow) -> (r: Vec<char>)
    ensures
        r@ == csv_line(*row),
{
    let mut v: Vec<char> = Vec::new();
    push_lit(&mut v, "\"");
    push_field(&mut v, &row.title);
    push_lit(&mut v, "\",\"");
    push_field(&mut v, &row.artist);
    push_lit(&mut v, "\",\"");
    push_field(&mut v, &row.album);
    push_lit(&mut v, "\",\"");
    push_field(&mut v, &row.status);
    push_lit(&mut v, "\",\"");
    push_lit(&mut v, row.percent.as_str());
    push_lit(&mut v, "\",\"");
    push_field(&mut v, &row.timestamp);
    push_lit(&mut v, "\",\"");
    push_field(&mut v, &row.file_path);
    push_lit(&mut v, "\",\"");
    push_field(&mut v, &row.error_msg);
    push_lit(&mut v, "\"\n");
    v
}

/// The history as CSV: a header line, then one line per entry.
pub fn generate_csv(history: &[HistoryRow]) -> (r: String)
    ensures
        r@ == csv_spec(history@),
{
    let mut csv: Vec<char> = Vec::new();
    push_lit(&mut csv, "Title,Artist,Album,Status,Progress,Timestamp,File Path,Error Message\n");
    let mut i: usize = 0;
    assert(history@.take(0) =~= Seq::<HistoryRow>::empty());
    while i < history.len()
        invariant
            i <= history.len(),
            csv@ == csv_header() + csv_lines(history@.take(i as int)),
        decreases history.len() - i,
    {
        let ghost before = csv@;
        let line = csv_line_chars(&history[i]);
        extend_chars(&mut csv, line.as_slice());
        assert(history@.take(i + 1).drop_last() =~= history@.take(i as int));
        assert(csv@ =~= before + csv_line(history@[i as int]));
        i += 1;
    }
    assert(history@.take(history.len() as int) =~= history@);
    string_of(csv.as_slice())
}

} // verus!
