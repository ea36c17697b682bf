use deezy::history::{
    export_format, generate_csv, sanitize_csv_field, validate_history, ExportFormat, HistoryError,
    HistoryRow, MAX_HISTORY_ENTRIES,
};

#[test]
fn rejects_excessive_history_entries() {
    let history = vec![serde_json::Value::Null; MAX_HISTORY_ENTRIES + 1];
    assert!(validate_history(&history).is_err());
}

#[test]
fn accepts_history_at_the_limit() {
    let history = vec![serde_json::Value::Null; MAX_HISTORY_ENTRIES];
    assert!(validate_history(&history).is_ok());
    assert!(validate_history(&[]).is_ok());
}

#[test]
fn history_error_messages() {
    assert_eq!(
        HistoryError::TooManyEntries.message(),
        "Download history exceeds the limit of 10000 entries"
    );
    assert_eq!(HistoryError::InvalidFormat.message(), "Invalid format. Use 'csv' or 'json'.");
}

#[test]
fn export_formats_are_csv_and_json() {
    assert!(matches!(export_format("csv"), Ok(ExportFormat::Csv)));
    assert!(matches!(export_format("json"), Ok(ExportFormat::Json)));
    assert!(matches!(export_format("xml"), Err(HistoryError::InvalidFormat)));
    assert!(matches!(export_format("CSV"), Err(HistoryError::InvalidFormat)));
    assert_eq!(ExportFormat::Csv.extension(), "csv");
    assert_eq!(ExportFormat::Json.extension(), "json");
}

#[test]
fn csv_fields_double_quotes_and_defuse_formulas() {
    assert_eq!(sanitize_csv_field("plain"), "plain");
    assert_eq!(sanitize_csv_field("say \"hi\""), "say \"\"hi\"\"");
    assert_eq!(sanitize_csv_field("=SUM(A1:A2)"), "'=SUM(A1:A2)");
    assert_eq!(sanitize_csv_field("+1"), "'+1");
    assert_eq!(sanitize_csv_field("-1"), "'-1");
    assert_eq!(sanitize_csv_field("@cmd"), "'@cmd");
    assert_eq!(sanitize_csv_field("\tx"), "'\tx");
    assert_eq!(sanitize_csv_field("\rx"), "'\rx");
    assert_eq!(sanitize_csv_field(""), "");
    assert_eq!(sanitize_csv_field("a=b"), "a=b");
}

#[test]
fn sanitized_cells_never_start_like_a_formula() {
    for input in ["=1", "+x", "-y", "@z", "\tt", "\rr", "\"=q", "ok", ""] {
        let out = sanitize_csv_field(input);
        if let Some(first) = out.chars().next() {
            assert!(!matches!(first, '=' | '+' | '-' | '@' | '\t' | '\r'));
        }
    }
}

fn row(title: &str, percent: &str) -> HistoryRow {
    HistoryRow {
        title: title.to_string(),
        artist: "Artist".to_string(),
        album: "Album".to_string(),
        status: "complete".to_string(),
        percent: percent.to_string(),
        timestamp: "2024-01-01".to_string(),
        file_path: "/music/a.mp3".to_string(),
        error_msg: String::new(),
    }
}

#[test]
fn csv_export_has_a_header_and_one_line_per_entry() {
    let csv = generate_csv(&[row("Song", "100.0%"), row("=Bad \"one\"", "50.0%")]);
    assert_eq!(
        csv,
        "Title,Artist,Album,Status,Progress,Timestamp,File Path,Error Message\n\
         \"Song\",\"Artist\",\"Album\",\"complete\",\"100.0%\",\"2024-01-01\",\"/music/a.mp3\",\"\"\n\
         \"'=Bad \"\"one\"\"\",\"Artist\",\"Album\",\"complete\",\"50.0%\",\"2024-01-01\",\"/music/a.mp3\",\"\"\n"
    );
    assert_eq!(
        generate_csv(&[]),
        "Title,Artist,Album,Status,Progress,Timestamp,File Path,Error Message\n"
    );
}
