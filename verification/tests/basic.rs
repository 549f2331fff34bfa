use ecsv::header::{DataType, Delimiter};
use ecsv::read;
use ecsv::rows::read_rows;
use ecsv::source::SliceSource;

fn source_of(text: &str) -> SliceSource {
    SliceSource::new(text.as_bytes().to_vec())
}

#[test]
fn it_parses_a_simple_ecsv_file() {
    let ecsv = r#"# %ECSV 1.0
# ---
# datatype:
# - {name: a, unit: m / s, datatype: float64, format: '%5.2f', description: Column A}
# - name: b
#   datatype: int64
#   meta:
#     column_meta: {a: 1, b: 2}
# meta: !!omap
# - keywords: !!omap
#   - {z_key1: val1}
#   - {a_key2: val2}
# - comments: [Comment 1, Comment 2, Comment 3]
# schema: astropy-2.0
a b
1.0 2
4.0 3
"#;
    let file = source_of(ecsv);
    let ecsv = read(file).unwrap();
    println!("{:#?}", ecsv.header);
}

#[test]
fn simple_file_header_fields() {
    let text = "# %ECSV 1.0\n# ---\n# datatype:\n# - {name: a, datatype: float64}\n# - {name: b, datatype: int64}\na b\n1.0 2\n4.0 3\n";
    let mut ecsv = read(source_of(text)).unwrap();
    assert_eq!(ecsv.header.datatype.len(), 2);
    assert_eq!(ecsv.header.datatype[0].name, "a");
    assert_eq!(ecsv.header.datatype[0].datatype, DataType::Float64);
    assert_eq!(ecsv.header.datatype[1].name, "b");
    assert_eq!(ecsv.header.datatype[1].datatype, DataType::Int64);
    assert_eq!(ecsv.header.delimiter, Delimiter::Space);
    assert_eq!(ecsv.delimiter, b' ');
    assert_eq!(ecsv.header.schema, None);
    let rows = read_rows(&mut ecsv).unwrap();
    assert_eq!(rows, vec![vec!["1.0".to_string(), "2".to_string()], vec![
        "4.0".to_string(),
        "3".to_string(),
    ]]);
}

#[test]
fn double_comment_between_payload_lines_is_dropped() {
    let text = "# %ECSV 1.0\n# ---\n# datatype:\n## internal note\n# - {name: a, datatype: int32}\na\n7\n";
    let mut ecsv = read(source_of(text)).unwrap();
    assert_eq!(ecsv.header.datatype.len(), 1);
    assert_eq!(ecsv.header.datatype[0].name, "a");
    assert_eq!(ecsv.header.datatype[0].datatype, DataType::Int32);
    let rows = read_rows(&mut ecsv).unwrap();
    assert_eq!(rows, vec![vec!["7".to_string()]]);
}

#[test]
fn round_trip_space_delimiter() {
    // A file reflecting the signature lines, a serialized header, and
    // a space-delimited body.
    let text = "# %ECSV 1.0\n# ---\n# datatype:\n# - {name: x, datatype: float32}\n# - {name: y, datatype: string}\n# delimiter: space\nx y\n1.5 hi\n2.5 ho\n";
    let mut ecsv = read(source_of(text)).unwrap();
    assert_eq!(ecsv.header.delimiter, Delimiter::Space);
    assert_eq!(ecsv.delimiter, b' ');
    assert_eq!(ecsv.header.datatype[0].datatype, DataType::Float32);
    assert_eq!(ecsv.header.datatype[1].datatype, DataType::String);
    let rows = read_rows(&mut ecsv).unwrap();
    assert_eq!(rows, vec![vec!["1.5".to_string(), "hi".to_string()], vec![
        "2.5".to_string(),
        "ho".to_string(),
    ]]);
}

#[test]
fn round_trip_comma_delimiter() {
    let text = "# %ECSV 1.0\n# ---\n# datatype:\n# - {name: x, datatype: float32}\n# - {name: y, datatype: string}\n# delimiter: comma\nx,y\n1.5,hi\n2.5,ho\n";
    let mut ecsv = read(source_of(text)).unwrap();
    assert_eq!(ecsv.header.delimiter, Delimiter::Comma);
    assert_eq!(ecsv.delimiter, b',');
    let rows = read_rows(&mut ecsv).unwrap();
    assert_eq!(rows, vec![vec!["1.5".to_string(), "hi".to_string()], vec![
        "2.5".to_string(),
        "ho".to_string(),
    ]]);
}

#[test]
fn column_annotations_come_through() {
    let text = "# %ECSV 1.0\n# ---\n# datatype:\n# - {name: v, datatype: float64, unit: m / s, format: '%5.2f', description: speed, subtype: f}\n# schema: astropy-2.0\nv\n3.25\n";
    let ecsv = read(source_of(text)).unwrap();
    let col = &ecsv.header.datatype[0];
    assert_eq!(col.unit.as_deref(), Some("m / s"));
    assert_eq!(col.format.as_deref(), Some("%5.2f"));
    assert_eq!(col.description.as_deref(), Some("speed"));
    assert_eq!(col.subtype.as_deref(), Some("f"));
    assert_eq!(ecsv.header.schema.as_deref(), Some("astropy-2.0"));
}

#[test]
fn whitespace_only_body_line_is_kept() {
    // A line of blanks does not start with the comment marker, so the
    // body filter passes it through; the row reader then sees it.
    let text = "# %ECSV 1.0\n# ---\n# datatype:\n# - {name: a, datatype: int8}\n# delimiter: comma\na\n \n5\n";
    let mut ecsv = read(source_of(text)).unwrap();
    let rows = read_rows(&mut ecsv).unwrap();
    assert_eq!(rows, vec![vec![" ".to_string()], vec!["5".to_string()]]);
}

#[test]
fn body_comment_lines_are_dropped() {
    let text = "# %ECSV 1.0\n# ---\n# datatype:\n# - {name: a, datatype: int8}\na\n1\n#note\n2\n";
    let mut ecsv = read(source_of(text)).unwrap();
    let rows = read_rows(&mut ecsv).unwrap();
    assert_eq!(rows, vec![vec!["1".to_string()], vec!["2".to_string()]]);
}

#[test]
fn header_line_longer_than_one_window() {
    // A description far longer than the 1024-byte window: the line
    // spans several refills and must be resumed correctly.
    let long = "x".repeat(3000);
    let text = format!(
        "# %ECSV 1.0\n# ---\n# datatype:\n# - {{name: a, datatype: int64, description: {}}}\na\n9\n",
        long
    );
    let mut ecsv = read(source_of(&text)).unwrap();
    assert_eq!(ecsv.header.datatype[0].description.as_deref(), Some(long.as_str()));
    let rows = read_rows(&mut ecsv).unwrap();
    assert_eq!(rows, vec![vec!["9".to_string()]]);
}
