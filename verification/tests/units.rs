use ecsv::header::{DataType, Delimiter};
use ecsv::read::find_newline;

#[test]
fn find_newline_locates_first_line_feed() {
    assert_eq!(find_newline(b"abc\ndef\n"), Some(3));
    assert_eq!(find_newline(b"\nabc"), Some(0));
    assert_eq!(find_newline(b"abc"), None);
    assert_eq!(find_newline(b""), None);
}

#[test]
fn datatype_names_parse_case_insensitively() {
    assert_eq!(DataType::from_bytes(b"float64"), Some(DataType::Float64));
    assert_eq!(DataType::from_bytes(b"FLOAT64"), Some(DataType::Float64));
    assert_eq!(DataType::from_bytes(b"Bool"), Some(DataType::Bool));
    assert_eq!(DataType::from_bytes(b"unt16"), Some(DataType::Unt16));
    assert_eq!(DataType::from_bytes(b"Complex256"), Some(DataType::Complex256));
    assert_eq!(DataType::from_bytes(b"string"), Some(DataType::String));
    assert_eq!(DataType::from_bytes(b"int7"), None);
    assert_eq!(DataType::from_bytes(b""), None);
}

#[test]
fn datatype_names_serialize_lower_case() {
    assert_eq!(DataType::Float64.name_bytes(), b"float64".to_vec());
    assert_eq!(DataType::Bool.name_bytes(), b"bool".to_vec());
    assert_eq!(DataType::Complex128.name_bytes(), b"complex128".to_vec());
    assert_eq!(DataType::String.name_bytes(), b"string".to_vec());
}

#[test]
fn every_datatype_name_round_trips() {
    let all = [
        DataType::Bool,
        DataType::Int8,
        DataType::Int16,
        DataType::Int32,
        DataType::Int64,
        DataType::Unt8,
        DataType::Unt16,
        DataType::Unt32,
        DataType::Unt64,
        DataType::Float16,
        DataType::Float32,
        DataType::Float64,
        DataType::Float128,
        DataType::Complex64,
        DataType::Complex128,
        DataType::Complex256,
        DataType::String,
    ];
    for d in all {
        let name = d.name_bytes();
        assert_eq!(DataType::from_bytes(&name), Some(d));
    }
}

#[test]
fn delimiter_names_and_bytes() {
    assert_eq!(Delimiter::from_bytes(b"space"), Some(Delimiter::Space));
    assert_eq!(Delimiter::from_bytes(b"comma"), Some(Delimiter::Comma));
    assert_eq!(Delimiter::from_bytes(b"tab"), None);
    assert_eq!(Delimiter::from_bytes(b"Space"), None);
    assert_eq!(Delimiter::Space.as_byte(), b' ');
    assert_eq!(Delimiter::Comma.as_byte(), b',');
    assert_eq!(Delimiter::Space.name_bytes(), b"space".to_vec());
    assert_eq!(Delimiter::Comma.name_bytes(), b"comma".to_vec());
    assert_eq!(Delimiter::default(), Delimiter::Space);
}
