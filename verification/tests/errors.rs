use ecsv::error::Error;
use ecsv::read;
use ecsv::source::SliceSource;

fn source_of(text: &str) -> SliceSource {
    SliceSource::new(text.as_bytes().to_vec())
}

#[test]
fn wrong_version_is_invalid_signature() {
    let text = "# %ECSV 1.1\n# ---\n# datatype:\n# - {name: a, datatype: int8}\na\n1\n";
    match read(source_of(text)) {
        Err(Error::InvalidSignature) => {}
        other => panic!("expected InvalidSignature, got {:?}", other.map(|e| e.header)),
    }
}

#[test]
fn missing_separator_line_is_invalid_signature() {
    let text = "# %ECSV 1.0\n# datatype:\n# - {name: a, datatype: int8}\na\n1\n";
    match read(source_of(text)) {
        Err(Error::InvalidSignature) => {}
        other => panic!("expected InvalidSignature, got {:?}", other.map(|e| e.header)),
    }
}

#[test]
fn empty_input_is_invalid_signature() {
    match read(source_of("")) {
        Err(Error::InvalidSignature) => {}
        other => panic!("expected InvalidSignature, got {:?}", other.map(|e| e.header)),
    }
}

#[test]
fn bad_byte_after_marker_is_malformed_header_line() {
    let text = "# %ECSV 1.0\n# ---\n#bad\n# datatype:\na\n1\n";
    match read(source_of(text)) {
        Err(Error::MalformedHeaderLine) => {}
        other => panic!("expected MalformedHeaderLine, got {:?}", other.map(|e| e.header)),
    }
}

#[test]
fn settled_bad_signature_wins_over_later_malformed_line() {
    // The first framing line is complete and wrong; the malformed
    // line further down is never reached.
    let text = "# %ECSV 1.1\n#bad\n";
    match read(source_of(text)) {
        Err(Error::InvalidSignature) => {}
        other => panic!("expected InvalidSignature, got {:?}", other.map(|e| e.header)),
    }
}

#[test]
fn settled_bad_separator_wins_over_later_malformed_line() {
    let text = "# %ECSV 1.0\n# --x\n#bad\n";
    match read(source_of(text)) {
        Err(Error::InvalidSignature) => {}
        other => panic!("expected InvalidSignature, got {:?}", other.map(|e| e.header)),
    }
}

#[test]
fn malformed_line_before_any_payload_is_malformed() {
    // A dropped double-marker line yields no payload, so the first
    // framing line is never settled; the malformed line wins.
    let text = "## note\n#bad\n";
    match read(source_of(text)) {
        Err(Error::MalformedHeaderLine) => {}
        other => panic!("expected MalformedHeaderLine, got {:?}", other.map(|e| e.header)),
    }
}

#[test]
fn malformed_line_in_place_of_separator_line_is_malformed() {
    // The first line is right; the second framing line never arrives
    // because the next header line is malformed.
    let text = "# %ECSV 1.0\n#bad\n";
    match read(source_of(text)) {
        Err(Error::MalformedHeaderLine) => {}
        other => panic!("expected MalformedHeaderLine, got {:?}", other.map(|e| e.header)),
    }
}

#[test]
fn malformed_first_line_is_malformed() {
    let text = "#bad\n";
    match read(source_of(text)) {
        Err(Error::MalformedHeaderLine) => {}
        other => panic!("expected MalformedHeaderLine, got {:?}", other.map(|e| e.header)),
    }
}

#[test]
fn missing_datatype_key_is_yaml_error() {
    let text = "# %ECSV 1.0\n# ---\n# delimiter: space\na\n1\n";
    match read(source_of(text)) {
        Err(Error::Yaml) => {}
        other => panic!("expected Yaml, got {:?}", other.map(|e| e.header)),
    }
}

#[test]
fn unknown_datatype_name_is_yaml_error() {
    let text = "# %ECSV 1.0\n# ---\n# datatype:\n# - {name: a, datatype: int7}\na\n1\n";
    match read(source_of(text)) {
        Err(Error::Yaml) => {}
        other => panic!("expected Yaml, got {:?}", other.map(|e| e.header)),
    }
}

#[test]
fn unknown_delimiter_name_is_yaml_error() {
    let text =
        "# %ECSV 1.0\n# ---\n# datatype:\n# - {name: a, datatype: int8}\n# delimiter: tab\na\n1\n";
    match read(source_of(text)) {
        Err(Error::Yaml) => {}
        other => panic!("expected Yaml, got {:?}", other.map(|e| e.header)),
    }
}

#[test]
fn unparseable_header_document_is_yaml_error() {
    let text = "# %ECSV 1.0\n# ---\n# datatype: [unclosed\na\n1\n";
    match read(source_of(text)) {
        Err(Error::Yaml) => {}
        other => panic!("expected Yaml, got {:?}", other.map(|e| e.header)),
    }
}

#[test]
fn error_messages_are_stable() {
    assert_eq!(Error::Io.message(), "io error");
    assert_eq!(Error::Yaml.message(), "yaml error");
    assert_eq!(Error::InvalidSignature.message(), "invalid signature");
    assert_eq!(Error::MalformedHeaderLine.message(), "malformed header line");
}
