use ecsv::read::{AlreadyReadPart, BodyReader, HeaderReader, RawBodyReader};
use ecsv::source::SliceSource;

fn source_of(text: &str) -> SliceSource {
    SliceSource::new(text.as_bytes().to_vec())
}

fn drain_header(hr: &mut HeaderReader<SliceSource>) -> Vec<u8> {
    let mut out = Vec::new();
    let mut buf = vec![0u8; 8];
    loop {
        let n = hr.read_internal(&mut buf).unwrap();
        if n == 0 {
            break;
        }
        out.extend_from_slice(&buf[..n]);
    }
    out
}

fn drain_body(br: &mut BodyReader<SliceSource>) -> Vec<u8> {
    let mut out = Vec::new();
    let mut buf = vec![0u8; 8];
    loop {
        let n = br.read(&mut buf);
        if n == 0 {
            break;
        }
        out.extend_from_slice(&buf[..n]);
    }
    out
}

#[test]
fn header_extractor_emits_payload_and_stops_at_body() {
    let mut hr = HeaderReader::new(source_of("# one\n## skip\n# two\nbody\n#note\nmore\n"));
    assert_eq!(drain_header(&mut hr), b"one\ntwo\n".to_vec());
    let mut br = hr.into_body_reader().unwrap();
    assert_eq!(drain_body(&mut br), b"body\nmore\n".to_vec());
}

#[test]
fn header_extractor_payload_keeps_terminators_and_inner_bytes() {
    let mut hr = HeaderReader::new(source_of("#  indented\n# a # b\n"));
    // Only the first two prefix bytes are stripped; everything else
    // of each line passes through, terminators included.
    assert_eq!(drain_header(&mut hr), b" indented\na # b\n".to_vec());
}

#[test]
fn header_extractor_reports_malformed_line() {
    let mut hr = HeaderReader::new(source_of("# ok\n#bad\n"));
    let mut out = Vec::new();
    let mut buf = vec![0u8; 8];
    let err = loop {
        match hr.read_internal(&mut buf) {
            Ok(0) => panic!("expected an error"),
            Ok(n) => out.extend_from_slice(&buf[..n]),
            Err(e) => break e,
        }
    };
    assert_eq!(err, ecsv::error::Error::MalformedHeaderLine);
    assert_eq!(out, b"ok\n".to_vec());
}

#[test]
fn header_extractor_ends_cleanly_at_end_of_stream() {
    // End of input between lines and just after a prefix: both are a
    // clean end of the header stream, not an error.
    let mut hr = HeaderReader::new(source_of("# a\n"));
    assert_eq!(drain_header(&mut hr), b"a\n".to_vec());
    let mut hr = HeaderReader::new(source_of("# tail"));
    assert_eq!(drain_header(&mut hr), b"tail".to_vec());
}

#[test]
fn small_destination_buffers_resume_lines() {
    let mut hr = HeaderReader::new(source_of("# abcdefghijklmnop\n"));
    let mut out = Vec::new();
    let mut buf = vec![0u8; 3];
    loop {
        let n = hr.read_internal(&mut buf).unwrap();
        if n == 0 {
            break;
        }
        assert!(n <= 3);
        out.extend_from_slice(&buf[..n]);
    }
    assert_eq!(out, b"abcdefghijklmnop\n".to_vec());
}

#[test]
fn raw_body_reader_drains_carry_over_then_source() {
    let part = AlreadyReadPart { buf: b"abcde".to_vec(), start: 1, end: 4 };
    let mut rr = RawBodyReader::new(source_of("XY"), Some(part));
    let mut out = Vec::new();
    let mut buf = vec![0u8; 2];
    loop {
        let n = rr.read(&mut buf);
        if n == 0 {
            break;
        }
        out.extend_from_slice(&buf[..n]);
    }
    assert_eq!(out, b"bcdXY".to_vec());
}

#[test]
fn raw_body_reader_without_carry_over_reads_source_directly() {
    let mut rr = RawBodyReader::new(source_of("xyz"), None);
    let mut buf = vec![0u8; 2];
    let n = rr.read(&mut buf);
    assert_eq!(&buf[..n], b"xy");
    let n = rr.read(&mut buf);
    assert_eq!(&buf[..n], b"z");
    assert_eq!(rr.read(&mut buf), 0);
}

#[test]
fn body_reader_filters_comment_lines_from_carry_over_and_source() {
    let part = AlreadyReadPart { buf: b"keep\n#drop\n".to_vec(), start: 0, end: 11 };
    let mut br = BodyReader::new(source_of("also\n#gone\nlast\n"), Some(part));
    assert_eq!(drain_body(&mut br), b"keep\nalso\nlast\n".to_vec());
}
