use vstd::prelude::*;

pub mod error;
pub mod header;
pub mod model;
pub mod read;
pub mod rows;
pub mod source;
pub mod yaml;

use crate::error::Error;
use crate::header::{delim_byte, Header};
use crate::model::{
    body_run, doc_bytes, ext_run, is_ws, kept_lines, line_complete, line_len, sep_token, sig1_ok,
    sig2_ok, sig_ok, sig_token, trim_ws, BodyReaderState, HeaderReaderState,
};
use crate::yaml::{header_matches, header_ok, yaml_accepts, yaml_value_of};
use crate::read::{find_newline, BodyReader, HeaderReader};
use crate::source::ByteSource;

verus! {

/// The result of reading a stream: the typed header and the filtered
/// body, ready to be handed to the delimited-text reader with the
/// resolved separator byte.
pub struct Ecsv<R: ByteSource> {
    pub header: Header,
    pub reader: BodyReader<R>,
    pub delimiter: u8,
}

/// Copies `v[a..b]` out into a fresh vector.
fn subvec(v: &Vec<u8>, a: usize, b: usize) -> (r: Vec<u8>)
    requires
        a <= b <= v.len(),
    ensures
        r@ == v@.subrange(a as int, b as int),
{
    let mut out: Vec<u8> = Vec::new();
    let mut i: usize = a;
    while i < b
        invariant
            a <= i <= b <= v.len(),
            out@.len() == i - a,
            forall|j: int| 0 <= j < out@.len() ==> out@[j] == v@[a + j],
        decreases b - i,
    {
        out.push(v[i]);
        i += 1;
    }
    proof {
        assert(out@ =~= v@.subrange(a as int, b as int));
    }
    out
}

/// Appends the first `n` bytes of `src` to `dst`.
pub(crate) fn append_prefix(dst: &mut Vec<u8>, src: &Vec<u8>, n: usize)
    requires
        n <= src.len(),
    ensures
        final(dst)@ == old(dst)@ + src@.take(n as int),
{
    let ghost base = dst@;
    let mut i: usize = 0;
    while i < n
        invariant
            i <= n <= src.len(),
            dst@ == base + src@.take(i as int),
        decreases n - i,
    {
        let ghost before = dst@;
        dst.push(src[i]);
        proof {
            assert(before + seq![src@[i as int]] =~= base + src@.take(i + 1));
        }
        i += 1;
    }
}

fn is_ws_byte(b: u8) -> (r: bool)
    ensures
        r == is_ws(b),
{
    b == 32 || b == 9 || b == 10 || b == 11 || b == 12 || b == 13
}

/// Whether `line`, after trimming trailing whitespace, is exactly
/// `token`.
fn trimmed_matches(line: &Vec<u8>, token: &Vec<u8>) -> (r: bool)
    ensures
        r == (trim_ws(line@) == token@),
{
    let mut end = line.len();
    proof {
        assert(line@.take(end as int) =~= line@);
    }
    while end > 0 && is_ws_byte(line[end - 1])
        invariant
            end <= line.len(),
            trim_ws(line@) == trim_ws(line@.take(end as int)),
        decreases end,
    {
        proof {
            let t = line@.take(end as int);
            assert(t.take(end - 1) =~= line@.take(end - 1));
        }
        end = end - 1;
    }
    proof {
        assert(trim_ws(line@.take(end as int)) == line@.take(end as int));
    }
    let prefix = subvec(line, 0, end);
    proof {
        assert(prefix@ =~= line@.take(end as int));
    }
    crate::header::bytes_eq(prefix.as_slice(), token.as_slice())
}

/// Drives the header extractor to exhaustion, collecting every
/// payload byte it emits; a malformed header line comes back beside
/// the payload collected up to it.
fn drain_header<R: ByteSource>(hr: &mut HeaderReader<R>) -> (r: (Vec<u8>, Option<Error>))
    requires
        old(hr).wf(),
    ensures
        final(hr).wf(),
        final(hr).stream() == old(hr).stream(),
        r.0@ == old(hr).future().emitted,
        (r.1 is None) <==> old(hr).future().ok,
        r.1 matches Some(e) ==> e == Error::MalformedHeaderLine,
        r.1 is None ==> {
            &&& final(hr).consumed() == old(hr).consumed() + old(hr).future().consumed
            &&& final(hr).future().emitted.len() == 0
            &&& final(hr).future().consumed == 0
            &&& final(hr).future().ok
        },
{
    let mut payload: Vec<u8> = Vec::new();
    let mut chunk: Vec<u8> = Vec::new();
    while chunk.len() < crate::read::BUF_SIZE
        invariant
            chunk.len() <= crate::read::BUF_SIZE,
        decreases crate::read::BUF_SIZE - chunk.len(),
    {
        chunk.push(0u8);
    }
    proof {
        assert(payload@ + hr.future().emitted =~= hr.future().emitted);
    }
    loop
        invariant
            hr.wf(),
            chunk.len() == crate::read::BUF_SIZE,
            hr.stream() == old(hr).stream(),
            hr.future().ok == old(hr).future().ok,
            payload@ + hr.future().emitted == old(hr).future().emitted,
            hr.consumed() + hr.future().consumed == old(hr).consumed() + old(hr).future().consumed,
        decreases hr.future().emitted.len(),
    {
        let ghost payload_pre = payload@;
        match hr.read_internal(&mut chunk) {
            Err(e) => {
                proof {
                    assert(payload@ + hr.future().emitted =~= payload@);
                }
                return (payload, Some(e));
            },
            Ok(n) => {
                if n == 0 {
                    proof {
                        assert(payload@ + hr.future().emitted =~= payload@);
                    }
                    return (payload, None);
                }
                append_prefix(&mut payload, &chunk, n);
                proof {
                    assert((payload_pre + chunk@.take(n as int)) + hr.future().emitted
                        =~= payload_pre + (chunk@.take(n as int) + hr.future().emitted));
                }
            },
        }
    }
}

/// Reads and validates a whole stream in this format: extracts the
/// commented header block, checks the two signature lines, hands the
/// structured payload to the document decoder, and exposes the rest
/// of the stream through the body filter, with the declared
/// delimiter resolved to its separator byte.
///
/// Failures come in the order the stream is examined: a framing line
/// that is settled (terminated, or the header ended) and wrong gives
/// `InvalidSignature` first; otherwise a malformed header line gives
/// `MalformedHeaderLine`; otherwise a header document the decoder
/// rejects gives `Yaml`.  On success the body filter sees exactly
/// the stream from the end of the header block on, and the header
/// holds exactly what the document declares.
pub fn read<R: ByteSource>(source: R) -> (r: Result<Ecsv<R>, Error>)
    requires
        source.pos() == 0,
    ensures
        ({
            let s = source.stream();
            let ext = ext_run(HeaderReaderState::Read0, s);
            let p = ext.emitted;
            let settled1 = ext.ok || line_complete(p);
            let settled2 = ext.ok || line_complete(p.skip(line_len(p)));
            let sig_fail = (settled1 && !sig1_ok(p)) || (settled1 && sig1_ok(p) && settled2
                && !sig2_ok(p));
            let decode_good = yaml_accepts(doc_bytes(p)) && header_ok(yaml_value_of(doc_bytes(p)));
            match r {
                Ok(e) => {
                    &&& ext.ok
                    &&& p == crate::model::header_payload_lines(s)
                    &&& sig_ok(p)
                    &&& decode_good
                    &&& header_matches(e.header, yaml_value_of(doc_bytes(p)))
                    &&& e.delimiter == delim_byte(e.header.delimiter)
                    &&& e.reader.wf()
                    &&& e.reader.future() == body_run(BodyReaderState::Read0, s.skip(ext.consumed))
                    &&& e.reader.future() == kept_lines(s.skip(ext.consumed))
                },
                Err(er) => {
                    &&& (er == Error::InvalidSignature <==> sig_fail)
                    &&& (er == Error::MalformedHeaderLine <==> (!ext.ok && !sig_fail))
                    &&& (er == Error::Yaml <==> (ext.ok && sig_ok(p) && !decode_good))
                    &&& er != Error::Io
                },
            }
        }),
{
    let ghost s = source.stream();
    let mut hr = HeaderReader::new(source);
    proof {
        assert(s.skip(0) =~= s);
    }
    let (payload, derr) = drain_header(&mut hr);
    let ghost p = payload@;

    // First framing line: checked as soon as it is settled; an
    // unsettled line under a malformed header fails as malformed.
    let end1 = match find_newline(payload.as_slice()) {
        Some(i) => {
            proof {
                crate::model::lemma_line_len_at(p, i as int);
                assert(i < payload.len());
            }
            i + 1
        },
        None => {
            proof {
                crate::model::lemma_line_len_whole(p);
            }
            payload.len()
        },
    };
    let line1_done = end1 > 0 && payload[end1 - 1] == 10u8;
    let settled1 = derr.is_none() || line1_done;
    if !settled1 {
        return Err(Error::MalformedHeaderLine);
    }
    let line1 = subvec(&payload, 0, end1);
    let sig: Vec<u8> = vec![37u8, 69u8, 67u8, 83u8, 86u8, 32u8, 49u8, 46u8, 48u8];
    proof {
        assert(sig@ =~= sig_token());
        assert(line1@ =~= p.take(end1 as int));
    }
    if !trimmed_matches(&line1, &sig) {
        return Err(Error::InvalidSignature);
    }

    // Second framing line, the same way.
    let rest1 = subvec(&payload, end1, payload.len());
    proof {
        assert(rest1@ =~= p.skip(end1 as int));
    }
    let end2 = match find_newline(rest1.as_slice()) {
        Some(i) => {
            proof {
                crate::model::lemma_line_len_at(rest1@, i as int);
                assert(i < rest1.len());
            }
            i + 1
        },
        None => {
            proof {
                crate::model::lemma_line_len_whole(rest1@);
            }
            rest1.len()
        },
    };
    let line2_done = end2 > 0 && rest1[end2 - 1] == 10u8;
    let settled2 = derr.is_none() || line2_done;
    if !settled2 {
        return Err(Error::MalformedHeaderLine);
    }
    let line2 = subvec(&rest1, 0, end2);
    let sep: Vec<u8> = vec![45u8, 45u8, 45u8];
    proof {
        assert(sep@ =~= sep_token());
        assert(line2@ =~= rest1@.take(end2 as int));
    }
    if !trimmed_matches(&line2, &sep) {
        return Err(Error::InvalidSignature);
    }

    // Both framing lines were right; a malformed line further down
    // now surfaces.
    match derr {
        Some(e) => {
            return Err(e);
        },
        None => {},
    }

    // The rest of the payload is the structured header document.
    let yaml_rest = subvec(&rest1, end2, rest1.len());
    proof {
        assert(yaml_rest@ =~= doc_bytes(p));
    }
    let value = match crate::yaml::yaml_from_slice(yaml_rest.as_slice()) {
        None => {
            return Err(Error::Yaml);
        },
        Some(v) => v,
    };
    let header = match crate::yaml::header_from_value(&value) {
        Err(e) => {
            return Err(e);
        },
        Ok(h) => h,
    };
    let delimiter = header.delimiter.as_byte();

    let reader = match hr.into_body_reader() {
        Err(e) => {
            proof {
                assert(false);
            }
            return Err(e);
        },
        Ok(b) => b,
    };
    proof {
        crate::model::lemma_header_extractor_lines(s);
        crate::model::lemma_body_filter_keeps_lines(
            s.skip(ext_run(HeaderReaderState::Read0, s).consumed),
        );
    }
    Ok(Ecsv { header, reader, delimiter })
}

} // verus!
