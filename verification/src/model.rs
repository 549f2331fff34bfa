use vstd::prelude::*;

verus! {

/// Lexical state of the header extractor, one line at a time:
/// `Read0` expects the comment marker at line start, `Read1` looks at
/// the byte after it, `ReadLine` emits a payload line through its
/// terminator, `IgnoreLine` discards a double-marker line, and `End`
/// is terminal.
#[derive(Clone, Copy, PartialEq, Eq, Structural)]
pub enum HeaderReaderState {
    Read0,
    Read1,
    ReadLine,
    IgnoreLine,
    End,
}

/// Lexical state of the body filter: `Read0` classifies a line by its
/// first byte, `ReadLine` passes a kept line through, `IgnoreLine`
/// discards a comment line, `End` is terminal.
#[derive(Clone, Copy, PartialEq, Eq, Structural)]
pub enum BodyReaderState {
    Read0,
    ReadLine,
    IgnoreLine,
    End,
}

/// What a run of the header extractor over a byte sequence produces:
/// the payload bytes it emits, how many input bytes it consumes, and
/// whether it ran without meeting a malformed header line.
pub struct ExtOut {
    pub emitted: Seq<u8>,
    pub consumed: int,
    pub ok: bool,
}

/// One byte at a time, the header extractor from state `st` over the
/// remaining input `s`.  A line whose first byte is not `#` ends the
/// header without being consumed; `# ` starts a payload line, `##` a
/// dropped line, and any other second byte is malformed.
pub open spec fn ext_run(st: HeaderReaderState, s: Seq<u8>) -> ExtOut
    decreases s.len(),
{
    if s.len() == 0 {
        ExtOut { emitted: Seq::empty(), consumed: 0, ok: true }
    } else {
        let b = s[0];
        match st {
            HeaderReaderState::Read0 => {
                if b == 35u8 {
                    let r = ext_run(HeaderReaderState::Read1, s.skip(1));
                    ExtOut { emitted: r.emitted, consumed: 1 + r.consumed, ok: r.ok }
                } else {
                    ExtOut { emitted: Seq::empty(), consumed: 0, ok: true }
                }
            },
            HeaderReaderState::Read1 => {
                if b == 35u8 {
                    let r = ext_run(HeaderReaderState::IgnoreLine, s.skip(1));
                    ExtOut { emitted: r.emitted, consumed: 1 + r.consumed, ok: r.ok }
                } else if b == 32u8 {
                    let r = ext_run(HeaderReaderState::ReadLine, s.skip(1));
                    ExtOut { emitted: r.emitted, consumed: 1 + r.consumed, ok: r.ok }
                } else {
                    ExtOut { emitted: Seq::empty(), consumed: 0, ok: false }
                }
            },
            HeaderReaderState::ReadLine => {
                let next = if b == 10u8 {
                    HeaderReaderState::Read0
                } else {
                    HeaderReaderState::ReadLine
                };
                let r = ext_run(next, s.skip(1));
                ExtOut { emitted: seq![b] + r.emitted, consumed: 1 + r.consumed, ok: r.ok }
            },
            HeaderReaderState::IgnoreLine => {
                let next = if b == 10u8 {
                    HeaderReaderState::Read0
                } else {
                    HeaderReaderState::IgnoreLine
                };
                let r = ext_run(next, s.skip(1));
                ExtOut { emitted: r.emitted, consumed: 1 + r.consumed, ok: r.ok }
            },
            HeaderReaderState::End => ExtOut { emitted: Seq::empty(), consumed: 0, ok: true },
        }
    }
}

pub open spec fn body_rank(st: BodyReaderState) -> int {
    if st is Read0 {
        1
    } else {
        0
    }
}

/// One byte at a time, the body filter from state `st` over the
/// remaining input `s`: every line whose first byte is `#` is dropped
/// whole, every other line passes through verbatim.
pub open spec fn body_run(st: BodyReaderState, s: Seq<u8>) -> Seq<u8>
    decreases s.len(), body_rank(st),
{
    if s.len() == 0 {
        Seq::empty()
    } else {
        let b = s[0];
        match st {
            BodyReaderState::Read0 => {
                if b == 35u8 {
                    body_run(BodyReaderState::IgnoreLine, s.skip(1))
                } else {
                    body_run(BodyReaderState::ReadLine, s)
                }
            },
            BodyReaderState::ReadLine => {
                let next = if b == 10u8 {
                    BodyReaderState::Read0
                } else {
                    BodyReaderState::ReadLine
                };
                seq![b] + body_run(next, s.skip(1))
            },
            BodyReaderState::IgnoreLine => {
                let next = if b == 10u8 {
                    BodyReaderState::Read0
                } else {
                    BodyReaderState::IgnoreLine
                };
                body_run(next, s.skip(1))
            },
            BodyReaderState::End => Seq::empty(),
        }
    }
}

/// How many bytes the first line of `s` occupies, its terminator
/// included when present.
pub open spec fn line_len(s: Seq<u8>) -> int
    decreases s.len(),
{
    if s.len() == 0 {
        0
    } else if s[0] == 10u8 {
        1
    } else {
        1 + line_len(s.skip(1))
    }
}

/// The body lines the filter keeps: every line whose first byte is
/// not the comment marker, in their original order, terminators
/// intact.
pub open spec fn kept_lines(s: Seq<u8>) -> Seq<u8>
    decreases s.len(),
    via kept_lines_dec
{
    if s.len() == 0 {
        Seq::empty()
    } else {
        let l = line_len(s);
        let rest = kept_lines(s.skip(l));
        if s[0] == 35u8 {
            rest
        } else {
            s.take(l) + rest
        }
    }
}

#[via_fn]
proof fn kept_lines_dec(s: Seq<u8>) {
    lemma_line_len_bounds(s);
}

/// The header payload, line by line: of each leading comment line,
/// the bytes after the two-byte comment-and-space prefix, terminators
/// preserved; double-marker lines contribute nothing.
pub open spec fn header_payload_lines(s: Seq<u8>) -> Seq<u8>
    decreases s.len(),
    via header_payload_lines_dec
{
    if s.len() == 0 || s[0] != 35u8 {
        Seq::empty()
    } else {
        let l = line_len(s);
        let line = s.take(l);
        let rest = s.skip(l);
        if l >= 2 && line[1] == 35u8 {
            header_payload_lines(rest)
        } else if l >= 2 && line[1] == 32u8 {
            line.skip(2) + header_payload_lines(rest)
        } else {
            Seq::empty()
        }
    }
}

#[via_fn]
proof fn header_payload_lines_dec(s: Seq<u8>) {
    lemma_line_len_bounds(s);
}

proof fn lemma_body_emit_line(s: Seq<u8>)
    requires
        s.len() > 0,
    ensures
        body_run(BodyReaderState::ReadLine, s) == s.take(line_len(s)) + body_run(
            BodyReaderState::Read0,
            s.skip(line_len(s)),
        ),
    decreases s.len(),
{
    let l = line_len(s);
    if s[0] == 10u8 {
        assert(s.take(1) =~= seq![s[0]]);
    } else {
        let t = s.skip(1);
        if t.len() == 0 {
            assert(s.take(1) =~= seq![s[0]]);
            assert(line_len(t) == 0);
            assert(body_run(BodyReaderState::ReadLine, t) == Seq::<u8>::empty());
            assert(body_run(BodyReaderState::Read0, t) == Seq::<u8>::empty());
            assert(body_run(BodyReaderState::ReadLine, s) =~= s.take(l) + body_run(
                BodyReaderState::Read0,
                s.skip(l),
            ));
        } else {
            lemma_body_emit_line(t);
            lemma_line_len_bounds(t);
            assert(body_run(BodyReaderState::ReadLine, s) == seq![s[0]] + body_run(
                BodyReaderState::ReadLine,
                t,
            ));
            assert(s.take(l) =~= seq![s[0]] + t.take(line_len(t)));
            assert(s.skip(l) =~= t.skip(line_len(t)));
            assert(body_run(BodyReaderState::ReadLine, s) =~= s.take(l) + body_run(
                BodyReaderState::Read0,
                s.skip(l),
            ));
        }
    }
}

proof fn lemma_body_skip_line(s: Seq<u8>)
    ensures
        body_run(BodyReaderState::IgnoreLine, s) == body_run(
            BodyReaderState::Read0,
            s.skip(line_len(s)),
        ),
    decreases s.len(),
{
    if s.len() == 0 {
        assert(s.skip(0) =~= s);
    } else if s[0] == 10u8 {
    } else {
        lemma_body_skip_line(s.skip(1));
        lemma_line_len_bounds(s.skip(1));
        assert(s.skip(line_len(s)) =~= s.skip(1).skip(line_len(s.skip(1))));
    }
}

/// The body filter's output over any input is exactly the lines that
/// do not start with the comment marker, in order, with their
/// terminators; dropped lines never appear.
pub proof fn lemma_body_filter_keeps_lines(s: Seq<u8>)
    ensures
        body_run(BodyReaderState::Read0, s) == kept_lines(s),
    decreases s.len(),
{
    if s.len() > 0 {
        let l = line_len(s);
        lemma_line_len_bounds(s);
        if s[0] == 35u8 {
            lemma_body_skip_line(s.skip(1));
            lemma_line_len_bounds(s.skip(1));
            assert(s.skip(1).skip(line_len(s.skip(1))) =~= s.skip(l));
            lemma_body_filter_keeps_lines(s.skip(l));
        } else {
            lemma_body_emit_line(s);
            lemma_body_filter_keeps_lines(s.skip(l));
        }
    }
}

proof fn lemma_ext_emit_line(s: Seq<u8>)
    ensures
        ext_run(HeaderReaderState::ReadLine, s).emitted == s.take(line_len(s)) + ext_run(
            HeaderReaderState::Read0,
            s.skip(line_len(s)),
        ).emitted,
        ext_run(HeaderReaderState::ReadLine, s).ok == ext_run(
            HeaderReaderState::Read0,
            s.skip(line_len(s)),
        ).ok,
    decreases s.len(),
{
    let l = line_len(s);
    if s.len() == 0 {
        assert(s.skip(0) =~= s);
        assert(s.take(0) + ext_run(HeaderReaderState::Read0, s).emitted =~= ext_run(
            HeaderReaderState::ReadLine,
            s,
        ).emitted);
    } else if s[0] == 10u8 {
        assert(s.take(1) =~= seq![s[0]]);
    } else {
        let t = s.skip(1);
        lemma_ext_emit_line(t);
        lemma_line_len_bounds(t);
        assert(s.take(l) =~= seq![s[0]] + t.take(line_len(t)));
        assert(s.skip(l) =~= t.skip(line_len(t)));
        assert(ext_run(HeaderReaderState::ReadLine, s).emitted =~= s.take(l) + ext_run(
            HeaderReaderState::Read0,
            s.skip(l),
        ).emitted);
    }
}

proof fn lemma_ext_skip_line(s: Seq<u8>)
    ensures
        ext_run(HeaderReaderState::IgnoreLine, s).emitted == ext_run(
            HeaderReaderState::Read0,
            s.skip(line_len(s)),
        ).emitted,
        ext_run(HeaderReaderState::IgnoreLine, s).ok == ext_run(
            HeaderReaderState::Read0,
            s.skip(line_len(s)),
        ).ok,
    decreases s.len(),
{
    if s.len() == 0 {
        assert(s.skip(0) =~= s);
    } else if s[0] == 10u8 {
    } else {
        lemma_ext_skip_line(s.skip(1));
        lemma_line_len_bounds(s.skip(1));
        assert(s.skip(line_len(s)) =~= s.skip(1).skip(line_len(s.skip(1))));
    }
}

/// On a well-formed header block, the payload bytes the extractor
/// emits, reassembled, are exactly the original header lines with
/// their two-byte prefix removed and line terminators preserved.
pub proof fn lemma_header_extractor_lines(s: Seq<u8>)
    requires
        ext_run(HeaderReaderState::Read0, s).ok,
    ensures
        ext_run(HeaderReaderState::Read0, s).emitted == header_payload_lines(s),
    decreases s.len(),
{
    if s.len() == 0 || s[0] != 35u8 {
    } else {
        let l = line_len(s);
        lemma_line_len_bounds(s);
        let t = s.skip(1);
        assert(ext_run(HeaderReaderState::Read0, s).emitted == ext_run(
            HeaderReaderState::Read1,
            t,
        ).emitted);
        assert(ext_run(HeaderReaderState::Read0, s).ok == ext_run(
            HeaderReaderState::Read1,
            t,
        ).ok);
        if t.len() == 0 {
        } else {
            lemma_line_len_bounds(t);
            if t[0] == 35u8 {
                assert(ext_run(HeaderReaderState::Read1, t).emitted == ext_run(
                    HeaderReaderState::IgnoreLine,
                    t.skip(1),
                ).emitted);
                assert(ext_run(HeaderReaderState::Read1, t).ok == ext_run(
                    HeaderReaderState::IgnoreLine,
                    t.skip(1),
                ).ok);
                lemma_ext_skip_line(t.skip(1));
                lemma_line_len_bounds(t.skip(1));
                assert(t.skip(1).skip(line_len(t.skip(1))) =~= s.skip(l));
                lemma_header_extractor_lines(s.skip(l));
            } else if t[0] == 32u8 {
                assert(ext_run(HeaderReaderState::Read1, t).emitted == ext_run(
                    HeaderReaderState::ReadLine,
                    t.skip(1),
                ).emitted);
                assert(ext_run(HeaderReaderState::Read1, t).ok == ext_run(
                    HeaderReaderState::ReadLine,
                    t.skip(1),
                ).ok);
                lemma_ext_emit_line(t.skip(1));
                lemma_line_len_bounds(t.skip(1));
                assert(t.skip(1).take(line_len(t.skip(1)))
                    =~= s.take(l).skip(2));
                assert(t.skip(1).skip(line_len(t.skip(1))) =~= s.skip(l));
                lemma_header_extractor_lines(s.skip(l));
                assert(ext_run(HeaderReaderState::Read0, s).emitted =~= s.take(l).skip(2)
                    + header_payload_lines(s.skip(l)));
            } else {
                assert(!ext_run(HeaderReaderState::Read1, t).ok);
                assert(false);
            }
        }
    }
}

proof fn lemma_ext_consumed_bounds_any(st: HeaderReaderState, s: Seq<u8>)
    ensures
        0 <= ext_run(st, s).consumed <= s.len(),
    decreases s.len(),
{
    if s.len() > 0 {
        lemma_ext_consumed_bounds_any(HeaderReaderState::Read0, s.skip(1));
        lemma_ext_consumed_bounds_any(HeaderReaderState::Read1, s.skip(1));
        lemma_ext_consumed_bounds_any(HeaderReaderState::ReadLine, s.skip(1));
        lemma_ext_consumed_bounds_any(HeaderReaderState::IgnoreLine, s.skip(1));
    }
}

/// Across the extractor → carry-over → body-filter handoff no byte is
/// duplicated or lost: the header-consumed prefix and the remainder
/// handed to the body filter reassemble the stream exactly once.
pub proof fn lemma_handoff_exact(s: Seq<u8>)
    ensures
        0 <= ext_run(HeaderReaderState::Read0, s).consumed <= s.len(),
        s == s.take(ext_run(HeaderReaderState::Read0, s).consumed) + s.skip(
            ext_run(HeaderReaderState::Read0, s).consumed,
        ),
{
    lemma_ext_consumed_bounds_any(HeaderReaderState::Read0, s);
    assert(s =~= s.take(ext_run(HeaderReaderState::Read0, s).consumed) + s.skip(
        ext_run(HeaderReaderState::Read0, s).consumed,
    ));
}

/// ASCII whitespace, as trimmed from the end of a signature line.
pub open spec fn is_ws(b: u8) -> bool {
    b == 32 || b == 9 || b == 10 || b == 11 || b == 12 || b == 13
}

/// `s` with its trailing whitespace removed.
pub open spec fn trim_ws(s: Seq<u8>) -> Seq<u8>
    decreases s.len(),
{
    if s.len() == 0 {
        s
    } else if is_ws(s[s.len() - 1]) {
        trim_ws(s.take(s.len() - 1))
    } else {
        s
    }
}

/// The required first framing line, `%ECSV 1.0`.
pub open spec fn sig_token() -> Seq<u8> {
    seq![37u8, 69u8, 67u8, 83u8, 86u8, 32u8, 49u8, 46u8, 48u8]
}

/// The required second framing line, `---`.
pub open spec fn sep_token() -> Seq<u8> {
    seq![45u8, 45u8, 45u8]
}

/// Whether the first line of `p` carries its terminator: only then is
/// it known to be whole when the extractor stopped early.
pub open spec fn line_complete(p: Seq<u8>) -> bool {
    line_len(p) > 0 && p[line_len(p) - 1] == 10u8
}

/// Whether the first payload line, after trimming trailing
/// whitespace, is the signature token.
pub open spec fn sig1_ok(p: Seq<u8>) -> bool {
    trim_ws(p.take(line_len(p))) == sig_token()
}

/// Whether the second payload line, after trimming trailing
/// whitespace, is the separator token.
pub open spec fn sig2_ok(p: Seq<u8>) -> bool {
    let rest = p.skip(line_len(p));
    trim_ws(rest.take(line_len(rest))) == sep_token()
}

/// Whether the header payload opens with the two exact signature
/// lines, each compared after trimming trailing whitespace.
pub open spec fn sig_ok(p: Seq<u8>) -> bool {
    sig1_ok(p) && sig2_ok(p)
}

/// The payload past the two framing lines: the structured header
/// document handed to the decoder.
pub open spec fn doc_bytes(p: Seq<u8>) -> Seq<u8> {
    let rest = p.skip(line_len(p));
    rest.skip(line_len(rest))
}

/// The first line ends right after the first line feed: at `i + 1`
/// when byte `i` is the first line feed.
pub proof fn lemma_line_len_at(s: Seq<u8>, i: int)
    requires
        0 <= i < s.len(),
        s[i] == 10u8,
        forall|j: int| 0 <= j < i ==> s[j] != 10u8,
    ensures
        line_len(s) == i + 1,
    decreases i,
{
    if i > 0 {
        lemma_line_len_at(s.skip(1), i - 1);
    }
}

/// Without a line feed the whole sequence is one line.
pub proof fn lemma_line_len_whole(s: Seq<u8>)
    requires
        forall|j: int| 0 <= j < s.len() ==> s[j] != 10u8,
    ensures
        line_len(s) == s.len(),
    decreases s.len(),
{
    if s.len() > 0 {
        lemma_line_len_whole(s.skip(1));
    }
}

pub proof fn lemma_line_len_bounds(s: Seq<u8>)
    ensures
        s.len() == 0 ==> line_len(s) == 0,
        s.len() > 0 ==> 1 <= line_len(s) <= s.len(),
    decreases s.len(),
{
    if s.len() > 0 && s[0] != 10u8 {
        lemma_line_len_bounds(s.skip(1));
    }
}

} // verus!
