use vstd::prelude::*;
use vstd::utf8::encode_utf8;

use crate::header::{parse_datatype, parse_delimiter, ColumnSpecifier, Delimiter, Header};

verus! {

#[verifier::external_type_specification]
#[verifier::external_body]
pub struct ExYamlValue(serde_yaml::Value);

/// Whether the structured-document decoder accepts these bytes; the
/// outcome depends on the bytes alone.
pub uninterp spec fn yaml_accepts(bytes: Seq<u8>) -> bool;

/// The tree value the decoder yields for accepted bytes; a function
/// of the bytes alone.
pub uninterp spec fn yaml_value_of(bytes: Seq<u8>) -> serde_yaml::Value;

/// What looking a string key up in a tree value yields: `None` on
/// non-mappings and missing keys.
pub uninterp spec fn yaml_get_of(v: serde_yaml::Value, key: Seq<char>) -> Option<
    serde_yaml::Value,
>;

/// The text of a string tree value; `None` when the value is no
/// string.
pub uninterp spec fn yaml_str_of(v: serde_yaml::Value) -> Option<Seq<char>>;

/// The elements of a sequence tree value; `None` when the value is no
/// sequence.
pub uninterp spec fn yaml_seq_of(v: serde_yaml::Value) -> Option<Seq<serde_yaml::Value>>;

/// The document whose decoded value is the null tree value.
pub open spec fn null_token() -> Seq<u8> {
    seq![110u8, 117u8, 108u8, 108u8]
}

/// Relies on serde_yaml::from_slice::<Value>: parses a structured
/// document from bytes into a tree value, or `None` on invalid
/// syntax; acceptance and value depend on the bytes alone.
#[verifier::external_body]
pub(crate) fn yaml_from_slice(bytes: &[u8]) -> (r: Option<serde_yaml::Value>)
    ensures
        (r is Some) <==> yaml_accepts(bytes@),
        r matches Some(v) ==> v == yaml_value_of(bytes@),
{
    match serde_yaml::from_slice(bytes) {
        Ok(v) => Some(v),
        Err(_) => None,
    }
}

/// Relies on serde_yaml::Value::get: looks a string key up in a
/// mapping value; `None` when the value is no mapping or has no such
/// key.
#[verifier::external_body]
pub(crate) fn yaml_get<'a>(v: &'a serde_yaml::Value, key: &str) -> (r: Option<
    &'a serde_yaml::Value,
>)
    ensures
        (r is Some) <==> (yaml_get_of(*v, key@) is Some),
        r matches Some(x) ==> yaml_get_of(*v, key@) == Some(*x),
{
    v.get(key)
}

/// Relies on serde_yaml::Value::as_str: the owned text of a string
/// value; `None` when the value is no string.
#[verifier::external_body]
pub(crate) fn yaml_as_string(v: &serde_yaml::Value) -> (r: Option<std::string::String>)
    ensures
        (r is Some) <==> (yaml_str_of(*v) is Some),
        r matches Some(s) ==> yaml_str_of(*v) == Some(s@),
{
    match v.as_str() {
        Some(s) => Some(s.to_owned()),
        None => None,
    }
}

/// Relies on serde_yaml::Value::as_sequence: the elements of a
/// sequence value; `None` when the value is no sequence.
#[verifier::external_body]
pub(crate) fn yaml_as_sequence<'a>(v: &'a serde_yaml::Value) -> (r: Option<
    &'a Vec<serde_yaml::Value>,
>)
    ensures
        (r is Some) <==> (yaml_seq_of(*v) is Some),
        r matches Some(xs) ==> yaml_seq_of(*v) == Some(xs@),
{
    v.as_sequence()
}

/// Relies on serde_yaml::Value::clone: duplicates a tree value; the
/// copy equals the value it was made from.
#[verifier::external_body]
pub(crate) fn yaml_clone(v: &serde_yaml::Value) -> (r: serde_yaml::Value)
    ensures
        r == *v,
{
    v.clone()
}

/// Relies on serde_yaml::Value::Null: the null tree value, the same
/// value the decoder yields for the document `null`; it stands in
/// for an absent free-form field.
#[verifier::external_body]
pub(crate) fn yaml_null() -> (r: serde_yaml::Value)
    ensures
        r == yaml_value_of(null_token()),
{
    serde_yaml::Value::Null
}

/// The text under a key of a mapping value, when the key is there
/// and its value is a string.
pub open spec fn text_field(v: serde_yaml::Value, key: Seq<char>) -> Option<Seq<char>> {
    match yaml_get_of(v, key) {
        Some(f) => yaml_str_of(f),
        None => None,
    }
}

/// An optional text field is in order when it is absent or a string.
pub open spec fn optional_text_ok(v: serde_yaml::Value, key: Seq<char>) -> bool {
    match yaml_get_of(v, key) {
        None => true,
        Some(f) => yaml_str_of(f) is Some,
    }
}

pub open spec fn view_opt_string(o: Option<std::string::String>) -> Option<Seq<char>> {
    match o {
        Some(s) => Some(s@),
        None => None,
    }
}

/// The free-form value under a key, the null value when absent.
pub open spec fn meta_field(v: serde_yaml::Value, key: Seq<char>) -> serde_yaml::Value {
    match yaml_get_of(v, key) {
        Some(m) => m,
        None => yaml_value_of(null_token()),
    }
}

/// When one element of the `datatype` sequence is a well-formed
/// column specifier: `name` present as text, `datatype` present as a
/// known machine-type name, the optional annotations text when
/// present.
pub open spec fn column_ok(v: serde_yaml::Value) -> bool {
    &&& text_field(v, "name"@) is Some
    &&& match text_field(v, "datatype"@) {
        Some(cs) => parse_datatype(encode_utf8(cs)) is Some,
        None => false,
    }
    &&& optional_text_ok(v, "subtype"@)
    &&& optional_text_ok(v, "unit"@)
    &&& optional_text_ok(v, "format"@)
    &&& optional_text_ok(v, "description"@)
}

/// How a built column relates to the element it was built from.
pub open spec fn column_matches(c: ColumnSpecifier, v: serde_yaml::Value) -> bool {
    &&& Some(c.name@) == text_field(v, "name"@)
    &&& match text_field(v, "datatype"@) {
        Some(cs) => parse_datatype(encode_utf8(cs)) == Some(c.datatype),
        None => false,
    }
    &&& view_opt_string(c.subtype) == text_field(v, "subtype"@)
    &&& view_opt_string(c.unit) == text_field(v, "unit"@)
    &&& view_opt_string(c.format) == text_field(v, "format"@)
    &&& view_opt_string(c.description) == text_field(v, "description"@)
    &&& c.meta == meta_field(v, "meta"@)
}

/// When a decoded document is a well-formed header: a `datatype`
/// sequence of well-formed columns, a known delimiter name when one
/// is given, `schema` text when present.
pub open spec fn header_ok(v: serde_yaml::Value) -> bool {
    &&& match yaml_get_of(v, "datatype"@) {
        Some(d) => match yaml_seq_of(d) {
            Some(cols) => forall|i: int| 0 <= i < cols.len() ==> column_ok(cols[i]),
            None => false,
        },
        None => false,
    }
    &&& match yaml_get_of(v, "delimiter"@) {
        None => true,
        Some(f) => match yaml_str_of(f) {
            Some(cs) => parse_delimiter(encode_utf8(cs)) is Some,
            None => false,
        },
    }
    &&& optional_text_ok(v, "schema"@)
}

/// How a built header relates to the document it was built from:
/// columns element-wise, the delimiter parsed or defaulted to space,
/// `meta` passed through (null when absent), `schema` as given.
pub open spec fn header_matches(h: Header, v: serde_yaml::Value) -> bool {
    &&& match yaml_get_of(v, "datatype"@) {
        Some(d) => match yaml_seq_of(d) {
            Some(cols) => {
                &&& h.datatype@.len() == cols.len()
                &&& forall|i: int|
                    0 <= i < cols.len() ==> column_matches(h.datatype@[i], cols[i])
            },
            None => false,
        },
        None => false,
    }
    &&& match yaml_get_of(v, "delimiter"@) {
        None => h.delimiter == Delimiter::Space,
        Some(f) => match yaml_str_of(f) {
            Some(cs) => parse_delimiter(encode_utf8(cs)) == Some(h.delimiter),
            None => false,
        },
    }
    &&& h.meta == meta_field(v, "meta"@)
    &&& view_opt_string(h.schema) == text_field(v, "schema"@)
}

/// A field that must be text when present: `Ok(None)` when absent,
/// `Ok(Some(text))` when a string, an error otherwise.
fn optional_string_field(v: &serde_yaml::Value, key: &str) -> (r: Result<
    Option<std::string::String>,
    crate::error::Error,
>)
    ensures
        (r is Ok) <==> optional_text_ok(*v, key@),
        r matches Ok(o) ==> view_opt_string(o) == text_field(*v, key@),
        r matches Err(e) ==> e == crate::error::Error::Yaml,
{
    match yaml_get(v, key) {
        None => Ok(None),
        Some(field) => match yaml_as_string(field) {
            Some(s) => Ok(Some(s)),
            None => Err(crate::error::Error::Yaml),
        },
    }
}

/// One column specifier out of one element of the `datatype`
/// sequence; succeeds exactly on well-formed elements and returns
/// exactly what the element declares.
pub fn column_from_value(v: &serde_yaml::Value) -> (r: Result<ColumnSpecifier, crate::error::Error>)
    ensures
        (r is Ok) <==> column_ok(*v),
        r matches Ok(c) ==> column_matches(c, *v),
        r matches Err(e) ==> e == crate::error::Error::Yaml,
{
    let name = match yaml_get(v, "name") {
        None => {
            return Err(crate::error::Error::Yaml);
        },
        Some(field) => match yaml_as_string(field) {
            Some(s) => s,
            None => {
                return Err(crate::error::Error::Yaml);
            },
        },
    };
    let datatype = match yaml_get(v, "datatype") {
        None => {
            return Err(crate::error::Error::Yaml);
        },
        Some(field) => match yaml_as_string(field) {
            Some(s) => {
                let bytes = s.as_str().as_bytes();
                proof {
                    assert(bytes@ == encode_utf8(s@));
                }
                match crate::header::DataType::from_bytes(bytes) {
                    Some(d) => d,
                    None => {
                        return Err(crate::error::Error::Yaml);
                    },
                }
            },
            None => {
                return Err(crate::error::Error::Yaml);
            },
        },
    };
    let subtype = match optional_string_field(v, "subtype") {
        Ok(s) => s,
        Err(e) => {
            return Err(e);
        },
    };
    let unit = match optional_string_field(v, "unit") {
        Ok(s) => s,
        Err(e) => {
            return Err(e);
        },
    };
    let format = match optional_string_field(v, "format") {
        Ok(s) => s,
        Err(e) => {
            return Err(e);
        },
    };
    let description = match optional_string_field(v, "description") {
        Ok(s) => s,
        Err(e) => {
            return Err(e);
        },
    };
    let meta = match yaml_get(v, "meta") {
        Some(m) => yaml_clone(m),
        None => yaml_null(),
    };
    Ok(ColumnSpecifier { name, datatype, subtype, unit, format, description, meta })
}

/// The typed header out of the decoded document; succeeds exactly on
/// well-formed documents and returns exactly what the document
/// declares.
pub fn header_from_value(v: &serde_yaml::Value) -> (r: Result<Header, crate::error::Error>)
    ensures
        (r is Ok) <==> header_ok(*v),
        r matches Ok(h) ==> header_matches(h, *v),
        r matches Err(e) ==> e == crate::error::Error::Yaml,
{
    let cols_v = match yaml_get(v, "datatype") {
        None => {
            return Err(crate::error::Error::Yaml);
        },
        Some(c) => c,
    };
    let cols_seq = match yaml_as_sequence(cols_v) {
        None => {
            return Err(crate::error::Error::Yaml);
        },
        Some(s) => s,
    };
    let mut datatype: Vec<ColumnSpecifier> = Vec::new();
    let mut i: usize = 0;
    while i < cols_seq.len()
        invariant
            i <= cols_seq.len(),
            datatype@.len() == i,
            yaml_get_of(*v, "datatype"@) == Some(*cols_v),
            yaml_seq_of(*cols_v) == Some(cols_seq@),
            forall|j: int|
                0 <= j < i ==> column_ok(cols_seq@[j]) && column_matches(
                    datatype@[j],
                    cols_seq@[j],
                ),
        decreases cols_seq.len() - i,
    {
        match column_from_value(&cols_seq[i]) {
            Ok(c) => {
                datatype.push(c);
            },
            Err(e) => {
                proof {
                    let dd = yaml_get_of(*v, "datatype"@)->Some_0;
                    let cc = yaml_seq_of(dd)->Some_0;
                    assert(cc == cols_seq@);
                    assert(0 <= (i as int) && (i as int) < cc.len());
                    assert(!(forall|j: int| 0 <= j < cc.len() ==> column_ok(cc[j]))) by {
                        assert(!column_ok(cc[i as int]));
                    }
                    assert(!header_ok(*v));
                }
                return Err(e);
            },
        }
        i += 1;
    }
    let delimiter = match yaml_get(v, "delimiter") {
        None => Delimiter::Space,
        Some(field) => match yaml_as_string(field) {
            Some(s) => {
                let bytes = s.as_str().as_bytes();
                proof {
                    assert(bytes@ == encode_utf8(s@));
                }
                match Delimiter::from_bytes(bytes) {
                    Some(d) => d,
                    None => {
                        return Err(crate::error::Error::Yaml);
                    },
                }
            },
            None => {
                return Err(crate::error::Error::Yaml);
            },
        },
    };
    let meta = match yaml_get(v, "meta") {
        Some(m) => yaml_clone(m),
        None => yaml_null(),
    };
    let schema = match optional_string_field(v, "schema") {
        Ok(s) => s,
        Err(e) => {
            return Err(e);
        },
    };
    Ok(Header { datatype, delimiter, meta, schema })
}

} // verus!
