use vstd::prelude::*;

verus! {

/// Machine type of a column, written lower-case in the header and
/// accepted case-insensitively.
#[derive(Clone, Copy, Debug, PartialEq, Eq, Structural)]
pub enum DataType {
    Bool,
    Int8,
    Int16,
    Int32,
    Int64,
    Unt8,
    Unt16,
    Unt32,
    Unt64,
    Float16,
    Float32,
    Float64,
    Float128,
    Complex64,
    Complex128,
    Complex256,
    String,
}

/// The lower-case name of a machine type, as it appears in a header.
pub open spec fn dt_name(d: DataType) -> Seq<u8> {
    match d {
        DataType::Bool => seq![98u8, 111u8, 111u8, 108u8],
        DataType::Int8 => seq![105u8, 110u8, 116u8, 56u8],
        DataType::Int16 => seq![105u8, 110u8, 116u8, 49u8, 54u8],
        DataType::Int32 => seq![105u8, 110u8, 116u8, 51u8, 50u8],
        DataType::Int64 => seq![105u8, 110u8, 116u8, 54u8, 52u8],
        DataType::Unt8 => seq![117u8, 110u8, 116u8, 56u8],
        DataType::Unt16 => seq![117u8, 110u8, 116u8, 49u8, 54u8],
        DataType::Unt32 => seq![117u8, 110u8, 116u8, 51u8, 50u8],
        DataType::Unt64 => seq![117u8, 110u8, 116u8, 54u8, 52u8],
        DataType::Float16 => seq![102u8, 108u8, 111u8, 97u8, 116u8, 49u8, 54u8],
        DataType::Float32 => seq![102u8, 108u8, 111u8, 97u8, 116u8, 51u8, 50u8],
        DataType::Float64 => seq![102u8, 108u8, 111u8, 97u8, 116u8, 54u8, 52u8],
        DataType::Float128 => seq![102u8, 108u8, 111u8, 97u8, 116u8, 49u8, 50u8, 56u8],
        DataType::Complex64 => seq![99u8, 111u8, 109u8, 112u8, 108u8, 101u8, 120u8, 54u8, 52u8],
        DataType::Complex128 => seq![99u8, 111u8, 109u8, 112u8, 108u8, 101u8, 120u8, 49u8, 50u8, 56u8],
        DataType::Complex256 => seq![99u8, 111u8, 109u8, 112u8, 108u8, 101u8, 120u8, 50u8, 53u8, 54u8],
        DataType::String => seq![115u8, 116u8, 114u8, 105u8, 110u8, 103u8],
    }
}

/// ASCII lower-casing of one byte.
pub open spec fn lower_byte(b: u8) -> u8 {
    if 65u8 <= b <= 90u8 {
        (b + 32) as u8
    } else {
        b
    }
}

/// ASCII lower-casing of a byte sequence.
pub open spec fn lower_seq(s: Seq<u8>) -> Seq<u8> {
    Seq::new(s.len(), |i: int| lower_byte(s[i]))
}

/// Which machine type a name denotes, case-insensitively; `None` for
/// any other name.
pub open spec fn parse_datatype(s: Seq<u8>) -> Option<DataType> {
    let l = lower_seq(s);
    if l == dt_name(DataType::Bool) {
        Some(DataType::Bool)
    } else if l == dt_name(DataType::Int8) {
        Some(DataType::Int8)
    } else if l == dt_name(DataType::Int16) {
        Some(DataType::Int16)
    } else if l == dt_name(DataType::Int32) {
        Some(DataType::Int32)
    } else if l == dt_name(DataType::Int64) {
        Some(DataType::Int64)
    } else if l == dt_name(DataType::Unt8) {
        Some(DataType::Unt8)
    } else if l == dt_name(DataType::Unt16) {
        Some(DataType::Unt16)
    } else if l == dt_name(DataType::Unt32) {
        Some(DataType::Unt32)
    } else if l == dt_name(DataType::Unt64) {
        Some(DataType::Unt64)
    } else if l == dt_name(DataType::Float16) {
        Some(DataType::Float16)
    } else if l == dt_name(DataType::Float32) {
        Some(DataType::Float32)
    } else if l == dt_name(DataType::Float64) {
        Some(DataType::Float64)
    } else if l == dt_name(DataType::Float128) {
        Some(DataType::Float128)
    } else if l == dt_name(DataType::Complex64) {
        Some(DataType::Complex64)
    } else if l == dt_name(DataType::Complex128) {
        Some(DataType::Complex128)
    } else if l == dt_name(DataType::Complex256) {
        Some(DataType::Complex256)
    } else if l == dt_name(DataType::String) {
        Some(DataType::String)
    } else {
        None
    }
}

/// True when two byte slices hold the same bytes.
pub fn bytes_eq(a: &[u8], b: &[u8]) -> (r: bool)
    ensures
        r == (a@ == b@),
{
    if a.len() != b.len() {
        proof {
            assert(a@.len() != b@.len());
        }
        return false;
    }
    let mut i: usize = 0;
    while i < a.len()
        invariant
            i <= a.len(),
            a@.len() == b@.len(),
            forall|j: int| 0 <= j < i ==> a@[j] == b@[j],
        decreases a.len() - i,
    {
        if a[i] != b[i] {
            return false;
        }
        i += 1;
    }
    proof {
        assert(a@ =~= b@);
    }
    true
}

/// ASCII lower-casing of a byte slice.
pub fn to_lower(s: &[u8]) -> (r: Vec<u8>)
    ensures
        r@ == lower_seq(s@),
{
    let mut out: Vec<u8> = Vec::new();
    let mut i: usize = 0;
    while i < s.len()
        invariant
            i <= s.len(),
            out@.len() == i,
            forall|j: int| 0 <= j < i ==> out@[j] == lower_byte(s@[j]),
        decreases s.len() - i,
    {
        let b = s[i];
        if 65u8 <= b && b <= 90u8 {
            out.push(b + 32);
        } else {
            out.push(b);
        }
        i += 1;
    }
    proof {
        assert(out@ =~= lower_seq(s@));
    }
    out
}

impl DataType {
    /// The lower-case name this type is written as.
    pub fn name_bytes(&self) -> (r: Vec<u8>)
        ensures
            r@ == dt_name(*self),
    {
        let v: Vec<u8> = match self {
            DataType::Bool => vec![98u8, 111u8, 111u8, 108u8],
            DataType::Int8 => vec![105u8, 110u8, 116u8, 56u8],
            DataType::Int16 => vec![105u8, 110u8, 116u8, 49u8, 54u8],
            DataType::Int32 => vec![105u8, 110u8, 116u8, 51u8, 50u8],
            DataType::Int64 => vec![105u8, 110u8, 116u8, 54u8, 52u8],
            DataType::Unt8 => vec![117u8, 110u8, 116u8, 56u8],
            DataType::Unt16 => vec![117u8, 110u8, 116u8, 49u8, 54u8],
            DataType::Unt32 => vec![117u8, 110u8, 116u8, 51u8, 50u8],
            DataType::Unt64 => vec![117u8, 110u8, 116u8, 54u8, 52u8],
            DataType::Float16 => vec![102u8, 108u8, 111u8, 97u8, 116u8, 49u8, 54u8],
            DataType::Float32 => vec![102u8, 108u8, 111u8, 97u8, 116u8, 51u8, 50u8],
            DataType::Float64 => vec![102u8, 108u8, 111u8, 97u8, 116u8, 54u8, 52u8],
            DataType::Float128 => vec![102u8, 108u8, 111u8, 97u8, 116u8, 49u8, 50u8, 56u8],
            DataType::Complex64 => vec![99u8, 111u8, 109u8, 112u8, 108u8, 101u8, 120u8, 54u8, 52u8],
            DataType::Complex128 => vec![
                99u8,
                111u8,
                109u8,
                112u8,
                108u8,
                101u8,
                120u8,
                49u8,
                50u8,
                56u8,
            ],
            DataType::Complex256 => vec![
                99u8,
                111u8,
                109u8,
                112u8,
                108u8,
                101u8,
                120u8,
                50u8,
                53u8,
                54u8,
            ],
            DataType::String => vec![115u8, 116u8, 114u8, 105u8, 110u8, 103u8],
        };
        v
    }

    /// Parses a machine-type name, case-insensitively.
    pub fn from_bytes(s: &[u8]) -> (r: Option<DataType>)
        ensures
            r == parse_datatype(s@),
    {
        let low = to_lower(s);
        if Self::matches_name(&low, DataType::Bool) {
            return Some(DataType::Bool);
        }
        if Self::matches_name(&low, DataType::Int8) {
            return Some(DataType::Int8);
        }
        if Self::matches_name(&low, DataType::Int16) {
            return Some(DataType::Int16);
        }
        if Self::matches_name(&low, DataType::Int32) {
            return Some(DataType::Int32);
        }
        if Self::matches_name(&low, DataType::Int64) {
            return Some(DataType::Int64);
        }
        if Self::matches_name(&low, DataType::Unt8) {
            return Some(DataType::Unt8);
        }
        if Self::matches_name(&low, DataType::Unt16) {
            return Some(DataType::Unt16);
        }
        if Self::matches_name(&low, DataType::Unt32) {
            return Some(DataType::Unt32);
        }
        if Self::matches_name(&low, DataType::Unt64) {
            return Some(DataType::Unt64);
        }
        if Self::matches_name(&low, DataType::Float16) {
            return Some(DataType::Float16);
        }
        if Self::matches_name(&low, DataType::Float32) {
            return Some(DataType::Float32);
        }
        if Self::matches_name(&low, DataType::Float64) {
            return Some(DataType::Float64);
        }
        if Self::matches_name(&low, DataType::Float128) {
            return Some(DataType::Float128);
        }
        if Self::matches_name(&low, DataType::Complex64) {
            return Some(DataType::Complex64);
        }
        if Self::matches_name(&low, DataType::Complex128) {
            return Some(DataType::Complex128);
        }
        if Self::matches_name(&low, DataType::Complex256) {
            return Some(DataType::Complex256);
        }
        if Self::matches_name(&low, DataType::String) {
            return Some(DataType::String);
        }
        None
    }

    /// True when `low` is exactly the written name of `d`.
    fn matches_name(low: &Vec<u8>, d: DataType) -> (r: bool)
        ensures
            r == (low@ == dt_name(d)),
    {
        let name = d.name_bytes();
        bytes_eq(low.as_slice(), name.as_slice())
    }
}

/// Field separator of the data body.
#[derive(Clone, Copy, Debug, PartialEq, Eq, Structural)]
pub enum Delimiter {
    Space,
    Comma,
}

/// The name a delimiter is written as in a header.
pub open spec fn delim_name(d: Delimiter) -> Seq<u8> {
    match d {
        Delimiter::Space => seq![115u8, 112u8, 97u8, 99u8, 101u8],
        Delimiter::Comma => seq![99u8, 111u8, 109u8, 109u8, 97u8],
    }
}

/// The concrete separator byte a delimiter stands for.
pub open spec fn delim_byte(d: Delimiter) -> u8 {
    match d {
        Delimiter::Space => 32u8,
        Delimiter::Comma => 44u8,
    }
}

/// Which delimiter a name denotes; `None` for any other name.
pub open spec fn parse_delimiter(s: Seq<u8>) -> Option<Delimiter> {
    if s == delim_name(Delimiter::Space) {
        Some(Delimiter::Space)
    } else if s == delim_name(Delimiter::Comma) {
        Some(Delimiter::Comma)
    } else {
        None
    }
}

impl Delimiter {
    /// The name this delimiter is written as.
    pub fn name_bytes(&self) -> (r: Vec<u8>)
        ensures
            r@ == delim_name(*self),
    {
        match self {
            Delimiter::Space => vec![115u8, 112u8, 97u8, 99u8, 101u8],
            Delimiter::Comma => vec![99u8, 111u8, 109u8, 109u8, 97u8],
        }
    }

    /// Parses a delimiter name.
    pub fn from_bytes(s: &[u8]) -> (r: Option<Delimiter>)
        ensures
            r == parse_delimiter(s@),
    {
        let space = Delimiter::Space.name_bytes();
        if bytes_eq(s, space.as_slice()) {
            return Some(Delimiter::Space);
        }
        let comma = Delimiter::Comma.name_bytes();
        if bytes_eq(s, comma.as_slice()) {
            return Some(Delimiter::Comma);
        }
        None
    }

    /// The concrete separator byte used by the data body.
    pub fn as_byte(&self) -> (r: u8)
        ensures
            r == delim_byte(*self),
    {
        match self {
            Delimiter::Space => 32u8,
            Delimiter::Comma => 44u8,
        }
    }
}

impl Default for Delimiter {
    /// The space character, used when a header does not name one.
    fn default() -> (r: Self)
        ensures
            r == Delimiter::Space,
    {
        Delimiter::Space
    }
}

/// Every machine type's written name parses back, case-insensitively,
/// to the same machine type.
pub proof fn lemma_datatype_name_roundtrip(d: DataType)
    ensures
        parse_datatype(dt_name(d)) == Some(d),
{
    assert(lower_seq(dt_name(d)) =~= dt_name(d));
}

/// Every delimiter's written name parses back to the same delimiter.
pub proof fn lemma_delimiter_name_roundtrip(d: Delimiter)
    ensures
        parse_delimiter(delim_name(d)) == Some(d),
{
}

/// One column of the table: its name, machine type, and optional
/// annotations, as declared by the structured header.
#[derive(Debug)]
pub struct ColumnSpecifier {
    pub name: std::string::String,
    pub datatype: DataType,
    pub subtype: Option<std::string::String>,
    pub unit: Option<std::string::String>,
    pub format: Option<std::string::String>,
    pub description: Option<std::string::String>,
    pub meta: serde_yaml::Value,
}

/// The typed result of parsing the structured header: the ordered
/// column specifiers, the body delimiter, free-form metadata passed
/// through unexamined, and an optional schema identifier.
#[derive(Debug)]
pub struct Header {
    pub datatype: Vec<ColumnSpecifier>,
    pub delimiter: Delimiter,
    pub meta: serde_yaml::Value,
    pub schema: Option<std::string::String>,
}

} // verus!
