//! The exports manifest of a Surrealism package: the signature of each
//! exported function, how it is shown, and how kind signatures are stored as
//! hex text.

use vstd::prelude::*;
use vstd::string::*;
use vstd::utf8::{encode_utf8, is_ascii_chars, is_ascii_chars_encode_utf8};
use crate::text::{owned, push_decimal, decimal, str_eq, string_views};
use crate::hexcode::{hex_encode, hex_decode, hex_text, hex_decoding, HexError, ascii_bytes, lemma_hex_roundtrip};

verus! {

/// The type of a value in a function signature.
pub enum Kind {
    Any,
    Null,
    Bool,
    Bytes,
    Datetime,
    Decimal,
    Duration,
    Float,
    Int,
    Number,
    Object,
    String,
    Uuid,
    /// An array of the inner kind, with an optional maximum length.
    Array(Box<Kind>, Option<u64>),
    /// An optional value of the inner kind.
    Option(Box<Kind>),
}

/// How a kind is written: its name, with the inner kind (and the length
/// bound of an array) in angle brackets.
pub open spec fn kind_text(k: Kind) -> Seq<char>
    decreases k,
{
    match k {
        Kind::Any => "any"@,
        Kind::Null => "null"@,
        Kind::Bool => "bool"@,
        Kind::Bytes => "bytes"@,
        Kind::Datetime => "datetime"@,
        Kind::Decimal => "decimal"@,
        Kind::Duration => "duration"@,
        Kind::Float => "float"@,
        Kind::Int => "int"@,
        Kind::Number => "number"@,
        Kind::Object => "object"@,
        Kind::String => "string"@,
        Kind::Uuid => "uuid"@,
        Kind::Array(inner, None) => "array<"@ + kind_text(*inner) + ">"@,
        Kind::Array(inner, Some(n)) => "array<"@ + kind_text(*inner) + ", "@ + decimal(n as nat) + ">"@,
        Kind::Option(inner) => "option<"@ + kind_text(*inner) + ">"@,
    }
}

/// Appends how a kind is written to `out`.
pub fn push_kind(out: &mut String, k: &Kind)
    ensures
        final(out)@ == old(out)@ + kind_text(*k),
    decreases *k,
{
    match k {
        Kind::Any => out.append("any"),
        Kind::Null => out.append("null"),
        Kind::Bool => out.append("bool"),
        Kind::Bytes => out.append("bytes"),
        Kind::Datetime => out.append("datetime"),
        Kind::Decimal => out.append("decimal"),
        Kind::Duration => out.append("duration"),
        Kind::Float => out.append("float"),
        Kind::Int => out.append("int"),
        Kind::Number => out.append("number"),
        Kind::Object => out.append("object"),
        Kind::String => out.append("string"),
        Kind::Uuid => out.append("uuid"),
        Kind::Array(inner, len) => {
            out.append("array<");
            push_kind(out, inner);
            match len {
                None => {},
                Some(n) => {
                    out.append(", ");
                    push_decimal(out, *n);
                },
            }
            out.append(">");
        },
        Kind::Option(inner) => {
            out.append("option<");
            push_kind(out, inner);
            out.append(">");
        },
    }
}

/// `parts` joined with `sep` between neighbours.
pub open spec fn join(parts: Seq<Seq<char>>, sep: Seq<char>) -> Seq<char>
    decreases parts.len(),
{
    if parts.len() == 0 {
        Seq::empty()
    } else if parts.len() == 1 {
        parts[0]
    } else {
        join(parts.drop_last(), sep) + sep + parts.last()
    }
}

/// The signature of one exported function.
pub struct FunctionExport {
    /// `None` for the default export, `Some(name)` for named exports.
    pub name: Option<String>,
    pub args: Vec<Kind>,
    pub returns: Kind,
    /// The argument types as written in the source, when recorded.
    pub args_text: Option<Vec<String>>,
    /// The return type as written in the source, when recorded.
    pub returns_text: Option<String>,
    /// Whether the function may write to the database.
    pub writeable: bool,
}

/// The argument list as shown: the recorded source text, or else each
/// kind as written, separated by `, `.
pub open spec fn args_shown(f: FunctionExport) -> Seq<char> {
    match f.args_text {
        Some(v) => join(string_views(v@), ", "@),
        None => join(f.args@.map_values(|k: Kind| kind_text(k)), ", "@),
    }
}

/// The return type as shown: the recorded source text, or else the kind as
/// written.
pub open spec fn returns_shown(f: FunctionExport) -> Seq<char> {
    match f.returns_text {
        Some(t) => t@,
        None => kind_text(f.returns),
    }
}

/// The name a lookup asks for matches a function's export name: `None`
/// matches the default export.
pub open spec fn export_name_matches(name: Option<String>, query: Option<Seq<char>>) -> bool {
    match (name, query) {
        (None, None) => true,
        (Some(a), Some(b)) => a@ == b,
        _ => false,
    }
}

impl FunctionExport {
    /// The argument list as shown to users.
    pub fn args_display(&self) -> (r: String)
        ensures
            r@ == args_shown(*self),
    {
        let mut out = String::new();
        match &self.args_text {
            Some(v) => {
                let n = v.len();
                let mut i: usize = 0;
                while i < n
                    invariant
                        n == v@.len(),
                        i <= n,
                        out@ == join(string_views(v@).take(i as int), ", "@),
                    decreases n - i,
                {
                    if i > 0 {
                        out.append(", ");
                    }
                    out.append(v[i].as_str());
                    proof {
                        let p = string_views(v@).take(i + 1);
                        assert(p.drop_last() =~= string_views(v@).take(i as int));
                        if i == 0 {
                            assert(out@ =~= p[0]);
                        }
                    }
                    i += 1;
                }
                assert(string_views(v@).take(n as int) =~= string_views(v@));
            },
            None => {
                let ghost texts = self.args@.map_values(|k: Kind| kind_text(k));
                let n = self.args.len();
                let mut i: usize = 0;
                while i < n
                    invariant
                        n == self.args@.len(),
                        texts == self.args@.map_values(|k: Kind| kind_text(k)),
                        i <= n,
                        out@ == join(texts.take(i as int), ", "@),
                    decreases n - i,
                {
                    let ghost before = out@;
                    if i > 0 {
                        out.append(", ");
                    }
                    push_kind(&mut out, &self.args[i]);
                    proof {
                        let p = texts.take(i + 1);
                        assert(p.drop_last() =~= texts.take(i as int));
                        if i == 0 {
                            assert(out@ =~= p[0]);
                        }
                    }
                    i += 1;
                }
                assert(texts.take(n as int) =~= texts);
            },
        }
        out
    }

    /// The return type as shown to users.
    pub fn returns_display(&self) -> (r: String)
        ensures
            r@ == returns_shown(*self),
    {
        match &self.returns_text {
            Some(t) => t.clone(),
            None => {
                let mut out = String::new();
                push_kind(&mut out, &self.returns);
                out
            },
        }
    }
}

/// The function signatures of a package.
pub struct ExportsManifest {
    pub functions: Vec<FunctionExport>,
}

impl ExportsManifest {
    /// An empty manifest, used before signatures have been extracted.
    pub fn empty() -> (r: ExportsManifest)
        ensures
            r.functions@.len() == 0,
    {
        ExportsManifest { functions: Vec::new() }
    }

    /// Looks a function up by export name; `None` finds the default export.
    /// The first function with that name is returned.
    pub fn get_signature(&self, name: Option<&str>) -> (r: Option<&FunctionExport>)
        ensures
            ({
                let q = match name { Some(s) => Some(s@), None => None };
                match r {
                    Some(f) => exists|i: int| 0 <= i < self.functions@.len()
                        && self.functions@[i] == *f
                        && export_name_matches(f.name, q)
                        && forall|j: int| 0 <= j < i ==> !export_name_matches(#[trigger] self.functions@[j].name, q),
                    None => forall|j: int| 0 <= j < self.functions@.len() ==> !export_name_matches(#[trigger] self.functions@[j].name, q),
                }
            }),
    {
        let ghost q = match name { Some(s) => Some(s@), None => None };
        let n = self.functions.len();
        let mut i: usize = 0;
        while i < n
            invariant
                n == self.functions@.len(),
                i <= n,
                q == (match name { Some(s) => Some(s@), None => None::<Seq<char>> }),
                forall|j: int| 0 <= j < i ==> !export_name_matches(#[trigger] self.functions@[j].name, q),
            decreases n - i,
        {
            let f = &self.functions[i];
            let hit = match (&f.name, name) {
                (None, None) => true,
                (Some(a), Some(b)) => str_eq(a.as_str(), b),
                _ => false,
            };
            if hit {
                return Some(f);
            }
            i += 1;
        }
        None
    }
}

// ---------------------------------------------------------------------------
// Kind signatures as hex text
// ---------------------------------------------------------------------------

/// Writes an encoded kind signature as hex text.
pub fn encode_kind_blob(bytes: &[u8]) -> (r: String)
    ensures
        r@ == hex_text(bytes@),
{
    hex_encode(bytes)
}

/// Reads an encoded kind signature back from hex text.
pub fn decode_kind_blob(text: &str) -> (r: Result<Vec<u8>, HexError>)
    ensures
        match r {
            Ok(v) => hex_decoding(encode_utf8(text@)) == Ok::<Seq<u8>, HexError>(v@),
            Err(e) => hex_decoding(encode_utf8(text@)) == Err::<Seq<u8>, HexError>(e),
        },
{
    hex_decode(text.as_bytes())
}

/// Reading back what was written gives the same signature bytes.
pub proof fn lemma_kind_blob_roundtrip(b: Seq<u8>)
    ensures
        hex_decoding(encode_utf8(hex_text(b))) == Ok::<Seq<u8>, HexError>(b),
{
    lemma_hex_roundtrip(b);
    let t = hex_text(b);
    crate::hexcode::lemma_hex_text_ascii(b);
    is_ascii_chars_encode_utf8(t);
    assert(encode_utf8(t) =~= ascii_bytes(t));
}

} // verus!
