//! Rules of the `#[surrealism]` attribute: export names, attribute
//! arguments, and the sentinel constants that detect duplicate exports.

use vstd::prelude::*;
use vstd::string::*;
use crate::text::{push_char, owned, str_eq, string_views};

verus! {

// ---------------------------------------------------------------------------
// Export names
// ---------------------------------------------------------------------------

/// A character allowed inside one segment of an export name.
pub open spec fn is_segment_char(c: char) -> bool {
    ('a' <= c <= 'z') || ('A' <= c <= 'Z') || ('0' <= c <= '9') || c == '_'
}

/// Scanner states while reading an export name: at the start of a segment,
/// inside a segment, or after the first `:` of a separator.
pub enum NameState {
    SegmentStart,
    InSegment,
    AfterColon,
}

/// Runs the export-name grammar `segment ("::" segment)*` over `s` from
/// position `i`, where a segment is a non-empty run of ASCII letters, digits
/// and underscores. Returns whether the whole input is accepted.
pub open spec fn name_accepts(s: Seq<char>, i: int, st: NameState) -> bool
    decreases s.len() - i,
{
    if i < 0 || i >= s.len() {
        st is InSegment
    } else {
        let c = s[i];
        match st {
            NameState::SegmentStart => is_segment_char(c) && name_accepts(s, i + 1, NameState::InSegment),
            NameState::InSegment => if is_segment_char(c) {
                name_accepts(s, i + 1, NameState::InSegment)
            } else if c == ':' {
                name_accepts(s, i + 1, NameState::AfterColon)
            } else {
                false
            },
            NameState::AfterColon => c == ':' && name_accepts(s, i + 1, NameState::SegmentStart),
        }
    }
}

/// An export name splits on `::` into non-empty segments of ASCII letters,
/// digits and underscores.
pub open spec fn valid_export_name(s: Seq<char>) -> bool {
    name_accepts(s, 0, NameState::SegmentStart)
}

/// Why a `#[surrealism]` attribute or its target was refused.
#[derive(Debug, PartialEq, Eq, Structural)]
pub enum AttrError {
    /// A `name = "..."` value is not a valid export name.
    InvalidExportName,
    /// An argument other than `default`, `init`, `writeable` or `name = "..."`.
    UnsupportedArgument,
    /// `#[surrealism = ...]` at the top level.
    TopLevelNameValue,
    /// The export name `default`, which is reserved for the default export.
    ReservedDefaultName,
    /// `#[surrealism(default)]` on a module.
    DefaultOnModule,
    /// `#[surrealism(init)]` on a module.
    InitOnModule,
    /// `#[surrealism(init)]` on a function inside a module.
    InitInsideModule,
    /// `#[surrealism]` on a module without an inline body.
    ModuleWithoutBody,
}

/// Checks that an export name uses only valid segment characters separated
/// by `::`.
///
/// A refused input, on which the attribute macro stops compilation with a
/// panic, is answered here with `Err` (the matching [`AttrError`]), never
/// with a panic; the macro turns that error into its compile-time failure
/// with the same message.
pub fn validate_export_name(val: &str) -> (r: Result<(), AttrError>)
    ensures
        r is Ok <==> valid_export_name(val@),
        r matches Err(e) ==> e == AttrError::InvalidExportName,
{
    let n = val.unicode_len();
    let mut st = NameState::SegmentStart;
    let mut i: usize = 0;
    while i < n
        invariant
            n == val@.len(),
            i <= n,
            valid_export_name(val@) == name_accepts(val@, i as int, st),
        decreases n - i,
    {
        let c = val.get_char(i);
        let seg = ('a' <= c && c <= 'z') || ('A' <= c && c <= 'Z') || ('0' <= c && c <= '9') || c == '_';
        st = match st {
            NameState::SegmentStart => if seg {
                NameState::InSegment
            } else {
                return Err(AttrError::InvalidExportName);
            },
            NameState::InSegment => if seg {
                NameState::InSegment
            } else if c == ':' {
                NameState::AfterColon
            } else {
                return Err(AttrError::InvalidExportName);
            },
            NameState::AfterColon => if c == ':' {
                NameState::SegmentStart
            } else {
                return Err(AttrError::InvalidExportName);
            },
        };
        i += 1;
    }
    match st {
        NameState::InSegment => Ok(()),
        _ => Err(AttrError::InvalidExportName),
    }
}

// ---------------------------------------------------------------------------
// Sentinel constants
// ---------------------------------------------------------------------------

/// `s` with every `_` replaced by `_u`.
pub open spec fn escape_underscores(s: Seq<char>) -> Seq<char>
    decreases s.len(),
{
    if s.len() == 0 {
        s
    } else if s[0] == '_' {
        seq!['_', 'u'] + escape_underscores(s.skip(1))
    } else {
        seq![s[0]] + escape_underscores(s.skip(1))
    }
}

/// `s` with every `::`, found from left to right without overlap, replaced
/// by `_s`.
pub open spec fn escape_scopes(s: Seq<char>) -> Seq<char>
    decreases s.len(),
{
    if s.len() == 0 {
        s
    } else if s.len() >= 2 && s[0] == ':' && s[1] == ':' {
        seq!['_', 's'] + escape_scopes(s.skip(2))
    } else {
        seq![s[0]] + escape_scopes(s.skip(1))
    }
}

/// The name part of a sentinel constant: underscores escaped first, then
/// scope separators.
pub open spec fn encode_export_name(s: Seq<char>) -> Seq<char> {
    escape_scopes(escape_underscores(s))
}

/// The sentinel constant of an export: `__sr_export_default` for the default
/// export, `__sr_export__` followed by the encoded name otherwise.
pub open spec fn sentinel_name(export_name: Option<Seq<char>>) -> Seq<char> {
    match export_name {
        None => "__sr_export_default"@,
        Some(name) => "__sr_export__"@ + encode_export_name(name),
    }
}

fn push_escaped_underscores(out: &mut String, name: &str)
    ensures
        final(out)@ == old(out)@ + escape_underscores(name@),
{
    let n = name.unicode_len();
    let mut i: usize = 0;
    assert(name@.skip(0) =~= name@);
    while i < n
        invariant
            n == name@.len(),
            i <= n,
            old(out)@ + escape_underscores(name@) == out@ + escape_underscores(name@.skip(i as int)),
        decreases n - i,
    {
        let c = name.get_char(i);
        assert(name@.skip(i as int).skip(1) =~= name@.skip(i + 1));
        if c == '_' {
            push_char(out, '_');
            push_char(out, 'u');
        } else {
            push_char(out, c);
        }
        i += 1;
    }
    assert(name@.skip(n as int).len() == 0);
}

fn push_escaped_scopes(out: &mut String, text: &str)
    ensures
        final(out)@ == old(out)@ + escape_scopes(text@),
{
    let n = text.unicode_len();
    let mut i: usize = 0;
    assert(text@.skip(0) =~= text@);
    while i < n
        invariant
            n == text@.len(),
            i <= n,
            old(out)@ + escape_scopes(text@) == out@ + escape_scopes(text@.skip(i as int)),
        decreases n - i,
    {
        let c = text.get_char(i);
        if c == ':' && i + 1 < n && text.get_char(i + 1) == ':' {
            assert(text@.skip(i as int).skip(2) =~= text@.skip(i + 2));
            push_char(out, '_');
            push_char(out, 's');
            i += 2;
        } else {
            assert(text@.skip(i as int).skip(1) =~= text@.skip(i + 1));
            push_char(out, c);
            i += 1;
        }
    }
    assert(text@.skip(n as int).len() == 0);
}

/// Builds the sentinel constant name for compile-time duplicate detection.
pub fn sentinel_const_name(export_name: Option<&str>) -> (r: String)
    ensures
        r@ == sentinel_name(
            match export_name {
                None => None,
                Some(s) => Some(s@),
            },
        ),
{
    match export_name {
        None => owned("__sr_export_default"),
        Some(name) => {
            let mut escaped = String::new();
            push_escaped_underscores(&mut escaped, name);
            let mut out = owned("__sr_export__");
            push_escaped_scopes(&mut out, escaped.as_str());
            out
        },
    }
}

// ---------------------------------------------------------------------------
// Collision freedom of sentinel names
// ---------------------------------------------------------------------------

/// The same encoding done in a single left-to-right pass.
pub open spec fn encode_one_pass(s: Seq<char>) -> Seq<char>
    decreases s.len(),
{
    if s.len() == 0 {
        s
    } else if s.len() >= 2 && s[0] == ':' && s[1] == ':' {
        seq!['_', 's'] + encode_one_pass(s.skip(2))
    } else if s[0] == '_' {
        seq!['_', 'u'] + encode_one_pass(s.skip(1))
    } else {
        seq![s[0]] + encode_one_pass(s.skip(1))
    }
}

/// Reads an encoded name back: `_u` is `_`, `_s` is `::`.
pub open spec fn decode_export_name(t: Seq<char>) -> Seq<char>
    decreases t.len(),
{
    if t.len() == 0 {
        t
    } else if t.len() >= 2 && t[0] == '_' && t[1] == 'u' {
        seq!['_'] + decode_export_name(t.skip(2))
    } else if t.len() >= 2 && t[0] == '_' && t[1] == 's' {
        seq![':', ':'] + decode_export_name(t.skip(2))
    } else {
        seq![t[0]] + decode_export_name(t.skip(1))
    }
}

proof fn lemma_escape_underscores_head(s: Seq<char>)
    requires
        s.len() > 0,
    ensures
        escape_underscores(s).len() > 0,
        escape_underscores(s)[0] == s[0],
{
}

proof fn lemma_two_pass_is_one_pass(s: Seq<char>)
    ensures
        escape_scopes(escape_underscores(s)) == encode_one_pass(s),
    decreases s.len(),
{
    if s.len() == 0 {
    } else if s.len() >= 2 && s[0] == ':' && s[1] == ':' {
        let rest = escape_underscores(s.skip(2));
        assert(s.skip(1)[0] == ':');
        assert(s.skip(1).skip(1) =~= s.skip(2));
        let e = escape_underscores(s);
        assert(escape_underscores(s.skip(1)) =~= seq![':'] + rest);
        assert(e =~= seq![':', ':'] + rest);
        assert(e.skip(2) =~= rest);
        lemma_two_pass_is_one_pass(s.skip(2));
    } else if s[0] == '_' {
        let rest = escape_underscores(s.skip(1));
        let e = escape_underscores(s);
        assert(e =~= seq!['_', 'u'] + rest);
        assert(e.skip(1) =~= seq!['u'] + rest);
        assert(e.skip(1).skip(1) =~= rest);
        assert(escape_scopes(e) =~= seq!['_'] + escape_scopes(e.skip(1)));
        assert(escape_scopes(e.skip(1)) =~= seq!['u'] + escape_scopes(rest));
        lemma_two_pass_is_one_pass(s.skip(1));
    } else {
        let rest = escape_underscores(s.skip(1));
        let e = escape_underscores(s);
        assert(e =~= seq![s[0]] + rest);
        assert(e.skip(1) =~= rest);
        if s[0] == ':' && rest.len() > 0 {
            lemma_escape_underscores_head(s.skip(1));
        }
        assert(escape_scopes(e) =~= seq![s[0]] + escape_scopes(rest));
        lemma_two_pass_is_one_pass(s.skip(1));
    }
}

proof fn lemma_decode_one_pass(s: Seq<char>)
    ensures
        decode_export_name(encode_one_pass(s)) == s,
    decreases s.len(),
{
    let t = encode_one_pass(s);
    if s.len() == 0 {
    } else if s.len() >= 2 && s[0] == ':' && s[1] == ':' {
        lemma_decode_one_pass(s.skip(2));
        assert(t.skip(2) =~= encode_one_pass(s.skip(2)));
        assert(s =~= seq![':', ':'] + s.skip(2));
    } else if s[0] == '_' {
        lemma_decode_one_pass(s.skip(1));
        assert(t.skip(2) =~= encode_one_pass(s.skip(1)));
        assert(s =~= seq!['_'] + s.skip(1));
    } else {
        lemma_decode_one_pass(s.skip(1));
        assert(t.skip(1) =~= encode_one_pass(s.skip(1)));
        assert(s =~= seq![s[0]] + s.skip(1));
    }
}

/// Distinct exports get distinct sentinel constants: the encoding of export
/// names is collision-free, and no named export collides with the default.
pub proof fn lemma_sentinel_names_distinct(a: Option<Seq<char>>, b: Option<Seq<char>>)
    requires
        a != b,
    ensures
        sentinel_name(a) != sentinel_name(b),
{
    reveal_strlit("__sr_export_default");
    reveal_strlit("__sr_export__");
    let pre = "__sr_export__"@;
    match (a, b) {
        (Some(x), Some(y)) => {
            lemma_two_pass_is_one_pass(x);
            lemma_two_pass_is_one_pass(y);
            lemma_decode_one_pass(x);
            lemma_decode_one_pass(y);
            if sentinel_name(a) == sentinel_name(b) {
                assert((pre + encode_export_name(x)).skip(13) =~= encode_export_name(x));
                assert((pre + encode_export_name(y)).skip(13) =~= encode_export_name(y));
            }
        },
        (Some(x), None) => {
            assert((pre + encode_export_name(x))[12] == '_');
            assert("__sr_export_default"@[12] == 'd');
        },
        (None, Some(y)) => {
            assert((pre + encode_export_name(y))[12] == '_');
            assert("__sr_export_default"@[12] == 'd');
        },
        (None, None) => {},
    }
}

/// A plain Rust identifier: a letter or `_` first, then ASCII letters,
/// digits and underscores, and not `_` alone.
pub open spec fn is_plain_ident(s: Seq<char>) -> bool {
    &&& s.len() >= 2
    &&& (s[0] == '_' || ('a' <= s[0] <= 'z') || ('A' <= s[0] <= 'Z'))
    &&& forall|k: int| 0 <= k < s.len() ==> is_segment_char(#[trigger] s[k])
}

proof fn lemma_encode_segment_chars(s: Seq<char>, i: int, st: NameState)
    requires
        0 <= i <= s.len(),
        !(st is AfterColon),
        name_accepts(s, i, st),
    ensures
        forall|k: int| 0 <= k < encode_one_pass(s.skip(i)).len() ==> is_segment_char(#[trigger] encode_one_pass(s.skip(i))[k]),
    decreases s.len() - i,
{
    let t = s.skip(i);
    if i < s.len() {
        let c = s[i];
        assert(t[0] == c);
        if is_segment_char(c) {
            assert(t.skip(1) =~= s.skip(i + 1));
            lemma_encode_segment_chars(s, i + 1, NameState::InSegment);
            let rest = encode_one_pass(s.skip(i + 1));
            let e = encode_one_pass(t);
            if c == '_' {
                assert(e =~= seq!['_', 'u'] + rest);
            } else {
                assert(e =~= seq![c] + rest);
            }
            assert forall|k: int| 0 <= k < e.len() implies is_segment_char(#[trigger] e[k]) by {
                if k >= e.len() - rest.len() {
                    assert(e[k] == rest[k - (e.len() - rest.len())]);
                }
            }
        } else {
            assert(st is InSegment && c == ':');
            assert(name_accepts(s, i + 1, NameState::AfterColon));
            assert(i + 1 < s.len());
            assert(s[i + 1] == ':');
            assert(t[1] == ':');
            assert(t.skip(2) =~= s.skip(i + 2));
            lemma_encode_segment_chars(s, i + 2, NameState::SegmentStart);
            let rest = encode_one_pass(s.skip(i + 2));
            let e = encode_one_pass(t);
            assert(e =~= seq!['_', 's'] + rest);
            assert forall|k: int| 0 <= k < e.len() implies is_segment_char(#[trigger] e[k]) by {
                if k >= 2 {
                    assert(e[k] == rest[k - 2]);
                }
            }
        }
    } else {
        assert(t.len() == 0);
    }
}

/// Every sentinel constant is a plain Rust identifier: the default one, and
/// the one of any valid export name, whose `_` and `::` are escaped into
/// identifier characters.
pub proof fn lemma_sentinel_is_ident(export_name: Option<Seq<char>>)
    requires
        export_name matches Some(n) ==> valid_export_name(n),
    ensures
        is_plain_ident(sentinel_name(export_name)),
{
    reveal_strlit("__sr_export_default");
    reveal_strlit("__sr_export__");
    match export_name {
        None => {
            let d = "__sr_export_default"@;
            assert forall|k: int| 0 <= k < d.len() implies is_segment_char(#[trigger] d[k]) by {}
        },
        Some(n) => {
            lemma_two_pass_is_one_pass(n);
            assert(n.skip(0) =~= n);
            lemma_encode_segment_chars(n, 0, NameState::SegmentStart);
            let pre = "__sr_export__"@;
            let e = encode_one_pass(n);
            let full = pre + e;
            assert(full == sentinel_name(export_name));
            assert forall|k: int| 0 <= k < full.len() implies is_segment_char(#[trigger] full[k]) by {
                if k >= pre.len() {
                    assert(full[k] == e[k - pre.len()]);
                } else {
                    assert(full[k] == pre[k]);
                }
            }
        },
    }
}

} // verus!

verus! {

// ---------------------------------------------------------------------------
// Attribute arguments
// ---------------------------------------------------------------------------

/// One argument of `#[surrealism(...)]`, as the attribute parser sees it.
/// `ident` is the path's identifier when the path is a single identifier.
pub enum MetaArg {
    /// A bare path such as `default`.
    Path { ident: Option<String> },
    /// `path = value`; `str_value` holds the value when it is a string literal.
    NameValue { ident: Option<String>, str_value: Option<String> },
    /// `path(...)`.
    List,
}

/// The attribute form itself: `#[surrealism]`, `#[surrealism(...)]` or
/// `#[surrealism = ...]`.
pub enum AttrMeta {
    Path,
    List(Vec<MetaArg>),
    NameValue,
}

/// What the arguments of `#[surrealism(...)]` ask for.
pub struct AttrFlags {
    pub is_default: bool,
    pub export_name: Option<String>,
    pub is_init: bool,
    pub is_writeable: bool,
}

/// Whether an optional identifier is the word `w`.
pub open spec fn ident_is(ident: Option<String>, w: Seq<char>) -> bool {
    ident matches Some(id) && id@ == w
}

/// Folds the arguments from position `i` into `acc`: `name = "..."` sets
/// the export name (after checking it; a non-string value is ignored), the
/// words `default`, `init` and `writeable` set their flags, and anything else
/// is refused. The first refused argument decides the error.
pub open spec fn fold_attr_args(args: Seq<MetaArg>, i: int, acc: AttrFlags) -> Result<AttrFlags, AttrError>
    decreases args.len() - i,
{
    if i < 0 || i >= args.len() {
        Ok(acc)
    } else {
        match args[i] {
            MetaArg::NameValue { ident, str_value } => if ident_is(ident, "name"@) {
                match str_value {
                    Some(v) => if valid_export_name(v@) {
                        fold_attr_args(args, i + 1, AttrFlags { export_name: Some(v), ..acc })
                    } else {
                        Err(AttrError::InvalidExportName)
                    },
                    None => fold_attr_args(args, i + 1, acc),
                }
            } else {
                Err(AttrError::UnsupportedArgument)
            },
            MetaArg::Path { ident } => if ident_is(ident, "default"@) {
                fold_attr_args(args, i + 1, AttrFlags { is_default: true, ..acc })
            } else if ident_is(ident, "init"@) {
                fold_attr_args(args, i + 1, AttrFlags { is_init: true, ..acc })
            } else if ident_is(ident, "writeable"@) {
                fold_attr_args(args, i + 1, AttrFlags { is_writeable: true, ..acc })
            } else {
                Err(AttrError::UnsupportedArgument)
            },
            MetaArg::List => Err(AttrError::UnsupportedArgument),
        }
    }
}

/// The flags of an argument list, starting from all flags off.
pub open spec fn attr_args_flags(args: Seq<MetaArg>) -> Result<AttrFlags, AttrError> {
    fold_attr_args(args, 0, AttrFlags { is_default: false, export_name: None, is_init: false, is_writeable: false })
}

/// The flags of a whole attribute: a bare `#[surrealism]` sets nothing, a
/// list is folded, and `#[surrealism = ...]` is refused.
pub open spec fn attr_meta_flags(meta: AttrMeta) -> Result<AttrFlags, AttrError> {
    match meta {
        AttrMeta::Path => Ok(AttrFlags { is_default: false, export_name: None, is_init: false, is_writeable: false }),
        AttrMeta::List(args) => attr_args_flags(args@),
        AttrMeta::NameValue => Err(AttrError::TopLevelNameValue),
    }
}

fn ident_equals(ident: &Option<String>, w: &str) -> (r: bool)
    ensures
        r == ident_is(*ident, w@),
{
    match ident {
        Some(id) => str_eq(id.as_str(), w),
        None => false,
    }
}

/// Reads the arguments of `#[surrealism(...)]`.
///
/// A refused input, on which the attribute macro stops compilation with a
/// panic, is answered here with `Err` (the matching [`AttrError`]), never
/// with a panic; the macro turns that error into its compile-time failure
/// with the same message.
pub fn parse_surrealism_attrs(args: &[MetaArg]) -> (r: Result<AttrFlags, AttrError>)
    ensures
        r == attr_args_flags(args@),
{
    let mut acc = AttrFlags { is_default: false, export_name: None, is_init: false, is_writeable: false };
    let n = args.len();
    let mut i: usize = 0;
    while i < n
        invariant
            n == args@.len(),
            i <= n,
            attr_args_flags(args@) == fold_attr_args(args@, i as int, acc),
        decreases n - i,
    {
        match &args[i] {
            MetaArg::NameValue { ident, str_value } => {
                if ident_equals(ident, "name") {
                    match str_value {
                        Some(v) => {
                            if validate_export_name(v.as_str()).is_err() {
                                return Err(AttrError::InvalidExportName);
                            }
                            acc = AttrFlags { export_name: Some(v.clone()), ..acc };
                        },
                        None => {},
                    }
                } else {
                    return Err(AttrError::UnsupportedArgument);
                }
            },
            MetaArg::Path { ident } => {
                if ident_equals(ident, "default") {
                    acc = AttrFlags { is_default: true, ..acc };
                } else if ident_equals(ident, "init") {
                    acc = AttrFlags { is_init: true, ..acc };
                } else if ident_equals(ident, "writeable") {
                    acc = AttrFlags { is_writeable: true, ..acc };
                } else {
                    return Err(AttrError::UnsupportedArgument);
                }
            },
            MetaArg::List => {
                return Err(AttrError::UnsupportedArgument);
            },
        }
        i += 1;
    }
    Ok(acc)
}

/// Reads a `#[surrealism]` attribute found on an item inside a module.
///
/// A refused input, on which the attribute macro stops compilation with a
/// panic, is answered here with `Err` (the matching [`AttrError`]), never
/// with a panic; the macro turns that error into its compile-time failure
/// with the same message.
pub fn parse_surrealism_attr(attr: &AttrMeta) -> (r: Result<AttrFlags, AttrError>)
    ensures
        r == attr_meta_flags(*attr),
{
    match attr {
        AttrMeta::Path => Ok(AttrFlags { is_default: false, export_name: None, is_init: false, is_writeable: false }),
        AttrMeta::List(args) => parse_surrealism_attrs(args.as_slice()),
        AttrMeta::NameValue => Err(AttrError::TopLevelNameValue),
    }
}

} // verus!

verus! {

// ---------------------------------------------------------------------------
// Export names of functions and modules
// ---------------------------------------------------------------------------

/// The export name of an annotated function: none for the default export,
/// otherwise the `name = "..."` override or the function's own name. The
/// name `default` is reserved.
pub open spec fn function_export(is_default: bool, name_override: Option<String>, fn_name: Seq<char>) -> Result<Option<Seq<char>>, AttrError> {
    if is_default {
        Ok(None)
    } else {
        let name = match name_override {
            Some(n) => n@,
            None => fn_name,
        };
        if name == "default"@ {
            Err(AttrError::ReservedDefaultName)
        } else {
            Ok(Some(name))
        }
    }
}

/// Decides the export name of an annotated top-level function.
///
/// A refused input, on which the attribute macro stops compilation with a
/// panic, is answered here with `Err` (the matching [`AttrError`]), never
/// with a panic; the macro turns that error into its compile-time failure
/// with the same message.
pub fn function_export_name(is_default: bool, export_name_override: Option<String>, fn_name: &str) -> (r: Result<Option<String>, AttrError>)
    ensures
        match r {
            Ok(Some(s)) => function_export(is_default, export_name_override, fn_name@) == Ok::<Option<Seq<char>>, AttrError>(Some(s@)),
            Ok(None) => function_export(is_default, export_name_override, fn_name@) == Ok::<Option<Seq<char>>, AttrError>(None),
            Err(e) => function_export(is_default, export_name_override, fn_name@) == Err::<Option<Seq<char>>, AttrError>(e),
        },
{
    if is_default {
        return Ok(None);
    }
    let name = match export_name_override {
        Some(n) => n,
        None => owned(fn_name),
    };
    if str_eq(name.as_str(), "default") {
        Err(AttrError::ReservedDefaultName)
    } else {
        Ok(Some(name))
    }
}

/// The export prefix of an annotated module: `default` and `init` are
/// refused, then the `name = "..."` override or the module's own name.
pub open spec fn module_prefix(flags: AttrFlags, mod_name: Seq<char>) -> Result<Seq<char>, AttrError> {
    if flags.is_default {
        Err(AttrError::DefaultOnModule)
    } else if flags.is_init {
        Err(AttrError::InitOnModule)
    } else {
        Ok(match flags.export_name {
            Some(n) => n@,
            None => mod_name,
        })
    }
}

/// Decides the export prefix of an annotated top-level module.
///
/// A refused input, on which the attribute macro stops compilation with a
/// panic, is answered here with `Err` (the matching [`AttrError`]), never
/// with a panic; the macro turns that error into its compile-time failure
/// with the same message.
pub fn module_export_prefix(flags: &AttrFlags, mod_name: &str) -> (r: Result<String, AttrError>)
    ensures
        match r {
            Ok(s) => module_prefix(*flags, mod_name@) == Ok::<Seq<char>, AttrError>(s@),
            Err(e) => module_prefix(*flags, mod_name@) == Err::<Seq<char>, AttrError>(e),
        },
{
    if flags.is_default {
        Err(AttrError::DefaultOnModule)
    } else if flags.is_init {
        Err(AttrError::InitOnModule)
    } else {
        match &flags.export_name {
            Some(n) => Ok(n.clone()),
            None => Ok(owned(mod_name)),
        }
    }
}

/// `prefix::segment`.
pub open spec fn scoped(prefix: Seq<char>, segment: Seq<char>) -> Seq<char> {
    prefix + "::"@ + segment
}

fn scoped_name(prefix: &str, segment: &str) -> (r: String)
    ensures
        r@ == scoped(prefix@, segment@),
{
    let mut s = owned(prefix);
    s.append("::");
    s.append(segment);
    s
}

// ---------------------------------------------------------------------------
// Items of an annotated module
// ---------------------------------------------------------------------------

/// An item inside a `#[surrealism]` module. `attr` is its first
/// `#[surrealism]` attribute, if it has one.
pub enum ModItem {
    /// A function; `signature_ok` tells whether its signature can be exported
    /// (no `self` parameter).
    Fn { ident: String, attr: Option<AttrMeta>, signature_ok: bool },
    /// A nested module; `items` is its inline body, if it has one.
    Mod { ident: String, attr: Option<AttrMeta>, items: Option<Vec<ModItem>> },
    /// Any other item, which is left alone.
    Other,
}

/// The exports registered by the items of a module with export prefix
/// `prefix`, from position `i`, in order. An annotated function exports
/// `prefix` itself when marked `default`, otherwise `prefix::name`; it may
/// not be `init`, its name may not be `default`, and a function whose
/// signature cannot be exported registers nothing. An annotated module may
/// be neither `default` nor `init`, needs an inline body, and exports its own
/// items under `prefix::name`. Unannotated items export nothing.
pub open spec fn items_exports(prefix: Seq<char>, items: Seq<ModItem>, i: int) -> Result<Seq<Seq<char>>, AttrError>
    decreases items, items.len() - i,
{
    if i < 0 || i >= items.len() {
        Ok(Seq::empty())
    } else {
        match item_exports(prefix, items[i]) {
            Err(e) => Err(e),
            Ok(head) => match items_exports(prefix, items, i + 1) {
                Err(e) => Err(e),
                Ok(tail) => Ok(head + tail),
            },
        }
    }
}

/// The exports registered by one item of a module with export prefix `prefix`.
pub open spec fn item_exports(prefix: Seq<char>, item: ModItem) -> Result<Seq<Seq<char>>, AttrError>
    decreases item, 0int,
{
    match item {
        ModItem::Fn { ident, attr, signature_ok } => match attr {
            None => Ok(Seq::empty()),
            Some(meta) => match attr_meta_flags(meta) {
                Err(e) => Err(e),
                Ok(flags) => if flags.is_init {
                    Err(AttrError::InitInsideModule)
                } else {
                    let name = if flags.is_default {
                        prefix
                    } else {
                        scoped(prefix, match flags.export_name { Some(n) => n@, None => ident@ })
                    };
                    if name == "default"@ {
                        Err(AttrError::ReservedDefaultName)
                    } else if signature_ok {
                        Ok(seq![name])
                    } else {
                        Ok(Seq::empty())
                    }
                },
            },
        },
        ModItem::Mod { ident, attr, items } => match attr {
            None => Ok(Seq::empty()),
            Some(meta) => match attr_meta_flags(meta) {
                Err(e) => Err(e),
                Ok(flags) => if flags.is_default {
                    Err(AttrError::DefaultOnModule)
                } else if flags.is_init {
                    Err(AttrError::InitOnModule)
                } else {
                    match items {
                        None => Err(AttrError::ModuleWithoutBody),
                        Some(v) => items_exports(
                            scoped(prefix, match flags.export_name { Some(n) => n@, None => ident@ }),
                            v@,
                            0,
                        ),
                    }
                },
            },
        },
        ModItem::Other => Ok(Seq::empty()),
    }
}

} // verus!

verus! {

/// Prepends `front` to a successful list of exports.
pub open spec fn prepend_exports(front: Seq<Seq<char>>, r: Result<Seq<Seq<char>>, AttrError>) -> Result<Seq<Seq<char>>, AttrError> {
    match r {
        Ok(t) => Ok(front + t),
        Err(e) => Err(e),
    }
}

fn item_export_names(prefix: &str, item: &ModItem) -> (r: Result<Vec<String>, AttrError>)
    ensures
        match r {
            Ok(v) => item_exports(prefix@, *item) == Ok::<Seq<Seq<char>>, AttrError>(string_views(v@)),
            Err(e) => item_exports(prefix@, *item) == Err::<Seq<Seq<char>>, AttrError>(e),
        },
    decreases item, 0int,
{
    match item {
        ModItem::Fn { ident, attr, signature_ok } => match attr {
            None => {
                let v: Vec<String> = Vec::new();
                assert(string_views(v@) =~= Seq::empty());
                Ok(v)
            },
            Some(meta) => {
                let flags = parse_surrealism_attr(meta)?;
                if flags.is_init {
                    return Err(AttrError::InitInsideModule);
                }
                let name = if flags.is_default {
                    owned(prefix)
                } else {
                    match &flags.export_name {
                        Some(n) => scoped_name(prefix, n.as_str()),
                        None => scoped_name(prefix, ident.as_str()),
                    }
                };
                if str_eq(name.as_str(), "default") {
                    return Err(AttrError::ReservedDefaultName);
                }
                let mut v: Vec<String> = Vec::new();
                if *signature_ok {
                    v.push(name);
                }
                assert(string_views(v@) =~= (if *signature_ok { seq![name@] } else { Seq::<Seq<char>>::empty() }));
                Ok(v)
            },
        },
        ModItem::Mod { ident, attr, items } => match attr {
            None => {
                let v: Vec<String> = Vec::new();
                assert(string_views(v@) =~= Seq::empty());
                Ok(v)
            },
            Some(meta) => {
                let flags = parse_surrealism_attr(meta)?;
                if flags.is_default {
                    return Err(AttrError::DefaultOnModule);
                }
                if flags.is_init {
                    return Err(AttrError::InitOnModule);
                }
                let inner_prefix = match &flags.export_name {
                    Some(n) => scoped_name(prefix, n.as_str()),
                    None => scoped_name(prefix, ident.as_str()),
                };
                match items {
                    None => Err(AttrError::ModuleWithoutBody),
                    Some(v) => process_mod_items(inner_prefix.as_str(), v),
                }
            },
        },
        ModItem::Other => {
            let v: Vec<String> = Vec::new();
            assert(string_views(v@) =~= Seq::empty());
            Ok(v)
        },
    }
}

/// Walks the items of a `#[surrealism]` module whose export prefix is
/// `prefix`, and returns the export names its annotated functions register,
/// in order (each one gets a sentinel constant).
///
/// A refused input, on which the attribute macro stops compilation with a
/// panic, is answered here with `Err` (the matching [`AttrError`]), never
/// with a panic; the macro turns that error into its compile-time failure
/// with the same message.
pub fn process_mod_items(prefix: &str, items: &Vec<ModItem>) -> (r: Result<Vec<String>, AttrError>)
    ensures
        match r {
            Ok(v) => items_exports(prefix@, items@, 0) == Ok::<Seq<Seq<char>>, AttrError>(string_views(v@)),
            Err(e) => items_exports(prefix@, items@, 0) == Err::<Seq<Seq<char>>, AttrError>(e),
        },
    decreases items@, items@.len() + 1,
{
    let mut acc: Vec<String> = Vec::new();
    let n = items.len();
    let mut i: usize = 0;
    assert(string_views(acc@) =~= Seq::empty());
    assert(Seq::<Seq<char>>::empty() + Seq::<Seq<char>>::empty() =~= Seq::<Seq<char>>::empty());
    while i < n
        invariant
            n == items@.len(),
            i <= n,
            items_exports(prefix@, items@, 0) == prepend_exports(string_views(acc@), items_exports(prefix@, items@, i as int)),
        decreases n - i,
    {
        assert(decreases_to!(items@ => items@[i as int]));
        let mut names = item_export_names(prefix, &items[i])?;
        let ghost before = string_views(acc@);
        let ghost head = string_views(names@);
        acc.append(&mut names);
        proof {
            assert(string_views(acc@) =~= before + head);
            let tail = items_exports(prefix@, items@, i + 1);
            match tail {
                Ok(t) => {
                    assert(before + (head + t) =~= (before + head) + t);
                },
                Err(e) => {},
            }
        }
        i += 1;
    }
    proof {
        if items_exports(prefix@, items@, i as int) is Ok {
            assert(string_views(acc@) + Seq::<Seq<char>>::empty() =~= string_views(acc@));
        }
    }
    Ok(acc)
}

} // verus!

verus! {

// ---------------------------------------------------------------------------
// How an annotated module's items are rewritten
// ---------------------------------------------------------------------------

/// What the export attribute does to one item of an annotated module.
pub enum ItemAction {
    /// The item is not annotated: it stays as it is.
    Keep,
    /// An annotated function: its `#[surrealism]` attribute is removed, it
    /// stays in place, and its registration under `export_name` follows it
    /// (with one sentinel constant for the name).
    Register { export_name: String, writeable: bool },
    /// An annotated function whose signature cannot be exported: it is
    /// replaced by the compile error of its signature, with no sentinel.
    SignatureError,
    /// An annotated module: its attribute is removed, it stays in place, and
    /// its inline body is rewritten by `actions`, one per item, in order.
    Recurse { actions: Vec<ItemAction> },
}

/// The export name of an annotated function inside a module with prefix
/// `prefix`: the prefix itself when marked `default`, otherwise
/// `prefix::name` with the `name = "..."` override or the function's name.
pub open spec fn mod_fn_name(prefix: Seq<char>, flags: AttrFlags, ident: Seq<char>) -> Seq<char> {
    if flags.is_default {
        prefix
    } else {
        scoped(prefix, match flags.export_name { Some(n) => n@, None => ident })
    }
}

/// The export prefix of an annotated module nested in a module with prefix
/// `prefix`.
pub open spec fn mod_prefix(prefix: Seq<char>, flags: AttrFlags, ident: Seq<char>) -> Seq<char> {
    scoped(prefix, match flags.export_name { Some(n) => n@, None => ident })
}

/// `action` is what the attribute does to `item` in a module with prefix
/// `prefix` (for an item the module walk accepts).
pub open spec fn action_fits(prefix: Seq<char>, item: ModItem, action: ItemAction) -> bool
    decreases item, 0int,
{
    match item {
        ModItem::Fn { ident, attr, signature_ok } => match attr {
            None => action is Keep,
            Some(meta) => match attr_meta_flags(meta) {
                Ok(flags) => if signature_ok {
                    action matches ItemAction::Register { export_name, writeable }
                        && export_name@ == mod_fn_name(prefix, flags, ident@)
                        && writeable == flags.is_writeable
                } else {
                    action is SignatureError
                },
                Err(_) => false,
            },
        },
        ModItem::Mod { ident, attr, items } => match attr {
            None => action is Keep,
            Some(meta) => match attr_meta_flags(meta) {
                Ok(flags) => match items {
                    Some(v) => action matches ItemAction::Recurse { actions }
                        && actions@.len() == v@.len()
                        && actions_fit(mod_prefix(prefix, flags, ident@), v@, actions@, 0),
                    None => false,
                },
                Err(_) => false,
            },
        },
        ModItem::Other => action is Keep,
    }
}

/// `actions[j]` fits `items[j]` for every position `j` from `i` on.
pub open spec fn actions_fit(prefix: Seq<char>, items: Seq<ModItem>, actions: Seq<ItemAction>, i: int) -> bool
    decreases items, items.len() - i,
{
    if i < 0 || i >= items.len() {
        true
    } else {
        action_fits(prefix, items[i], actions[i]) && actions_fit(prefix, items, actions, i + 1)
    }
}

/// The export names an action registers, in source pre-order.
pub open spec fn action_names(action: ItemAction) -> Seq<Seq<char>>
    decreases action, 0int,
{
    match action {
        ItemAction::Register { export_name, .. } => seq![export_name@],
        ItemAction::Recurse { actions } => registered_names(actions@, actions@.len() as int),
        _ => Seq::empty(),
    }
}

/// The export names registered by `actions[0..n]`, in source pre-order.
pub open spec fn registered_names(actions: Seq<ItemAction>, n: int) -> Seq<Seq<char>>
    decreases actions, n,
{
    if n <= 0 || n > actions.len() {
        Seq::empty()
    } else {
        registered_names(actions, n - 1) + action_names(actions[n - 1])
    }
}

proof fn lemma_registered_names_push(actions: Seq<ItemAction>, a: ItemAction, n: int)
    requires
        0 <= n <= actions.len(),
    ensures
        registered_names(actions.push(a), n) == registered_names(actions, n),
    decreases n,
{
    if n > 0 {
        lemma_registered_names_push(actions, a, n - 1);
        assert(actions.push(a)[n - 1] == actions[n - 1]);
    }
}

proof fn lemma_actions_fit_from(prefix: Seq<char>, items: Seq<ModItem>, actions: Seq<ItemAction>, i: int)
    requires
        0 <= i,
        forall|j: int| i <= j < items.len() ==> action_fits(prefix, #[trigger] items[j], actions[j]),
    ensures
        actions_fit(prefix, items, actions, i),
    decreases items.len() - i,
{
    if i < items.len() {
        lemma_actions_fit_from(prefix, items, actions, i + 1);
    }
}

fn item_action(prefix: &str, item: &ModItem) -> (r: Result<ItemAction, AttrError>)
    ensures
        match r {
            Ok(a) => item_exports(prefix@, *item) == Ok::<Seq<Seq<char>>, AttrError>(action_names(a))
                && action_fits(prefix@, *item, a),
            Err(e) => item_exports(prefix@, *item) == Err::<Seq<Seq<char>>, AttrError>(e),
        },
    decreases item, 0int,
{
    match item {
        ModItem::Fn { ident, attr, signature_ok } => match attr {
            None => {
                assert(action_names(ItemAction::Keep) =~= Seq::empty());
                Ok(ItemAction::Keep)
            },
            Some(meta) => {
                let flags = parse_surrealism_attr(meta)?;
                if flags.is_init {
                    return Err(AttrError::InitInsideModule);
                }
                let name = if flags.is_default {
                    owned(prefix)
                } else {
                    match &flags.export_name {
                        Some(n) => scoped_name(prefix, n.as_str()),
                        None => scoped_name(prefix, ident.as_str()),
                    }
                };
                if str_eq(name.as_str(), "default") {
                    return Err(AttrError::ReservedDefaultName);
                }
                if *signature_ok {
                    let a = ItemAction::Register { export_name: name, writeable: flags.is_writeable };
                    assert(action_names(a) =~= seq![mod_fn_name(prefix@, flags, ident@)]);
                    Ok(a)
                } else {
                    assert(action_names(ItemAction::SignatureError) =~= Seq::empty());
                    Ok(ItemAction::SignatureError)
                }
            },
        },
        ModItem::Mod { ident, attr, items } => match attr {
            None => {
                assert(action_names(ItemAction::Keep) =~= Seq::empty());
                Ok(ItemAction::Keep)
            },
            Some(meta) => {
                let flags = parse_surrealism_attr(meta)?;
                if flags.is_default {
                    return Err(AttrError::DefaultOnModule);
                }
                if flags.is_init {
                    return Err(AttrError::InitOnModule);
                }
                let inner_prefix = match &flags.export_name {
                    Some(n) => scoped_name(prefix, n.as_str()),
                    None => scoped_name(prefix, ident.as_str()),
                };
                match items {
                    None => Err(AttrError::ModuleWithoutBody),
                    Some(v) => {
                        let actions = mod_item_actions(inner_prefix.as_str(), v)?;
                        Ok(ItemAction::Recurse { actions })
                    },
                }
            },
        },
        ModItem::Other => {
            assert(action_names(ItemAction::Keep) =~= Seq::empty());
            Ok(ItemAction::Keep)
        },
    }
}

/// Decides, for each item of a `#[surrealism]` module whose export prefix
/// is `prefix`, what the attribute does to it: keep it, strip its attribute
/// and register it under its export name, replace it by its signature's
/// compile error, or strip its attribute and rewrite its body. The actions
/// come one per item, in order; the names they register, in pre-order, are
/// the module's exports (one sentinel each). The walk is refused exactly
/// where `process_mod_items` refuses it, with the same error.
///
/// A refused input, on which the attribute macro stops compilation with a
/// panic, is answered here with `Err` (the matching [`AttrError`]), never
/// with a panic; the macro turns that error into its compile-time failure
/// with the same message.
pub fn mod_item_actions(prefix: &str, items: &Vec<ModItem>) -> (r: Result<Vec<ItemAction>, AttrError>)
    ensures
        match r {
            Ok(v) => {
                &&& items_exports(prefix@, items@, 0) == Ok::<Seq<Seq<char>>, AttrError>(registered_names(v@, v@.len() as int))
                &&& v@.len() == items@.len()
                &&& actions_fit(prefix@, items@, v@, 0)
            },
            Err(e) => items_exports(prefix@, items@, 0) == Err::<Seq<Seq<char>>, AttrError>(e),
        },
    decreases items@, items@.len() + 1,
{
    let mut acc: Vec<ItemAction> = Vec::new();
    let n = items.len();
    let mut i: usize = 0;
    assert(registered_names(acc@, 0) =~= Seq::empty());
    assert(Seq::<Seq<char>>::empty() + Seq::<Seq<char>>::empty() =~= Seq::<Seq<char>>::empty());
    while i < n
        invariant
            n == items@.len(),
            i <= n,
            acc@.len() == i,
            forall|j: int| 0 <= j < i ==> action_fits(prefix@, #[trigger] items@[j], acc@[j]),
            items_exports(prefix@, items@, 0) == prepend_exports(registered_names(acc@, i as int), items_exports(prefix@, items@, i as int)),
        decreases n - i,
    {
        assert(decreases_to!(items@ => items@[i as int]));
        let a = item_action(prefix, &items[i])?;
        let ghost before = registered_names(acc@, i as int);
        let ghost head = action_names(a);
        let ghost old_acc = acc@;
        acc.push(a);
        proof {
            lemma_registered_names_push(old_acc, a, i as int);
            assert(acc@[i as int] == a);
            assert(registered_names(acc@, i + 1) == before + head);
            let tail = items_exports(prefix@, items@, i + 1);
            match tail {
                Ok(t) => {
                    assert(before + (head + t) =~= (before + head) + t);
                },
                Err(e) => {},
            }
            assert forall|j: int| 0 <= j < i + 1 implies action_fits(prefix@, #[trigger] items@[j], acc@[j]) by {
                if j < i {
                    assert(acc@[j] == old_acc[j]);
                }
            }
        }
        i += 1;
    }
    proof {
        lemma_actions_fit_from(prefix@, items@, acc@, 0);
        assert(registered_names(acc@, i as int) + Seq::<Seq<char>>::empty() =~= registered_names(acc@, i as int));
    }
    Ok(acc)
}

} // verus!

verus! {

/// The generated helper functions of an export.
#[derive(Clone, Copy, Debug, PartialEq, Eq, Structural)]
pub enum HelperKind {
    /// `__sr_init_{fn}`: runs an init function.
    Init,
    /// `__sr_invoke_{fn}`: decodes arguments, calls, encodes the result.
    Invoke,
    /// `__sr_args_{fn}`: the argument kinds.
    Args,
    /// `__sr_returns_{fn}`: the return kind.
    Returns,
}

/// The name of a generated helper function of `fn_name`.
pub open spec fn helper_name(kind: HelperKind, fn_name: Seq<char>) -> Seq<char> {
    (match kind {
        HelperKind::Init => "__sr_init_"@,
        HelperKind::Invoke => "__sr_invoke_"@,
        HelperKind::Args => "__sr_args_"@,
        HelperKind::Returns => "__sr_returns_"@,
    }) + fn_name
}

/// Names a generated helper function.
pub fn helper_ident(kind: HelperKind, fn_name: &str) -> (r: String)
    ensures
        r@ == helper_name(kind, fn_name@),
{
    let mut s = match kind {
        HelperKind::Init => owned("__sr_init_"),
        HelperKind::Invoke => owned("__sr_invoke_"),
        HelperKind::Args => owned("__sr_args_"),
        HelperKind::Returns => owned("__sr_returns_"),
    };
    s.append(fn_name);
    s
}

} // verus!

verus! {

/// `name` is the module prefix itself or lies inside it (`prefix::...`).
pub open spec fn under_prefix(name: Seq<char>, prefix: Seq<char>) -> bool {
    name == prefix || (name.len() >= prefix.len() + 2 && name.take(prefix.len() + 2int) == prefix + "::"@)
}

proof fn lemma_scoped_under(prefix: Seq<char>, seg: Seq<char>, name: Seq<char>)
    requires
        under_prefix(name, scoped(prefix, seg)),
    ensures
        under_prefix(name, prefix),
{
    reveal_strlit("::");
    let p2 = prefix + "::"@;
    let s = scoped(prefix, seg);
    assert(s.take(p2.len() as int) =~= p2);
    assert("::"@.len() == 2);
    assert(s.len() >= p2.len());
    if name == s {
        assert(name.take(prefix.len() + 2int) =~= p2);
    } else {
        assert(name.take(s.len() + 2int) == s + "::"@);
        assert((s + "::"@).take(p2.len() as int) =~= p2);
        assert(name.take(p2.len() as int) =~= name.take(s.len() + 2int).take(p2.len() as int));
        assert(name.take(prefix.len() + 2int) =~= p2);
    }
}

proof fn lemma_items_under_prefix(prefix: Seq<char>, items: Seq<ModItem>, i: int)
    ensures
        items_exports(prefix, items, i) matches Ok(names) ==> forall|k: int| 0 <= k < names.len() ==> under_prefix(#[trigger] names[k], prefix),
    decreases items, items.len() - i,
{
    if 0 <= i < items.len() {
        lemma_item_under_prefix(prefix, items[i]);
        lemma_items_under_prefix(prefix, items, i + 1);
        if let Ok(names) = items_exports(prefix, items, i) {
            let head = item_exports(prefix, items[i])->Ok_0;
            let tail = items_exports(prefix, items, i + 1)->Ok_0;
            assert(names =~= head + tail);
            assert forall|k: int| 0 <= k < names.len() implies under_prefix(#[trigger] names[k], prefix) by {
                if k < head.len() {
                    assert(names[k] == head[k]);
                } else {
                    assert(names[k] == tail[k - head.len()]);
                }
            }
        }
    }
}

proof fn lemma_item_under_prefix(prefix: Seq<char>, item: ModItem)
    ensures
        item_exports(prefix, item) matches Ok(names) ==> forall|k: int| 0 <= k < names.len() ==> under_prefix(#[trigger] names[k], prefix),
    decreases item, 0int,
{
    reveal_strlit("::");
    match item {
        ModItem::Fn { ident, attr, signature_ok } => {
            if let Some(meta) = attr {
                if let Ok(flags) = attr_meta_flags(meta) {
                    if !flags.is_default {
                        let seg = match flags.export_name { Some(n) => n@, None => ident@ };
                        let name = scoped(prefix, seg);
                        assert(name.take(prefix.len() + 2int) =~= prefix + "::"@);
                    }
                }
            }
        },
        ModItem::Mod { ident, attr, items } => {
            if let Some(meta) = attr {
                if let Ok(flags) = attr_meta_flags(meta) {
                    if let Some(v) = items {
                        let seg = match flags.export_name { Some(n) => n@, None => ident@ };
                        let inner = scoped(prefix, seg);
                        assert(decreases_to!(item => v@));
                        lemma_items_under_prefix(inner, v@, 0);
                        if let Ok(names) = item_exports(prefix, item) {
                            assert forall|k: int| 0 <= k < names.len() implies under_prefix(#[trigger] names[k], prefix) by {
                                lemma_scoped_under(prefix, seg, names[k]);
                            }
                        }
                    }
                }
            }
        },
        ModItem::Other => {},
    }
}

/// Every export registered inside an annotated module is the module's
/// prefix itself (a `default` function) or lies under `prefix::`, however
/// deeply nested modules are.
pub proof fn lemma_module_exports_under_prefix(prefix: Seq<char>, items: Seq<ModItem>)
    ensures
        items_exports(prefix, items, 0) matches Ok(names) ==> forall|k: int| 0 <= k < names.len() ==> under_prefix(#[trigger] names[k], prefix),
{
    lemma_items_under_prefix(prefix, items, 0);
}

} // verus!

verus! {

// ---------------------------------------------------------------------------
// Laws of nested modules
// ---------------------------------------------------------------------------

/// An annotated nested module with a `name = "n"` override registers its
/// items under `prefix::n`, not under its own identifier: every export it
/// yields lies under `scoped(prefix, n)`.
pub proof fn lemma_nested_override_exports(prefix: Seq<char>, ident: String, meta: AttrMeta, v: Vec<ModItem>, n: String)
    requires
        attr_meta_flags(meta) matches Ok(flags) && flags.export_name == Some(n),
    ensures
        item_exports(prefix, ModItem::Mod { ident, attr: Some(meta), items: Some(v) }) matches Ok(names)
            ==> forall|k: int| 0 <= k < names.len() ==> under_prefix(#[trigger] names[k], scoped(prefix, n@)),
{
    lemma_items_under_prefix(scoped(prefix, n@), v@, 0);
}

proof fn lemma_actions_fit_each(prefix: Seq<char>, items: Seq<ModItem>, actions: Seq<ItemAction>, i: int, k: int)
    requires
        0 <= i <= k < items.len(),
        actions_fit(prefix, items, actions, i),
    ensures
        action_fits(prefix, items[k], actions[k]),
    decreases k - i,
{
    if i < k {
        lemma_actions_fit_each(prefix, items, actions, i + 1, k);
    }
}

/// The rewrite of an annotated nested module with a `name = "n"` override
/// registers each function directly inside it under `prefix::n` (as
/// `prefix::n` itself for its default export, `prefix::n::...` otherwise).
pub proof fn lemma_nested_override_actions(
    prefix: Seq<char>,
    ident: String,
    meta: AttrMeta,
    v: Vec<ModItem>,
    n: String,
    action: ItemAction,
    k: int,
)
    requires
        attr_meta_flags(meta) matches Ok(flags) && flags.export_name == Some(n),
        action_fits(prefix, ModItem::Mod { ident, attr: Some(meta), items: Some(v) }, action),
    ensures
        action matches ItemAction::Recurse { actions } && (0 <= k < actions@.len()
            ==> (actions@[k] matches ItemAction::Register { export_name, .. }
                ==> under_prefix(export_name@, scoped(prefix, n@)))),
{
    reveal_strlit("::");
    let flags = attr_meta_flags(meta)->Ok_0;
    let inner = scoped(prefix, n@);
    let actions = action->Recurse_actions;
    if 0 <= k < actions@.len() {
        lemma_actions_fit_each(inner, v@, actions@, 0, k);
        if let ItemAction::Register { export_name, .. } = actions@[k] {
            if let ModItem::Fn { ident: fi, attr: Some(fm), signature_ok } = v@[k] {
                let ff = attr_meta_flags(fm)->Ok_0;
                if !ff.is_default {
                    let seg = match ff.export_name { Some(x) => x@, None => fi@ };
                    lemma_scoped_under(inner, seg, scoped(inner, seg));
                }
            }
        }
    }
}

/// A plain annotated function `f` inside an annotated nested module
/// overridden to `n` is exported exactly as `prefix::n::f`.
pub proof fn lemma_nested_override_fn(prefix: Seq<char>, ident: String, meta: AttrMeta, n: String, f: String, v: Vec<ModItem>)
    requires
        attr_meta_flags(meta) matches Ok(flags) && flags.export_name == Some(n) && !flags.is_default && !flags.is_init,
        v@ == seq![ModItem::Fn { ident: f, attr: Some(AttrMeta::Path), signature_ok: true }],
    ensures
        item_exports(prefix, ModItem::Mod { ident, attr: Some(meta), items: Some(v) })
            == Ok::<Seq<Seq<char>>, AttrError>(seq![scoped(scoped(prefix, n@), f@)]),
{
    reveal_strlit("::");
    reveal_strlit("default");
    let inner = scoped(prefix, n@);
    let name = scoped(inner, f@);
    assert(name[inner.len() as int] == ':');
    assert(name != "default"@) by {
        if name.len() == 7 {
            assert("default"@[inner.len() as int] != ':');
        }
    }
    let fl = attr_meta_flags(AttrMeta::Path)->Ok_0;
    assert(!fl.is_default && !fl.is_init && fl.export_name is None);
    assert(item_exports(inner, v@[0]) == Ok::<Seq<Seq<char>>, AttrError>(seq![name]));
    assert(items_exports(inner, v@, 1) == Ok::<Seq<Seq<char>>, AttrError>(Seq::empty()));
    assert(seq![name] + Seq::<Seq<char>>::empty() =~= seq![name]);
    assert(items_exports(inner, v@, 0) == Ok::<Seq<Seq<char>>, AttrError>(seq![name]));
}

} // verus!
