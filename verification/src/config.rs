//! The configuration of a Surrealism package and the summary the `module
//! info` command prints for it.

use vstd::prelude::*;
use vstd::string::*;
use crate::text::{owned, push_char, push_decimal, decimal};
use crate::exports::{FunctionExport, args_shown, returns_shown};

verus! {

/// Which WASM ABI the plugin targets.
#[derive(Clone, Copy, Debug, PartialEq, Eq, Structural)]
pub enum AbiVersion {
    /// WASI Preview 1 (core module with linear memory ABI).
    P1,
    /// WASI Preview 2 (component model).
    P2,
}

impl Default for AbiVersion {
    /// Plugins target the component model unless they say otherwise.
    fn default() -> (r: AbiVersion)
        ensures
            r == AbiVersion::P2,
    {
        AbiVersion::P2
    }
}

/// What is attached to the WASM module.
pub struct SurrealismAttach {
    /// Path to a directory whose contents are bundled into the archive and
    /// mounted as a read-only filesystem for the WASM module. Can be
    /// relative (resolved against the project root at build time) or
    /// absolute.
    pub fs: Option<String>,
}

impl Default for SurrealismAttach {
    /// Nothing attached.
    fn default() -> (r: SurrealismAttach)
        ensures
            r.fs is None,
    {
        SurrealismAttach { fs: None }
    }
}

/// A semantic version: `major.minor.patch`, with optional pre-release and
/// build identifiers (empty when absent).
pub struct SemVersion {
    pub major: u64,
    pub minor: u64,
    pub patch: u64,
    pub pre: String,
    pub build: String,
}

/// How a version is written: `major.minor.patch`, then `-pre` and `+build`
/// when they are present.
pub open spec fn version_text(v: SemVersion) -> Seq<char> {
    decimal(v.major as nat) + "."@ + decimal(v.minor as nat) + "."@ + decimal(v.patch as nat)
        + (if v.pre@.len() > 0 { "-"@ + v.pre@ } else { Seq::empty() })
        + (if v.build@.len() > 0 { "+"@ + v.build@ } else { Seq::empty() })
}

/// Appends how a version is written to `out`.
pub fn push_version(out: &mut String, v: &SemVersion)
    ensures
        final(out)@ == old(out)@ + version_text(*v),
{
    let ghost start = out@;
    push_decimal(out, v.major);
    out.append(".");
    push_decimal(out, v.minor);
    out.append(".");
    push_decimal(out, v.patch);
    if v.pre.as_str().unicode_len() > 0 {
        out.append("-");
        out.append(v.pre.as_str());
    }
    if v.build.as_str().unicode_len() > 0 {
        out.append("+");
        out.append(v.build.as_str());
    }
    assert(out@ =~= start + version_text(*v));
}

/// The identity of a package.
pub struct SurrealismMeta {
    pub organisation: String,
    pub name: String,
    pub version: SemVersion,
}

/// The capabilities a package asks for, as the runtime reads them: the
/// network allow-list handed to its WASI context (entries as `net` parses
/// them). The default asks for none.
pub struct SurrealismCapabilities {
    pub allow_net: Vec<String>,
}

impl Default for SurrealismCapabilities {
    fn default() -> (r: SurrealismCapabilities)
        ensures
            r.allow_net@.len() == 0,
    {
        SurrealismCapabilities { allow_net: Vec::new() }
    }
}

/// The configuration of a Surrealism package.
pub struct SurrealismConfig {
    pub meta: SurrealismMeta,
    pub capabilities: SurrealismCapabilities,
    pub abi: AbiVersion,
    pub attach: SurrealismAttach,
}

/// The archive name of a package: `{organisation}-{name}-{version}.surli`.
pub open spec fn package_file_name(meta: SurrealismMeta) -> Seq<char> {
    meta.organisation@ + "-"@ + meta.name@ + "-"@ + version_text(meta.version) + ".surli"@
}

impl SurrealismConfig {
    /// The file name of the package archive.
    pub fn file_name(&self) -> (r: String)
        ensures
            r@ == package_file_name(self.meta),
    {
        let mut out = self.meta.organisation.clone();
        out.append("-");
        out.append(self.meta.name.as_str());
        out.append("-");
        push_version(&mut out, &self.meta.version);
        out.append(".surli");
        out
    }
}

// ---------------------------------------------------------------------------
// The `module info` summary
// ---------------------------------------------------------------------------

/// The heading of the summary: `Info for @{organisation}/{name}@{version}`.
pub open spec fn info_title_text(meta: SurrealismMeta) -> Seq<char> {
    "Info for @"@ + meta.organisation@ + "/"@ + meta.name@ + "@"@ + version_text(meta.version)
}

/// Builds the heading of the summary.
pub fn info_title(meta: &SurrealismMeta) -> (r: String)
    ensures
        r@ == info_title_text(*meta),
{
    let mut out = owned("Info for @");
    out.append(meta.organisation.as_str());
    out.append("/");
    out.append(meta.name.as_str());
    out.append("@");
    push_version(&mut out, &meta.version);
    out
}

/// The rule under the heading: `=` repeated for the heading's length in
/// bytes plus two.
pub fn title_rule(title: &str) -> (r: String)
    requires
        title.spec_bytes().len() + 2 <= usize::MAX,
    ensures
        r@ == Seq::new((title.spec_bytes().len() + 2) as nat, |_i: int| '='),
{
    let n = title.len() + 2;
    let mut out = String::new();
    let mut i: usize = 0;
    while i < n
        invariant
            i <= n,
            out@ == Seq::new(i as nat, |_i: int| '='),
        decreases n - i,
    {
        push_char(&mut out, '=');
        i += 1;
        assert(out@ =~= Seq::new(i as nat, |_i: int| '='));
    }
    out
}

/// How an export is named in the summary: `<mod>` for the default export,
/// `<mod>::{name}` otherwise.
pub open spec fn export_label(name: Option<String>) -> Seq<char> {
    match name {
        None => "<mod>"@,
        Some(n) => "<mod>::"@ + n@,
    }
}

/// One line of the summary: `- {label}({args}) -> {returns} [{mode}]`,
/// where the mode is `writeable` or `readonly`.
pub open spec fn export_line_text(f: FunctionExport) -> Seq<char> {
    "- "@ + export_label(f.name) + "("@ + args_shown(f) + ") -> "@ + returns_shown(f) + " ["@
        + (if f.writeable { "writeable"@ } else { "readonly"@ }) + "]"@
}

/// Builds the summary line of one export.
pub fn export_line(f: &FunctionExport) -> (r: String)
    ensures
        r@ == export_line_text(*f),
{
    let mut out = owned("- ");
    match &f.name {
        None => out.append("<mod>"),
        Some(n) => {
            out.append("<mod>::");
            out.append(n.as_str());
        },
    }
    out.append("(");
    let args = f.args_display();
    out.append(args.as_str());
    out.append(") -> ");
    let ret = f.returns_display();
    out.append(ret.as_str());
    out.append(" [");
    if f.writeable {
        out.append("writeable");
    } else {
        out.append("readonly");
    }
    out.append("]");
    out
}

} // verus!
