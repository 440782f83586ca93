use surreal_tooling::exports::{ExportsManifest, FunctionExport, Kind, encode_kind_blob, decode_kind_blob};
use surreal_tooling::hexcode::HexError;
use surreal_tooling::config::{export_line, info_title, title_rule, SemVersion, SurrealismMeta, SurrealismConfig, AbiVersion, SurrealismAttach, SurrealismCapabilities};

fn export(name: Option<&str>, args: Vec<Kind>, returns: Kind) -> FunctionExport {
    FunctionExport {
        name: name.map(|s| s.to_string()),
        args,
        returns,
        args_text: None,
        returns_text: None,
        writeable: false,
    }
}

#[test]
fn get_signature_default() {
    let manifest = ExportsManifest { functions: vec![export(None, vec![Kind::Int], Kind::Bool)] };
    assert!(manifest.get_signature(None).is_some());
    assert!(manifest.get_signature(Some("nonexistent")).is_none());
}

#[test]
fn hex_roundtrip() {
    let bytes = vec![0x0c, 0x00, 0xff, 0xab];
    let encoded = encode_kind_blob(&bytes);
    assert_eq!(encoded, "0c00ffab");
    let decoded = decode_kind_blob(&encoded).unwrap();
    assert_eq!(bytes, decoded);
}

#[test]
fn get_signature_finds_named_and_first() {
    let mut first = export(Some("foo::bar"), vec![Kind::String], Kind::Object);
    first.writeable = true;
    let second = export(Some("foo::bar"), vec![], Kind::Null);
    let manifest = ExportsManifest { functions: vec![export(None, vec![], Kind::Any), first, second] };
    let found = manifest.get_signature(Some("foo::bar")).unwrap();
    assert!(found.writeable);
    assert!(manifest.get_signature(Some("foo")).is_none());
    assert!(ExportsManifest::empty().get_signature(None).is_none());
}

#[test]
fn args_and_returns_display() {
    let f = export(
        Some("foo::bar"),
        vec![Kind::String, Kind::Array(Box::new(Kind::String), None), Kind::Array(Box::new(Kind::Int), Some(10))],
        Kind::Option(Box::new(Kind::Object)),
    );
    assert_eq!(f.args_display(), "string, array<string>, array<int, 10>");
    assert_eq!(f.returns_display(), "option<object>");
    let mut g = export(None, vec![Kind::Int], Kind::Bool);
    g.args_text = Some(vec!["int".to_string(), "Vec<String>".to_string()]);
    g.returns_text = Some("bool".to_string());
    assert_eq!(g.args_display(), "int, Vec<String>");
    assert_eq!(g.returns_display(), "bool");
    assert_eq!(export(None, vec![], Kind::Bool).args_display(), "");
}

#[test]
fn hex_decode_errors() {
    assert_eq!(decode_kind_blob("123"), Err(HexError::OddLength));
    assert_eq!(decode_kind_blob("0g12"), Err(HexError::InvalidHexCharacter { c: 'g', index: 1 }));
    assert_eq!(decode_kind_blob("ABcd").unwrap(), vec![0xab, 0xcd]);
    assert_eq!(encode_kind_blob(&[1, 2, 3, 15, 16]), "0102030f10");
}

#[test]
fn kind_blob_roundtrip() {
    let bytes = vec![1u8, 200, 0, 77];
    let text = encode_kind_blob(&bytes);
    assert_eq!(text, "01c8004d");
    assert_eq!(decode_kind_blob(&text).unwrap(), bytes);
    assert!(decode_kind_blob("zz").is_err());
}

fn meta() -> SurrealismMeta {
    SurrealismMeta {
        organisation: "acme".to_string(),
        name: "demo".to_string(),
        version: SemVersion { major: 1, minor: 2, patch: 3, pre: String::new(), build: String::new() },
    }
}

#[test]
fn package_file_name_and_version() {
    let config = SurrealismConfig {
        meta: meta(),
        capabilities: SurrealismCapabilities::default(),
        abi: AbiVersion::default(),
        attach: SurrealismAttach::default(),
    };
    assert!(config.capabilities.allow_net.is_empty());
    assert_eq!(config.file_name(), "acme-demo-1.2.3.surli");
    assert_eq!(config.abi, AbiVersion::P2);
    assert!(config.attach.fs.is_none());
    let mut m = meta();
    m.version = SemVersion { major: 0, minor: 10, patch: 0, pre: "beta.1".to_string(), build: "build5".to_string() };
    let config = SurrealismConfig {
        meta: m,
        capabilities: SurrealismCapabilities { allow_net: vec!["10.0.0.0/8".to_string()] },
        abi: AbiVersion::P1,
        attach: SurrealismAttach { fs: Some("assets".to_string()) },
    };
    assert_eq!(config.file_name(), "acme-demo-0.10.0-beta.1+build5.surli");
}

#[test]
fn info_summary_lines() {
    let title = info_title(&meta());
    assert_eq!(title, "Info for @acme/demo@1.2.3");
    assert_eq!(title_rule(&title), "=".repeat(title.len() + 2));
    let mut f = export(Some("math::add"), vec![Kind::Int, Kind::Int], Kind::Int);
    assert_eq!(export_line(&f), "- <mod>::math::add(int, int) -> int [readonly]");
    f.name = None;
    f.writeable = true;
    assert_eq!(export_line(&f), "- <mod>(int, int) -> int [writeable]");
}
