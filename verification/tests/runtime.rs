use surreal_tooling::backend::{
    playground_step, service_kind, tiup_home_name, tiup_in_home, tiup_in_runfiles, Backend, BackendService,
    PlaygroundStep, ServiceKind,
};
use surreal_tooling::errors::{prefix_err, SurrealismError};
use surreal_tooling::gc::{gc_threshold_ts, gc_tick, gc_watermark, GcAction};
use surreal_tooling::logging::{
    file_layer_settings, otlp_tracing_enabled, output_layer_settings, passes, str_eq_ignore_ascii_case,
    CustomFilterParser, Level, LevelFilter, LogFormat, SpanFilter, console_stream, ConsoleStream,
};
use surreal_tooling::provision::{permit_cleanup, Cleanup, CreateInfo, PermitError, PermitSource, Pool};
use surreal_tooling::rng::{seed_from_time, temp_dir_name, xorshift};

#[test]
fn xorshift_sequence() {
    let mut state = 1u32;
    assert_eq!(xorshift(&mut state), 270369);
    assert_eq!(state, 270369);
    assert_eq!(xorshift(&mut state), 67634689);
    assert_eq!(xorshift(&mut state), 2647435461);
    let mut zero = 0u32;
    assert_eq!(xorshift(&mut zero), 0);
}

#[test]
fn seeds_and_directory_names() {
    assert_eq!(seed_from_time(1_700_000_000, 123_456_789), 1644706837);
    assert_eq!(seed_from_time(1u64 << 32, 0), 1);
    assert_eq!(temp_dir_name(270369), "surreal_lang_tests_270369");
    assert_eq!(temp_dir_name(0), "surreal_lang_tests_0");
    assert_eq!(tiup_home_name(4242), "surreal_tiup_home_4242");
}

#[test]
fn backends_and_services() {
    assert_eq!(Backend::from_arg("surrealkv"), Ok(Backend::SurrealKv));
    assert_eq!(Backend::from_arg("memory"), Err("memory".to_string()));
    for b in [Backend::Memory, Backend::RocksDb, Backend::SurrealKv, Backend::TikV] {
        assert_eq!(Backend::from_arg(&b.to_string()), Ok(b));
    }
    assert_eq!(service_kind(Backend::RocksDb), ServiceKind::FileStore);
    assert_eq!(service_kind(Backend::TikV), ServiceKind::TikV);
    assert_eq!(service_kind(Backend::Memory), ServiceKind::Memory);
    let fs = BackendService::FileStore { dir: "/tmp/x".to_string() };
    assert_eq!(fs.base_dir().map(|s| s.as_str()), Some("/tmp/x"));
    assert!(BackendService::Memory.base_dir().is_none());
    let tikv = BackendService::TikV { tiup: "t".to_string(), tiup_home: "h".to_string() };
    assert!(tikv.base_dir().is_none());
}

#[test]
fn tiup_locations() {
    assert_eq!(tiup_in_runfiles("/r"), vec!["/r/+tiup_repo+tiup/tiup".to_string(), "/r/tiup/tiup".to_string()]);
    assert_eq!(tiup_in_home("/home/me/"), "/home/me/.tiup/bin/tiup");
    assert_eq!(playground_step(1, true), PlaygroundStep::Ready);
    assert_eq!(playground_step(4, false), PlaygroundStep::Retry { next: 5 });
    assert_eq!(playground_step(5, false), PlaygroundStep::GiveUp);
}

#[test]
fn datastore_plans() {
    let mut info = CreateInfo::new(Backend::SurrealKv, Some("/data"));
    let p = info.datastore_plan(true);
    assert_eq!(p.url, "surrealkv:///data/store_0?versioned=true");
    assert_eq!(p.path.as_deref(), Some("/data/store_0"));
    assert!(!p.clear_all);
    let p = info.datastore_plan(false);
    assert_eq!(p.url, "surrealkv:///data/store_1");
    let mut rocks = CreateInfo::new(Backend::RocksDb, Some("/d/"));
    let p = rocks.datastore_plan(true);
    assert_eq!(p.url, "rocksdb:///d/store_0");
    assert_eq!(rocks.produce_path(), "/d/store_1");
    let mut mem = CreateInfo::new(Backend::Memory, None);
    let p = mem.datastore_plan(true);
    assert_eq!(p.url, "mem://?versioned=true");
    assert!(p.path.is_none());
    assert_eq!(mem.datastore_plan(false).url, "mem://");
    let mut tikv = CreateInfo::new(Backend::TikV, None);
    let p = tikv.datastore_plan(false);
    assert_eq!(p.url, "tikv://127.0.0.1:2379");
    assert!(p.clear_all);
    assert_eq!(tikv.next_id, 0);
}

#[test]
fn pool_bookkeeping() {
    let mut pool = Pool::new(2);
    assert!(pool.has_room());
    pool.stock();
    pool.stock();
    assert!(!pool.has_room());
    pool.obtain();
    pool.obtain();
    assert_eq!((pool.available, pool.lent), (0, 2));
    pool.give_back();
    pool.forfeit();
    assert_eq!((pool.available, pool.lent), (1, 0));
    assert!(pool.has_room());
    assert_eq!(pool.drain(), 1);
    assert_eq!(pool.available, 0);
}

#[test]
fn permit_cleanups() {
    assert_eq!(permit_cleanup(&PermitSource::Reuse, false), Cleanup::ReturnToPool);
    assert_eq!(permit_cleanup(&PermitSource::Reuse, true), Cleanup::ReplaceInPool);
    assert_eq!(permit_cleanup(&PermitSource::Create { owns_dir: true }, true), Cleanup::ShutdownAndRemoveDir);
    assert_eq!(permit_cleanup(&PermitSource::Create { owns_dir: false }, false), Cleanup::Drop);
    let e = PermitError::Panic("boom".to_string());
    assert!(matches!(e, PermitError::Panic(m) if m == "boom"));
    let e = PermitError::Other(anyhow::Error::msg("failed"));
    assert!(matches!(e, PermitError::Other(_)));
}

#[test]
fn gc_watermarks() {
    let now = 1_700_000_000_000u64;
    let retention = 3_600_000_000_000u64;
    assert_eq!(gc_threshold_ts(now, retention), 111410964070400000);
    assert_eq!(gc_watermark(now, retention), [0, 0, 128, 121, 174, 207, 139, 1]);
    assert_eq!(gc_threshold_ts(5, retention), 0);
    assert!(gc_threshold_ts(now, retention) < gc_threshold_ts(now + 60_000, retention));
    assert!(gc_threshold_ts(1, retention) <= gc_threshold_ts(2, retention));
    assert!(matches!(gc_tick(true, now, retention), GcAction::Stop));
    match gc_tick(false, now, retention) {
        GcAction::Advance(b) => assert_eq!(u64::from_le_bytes(b), 111410964070400000),
        GcAction::Stop => panic!("expected an advance"),
    }
}

#[test]
fn span_filters() {
    let f = SpanFilter::new(vec![
        ("db".to_string(), LevelFilter::Info),
        ("query".to_string(), LevelFilter::Trace),
        ("db".to_string(), LevelFilter::Warn),
    ]);
    assert!(!f.enabled("db", Level::Info, &[]));
    assert!(f.enabled("db", Level::Error, &[]));
    assert!(f.enabled("event", Level::Trace, &["query".to_string(), "db".to_string()]));
    assert!(!f.enabled("event", Level::Info, &["other".to_string(), "db".to_string()]));
    assert!(f.enabled("event", Level::Trace, &["other".to_string()]));
    assert!(SpanFilter::new(vec![]).enabled("x", Level::Trace, &[]));
    assert!(!passes(Level::Error, LevelFilter::Off));
    assert!(passes(Level::Trace, LevelFilter::Trace));
    assert!(!passes(Level::Debug, LevelFilter::Info));
}

#[test]
fn log_options_and_layers() {
    let values = CustomFilterParser::new().possible_values();
    assert_eq!(values, vec!["none", "full", "error", "warn", "info", "debug", "trace"]);
    let file = file_layer_settings(LogFormat::Json);
    assert!(file.json && !file.ansi && !file.file && file.target && !file.line_number);
    let out = output_layer_settings(LogFormat::Text, true);
    assert!(!out.json && out.ansi && out.file && out.line_number && !out.thread_ids);
    let out = output_layer_settings(LogFormat::Text, false);
    assert!(!out.file && !out.line_number);
    assert_eq!(console_stream(Level::Error), ConsoleStream::Stderr);
    assert_eq!(console_stream(Level::Warn), ConsoleStream::Stderr);
    assert_eq!(console_stream(Level::Info), ConsoleStream::Stdout);
    assert_eq!(console_stream(Level::Debug), ConsoleStream::Stdout);
    assert_eq!(console_stream(Level::Trace), ConsoleStream::Stdout);
}

#[test]
fn telemetry_switch() {
    assert!(otlp_tracing_enabled("  OTLP \n", false));
    assert!(otlp_tracing_enabled("otlp", false));
    assert!(!otlp_tracing_enabled("otlp", true));
    assert!(!otlp_tracing_enabled("jaeger", false));
    assert!(!otlp_tracing_enabled("", false));
    assert!(str_eq_ignore_ascii_case("OtLp", "oTlP"));
    assert!(!str_eq_ignore_ascii_case("otlp", "otl"));
}

#[test]
fn prefixed_errors() {
    match prefix_err::<u8>(Err("bad toml".to_string()), "Failed to parse Surrealism config") {
        Err(SurrealismError::Other(m)) => assert_eq!(m, "Failed to parse Surrealism config: bad toml"),
        _ => panic!("expected a prefixed error"),
    }
    assert!(matches!(prefix_err(Ok::<u8, String>(3), "x"), Ok(3)));
}
