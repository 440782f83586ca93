use surreal_tooling::worker::{request_args_message, worker_step, WorkerEvent, WorkerState, WorkerStep};
use surreal_tooling::backend::Backend;
use surreal_tooling::worker::{
    expand_flagfiles, flagfile_lines, flagfile_path, is_backend_filtered, needs_versioned, result_file_contents,
    should_skip_request, should_skip_test, RequestArgs, RequestArgsError, TestConfig, TestDetails, TestEnv,
    WorkResponse, dispose_request, not_found_message, query_timeout_ms, Disposition, TestFacts,
};

fn args(v: &[&str]) -> Vec<String> {
    v.iter().map(|s| s.to_string()).collect()
}

#[test]
fn request_args_parse_all() {
    let a = RequestArgs::parse(&args(&[
        "--test-root", "/tests", "--backend", "rocksdb", "--unknown", "--test-file", "a/b.surql", "--result-file", "out.txt",
    ]))
    .unwrap();
    assert_eq!(a.backend, Backend::RocksDb);
    assert_eq!(a.test_root, "/tests");
    assert_eq!(a.test_file, "a/b.surql");
    assert_eq!(a.result_file, "out.txt");
}

#[test]
fn request_args_later_flag_wins_and_consumes_value() {
    let a = RequestArgs::parse(&args(&[
        "--backend", "mem", "--backend", "tikv", "--test-root", "--test-file", "--test-file", "f", "--result-file", "r",
    ]))
    .unwrap();
    assert_eq!(a.backend, Backend::TikV);
    assert_eq!(a.test_root, "--test-file");
    assert_eq!(a.test_file, "f");
}

#[test]
fn request_args_errors() {
    assert!(matches!(RequestArgs::parse(&args(&["--test-root", "x"])), Err(RequestArgsError::MissingBackend)));
    match RequestArgs::parse(&args(&["--backend", "mysql"])) {
        Err(RequestArgsError::InvalidBackend(name)) => assert_eq!(name, "mysql"),
        _ => panic!("expected an invalid backend"),
    }
    assert!(matches!(RequestArgs::parse(&args(&["--backend", "mem"])), Err(RequestArgsError::MissingTestRoot)));
    assert!(matches!(
        RequestArgs::parse(&args(&["--backend", "mem", "--test-root", "r"])),
        Err(RequestArgsError::MissingTestFile)
    ));
    assert!(matches!(
        RequestArgs::parse(&args(&["--backend", "mem", "--test-root", "r", "--test-file", "f"])),
        Err(RequestArgsError::MissingResultFile)
    ));
    assert!(matches!(
        RequestArgs::parse(&args(&["--test-root", "r", "--test-file", "f", "--result-file", "o", "--backend"])),
        Err(RequestArgsError::MissingBackend)
    ));
}

fn config(backends: &[&str], version: Option<&str>, upgrade: bool) -> TestConfig {
    TestConfig {
        env: Some(TestEnv { backend: args(backends), versioned: false, context_timeout_ms: None }),
        test: Some(TestDetails { version: version.map(|s| s.to_string()), importing_version: None, upgrade }),
    }
}

#[test]
fn backend_filtering() {
    assert!(!is_backend_filtered(&config(&[], None, false), Backend::TikV));
    assert!(!is_backend_filtered(&config(&["rocksdb", "surrealkv"], None, false), Backend::SurrealKv));
    assert!(is_backend_filtered(&config(&["rocksdb", "surrealkv"], None, false), Backend::Memory));
    assert!(!is_backend_filtered(&TestConfig { env: None, test: None }, Backend::Memory));
}

#[test]
fn version_skipping() {
    let plain = config(&[], None, false);
    assert!(!should_skip_test(&plain, &[], "3.0.0"));
    assert!(!should_skip_test(&config(&[], Some(">=2.0.0"), false), &[], "3.0.0"));
    assert!(should_skip_test(&config(&[], Some("<2.0.0"), false), &[], "3.0.0"));
    assert!(should_skip_test(&config(&[], None, true), &[], "3.0.0"));
    assert!(should_skip_test(&plain, &[config(&[], Some("^1"), false)], "3.0.0"));
    assert!(!should_skip_test(&plain, &[config(&[], Some("^3"), false)], "3.0.0"));
    let importing = TestConfig {
        env: None,
        test: Some(TestDetails { version: None, importing_version: Some(">=4".to_string()), upgrade: false }),
    };
    assert!(should_skip_test(&importing, &[], "3.0.0"));
    assert!(should_skip_request(false, true, &config(&["mem"], None, false), Backend::RocksDb, &[], "3.0.0"));
    assert!(should_skip_request(true, true, &plain, Backend::RocksDb, &[], "3.0.0"));
    assert!(should_skip_request(false, false, &plain, Backend::RocksDb, &[], "3.0.0"));
    assert!(!should_skip_request(false, true, &plain, Backend::RocksDb, &[], "3.0.0"));
}

#[test]
fn versioned_flag() {
    let mut c = config(&[], None, false);
    assert!(!needs_versioned(&c));
    c.env.as_mut().unwrap().versioned = true;
    assert!(needs_versioned(&c));
    assert!(!needs_versioned(&TestConfig { env: None, test: None }));
}

#[test]
fn result_files_and_responses() {
    assert_eq!(result_file_contents(true, ""), "PASS\n");
    assert_eq!(result_file_contents(false, "boom"), "FAIL\nboom");
    let done = WorkResponse::done(7);
    assert_eq!((done.exit_code, done.output.as_str(), done.request_id), (0, "", 7));
    let failed = WorkResponse::failed(8, "bad".to_string());
    assert_eq!((failed.exit_code, failed.output.as_str(), failed.request_id), (1, "bad", 8));
}

#[test]
fn flag_files() {
    assert_eq!(flagfile_lines("  --backend \r\n\n mem\n\t\n--x"), args(&["--backend", "mem", "--x"]));
    assert_eq!(flagfile_lines(""), Vec::<String>::new());
    assert_eq!(flagfile_path("@args.txt"), Some("args.txt".to_string()));
    assert_eq!(flagfile_path("--backend"), None);
    let expanded = expand_flagfiles(
        &args(&["--persistent", "@a", "@missing", "tail"]),
        &[None, Some("--backend\nmem\n".to_string()), None, Some("ignored".to_string())],
    );
    assert_eq!(expanded, args(&["--persistent", "--backend", "mem", "@missing", "tail"]));
}

fn facts(config: TestConfig, reusable_ds: bool) -> TestFacts {
    TestFacts { contains_error: false, should_run: true, reusable_ds, config, imports: Vec::new() }
}

#[test]
fn request_dispositions() {
    let req = RequestArgs {
        backend: Backend::SurrealKv,
        test_root: "tests".to_string(),
        test_file: "a/b.surql".to_string(),
        result_file: "out.txt".to_string(),
    };
    assert_eq!(not_found_message("x.surql", "root"), "test 'x.surql' not found in 'root'");
    match dispose_request(&req, None, "3.0.0") {
        Disposition::NotFound { message } => assert_eq!(message, "test 'a/b.surql' not found in 'tests'"),
        _ => panic!("expected a missing test"),
    }
    let skipped = facts(config(&["mem"], None, false), true);
    assert!(matches!(dispose_request(&req, Some(&skipped), "3.0.0"), Disposition::Skip));
    let mut versioned = config(&["surrealkv"], None, false);
    versioned.env.as_mut().unwrap().versioned = true;
    let run = facts(versioned, false);
    assert!(matches!(
        dispose_request(&req, Some(&run), "3.0.0"),
        Disposition::Run { reusable: false, versioned: true, timeout_ms: None }
    ));
    let pooled = facts(config(&[], Some(">=2"), false), true);
    assert!(matches!(
        dispose_request(&req, Some(&pooled), "3.0.0"),
        Disposition::Run { reusable: true, versioned: false, timeout_ms: None }
    ));
    let broken = TestFacts { contains_error: true, ..facts(config(&[], None, false), true) };
    assert!(matches!(dispose_request(&req, Some(&broken), "3.0.0"), Disposition::Skip));
}

#[test]
fn query_timeouts() {
    assert_eq!(query_timeout_ms(&None), Some(3000));
    let mut c = config(&[], None, false);
    assert_eq!(query_timeout_ms(&c.env), None);
    c.env.as_mut().unwrap().context_timeout_ms = Some(250);
    assert_eq!(query_timeout_ms(&c.env), Some(250));
    let req = RequestArgs {
        backend: Backend::Memory,
        test_root: "t".to_string(),
        test_file: "f".to_string(),
        result_file: "r".to_string(),
    };
    let bare = facts(TestConfig { env: None, test: None }, true);
    assert!(matches!(
        dispose_request(&req, Some(&bare), "3.0.0"),
        Disposition::Run { reusable: true, versioned: false, timeout_ms: Some(3000) }
    ));
    let timed = facts(c, false);
    assert!(matches!(
        dispose_request(&req, Some(&timed), "3.0.0"),
        Disposition::Run { reusable: false, versioned: false, timeout_ms: Some(250) }
    ));
}

fn request(root: &str, backend: &str) -> Vec<String> {
    args(&["--backend", backend, "--test-root", root, "--test-file", "t.surql", "--result-file", "r.txt"])
}

#[test]
fn worker_lifecycle() {
    let state = WorkerState { started: false, loaded: Vec::new(), current: None };

    // A refused request is answered with its message.
    let (state, step) = worker_step(state, WorkerEvent::Arrived { request_id: 1, args: RequestArgs::parse(&args(&["--backend", "mem"])) });
    match step {
        WorkerStep::Reply(r) => assert_eq!((r.exit_code, r.output.as_str(), r.request_id), (1, "missing --test-root argument", 1)),
        _ => panic!("expected a reply"),
    }
    assert_eq!(request_args_message(&RequestArgsError::MissingBackend), "missing --backend argument");

    // The first request starts the service, then loads its root, then finds its test.
    let (state, step) = worker_step(state, WorkerEvent::Arrived { request_id: 2, args: RequestArgs::parse(&request("a", "rocksdb")) });
    assert!(matches!(step, WorkerStep::StartService(Backend::RocksDb)));
    let (state, step) = worker_step(state, WorkerEvent::Started);
    assert!(matches!(&step, WorkerStep::LoadTests(root) if root == "a"));
    let (state, step) = worker_step(state, WorkerEvent::TestsLoaded);
    assert!(matches!(step, WorkerStep::FindTest));
    assert!(state.started);
    assert_eq!(state.loaded, vec!["a".to_string()]);

    // A later request with another backend and the same root goes straight to the lookup.
    let (state, step) = worker_step(state, WorkerEvent::Arrived { request_id: 3, args: RequestArgs::parse(&request("a", "mem")) });
    assert!(matches!(step, WorkerStep::FindTest));

    // A new root is loaded; a failed load answers the request.
    let (state, step) = worker_step(state, WorkerEvent::Arrived { request_id: 4, args: RequestArgs::parse(&request("b", "mem")) });
    assert!(matches!(&step, WorkerStep::LoadTests(root) if root == "b"));
    let (state, step) = worker_step(state, WorkerEvent::TestsFailed("boom".to_string()));
    match step {
        WorkerStep::Reply(r) => assert_eq!((r.exit_code, r.output.as_str(), r.request_id), (1, "failed to load tests from 'b': boom", 4)),
        _ => panic!("expected a reply"),
    }
    assert_eq!(state.loaded, vec!["a".to_string()]);

    // Failures to start.
    let fresh = WorkerState { started: false, loaded: Vec::new(), current: None };
    let (fresh, _) = worker_step(fresh, WorkerEvent::Arrived { request_id: 5, args: RequestArgs::parse(&request("a", "tikv")) });
    let (fresh, step) = worker_step(fresh, WorkerEvent::ServiceFailed("no tiup".to_string()));
    match step {
        WorkerStep::Reply(r) => assert_eq!(r.output, "failed to start backend service: no tiup"),
        _ => panic!("expected a reply"),
    }
    assert!(!fresh.started);
    let (fresh, _) = worker_step(fresh, WorkerEvent::Arrived { request_id: 6, args: RequestArgs::parse(&request("a", "mem")) });
    let (fresh, step) = worker_step(fresh, WorkerEvent::ProvisionerFailed("full".to_string()));
    match step {
        WorkerStep::StopServiceAndReply(r) => assert_eq!((r.output.as_str(), r.request_id), ("failed to create provisioner: full", 6)),
        _ => panic!("expected a stop and reply"),
    }
    let (fresh, step) = worker_step(fresh, WorkerEvent::Started);
    assert!(matches!(step, WorkerStep::Wait));
    assert!(fresh.started);
    let (_, step) = worker_step(fresh, WorkerEvent::InputClosed);
    assert!(matches!(step, WorkerStep::ShutDown));
    let idle = WorkerState { started: false, loaded: Vec::new(), current: None };
    let (_, step) = worker_step(idle, WorkerEvent::InputClosed);
    assert!(matches!(step, WorkerStep::Wait));
}
