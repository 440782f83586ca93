//! Decisions of the persistent test worker: request arguments, test
//! filtering, result files and worker responses.

use vstd::prelude::*;
use vstd::string::*;
use crate::backend::{Backend, backend_from_name, backend_name};
use crate::text::{str_eq, owned, trim, trim_str, string_views};

verus! {

/// The four values a work request carries.
pub struct RequestArgs {
    pub backend: Backend,
    pub test_root: String,
    pub test_file: String,
    pub result_file: String,
}

/// Why the arguments of a work request were refused.
#[derive(Debug)]
pub enum RequestArgsError {
    MissingBackend,
    InvalidBackend(String),
    MissingTestRoot,
    MissingTestFile,
    MissingResultFile,
}

/// The flag values seen so far while scanning the arguments.
pub struct ArgSlots {
    pub backend: Option<String>,
    pub test_root: Option<String>,
    pub test_file: Option<String>,
    pub result_file: Option<String>,
}

/// The value that follows position `i`, if there is one.
pub open spec fn next_value(args: Seq<String>, i: int) -> Option<String> {
    if i + 1 < args.len() {
        Some(args[i + 1])
    } else {
        None
    }
}

/// Scans `args` from position `i`. A recognised flag takes the argument that
/// follows it as its value (or no value at the end of the list), and that
/// argument is consumed with it; any other argument is skipped. A later
/// occurrence of a flag replaces the earlier value.
pub open spec fn scan_args(args: Seq<String>, i: int, st: ArgSlots) -> ArgSlots
    decreases args.len() + 1 - i,
{
    if i < 0 || i >= args.len() {
        st
    } else if args[i]@ == "--backend"@ {
        scan_args(args, i + 2, ArgSlots { backend: next_value(args, i), ..st })
    } else if args[i]@ == "--test-root"@ {
        scan_args(args, i + 2, ArgSlots { test_root: next_value(args, i), ..st })
    } else if args[i]@ == "--test-file"@ {
        scan_args(args, i + 2, ArgSlots { test_file: next_value(args, i), ..st })
    } else if args[i]@ == "--result-file"@ {
        scan_args(args, i + 2, ArgSlots { result_file: next_value(args, i), ..st })
    } else {
        scan_args(args, i + 1, st)
    }
}

/// The flag values of a whole argument list.
pub open spec fn arg_slots(args: Seq<String>) -> ArgSlots {
    scan_args(args, 0, ArgSlots { backend: None, test_root: None, test_file: None, result_file: None })
}

proof fn lemma_scan_end(args: Seq<String>, i: int, st: ArgSlots)
    requires
        i >= args.len(),
    ensures
        scan_args(args, i, st) == st,
{
}

impl RequestArgs {
    /// Reads `--backend`, `--test-root`, `--test-file` and `--result-file`
    /// from a work request's arguments. The backend is checked first, then
    /// its name, then the three paths in that order.
    pub fn parse(args: &[String]) -> (r: Result<RequestArgs, RequestArgsError>)
        ensures
            ({
                let st = arg_slots(args@);
                match r {
                    Ok(a) => {
                        &&& st.backend matches Some(b) && backend_from_name(b@) == Some(a.backend)
                        &&& st.test_root == Some(a.test_root)
                        &&& st.test_file == Some(a.test_file)
                        &&& st.result_file == Some(a.result_file)
                    },
                    Err(RequestArgsError::MissingBackend) => st.backend is None,
                    Err(RequestArgsError::InvalidBackend(name)) => {
                        &&& st.backend matches Some(b) && b@ == name@
                        &&& backend_from_name(name@) is None
                    },
                    Err(RequestArgsError::MissingTestRoot) => {
                        &&& st.backend matches Some(b) && backend_from_name(b@) is Some
                        &&& st.test_root is None
                    },
                    Err(RequestArgsError::MissingTestFile) => {
                        &&& st.backend matches Some(b) && backend_from_name(b@) is Some
                        &&& st.test_root is Some
                        &&& st.test_file is None
                    },
                    Err(RequestArgsError::MissingResultFile) => {
                        &&& st.backend matches Some(b) && backend_from_name(b@) is Some
                        &&& st.test_root is Some
                        &&& st.test_file is Some
                        &&& st.result_file is None
                    },
                }
            }),
    {
        let ghost init = ArgSlots { backend: None, test_root: None, test_file: None, result_file: None };
        let mut backend: Option<String> = None;
        let mut test_root: Option<String> = None;
        let mut test_file: Option<String> = None;
        let mut result_file: Option<String> = None;
        let n = args.len();
        let mut i: usize = 0;
        while i < n
            invariant
                n == args@.len(),
                i <= n,
                scan_args(args@, 0, init) == scan_args(
                    args@,
                    i as int,
                    ArgSlots { backend, test_root, test_file, result_file },
                ),
            decreases n - i,
        {
            let arg = args[i].as_str();
            let value: Option<String> = if i + 1 < n { Some(args[i + 1].clone()) } else { None };
            let step: usize = if i + 1 < n { 2 } else { 1 };
            let ghost i0 = i as int;
            if str_eq(arg, "--backend") {
                backend = value;
                i += step;
            } else if str_eq(arg, "--test-root") {
                test_root = value;
                i += step;
            } else if str_eq(arg, "--test-file") {
                test_file = value;
                i += step;
            } else if str_eq(arg, "--result-file") {
                result_file = value;
                i += step;
            } else {
                i += 1;
            }
            proof {
                let st = ArgSlots { backend, test_root, test_file, result_file };
                if i0 + 1 >= n {
                    lemma_scan_end(args@, i0 + 2, st);
                    lemma_scan_end(args@, i0 + 1, st);
                }
            }
        }
        let backend = match backend {
            None => return Err(RequestArgsError::MissingBackend),
            Some(name) => match Backend::from_arg(name.as_str()) {
                Ok(b) => b,
                Err(e) => return Err(RequestArgsError::InvalidBackend(e)),
            },
        };
        let test_root = match test_root {
            None => return Err(RequestArgsError::MissingTestRoot),
            Some(v) => v,
        };
        let test_file = match test_file {
            None => return Err(RequestArgsError::MissingTestFile),
            Some(v) => v,
        };
        let result_file = match result_file {
            None => return Err(RequestArgsError::MissingResultFile),
            Some(v) => v,
        };
        Ok(RequestArgs { backend, test_root, test_file, result_file })
    }
}

} // verus!

verus! {

// ---------------------------------------------------------------------------
// Test filtering
// ---------------------------------------------------------------------------

/// The `[env]` table of a test's configuration, as far as the worker reads it.
pub struct TestEnv {
    /// The backends the test may run on; empty for all.
    pub backend: Vec<String>,
    /// Whether the test needs a versioned datastore.
    pub versioned: bool,
    /// The context timeout, in milliseconds, that the environment sets for
    /// the backend the worker runs on; `None` when it sets none.
    pub context_timeout_ms: Option<u64>,
}

/// The `[test]` table of a test's configuration, as far as the worker reads it.
pub struct TestDetails {
    /// The version requirement of the database the test applies to.
    pub version: Option<String>,
    /// The version requirement when the test is imported.
    pub importing_version: Option<String>,
    /// Whether the test exercises an upgrade.
    pub upgrade: bool,
}

/// A test's configuration, as far as the worker reads it.
pub struct TestConfig {
    pub env: Option<TestEnv>,
    pub test: Option<TestDetails>,
}

/// A test is filtered out for a backend when its configuration lists
/// backends and the backend's name is not among them.
pub open spec fn backend_filtered(config: TestConfig, backend: Backend) -> bool {
    match config.env {
        Some(env) => env.backend@.len() > 0 && !(exists|i: int| 0 <= i < env.backend@.len() && (#[trigger] env.backend@[i])@ == backend_name(backend)),
        None => false,
    }
}

/// Whether a test's configuration excludes the given backend.
pub fn is_backend_filtered(config: &TestConfig, backend: Backend) -> (r: bool)
    ensures
        r == backend_filtered(*config, backend),
{
    match &config.env {
        Some(env) => {
            let name = backend.to_string();
            let n = env.backend.len();
            if n == 0 {
                return false;
            }
            let mut i: usize = 0;
            while i < n
                invariant
                    n == env.backend@.len(),
                    i <= n,
                    name@ == backend_name(backend),
                    config.env == Some(*env),
                    forall|j: int| 0 <= j < i ==> (#[trigger] env.backend@[j])@ != name@,
                decreases n - i,
            {
                if str_eq(env.backend[i].as_str(), name.as_str()) {
                    assert(env.backend@[i as int]@ == backend_name(backend));
                    assert(exists|j: int| 0 <= j < env.backend@.len() && (#[trigger] env.backend@[j])@ == backend_name(backend));
                    return false;
                }
                i += 1;
            }
            true
        },
        None => false,
    }
}

/// Whether the semver requirement `req` matches `version`; `None` when
/// either text is not valid semver.
pub uninterp spec fn semver_matches(req: Seq<char>, version: Seq<char>) -> Option<bool>;

/// Parses `req` with `semver::VersionReq::parse` and `version` with
/// `semver::Version::parse`, then asks `VersionReq::matches`.
#[verifier::external_body]
fn version_matches(req: &str, version: &str) -> (r: Option<bool>)
    ensures
        r == semver_matches(req@, version@),
{
    match (semver::VersionReq::parse(req), semver::Version::parse(version)) {
        (Ok(q), Ok(v)) => Some(q.matches(&v)),
        _ => None,
    }
}

/// A version requirement excludes the running version unless it matches it.
pub open spec fn requirement_excludes(req: Option<String>, version: Seq<char>) -> bool {
    match req {
        Some(r) => semver_matches(r@, version) != Some(true),
        None => false,
    }
}

fn excludes(req: &Option<String>, version: &str) -> (r: bool)
    ensures
        r == requirement_excludes(*req, version@),
{
    match req {
        Some(q) => match version_matches(q.as_str(), version) {
            Some(true) => false,
            _ => true,
        },
        None => false,
    }
}

/// The `version` requirement of a configuration, if it has one.
pub open spec fn version_req(config: TestConfig) -> Option<String> {
    match config.test {
        Some(t) => t.version,
        None => None,
    }
}

/// A test is skipped when its version requirement or its importing-version
/// requirement excludes the running version, when the version requirement
/// of a test it imports does, or when it is an upgrade test.
pub open spec fn test_skipped(config: TestConfig, imports: Seq<TestConfig>, version: Seq<char>) -> bool {
    ||| requirement_excludes(version_req(config), version)
    ||| (config.test matches Some(t) && requirement_excludes(t.importing_version, version))
    ||| (exists|i: int| 0 <= i < imports.len() && requirement_excludes(version_req(#[trigger] imports[i]), version))
    ||| (config.test matches Some(t) && t.upgrade)
}

/// Checks whether a test should be skipped because of version constraints
/// or upgrade requirements. `imports` are the configurations of the tests
/// it imports; `core_version` is the running database version.
pub fn should_skip_test(config: &TestConfig, imports: &[TestConfig], core_version: &str) -> (r: bool)
    ensures
        r == test_skipped(*config, imports@, core_version@),
{
    let own = match &config.test {
        Some(t) => excludes(&t.version, core_version) || excludes(&t.importing_version, core_version),
        None => false,
    };
    if own {
        return true;
    }
    let n = imports.len();
    let mut i: usize = 0;
    while i < n
        invariant
            n == imports@.len(),
            i <= n,
            forall|j: int| 0 <= j < i ==> !requirement_excludes(version_req(#[trigger] imports@[j]), core_version@),
        decreases n - i,
    {
        let blocked = match &imports[i].test {
            Some(t) => excludes(&t.version, core_version),
            None => false,
        };
        if blocked {
            return true;
        }
        i += 1;
    }
    match &config.test {
        Some(t) => t.upgrade,
        None => false,
    }
}

// ---------------------------------------------------------------------------
// Result files and responses
// ---------------------------------------------------------------------------

/// The contents of a result file: `PASS` or `FAIL` on the first line, then
/// the test's output, if any.
pub open spec fn result_contents(passed: bool, output: Seq<char>) -> Seq<char> {
    (if passed { "PASS\n"@ } else { "FAIL\n"@ }) + output
}

/// Builds the contents of a result file.
pub fn result_file_contents(passed: bool, output: &str) -> (r: String)
    ensures
        r@ == result_contents(passed, output@),
{
    let mut s = if passed { owned("PASS\n") } else { owned("FAIL\n") };
    s.append(output);
    s
}

/// A response to the build system for one work request.
pub struct WorkResponse {
    pub exit_code: i32,
    pub output: String,
    pub request_id: i32,
}

impl WorkResponse {
    /// The request was handled (the test's verdict is in its result file).
    pub fn done(request_id: i32) -> (r: WorkResponse)
        ensures
            r.exit_code == 0,
            r.output@ == Seq::<char>::empty(),
            r.request_id == request_id,
    {
        WorkResponse { exit_code: 0, output: String::new(), request_id }
    }

    /// The request could not be handled; `output` says why.
    pub fn failed(request_id: i32, output: String) -> (r: WorkResponse)
        ensures
            r.exit_code == 1,
            r.output == output,
            r.request_id == request_id,
    {
        WorkResponse { exit_code: 1, output, request_id }
    }
}

// ---------------------------------------------------------------------------
// Flag files
// ---------------------------------------------------------------------------

/// A trimmed line as a flag-file argument: kept when it is not empty.
pub open spec fn keep_line(t: Seq<char>) -> Seq<Seq<char>> {
    if t.len() > 0 {
        seq![t]
    } else {
        Seq::empty()
    }
}

/// The arguments in `s` from position `i`, where the current line started at
/// `start`: the lines of `s`, split at each `\n`, trimmed, without the
/// empty ones.
pub open spec fn flag_lines(s: Seq<char>, i: int, start: int) -> Seq<Seq<char>>
    decreases s.len() - i,
{
    if i >= s.len() {
        keep_line(trim(s.subrange(start, s.len() as int)))
    } else if s[i] == '\n' {
        keep_line(trim(s.subrange(start, i))) + flag_lines(s, i + 1, i + 1)
    } else {
        flag_lines(s, i + 1, start)
    }
}

/// The arguments a flag file holds.
pub open spec fn flagfile_args(contents: Seq<char>) -> Seq<Seq<char>> {
    flag_lines(contents, 0, 0)
}

} // verus!

verus! {

/// Reads the arguments out of a flag file's contents: one per line, trimmed,
/// empty lines dropped.
pub fn flagfile_lines(contents: &str) -> (r: Vec<String>)
    ensures
        string_views(r@) == flagfile_args(contents@),
{
    let mut out: Vec<String> = Vec::new();
    let n = contents.unicode_len();
    let mut i: usize = 0;
    let mut start: usize = 0;
    assert(string_views(out@) =~= Seq::<Seq<char>>::empty());
    while i < n
        invariant
            n == contents@.len(),
            start <= i <= n,
            flagfile_args(contents@) == string_views(out@) + flag_lines(contents@, i as int, start as int),
        decreases n - i,
    {
        if contents.get_char(i) == '\n' {
            let line = trim_str(contents.substring_char(start, i));
            let ghost before = string_views(out@);
            let ghost rest = flag_lines(contents@, i + 1, i + 1);
            if line.as_str().unicode_len() > 0 {
                out.push(line);
            }
            assert(string_views(out@) =~= before + keep_line(line@));
            assert(before + (keep_line(line@) + rest) =~= (before + keep_line(line@)) + rest);
            i += 1;
            start = i;
        } else {
            i += 1;
        }
    }
    let line = trim_str(contents.substring_char(start, n));
    let ghost before = string_views(out@);
    if line.as_str().unicode_len() > 0 {
        out.push(line);
    }
    assert(string_views(out@) =~= before + keep_line(line@));
    out
}

/// The path a `@flagfile` argument points to, if the argument is one.
pub fn flagfile_path(arg: &str) -> (r: Option<String>)
    ensures
        match r {
            Some(p) => arg@.len() > 0 && arg@[0] == '@' && p@ == arg@.skip(1),
            None => !(arg@.len() > 0 && arg@[0] == '@'),
        },
{
    let n = arg.unicode_len();
    if n > 0 && arg.get_char(0) == '@' {
        let p = arg.substring_char(1, n);
        assert(p@ =~= arg@.skip(1));
        Some(owned(p))
    } else {
        None
    }
}

/// What one argument expands to: the arguments of its flag file when it is
/// a readable `@flagfile` (`contents`), otherwise the argument itself.
pub open spec fn expand_one(arg: Seq<char>, contents: Option<String>) -> Seq<Seq<char>> {
    if arg.len() > 0 && arg[0] == '@' {
        match contents {
            Some(text) => flagfile_args(text@),
            None => seq![arg],
        }
    } else {
        seq![arg]
    }
}

/// The expansion of `args[i..]`, in order.
pub open spec fn expanded_args(args: Seq<String>, contents: Seq<Option<String>>, i: int) -> Seq<Seq<char>>
    decreases args.len() - i,
{
    if i < 0 || i >= args.len() {
        Seq::empty()
    } else {
        expand_one(args[i]@, contents[i]) + expanded_args(args, contents, i + 1)
    }
}

/// Expands `@flagfile` references in an argument list. `contents[i]` holds
/// what the flag file of `args[i]` reads as, or `None` when it could not be
/// read (the argument is then kept as it is); it is ignored for other
/// arguments.
pub fn expand_flagfiles(args: &[String], contents: &[Option<String>]) -> (r: Vec<String>)
    requires
        contents@.len() == args@.len(),
    ensures
        string_views(r@) == expanded_args(args@, contents@, 0),
{
    let mut out: Vec<String> = Vec::new();
    let n = args.len();
    let mut i: usize = 0;
    assert(string_views(out@) =~= Seq::<Seq<char>>::empty());
    while i < n
        invariant
            n == args@.len(),
            contents@.len() == n,
            i <= n,
            expanded_args(args@, contents@, 0) == string_views(out@) + expanded_args(args@, contents@, i as int),
        decreases n - i,
    {
        let ghost before = string_views(out@);
        let arg = args[i].as_str();
        let is_flagfile = arg.unicode_len() > 0 && arg.get_char(0) == '@';
        let mut piece: Vec<String> = if is_flagfile {
            match &contents[i] {
                Some(text) => flagfile_lines(text.as_str()),
                None => {
                    let mut v = Vec::new();
                    v.push(args[i].clone());
                    v
                },
            }
        } else {
            let mut v = Vec::new();
            v.push(args[i].clone());
            v
        };
        let ghost own = string_views(piece@);
        assert(own == expand_one(args@[i as int]@, contents@[i as int])) by {
            if !is_flagfile || contents@[i as int] is None {
                assert(own =~= seq![args@[i as int]@]);
            }
        }
        out.append(&mut piece);
        proof {
            assert(string_views(out@) =~= before + own);
            let rest = expanded_args(args@, contents@, i + 1);
            assert(before + (own + rest) =~= (before + own) + rest);
        }
        i += 1;
    }
    assert(string_views(out@) + Seq::<Seq<char>>::empty() =~= string_views(out@));
    out
}

} // verus!

verus! {

/// A test is not run (and counts as passed) when it has a parse error, is
/// not meant to run, excludes the backend, or is skipped for its versions.
pub open spec fn request_skipped(
    contains_error: bool,
    should_run: bool,
    config: TestConfig,
    backend: Backend,
    imports: Seq<TestConfig>,
    version: Seq<char>,
) -> bool {
    contains_error || !should_run || backend_filtered(config, backend) || test_skipped(config, imports, version)
}

/// Decides whether a requested test is skipped instead of run.
pub fn should_skip_request(
    contains_error: bool,
    should_run: bool,
    config: &TestConfig,
    backend: Backend,
    imports: &[TestConfig],
    core_version: &str,
) -> (r: bool)
    ensures
        r == request_skipped(contains_error, should_run, *config, backend, imports@, core_version@),
{
    contains_error || !should_run || is_backend_filtered(config, backend) || should_skip_test(config, imports, core_version)
}

/// Whether a test needs a versioned datastore: the `versioned` flag of its
/// environment, off when it has none.
pub fn needs_versioned(config: &TestConfig) -> (r: bool)
    ensures
        r == (config.env matches Some(e) && e.versioned),
{
    match &config.env {
        Some(e) => e.versioned,
        None => false,
    }
}

/// What the worker knows of a requested test once it is found.
pub struct TestFacts {
    /// The test file failed to parse.
    pub contains_error: bool,
    /// The test's configuration asks for it to be run.
    pub should_run: bool,
    /// The test may run on a datastore shared with other tests.
    pub reusable_ds: bool,
    pub config: TestConfig,
    /// The configurations of the tests it imports.
    pub imports: Vec<TestConfig>,
}

/// What becomes of a work request once its test set is loaded.
pub enum Disposition {
    /// The test is not in the set: it fails with this message.
    NotFound { message: String },
    /// The test is skipped and passes with no output.
    Skip,
    /// The test runs, on a pooled datastore when `reusable`, otherwise on
    /// a fresh one, versioned when `versioned`, with queries limited to
    /// `timeout_ms` milliseconds (`None`: no limit).
    Run { reusable: bool, versioned: bool, timeout_ms: Option<u64> },
}

/// The query timeout of a test: three seconds when it has no environment;
/// otherwise the environment's context timeout, or no limit when it sets
/// none.
pub open spec fn query_timeout_of(env: Option<TestEnv>) -> Option<u64> {
    match env {
        None => Some(3000),
        Some(e) => e.context_timeout_ms,
    }
}

/// The query timeout of a test in milliseconds; `None` means no limit.
pub fn query_timeout_ms(env: &Option<TestEnv>) -> (r: Option<u64>)
    ensures
        r == query_timeout_of(*env),
{
    match env {
        None => Some(3000),
        Some(e) => e.context_timeout_ms,
    }
}

/// `test '{file}' not found in '{root}'`.
pub open spec fn not_found_text(file: Seq<char>, root: Seq<char>) -> Seq<char> {
    "test '"@ + file + "' not found in '"@ + root + "'"@
}

/// The message of a test that is not in its test set.
pub fn not_found_message(test_file: &str, test_root: &str) -> (r: String)
    ensures
        r@ == not_found_text(test_file@, test_root@),
{
    let mut s = owned("test '");
    s.append(test_file);
    s.append("' not found in '");
    s.append(test_root);
    s.append("'");
    s
}

/// Decides what to do with a request whose test was looked up (`found` is
/// `None` when it is not in the set): report it missing, skip it, or run it
/// on the kind of datastore its configuration asks for.
pub fn dispose_request(args: &RequestArgs, found: Option<&TestFacts>, core_version: &str) -> (r: Disposition)
    ensures
        match found {
            None => r matches Disposition::NotFound { message } && message@ == not_found_text(args.test_file@, args.test_root@),
            Some(f) => if request_skipped(f.contains_error, f.should_run, f.config, args.backend, f.imports@, core_version@) {
                r is Skip
            } else {
                r matches Disposition::Run { reusable, versioned, timeout_ms }
                    && reusable == f.reusable_ds
                    && versioned == (f.config.env matches Some(e) && e.versioned)
                    && timeout_ms == query_timeout_of(f.config.env)
            },
        },
{
    match found {
        None => Disposition::NotFound { message: not_found_message(args.test_file.as_str(), args.test_root.as_str()) },
        Some(f) => {
            if should_skip_request(f.contains_error, f.should_run, &f.config, args.backend, f.imports.as_slice(), core_version) {
                Disposition::Skip
            } else {
                Disposition::Run {
                    reusable: f.reusable_ds,
                    versioned: needs_versioned(&f.config),
                    timeout_ms: query_timeout_ms(&f.config.env),
                }
            }
        },
    }
}

} // verus!

verus! {

proof fn lemma_flag_lines_nonempty(s: Seq<char>, i: int, start: int)
    requires
        0 <= i,
    ensures
        forall|k: int| 0 <= k < flag_lines(s, i, start).len() ==> (#[trigger] flag_lines(s, i, start)[k]).len() > 0,
    decreases s.len() - i,
{
    if i < s.len() {
        if s[i] == '\n' {
            lemma_flag_lines_nonempty(s, i + 1, i + 1);
            let h = keep_line(trim(s.subrange(start, i)));
            let t = flag_lines(s, i + 1, i + 1);
            assert(flag_lines(s, i, start) == h + t);
            assert forall|k: int| 0 <= k < (h + t).len() implies (#[trigger] (h + t)[k]).len() > 0 by {
                if k >= h.len() {
                    assert((h + t)[k] == t[k - h.len()]);
                }
            }
        } else {
            lemma_flag_lines_nonempty(s, i + 1, start);
            assert(flag_lines(s, i, start) == flag_lines(s, i + 1, start));
        }
    } else {
        let t = trim(s.subrange(start, s.len() as int));
        assert(flag_lines(s, i, start) == keep_line(t));
        if t.len() > 0 {
            assert(keep_line(t)[0] == t);
        }
    }
}

/// A flag file never yields an empty argument.
pub proof fn lemma_flagfile_args_nonempty(contents: Seq<char>)
    ensures
        forall|k: int| 0 <= k < flagfile_args(contents).len() ==> (#[trigger] flagfile_args(contents)[k]).len() > 0,
{
    lemma_flag_lines_nonempty(contents, 0, 0);
}

/// Without `@` arguments, expansion leaves the argument list as it is.
pub proof fn lemma_expand_plain_args(args: Seq<String>, contents: Seq<Option<String>>, i: int)
    requires
        0 <= i <= args.len(),
        contents.len() == args.len(),
        forall|k: int| 0 <= k < args.len() ==> !((#[trigger] args[k])@.len() > 0 && args[k]@[0] == '@'),
    ensures
        expanded_args(args, contents, i) == string_views(args).skip(i),
    decreases args.len() - i,
{
    if i < args.len() {
        lemma_expand_plain_args(args, contents, i + 1);
        assert(string_views(args).skip(i) =~= seq![args[i]@] + string_views(args).skip(i + 1));
    } else {
        assert(string_views(args).skip(i) =~= Seq::<Seq<char>>::empty());
    }
}

/// A test whose configuration lists the backend, or lists no backends at
/// all, is not filtered out for that backend.
pub proof fn lemma_listed_backend_runs(config: TestConfig, backend: Backend, k: int)
    requires
        config.env matches Some(env) && (env.backend@.len() == 0 || (0 <= k < env.backend@.len() && env.backend@[k]@ == backend_name(backend))),
    ensures
        !backend_filtered(config, backend),
{
}

} // verus!

verus! {

// ---------------------------------------------------------------------------
// The worker's lifecycle
// ---------------------------------------------------------------------------

/// The message of refused request arguments.
pub open spec fn args_error_text(e: RequestArgsError) -> Seq<char> {
    match e {
        RequestArgsError::MissingBackend => "missing --backend argument"@,
        RequestArgsError::InvalidBackend(s) => s@,
        RequestArgsError::MissingTestRoot => "missing --test-root argument"@,
        RequestArgsError::MissingTestFile => "missing --test-file argument"@,
        RequestArgsError::MissingResultFile => "missing --result-file argument"@,
    }
}

/// Builds the message of refused request arguments.
pub fn request_args_message(e: &RequestArgsError) -> (r: String)
    ensures
        r@ == args_error_text(*e),
{
    match e {
        RequestArgsError::MissingBackend => owned("missing --backend argument"),
        RequestArgsError::InvalidBackend(s) => s.clone(),
        RequestArgsError::MissingTestRoot => owned("missing --test-root argument"),
        RequestArgsError::MissingTestFile => owned("missing --test-file argument"),
        RequestArgsError::MissingResultFile => owned("missing --result-file argument"),
    }
}

/// What the persistent worker remembers between requests: whether the
/// backend service and the provisioner run (started once, for the backend
/// of the first request that needed them), which test roots are loaded,
/// and the request in hand with its id.
pub struct WorkerState {
    pub started: bool,
    pub loaded: Vec<String>,
    pub current: Option<(i32, RequestArgs)>,
}

/// What happened since the last step.
pub enum WorkerEvent {
    /// A request arrived; its arguments parsed, or were refused.
    Arrived { request_id: i32, args: Result<RequestArgs, RequestArgsError> },
    /// The backend service and the provisioner started.
    Started,
    /// The backend service failed to start, for this reason.
    ServiceFailed(String),
    /// The provisioner failed to start, for this reason (the service did start).
    ProvisionerFailed(String),
    /// The requested test root was loaded.
    TestsLoaded,
    /// The requested test root failed to load, for this reason.
    TestsFailed(String),
    /// The request stream ended.
    InputClosed,
}

/// What the worker does next.
pub enum WorkerStep {
    /// Send this response; the request is done.
    Reply(WorkResponse),
    /// Stop the backend service just started, then send this response.
    StopServiceAndReply(WorkResponse),
    /// Start the backend service and the provisioner for this backend.
    StartService(Backend),
    /// Load the tests under this root.
    LoadTests(String),
    /// Look the request's test up, then dispose of it.
    FindTest,
    /// Nothing is in hand: wait for the next request.
    Wait,
    /// The run is over: shut the provisioner's pool down first, then stop
    /// the backend service.
    ShutDown,
}

/// Whether `root` is among the loaded test roots.
pub open spec fn root_loaded(loaded: Seq<String>, root: Seq<char>) -> bool {
    exists|i: int| 0 <= i < loaded.len() && (#[trigger] loaded[i])@ == root
}

fn is_loaded(loaded: &Vec<String>, root: &str) -> (r: bool)
    ensures
        r == root_loaded(loaded@, root@),
{
    let n = loaded.len();
    let mut i: usize = 0;
    while i < n
        invariant
            n == loaded@.len(),
            i <= n,
            forall|j: int| 0 <= j < i ==> (#[trigger] loaded@[j])@ != root@,
        decreases n - i,
    {
        if str_eq(loaded[i].as_str(), root) {
            assert(loaded@[i as int]@ == root@);
            return true;
        }
        i += 1;
    }
    false
}

/// The step that serves a request in hand: start the service first, then
/// load its test root if that is not loaded yet, then find the test.
pub open spec fn serve_step_is(started: bool, loaded: Seq<String>, a: RequestArgs, step: WorkerStep) -> bool {
    if !started {
        step == WorkerStep::StartService(a.backend)
    } else if !root_loaded(loaded, a.test_root@) {
        step matches WorkerStep::LoadTests(root) && root@ == a.test_root@
    } else {
        step is FindTest
    }
}

/// A failure response for the request in hand, if there is one.
pub open spec fn fails_with(current: Option<(i32, RequestArgs)>, resp: WorkResponse, text: Seq<char>) -> bool {
    current matches Some((id, _)) && resp.request_id == id && resp.exit_code == 1 && resp.output@ == text
}

fn serve_step(started: bool, loaded: &Vec<String>, a: &RequestArgs) -> (r: WorkerStep)
    ensures
        serve_step_is(started, loaded@, *a, r),
{
    if !started {
        WorkerStep::StartService(a.backend)
    } else if !is_loaded(loaded, a.test_root.as_str()) {
        WorkerStep::LoadTests(a.test_root.clone())
    } else {
        WorkerStep::FindTest
    }
}

/// `next` and `step` are what the worker does on `event` in `state` (the
/// contract of [`worker_step`]).
pub open spec fn step_fits(state: WorkerState, event: WorkerEvent, next: WorkerState, step: WorkerStep) -> bool {
    match event {
        WorkerEvent::Arrived { request_id, args: Err(e) } => {
            &&& next.started == state.started && next.loaded@ == state.loaded@ && next.current is None
            &&& step matches WorkerStep::Reply(resp) && resp.request_id == request_id && resp.exit_code == 1
                && resp.output@ == args_error_text(e)
        },
        WorkerEvent::Arrived { request_id, args: Ok(a) } => {
            &&& next.started == state.started && next.loaded@ == state.loaded@
            &&& next.current == Some((request_id, a))
            &&& serve_step_is(state.started, state.loaded@, a, step)
        },
        WorkerEvent::Started => {
            &&& next.started && next.loaded@ == state.loaded@ && next.current == state.current
            &&& match state.current {
                Some((_, a)) => serve_step_is(true, state.loaded@, a, step),
                None => step is Wait,
            }
        },
        WorkerEvent::ServiceFailed(msg) => {
            &&& next.started == state.started && next.loaded@ == state.loaded@ && next.current is None
            &&& match state.current {
                Some(_) => step matches WorkerStep::Reply(resp)
                    && fails_with(state.current, resp, "failed to start backend service: "@ + msg@),
                None => step is Wait,
            }
        },
        WorkerEvent::ProvisionerFailed(msg) => {
            &&& next.started == state.started && next.loaded@ == state.loaded@ && next.current is None
            &&& match state.current {
                Some(_) => step matches WorkerStep::StopServiceAndReply(resp)
                    && fails_with(state.current, resp, "failed to create provisioner: "@ + msg@),
                None => step is Wait,
            }
        },
        WorkerEvent::TestsLoaded => {
            &&& next.started == state.started && next.current == state.current
            &&& match state.current {
                Some((_, a)) => next.loaded@.len() == state.loaded@.len() + 1
                    && next.loaded@.drop_last() == state.loaded@
                    && next.loaded@.last()@ == a.test_root@
                    && step is FindTest,
                None => next.loaded@ == state.loaded@ && step is Wait,
            }
        },
        WorkerEvent::TestsFailed(msg) => {
            &&& next.started == state.started && next.loaded@ == state.loaded@ && next.current is None
            &&& match state.current {
                Some((_, a)) => step matches WorkerStep::Reply(resp)
                    && fails_with(state.current, resp, "failed to load tests from '"@ + a.test_root@ + "': "@ + msg@),
                None => step is Wait,
            }
        },
        WorkerEvent::InputClosed => {
            &&& next.started == state.started && next.loaded@ == state.loaded@ && next.current is None
            &&& if state.started { step is ShutDown } else { step is Wait }
        },
    }
}

/// One step of the persistent worker. A refused request is answered with
/// its message. A request in hand is served in order: the backend service
/// and provisioner are started once (a later request never restarts them,
/// whatever its backend), each test root is loaded once, then the test is
/// looked up. A failure to start the service, to start the provisioner
/// (after which the service is stopped again) or to load the tests answers
/// the request with exit code 1 and `failed to start backend service: ..`,
/// `failed to create provisioner: ..` or `failed to load tests from
/// '{root}': ..`; nothing is remembered of a failed start or load. When the
/// request stream ends, a started run shuts its pool down, then stops its
/// service.
pub fn worker_step(state: WorkerState, event: WorkerEvent) -> (r: (WorkerState, WorkerStep))
    ensures
        step_fits(state, event, r.0, r.1),
{
    let WorkerState { started, mut loaded, current } = state;
    match event {
        WorkerEvent::Arrived { request_id, args } => match args {
            Err(e) => {
                let resp = WorkResponse::failed(request_id, request_args_message(&e));
                (WorkerState { started, loaded, current: None }, WorkerStep::Reply(resp))
            },
            Ok(a) => {
                let step = serve_step(started, &loaded, &a);
                (WorkerState { started, loaded, current: Some((request_id, a)) }, step)
            },
        },
        WorkerEvent::Started => {
            let step = match &current {
                Some((_, a)) => serve_step(true, &loaded, a),
                None => WorkerStep::Wait,
            };
            (WorkerState { started: true, loaded, current }, step)
        },
        WorkerEvent::ServiceFailed(msg) => {
            let step = match &current {
                Some((id, _)) => {
                    let mut text = owned("failed to start backend service: ");
                    text.append(msg.as_str());
                    WorkerStep::Reply(WorkResponse::failed(*id, text))
                },
                None => WorkerStep::Wait,
            };
            (WorkerState { started, loaded, current: None }, step)
        },
        WorkerEvent::ProvisionerFailed(msg) => {
            let step = match &current {
                Some((id, _)) => {
                    let mut text = owned("failed to create provisioner: ");
                    text.append(msg.as_str());
                    WorkerStep::StopServiceAndReply(WorkResponse::failed(*id, text))
                },
                None => WorkerStep::Wait,
            };
            (WorkerState { started, loaded, current: None }, step)
        },
        WorkerEvent::TestsLoaded => {
            let step = match &current {
                Some((_, a)) => {
                    let ghost before = loaded@;
                    loaded.push(a.test_root.clone());
                    assert(loaded@.drop_last() =~= before);
                    WorkerStep::FindTest
                },
                None => WorkerStep::Wait,
            };
            (WorkerState { started, loaded, current }, step)
        },
        WorkerEvent::TestsFailed(msg) => {
            let step = match &current {
                Some((id, a)) => {
                    let mut text = owned("failed to load tests from '");
                    text.append(a.test_root.as_str());
                    text.append("': ");
                    text.append(msg.as_str());
                    WorkerStep::Reply(WorkResponse::failed(*id, text))
                },
                None => WorkerStep::Wait,
            };
            (WorkerState { started, loaded, current: None }, step)
        },
        WorkerEvent::InputClosed => {
            let step = if started { WorkerStep::ShutDown } else { WorkerStep::Wait };
            (WorkerState { started, loaded, current: None }, step)
        },
    }
}

/// `states`, `events` and `steps` are a run of the worker: each step goes
/// from `states[k]` on `events[k]` to `states[k + 1]` with `steps[k]`.
pub open spec fn is_worker_run(states: Seq<WorkerState>, events: Seq<WorkerEvent>, steps: Seq<WorkerStep>) -> bool {
    &&& states.len() == events.len() + 1
    &&& steps.len() == events.len()
    &&& forall|k: int| 0 <= k < events.len() ==> step_fits(#[trigger] states[k], events[k], states[k + 1], steps[k])
}

proof fn lemma_step_keeps(s: WorkerState, e: WorkerEvent, n: WorkerState, st: WorkerStep, root: Seq<char>)
    requires
        step_fits(s, e, n, st),
    ensures
        s.started ==> n.started,
        root_loaded(s.loaded@, root) ==> root_loaded(n.loaded@, root),
        st is StartService ==> !s.started,
        (st matches WorkerStep::LoadTests(x) && x@ == root) ==> !root_loaded(s.loaded@, root),
{
    if root_loaded(s.loaded@, root) {
        let k = choose|k: int| 0 <= k < s.loaded@.len() && (#[trigger] s.loaded@[k])@ == root;
        if n.loaded@ != s.loaded@ {
            assert(n.loaded@.drop_last()[k] == n.loaded@[k]);
            assert(n.loaded@[k]@ == root);
        } else {
            assert(n.loaded@[k]@ == root);
        }
    }
}

proof fn lemma_run_keeps(states: Seq<WorkerState>, events: Seq<WorkerEvent>, steps: Seq<WorkerStep>, i: int, j: int, root: Seq<char>)
    requires
        is_worker_run(states, events, steps),
        0 <= i <= j <= events.len(),
    ensures
        states[i].started ==> states[j].started,
        root_loaded(states[i].loaded@, root) ==> root_loaded(states[j].loaded@, root),
    decreases j - i,
{
    if i < j {
        lemma_run_keeps(states, events, steps, i, j - 1, root);
        assert(step_fits(states[j - 1], events[j - 1], states[j], steps[j - 1]));
        lemma_step_keeps(states[j - 1], events[j - 1], states[j], steps[j - 1], root);
    }
}

/// Over a whole run of the worker: once the backend service and the
/// provisioner have started, no later step starts them again (at most one
/// pool per run, for the backend of the first request that started it,
/// whatever later requests ask for); and once a test root is loaded, no
/// later step loads it again.
pub proof fn lemma_worker_run(states: Seq<WorkerState>, events: Seq<WorkerEvent>, steps: Seq<WorkerStep>, i: int, j: int, root: Seq<char>)
    requires
        is_worker_run(states, events, steps),
        0 <= i <= j < events.len(),
    ensures
        states[i].started ==> !(steps[j] is StartService),
        root_loaded(states[i].loaded@, root) ==> !(steps[j] matches WorkerStep::LoadTests(x) && x@ == root),
{
    lemma_run_keeps(states, events, steps, i, j, root);
    assert(step_fits(states[j], events[j], states[j + 1], steps[j]));
    lemma_step_keeps(states[j], events[j], states[j + 1], steps[j], root);
}

/// Once the service runs, serving a request never starts it again, whatever
/// the request's backend; and a request whose root is loaded goes straight
/// to the test lookup.
pub proof fn lemma_serve_after_start(loaded: Seq<String>, a: RequestArgs, step: WorkerStep)
    requires
        serve_step_is(true, loaded, a, step),
    ensures
        !(step is StartService),
        root_loaded(loaded, a.test_root@) ==> step is FindTest,
{
}

/// A root, once loaded, is never loaded again: after it is added to the
/// loaded roots, a request for it is served without loading.
pub proof fn lemma_loaded_root_not_reloaded(loaded: Seq<String>, root: String, a: RequestArgs, step: WorkerStep)
    requires
        a.test_root@ == root@,
        serve_step_is(true, loaded.push(root), a, step),
    ensures
        step is FindTest,
{
    assert(loaded.push(root)[loaded.len() as int] == root);
    assert(root_loaded(loaded.push(root), a.test_root@));
}

} // verus!

verus! {

// ---------------------------------------------------------------------------
// Laws of test skipping
// ---------------------------------------------------------------------------

/// A test is skipped as soon as the version requirement of any test it
/// imports, at any position, is not met by the running version (it does not
/// match, or one of the two does not parse).
pub proof fn lemma_import_requirement_skips(config: TestConfig, imports: Seq<TestConfig>, version: Seq<char>, k: int, req: String)
    requires
        0 <= k < imports.len(),
        imports[k].test matches Some(t) && t.version == Some(req),
        semver_matches(req@, version) != Some(true),
    ensures
        test_skipped(config, imports, version),
{
    assert(requirement_excludes(version_req(imports[k]), version));
}

/// A test is skipped when it is an upgrade test, or when its own version
/// requirement or its importing-version requirement is not met by the
/// running version.
pub proof fn lemma_own_requirements_skip(config: TestConfig, imports: Seq<TestConfig>, version: Seq<char>)
    ensures
        (config.test matches Some(t) && t.upgrade) ==> test_skipped(config, imports, version),
        (config.test matches Some(t) && (t.version matches Some(r) && semver_matches(r@, version) != Some(true)))
            ==> test_skipped(config, imports, version),
        (config.test matches Some(t) && (t.importing_version matches Some(r) && semver_matches(r@, version) != Some(true)))
            ==> test_skipped(config, imports, version),
{
}

/// A test runs (is not skipped for its versions) when it is no upgrade test
/// and every requirement it has, its own, its importing one and those of
/// all the tests it imports, is met by the running version.
pub proof fn lemma_met_requirements_run(config: TestConfig, imports: Seq<TestConfig>, version: Seq<char>)
    requires
        config.test matches Some(t) ==> {
            &&& !t.upgrade
            &&& t.version matches Some(r) ==> semver_matches(r@, version) == Some(true)
            &&& t.importing_version matches Some(r) ==> semver_matches(r@, version) == Some(true)
        },
        forall|k: int| 0 <= k < imports.len() ==> ((#[trigger] imports[k]).test matches Some(t)
            && t.version matches Some(r) ==> semver_matches(r@, version) == Some(true)),
    ensures
        !test_skipped(config, imports, version),
{
    assert forall|i: int| 0 <= i < imports.len() implies !requirement_excludes(version_req(#[trigger] imports[i]), version) by {
        assert(imports[i].test matches Some(t) && t.version matches Some(r) ==> semver_matches(r@, version) == Some(true));
    }
}

} // verus!
