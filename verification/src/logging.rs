//! Log filtering and telemetry settings of the server: span-level filters,
//! the shorthand values of the `--log` option, the settings of the log
//! layers, and when OpenTelemetry tracing is switched on.

use vstd::prelude::*;
use vstd::string::*;
use crate::text::{owned, trim, trim_str, string_views};

verus! {

/// The verbosity of an event, from the most verbose to the most severe.
#[derive(Clone, Copy, Debug, PartialEq, Eq, Structural)]
pub enum Level {
    Trace,
    Debug,
    Info,
    Warn,
    Error,
}

/// The most verbose level a filter lets through, or `Off` for none.
#[derive(Clone, Copy, Debug, PartialEq, Eq, Structural)]
pub enum LevelFilter {
    Trace,
    Debug,
    Info,
    Warn,
    Error,
    Off,
}

/// The rank of a level: trace 0 up to error 4.
pub open spec fn level_rank(l: Level) -> int {
    match l {
        Level::Trace => 0,
        Level::Debug => 1,
        Level::Info => 2,
        Level::Warn => 3,
        Level::Error => 4,
    }
}

/// The rank of a filter: trace 0 up to error 4, and off 5.
pub open spec fn filter_rank(f: LevelFilter) -> int {
    match f {
        LevelFilter::Trace => 0,
        LevelFilter::Debug => 1,
        LevelFilter::Info => 2,
        LevelFilter::Warn => 3,
        LevelFilter::Error => 4,
        LevelFilter::Off => 5,
    }
}

/// A filter lets an event through when the event is at least as severe as
/// the filter's level (`level <= filter` in tracing's order).
pub open spec fn level_passes(level: Level, filter: LevelFilter) -> bool {
    filter_rank(filter) <= level_rank(level)
}

fn rank_of_level(l: Level) -> (r: u8)
    ensures
        r == level_rank(l),
{
    match l {
        Level::Trace => 0,
        Level::Debug => 1,
        Level::Info => 2,
        Level::Warn => 3,
        Level::Error => 4,
    }
}

fn rank_of_filter(f: LevelFilter) -> (r: u8)
    ensures
        r == filter_rank(f),
{
    match f {
        LevelFilter::Trace => 0,
        LevelFilter::Debug => 1,
        LevelFilter::Info => 2,
        LevelFilter::Warn => 3,
        LevelFilter::Error => 4,
        LevelFilter::Off => 5,
    }
}

/// Whether `filter` lets an event at `level` through.
pub fn passes(level: Level, filter: LevelFilter) -> (r: bool)
    ensures
        r == level_passes(level, filter),
{
    rank_of_filter(filter) <= rank_of_level(level)
}

/// The level configured for a span name: the last entry for that name wins,
/// as when the entries are collected into a map.
pub open spec fn span_level(entries: Seq<(String, LevelFilter)>, name: Seq<char>) -> Option<LevelFilter>
    decreases entries.len(),
{
    if entries.len() == 0 {
        None
    } else if entries.last().0@ == name {
        Some(entries.last().1)
    } else {
        span_level(entries.drop_last(), name)
    }
}

/// Decides an event by the spans around it, innermost first: the first span
/// with a configured level decides; with none, the event is allowed.
pub open spec fn ancestors_allow(entries: Seq<(String, LevelFilter)>, ancestors: Seq<String>, i: int, level: Level) -> bool
    decreases ancestors.len() - i,
{
    if i < 0 || i >= ancestors.len() {
        true
    } else {
        match span_level(entries, ancestors[i]@) {
            Some(f) => level_passes(level, f),
            None => ancestors_allow(entries, ancestors, i + 1, level),
        }
    }
}

/// An event is allowed when its own name has a configured level that lets
/// it through, or otherwise when the innermost configured span around it
/// does, or when no span around it is configured.
pub open spec fn span_allows(entries: Seq<(String, LevelFilter)>, name: Seq<char>, level: Level, ancestors: Seq<String>) -> bool {
    match span_level(entries, name) {
        Some(f) => level_passes(level, f),
        None => ancestors_allow(entries, ancestors, 0, level),
    }
}

/// A per-layer filter that controls log levels for named spans and their
/// descendants.
pub struct SpanFilter {
    pub entries: Vec<(String, LevelFilter)>,
}

impl SpanFilter {
    /// Builds the filter from `[span_name]=level` entries, in the order they
    /// were written.
    pub fn new(entries: Vec<(String, LevelFilter)>) -> (r: SpanFilter)
        ensures
            r.entries@ == entries@,
    {
        SpanFilter { entries }
    }

    /// The level configured for a span name, if any.
    pub fn level_of(&self, name: &str) -> (r: Option<LevelFilter>)
        ensures
            r == span_level(self.entries@, name@),
    {
        let mut i: usize = self.entries.len();
        assert(self.entries@.take(i as int) =~= self.entries@);
        while i > 0
            invariant
                i <= self.entries@.len(),
                span_level(self.entries@, name@) == span_level(self.entries@.take(i as int), name@),
            decreases i,
        {
            assert(self.entries@.take(i as int).drop_last() =~= self.entries@.take(i - 1));
            if crate::text::str_eq(self.entries[i - 1].0.as_str(), name) {
                return Some(self.entries[i - 1].1);
            }
            i -= 1;
        }
        None
    }

    /// Checks an event against the span rules. `name` is the event's name,
    /// `level` its level, and `ancestors` the names of the spans around it,
    /// innermost first.
    pub fn enabled(&self, name: &str, level: Level, ancestors: &[String]) -> (r: bool)
        ensures
            r == span_allows(self.entries@, name@, level, ancestors@),
    {
        if let Some(f) = self.level_of(name) {
            return passes(level, f);
        }
        let n = ancestors.len();
        let mut i: usize = 0;
        while i < n
            invariant
                n == ancestors@.len(),
                i <= n,
                span_allows(self.entries@, name@, level, ancestors@) == ancestors_allow(self.entries@, ancestors@, i as int, level),
            decreases n - i,
        {
            if let Some(f) = self.level_of(ancestors[i].as_str()) {
                return passes(level, f);
            }
            i += 1;
        }
        true
    }
}

} // verus!

verus! {

/// The parser of the `--log` option (and of `RUST_LOG`) into module-level
/// directives and span-level filters.
pub struct CustomFilterParser;

impl CustomFilterParser {
    /// Creates a new parser.
    pub fn new() -> (r: CustomFilterParser) {
        CustomFilterParser
    }

    /// The shorthand values the option recognises, in the order they are
    /// offered.
    pub fn possible_values(&self) -> (r: Vec<String>)
        ensures
            string_views(r@) == seq!["none"@, "full"@, "error"@, "warn"@, "info"@, "debug"@, "trace"@],
    {
        let mut v: Vec<String> = Vec::new();
        v.push(owned("none"));
        v.push(owned("full"));
        v.push(owned("error"));
        v.push(owned("warn"));
        v.push(owned("info"));
        v.push(owned("debug"));
        v.push(owned("trace"));
        assert(string_views(v@) =~= seq!["none"@, "full"@, "error"@, "warn"@, "info"@, "debug"@, "trace"@]);
        v
    }
}

/// How log lines are written.
#[derive(Clone, Copy, Debug, PartialEq, Eq, Structural)]
pub enum LogFormat {
    Json,
    Text,
}

/// The settings of one log layer.
#[derive(Clone, Copy, Debug, PartialEq, Eq, Structural)]
pub struct LayerSettings {
    /// JSON lines (`true`) or the compact text format (`false`).
    pub json: bool,
    /// Whether ANSI colours are written.
    pub ansi: bool,
    /// Whether source file names are written.
    pub file: bool,
    /// Whether the event target is written.
    pub target: bool,
    /// Whether source line numbers are written.
    pub line_number: bool,
    /// Whether thread ids are written.
    pub thread_ids: bool,
    /// Whether thread names are written.
    pub thread_names: bool,
}

/// The layer that writes to the rotating log file: every level, no colours,
/// no source locations, with targets.
pub fn file_layer_settings(format: LogFormat) -> (r: LayerSettings)
    ensures
        r == (LayerSettings {
            json: format == LogFormat::Json,
            ansi: false,
            file: false,
            target: true,
            line_number: false,
            thread_ids: false,
            thread_names: false,
        }),
{
    LayerSettings {
        json: match format {
            LogFormat::Json => true,
            LogFormat::Text => false,
        },
        ansi: false,
        file: false,
        target: true,
        line_number: false,
        thread_ids: false,
        thread_names: false,
    }
}

/// Where the console layer writes an event.
#[derive(Clone, Copy, Debug, PartialEq, Eq, Structural)]
pub enum ConsoleStream {
    Stdout,
    Stderr,
}

/// Warnings and errors go to stderr; info, debug and trace to stdout.
pub open spec fn console_stream_of(level: Level) -> ConsoleStream {
    if level_rank(level) >= level_rank(Level::Warn) { ConsoleStream::Stderr } else { ConsoleStream::Stdout }
}

/// Chooses the console stream of an event by its level.
pub fn console_stream(level: Level) -> (r: ConsoleStream)
    ensures
        r == console_stream_of(level),
        r == ConsoleStream::Stderr <==> (level == Level::Warn || level == Level::Error),
{
    match level {
        Level::Warn | Level::Error => ConsoleStream::Stderr,
        Level::Trace | Level::Debug | Level::Info => ConsoleStream::Stdout,
    }
}

/// The layer that writes to the console (warnings and errors to stderr, the
/// rest to stdout): colours and targets, with source locations only in
/// development builds.
pub fn output_layer_settings(format: LogFormat, development: bool) -> (r: LayerSettings)
    ensures
        r == (LayerSettings {
            json: format == LogFormat::Json,
            ansi: true,
            file: development,
            target: true,
            line_number: development,
            thread_ids: false,
            thread_names: false,
        }),
{
    LayerSettings {
        json: match format {
            LogFormat::Json => true,
            LogFormat::Text => false,
        },
        ansi: true,
        file: development,
        target: true,
        line_number: development,
        thread_ids: false,
        thread_names: false,
    }
}

/// The ASCII lower-case form of a character.
pub open spec fn ascii_lower(c: char) -> char {
    if 'A' <= c <= 'Z' {
        ((c as u32) + 32) as char
    } else {
        c
    }
}

/// Equality of two strings up to ASCII case, as `str::eq_ignore_ascii_case`.
pub open spec fn eq_ignore_ascii_case(a: Seq<char>, b: Seq<char>) -> bool {
    a.len() == b.len() && forall|i: int| 0 <= i < a.len() ==> ascii_lower(#[trigger] a[i]) == ascii_lower(b[i])
}

fn lower_char(c: char) -> (r: char)
    ensures
        r == ascii_lower(c),
{
    if 'A' <= c && c <= 'Z' {
        ((c as u8) + 32) as char
    } else {
        c
    }
}

/// Compares two strings ignoring ASCII case.
pub fn str_eq_ignore_ascii_case(a: &str, b: &str) -> (r: bool)
    ensures
        r == eq_ignore_ascii_case(a@, b@),
{
    let n = a.unicode_len();
    if n != b.unicode_len() {
        return false;
    }
    let mut i: usize = 0;
    while i < n
        invariant
            n == a@.len(),
            n == b@.len(),
            i <= n,
            forall|j: int| 0 <= j < i ==> ascii_lower(#[trigger] a@[j]) == ascii_lower(b@[j]),
        decreases n - i,
    {
        if lower_char(a.get_char(i)) != lower_char(b.get_char(i)) {
            return false;
        }
        i += 1;
    }
    true
}

/// OpenTelemetry tracing is on when the telemetry provider, trimmed, is
/// `otlp` in any case, and tracing is not disabled.
pub open spec fn otlp_tracing(provider: Seq<char>, tracing_disabled: bool) -> bool {
    eq_ignore_ascii_case(trim(provider), "otlp"@) && !tracing_disabled
}

/// Decides whether an OpenTelemetry tracing layer is installed.
pub fn otlp_tracing_enabled(provider: &str, tracing_disabled: bool) -> (r: bool)
    ensures
        r == otlp_tracing(provider@, tracing_disabled),
{
    let p = trim_str(provider);
    str_eq_ignore_ascii_case(p.as_str(), "otlp") && !tracing_disabled
}

} // verus!

verus! {

/// With no span rules configured, the span filter allows every event.
pub proof fn lemma_no_rules_allow_all(name: Seq<char>, level: Level, ancestors: Seq<String>)
    ensures
        span_allows(Seq::<(String, LevelFilter)>::empty(), name, level, ancestors),
{
    lemma_no_rules_ancestors(ancestors, 0, level);
}

proof fn lemma_no_rules_ancestors(ancestors: Seq<String>, i: int, level: Level)
    ensures
        ancestors_allow(Seq::<(String, LevelFilter)>::empty(), ancestors, i, level),
    decreases ancestors.len() - i,
{
    if 0 <= i < ancestors.len() {
        lemma_no_rules_ancestors(ancestors, i + 1, level);
    }
}

/// `off` lets nothing through and `trace` lets everything through.
pub proof fn lemma_filter_extremes(level: Level)
    ensures
        !level_passes(level, LevelFilter::Off),
        level_passes(level, LevelFilter::Trace),
{
}

/// A rule on the event's own name decides before any rule on the spans
/// around it.
pub proof fn lemma_own_rule_first(entries: Seq<(String, LevelFilter)>, name: Seq<char>, level: Level, ancestors: Seq<String>, f: LevelFilter)
    requires
        span_level(entries, name) == Some(f),
    ensures
        span_allows(entries, name, level, ancestors) == level_passes(level, f),
{
}

proof fn lemma_ancestors_from(entries: Seq<(String, LevelFilter)>, ancestors: Seq<String>, i: int, k: int, level: Level, f: LevelFilter)
    requires
        0 <= i <= k < ancestors.len(),
        forall|j: int| i <= j < k ==> span_level(entries, (#[trigger] ancestors[j])@) is None,
        span_level(entries, ancestors[k]@) == Some(f),
    ensures
        ancestors_allow(entries, ancestors, i, level) == (filter_rank(f) <= level_rank(level)),
    decreases k - i,
{
    if i < k {
        assert(span_level(entries, ancestors[i]@) is None);
        lemma_ancestors_from(entries, ancestors, i + 1, k, level, f);
    }
}

/// When the event's own name has no rule, the innermost span around it that
/// has a configured level decides alone: the event passes exactly when it is
/// at least as severe as that level, whatever the spans further out are
/// configured with.
pub proof fn lemma_innermost_configured_span_decides(
    entries: Seq<(String, LevelFilter)>,
    name: Seq<char>,
    level: Level,
    ancestors: Seq<String>,
    k: int,
    f: LevelFilter,
)
    requires
        span_level(entries, name) is None,
        0 <= k < ancestors.len(),
        forall|j: int| 0 <= j < k ==> span_level(entries, (#[trigger] ancestors[j])@) is None,
        span_level(entries, ancestors[k]@) == Some(f),
    ensures
        span_allows(entries, name, level, ancestors) == (filter_rank(f) <= level_rank(level)),
{
    lemma_ancestors_from(entries, ancestors, 0, k, level, f);
}

/// With no rule on the event's name nor on any span around it, the event
/// is allowed.
pub proof fn lemma_unconfigured_spans_allow(entries: Seq<(String, LevelFilter)>, name: Seq<char>, level: Level, ancestors: Seq<String>)
    requires
        span_level(entries, name) is None,
        forall|j: int| 0 <= j < ancestors.len() ==> span_level(entries, (#[trigger] ancestors[j])@) is None,
    ensures
        span_allows(entries, name, level, ancestors),
{
    lemma_unconfigured_from(entries, ancestors, 0, level);
}

proof fn lemma_unconfigured_from(entries: Seq<(String, LevelFilter)>, ancestors: Seq<String>, i: int, level: Level)
    requires
        0 <= i,
        forall|j: int| 0 <= j < ancestors.len() ==> span_level(entries, (#[trigger] ancestors[j])@) is None,
    ensures
        ancestors_allow(entries, ancestors, i, level),
    decreases ancestors.len() - i,
{
    if i < ancestors.len() {
        assert(span_level(entries, ancestors[i]@) is None);
        lemma_unconfigured_from(entries, ancestors, i + 1, level);
    }
}

/// The level of a span name is that of the last rule written for it (a
/// later rule replaces an earlier one), and a name without a rule has none.
pub proof fn lemma_span_level_last_rule(entries: Seq<(String, LevelFilter)>, name: Seq<char>, i: int)
    requires
        0 <= i < entries.len(),
        entries[i].0@ == name,
        forall|j: int| i < j < entries.len() ==> (#[trigger] entries[j]).0@ != name,
    ensures
        span_level(entries, name) == Some(entries[i].1),
    decreases entries.len(),
{
    if i < entries.len() - 1 {
        assert(entries.last() == entries[entries.len() - 1]);
        let d = entries.drop_last();
        assert forall|j: int| i < j < d.len() implies (#[trigger] d[j]).0@ != name by {
            assert(d[j] == entries[j]);
        }
        lemma_span_level_last_rule(d, name, i);
    }
}

/// A name that no rule mentions has no configured level.
pub proof fn lemma_span_level_absent(entries: Seq<(String, LevelFilter)>, name: Seq<char>)
    requires
        forall|j: int| 0 <= j < entries.len() ==> (#[trigger] entries[j]).0@ != name,
    ensures
        span_level(entries, name) is None,
    decreases entries.len(),
{
    if entries.len() > 0 {
        let d = entries.drop_last();
        assert(entries.last() == entries[entries.len() - 1]);
        assert forall|j: int| 0 <= j < d.len() implies (#[trigger] d[j]).0@ != name by {
            assert(d[j] == entries[j]);
        }
        lemma_span_level_absent(d, name);
    }
}

} // verus!
