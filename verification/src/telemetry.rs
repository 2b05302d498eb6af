//! Model of the telemetry bridge's in-pane bookkeeping: the event taxonomy,
//! the caps the bridge applies to what it forwards, the selection-change
//! deduplication that bounds event volume, and the bounded ring of recent
//! console lines. The script built in [`crate::script`] runs these rules
//! inside the pane; this module states them exactly and proves the bounds, so
//! the host side and any consumer of the events can rely on them.

use vstd::prelude::*;

verus! {

/// The kinds of telemetry events the bridge emits.
#[derive(Clone, Copy, PartialEq, Eq, Structural, Debug)]
pub enum TelemetryKind {
    PageInfo,
    Selection,
    Resource,
    Paint,
    Lcp,
    Navigation,
    LongTask,
    Fetch,
    FetchError,
    Xhr,
    Console,
    Error,
    UnhandledRejection,
    Heartbeat,
    Init,
}

/// Wire name of each telemetry kind, as the bridge tags its events.
pub open spec fn kind_name_view(k: TelemetryKind) -> Seq<char> {
    match k {
        TelemetryKind::PageInfo => "page-info"@,
        TelemetryKind::Selection => "selection"@,
        TelemetryKind::Resource => "resource"@,
        TelemetryKind::Paint => "paint"@,
        TelemetryKind::Lcp => "lcp"@,
        TelemetryKind::Navigation => "navigation"@,
        TelemetryKind::LongTask => "longtask"@,
        TelemetryKind::Fetch => "fetch"@,
        TelemetryKind::FetchError => "fetch-error"@,
        TelemetryKind::Xhr => "xhr"@,
        TelemetryKind::Console => "console"@,
        TelemetryKind::Error => "error"@,
        TelemetryKind::UnhandledRejection => "unhandledrejection"@,
        TelemetryKind::Heartbeat => "heartbeat"@,
        TelemetryKind::Init => "init"@,
    }
}

impl TelemetryKind {
    /// The tag the bridge writes into an event of this kind.
    pub fn name(self) -> (s: &'static str)
        ensures
            s@ == kind_name_view(self),
    {
        match self {
            TelemetryKind::PageInfo => "page-info",
            TelemetryKind::Selection => "selection",
            TelemetryKind::Resource => "resource",
            TelemetryKind::Paint => "paint",
            TelemetryKind::Lcp => "lcp",
            TelemetryKind::Navigation => "navigation",
            TelemetryKind::LongTask => "longtask",
            TelemetryKind::Fetch => "fetch",
            TelemetryKind::FetchError => "fetch-error",
            TelemetryKind::Xhr => "xhr",
            TelemetryKind::Console => "console",
            TelemetryKind::Error => "error",
            TelemetryKind::UnhandledRejection => "unhandledrejection",
            TelemetryKind::Heartbeat => "heartbeat",
            TelemetryKind::Init => "init",
        }
    }
}

/// Longest selection text the bridge forwards, in characters.
pub const SELECTION_CAP: usize = 500;

/// Longest response-body preview a fetch or XHR event carries, in characters.
pub const PREVIEW_CAP: usize = 2000;

/// How many recent console lines the bridge retains in the pane.
pub const CONSOLE_KEEP: usize = 50;

/// How many outbound links one page-info snapshot carries at most.
pub const LINK_CAP: usize = 200;

/// How many heading elements one page-info snapshot carries at most.
pub const HEADING_CAP: usize = 50;

/// Milliseconds between two heartbeat events of an idle pane.
pub const HEARTBEAT_INTERVAL_MS: u64 = 5000;

/// The first `max` characters of `s`; all of it when it is shorter.
pub open spec fn capped(s: Seq<char>, max: int) -> Seq<char> {
    if s.len() <= max {
        s
    } else {
        s.subrange(0, max)
    }
}

/// Truncates a string to at most `max` characters.
pub fn cap_chars(s: &str, max: usize) -> (out: String)
    ensures
        out@ == capped(s@, max as int),
{
    let n = s.unicode_len();
    if n <= max {
        s.to_owned()
    } else {
        let t = s.substring_char(0, max);
        t.to_owned()
    }
}

/// What one selection observation emits: the capped text, but only when it is
/// nonempty and differs from the last emitted selection.
pub open spec fn selection_event(last: Seq<char>, text: Seq<char>) -> Option<Seq<char>> {
    let t = capped(text, SELECTION_CAP as int);
    if t.len() > 0 && t != last {
        Some(t)
    } else {
        None
    }
}

/// The last-emitted selection after one observation.
pub open spec fn selection_next(last: Seq<char>, text: Seq<char>) -> Seq<char> {
    match selection_event(last, text) {
        Some(t) => t,
        None => last,
    }
}

/// Watches text-selection changes and decides which of them become telemetry:
/// only a nonempty selection that differs from the last emitted one is
/// forwarded, so repeated reports of an unchanged selection cost nothing.
pub struct SelectionMonitor {
    last: String,
}

impl SelectionMonitor {
    /// The last selection text the monitor emitted.
    pub closed spec fn last_view(&self) -> Seq<char> {
        self.last@
    }

    /// A fresh monitor that has emitted nothing yet.
    pub fn new() -> (m: SelectionMonitor)
        ensures
            m.last_view() == Seq::<char>::empty(),
    {
        SelectionMonitor { last: String::new() }
    }

    /// Observes one selection-change report and returns the telemetry text to
    /// emit, or nothing when the (capped) selection is empty or unchanged.
    pub fn observe(&mut self, text: &str) -> (r: Option<String>)
        ensures
            r is Some <==> selection_event(old(self).last_view(), text@) is Some,
            r matches Some(t) ==> Some(t@) == selection_event(old(self).last_view(), text@),
            final(self).last_view() == selection_next(old(self).last_view(), text@),
    {
        let t = cap_chars(text, SELECTION_CAP);
        if !t.as_str().is_empty() && !t.eq(&self.last) {
            let out = t.clone();
            self.last = t;
            Some(out)
        } else {
            None
        }
    }
}

/// Law: reporting the same selection twice emits at most one event; the
/// second observation of a text emits nothing, whatever came before.
pub proof fn lemma_selection_dedup(last: Seq<char>, text: Seq<char>)
    ensures
        selection_event(selection_next(last, text), text) is None,
{
}

/// One meta tag as the page-info snapshot reads it: the key is the tag's
/// name or property, the content its value.
pub struct MetaTag {
    pub key: String,
    pub content: String,
}

/// Some tag in `s` carries key `k`.
pub open spec fn has_meta_key(s: Seq<MetaTag>, k: Seq<char>) -> bool {
    exists|i: int| 0 <= i < s.len() && (#[trigger] s[i]).key@ == k
}

/// The snapshot's deduplication: of tags sharing a key, the first read wins,
/// and the surviving tags keep their order.
pub open spec fn dedup_metas(s: Seq<MetaTag>) -> Seq<MetaTag>
    decreases s.len(),
{
    if s.len() == 0 {
        Seq::empty()
    } else if has_meta_key(s.drop_last(), s.last().key@) {
        dedup_metas(s.drop_last())
    } else {
        dedup_metas(s.drop_last()).push(s.last())
    }
}

/// Whether any retained tag already carries the key.
fn metas_contain_key(out: &Vec<MetaTag>, key: &String) -> (b: bool)
    ensures
        b == has_meta_key(out@, key@),
{
    let n = out.len();
    let mut i: usize = 0;
    while i < n
        invariant
            i <= n,
            n == out@.len(),
            forall|j: int| 0 <= j < i ==> (#[trigger] out@[j]).key@ != key@,
        decreases n - i,
    {
        if out[i].key.eq(key) {
            return true;
        }
        i = i + 1;
    }
    false
}

/// Deduplicates the snapshot's meta tags by key: the first content seen for
/// each key is kept, in reading order.
pub fn dedup_meta_tags(tags: &Vec<MetaTag>) -> (out: Vec<MetaTag>)
    ensures
        out@ == dedup_metas(tags@),
{
    let n = tags.len();
    let mut out: Vec<MetaTag> = Vec::new();
    proof {
        assert(tags@.subrange(0, 0) =~= Seq::<MetaTag>::empty());
    }
    let mut i: usize = 0;
    while i < n
        invariant
            i <= n,
            n == tags@.len(),
            out@ == dedup_metas(tags@.subrange(0, i as int)),
        decreases n - i,
    {
        let tag = &tags[i];
        let keep = !metas_contain_key(&out, &tag.key);
        proof {
            let pre = tags@.subrange(0, i as int);
            let cur = tags@.subrange(0, i + 1);
            assert(cur.drop_last() =~= pre);
            assert(cur.last() == tags@[i as int]);
            lemma_dedup_has_key(pre, tags@[i as int].key@);
        }
        if keep {
            out.push(MetaTag { key: tag.key.clone(), content: tag.content.clone() });
        }
        i = i + 1;
    }
    proof {
        assert(tags@.subrange(0, n as int) =~= tags@);
    }
    out
}

/// Deduplication keeps exactly the keys of its input.
proof fn lemma_dedup_has_key(s: Seq<MetaTag>, k: Seq<char>)
    ensures
        has_meta_key(dedup_metas(s), k) == has_meta_key(s, k),
    decreases s.len(),
{
    if s.len() > 0 {
        let pre = s.drop_last();
        lemma_dedup_has_key(pre, k);
        let d = dedup_metas(s);
        let dp = dedup_metas(pre);
        if has_meta_key(s, k) {
            let i = choose|i: int| 0 <= i < s.len() && (#[trigger] s[i]).key@ == k;
            if i < s.len() - 1 {
                assert(pre[i] == s[i]);
                assert(has_meta_key(pre, k));
            } else {
                assert(s.last().key@ == k);
                if !has_meta_key(pre, k) {
                    assert(d == dp.push(s.last()));
                    assert(d[d.len() - 1] == s.last());
                    assert(has_meta_key(d, k));
                }
            }
        }
        if has_meta_key(pre, k) {
            let i = choose|i: int| 0 <= i < pre.len() && (#[trigger] pre[i]).key@ == k;
            assert(s[i] == pre[i]);
            assert(has_meta_key(s, k));
            assert(has_meta_key(dp, k));
            if !has_meta_key(pre, s.last().key@) {
                assert(d == dp.push(s.last()));
                let j = choose|j: int| 0 <= j < dp.len() && (#[trigger] dp[j]).key@ == k;
                assert(d[j] == dp[j]);
                assert(has_meta_key(d, k));
            }
        }
        if has_meta_key(d, k) && !has_meta_key(pre, k) {
            if has_meta_key(pre, s.last().key@) {
                assert(d == dp);
            } else {
                assert(d == dp.push(s.last()));
                let i = choose|i: int| 0 <= i < d.len() && (#[trigger] d[i]).key@ == k;
                if i < dp.len() {
                    assert(dp[i] == d[i]);
                    assert(has_meta_key(dp, k));
                } else {
                    assert(d[i] == s.last());
                    assert(s[s.len() - 1].key@ == k);
                    assert(has_meta_key(s, k));
                }
            }
        }
    }
}

/// One proxied console line.
pub struct ConsoleLine {
    pub level: LogLevel,
    pub message: String,
}

/// The four console severities the bridge proxies.
#[derive(Clone, Copy, PartialEq, Eq, Structural, Debug)]
pub enum LogLevel {
    Log,
    Info,
    Warn,
    Error,
}

/// Wire name of each console severity.
pub open spec fn level_name_view(l: LogLevel) -> Seq<char> {
    match l {
        LogLevel::Log => "log"@,
        LogLevel::Info => "info"@,
        LogLevel::Warn => "warn"@,
        LogLevel::Error => "error"@,
    }
}

impl LogLevel {
    /// The tag a console event carries for this severity.
    pub fn name(self) -> (s: &'static str)
        ensures
            s@ == level_name_view(self),
    {
        match self {
            LogLevel::Log => "log",
            LogLevel::Info => "info",
            LogLevel::Warn => "warn",
            LogLevel::Error => "error",
        }
    }
}

/// The last `n` elements of `s`; all of it when it is shorter.
pub open spec fn kept_last(s: Seq<ConsoleLine>, n: int) -> Seq<ConsoleLine> {
    if s.len() <= n {
        s
    } else {
        s.subrange(s.len() - n, s.len() as int)
    }
}

/// The in-pane ring of recent console lines: it retains the last
/// [`CONSOLE_KEEP`] lines, oldest out first.
pub struct ConsoleBuffer {
    lines: Vec<ConsoleLine>,
}

impl ConsoleBuffer {
    /// The retained lines, oldest first.
    pub closed spec fn log_view(&self) -> Seq<ConsoleLine> {
        self.lines@
    }

    /// The ring never holds more than [`CONSOLE_KEEP`] lines.
    pub closed spec fn wf(&self) -> bool {
        self.lines@.len() <= CONSOLE_KEEP
    }

    /// An empty ring.
    pub fn new() -> (b: ConsoleBuffer)
        ensures
            b.wf(),
            b.log_view() == Seq::<ConsoleLine>::empty(),
    {
        ConsoleBuffer { lines: Vec::new() }
    }

    /// How many lines are retained.
    pub fn len(&self) -> (n: usize)
        ensures
            n == self.log_view().len(),
    {
        self.lines.len()
    }

    /// Records one console line, dropping the oldest line once the ring is
    /// full.
    pub fn push(&mut self, line: ConsoleLine)
        requires
            old(self).wf(),
        ensures
            final(self).wf(),
            final(self).log_view() == kept_last(
                old(self).log_view().push(line),
                CONSOLE_KEEP as int,
            ),
    {
        if self.lines.len() == CONSOLE_KEEP {
            self.lines.remove(0);
        }
        self.lines.push(line);
        proof {
            assert(self.lines@ =~= kept_last(old(self).log_view().push(line), CONSOLE_KEEP as int));
        }
    }
}

} // verus!
