//! Instrumentation script builder: produces the self-contained script a pane
//! evaluates once per navigation, parameterized by the pane's label and the
//! relay destination. Two variants exist: a no-op placeholder that only binds
//! the label, and the full telemetry bridge described alongside the pane
//! manager. The pane label and destination are spliced in as quoted script
//! string literals with verified escaping, so no label can break out of its
//! literal.
//!
//! This module also builds the small scripts that drive navigation: the
//! lifecycle manager performs navigate, reload, back and forward uniformly
//! through in-pane script evaluation rather than a native primitive, so that
//! all navigation flows through one channel and is reported by one event path.

use vstd::prelude::*;

verus! {

/// Which instrumentation variant a pane is created with.
#[derive(Clone, Copy, PartialEq, Eq, Structural, Debug)]
pub enum ScriptVariant {
    /// Binds the label and does nothing else.
    Placeholder,
    /// The full telemetry bridge.
    Bridge,
}

/// How one character reads inside a double-quoted script string literal.
pub open spec fn js_escape_char(c: char) -> Seq<char> {
    if c == '\\' {
        seq!['\\', '\\']
    } else if c == '"' {
        seq!['\\', '"']
    } else if c == '\n' {
        seq!['\\', 'n']
    } else if c == '\r' {
        seq!['\\', 'r']
    } else if c == '\t' {
        seq!['\\', 't']
    } else {
        seq![c]
    }
}

/// The body of a double-quoted script string literal holding `s`.
pub open spec fn js_escape(s: Seq<char>) -> Seq<char>
    decreases s.len(),
{
    if s.len() == 0 {
        Seq::empty()
    } else {
        js_escape(s.drop_last()) + js_escape_char(s.last())
    }
}

/// `s` as a double-quoted script string literal.
pub open spec fn js_quoted(s: Seq<char>) -> Seq<char> {
    seq!['"'] + js_escape(s) + seq!['"']
}

/// Relies on `String::push`: appends exactly the one character.
#[verifier::external_body]
fn push_char(out: &mut String, c: char)
    ensures
        final(out)@ == old(out)@ + seq![c],
{
    out.push(c);
}

/// Renders `s` as a double-quoted script string literal, escaping the
/// characters that could end or distort the literal.
pub fn js_quote(s: &str) -> (out: String)
    ensures
        out@ == js_quoted(s@),
{
    proof {
        reveal_strlit("\"");
        reveal_strlit("\\\\");
        reveal_strlit("\\\"");
        reveal_strlit("\\n");
        reveal_strlit("\\r");
        reveal_strlit("\\t");
    }
    let n = s.unicode_len();
    let mut out = String::from_str("\"");
    assert(out@ =~= seq!['"'] + js_escape(s@.subrange(0, 0)));
    let mut i: usize = 0;
    while i < n
        invariant
            i <= n,
            n == s@.len(),
            out@ == seq!['"'] + js_escape(s@.subrange(0, i as int)),
        decreases n - i,
    {
        let c = s.get_char(i);
        if c == '\\' {
            out.append("\\\\");
        } else if c == '"' {
            out.append("\\\"");
        } else if c == '\n' {
            out.append("\\n");
        } else if c == '\r' {
            out.append("\\r");
        } else if c == '\t' {
            out.append("\\t");
        } else {
            push_char(&mut out, c);
        }
        proof {
            reveal_strlit("\\\\");
            reveal_strlit("\\\"");
            reveal_strlit("\\n");
            reveal_strlit("\\r");
            reveal_strlit("\\t");
            let pre = s@.subrange(0, i as int);
            let cur = s@.subrange(0, i + 1);
            assert(cur.drop_last() =~= pre);
            assert(cur.last() == s@[i as int]);
            assert(out@ =~= seq!['"'] + js_escape(cur));
        }
        i = i + 1;
    }
    proof {
        assert(s@.subrange(0, n as int) =~= s@);
    }
    out.append("\"");
    proof {
        assert(out@ =~= js_quoted(s@));
    }
    out
}

/// Opening of both script variants, up to the label literal.
pub const SCRIPT_OPEN: &'static str = "(() => {\n  const LABEL = ";

/// Close of the placeholder variant: binds the label and does nothing.
pub const PLACEHOLDER_CLOSE: &'static str = ";\n})();\n";

/// The placeholder variant rendered for a label.
pub open spec fn placeholder_script_view(label: Seq<char>) -> Seq<char> {
    SCRIPT_OPEN@ + js_quoted(label) + PLACEHOLDER_CLOSE@
}

/// Builds the no-op placeholder variant: the label is bound for symmetry with
/// the bridge and nothing is observed or emitted.
pub fn build_placeholder_script(label: &str) -> (s: String)
    ensures
        s@ == placeholder_script_view(label@),
{
    let mut s = String::from_str(SCRIPT_OPEN);
    let q = js_quote(label);
    s.append(q.as_str());
    s.append(PLACEHOLDER_CLOSE);
    proof {
        assert(s@ =~= placeholder_script_view(label@));
    }
    s
}

/// Bridge text between the label literal and the destination literal.
pub const BRIDGE_MID: &'static str = ";\n  const DEST = ";

/// The telemetry bridge body, after the destination literal. Every
/// observation block is fault-isolated so that one unsupported platform
/// feature cannot stop the others; every event carries the pane label and a
/// timestamp and goes to the one destination window, falling back to a
/// broadcast only when addressed delivery is unavailable.
pub const BRIDGE_BODY: &'static str = r#";
  const toMain = async (event, payload) => {
    try {
      const p = Object.assign({ label: LABEL, ts: Date.now() }, payload);
      const ev = window.__TAURI__ && window.__TAURI__.event;
      if (ev && ev.emitTo) {
        await ev.emitTo(DEST, event, p);
      } else if (ev && ev.emit) {
        await ev.emit(event, p);
      }
    } catch (_) {}
  };

  const limit = (arr, n) => arr.slice(-n);
  let recentLogs = [];
  let lastSelection = '';

  const snapshot = () => {
    try {
      const metas = {};
      for (const m of document.querySelectorAll('meta[name][content], meta[property][content]')) {
        const key = m.getAttribute('name') || m.getAttribute('property');
        if (key && !(key in metas)) metas[key] = m.getAttribute('content') || '';
      }
      const links = Array.from(document.querySelectorAll('a[href]')).slice(0, 200).map(a => ({
        href: a.href,
        text: (a.textContent || '').trim().slice(0, 140),
      }));
      const headings = Array.from(document.querySelectorAll('h1,h2,h3')).slice(0, 50).map(h => ({
        tag: h.tagName,
        text: (h.textContent || '').trim().slice(0, 160),
      }));
      const icons = Array.from(document.querySelectorAll('link[rel~="icon"]')).map(l => l.href);
      const themeColor = (document.querySelector('meta[name="theme-color"]') || {}).content || null;
      toMain('webview-telemetry', {
        kind: 'page-info',
        title: document.title,
        url: location.href,
        lang: document.documentElement.getAttribute('lang') || null,
        metas,
        icons,
        themeColor,
        links,
        headings,
      });
    } catch (_) {}
  };

  if (document.readyState !== 'loading') snapshot();
  document.addEventListener('DOMContentLoaded', snapshot, { once: true });

  document.addEventListener('selectionchange', () => {
    try {
      const sel = window.getSelection();
      const text = (sel && sel.toString()) ? sel.toString().trim().slice(0, 500) : '';
      if (text && text !== lastSelection) {
        lastSelection = text;
        toMain('webview-telemetry', { kind: 'selection', text });
      }
    } catch (_) {}
  });

  try {
    const perfHandler = (list) => {
      for (const e of list.getEntries()) {
        if (e.entryType === 'resource') {
          toMain('webview-telemetry', { kind: 'resource', item: {
            type: e.initiatorType,
            name: e.name,
            duration: e.duration,
            startTime: e.startTime,
            transferSize: e.transferSize,
          } });
        } else if (e.entryType === 'paint') {
          toMain('webview-telemetry', { kind: 'paint', name: e.name, startTime: e.startTime });
        } else if (e.entryType === 'largest-contentful-paint') {
          toMain('webview-telemetry', { kind: 'lcp', startTime: e.startTime, size: e.size, url: e.url || null });
        } else if (e.entryType === 'navigation') {
          toMain('webview-telemetry', { kind: 'navigation', domContentLoaded: e.domContentLoadedEventEnd, loadEventEnd: e.loadEventEnd, type: e.type });
        } else if (e.entryType === 'longtask') {
          toMain('webview-telemetry', { kind: 'longtask', startTime: e.startTime, duration: e.duration });
        }
      }
    };
    const po = new PerformanceObserver(perfHandler);
    po.observe({ entryTypes: ['resource', 'paint', 'largest-contentful-paint', 'navigation', 'longtask'] });
  } catch (_) {}

  try {
    const origFetch = window.fetch;
    window.fetch = async (...args) => {
      const started = performance.now();
      const input = args[0];
      const info = args[1] || {};
      const url = (typeof input === 'string') ? input : input.url;
      const method = (info && info.method) || (typeof input !== 'string' && input.method) || 'GET';
      try {
        const res = await origFetch(...args);
        const ended = performance.now();
        let preview = null;
        const ct = res.headers.get('content-type') || '';
        if (ct.indexOf('application/json') !== -1) {
          try { preview = JSON.stringify(await res.clone().json()).slice(0, 2000); } catch (_) {}
        } else if (ct.lastIndexOf('text/', 0) === 0) {
          try { preview = (await res.clone().text()).slice(0, 2000); } catch (_) {}
        }
        toMain('webview-telemetry', { kind: 'fetch', url, method, status: res.status, duration: ended - started, preview });
        return res;
      } catch (err) {
        const ended = performance.now();
        toMain('webview-telemetry', { kind: 'fetch-error', url, method, error: String(err), duration: ended - started });
        throw err;
      }
    };
  } catch (_) {}

  try {
    const OrigXHR = window.XMLHttpRequest;
    function XHR() {
      const xhr = new OrigXHR();
      let url = '';
      let method = 'GET';
      let started = 0;
      const origOpen = xhr.open;
      const origSend = xhr.send;
      xhr.open = function(m, u, ...rest) { method = m; url = u; return origOpen.call(this, m, u, ...rest); };
      xhr.send = function(...rest) { started = performance.now(); return origSend.apply(this, rest); };
      xhr.addEventListener('loadend', function() {
        const ended = performance.now();
        toMain('webview-telemetry', { kind: 'xhr', url, method, status: xhr.status, duration: ended - started });
      });
      return xhr;
    }
    window.XMLHttpRequest = XHR;
  } catch (_) {}

  (() => {
    const levels = ['log', 'info', 'warn', 'error'];
    for (const level of levels) {
      const orig = console[level];
      console[level] = function(...args) {
        try {
          const msg = args.map(a => { try { return typeof a === 'string' ? a : JSON.stringify(a); } catch (_) { return String(a); } }).join(' ');
          recentLogs = limit([...recentLogs, { level, msg }], 50);
          toMain('webview-telemetry', { kind: 'console', level, message: msg });
        } catch (_) {}
        return orig.apply(this, args);
      };
    }
  })();

  window.addEventListener('error', (e) => toMain('webview-telemetry', { kind: 'error', message: e && e.message || 'Error', source: e && e.filename || null, lineno: e && e.lineno || null, colno: e && e.colno || null }), { capture: true });
  window.addEventListener('unhandledrejection', (e) => toMain('webview-telemetry', { kind: 'unhandledrejection', reason: String(e && e.reason) }), { capture: true });

  setInterval(() => {
    try { toMain('webview-telemetry', { kind: 'heartbeat', title: document.title, url: location.href }); } catch (_) {}
  }, 5000);

  toMain('webview-telemetry', { kind: 'init' });
})();
"#;

/// The full bridge rendered for a label and a relay destination.
pub open spec fn bridge_script_view(label: Seq<char>, dest: Seq<char>) -> Seq<char> {
    SCRIPT_OPEN@ + js_quoted(label) + BRIDGE_MID@ + js_quoted(dest) + BRIDGE_BODY@
}

/// Builds the full telemetry bridge, bound to the pane's label and addressed
/// to the relay destination window.
pub fn build_bridge_script(label: &str, dest: &str) -> (s: String)
    ensures
        s@ == bridge_script_view(label@, dest@),
{
    let mut s = String::from_str(SCRIPT_OPEN);
    let ql = js_quote(label);
    s.append(ql.as_str());
    s.append(BRIDGE_MID);
    let qd = js_quote(dest);
    s.append(qd.as_str());
    s.append(BRIDGE_BODY);
    proof {
        assert(s@ =~= bridge_script_view(label@, dest@));
    }
    s
}

/// The variant's script rendered for a label and destination.
pub open spec fn init_script_view(variant: ScriptVariant, label: Seq<char>, dest: Seq<char>) -> Seq<
    char,
> {
    match variant {
        ScriptVariant::Placeholder => placeholder_script_view(label),
        ScriptVariant::Bridge => bridge_script_view(label, dest),
    }
}

/// Builds the initialization script of the chosen variant.
pub fn build_init_script(variant: ScriptVariant, label: &str, dest: &str) -> (s: String)
    ensures
        s@ == init_script_view(variant, label@, dest@),
{
    match variant {
        ScriptVariant::Placeholder => build_placeholder_script(label),
        ScriptVariant::Bridge => build_bridge_script(label, dest),
    }
}

/// Opening of the navigation-driving script, up to the target URL.
pub const NAVIGATE_OPEN: &'static str = "window.location.href = '";

/// Close of the navigation-driving script.
pub const NAVIGATE_CLOSE: &'static str = "'";

/// The navigation script rendered for a target URL: the URL is spliced in
/// verbatim, exactly as the caller supplied it.
pub open spec fn navigate_script_view(url: Seq<char>) -> Seq<char> {
    NAVIGATE_OPEN@ + url + NAVIGATE_CLOSE@
}

/// Builds the script that drives a pane to a new URL by assignment, keeping
/// navigation on the same script-evaluation channel as reload, back and
/// forward.
pub fn build_navigate_script(url: &str) -> (s: String)
    ensures
        s@ == navigate_script_view(url@),
{
    let mut s = String::from_str(NAVIGATE_OPEN);
    s.append(url);
    s.append(NAVIGATE_CLOSE);
    proof {
        assert(s@ =~= navigate_script_view(url@));
    }
    s
}

/// Script that triggers a full reload of the pane's current page.
pub const RELOAD_SCRIPT: &'static str = "location.reload()";

/// Script that steps the pane one entry back in its browsing history.
pub const BACK_SCRIPT: &'static str = "history.back()";

/// Script that steps the pane one entry forward in its browsing history.
pub const FORWARD_SCRIPT: &'static str = "history.forward()";

} // verus!
