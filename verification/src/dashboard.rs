//! The dashboard: its HTML page, and which answer each request path gets.

use vstd::prelude::*;
use crate::text::{decimal, decimal_string, lines_of, owned, push_str, str_eq, text_lines, words, words_of};

verus! {

/// The dashboard page: routes, proxy state and metrics, refreshed from
/// `/api/status` every five seconds.
pub const INDEX_HTML: &'static str = r#"<!DOCTYPE html>
<html lang="en">
<head>
<meta charset="utf-8" />
<meta name="viewport" content="width=device-width, initial-scale=1" />
<title>Portless Dashboard</title>
<style>
:root { color-scheme: light dark; }
body { font-family: -apple-system, BlinkMacSystemFont, "Segoe UI", sans-serif; margin: 0; padding: 0; background: #f8fafc; color: #0f172a; }
header { background: #0f172a; color: #f8fafc; padding: 1rem 2rem; }
h1 { margin: 0; font-size: 1.25rem; }
main { max-width: 1024px; margin: 0 auto; padding: 1.5rem; }
section { background: #fff; border-radius: 0.5rem; padding: 1.5rem; margin-bottom: 1rem; box-shadow: 0 1px 2px rgba(0,0,0,0.04); }
h2 { margin-top: 0; font-size: 1.1rem; }
table { border-collapse: collapse; width: 100%; font-size: 0.9rem; }
th, td { padding: 0.5rem 0.75rem; text-align: left; border-bottom: 1px solid #e2e8f0; }
th { background: #f1f5f9; font-weight: 600; }
.muted { color: #64748b; }
.metric { display: inline-block; padding: 0.5rem 1rem; background: #eef2ff; color: #312e81; border-radius: 0.375rem; margin-right: 0.5rem; margin-bottom: 0.5rem; font-variant-numeric: tabular-nums; }
</style>
</head>
<body>
<header><h1>Portless</h1></header>
<main>
<section>
<h2>Routes</h2>
<table id="routes"><thead><tr><th>Hostname</th><th>Port</th><th>PID</th><th>Command</th><th>Started</th></tr></thead><tbody></tbody></table>
</section>
<section>
<h2>Metrics</h2>
<div id="metrics"></div>
</section>
<section>
<h2>Proxy</h2>
<pre id="proxy" class="muted">Loading…</pre>
</section>
</main>
<script>
async function refresh() {
  const r = await fetch('/api/status');
  if (!r.ok) return;
  const j = await r.json();
  const tbody = document.querySelector('#routes tbody');
  tbody.innerHTML = '';
  for (const route of j.routes) {
    const tr = document.createElement('tr');
    tr.innerHTML = `<td>${route.hostname}</td><td>${route.port}</td><td>${route.pid || ''}</td><td>${(route.command || '')}</td><td>${route.started_at}</td>`;
    tbody.appendChild(tr);
  }
  const m = j.metrics;
  document.getElementById('metrics').innerHTML =
    `<span class="metric">Requests: ${m.requests_total}</span>` +
    `<span class="metric">2xx/3xx: ${m.responses_2xx_3xx}</span>` +
    `<span class="metric">4xx: ${m.responses_4xx}</span>` +
    `<span class="metric">5xx: ${m.responses_5xx}</span>` +
    `<span class="metric">In flight: ${m.in_flight}</span>` +
    `<span class="metric">TLS: ${m.tls_handshakes}</span>` +
    `<span class="metric">Uptime: ${m.uptime_secs.toFixed(1)}s</span>`;
  document.getElementById('proxy').textContent = j.proxy ? JSON.stringify(j.proxy, null, 2) : 'not running';
}
refresh();
setInterval(refresh, 5000);
</script>
</body>
</html>"#;

/// Render the dashboard index page.
pub fn index() -> (r: String)
    ensures
        r@ == INDEX_HTML@,
{
    owned(INDEX_HTML)
}

/// What the dashboard answers with.
#[derive(Debug, Clone, Copy, PartialEq, Eq, Structural)]
pub enum DashboardPage {
    /// The HTML page (`/`, `/index.html`).
    Index,
    /// The JSON status (`/api/status`).
    Status,
    /// The Prometheus metrics (`/api/metrics`).
    Metrics,
    /// The health probe (`/healthz`).
    Health,
    /// Anything else.
    NotFound,
}

/// The path a raw HTTP request asks for: the second word of its first
/// line, `/` when there is none.
pub open spec fn request_path(request: Seq<char>) -> Seq<char> {
    let ls = text_lines(request);
    let first = if ls.len() > 0 {
        ls[0]
    } else {
        Seq::empty()
    };
    let ws = words(first);
    if ws.len() > 1 {
        ws[1]
    } else {
        "/"@
    }
}

/// The page a path gets.
pub open spec fn page_spec(path: Seq<char>) -> DashboardPage {
    if path == "/"@ || path == "/index.html"@ {
        DashboardPage::Index
    } else if path == "/api/status"@ {
        DashboardPage::Status
    } else if path == "/api/metrics"@ {
        DashboardPage::Metrics
    } else if path == "/healthz"@ {
        DashboardPage::Health
    } else {
        DashboardPage::NotFound
    }
}

/// The page a raw HTTP request asks for.
pub fn page_for(request: &str) -> (p: DashboardPage)
    ensures
        p == page_spec(request_path(request@)),
{
    let ls = lines_of(request);
    let first = if ls.len() > 0 {
        ls[0].clone()
    } else {
        String::new()
    };
    proof {
        if ls@.len() > 0 {
            assert(ls@.map_values(|x: String| x@)[0] == ls@[0]@);
        }
    }
    let ws = words_of(first.as_str());
    let path: &str = if ws.len() > 1 {
        ws[1].as_str()
    } else {
        "/"
    };
    if str_eq(path, "/") || str_eq(path, "/index.html") {
        DashboardPage::Index
    } else if str_eq(path, "/api/status") {
        DashboardPage::Status
    } else if str_eq(path, "/api/metrics") {
        DashboardPage::Metrics
    } else if str_eq(path, "/healthz") {
        DashboardPage::Health
    } else {
        DashboardPage::NotFound
    }
}

impl DashboardPage {
    /// The response's status line: `200 OK`, or `404 Not Found` for an
    /// unknown path.
    pub fn status_line(self) -> (r: &'static str)
        ensures
            r@ == if self == DashboardPage::NotFound {
                "HTTP/1.1 404 Not Found"@
            } else {
                "HTTP/1.1 200 OK"@
            },
    {
        match self {
            DashboardPage::NotFound => "HTTP/1.1 404 Not Found",
            _ => "HTTP/1.1 200 OK",
        }
    }

    /// The response's content type.
    pub fn content_type(self) -> (r: &'static str)
        ensures
            r@ == match self {
                DashboardPage::Index => "text/html; charset=utf-8"@,
                DashboardPage::Status => "application/json; charset=utf-8"@,
                DashboardPage::Metrics => "text/plain; version=0.0.4"@,
                _ => "text/plain; charset=utf-8"@,
            },
    {
        match self {
            DashboardPage::Index => "text/html; charset=utf-8",
            DashboardPage::Status => "application/json; charset=utf-8",
            DashboardPage::Metrics => "text/plain; version=0.0.4",
            _ => "text/plain; charset=utf-8",
        }
    }
}

/// A complete `connection: close` HTTP response with the body's length in
/// bytes.
pub fn http_response(status_line: &str, content_type: &str, body: &str) -> (r: String)
    ensures
        r@ == status_line@ + "\r\ncontent-type: "@ + content_type@ + "\r\ncontent-length: "@
            + decimal(vstd::utf8::encode_utf8(body@).len()) + "\r\nconnection: close\r\n\r\n"@
            + body@,
{
    let mut r = owned(status_line);
    push_str(&mut r, "\r\ncontent-type: ");
    push_str(&mut r, content_type);
    push_str(&mut r, "\r\ncontent-length: ");
    let n = decimal_string(body.as_bytes().len() as u64);
    push_str(&mut r, n.as_str());
    push_str(&mut r, "\r\nconnection: close\r\n\r\n");
    push_str(&mut r, body);
    r
}

} // verus!
