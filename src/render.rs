//! Rendering a Markdown document into the page that the browser shows.

use pulldown_cmark::{html, Event, LinkType, Options, Parser, Tag};
use vstd::prelude::*;

use crate::links::{rewrite_target, transform_relative_path};

verus! {

/// The destinations of the link and image tags that pulldown-cmark reads in
/// `text`, with every extension on, in document order; each is paired with
/// whether it is the address of an email autolink (`<a@b.co>`).
pub uninterp spec fn link_targets_of(text: Seq<char>) -> Seq<(Seq<char>, bool)>;

/// The HTML that pulldown-cmark writes for `text`, with every extension on,
/// once the destination of the `i`-th link or image tag has been replaced by
/// `targets[i]` (by the empty string where `targets` is shorter).
pub uninterp spec fn html_with_targets(text: Seq<char>, targets: Seq<Seq<char>>) -> Seq<char>;

/// Relies on `pulldown_cmark::Parser::new_ext` (with `Options::all()`): the
/// destinations of the `Start(Link)` and `Start(Image)` events, in order,
/// each with whether its link type is `LinkType::Email`.
#[verifier::external_body]
fn parse_link_targets(text: &str) -> (r: Vec<(String, bool)>)
    ensures
        r@.map_values(|t: (String, bool)| (t.0@, t.1)) == link_targets_of(text@),
{
    Parser::new_ext(text, Options::all()).filter_map(|e| match e {
        Event::Start(Tag::Link { link_type: LinkType::Email, dest_url, .. }) => Some((dest_url.into_string(), true)),
        Event::Start(Tag::Link { dest_url, .. }) => Some((dest_url.into_string(), false)),
        Event::Start(Tag::Image { dest_url, .. }) => Some((dest_url.into_string(), false)),
        _ => None,
    }).collect()
}

/// Relies on `pulldown_cmark::Parser::new_ext` (with `Options::all()`) and
/// `pulldown_cmark::html::push_html`: the HTML of `text`, where the link and
/// image events carry the given destinations in turn.
#[verifier::external_body]
fn render_with_targets(text: &str, targets: Vec<String>) -> (r: String)
    ensures
        r@ == html_with_targets(text@, targets@.map_values(|s: String| s@)),
{
    let mut given = targets.into_iter();
    let events = Parser::new_ext(text, Options::all()).map(|e| match e {
        Event::Start(Tag::Link { link_type, title, id, .. }) =>
            Event::Start(Tag::Link { link_type, dest_url: given.next().unwrap_or_default().into(), title, id }),
        Event::Start(Tag::Image { link_type, title, id, .. }) =>
            Event::Start(Tag::Image { link_type, dest_url: given.next().unwrap_or_default().into(), title, id }),
        e => e,
    });
    let mut out = String::new();
    html::push_html(&mut out, events);
    out
}

/// Everything of the page before the rendered body.
pub const PAGE_HEAD: &'static str = r#"<!DOCTYPE html>
<html style="margin: 0; padding: 0; height: 100%;">
<head>
    <meta charset="UTF-8">
    <meta name="viewport" content="width=device-width, initial-scale=1.0">
    <title>Markdown Viewer</title>
    <style>
        * {
            box-sizing: border-box;
        }

        html, body {
            margin: 0;
            padding: 0;
            height: 100%;
        }

        body {
            font-family: -apple-system, BlinkMacSystemFont, 'Segoe UI', Roboto, sans-serif;
            line-height: 1.6;
            color: #333;
            max-width: 800px;
            margin: 0 auto;
            padding: 20px;
        }

        h1, h2, h3, h4, h5, h6 {
            margin-top: 1.5em;
            margin-bottom: 0.5em;
            font-weight: 600;
        }

        h1 { font-size: 2em; border-bottom: 1px solid #eee; padding-bottom: 0.3em; }
        h2 { font-size: 1.5em; border-bottom: 1px solid #eee; padding-bottom: 0.3em; }

        code {
            background-color: #f6f8fa;
            padding: 2px 4px;
            border-radius: 3px;
            font-family: 'SF Mono', Consolas, 'Liberation Mono', Menlo, monospace;
            font-size: 0.9em;
        }

        pre {
            background-color: #f6f8fa;
            padding: 16px;
            border-radius: 6px;
            overflow-x: auto;
        }

        pre code {
            background: none;
            padding: 0;
        }

        blockquote {
            border-left: 4px solid #dfe2e5;
            padding-left: 16px;
            margin-left: 0;
            color: #6a737d;
        }

        table {
            border-collapse: collapse;
            width: 100%;
            margin: 1em 0;
        }

        th, td {
            border: 1px solid #dfe2e5;
            padding: 8px 12px;
            text-align: left;
        }

        th {
            background-color: #f6f8fa;
            font-weight: 600;
        }

        img {
            max-width: 100%;
            height: auto;
        }

        .task-list-item {
            list-style-type: none;
        }

        .task-list-item input[type="checkbox"] {
            margin-right: 0.5em;
        }
    </style>
</head>
<body>
"#;

/// Everything of the page after the reload script.
pub const PAGE_TAIL: &'static str = "\n</body>\n</html>";

/// The script that keeps a push connection open, reloads on a `reload`
/// message, and reloads (reconnecting) once the connection is lost.
pub const PUSH_SCRIPT: &'static str = r#"
        <script>
            const ws = new WebSocket(`ws://${window.location.host}/ws`);
            ws.onmessage = function(event) {
                if (event.data === 'reload') {
                    location.reload();
                }
            };
            ws.onclose = function() {
                // Reconnect after a short delay
                setTimeout(() => {
                    location.reload();
                }, 1000);
            };
        </script>
        "#;

/// The part of the timed reload script before the interval.
pub const TIMER_SCRIPT_OPEN: &'static str = r#"
            <script>
                setInterval(() => {
                    location.reload();
                }, "#;

/// The part of the timed reload script after the interval; the three zeros
/// turn seconds into milliseconds.
pub const TIMER_SCRIPT_CLOSE: &'static str = r#"000);
            </script>
            "#;

/// The decimal digit for `d`.
pub open spec fn digit_char(d: nat) -> char {
    if d == 0 { '0' } else if d == 1 { '1' } else if d == 2 { '2' } else if d == 3 { '3' }
    else if d == 4 { '4' } else if d == 5 { '5' } else if d == 6 { '6' } else if d == 7 { '7' }
    else if d == 8 { '8' } else { '9' }
}

/// The decimal notation of `n`, without leading zeros.
pub open spec fn decimal(n: nat) -> Seq<char>
    decreases n,
{
    if n < 10 {
        seq![digit_char(n)]
    } else {
        decimal(n / 10).push(digit_char(n % 10))
    }
}

/// How a page keeps itself up to date.
#[derive(Clone, Copy, Debug, PartialEq, Eq, Structural)]
pub enum ReloadMode {
    /// Reload when the push connection says so; reconnect and reload when
    /// the connection is lost.
    Push,
    /// Reload unconditionally every given number of seconds.
    Timer(u64),
    /// Never reload: a read-only view.
    Off,
}

/// The script that the page ends with, for each reload mode.
pub open spec fn reload_script(mode: ReloadMode) -> Seq<char> {
    match mode {
        ReloadMode::Push => PUSH_SCRIPT@,
        ReloadMode::Timer(n) => TIMER_SCRIPT_OPEN@ + decimal(n as nat) + TIMER_SCRIPT_CLOSE@,
        ReloadMode::Off => Seq::empty(),
    }
}

/// The whole page around a rendered body.
pub open spec fn page_text(body: Seq<char>, mode: ReloadMode) -> Seq<char> {
    PAGE_HEAD@ + body + seq!['\n'] + reload_script(mode) + PAGE_TAIL@
}

/// Where one target found by the parser points once rendered: the address
/// of an email autolink is kept, every other target follows the
/// link-resolution rule.
pub open spec fn rewrite_link(t: (Seq<char>, bool)) -> Seq<char> {
    if t.1 {
        t.0
    } else {
        rewrite_target(t.0)
    }
}

/// Every target found by the parser, rewritten.
pub open spec fn rewrite_all(targets: Seq<(Seq<char>, bool)>) -> Seq<Seq<char>> {
    targets.map_values(|t: (Seq<char>, bool)| rewrite_link(t))
}

/// The page for the Markdown `text`.
pub open spec fn rendered_page(text: Seq<char>, mode: ReloadMode) -> Seq<char> {
    page_text(html_with_targets(text, rewrite_all(link_targets_of(text))), mode)
}

fn digit_text(d: u64) -> (r: &'static str)
    requires
        d < 10,
    ensures
        r@ == seq![digit_char(d as nat)],
{
    proof {
        reveal_strlit("0");
        reveal_strlit("1");
        reveal_strlit("2");
        reveal_strlit("3");
        reveal_strlit("4");
        reveal_strlit("5");
        reveal_strlit("6");
        reveal_strlit("7");
        reveal_strlit("8");
        reveal_strlit("9");
    }
    let r = if d == 0 { "0" } else if d == 1 { "1" } else if d == 2 { "2" } else if d == 3 { "3" }
    else if d == 4 { "4" } else if d == 5 { "5" } else if d == 6 { "6" } else if d == 7 { "7" }
    else if d == 8 { "8" } else { "9" };
    assert(r@ =~= seq![digit_char(d as nat)]);
    r
}

/// The decimal notation of `n`.
pub fn decimal_text(n: u64) -> (r: String)
    ensures
        r@ == decimal(n as nat),
    decreases n,
{
    if n < 10 {
        String::from_str(digit_text(n))
    } else {
        let mut r = decimal_text(n / 10);
        r.append(digit_text(n % 10));
        r
    }
}

/// Rewrites each link and image target found by the parser.
pub fn rewrite_targets(targets: &Vec<(String, bool)>) -> (r: Vec<String>)
    ensures
        r@.map_values(|s: String| s@) == rewrite_all(
            targets@.map_values(|t: (String, bool)| (t.0@, t.1)),
        ),
{
    let ghost ts = targets@.map_values(|t: (String, bool)| (t.0@, t.1));
    let mut r: Vec<String> = Vec::new();
    let mut i: usize = 0;
    while i < targets.len()
        invariant
            i <= targets@.len(),
            ts == targets@.map_values(|t: (String, bool)| (t.0@, t.1)),
            r@.len() == i,
            forall|j: int| 0 <= j < i ==> #[trigger] r@[j]@ == rewrite_link(ts[j]),
        decreases targets@.len() - i,
    {
        let (url, email) = &targets[i];
        if *email {
            r.push(String::from_str(url.as_str()));
        } else {
            r.push(transform_relative_path(url.as_str()));
        }
        i = i + 1;
    }
    assert(r@.map_values(|s: String| s@) =~= rewrite_all(ts));
    r
}

/// Wraps a rendered body into the page, with the reload script of `mode`.
pub fn page_from_body(body: &str, mode: ReloadMode) -> (r: String)
    ensures
        r@ == page_text(body@, mode),
{
    let mut page = String::from_str(PAGE_HEAD);
    page.append(body);
    proof {
        reveal_strlit("\n");
    }
    page.append("\n");
    match mode {
        ReloadMode::Push => {
            page.append(PUSH_SCRIPT);
        },
        ReloadMode::Timer(n) => {
            page.append(TIMER_SCRIPT_OPEN);
            let digits = decimal_text(n);
            page.append(digits.as_str());
            page.append(TIMER_SCRIPT_CLOSE);
        },
        ReloadMode::Off => {},
    }
    page.append(PAGE_TAIL);
    assert(page@ =~= page_text(body@, mode));
    page
}

/// The reload script of the page stands right after the body and its line
/// break, and the page closes with the tail.
pub proof fn lemma_page_holds_script(body: Seq<char>, mode: ReloadMode)
    ensures
        ({
            let page = page_text(body, mode);
            let h = PAGE_HEAD@.len() as int;
            let start = h + body.len() + 1;
            let end = start + reload_script(mode).len();
            &&& page.subrange(0, h) == PAGE_HEAD@
            &&& page.subrange(h, h + body.len()) == body
            &&& page.subrange(start, end) == reload_script(mode)
            &&& page.subrange(end, page.len() as int) == PAGE_TAIL@
        }),
{
    let page = page_text(body, mode);
    let h = PAGE_HEAD@.len() as int;
    let start = h + body.len() + 1;
    let end = start + reload_script(mode).len();
    assert(page.subrange(0, h) =~= PAGE_HEAD@);
    assert(page.subrange(h, h + body.len()) =~= body);
    assert(page.subrange(start, end) =~= reload_script(mode));
    assert(page.subrange(end, page.len() as int) =~= PAGE_TAIL@);
}

/// Renders the Markdown `content` into a complete page. Link and image
/// targets follow the link-resolution rule, email autolinks keep their
/// address, and the page ends with the reload script of `mode`. Any text
/// renders.
pub fn markdown_to_html(content: &str, mode: ReloadMode) -> (r: String)
    ensures
        r@ == rendered_page(content@, mode),
{
    let targets = parse_link_targets(content);
    let rewritten = rewrite_targets(&targets);
    let body = render_with_targets(content, rewritten);
    page_from_body(body.as_str(), mode)
}

} // verus!
