//! The request dispatcher: decode the request path, apply the URL-shape
//! invariants, consult the policy engine, and route to one of the content
//! strategies, producing a rendered page or a structured error.
//!
//! The embedding HTTP server owns the socket and the filesystem reads; it
//! hands this module plain values (segments, metadata, file contents) and
//! performs the outcome it is handed back.

use vstd::prelude::*;

use std::sync::Arc;

use crate::config::{spec_method_for, AccessMethod, Config, ConfigV};
use crate::renderer::{RenderError, RenderErrorV, Renderer};

verus! {

/// The HTML that pulldown-cmark converts a Markdown text into.
pub uninterp spec fn html_of(markdown: Seq<char>) -> Seq<char>;

/// Relies on pulldown_cmark's `Parser::new` and `html::push_html`: with
/// default options the produced HTML is a function of the Markdown source
/// text alone.
#[verifier::external_body]
fn markdown_to_html(content: &str) -> (r: String)
    ensures
        r@ == html_of(content@),
{
    let parser = pulldown_cmark::Parser::new(content);
    let mut html = String::new();
    pulldown_cmark::html::push_html(&mut html, parser);
    html
}

/// What a percent-encoded path segment decodes to; `None` where the decoded
/// bytes are not valid UTF-8.
pub uninterp spec fn percent_decoded(s: Seq<char>) -> Option<Seq<char>>;

/// Relies on `percent_encoding::percent_decode` and its `decode_utf8`: the
/// decoding of the `%` escapes is a function of the segment text alone, and
/// fails exactly where the decoded bytes are not valid UTF-8.
#[verifier::external_body]
fn percent_decode_segment(s: &str) -> (r: Option<String>)
    ensures
        r is Some <==> percent_decoded(s@) is Some,
        r is Some ==> r.unwrap()@ == percent_decoded(s@).unwrap(),
{
    match percent_encoding::percent_decode(s.as_bytes()).decode_utf8() {
        Ok(c) => Some(c.into_owned()),
        Err(_) => None,
    }
}

/// The decoded form of a whole segment list; `None` as soon as one segment
/// fails to decode.
pub open spec fn spec_decode_segments(raw: Seq<Seq<char>>) -> Option<Seq<Seq<char>>>
    decreases raw.len(),
{
    if raw.len() == 0 {
        Some(Seq::empty())
    } else {
        match spec_decode_segments(raw.drop_last()) {
            None => None,
            Some(p) => match percent_decoded(raw.last()) {
                None => None,
                Some(d) => Some(p.push(d)),
            },
        }
    }
}

proof fn lemma_decode_prefix_none(raw: Seq<Seq<char>>, k: int)
    requires
        0 <= k <= raw.len(),
        spec_decode_segments(raw.take(k)) is None,
    ensures
        spec_decode_segments(raw) is None,
    decreases raw.len() - k,
{
    if k < raw.len() {
        assert(raw.take(k + 1).drop_last() =~= raw.take(k));
        lemma_decode_prefix_none(raw, k + 1);
    } else {
        assert(raw.take(k) =~= raw);
    }
}

/// Decodes every percent-encoded segment of the request path; `None` where
/// any segment does not decode to valid UTF-8.
pub fn decode_segments(raw_segments: &Vec<String>) -> (r: Option<Vec<String>>)
    ensures
        match r {
            Some(v) => spec_decode_segments(raw_segments.deep_view()) == Some(v.deep_view()),
            None => spec_decode_segments(raw_segments.deep_view()) is None,
        },
{
    let ghost raw = raw_segments.deep_view();
    let mut out: Vec<String> = Vec::new();
    let mut i: usize = 0;
    while i < raw_segments.len()
        invariant
            i <= raw_segments.len(),
            raw == raw_segments.deep_view(),
            spec_decode_segments(raw.take(i as int)) == Some(out.deep_view()),
        decreases raw_segments.len() - i,
    {
        proof {
            assert(raw.take(i + 1).drop_last() =~= raw.take(i as int));
            assert(raw.take(i + 1).last() == raw[i as int]);
        }
        match percent_decode_segment(raw_segments[i].as_str()) {
            Some(d) => {
                let ghost pre = out.deep_view();
                out.push(d);
                proof {
                    assert(out.deep_view() =~= pre.push(d@));
                }
            },
            None => {
                proof {
                    lemma_decode_prefix_none(raw, i + 1);
                }
                return None;
            },
        }
        i = i + 1;
    }
    proof {
        assert(raw.take(raw_segments.len() as int) =~= raw);
    }
    Some(out)
}

/// Whether the request URL ends in a trailing slash: its last segment is
/// empty.
pub open spec fn spec_has_trailing_slash(segs: Seq<Seq<char>>) -> bool {
    segs.len() > 0 && segs.last().len() == 0
}

/// Whether the request URL carries a trailing slash.
pub fn has_trailing_slash(segments: &Vec<String>) -> (r: bool)
    ensures
        r == spec_has_trailing_slash(segments.deep_view()),
{
    if segments.len() == 0 {
        false
    } else {
        segments[segments.len() - 1].as_str().is_empty()
    }
}

/// The last segment of a URL path, seen abstractly.
pub open spec fn opt_segment(o: Option<&String>) -> Option<Seq<char>> {
    match o {
        Some(s) => Some(s@),
        None => None,
    }
}

/// Whether the embedding router normalized the mount root by appending a
/// trailing slash: the original URL's last segment differs from the last
/// segment being handled. The dispatcher then answers with a permanent
/// redirect to the slash-terminated URL instead of serving content.
pub fn mount_redirect_needed(original_last: Option<&String>, handled_last: Option<&String>) -> (r:
    bool)
    ensures
        r == (opt_segment(original_last) != opt_segment(handled_last)),
{
    match (original_last, handled_last) {
        (Some(a), Some(b)) => !(*a == *b),
        (None, None) => false,
        _ => true,
    }
}

/// Where a request is routed once the policy has spoken.
#[derive(Debug, Clone, Copy, Eq, PartialEq, Structural)]
pub enum RouteDecision {
    /// Answer 404 through the error page.
    NotFound,
    /// Stream the file's bytes unmodified with status 200.
    ServeRaw,
    /// Read the file as UTF-8 and render it as Markdown.
    LoadMarkdown,
    /// Read the file as UTF-8 and render it verbatim.
    LoadVerbatim,
    /// Enumerate the directory and render its listing.
    ListDir,
}

/// The routing rule: denied paths are not found; directories are served
/// only with a trailing slash and files only without one; raw mode serves
/// every file as raw bytes and refuses directories; otherwise the access
/// method picks the strategy.
pub open spec fn spec_route(
    raw: bool,
    access: Option<AccessMethod>,
    trailing_slash: bool,
) -> RouteDecision {
    match access {
        None => RouteDecision::NotFound,
        Some(m) => {
            if (trailing_slash && m.spec_is_file()) || (!trailing_slash && m.spec_is_dir()) {
                RouteDecision::NotFound
            } else if raw {
                if m.spec_is_file() {
                    RouteDecision::ServeRaw
                } else {
                    RouteDecision::NotFound
                }
            } else {
                match m {
                    AccessMethod::Markdown => RouteDecision::LoadMarkdown,
                    AccessMethod::Verbatim => RouteDecision::LoadVerbatim,
                    AccessMethod::Raw => RouteDecision::ServeRaw,
                    AccessMethod::Dir => RouteDecision::ListDir,
                }
            }
        },
    }
}

/// A successfully rendered response: an HTTP status and a page body.
#[derive(Debug)]
pub struct Page {
    pub status: usize,
    pub body: String,
}

/// `r` wraps the rendered `body` with `status`, or passes the renderer's
/// failure through.
pub open spec fn page_reply(
    body: Result<Seq<char>, RenderErrorV>,
    status: usize,
    r: Result<Page, RenderError>,
) -> bool {
    match (r, body) {
        (Ok(p), Ok(b)) => p.status == status && p.body@ == b,
        (Err(e), Err(f)) => e@ == f,
        _ => false,
    }
}

/// A handler that serves directory indices and files out of a configured
/// root, through a shared renderer.
pub struct Archivist<T: Renderer> {
    /// Serve every file as raw bytes and refuse directories.
    pub raw: bool,
    /// The configured root directory, joined by the embedder with the
    /// decoded request path.
    pub root: String,
    /// The shared, read-only configuration.
    pub config: Config,
    /// The shared renderer capability.
    pub renderer: Arc<T>,
}

impl<T: Renderer> Archivist<T> {
    /// Summons an `Archivist` using a certain configuration.
    pub fn summon(config: &Config, renderer: Arc<T>) -> (a: Archivist<T>)
        ensures
            a.raw == false,
            a.root@ == config@.root_dir,
            a.config@ == config@,
            a.renderer == renderer,
    {
        Archivist {
            raw: false,
            root: config.root_dir.clone(),
            config: config.clone(),
            renderer,
        }
    }

    /// Summons an `Archivist` which serves all files as they are, using a
    /// certain configuration.
    pub fn summon_raw(config: &Config, renderer: Arc<T>) -> (a: Archivist<T>)
        ensures
            a.raw == true,
            a.root@ == config@.root_dir,
            a.config@ == config@,
            a.renderer == renderer,
    {
        Archivist {
            raw: true,
            root: config.root_dir.clone(),
            config: config.clone(),
            renderer,
        }
    }

    /// Routes a request from the policy's access decision and the URL shape,
    /// exactly as [`spec_route`] says.
    pub fn route(&self, access: Option<AccessMethod>, trailing_slash: bool) -> (r: RouteDecision)
        ensures
            r == spec_route(self.raw, access, trailing_slash),
    {
        match access {
            None => RouteDecision::NotFound,
            Some(m) => {
                let mismatch = (trailing_slash && m.is_file()) || (!trailing_slash && m.is_dir());
                if mismatch {
                    RouteDecision::NotFound
                } else if self.raw {
                    if m.is_file() {
                        RouteDecision::ServeRaw
                    } else {
                        RouteDecision::NotFound
                    }
                } else {
                    match m {
                        AccessMethod::Markdown => RouteDecision::LoadMarkdown,
                        AccessMethod::Verbatim => RouteDecision::LoadVerbatim,
                        AccessMethod::Raw => RouteDecision::ServeRaw,
                        AccessMethod::Dir => RouteDecision::ListDir,
                    }
                }
            },
        }
    }

    /// Renders the fixed 404 page for a path that is not served.
    pub fn not_found(&self, path_str: &str) -> (r: Result<Page, RenderError>)
        ensures
            page_reply(
                self.renderer.error_page(path_str@, 404, "The requested archive is not found"@),
                404,
                r,
            ),
    {
        match self.renderer.render_error(path_str, 404, "The requested archive is not found") {
            Ok(s) => Ok(Page { status: 404, body: s }),
            Err(e) => Err(e),
        }
    }

    /// Renders the fixed 416 page for a text file that is not valid UTF-8.
    pub fn invalid_format(&self, path_str: &str) -> (r: Result<Page, RenderError>)
        ensures
            page_reply(
                self.renderer.error_page(path_str@, 416, "The requested file is not valid UTF8"@),
                416,
                r,
            ),
    {
        match self.renderer.render_error(path_str, 416, "The requested file is not valid UTF8") {
            Ok(s) => Ok(Page { status: 416, body: s }),
            Err(e) => Err(e),
        }
    }

    /// Serves a text file without modification: the body handed to the
    /// renderer is byte-identical to the file's decoded content.
    pub fn respond_verbatim(&self, path_str: &str, content: &str) -> (r: Result<Page, RenderError>)
        ensures
            page_reply(self.renderer.verbatim_page(path_str@, content@), 200, r),
    {
        match self.renderer.render_verbatim(path_str, content) {
            Ok(s) => Ok(Page { status: 200, body: s }),
            Err(e) => Err(e),
        }
    }

    /// Serves a Markdown file: the renderer is handed HTML derived solely
    /// from the file's decoded content.
    pub fn respond_markdown(&self, path_str: &str, content: &str) -> (r: Result<Page, RenderError>)
        ensures
            page_reply(self.renderer.markdown_page(path_str@, html_of(content@)), 200, r),
    {
        let html = markdown_to_html(content);
        match self.renderer.render_markdown(path_str, html.as_str()) {
            Ok(s) => Ok(Page { status: 200, body: s }),
            Err(e) => Err(e),
        }
    }

    /// Serves a directory listing from already-assembled entries.
    pub fn respond_dir(&self, path_str: &str, entries: &Vec<crate::entry::Entry>) -> (r: Result<
        Page,
        RenderError,
    >)
        ensures
            page_reply(self.renderer.dir_page(path_str@, entries.deep_view()), 200, r),
    {
        match self.renderer.render_dir(path_str, entries) {
            Ok(s) => Ok(Page { status: 200, body: s }),
            Err(e) => Err(e),
        }
    }
}

/// A directory that exists and passes policy is served only at the
/// slash-terminated URL: without the trailing slash the route is not found;
/// with it the listing is assembled (or, in raw mode, refused).
pub proof fn lemma_dir_trailing_slash(cfg: ConfigV, segs: Seq<Seq<char>>, raw: bool)
    requires
        spec_method_for(cfg, segs, true) is Some,
    ensures
        spec_route(raw, spec_method_for(cfg, segs, true), false) == RouteDecision::NotFound,
        !raw ==> spec_route(raw, spec_method_for(cfg, segs, true), true) == RouteDecision::ListDir,
        raw ==> spec_route(raw, spec_method_for(cfg, segs, true), true) == RouteDecision::NotFound,
{
}

/// A URL with a trailing slash never serves a regular file: whatever method
/// the policy gives a path whose metadata says it is a file, the route is
/// not found.
pub proof fn lemma_file_trailing_slash(cfg: ConfigV, segs: Seq<Seq<char>>, raw: bool)
    requires
        spec_method_for(cfg, segs, false) is Some,
    ensures
        spec_route(raw, spec_method_for(cfg, segs, false), true) == RouteDecision::NotFound,
{
}

} // verus!
