//! The presentation capability: turns decided, already-loaded content into a
//! response body. Implemented by the embedder; a bare text implementation is
//! provided.

use vstd::prelude::*;

use crate::entry::{Entry, EntryV};

verus! {

/// The mathematical value of a [`RenderError`].
pub struct RenderErrorV {
    pub code: usize,
    pub message: Seq<char>,
}

/// A structured rendering failure: an HTTP-level status code and a message.
#[derive(Debug)]
pub struct RenderError {
    pub code: usize,
    pub message: String,
}

impl View for RenderError {
    type V = RenderErrorV;

    open spec fn view(&self) -> RenderErrorV {
        RenderErrorV { code: self.code, message: self.message@ }
    }
}

/// What renderer methods return: a page body, or a structured failure.
pub type RenderResult = Result<String, RenderError>;

/// The mathematical value of a [`RenderResult`].
pub open spec fn render_result_view(r: RenderResult) -> Result<Seq<char>, RenderErrorV> {
    match r {
        Ok(s) => Ok(s@),
        Err(e) => Err(e@),
    }
}

/// A renderer builds the pages of the archive. Each rendering method is
/// pinned to the corresponding page function, so that callers know the body
/// they hand on is exactly the one rendered from the content they chose.
pub trait Renderer: Sized {
    /// The directory listing page for a display path and its entries.
    spec fn dir_page(&self, path: Seq<char>, entries: Seq<EntryV>) -> Result<
        Seq<char>,
        RenderErrorV,
    >;

    /// The page showing a text file without modification.
    spec fn verbatim_page(&self, path: Seq<char>, content: Seq<char>) -> Result<
        Seq<char>,
        RenderErrorV,
    >;

    /// The page wrapping HTML already converted from Markdown.
    spec fn markdown_page(&self, path: Seq<char>, html: Seq<char>) -> Result<
        Seq<char>,
        RenderErrorV,
    >;

    /// The page shown for an error status and message.
    spec fn error_page(&self, path: Seq<char>, code: usize, message: Seq<char>) -> Result<
        Seq<char>,
        RenderErrorV,
    >;

    /// Renders the list of entries in a directory.
    fn render_dir(&self, path_str: &str, entries: &Vec<Entry>) -> (r: RenderResult)
        ensures
            render_result_view(r) == self.dir_page(path_str@, entries.deep_view()),
    ;

    /// Renders the unmodified textual content of a file.
    fn render_verbatim(&self, path_str: &str, content: &str) -> (r: RenderResult)
        ensures
            render_result_view(r) == self.verbatim_page(path_str@, content@),
    ;

    /// Renders a file already converted from Markdown to HTML.
    fn render_markdown(&self, path_str: &str, content: &str) -> (r: RenderResult)
        ensures
            render_result_view(r) == self.markdown_page(path_str@, content@),
    ;

    /// Renders an error message for an HTTP status code.
    fn render_error(&self, path_str: &str, code: usize, message: &str) -> (r: RenderResult)
        ensures
            render_result_view(r) == self.error_page(path_str@, code, message@),
    ;
}

/// The body [`PlainRenderer`] gives a directory: one line per entry, the name
/// followed by a slash for directories.
pub open spec fn dir_lines(entries: Seq<EntryV>) -> Seq<char>
    decreases entries.len(),
{
    if entries.len() == 0 {
        Seq::empty()
    } else {
        dir_lines(entries.drop_last()) + entries.last().file_name + (if entries.last().is_dir {
            "/\n"@
        } else {
            "\n"@
        })
    }
}

/// A minimal renderer that produces bare text bodies: listings name one entry
/// per line, files are shown as they are, errors show their message.
pub struct PlainRenderer;

impl Renderer for PlainRenderer {
    open spec fn dir_page(&self, path: Seq<char>, entries: Seq<EntryV>) -> Result<
        Seq<char>,
        RenderErrorV,
    > {
        Ok(dir_lines(entries))
    }

    open spec fn verbatim_page(&self, path: Seq<char>, content: Seq<char>) -> Result<
        Seq<char>,
        RenderErrorV,
    > {
        Ok(content)
    }

    open spec fn markdown_page(&self, path: Seq<char>, html: Seq<char>) -> Result<
        Seq<char>,
        RenderErrorV,
    > {
        Ok(html)
    }

    open spec fn error_page(&self, path: Seq<char>, code: usize, message: Seq<char>) -> Result<
        Seq<char>,
        RenderErrorV,
    > {
        Ok(message)
    }

    fn render_dir(&self, path_str: &str, entries: &Vec<Entry>) -> (r: RenderResult) {
        let mut body = String::new();
        let mut i: usize = 0;
        while i < entries.len()
            invariant
                i <= entries.len(),
                body@ == dir_lines(entries.deep_view().take(i as int)),
            decreases entries.len() - i,
        {
            let e = &entries[i];
            body.append(e.file_name.as_str());
            if e.is_dir {
                body.append("/\n");
            } else {
                body.append("\n");
            }
            proof {
                let evs = entries.deep_view();
                assert(evs.take(i + 1).drop_last() =~= evs.take(i as int));
                assert(evs.take(i + 1).last() == evs[i as int]);
            }
            i = i + 1;
        }
        proof {
            assert(entries.deep_view().take(entries.len() as int) =~= entries.deep_view());
        }
        Ok(body)
    }

    fn render_verbatim(&self, path_str: &str, content: &str) -> (r: RenderResult) {
        Ok(String::from_str(content))
    }

    fn render_markdown(&self, path_str: &str, content: &str) -> (r: RenderResult) {
        Ok(String::from_str(content))
    }

    fn render_error(&self, path_str: &str, code: usize, message: &str) -> (r: RenderResult) {
        Ok(String::from_str(message))
    }
}

/// Under the plain renderer the round trip is exact: a verbatim page's body
/// is byte-identical to the file's decoded content, and a markdown page's
/// body is exactly the HTML handed over, which the dispatcher derives from
/// the source text alone.
pub proof fn lemma_plain_round_trip(r: PlainRenderer, path: Seq<char>, content: Seq<char>, html: Seq<char>)
    ensures
        r.verbatim_page(path, content) == Ok::<Seq<char>, RenderErrorV>(content),
        r.markdown_page(path, html) == Ok::<Seq<char>, RenderErrorV>(html),
{
}

} // verus!
