//! The configuration and the access policy engine: for a decoded path and its
//! filesystem metadata, decide whether and how the named file may be served.

use vstd::prelude::*;

use crate::strutil::{clone_names, ext_of, extension_of};

verus! {

/// How a file should be served to the user.
#[derive(Debug, Clone, Copy, Eq, PartialEq, Structural)]
pub enum AccessMethod {
    /// Render the file as Markdown.
    Markdown,
    /// Return the textual content without modification.
    Verbatim,
    /// Return the raw file.
    Raw,
    /// Show the directory.
    Dir,
}

impl AccessMethod {
    /// Every method but [`AccessMethod::Dir`] serves a regular file.
    pub open spec fn spec_is_file(self) -> bool {
        !(self is Dir)
    }

    /// Only [`AccessMethod::Dir`] serves a directory.
    pub open spec fn spec_is_dir(self) -> bool {
        self is Dir
    }

    pub fn is_file(&self) -> (r: bool)
        ensures
            r == self.spec_is_file(),
    {
        match self {
            AccessMethod::Dir => false,
            _ => true,
        }
    }

    pub fn is_dir(&self) -> (r: bool)
        ensures
            r == self.spec_is_dir(),
    {
        match self {
            AccessMethod::Dir => true,
            _ => false,
        }
    }
}

/// The mathematical value of a [`Config`]: each string set becomes a sequence
/// of character sequences, looked at only through membership.
pub struct ConfigV {
    pub root_dir: Seq<char>,
    pub listen: Seq<char>,
    pub allow_all: bool,
    pub allowed_extensions: Seq<Seq<char>>,
    pub allowed_file_names: Seq<Seq<char>>,
    pub blocked_file_names: Seq<Seq<char>>,
    pub markdown: Seq<Seq<char>>,
}

/// The server configuration.
///
/// The string sets hold normalized name and extension tokens (no path
/// separators); only membership in them matters to the policy.
#[derive(Debug)]
pub struct Config {
    /// The path to the directory containing the served files.
    pub root_dir: String,
    /// The address and port that the embedding server listens to.
    pub listen: String,
    /// Whether files with extensions not in `allowed_extensions` are served.
    pub allow_all: bool,
    /// The file extensions that are allowed to be served.
    pub allowed_extensions: Vec<String>,
    /// The exact file names that are allowed to be served.
    pub allowed_file_names: Vec<String>,
    /// The exact file names that are blocked from access.
    pub blocked_file_names: Vec<String>,
    /// The file extensions that are rendered as Markdown.
    pub markdown: Vec<String>,
}

impl View for Config {
    type V = ConfigV;

    open spec fn view(&self) -> ConfigV {
        ConfigV {
            root_dir: self.root_dir@,
            listen: self.listen@,
            allow_all: self.allow_all,
            allowed_extensions: self.allowed_extensions.deep_view(),
            allowed_file_names: self.allowed_file_names.deep_view(),
            blocked_file_names: self.blocked_file_names.deep_view(),
            markdown: self.markdown.deep_view(),
        }
    }
}

impl Clone for Config {
    fn clone(&self) -> (r: Self)
        ensures
            r@ == self@,
    {
        Config {
            root_dir: self.root_dir.clone(),
            listen: self.listen.clone(),
            allow_all: self.allow_all,
            allowed_extensions: clone_names(&self.allowed_extensions),
            allowed_file_names: clone_names(&self.allowed_file_names),
            blocked_file_names: clone_names(&self.blocked_file_names),
            markdown: clone_names(&self.markdown),
        }
    }
}

impl Config {
    /// Builds a configuration from finished values. A missing markdown set
    /// defaults to the single extension `"md"`.
    pub fn new(
        root_dir: String,
        listen: String,
        allow_all: bool,
        allowed_extensions: Vec<String>,
        allowed_file_names: Vec<String>,
        blocked_file_names: Vec<String>,
        markdown: Option<Vec<String>>,
    ) -> (r: Config)
        ensures
            r@.root_dir == root_dir@,
            r@.listen == listen@,
            r@.allow_all == allow_all,
            r@.allowed_extensions == allowed_extensions.deep_view(),
            r@.allowed_file_names == allowed_file_names.deep_view(),
            r@.blocked_file_names == blocked_file_names.deep_view(),
            match markdown {
                Some(m) => r@.markdown == m.deep_view(),
                None => r@.markdown =~= seq!["md"@],
            },
    {
        let markdown = match markdown {
            Some(m) => m,
            None => {
                let mut m: Vec<String> = Vec::new();
                m.push(String::from_str("md"));
                m
            },
        };
        Config { root_dir, listen, allow_all, allowed_extensions, allowed_file_names, blocked_file_names, markdown }
    }
}

impl Default for Config {
    /// Serves the current directory on `localhost:5000`, with nothing allowed
    /// beyond the default markdown extension `"md"`.
    fn default() -> (r: Config)
        ensures
            r@.root_dir == "."@,
            r@.listen == "localhost:5000"@,
            r@.allow_all == false,
            r@.allowed_extensions =~= Seq::<Seq<char>>::empty(),
            r@.allowed_file_names =~= Seq::<Seq<char>>::empty(),
            r@.blocked_file_names =~= Seq::<Seq<char>>::empty(),
            r@.markdown =~= seq!["md"@],
    {
        Config::new(
            String::from_str("."),
            String::from_str("localhost:5000"),
            false,
            Vec::new(),
            Vec::new(),
            Vec::new(),
            None,
        )
    }
}

/// The top-level part of the media type that `mime_guess` associates with an
/// extension, defaulting to `application/octet-stream`; `"text"` for textual
/// extensions.
pub uninterp spec fn mime_top_level(ext: Seq<char>) -> Seq<char>;

/// Relies on `mime_guess::from_ext` together with `mime::Mime::type_`: the
/// guessed media type is a pure lookup in a static table keyed by the
/// extension alone (case-insensitively), defaulting to
/// `application/octet-stream`; only its top-level part is returned here.
#[verifier::external_body]
fn guessed_top_level(ext: &str) -> (r: String)
    ensures
        r@ == mime_top_level(ext@),
{
    mime_guess::from_ext(ext).first_or_octet_stream().type_().as_str().to_string()
}

/// A segment that names nothing of its own: empty, or the current directory.
pub open spec fn seg_skip(c: Seq<char>) -> bool {
    c.len() == 0 || c == "."@
}

/// A segment that walks up to the parent directory.
pub open spec fn seg_parent(c: Seq<char>) -> bool {
    c == ".."@
}

/// A segment that names a file or directory.
pub open spec fn seg_normal(c: Seq<char>) -> bool {
    !seg_skip(c) && !seg_parent(c)
}

/// A name-carrying segment the safety pass refuses: a dot-prefixed name not
/// explicitly allowed, or a blocked name.
pub open spec fn seg_denied(cfg: ConfigV, c: Seq<char>) -> bool {
    (c.len() > 0 && c[0] == '.' && !cfg.allowed_file_names.contains(c))
        || cfg.blocked_file_names.contains(c)
}

/// The safety pass refuses a path holding a parent-directory segment or a
/// refused name anywhere along it.
pub open spec fn safety_denied(cfg: ConfigV, segs: Seq<Seq<char>>) -> bool {
    exists|i: int|
        0 <= i < segs.len() && (seg_parent(segs[i]) || (seg_normal(segs[i]) && seg_denied(
            cfg,
            segs[i],
        )))
}

/// The file name a path names: its last name-carrying segment, or the empty
/// name where there is none.
pub open spec fn file_name_of(segs: Seq<Seq<char>>) -> Seq<char>
    decreases segs.len(),
{
    if segs.len() == 0 {
        Seq::empty()
    } else if seg_skip(segs.last()) {
        file_name_of(segs.drop_last())
    } else {
        segs.last()
    }
}

/// The access decision for a decoded path with known metadata, in order of
/// precedence: the safety pass, then directories, then extensionless files,
/// then the extension and name allow lists, then Markdown, then the guessed
/// content type.
pub open spec fn spec_method_for(cfg: ConfigV, segs: Seq<Seq<char>>, is_dir: bool) -> Option<
    AccessMethod,
> {
    if safety_denied(cfg, segs) {
        None
    } else if is_dir {
        Some(AccessMethod::Dir)
    } else {
        let name = file_name_of(segs);
        match ext_of(name) {
            None => {
                if cfg.allowed_file_names.contains(name) || cfg.allow_all {
                    Some(AccessMethod::Verbatim)
                } else {
                    None
                }
            },
            Some(ext) => {
                if !cfg.allow_all && !cfg.allowed_extensions.contains(ext)
                    && !cfg.allowed_file_names.contains(name) {
                    None
                } else if cfg.markdown.contains(ext) {
                    Some(AccessMethod::Markdown)
                } else if mime_top_level(ext) == "text"@ {
                    Some(AccessMethod::Verbatim)
                } else {
                    Some(AccessMethod::Raw)
                }
            },
        }
    }
}

/// Whether `s` is a segment that names nothing: empty or `"."`.
fn seg_is_skip(s: &String, dot: &String) -> (r: bool)
    requires
        dot@ == "."@,
    ensures
        r == seg_skip(s@),
{
    s.as_str().is_empty() || *s == *dot
}

/// Membership of `x` in a set of name tokens.
fn contains_name(set: &Vec<String>, x: &String) -> (r: bool)
    ensures
        r == set.deep_view().contains(x@),
{
    let mut i: usize = 0;
    while i < set.len()
        invariant
            i <= set.len(),
            forall|k: int| 0 <= k < i ==> set.deep_view()[k] != x@,
        decreases set.len() - i,
    {
        if set[i] == *x {
            assert(set.deep_view()[i as int] == x@);
            return true;
        }
        i = i + 1;
    }
    false
}

impl Config {
    /// Returns the access method for the path made of the decoded `segments`,
    /// whose metadata says whether it is a directory; `None` if access is
    /// refused. The decision is exactly [`spec_method_for`].
    pub fn method_for(&self, segments: &Vec<String>, is_dir: bool) -> (r: Option<AccessMethod>)
        ensures
            r == spec_method_for(self@, segments.deep_view(), is_dir),
    {
        let ghost segs = segments.deep_view();
        proof {
            reveal_strlit(".");
            reveal_strlit("..");
        }
        let dot = String::from_str(".");
        let dotdot = String::from_str("..");

        let mut i: usize = 0;
        while i < segments.len()
            invariant
                i <= segments.len(),
                segs == segments.deep_view(),
                dot@ == "."@,
                dotdot@ == ".."@,
                forall|k: int|
                    0 <= k < i ==> !(seg_parent(segs[k]) || (seg_normal(segs[k]) && seg_denied(
                        self@,
                        segs[k],
                    ))),
            decreases segments.len() - i,
        {
            proof {
                reveal_strlit(".");
                reveal_strlit("..");
            }
            let s = &segments[i];
            assert(s@ == segs[i as int]);
            let skip = seg_is_skip(s, &dot);
            if !skip {
                if *s == dotdot {
                    assert(seg_parent(segs[i as int]));
                    return None;
                }
                let starts_dot = s.as_str().get_char(0) == '.';
                if starts_dot && !contains_name(&self.allowed_file_names, s) {
                    assert(seg_denied(self@, segs[i as int]));
                    return None;
                }
                if contains_name(&self.blocked_file_names, s) {
                    assert(seg_denied(self@, segs[i as int]));
                    return None;
                }
            }
            i = i + 1;
        }
        assert(!safety_denied(self@, segs));

        if is_dir {
            return Some(AccessMethod::Dir);
        }

        let mut j: usize = segments.len();
        proof {
            assert(segs.take(segments.len() as int) =~= segs);
        }
        while j > 0 && seg_is_skip(&segments[j - 1], &dot)
            invariant
                j <= segments.len(),
                segs == segments.deep_view(),
                dot@ == "."@,
                file_name_of(segs) == file_name_of(segs.take(j as int)),
            decreases j,
        {
            proof {
                assert(segs.take(j as int).drop_last() =~= segs.take(j - 1));
            }
            j = j - 1;
        }
        let file_name = if j == 0 {
            proof {
                assert(segs.take(0) =~= Seq::<Seq<char>>::empty());
            }
            String::new()
        } else {
            proof {
                assert(segs.take(j as int).last() == segs[j - 1]);
            }
            segments[j - 1].clone()
        };
        assert(file_name@ == file_name_of(segs));

        match extension_of(file_name.as_str()) {
            None => {
                if contains_name(&self.allowed_file_names, &file_name) || self.allow_all {
                    Some(AccessMethod::Verbatim)
                } else {
                    None
                }
            },
            Some(ext) => {
                if !self.allow_all && !contains_name(&self.allowed_extensions, &ext)
                    && !contains_name(&self.allowed_file_names, &file_name) {
                    None
                } else if contains_name(&self.markdown, &ext) {
                    Some(AccessMethod::Markdown)
                } else {
                    let top = guessed_top_level(ext.as_str());
                    let text = String::from_str("text");
                    if top == text {
                        Some(AccessMethod::Verbatim)
                    } else {
                        Some(AccessMethod::Raw)
                    }
                }
            },
        }
    }
}

/// Any path holding a `..` segment is refused, whatever the configuration
/// and whatever the metadata say.
pub proof fn lemma_parent_segment_denied(
    cfg: ConfigV,
    segs: Seq<Seq<char>>,
    i: int,
    is_dir: bool,
)
    requires
        0 <= i < segs.len(),
        segs[i] == ".."@,
    ensures
        spec_method_for(cfg, segs, is_dir) is None,
{
    assert(seg_parent(segs[i]));
    assert(safety_denied(cfg, segs));
}

/// Any path holding a dot-prefixed name not present in the allowed file
/// names is refused, even when `allow_all` is set.
pub proof fn lemma_dot_name_denied(cfg: ConfigV, segs: Seq<Seq<char>>, i: int, is_dir: bool)
    requires
        0 <= i < segs.len(),
        segs[i].len() > 0,
        segs[i][0] == '.',
        segs[i] != "."@,
        !cfg.allowed_file_names.contains(segs[i]),
    ensures
        spec_method_for(cfg, segs, is_dir) is None,
{
    if seg_parent(segs[i]) {
        assert(safety_denied(cfg, segs));
    } else {
        assert(seg_normal(segs[i]));
        assert(seg_denied(cfg, segs[i]));
        assert(safety_denied(cfg, segs));
    }
}

/// Any path holding a name present in the blocked file names is refused,
/// even when that name is also allowed: blocking precedes allowing.
pub proof fn lemma_blocked_name_denied(cfg: ConfigV, segs: Seq<Seq<char>>, i: int, is_dir: bool)
    requires
        0 <= i < segs.len(),
        seg_normal(segs[i]),
        cfg.blocked_file_names.contains(segs[i]),
    ensures
        spec_method_for(cfg, segs, is_dir) is None,
{
    assert(seg_denied(cfg, segs[i]));
    assert(safety_denied(cfg, segs));
}

} // verus!
