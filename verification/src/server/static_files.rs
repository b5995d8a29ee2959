//! Static files of a route: which file answers a request path, which
//! page answers an error, and what is sent for a file. Reading the disk is
//! left to the program, which hands in what it found.
use vstd::prelude::*;
use crate::deps::{mime_of_path, guessed_mime};
use crate::http::status::HttpStatusCode;
use crate::map::{StrMap, map_get};
use crate::sys::{paths_equal, same_path};
use crate::text::{
    chars_of, owned, string_of, joined_path, join_path, trim_char_start, trim_start_matching, decimal, decimal_chars,
    split, split_on, views, chars_is, chars_eq, has_prefix, lemma_split_first,
};

verus! {

/// What became of the last file asked for.
#[derive(Debug, Clone, Copy, PartialEq, Eq, Structural)]
pub enum FileStatus {
    OK,
    NotFound,
    DirectoryListingNotAllowed,
    Raw,
}

/// Pages for error statuses: status text to page path.
#[derive(Debug, Clone)]
pub struct ErrorPages {
    pub custom_pages: StrMap<String>,
}

/// The static files of a route.
#[derive(Debug, Clone)]
pub struct ServerStaticFiles {
    pub directory: String,
    pub index: Option<String>,
    pub allow_directory_listing: bool,
    pub error_pages: Option<ErrorPages>,
    pub status: FileStatus,
}

/// What answers a request path: the listing of a directory, or a file.
#[derive(Debug, PartialEq, Eq)]
pub enum StaticTarget {
    Listing(String),
    File(String),
    /// The path leaves the directory (a `..` segment): nothing is served.
    Outside,
}

/// What is done with a path asked to be served.
#[derive(Debug, PartialEq, Eq)]
pub enum FileStep {
    /// The path is a file: read it.
    Read,
    /// It is not: try this page in its place.
    Try(String),
    /// It is not, and it is the page that stands in for missing files.
    Missing,
}

/// A target as plain text.
pub enum TargetSpec {
    Listing(Seq<char>),
    File(Seq<char>),
    Outside,
}

impl View for StaticTarget {
    type V = TargetSpec;

    open spec fn view(&self) -> TargetSpec {
        match self {
            StaticTarget::Listing(p) => TargetSpec::Listing(p@),
            StaticTarget::File(p) => TargetSpec::File(p@),
            StaticTarget::Outside => TargetSpec::Outside,
        }
    }
}

/// The path a request path names under the directory: its leading `/`
/// removed, joined to the directory.
pub open spec fn spec_full_path(dir: Seq<char>, path: Seq<char>) -> Seq<char> {
    joined_path(dir, trim_char_start(path, '/'))
}

/// Whether a request path leaves the directory: one of its `/`-separated
/// pieces is `..`.
pub open spec fn escapes(path: Seq<char>) -> bool {
    exists|i: int| 0 <= i < split(path, '/').len() && #[trigger] split(path, '/')[i] == ".."@
}

/// The full path of a request path that does not leave the directory lies
/// under it: it is the directory, then the request path without its
/// leading `/`, which has no `..` piece.
pub proof fn law_full_path_within(dir: Seq<char>, path: Seq<char>)
    requires
        !escapes(path),
    ensures
        has_prefix(spec_full_path(dir, path), dir),
        !escapes(trim_char_start(path, '/')),
        !(trim_char_start(path, '/').len() > 0 && trim_char_start(path, '/')[0] == '/'),
    decreases path.len(),
{
    if path.len() > 0 && path[0] == '/' {
        assert(split(path, '/') == seq![Seq::<char>::empty()] + split(path.drop_first(), '/')) by {
            assert(path =~= Seq::<char>::empty() + seq!['/'] + path.drop_first());
            lemma_split_first(Seq::<char>::empty(), path.drop_first(), '/');
        }
        assert(!escapes(path.drop_first())) by {
            if escapes(path.drop_first()) {
                let i = choose|i: int| 0 <= i < split(path.drop_first(), '/').len() && #[trigger] split(path.drop_first(), '/')[i] == ".."@;
                assert(split(path, '/')[i + 1] == ".."@);
            }
        }
        law_full_path_within(dir, path.drop_first());
    }
    let rel = trim_char_start(path, '/');
    let full = spec_full_path(dir, path);
    assert(full.take(dir.len() as int) =~= dir);
}

/// What answers a request path. A path that leaves the directory gets
/// nothing. Otherwise `is_dir` tells whether the full path is a
/// directory, `index_is_file` whether the index page under it is a file.
pub open spec fn spec_serve_static(sf: ServerStaticFiles, path: Seq<char>, is_dir: bool, index_is_file: bool) -> TargetSpec {
    let full = spec_full_path(sf.directory@, path);
    if escapes(path) {
        TargetSpec::Outside
    } else if is_dir && sf.allow_directory_listing {
        TargetSpec::Listing(full)
    } else if sf.index is Some && index_is_file && !sf.allow_directory_listing {
        TargetSpec::File(joined_path(full, sf.index->0@))
    } else if sf.index is None && same_path(full, sf.directory@) {
        TargetSpec::File(joined_path(sf.directory@, ".default/index.html"@))
    } else {
        TargetSpec::File(full)
    }
}

/// The error pages of the static files, if any.
pub open spec fn pages_of(sf: ServerStaticFiles) -> Option<Seq<(Seq<char>, Seq<char>)>> {
    match sf.error_pages {
        Some(p) => Some(p.custom_pages@),
        None => None,
    }
}

/// Whether a request path has a `..` piece.
fn path_escapes(path: &str) -> (r: bool)
    ensures
        r == escapes(path@),
{
    let c = chars_of(path);
    let pieces = split_on(&c, '/');
    let mut i: usize = 0;
    while i < pieces.len()
        invariant
            i <= pieces@.len(),
            views(pieces@) == split(path@, '/'),
            c@ == path@,
            forall|j: int| 0 <= j < i ==> split(path@, '/')[j] != ".."@,
        decreases pieces@.len() - i,
    {
        assert(views(pieces@)[i as int] == pieces@[i as int]@);
        if chars_is(&pieces[i], "..") {
            return true;
        }
        i = i + 1;
    }
    false
}

impl ServerStaticFiles {
    /// The static files of a directory, with no file served yet.
    pub fn new(directory: String, index: Option<String>, allow_directory_listing: bool, error_pages: Option<ErrorPages>) -> (r: Self)
        ensures
            r.directory == directory,
            r.index == index,
            r.allow_directory_listing == allow_directory_listing,
            r.error_pages == error_pages,
            r.status == FileStatus::Raw,
    {
        ServerStaticFiles { directory, index, allow_directory_listing, error_pages, status: FileStatus::Raw }
    }

    /// The directory of a site: `directory` under the sites directory.
    pub fn site_directory(sites_dir: &str, directory: &str) -> (r: String)
        ensures
            r@ == joined_path(sites_dir@, directory@),
    {
        join_path(sites_dir, directory)
    }

    /// The path a request path names under the directory.
    pub fn full_path(&self, path: &str) -> (r: String)
        ensures
            r@ == spec_full_path(self.directory@, path@),
    {
        let p = chars_of(path);
        let t = trim_start_matching(&p, '/');
        join_path(self.directory.as_str(), string_of(&t).as_str())
    }

    /// The index page under a full path, when the route has one.
    pub fn index_path(&self, full: &str) -> (r: Option<String>)
        ensures
            match self.index {
                Some(i) => r matches Some(p) && p@ == joined_path(full@, i@),
                None => r is None,
            },
    {
        match &self.index {
            Some(i) => Some(join_path(full, i.as_str())),
            None => None,
        }
    }

    /// What answers the request path: nothing when it leaves the directory
    /// (see `escapes`); the directory listing when the full path is a
    /// directory and listings are allowed; the index page when
    /// it is a file and listings are not allowed; the default index page
    /// for the directory itself when there is no index; else the full
    /// path. `is_dir` and `index_is_file` are what the disk says of the
    /// full path and of the index page under it.
    pub fn serve_static(&self, path: &str, is_dir: bool, index_is_file: bool) -> (r: StaticTarget)
        ensures
            r@ == spec_serve_static(*self, path@, is_dir, index_is_file),
    {
        if path_escapes(path) {
            return StaticTarget::Outside;
        }
        let full = self.full_path(path);
        if is_dir && self.allow_directory_listing {
            return StaticTarget::Listing(full);
        }
        if let Some(index) = &self.index {
            if index_is_file && !self.allow_directory_listing {
                return StaticTarget::File(join_path(full.as_str(), index.as_str()));
            }
        }
        if self.index.is_none() && paths_equal(full.as_str(), self.directory.as_str()) {
            return StaticTarget::File(join_path(self.directory.as_str(), ".default/index.html"));
        }
        StaticTarget::File(full)
    }

    /// The path of a file under the directory (whether it is a file is
    /// for the disk to say).
    pub fn contained_file_path(&self, path: &str) -> (r: String)
        ensures
            r@ == joined_path(self.directory@, path@),
    {
        join_path(self.directory.as_str(), path)
    }

    /// The page served in place of a missing file: the configured page for
    /// `404`, else the error template. The status becomes `NotFound`.
    pub fn not_found_page(&mut self) -> (r: String)
        ensures
            final(self).status == FileStatus::NotFound,
            final(self).directory == old(self).directory,
            final(self).index == old(self).index,
            final(self).allow_directory_listing == old(self).allow_directory_listing,
            final(self).error_pages == old(self).error_pages,
            r@ == match pages_of(*old(self)) {
                Some(pages) => match map_get(pages, "404"@) {
                    Some(p) => p,
                    None => joined_path(old(self).directory@, ".default/error/error_template.html"@),
                },
                None => joined_path(old(self).directory@, ".default/error/error_template.html"@),
            },
    {
        self.set_status(FileStatus::NotFound);
        if let Some(pages) = &self.error_pages {
            if let Some(p) = pages.custom_pages.get("404") {
                return owned(p.as_str());
            }
        }
        self.error_template_path()
    }

    /// The step of serving `path`, which `is_file` tells is a file or not:
    /// a file is read; otherwise the status becomes `NotFound` and the page
    /// for missing files (see `not_found_page`) is tried in its place,
    /// unless `path` is that page.
    pub fn file_step(&mut self, path: &str, is_file: bool) -> (r: FileStep)
        ensures
            final(self).directory == old(self).directory,
            final(self).index == old(self).index,
            final(self).allow_directory_listing == old(self).allow_directory_listing,
            final(self).error_pages == old(self).error_pages,
            is_file ==> r == FileStep::Read && final(self).status == old(self).status,
            !is_file ==> final(self).status == FileStatus::NotFound && ({
                let next = match pages_of(*old(self)) {
                    Some(pages) => match map_get(pages, "404"@) {
                        Some(p) => p,
                        None => joined_path(old(self).directory@, ".default/error/error_template.html"@),
                    },
                    None => joined_path(old(self).directory@, ".default/error/error_template.html"@),
                };
                if next == path@ {
                    r == FileStep::Missing
                } else {
                    r matches FileStep::Try(n) && n@ == next
                }
            }),
    {
        if is_file {
            return FileStep::Read;
        }
        let next = self.not_found_page();
        if chars_eq(&chars_of(next.as_str()), &chars_of(path)) {
            FileStep::Missing
        } else {
            FileStep::Try(next)
        }
    }

    /// The page configured for an error status, looked up by the status
    /// code (such as `404`), as the configuration writes it.
    pub fn error_page_path(&self, status: HttpStatusCode) -> (r: Option<String>)
        ensures
            match pages_of(*self) {
                Some(pages) => match map_get(pages, decimal(status.spec_code() as nat)) {
                    Some(p) => r matches Some(q) && q@ == p,
                    None => r is None,
                },
                None => r is None,
            },
    {
        match &self.error_pages {
            Some(pages) => match pages.custom_pages.get(string_of(&decimal_chars(status.code() as u64)).as_str()) {
                Some(p) => Some(owned(p.as_str())),
                None => None,
            },
            None => None,
        }
    }

    /// The error template of the directory.
    pub fn error_template_path(&self) -> (r: String)
        ensures
            r@ == joined_path(self.directory@, ".default/error/error_template.html"@),
    {
        join_path(self.directory.as_str(), ".default/error/error_template.html")
    }

    /// The page that shows a directory listing.
    pub fn listing_page_path(&self) -> (r: String)
        ensures
            r@ == joined_path(joined_path(self.directory@, ".default"@), "directory_listing.html"@),
    {
        let d = join_path(self.directory.as_str(), ".default");
        join_path(d.as_str(), "directory_listing.html")
    }

    /// What is sent for a file read from `path`: its bytes, its MIME type
    /// and the current status.
    pub fn file_served(&self, path: &str, content: Vec<u8>) -> (r: (Vec<u8>, Option<String>, FileStatus))
        ensures
            r.0 == content,
            r.1 matches Some(m) && m@ == guessed_mime(path@),
            r.2 == self.status,
    {
        let mime = self.get_mime_type(path);
        (content, Some(mime), self.status)
    }

    fn get_mime_type(&self, path: &str) -> (r: String)
        ensures
            r@ == guessed_mime(path@),
    {
        mime_of_path(path)
    }

    pub fn set_status(&mut self, status: FileStatus)
        ensures
            final(self).status == status,
            final(self).directory == old(self).directory,
            final(self).index == old(self).index,
            final(self).allow_directory_listing == old(self).allow_directory_listing,
            final(self).error_pages == old(self).error_pages,
    {
        self.status = status;
    }
}

} // verus!
