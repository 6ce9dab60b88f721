//! The cache store: where each entry's two files live, what `set` writes,
//! and what a read of an entry yields. The file operations themselves are
//! carried out by the caller.
use vstd::prelude::*;
use vstd::string::{StrSliceExecFns, StringExecFns};
use vstd::utf8::encode_utf8;
use crate::cache_url::{CacheUrl, UrlView};
use crate::error::CacheError;
use crate::headers::{decoded_headers, decodes_to, headers_json_of, map_of, HeadersMap, PairView};
use crate::naming::{base_name, base_url_to_filename, cache_name, naming_error, url_to_filename};

verus! {

/// `rel` placed under `base`, with one separator between them.
pub open spec fn join_path(base: Seq<char>, rel: Seq<char>) -> Seq<char> {
    if base.len() == 0 || base.last() == '/' {
        base + rel
    } else {
        base + "/"@ + rel
    }
}

/// The content file of a URL's entry under a cache root.
pub open spec fn content_path(root: Seq<char>, u: UrlView) -> Seq<char> {
    join_path(root, cache_name(u))
}

/// The headers file beside a content file.
pub open spec fn headers_path(content: Seq<char>) -> Seq<char> {
    content + ".headers.json"@
}

/// The directory that holds a URL's entry under a cache root.
pub open spec fn entry_dir(root: Seq<char>, u: UrlView) -> Seq<char> {
    join_path(root, base_name(u))
}

/// The contents of files, by path.
pub type Disk = Map<Seq<char>, Seq<u8>>;

/// The files of one entry, as character sequences.
pub struct EntryPathsView {
    pub dir: Seq<char>,
    pub content: Seq<char>,
    pub headers: Seq<char>,
}

/// The files of one entry: its directory, its content file and its headers
/// file.
pub struct EntryPaths {
    pub dir: String,
    pub content: String,
    pub headers: String,
}

impl View for EntryPaths {
    type V = EntryPathsView;

    open spec fn view(&self) -> EntryPathsView {
        EntryPathsView { dir: self.dir@, content: self.content@, headers: self.headers@ }
    }
}

/// The paths of a URL's entry under a cache root.
pub open spec fn entry_paths_of(root: Seq<char>, u: UrlView) -> EntryPathsView {
    EntryPathsView {
        dir: entry_dir(root, u),
        content: content_path(root, u),
        headers: headers_path(content_path(root, u)),
    }
}

/// What storing an entry writes, as plain sequences.
pub struct CacheWriteView {
    pub paths: EntryPathsView,
    pub content: Seq<u8>,
    pub headers: Seq<u8>,
}

/// What storing an entry writes: the directory to create, then the body and
/// the headers' JSON text, each replacing the file that was there.
pub struct CacheWrite {
    pub paths: EntryPaths,
    pub content: Vec<u8>,
    pub headers: Vec<u8>,
}

impl View for CacheWrite {
    type V = CacheWriteView;

    open spec fn view(&self) -> CacheWriteView {
        CacheWriteView { paths: self.paths@, content: self.content@, headers: self.headers@ }
    }
}

/// The files after a write has been carried out.
pub open spec fn apply_write(d: Disk, w: CacheWriteView) -> Disk {
    d.insert(w.paths.content, w.content).insert(w.paths.headers, w.headers)
}

/// What reading an entry yields, from the content file and the headers file
/// as found (absent when missing).
pub open spec fn read_outcome(content: Option<Seq<u8>>, headers: Option<Seq<u8>>) -> Result<
    (Seq<u8>, Seq<(Seq<char>, Seq<char>)>),
    CacheError,
> {
    match (content, headers) {
        (Some(c), Some(h)) => match decoded_headers(h) {
            Some(p) => Ok((c, p)),
            None => Err(CacheError::ParseError),
        },
        _ => Err(CacheError::NotFound),
    }
}

/// A file's contents, if the disk holds it.
pub open spec fn file_at(d: Disk, p: Seq<char>) -> Option<Seq<u8>> {
    if d.contains_key(p) {
        Some(d[p])
    } else {
        None
    }
}

fn join(base: &String, rel: &String) -> (r: String)
    ensures
        r@ == join_path(base@, rel@),
{
    let n = base.as_str().unicode_len();
    let mut out = base.clone();
    if n == 0 || base.as_str().get_char(n - 1) == '/' {
        out.append(rel.as_str());
    } else {
        out.append("/");
        out.append(rel.as_str());
    }
    out
}

/// A cache rooted at a directory.
pub struct HttpCache {
    pub location: String,
}

impl HttpCache {
    /// A cache rooted at `location`. The directory itself is created by the
    /// caller.
    pub fn new(location: &str) -> (r: HttpCache)
        ensures
            r.location@ == location@,
    {
        HttpCache { location: String::from_str(location) }
    }

    /// The content file of a URL's entry.
    pub fn get_cache_filename(&self, url: &CacheUrl) -> (r: Result<String, CacheError>)
        ensures
            match naming_error(url@) {
                Some(e) => r == Err::<String, CacheError>(e),
                None => r is Ok && r->Ok_0@ == content_path(self.location@, url@),
            },
    {
        match url_to_filename(url) {
            Ok(name) => Ok(join(&self.location, &name)),
            Err(e) => Err(e),
        }
    }

    /// The directory, content file and headers file of a URL's entry.
    pub fn entry_paths(&self, url: &CacheUrl) -> (r: Result<EntryPaths, CacheError>)
        ensures
            match naming_error(url@) {
                Some(e) => r is Err && r->Err_0 == e,
                None => r is Ok && r->Ok_0@ == entry_paths_of(self.location@, url@),
            },
    {
        let content = match self.get_cache_filename(url) {
            Ok(c) => c,
            Err(e) => {
                return Err(e);
            },
        };
        let base = match base_url_to_filename(url) {
            Ok(b) => b,
            Err(e) => {
                return Err(e);
            },
        };
        let dir = join(&self.location, &base);
        let headers = content.clone().concat(".headers.json");
        Ok(EntryPaths { dir, content, headers })
    }

    /// What storing `content` with `headers` for `url` writes: the body to
    /// the content file, and the headers as a JSON object to the headers
    /// file beside it.
    pub fn set(&self, url: &CacheUrl, headers: &HeadersMap, content: &[u8]) -> (r: Result<
        CacheWrite,
        CacheError,
    >)
        ensures
            naming_error(url@) is Some ==> r is Err && r->Err_0 == naming_error(url@)->0,
            naming_error(url@) is None ==> r is Ok,
            r is Ok ==> r->Ok_0@ == write_of(self.location@, url@, headers.pairs(), content@),
            r is Ok ==> is_write_of(r->Ok_0@, self.location@, url@, headers.view(), content@),
    {
        let paths = match self.entry_paths(url) {
            Ok(p) => p,
            Err(e) => {
                return Err(e);
            },
        };
        let text = match headers.to_json() {
            Ok(t) => t,
            Err(e) => {
                return Err(e);
            },
        };
        let bytes = text.as_str().as_bytes_vec();
        let mut body: Vec<u8> = Vec::new();
        let mut i: usize = 0;
        while i < content.len()
            invariant
                i <= content@.len(),
                body@ == content@.subrange(0, i as int),
            decreases content@.len() - i,
        {
            body.push(content[i]);
            i = i + 1;
        }
        assert(body@ =~= content@);
        Ok(CacheWrite { paths, content: body, headers: bytes })
    }

    /// Reads an entry from its two files as found, `None` where a file is
    /// missing: a missing file is a miss, and a headers file that is not a
    /// JSON object of strings is reported as such.
    pub fn read_entry(content: Option<Vec<u8>>, headers: Option<Vec<u8>>) -> (r: Result<
        (Vec<u8>, HeadersMap),
        CacheError,
    >)
        ensures
            r is Err ==> read_outcome(opt_bytes(content), opt_bytes(headers)) == Err::<
                (Seq<u8>, Seq<(Seq<char>, Seq<char>)>),
                CacheError,
            >(r->Err_0),
            r is Ok ==> read_outcome(opt_bytes(content), opt_bytes(headers)) == Ok::<
                (Seq<u8>, Seq<(Seq<char>, Seq<char>)>),
                CacheError,
            >((r->Ok_0.0@, r->Ok_0.1.pairs())),
            r is Ok ==> r->Ok_0.1.wf(),
    {
        match (content, headers) {
            (Some(c), Some(h)) => match HeadersMap::from_json(h.as_slice()) {
                Ok(m) => Ok((c, m)),
                Err(e) => Err(e),
            },
            _ => Err(CacheError::NotFound),
        }
    }
}

/// The view of an optional byte vector.
pub open spec fn opt_bytes(o: Option<Vec<u8>>) -> Option<Seq<u8>> {
    match o {
        Some(v) => Some(v@),
        None => None,
    }
}

/// What `set` writes for a URL under a cache root.
pub open spec fn write_of(
    root: Seq<char>,
    u: UrlView,
    pairs: Seq<(Seq<char>, Seq<char>)>,
    content: Seq<u8>,
) -> CacheWriteView {
    CacheWriteView {
        paths: entry_paths_of(root, u),
        content,
        headers: encode_utf8(headers_json_of(pairs)),
    }
}

/// `w` stores `content` and headers decoding to `m` as the entry of `u`.
pub open spec fn is_write_of(
    w: CacheWriteView,
    root: Seq<char>,
    u: UrlView,
    m: Map<Seq<char>, Seq<char>>,
    content: Seq<u8>,
) -> bool {
    &&& w.paths == entry_paths_of(root, u)
    &&& w.content == content
    &&& decodes_to(w.headers, m)
}

/// The content file and the headers file of an entry are distinct.
pub proof fn lemma_entry_files_distinct(root: Seq<char>, u: UrlView)
    ensures
        entry_paths_of(root, u).content != entry_paths_of(root, u).headers,
{
    reveal_strlit(".headers.json");
    assert(entry_paths_of(root, u).headers.len() > entry_paths_of(root, u).content.len());
}

/// After a write that `set` returned for a URL has been carried out, reading
/// the entry yields the body that was given and headers equal, key for key,
/// to those that were given: no key is added or lost.
pub proof fn lemma_set_then_get(
    d: Disk,
    root: Seq<char>,
    u: UrlView,
    m: Map<Seq<char>, Seq<char>>,
    content: Seq<u8>,
    w: CacheWriteView,
)
    requires
        is_write_of(w, root, u, m, content),
    ensures
        ({
            let p = entry_paths_of(root, u);
            let after = apply_write(d, w);
            let got = read_outcome(file_at(after, p.content), file_at(after, p.headers));
            &&& file_at(after, p.content) == Some(content)
            &&& got is Ok
            &&& got->Ok_0.0 == content
            &&& map_of(got->Ok_0.1) == m
            &&& forall|k: Seq<char>| !m.contains_key(k) ==> !map_of(got->Ok_0.1).contains_key(k)
        }),
{
    lemma_entry_files_distinct(root, u);
}

/// Reading the entry of a URL whose content file is absent is a miss.
pub proof fn lemma_never_set_not_found(d: Disk, root: Seq<char>, u: UrlView)
    requires
        !d.contains_key(content_path(root, u)),
    ensures
        ({
            let p = entry_paths_of(root, u);
            read_outcome(file_at(d, p.content), file_at(d, p.headers)) == Err::<
                (Seq<u8>, Seq<PairView>),
                CacheError,
            >(CacheError::NotFound)
        }),
{
}

/// Storing a URL twice leaves exactly what the second store wrote: reading
/// the entry yields the second body and the second headers, with nothing of
/// the first merged in.
pub proof fn lemma_set_twice_overwrites(
    d: Disk,
    root: Seq<char>,
    u: UrlView,
    m1: Map<Seq<char>, Seq<char>>,
    content1: Seq<u8>,
    w1: CacheWriteView,
    m2: Map<Seq<char>, Seq<char>>,
    content2: Seq<u8>,
    w2: CacheWriteView,
)
    requires
        is_write_of(w1, root, u, m1, content1),
        is_write_of(w2, root, u, m2, content2),
    ensures
        ({
            let p = entry_paths_of(root, u);
            let twice = apply_write(apply_write(d, w1), w2);
            let got = read_outcome(file_at(twice, p.content), file_at(twice, p.headers));
            &&& file_at(twice, p.content) == Some(content2)
            &&& file_at(twice, p.headers) == Some(w2.headers)
            &&& got is Ok
            &&& got->Ok_0.0 == content2
            &&& map_of(got->Ok_0.1) == m2
        }),
{
    lemma_entry_files_distinct(root, u);
}

} // verus!
