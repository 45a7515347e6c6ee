//! Remote module coordinates, their cache location, and the archive that
//! materializes them.
use std::io::Read;
use vstd::prelude::*;
use crate::makefile::views;

verus! {

/// The parts of `s` between the `/` separators, in order (at least one).
pub open spec fn pieces(s: Seq<char>) -> Seq<Seq<char>>
    decreases s.len(),
{
    if s.len() == 0 {
        seq![Seq::empty()]
    } else {
        let p = pieces(s.drop_last());
        if s.last() == '/' {
            p.push(Seq::empty())
        } else {
            p.update(p.len() - 1, p.last().push(s.last()))
        }
    }
}

/// Splits `s` on every `/`.
fn split_slash(s: &str) -> (r: Vec<String>)
    ensures
        views(r@) == pieces(s@),
{
    let n = s.unicode_len();
    let mut done: Vec<String> = Vec::new();
    let mut start: usize = 0;
    let mut i: usize = 0;
    assert(s@.subrange(0, 0) =~= Seq::<char>::empty());
    assert(views(done@) + seq![s@.subrange(0, 0)] =~= pieces(s@.subrange(0, 0)));
    while i < n
        invariant
            n == s@.len(),
            start <= i <= n,
            views(done@) + seq![s@.subrange(start as int, i as int)] == pieces(
                s@.subrange(0, i as int),
            ),
        decreases n - i,
    {
        let c = s.get_char(i);
        let ghost pre = s@.subrange(0, i + 1);
        assert(pre.drop_last() =~= s@.subrange(0, i as int));
        assert(pre.last() == c);
        if c == '/' {
            let piece = s.substring_char(start, i).to_owned();
            done.push(piece);
            assert(views(done@) =~= views(done@).drop_last().push(piece@));
            assert(s@.subrange(i + 1, i + 1) =~= Seq::<char>::empty());
            assert(views(done@) + seq![s@.subrange(i + 1, i + 1)] =~= pieces(pre));
            start = i + 1;
        } else {
            assert(s@.subrange(start as int, i + 1) =~= s@.subrange(start as int, i as int).push(c));
            assert(views(done@) + seq![s@.subrange(start as int, i + 1)] =~= pieces(pre));
        }
        i += 1;
    }
    let last = s.substring_char(start, n).to_owned();
    done.push(last);
    assert(s@.subrange(0, n as int) =~= s@);
    assert(views(done@) =~= views(done@).drop_last().push(last@));
    done
}

/// A remotely hosted package: owner, repository and ref.
#[derive(Debug, Clone, PartialEq, Eq)]
pub struct ModuleCoordinate {
    pub owner: String,
    pub repository: String,
    pub reference: String,
}

/// The marker that makes a module name a remote coordinate.
pub open spec fn is_remote_name(name: Seq<char>) -> bool {
    name.len() > 0 && name[0] == '@'
}

/// The coordinate a name denotes: `@owner/repository/ref`, three non-empty parts.
pub open spec fn coordinate_of(name: Seq<char>) -> Option<(Seq<char>, Seq<char>, Seq<char>)> {
    if is_remote_name(name) {
        let p = pieces(name.drop_first());
        if p.len() == 3 && p[0].len() > 0 && p[1].len() > 0 && p[2].len() > 0 {
            Some((p[0], p[1], p[2]))
        } else {
            None
        }
    } else {
        None
    }
}

/// Where a coordinate is cached below the cache root.
pub open spec fn cache_dir_of(root: Seq<char>, owner: Seq<char>, repo: Seq<char>, reference: Seq<
    char,
>) -> Seq<char> {
    root + "/github/@"@ + owner + "/"@ + repo + "/"@ + reference
}

/// The archive endpoint of a coordinate.
pub open spec fn tarball_url_of(owner: Seq<char>, repo: Seq<char>, reference: Seq<char>) -> Seq<
    char,
> {
    "https://github.com/"@ + owner + "/"@ + repo + "/tarball/"@ + reference
}

impl ModuleCoordinate {
    pub open spec fn parts(&self) -> (Seq<char>, Seq<char>, Seq<char>) {
        (self.owner@, self.repository@, self.reference@)
    }

    pub open spec fn spec_cache_dir(&self, root: Seq<char>) -> Seq<char> {
        cache_dir_of(root, self.owner@, self.repository@, self.reference@)
    }

    /// Reads a remote module name; `None` unless it is `@` followed by three
    /// non-empty parts separated by `/`. Nothing else is consulted.
    pub fn parse(name: &str) -> (r: Option<ModuleCoordinate>)
        ensures
            match r {
                Some(c) => coordinate_of(name@) == Some(c.parts()),
                None => coordinate_of(name@) is None,
            },
    {
        let n = name.unicode_len();
        if n == 0 || name.get_char(0) != '@' {
            return None;
        }
        let rest = name.substring_char(1, n);
        assert(rest@ =~= name@.drop_first());
        let p = split_slash(rest);
        if p.len() != 3 {
            return None;
        }
        assert(p@[0]@ == views(p@)[0] && p@[1]@ == views(p@)[1] && p@[2]@ == views(p@)[2]);
        if p[0].as_str().unicode_len() == 0 || p[1].as_str().unicode_len() == 0
            || p[2].as_str().unicode_len() == 0 {
            return None;
        }
        Some(
            ModuleCoordinate {
                owner: p[0].clone(),
                repository: p[1].clone(),
                reference: p[2].clone(),
            },
        )
    }

    /// The directory that holds this package once fetched:
    /// `<root>/github/@<owner>/<repository>/<ref>`.
    pub fn cache_dir(&self, root: &str) -> (r: String)
        ensures
            r@ == self.spec_cache_dir(root@),
    {
        let mut out = root.to_owned();
        out.append("/github/@");
        out.append(self.owner.as_str());
        out.append("/");
        out.append(self.repository.as_str());
        out.append("/");
        out.append(self.reference.as_str());
        out
    }

    /// The endpoint that serves this package as a compressed tar stream.
    pub fn tarball_url(&self) -> (r: String)
        ensures
            r@ == tarball_url_of(self.owner@, self.repository@, self.reference@),
    {
        let mut out = "https://github.com/".to_owned();
        out.append(self.owner.as_str());
        out.append("/");
        out.append(self.repository.as_str());
        out.append("/tarball/");
        out.append(self.reference.as_str());
        out
    }
}

/// Why a name is not handed to the remote fetcher.
#[derive(Debug, Clone, Copy, PartialEq, Eq, Structural)]
pub enum RemoteRejection {
    /// The name does not carry the remote marker.
    NotRemote,
    /// The name carries the marker but is not `owner/repository/ref`.
    Malformed,
}

impl RemoteRejection {
    /// The searcher's diagnostic for this rejection.
    pub fn message(&self) -> (r: &'static str)
        ensures
            r@ == (match *self {
                RemoteRejection::NotRemote => "not a remote module"@,
                RemoteRejection::Malformed => "couldn't fetch remote module"@,
            }),
    {
        match self {
            RemoteRejection::NotRemote => "not a remote module",
            RemoteRejection::Malformed => "couldn't fetch remote module",
        }
    }
}

/// Reads a name for the remote searcher. This decides before any network
/// access whether a fetch may be attempted at all.
pub fn classify_remote(name: &str) -> (r: Result<ModuleCoordinate, RemoteRejection>)
    ensures
        match r {
            Ok(c) => coordinate_of(name@) == Some(c.parts()),
            Err(RemoteRejection::NotRemote) => !is_remote_name(name@),
            Err(RemoteRejection::Malformed) => is_remote_name(name@) && coordinate_of(name@) is None,
        },
{
    let n = name.unicode_len();
    if n == 0 || name.get_char(0) != '@' {
        return Err(RemoteRejection::NotRemote);
    }
    match ModuleCoordinate::parse(name) {
        Some(c) => Ok(c),
        None => Err(RemoteRejection::Malformed),
    }
}

/// What fetching a coordinate does next.
#[derive(Debug, Clone, PartialEq, Eq)]
pub enum FetchStep {
    /// The package is already cached here: no network access.
    UseCached(String),
    /// Download the archive at `url` and move its root directory to `dir`.
    Download { url: String, dir: String },
}

/// The step `fetch_step` gives for a coordinate, a cache root and whether
/// the package is cached.
pub open spec fn is_fetch_step(c: ModuleCoordinate, root: Seq<char>, cached: bool, r: FetchStep) -> bool {
    if cached {
        r matches FetchStep::UseCached(d) && d@ == c.spec_cache_dir(root)
    } else {
        r matches FetchStep::Download { url, dir } && url@ == tarball_url_of(
            c.owner@,
            c.repository@,
            c.reference@,
        ) && dir@ == c.spec_cache_dir(root)
    }
}

impl ModuleCoordinate {
    /// Decides how to materialize this package, given whether its cache
    /// directory exists under `root`.
    pub fn fetch_step(&self, root: &str, cached: bool) -> (r: FetchStep)
        ensures
            is_fetch_step(*self, root@, cached, r),
    {
        let dir = self.cache_dir(root);
        if cached {
            FetchStep::UseCached(dir)
        } else {
            FetchStep::Download { url: self.tarball_url(), dir }
        }
    }
}

/// Fetching a cached coordinate twice downloads nothing either time and
/// yields the same directory both times: the coordinate's cache directory.
pub proof fn lemma_cached_fetch_is_local(
    c: ModuleCoordinate,
    root: Seq<char>,
    first: FetchStep,
    second: FetchStep,
)
    requires
        is_fetch_step(c, root, true, first),
        is_fetch_step(c, root, true, second),
    ensures
        !(first is Download) && !(second is Download),
        first->UseCached_0@ == second->UseCached_0@,
        first->UseCached_0@ == c.spec_cache_dir(root),
{
}

/// A package that is not cached is downloaded once, into the same directory
/// that a later, cached resolution uses.
pub proof fn lemma_download_fills_cache_dir(
    c: ModuleCoordinate,
    root: Seq<char>,
    first: FetchStep,
    later: FetchStep,
)
    requires
        is_fetch_step(c, root, false, first),
        is_fetch_step(c, root, true, later),
    ensures
        first is Download,
        !(later is Download),
        first->dir@ == later->UseCached_0@,
{
}

/// The bytes that a gzip stream decompresses to, or `None` where the stream
/// is corrupt or truncated.
pub uninterp spec fn gunzip_of(data: Seq<u8>) -> Option<Seq<u8>>;

/// The entries of a tar archive in archive order: each entry's path and
/// whether it is a directory; `None` where reading an entry fails.
pub uninterp spec fn tar_listing_of(data: Seq<u8>) -> Option<Seq<(Seq<char>, bool)>>;

/// Relies on flate2::read::GzDecoder: reading it to the end yields the
/// decompressed bytes of the stream, or an error on a corrupt or truncated
/// stream; either outcome depends on the input alone.
#[verifier::external_body]
fn gunzip(data: &[u8]) -> (r: Option<Vec<u8>>)
    ensures
        match r {
            Some(out) => gunzip_of(data@) == Some(out@),
            None => gunzip_of(data@) is None,
        },
{
    let mut out = Vec::new();
    flate2::read::GzDecoder::new(data).read_to_end(&mut out).ok()?;
    Some(out)
}

/// Relies on tar::Archive::entries, tar::Entry::path_bytes and
/// tar::EntryType::is_dir: the archive's entries in order, each with its
/// path (read as UTF-8, lossily) and whether it is a directory, or an error
/// where an entry cannot be read; either outcome depends on the input alone.
#[verifier::external_body]
fn tar_listing(data: &[u8]) -> (r: Option<Vec<(String, bool)>>)
    ensures
        match r {
            Some(l) => tar_listing_of(data@) == Some(listing_view(l@)),
            None => tar_listing_of(data@) is None,
        },
{
    let mut archive = tar::Archive::new(data);
    let entries = archive.entries().ok()?;
    entries.map(|e| {
        let e = e.ok()?;
        let path = String::from_utf8_lossy(&e.path_bytes()).into_owned();
        Some((path, e.header().entry_type().is_dir()))
    }).collect()
}

pub open spec fn listing_view(l: Seq<(String, bool)>) -> Seq<(Seq<char>, bool)> {
    l.map_values(|e: (String, bool)| (e.0@, e.1))
}

/// The path of the first directory entry.
pub open spec fn first_dir(l: Seq<(Seq<char>, bool)>) -> Option<Seq<char>>
    decreases l.len(),
{
    if l.len() == 0 {
        None
    } else if l[0].1 {
        Some(l[0].0)
    } else {
        first_dir(l.drop_first())
    }
}

/// The root folder of an archive listing: its first directory entry.
pub fn first_directory(entries: &Vec<(String, bool)>) -> (r: Option<String>)
    ensures
        match r {
            Some(p) => first_dir(listing_view(entries@)) == Some(p@),
            None => first_dir(listing_view(entries@)) is None,
        },
{
    let mut i: usize = 0;
    assert(listing_view(entries@).subrange(0, entries@.len() as int) =~= listing_view(entries@));
    while i < entries.len()
        invariant
            i <= entries@.len(),
            first_dir(listing_view(entries@)) == first_dir(
                listing_view(entries@).subrange(i as int, entries@.len() as int),
            ),
        decreases entries.len() - i,
    {
        let ghost rest = listing_view(entries@).subrange(i as int, entries@.len() as int);
        assert(rest.drop_first() =~= listing_view(entries@).subrange(i + 1, entries@.len() as int));
        if entries[i].1 {
            return Some(entries[i].0.clone());
        }
        i += 1;
    }
    None
}

/// The root folder of a compressed package archive: the first directory
/// entry of its decompressed listing; `None` where decompression or reading
/// the listing fails, or where no entry is a directory.
pub open spec fn archive_root_of(compressed: Seq<u8>) -> Option<Seq<char>> {
    match gunzip_of(compressed) {
        Some(tar_bytes) => match tar_listing_of(tar_bytes) {
            Some(listing) => first_dir(listing),
            None => None,
        },
        None => None,
    }
}

/// The name of the single folder a downloaded package archive wraps its
/// content in: the first directory entry of the decompressed tar stream.
pub fn archive_root(compressed: &[u8]) -> (r: Option<String>)
    ensures
        match r {
            Some(p) => archive_root_of(compressed@) == Some(p@),
            None => archive_root_of(compressed@) is None,
        },
{
    let tar_bytes = match gunzip(compressed) {
        Some(b) => b,
        None => {
            return None;
        },
    };
    let listing = match tar_listing(tar_bytes.as_slice()) {
        Some(l) => l,
        None => {
            return None;
        },
    };
    first_directory(&listing)
}

} // verus!
