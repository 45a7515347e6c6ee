//! The module resolver chain: which searchers run, in which order, where a
//! local searcher looks, and how nested modules scope the first searcher.
use vstd::prelude::*;
use crate::makefile::views;

verus! {

/// One searcher of the chain.
#[derive(Debug, Clone, PartialEq, Eq)]
pub enum Searcher {
    /// Looks for `<dir>/<name>.lua`, then `<dir>/<name>/init.lua`.
    Local(String),
    /// Fetches remote coordinates into the cache below this root.
    Remote(String),
}

pub enum SearcherView {
    Local(Seq<char>),
    Remote(Seq<char>),
}

impl View for Searcher {
    type V = SearcherView;

    open spec fn view(&self) -> SearcherView {
        match self {
            Searcher::Local(d) => SearcherView::Local(d@),
            Searcher::Remote(r) => SearcherView::Remote(r@),
        }
    }
}

/// The searchers in effect while resolving, with the directories of the
/// modules whose top-level code is running, innermost last.
pub struct SearchContext {
    root: Option<String>,
    nested: Vec<String>,
    locations: Vec<String>,
    cache_root: Option<String>,
}

pub struct ContextView {
    pub root: Option<Seq<char>>,
    pub nested: Seq<Seq<char>>,
    pub locations: Seq<Seq<char>>,
    pub cache_root: Option<Seq<char>>,
}

pub open spec fn opt_view(o: Option<String>) -> Option<Seq<char>> {
    match o {
        Some(s) => Some(s@),
        None => None,
    }
}

impl View for SearchContext {
    type V = ContextView;

    closed spec fn view(&self) -> ContextView {
        ContextView {
            root: opt_view(self.root),
            nested: views(self.nested@),
            locations: views(self.locations@),
            cache_root: opt_view(self.cache_root),
        }
    }
}

/// The directory the first searcher is rooted at: the innermost running
/// module's, else the root script's.
pub open spec fn first_local(c: ContextView) -> Option<Seq<char>> {
    if c.nested.len() > 0 {
        Some(c.nested.last())
    } else {
        c.root
    }
}

/// The chain in priority order: the first local searcher, one per well-known
/// location, then the remote one.
pub open spec fn searchers_of(c: ContextView) -> Seq<SearcherView> {
    let first = match first_local(c) {
        Some(d) => seq![SearcherView::Local(d)],
        None => Seq::empty(),
    };
    let remote = match c.cache_root {
        Some(r) => seq![SearcherView::Remote(r)],
        None => Seq::empty(),
    };
    first + c.locations.map_values(|d: Seq<char>| SearcherView::Local(d)) + remote
}

/// The context while a module found in `dir` runs its top-level code.
pub open spec fn entered(c: ContextView, dir: Seq<char>) -> ContextView {
    ContextView { nested: c.nested.push(dir), ..c }
}

/// The context once the innermost running module has finished.
pub open spec fn left(c: ContextView) -> ContextView {
    ContextView { nested: c.nested.drop_last(), ..c }
}

impl SearchContext {
    /// A context for a root script in `root` (if known), with the well-known
    /// `locations` in order and the remote cache below `cache_root` (if any).
    pub fn new(root: Option<String>, locations: Vec<String>, cache_root: Option<String>) -> (r:
        SearchContext)
        ensures
            r@ == (ContextView {
                root: opt_view(root),
                nested: Seq::empty(),
                locations: views(locations@),
                cache_root: opt_view(cache_root),
            }),
    {
        let r = SearchContext { root, nested: Vec::new(), locations, cache_root };
        assert(views(r.nested@) =~= Seq::<Seq<char>>::empty());
        r
    }

    /// A module found in `dir` starts running its top-level code.
    pub fn enter_module(&mut self, dir: String)
        ensures
            final(self)@ == entered(old(self)@, dir@),
    {
        self.nested.push(dir);
        assert(views(self.nested@) =~= views(old(self).nested@).push(dir@));
    }

    /// The innermost running module has finished, successfully or not.
    pub fn leave_module(&mut self)
        requires
            old(self)@.nested.len() > 0,
        ensures
            final(self)@ == left(old(self)@),
    {
        self.nested.pop();
        assert(views(self.nested@) =~= views(old(self).nested@).drop_last());
    }

    /// How many modules are running their top-level code.
    pub fn depth(&self) -> (r: usize)
        ensures
            r == self@.nested.len(),
    {
        self.nested.len()
    }

    /// The searchers in priority order.
    pub fn searchers(&self) -> (r: Vec<Searcher>)
        ensures
            r@.map_values(|s: Searcher| s@) == searchers_of(self@),
    {
        let mut out: Vec<Searcher> = Vec::new();
        let n = self.nested.len();
        if n > 0 {
            out.push(Searcher::Local(self.nested[n - 1].clone()));
        } else {
            match &self.root {
                Some(d) => out.push(Searcher::Local(d.clone())),
                None => {},
            }
        }
        let ghost first = out@.map_values(|s: Searcher| s@);
        let ghost locs = views(self.locations@).map_values(|d: Seq<char>| SearcherView::Local(d));
        assert(first =~= match first_local(self@) {
            Some(d) => seq![SearcherView::Local(d)],
            None => Seq::<SearcherView>::empty(),
        });
        let mut i: usize = 0;
        while i < self.locations.len()
            invariant
                i <= self.locations@.len(),
                locs == views(self.locations@).map_values(|d: Seq<char>| SearcherView::Local(d)),
                out@.map_values(|s: Searcher| s@) == first + locs.subrange(0, i as int),
            decreases self.locations.len() - i,
        {
            let loc = self.locations[i].clone();
            let ghost prev = out@.map_values(|s: Searcher| s@);
            out.push(Searcher::Local(loc));
            assert(locs[i as int] == SearcherView::Local(self.locations@[i as int]@));
            assert(out@.map_values(|s: Searcher| s@) =~= prev.push(SearcherView::Local(loc@)));
            assert(out@.map_values(|s: Searcher| s@) =~= first + locs.subrange(0, i + 1));
            i += 1;
        }
        assert(locs.subrange(0, self.locations@.len() as int) =~= locs);
        let ghost before = out@.map_values(|s: Searcher| s@);
        match &self.cache_root {
            Some(r) => {
                out.push(Searcher::Remote(r.clone()));
                assert(out@.map_values(|s: Searcher| s@) =~= before + seq![SearcherView::Remote(r@)]);
            },
            None => {
                assert(out@.map_values(|s: Searcher| s@) =~= before + Seq::<SearcherView>::empty());
            },
        }
        out
    }
}

/// While a module runs, the first searcher is rooted at its own directory;
/// once it finishes, the context is exactly what it was before, so later
/// requires of the enclosing code resolve as they did.
pub proof fn lemma_nested_scope(c: ContextView, dir: Seq<char>)
    ensures
        searchers_of(entered(c, dir))[0] == SearcherView::Local(dir),
        left(entered(c, dir)) == c,
        searchers_of(left(entered(c, dir))) == searchers_of(c),
{
    assert(entered(c, dir).nested.drop_last() =~= c.nested);
}

/// The two files a local searcher tries, in order.
pub fn candidate_paths(dir: &str, name: &str) -> (r: (String, String))
    ensures
        r.0@ == dir@ + "/"@ + name@ + ".lua"@,
        r.1@ == dir@ + "/"@ + name@ + "/init.lua"@,
{
    let mut file = dir.to_owned();
    file.append("/");
    file.append(name);
    let mut package = file.clone();
    file.append(".lua");
    package.append("/init.lua");
    (file, package)
}

/// The position of the last `/`, or -1.
pub open spec fn last_slash(s: Seq<char>) -> int
    decreases s.len(),
{
    if s.len() == 0 {
        -1
    } else if s.last() == '/' {
        s.len() - 1
    } else {
        last_slash(s.drop_last())
    }
}

proof fn lemma_last_slash_bounds(s: Seq<char>)
    ensures
        -1 <= last_slash(s) < s.len(),
    decreases s.len(),
{
    if s.len() > 0 {
        lemma_last_slash_bounds(s.drop_last());
    }
}

/// The directory part of a path: what precedes its last `/` (empty if none).
pub open spec fn parent_of(path: Seq<char>) -> Seq<char> {
    if last_slash(path) < 0 {
        Seq::empty()
    } else {
        path.subrange(0, last_slash(path))
    }
}

/// The directory that holds the file at `path`.
pub fn parent_dir(path: &str) -> (r: String)
    ensures
        r@ == parent_of(path@),
{
    let n = path.unicode_len();
    let mut i: usize = n;
    assert(path@.subrange(0, n as int) =~= path@);
    while i > 0
        invariant
            i <= n,
            n == path@.len(),
            last_slash(path@) == last_slash(path@.subrange(0, i as int)),
        decreases i,
    {
        let ghost pre = path@.subrange(0, i as int);
        assert(pre.drop_last() =~= path@.subrange(0, i - 1));
        if path.get_char(i - 1) == '/' {
            proof {
                lemma_last_slash_bounds(path@);
            }
            return path.substring_char(0, i - 1).to_owned();
        }
        i -= 1;
    }
    String::new()
}

/// What one searcher reported for a name.
#[derive(Debug, Clone, PartialEq, Eq)]
pub enum SearchResult {
    /// The module was found; this is the path it was loaded from.
    Found(String),
    /// The searcher could not load it; this is its diagnostic.
    Failed(String),
}

/// What resolution does next.
#[derive(Debug, Clone, PartialEq, Eq)]
pub enum ResolveStep {
    /// Run the searcher at this position.
    Try(usize),
    /// The searcher at `searcher` found the module at `path`: stop.
    Loaded { searcher: usize, path: String },
    /// Every searcher failed; their diagnostics in order.
    NotFound(Vec<String>),
}

pub enum StepView {
    Try(int),
    Loaded(int, Seq<char>),
    NotFound(Seq<Seq<char>>),
}

impl View for ResolveStep {
    type V = StepView;

    open spec fn view(&self) -> StepView {
        match self {
            ResolveStep::Try(i) => StepView::Try(*i as int),
            ResolveStep::Loaded { searcher, path } => StepView::Loaded(*searcher as int, path@),
            ResolveStep::NotFound(d) => StepView::NotFound(views(d@)),
        }
    }
}

/// The position of the first searcher that found the module.
pub open spec fn first_found(s: Seq<SearchResult>) -> Option<int>
    decreases s.len(),
{
    if s.len() == 0 {
        None
    } else {
        match first_found(s.drop_last()) {
            Some(i) => Some(i),
            None => if s.last() is Found {
                Some(s.len() - 1)
            } else {
                None
            },
        }
    }
}

pub open spec fn message_of(r: SearchResult) -> Seq<char> {
    match r {
        SearchResult::Found(p) => p@,
        SearchResult::Failed(d) => d@,
    }
}

/// The next step of a chain of `n` searchers, given what the searchers run
/// so far reported, in order: the first success wins; else the next
/// searcher runs; when none is left, resolution fails with every diagnostic.
pub open spec fn step_of(n: nat, s: Seq<SearchResult>) -> StepView {
    match first_found(s) {
        Some(i) => StepView::Loaded(i, message_of(s[i])),
        None => if s.len() < n {
            StepView::Try(s.len() as int)
        } else {
            StepView::NotFound(s.map_values(|r: SearchResult| message_of(r)))
        },
    }
}

proof fn lemma_first_found_extends(s: Seq<SearchResult>, k: int)
    requires
        0 <= k <= s.len(),
        first_found(s.subrange(0, k)) is Some,
    ensures
        first_found(s) == first_found(s.subrange(0, k)),
    decreases s.len() - k,
{
    if k < s.len() {
        assert(s.drop_last().subrange(0, k) =~= s.subrange(0, k));
        lemma_first_found_extends(s.drop_last(), k);
    } else {
        assert(s.subrange(0, k) =~= s);
    }
}

proof fn lemma_none_found(s: Seq<SearchResult>)
    requires
        forall|i: int| 0 <= i < s.len() ==> #[trigger] s[i] is Failed,
    ensures
        first_found(s) is None,
    decreases s.len(),
{
    if s.len() > 0 {
        lemma_none_found(s.drop_last());
    }
}

/// Decides the next step of a chain of `n_searchers` searchers from what the
/// searchers run so far reported.
pub fn next_step(n_searchers: usize, outcomes: &Vec<SearchResult>) -> (r: ResolveStep)
    ensures
        r@ == step_of(n_searchers as nat, outcomes@),
{
    let mut i: usize = 0;
    assert(outcomes@.subrange(0, 0) =~= Seq::<SearchResult>::empty());
    while i < outcomes.len()
        invariant
            i <= outcomes@.len(),
            first_found(outcomes@.subrange(0, i as int)) is None,
        decreases outcomes.len() - i,
    {
        assert(outcomes@.subrange(0, i + 1).drop_last() =~= outcomes@.subrange(0, i as int));
        match &outcomes[i] {
            SearchResult::Found(path) => {
                proof {
                    lemma_first_found_extends(outcomes@, i + 1);
                }
                return ResolveStep::Loaded { searcher: i, path: path.clone() };
            },
            SearchResult::Failed(_) => {},
        }
        i += 1;
    }
    assert(outcomes@.subrange(0, outcomes@.len() as int) =~= outcomes@);
    if outcomes.len() < n_searchers {
        return ResolveStep::Try(outcomes.len());
    }
    let mut diagnostics: Vec<String> = Vec::new();
    let mut j: usize = 0;
    while j < outcomes.len()
        invariant
            j <= outcomes@.len(),
            views(diagnostics@) == outcomes@.subrange(0, j as int).map_values(
                |r: SearchResult| message_of(r),
            ),
        decreases outcomes.len() - j,
    {
        let m = match &outcomes[j] {
            SearchResult::Found(p) => p.clone(),
            SearchResult::Failed(d) => d.clone(),
        };
        assert(m@ == message_of(outcomes@[j as int]));
        let ghost prev = diagnostics@;
        diagnostics.push(m);
        assert(views(diagnostics@) =~= views(prev).push(m@));
        assert(views(diagnostics@) =~= outcomes@.subrange(0, j + 1).map_values(
            |r: SearchResult| message_of(r),
        ));
        j += 1;
    }
    ResolveStep::NotFound(diagnostics)
}

/// With searchers before position `k` failing and the one at `k` succeeding,
/// resolution runs exactly the searchers `0..=k`, in order, and then stops
/// with the module that `k` found; the searcher after `k` never runs.
pub proof fn lemma_first_success_wins(n: nat, s: Seq<SearchResult>, k: int)
    requires
        0 <= k < n,
        k < s.len(),
        forall|i: int| 0 <= i < k ==> #[trigger] s[i] is Failed,
        s[k] is Found,
    ensures
        forall|j: int| 0 <= j <= k ==> step_of(n, #[trigger] s.subrange(0, j)) == StepView::Try(j),
        step_of(n, s.subrange(0, k + 1)) == StepView::Loaded(k, message_of(s[k])),
{
    assert forall|j: int| 0 <= j <= k implies step_of(n, #[trigger] s.subrange(0, j))
        == StepView::Try(j) by {
        let p = s.subrange(0, j);
        assert forall|i: int| 0 <= i < p.len() implies #[trigger] p[i] is Failed by {
            assert(p[i] == s[i]);
        }
        lemma_none_found(p);
    }
    let q = s.subrange(0, k + 1);
    assert(q.drop_last() =~= s.subrange(0, k));
    assert forall|i: int| 0 <= i < k implies #[trigger] s.subrange(0, k)[i] is Failed by {
        assert(s.subrange(0, k)[i] == s[i]);
    }
    lemma_none_found(s.subrange(0, k));
}

/// The lines that list each diagnostic: each on a new line, after a tab.
pub open spec fn diagnostic_lines(d: Seq<Seq<char>>) -> Seq<char>
    decreases d.len(),
{
    if d.len() == 0 {
        Seq::empty()
    } else {
        diagnostic_lines(d.drop_last()) + "\n\t"@ + d.last()
    }
}

/// The report of a failed resolution: the module's name, then every
/// searcher's diagnostic.
pub fn not_found_message(name: &str, diagnostics: &Vec<String>) -> (r: String)
    ensures
        r@ == "module '"@ + name@ + "' not found:"@ + diagnostic_lines(views(diagnostics@)),
{
    let mut out = "module '".to_owned();
    out.append(name);
    out.append("' not found:");
    let ghost head = out@;
    let mut i: usize = 0;
    assert(views(diagnostics@).subrange(0, 0) =~= Seq::<Seq<char>>::empty());
    assert(out@ =~= head + diagnostic_lines(Seq::<Seq<char>>::empty()));
    while i < diagnostics.len()
        invariant
            i <= diagnostics@.len(),
            out@ == head + diagnostic_lines(views(diagnostics@).subrange(0, i as int)),
        decreases diagnostics.len() - i,
    {
        out.append("\n\t");
        out.append(diagnostics[i].as_str());
        assert(views(diagnostics@).subrange(0, i + 1).drop_last() =~= views(diagnostics@).subrange(
            0,
            i as int,
        ));
        assert(out@ =~= head + diagnostic_lines(views(diagnostics@).subrange(0, i + 1)));
        i += 1;
    }
    assert(views(diagnostics@).subrange(0, diagnostics@.len() as int) =~= views(diagnostics@));
    out
}

} // verus!
