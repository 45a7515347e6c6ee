use epine::resolve::{candidate_paths, next_step, not_found_message, parent_dir};
use epine::{ResolveStep, SearchContext, SearchResult, Searcher};

fn context(root: Option<&str>) -> SearchContext {
    SearchContext::new(
        root.map(|r| r.to_string()),
        vec!["/work".to_string(), "/cache/github".to_string()],
        Some("/cache".to_string()),
    )
}

#[test]
fn searchers_run_in_priority_order() {
    let c = context(Some("/project"));
    assert_eq!(
        c.searchers(),
        vec![
            Searcher::Local("/project".to_string()),
            Searcher::Local("/work".to_string()),
            Searcher::Local("/cache/github".to_string()),
            Searcher::Remote("/cache".to_string()),
        ]
    );
    let unrooted = context(None);
    assert_eq!(unrooted.searchers()[0], Searcher::Local("/work".to_string()));
    assert_eq!(unrooted.searchers().len(), 3);
}

#[test]
fn nested_module_resolves_siblings_then_scope_is_restored() {
    let mut c = context(Some("/project"));
    let before = c.searchers();
    let script_path = "/project/A/mod.lua";
    let dir = parent_dir(script_path);
    assert_eq!(dir, "/project/A");
    c.enter_module(dir.clone());
    assert_eq!(c.depth(), 1);
    match &c.searchers()[0] {
        Searcher::Local(d) => {
            let (file, package) = candidate_paths(d, "sibling");
            assert_eq!(file, "/project/A/sibling.lua");
            assert_eq!(package, "/project/A/sibling/init.lua");
        }
        other => panic!("unexpected first searcher {:?}", other),
    }
    c.enter_module("/project/A/sibling".to_string());
    assert_eq!(c.searchers()[0], Searcher::Local("/project/A/sibling".to_string()));
    c.leave_module();
    assert_eq!(c.searchers()[0], Searcher::Local("/project/A".to_string()));
    c.leave_module();
    assert_eq!(c.depth(), 0);
    assert_eq!(c.searchers(), before);
    let (file, _) = candidate_paths("/project", "other");
    assert_eq!(file, "/project/other.lua");
}

#[test]
fn parent_of_paths() {
    assert_eq!(parent_dir("a/b/c.lua"), "a/b");
    assert_eq!(parent_dir("/x"), "");
    assert_eq!(parent_dir("plain.lua"), "");
    assert_eq!(parent_dir("dir/"), "dir");
}

fn failed(d: &str) -> SearchResult {
    SearchResult::Failed(d.to_string())
}

#[test]
fn first_success_stops_the_chain() {
    let n = 4;
    let mut seen: Vec<SearchResult> = vec![];
    assert_eq!(next_step(n, &seen), ResolveStep::Try(0));
    seen.push(failed("no file"));
    assert_eq!(next_step(n, &seen), ResolveStep::Try(1));
    seen.push(failed("no file either"));
    assert_eq!(next_step(n, &seen), ResolveStep::Try(2));
    seen.push(SearchResult::Found("/m/init.lua".to_string()));
    assert_eq!(
        next_step(n, &seen),
        ResolveStep::Loaded { searcher: 2, path: "/m/init.lua".to_string() }
    );
}

#[test]
fn all_failures_are_reported_together() {
    let seen = vec![failed("a"), failed("b")];
    assert_eq!(
        next_step(2, &seen),
        ResolveStep::NotFound(vec!["a".to_string(), "b".to_string()])
    );
    assert_eq!(next_step(0, &vec![]), ResolveStep::NotFound(vec![]));
    assert_eq!(
        not_found_message("foo", &vec!["a".to_string(), "b".to_string()]),
        "module 'foo' not found:\n\ta\n\tb"
    );
}
