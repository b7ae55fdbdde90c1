use rewind::filter::{toggle_filter, Filter, FilterContext, FilterToggle};

fn context() -> FilterContext {
    FilterContext::new(
        "/workspace/repo/crate".to_owned(),
        Some("/workspace/repo".to_owned()),
        Some("main".to_owned()),
    )
}

#[test]
fn toggles_apply_current_context_without_changing_limit() {
    let context = context();
    let mut filter = Filter::new().limit(25);

    toggle_filter(&mut filter, FilterToggle::Cwd, &context);
    toggle_filter(&mut filter, FilterToggle::Repo, &context);
    toggle_filter(&mut filter, FilterToggle::Branch, &context);
    toggle_filter(&mut filter, FilterToggle::Success, &context);

    assert_eq!(filter.cwd.as_deref(), Some("/workspace/repo/crate"));
    assert_eq!(filter.git_repo.as_deref(), Some("/workspace/repo"));
    assert_eq!(filter.git_branch.as_deref(), Some("main"));
    assert!(filter.only_success);
    assert!(!filter.only_failure);
    assert_eq!(filter.limit, Some(25));
}

#[test]
fn success_and_failure_filters_are_exclusive_when_toggled() {
    let context = context();
    let mut filter = Filter::new();

    toggle_filter(&mut filter, FilterToggle::Success, &context);
    toggle_filter(&mut filter, FilterToggle::Fail, &context);

    assert!(!filter.only_success);
    assert!(filter.only_failure);
}

#[test]
fn unavailable_git_filters_do_not_activate() {
    let context = FilterContext::new("/workspace".to_owned(), None, None);
    let mut filter = Filter::new();

    toggle_filter(&mut filter, FilterToggle::Repo, &context);
    toggle_filter(&mut filter, FilterToggle::Branch, &context);

    assert!(filter.git_repo.is_none());
    assert!(filter.git_branch.is_none());
}

#[test]
fn toggling_twice_restores_the_filter() {
    let context = context();
    let start = Filter::new().limit(7).only_deleted();
    for toggle in [
        FilterToggle::Cwd,
        FilterToggle::Repo,
        FilterToggle::Branch,
        FilterToggle::Success,
        FilterToggle::Fail,
        FilterToggle::Deleted,
    ] {
        let mut filter = start.duplicate();
        toggle_filter(&mut filter, toggle, &context);
        toggle_filter(&mut filter, toggle, &context);
        assert_eq!(filter.cwd, start.cwd);
        assert_eq!(filter.git_repo, start.git_repo);
        assert_eq!(filter.git_branch, start.git_branch);
        assert_eq!(filter.only_success, start.only_success);
        assert_eq!(filter.only_failure, start.only_failure);
        assert_eq!(filter.only_deleted, start.only_deleted);
        assert_eq!(filter.limit, Some(7));
    }
}

#[test]
fn toggles_keep_the_project_scope_and_deleted_flips() {
    let context = context();
    let mut filter = Filter::new().project_cwd("/workspace/repo".to_owned()).limit(3);
    toggle_filter(&mut filter, FilterToggle::Deleted, &context);
    assert!(filter.only_deleted);
    toggle_filter(&mut filter, FilterToggle::Fail, &context);
    toggle_filter(&mut filter, FilterToggle::Success, &context);
    assert!(filter.only_success && !filter.only_failure);
    assert_eq!(filter.project_cwd.as_deref(), Some("/workspace/repo"));
    assert_eq!(filter.limit, Some(3));
}
