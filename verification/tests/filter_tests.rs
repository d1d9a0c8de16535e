use usync::backend::traits::FileInfo;
use usync::filters::{AnyFilter, DateFilter, Filter, FilterChain, PatternFilter, SizeFilter};

fn file(path: &str, size: u64) -> FileInfo {
    FileInfo { path: path.to_string(), size, is_dir: false, modified: Some(1_000) }
}

fn dir(path: &str, size: u64) -> FileInfo {
    FileInfo { path: path.to_string(), size, is_dir: true, modified: None }
}

fn dated(path: &str, modified: Option<u64>) -> FileInfo {
    FileInfo { path: path.to_string(), size: 1, is_dir: false, modified }
}

fn strings(items: &[&str]) -> Vec<String> {
    items.iter().map(|s| s.to_string()).collect()
}

#[test]
fn include_and_exclude_patterns_work_together() {
    let mut chain = FilterChain::new();
    chain.add(AnyFilter::Pattern(
        PatternFilter::new(strings(&["*.txt"]), strings(&["*secret*"])).unwrap(),
    ));
    assert!(chain.matches(&file("notes.txt", 1)));
    assert!(!chain.matches(&file("secret.txt", 1)));
    assert!(!chain.matches(&file("image.png", 1)));
}

#[test]
fn include_and_exclude_in_separate_filters_give_the_same_answers() {
    let mut chain = FilterChain::new();
    chain.add(AnyFilter::Pattern(PatternFilter::new(strings(&["*.txt"]), vec![]).unwrap()));
    chain.add(AnyFilter::Pattern(PatternFilter::new(vec![], strings(&["*secret*"])).unwrap()));
    assert_eq!(chain.len(), 2);
    assert!(chain.matches(&file("notes.txt", 1)));
    assert!(!chain.matches(&file("secret.txt", 1)));
    assert!(!chain.matches(&file("image.png", 1)));
}

#[test]
fn size_filter_lower_bound_is_inclusive() {
    let filter = SizeFilter::new(Some(100), None);
    assert!(filter.matches(&file("a", 100)));
    assert!(!filter.matches(&file("a", 99)));
    assert!(filter.matches(&file("a", u64::MAX)));
    assert!(filter.matches(&dir("d", 0)));
    assert!(filter.matches(&dir("d", 99)));
    assert!(filter.matches(&dir("d", 5_000)));
}

#[test]
fn size_filter_upper_bound_is_inclusive() {
    let filter = SizeFilter::new(None, Some(100));
    assert!(filter.matches(&file("a", 100)));
    assert!(!filter.matches(&file("a", 101)));
    assert!(filter.matches(&file("a", 0)));
    assert!(filter.matches(&dir("d", 101)));
}

#[test]
fn size_filter_with_both_bounds_and_with_none() {
    let between = SizeFilter::new(Some(10), Some(20));
    assert!(!between.matches(&file("a", 9)));
    assert!(between.matches(&file("a", 10)));
    assert!(between.matches(&file("a", 20)));
    assert!(!between.matches(&file("a", 21)));
    let nothing_fits = SizeFilter::new(Some(20), Some(10));
    assert!(!nothing_fits.matches(&file("a", 15)));
    assert!(nothing_fits.matches(&dir("d", 15)));
    let open = SizeFilter::new(None, None);
    assert!(open.matches(&file("a", 0)));
    assert!(open.matches(&file("a", u64::MAX)));
}

#[test]
fn date_filter_bounds_are_inclusive() {
    let filter = DateFilter::new(Some(100), Some(200));
    assert!(!filter.matches(&dated("a", Some(99))));
    assert!(filter.matches(&dated("a", Some(100))));
    assert!(filter.matches(&dated("a", Some(200))));
    assert!(!filter.matches(&dated("a", Some(201))));
}

#[test]
fn date_filter_passes_what_has_no_modification_time() {
    let filter = DateFilter::new(Some(100), Some(200));
    assert!(filter.matches(&dated("a", None)));
    assert!(filter.matches(&dir("d", 0)));
    let open = DateFilter::new(None, None);
    assert!(open.matches(&dated("a", Some(0))));
    assert!(open.matches(&dated("a", Some(u64::MAX))));
    let after = DateFilter::new(Some(5), None);
    assert!(!after.matches(&dated("a", Some(4))));
    assert!(after.matches(&dated("a", Some(5))));
    let before = DateFilter::new(None, Some(5));
    assert!(before.matches(&dated("a", Some(5))));
    assert!(!before.matches(&dated("a", Some(6))));
}

#[test]
fn date_filter_applies_to_directories_that_have_a_time() {
    let filter = DateFilter::new(Some(100), None);
    let old_dir = FileInfo { path: "d".to_string(), size: 0, is_dir: true, modified: Some(1) };
    assert!(!filter.matches(&old_dir));
}

#[test]
fn exclude_pattern_beats_include_pattern() {
    let filter = PatternFilter::new(strings(&["*.txt"]), strings(&["*.txt"])).unwrap();
    assert!(!filter.matches(&file("a.txt", 1)));
    assert!(!filter.matches(&file("a.bin", 1)));
}

#[test]
fn pattern_filter_without_patterns_passes_everything() {
    let filter = PatternFilter::new(vec![], vec![]).unwrap();
    assert!(filter.matches(&file("anything", 1)));
    assert!(filter.matches(&dir("", 0)));
}

#[test]
fn pattern_filter_without_includes_passes_what_is_not_excluded() {
    let filter = PatternFilter::new(vec![], strings(&["*.bin", "*.tmp"])).unwrap();
    assert!(filter.matches(&file("a.txt", 1)));
    assert!(!filter.matches(&file("a.bin", 1)));
    assert!(!filter.matches(&file("dir/a.tmp", 1)));
}

#[test]
fn one_matching_include_pattern_is_enough() {
    let filter = PatternFilter::new(strings(&["*.rs", "*.toml"]), vec![]).unwrap();
    assert!(filter.matches(&file("src/lib.rs", 1)));
    assert!(filter.matches(&file("Cargo.toml", 1)));
    assert!(!filter.matches(&file("Cargo.lock", 1)));
}

#[test]
fn patterns_are_matched_against_the_whole_path() {
    let filter = PatternFilter::new(strings(&["/data/*.txt"]), vec![]).unwrap();
    assert!(filter.matches(&file("/data/a.txt", 1)));
    assert!(filter.matches(&file("/data/sub/a.txt", 1)));
    assert!(!filter.matches(&file("/other/a.txt", 1)));
    let single = PatternFilter::new(strings(&["file?.txt"]), vec![]).unwrap();
    assert!(single.matches(&file("file1.txt", 1)));
    assert!(!single.matches(&file("file10.txt", 1)));
    let class = PatternFilter::new(strings(&["file[0-9].txt"]), vec![]).unwrap();
    assert!(class.matches(&file("file7.txt", 1)));
    assert!(!class.matches(&file("filex.txt", 1)));
    let literal = PatternFilter::new(strings(&["notes.txt"]), vec![]).unwrap();
    assert!(literal.matches(&file("notes.txt", 1)));
    assert!(!literal.matches(&file("notes.txt.bak", 1)));
}

#[test]
fn malformed_include_pattern_is_refused_at_construction() {
    match PatternFilter::new(strings(&["*.txt", "a[", "b["]), strings(&["c["])) {
        Err(text) => {
            assert_eq!(
                text,
                "Invalid include pattern: Pattern syntax error near position 1: invalid range pattern"
            )
        }
        Ok(_) => panic!("a malformed pattern was accepted"),
    }
}

#[test]
fn malformed_exclude_pattern_is_refused_at_construction() {
    match PatternFilter::new(strings(&["*.txt"]), strings(&["ok", "a***b"])) {
        Err(text) => assert_eq!(
            text,
            "Invalid exclude pattern: Pattern syntax error near position 3: wildcards are either regular `*` or recursive `**`"
        ),
        Ok(_) => panic!("a malformed pattern was accepted"),
    }
}

#[test]
fn empty_chain_passes_everything() {
    let chain = FilterChain::new();
    assert_eq!(chain.len(), 0);
    assert!(chain.matches(&file("a", 0)));
    assert!(chain.matches(&dir("d", 0)));
    let chain = FilterChain::default();
    assert!(chain.matches(&file("a", 0)));
}

#[test]
fn chain_passes_only_what_every_filter_passes() {
    let mut chain = FilterChain::new();
    chain.add(AnyFilter::Size(SizeFilter::new(Some(10), None)));
    chain.add(AnyFilter::Date(DateFilter::new(None, Some(500))));
    chain.add(AnyFilter::Pattern(PatternFilter::new(strings(&["*.log"]), vec![]).unwrap()));
    let entry = |path: &str, size: u64, modified: u64| FileInfo {
        path: path.to_string(),
        size,
        is_dir: false,
        modified: Some(modified),
    };
    assert!(chain.matches(&entry("a.log", 10, 500)));
    assert!(!chain.matches(&entry("a.log", 9, 500)));
    assert!(!chain.matches(&entry("a.log", 10, 501)));
    assert!(!chain.matches(&entry("a.txt", 10, 500)));
}

#[test]
fn order_of_filters_does_not_change_the_answer() {
    let entries = [file("a.txt", 5), file("a.txt", 50), file("b.bin", 50), dir("d.txt", 0)];
    let mut one = FilterChain::new();
    one.add(AnyFilter::Size(SizeFilter::new(Some(10), None)));
    one.add(AnyFilter::Pattern(PatternFilter::new(strings(&["*.txt"]), vec![]).unwrap()));
    let mut other = FilterChain::new();
    other.add(AnyFilter::Pattern(PatternFilter::new(strings(&["*.txt"]), vec![]).unwrap()));
    other.add(AnyFilter::Size(SizeFilter::new(Some(10), None)));
    for entry in &entries {
        assert_eq!(one.matches(entry), other.matches(entry));
    }
    assert!(!one.matches(&entries[0]));
    assert!(one.matches(&entries[1]));
    assert!(!one.matches(&entries[2]));
    assert!(one.matches(&entries[3]));
}

#[test]
fn cloned_filters_answer_as_the_original() {
    let mut chain = FilterChain::new();
    chain.add(AnyFilter::Pattern(PatternFilter::new(strings(&["*.txt"]), strings(&["x*"])).unwrap()));
    chain.add(AnyFilter::Size(SizeFilter::new(Some(2), Some(4))));
    let copy = chain.clone();
    assert_eq!(copy.len(), 2);
    for entry in [file("a.txt", 3), file("x.txt", 3), file("a.txt", 5), file("a.bin", 3)] {
        assert_eq!(copy.matches(&entry), chain.matches(&entry));
    }
    let any = AnyFilter::Date(DateFilter::new(Some(2_000), None));
    assert!(!any.matches(&file("a", 1)));
    assert!(!any.clone().matches(&file("a", 1)));
}
