use usync::text::{
    file_name, find_char, find_sub, join_path, matches_at, push_decimal, relative_path, starts_with,
    to_chars,
};

fn chars(s: &str) -> Vec<char> {
    s.chars().collect()
}

fn decimal(n: usize) -> String {
    let mut text = String::new();
    push_decimal(&mut text, n);
    text
}

#[test]
fn characters_of_a_string_come_in_order() {
    assert_eq!(to_chars(""), Vec::<char>::new());
    assert_eq!(to_chars("abc"), vec!['a', 'b', 'c']);
    assert_eq!(to_chars("é/日本"), vec!['é', '/', '日', '本']);
}

#[test]
fn relative_path_takes_off_the_root_and_the_slashes_behind_it() {
    assert_eq!(relative_path("/src/a.txt", "/src"), "a.txt");
    assert_eq!(relative_path("/src/a.txt", "/src/"), "a.txt");
    assert_eq!(relative_path("/src///sub/a.txt", "/src"), "sub/a.txt");
    assert_eq!(relative_path("/src", "/src"), "");
    assert_eq!(relative_path("/src/", "/src"), "");
    assert_eq!(relative_path("a.txt", ""), "a.txt");
    assert_eq!(relative_path("/a.txt", ""), "a.txt");
}

#[test]
fn relative_path_of_a_path_outside_the_root_loses_only_leading_slashes() {
    assert_eq!(relative_path("/other/a.txt", "/src"), "other/a.txt");
    assert_eq!(relative_path("other/a.txt", "/src"), "other/a.txt");
    assert_eq!(relative_path("/sr", "/src"), "sr");
    assert_eq!(relative_path("//", "/src"), "");
}

#[test]
fn root_is_taken_off_by_characters_not_by_components() {
    assert_eq!(relative_path("/srcx/a.txt", "/src"), "x/a.txt");
    assert_eq!(relative_path("/données/é.txt", "/données"), "é.txt");
}

#[test]
fn joined_path_has_one_separator_between_root_and_rest() {
    assert_eq!(join_path("/dst", "a.txt"), "/dst/a.txt");
    assert_eq!(join_path("/dst/", "a.txt"), "/dst/a.txt");
    assert_eq!(join_path("/dst", ""), "/dst/");
    assert_eq!(join_path("/dst/", ""), "/dst/");
    assert_eq!(join_path("", "a.txt"), "/a.txt");
    assert_eq!(join_path("/", "a.txt"), "/a.txt");
    assert_eq!(join_path("dst//", "sub/a.txt"), "dst//sub/a.txt");
}

#[test]
fn what_was_joined_is_found_again_below_the_root() {
    for root in ["/dst", "/dst/", "", "/", "rel/dir"] {
        for path in ["/src/a.txt", "/src/sub/b.txt", "/src", "/elsewhere/c"] {
            let rel = relative_path(path, "/src");
            let joined = join_path(root, &rel);
            assert_eq!(relative_path(&joined, root), rel);
        }
    }
}

#[test]
fn file_name_is_the_last_component() {
    assert_eq!(file_name("a.txt"), Some("a.txt".to_string()));
    assert_eq!(file_name("/tmp/foo.txt"), Some("foo.txt".to_string()));
    assert_eq!(file_name("/usr/bin/"), Some("bin".to_string()));
    assert_eq!(file_name("/usr/bin///"), Some("bin".to_string()));
    assert_eq!(file_name("dir/.hidden"), Some(".hidden".to_string()));
    assert_eq!(file_name("dir/..."), Some("...".to_string()));
    assert_eq!(file_name("日本/語.txt"), Some("語.txt".to_string()));
}

#[test]
fn some_paths_have_no_file_name() {
    for path in ["", "/", "///", "..", "a/..", "a/../", ".", "a/."] {
        assert_eq!(file_name(path), None, "for {:?}", path);
    }
}

#[test]
fn decimal_has_no_leading_zeros() {
    assert_eq!(decimal(0), "0");
    assert_eq!(decimal(7), "7");
    assert_eq!(decimal(10), "10");
    assert_eq!(decimal(1_002_003), "1002003");
    assert_eq!(decimal(usize::MAX), usize::MAX.to_string());
    let mut text = String::from("n=");
    push_decimal(&mut text, 42);
    assert_eq!(text, "n=42");
}

#[test]
fn substring_search_finds_the_first_occurrence() {
    assert_eq!(find_sub(&chars("a://b://c"), &chars("://")), Some(1));
    assert_eq!(find_sub(&chars("://"), &chars("://")), Some(0));
    assert_eq!(find_sub(&chars("a:/b"), &chars("://")), None);
    assert_eq!(find_sub(&chars("ab"), &chars("abc")), None);
    assert_eq!(find_sub(&chars("abc"), &chars("")), Some(0));
    assert_eq!(find_sub(&chars(""), &chars("")), Some(0));
    assert_eq!(find_sub(&chars("aab"), &chars("ab")), Some(1));
    assert!(matches_at(&chars("hello"), &chars("llo"), 2));
    assert!(!matches_at(&chars("hello"), &chars("llo"), 3));
    assert!(!matches_at(&chars("hello"), &chars("llo"), 9));
    assert!(matches_at(&chars("hello"), &chars(""), 5));
}

#[test]
fn character_search_and_prefix_test() {
    assert_eq!(find_char(&chars("a@b@c"), '@', 0), Some(1));
    assert_eq!(find_char(&chars("a@b@c"), '@', 2), Some(3));
    assert_eq!(find_char(&chars("a@b@c"), '@', 4), None);
    assert_eq!(find_char(&chars("a@b@c"), '@', 99), None);
    assert!(starts_with(&chars("/src/a"), &chars("/src")));
    assert!(starts_with(&chars("/src"), &chars("")));
    assert!(!starts_with(&chars("/sr"), &chars("/src")));
    assert!(!starts_with(&chars("/sxc/a"), &chars("/src")));
}

#[test]
fn relative_path_is_prefix_stripping_and_slash_trimming() {
    let roots = ["", "/", "/src", "/src/", "src", "/sr", "/日本"];
    let paths = [
        "", "/", "/src", "/src/", "/src/a.txt", "/src//a/b", "src/a", "/srcx", "/日本/語", "a.txt",
        "///x",
    ];
    for root in roots {
        for path in paths {
            let expected = path.strip_prefix(root).unwrap_or(path).trim_start_matches('/');
            assert_eq!(relative_path(path, root), expected, "for {:?} below {:?}", path, root);
        }
    }
}

#[test]
fn joined_path_is_the_root_a_separator_where_needed_and_the_rest() {
    for root in ["", "/", "/dst", "/dst/", "dst//"] {
        for rel in ["", "a.txt", "sub/a.txt", "/odd"] {
            let expected =
                if root.ends_with('/') { format!("{}{}", root, rel) } else { format!("{}/{}", root, rel) };
            assert_eq!(join_path(root, rel), expected);
        }
    }
}
