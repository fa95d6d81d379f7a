use atium::pattern::is_well_formed;

fn added(pattern: &str) -> bool {
    let mut table = routefinder::Router::new();
    table.add(pattern, 0usize).is_ok()
}

#[test]
fn well_formed_patterns_are_added() {
    let patterns = vec![
        "", "/", "//", "/a", "a/b/", "/a.b", "/:id", "/:a/:b", "/:a.:b", "/*", "*", "/a/*", "/a/*/",
        "/a/*//", "/:a/*", "/a.*", "/a:b", "/a*", "/a//b", "/.hidden", "/a./b",
    ];
    for pattern in patterns {
        assert!(is_well_formed(pattern), "{}", pattern);
        assert!(added(pattern), "{}", pattern);
    }
}

#[test]
fn patterns_that_do_not_parse_are_not_well_formed() {
    let patterns = vec!["*rest", "/files/*rest", "/**", ":", "/:", "/a/:", "/:/b", "/:.b", "/a.:", "*\u{e9}"];
    for pattern in patterns {
        assert!(!added(pattern), "{}", pattern);
        assert!(!is_well_formed(pattern), "{}", pattern);
    }
}

#[test]
fn some_patterns_parse_that_no_router_takes() {
    let patterns = vec!["/*/b", "/*.", "/*/:id", "/caf\u{e9}", ":\u{e9}", "/\u{e9}/:a"];
    for pattern in patterns {
        assert!(added(pattern), "{}", pattern);
        assert!(!is_well_formed(pattern), "{}", pattern);
    }
}

#[test]
fn a_table_keeps_two_routes_of_one_pattern() {
    let mut table = routefinder::Router::new();
    table.add("/twice", 1usize).unwrap();
    table.add("/twice", 2usize).unwrap();
    table.add("/:other", 3usize).unwrap();
    assert_eq!(table.len(), 3);
    assert_eq!(*table.best_match("/twice").unwrap().handler(), 1);
    assert_eq!(table.matches("/twice").len(), 3);
}

#[test]
fn a_table_refuses_nothing_that_is_there() {
    let mut table = routefinder::Router::new();
    table.add("/kept", 1usize).unwrap();
    assert!(table.add("/*named", 2usize).is_err());
    assert_eq!(table.len(), 1);
    assert_eq!(*table.best_match("/kept").unwrap().handler(), 1);
}

#[test]
fn wildcard_catches_the_end_of_the_trimmed_path() {
    let mut table = routefinder::Router::new();
    table.add("/a/*", 0usize).unwrap();
    table.add("/*", 1usize).unwrap();
    let cases = vec![
        ("/a/b/c", "b/c"),
        ("a/b/c/", "b/c"),
        ("//a/b//", "b/"),
        ("/a", ""),
        ("/a/", ""),
        ("/x/y", "x/y"),
        ("/", ""),
        ("", ""),
    ];
    for (path, caught) in cases {
        let found = table.best_match(path).unwrap();
        let captures = found.captures();
        let wildcard = captures.wildcard().unwrap();
        let trimmed = path.trim_start_matches('/').trim_end_matches('/');
        assert!(trimmed.ends_with(wildcard), "{}", path);
        assert_eq!(wildcard, caught.trim_end_matches('/'), "{}", path);
    }
}

#[test]
fn a_guess_depends_on_the_extension_alone() {
    for ext in ["html", "HTML", "png", "zzz", ""] {
        let once = mime_guess::from_ext(ext).first().map(|m| m.to_string());
        let again = mime_guess::from_ext(ext).first().map(|m| m.to_string());
        assert_eq!(once, again);
    }
    assert_eq!(mime_guess::from_ext("html").first().map(|m| m.to_string()), Some(String::from("text/html")));
    assert_eq!(mime_guess::from_ext("zzz-none").first().map(|m| m.to_string()), None);
}
