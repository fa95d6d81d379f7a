use atium::path::slack_of;
use atium::pattern::is_well_formed;

#[test]
fn plain_patterns_are_well_formed() {
    assert!(is_well_formed(""));
    assert!(is_well_formed("/"));
    assert!(is_well_formed("/users"));
    assert!(is_well_formed("/users/active"));
    assert!(is_well_formed("users/active/"));
    assert!(is_well_formed("/a.b/c.d"));
    assert!(is_well_formed("//a//b//"));
}

#[test]
fn named_parameters_are_well_formed() {
    assert!(is_well_formed("/users/:id"));
    assert!(is_well_formed("/:kind/:id"));
    assert!(is_well_formed(":id"));
    assert!(is_well_formed("/:file.:ext"));
    assert!(is_well_formed("/hello/:name/"));
}

#[test]
fn a_colon_inside_a_section_is_text() {
    assert!(is_well_formed("/a:b"));
    assert!(is_well_formed("/a:"));
    assert!(is_well_formed("/a*"));
    assert!(is_well_formed("/a*b/c"));
}

#[test]
fn parameters_need_a_name() {
    assert!(!is_well_formed(":"));
    assert!(!is_well_formed("/:"));
    assert!(!is_well_formed("/users/:"));
    assert!(!is_well_formed("/users/:/x"));
    assert!(!is_well_formed("/users/:.json"));
    assert!(!is_well_formed("/:/"));
}

#[test]
fn wildcard_is_well_formed_at_the_end() {
    assert!(is_well_formed("*"));
    assert!(is_well_formed("/*"));
    assert!(is_well_formed("/files/*"));
    assert!(is_well_formed("/files/*/"));
    assert!(is_well_formed("/files/*//"));
    assert!(is_well_formed("/:kind/*"));
    assert!(is_well_formed("/a.*"));
}

#[test]
fn wildcard_takes_no_name() {
    assert!(!is_well_formed("*rest"));
    assert!(!is_well_formed("/files/*rest"));
    assert!(!is_well_formed("/**"));
}

#[test]
fn wildcard_is_refused_before_the_end() {
    assert!(!is_well_formed("/*/b"));
    assert!(!is_well_formed("/a/*/b/"));
    assert!(!is_well_formed("/*."));
    assert!(!is_well_formed("/*.json"));
    assert!(!is_well_formed("/*/:id"));
    assert!(!is_well_formed("/*/*"));
}

#[test]
fn patterns_are_ascii() {
    assert!(!is_well_formed("/caf\u{e9}"));
    assert!(!is_well_formed("/:n\u{e4}me"));
    assert!(!is_well_formed("/\u{1f980}/*"));
    assert!(is_well_formed("/~tilde/\u{7f}"));
}

#[test]
fn slack_counts_the_slashes_at_the_end() {
    assert_eq!(slack_of(""), 0);
    assert_eq!(slack_of("a"), 0);
    assert_eq!(slack_of("a/"), 1);
    assert_eq!(slack_of("a//"), 2);
    assert_eq!(slack_of("/a/b/"), 1);
    assert_eq!(slack_of("/a/b"), 0);
    assert_eq!(slack_of("//a//b///"), 3);
    assert_eq!(slack_of("a/b/c"), 0);
}

#[test]
fn slack_of_nothing_but_slashes_is_none() {
    assert_eq!(slack_of("/"), 0);
    assert_eq!(slack_of("//"), 0);
    assert_eq!(slack_of("/////"), 0);
}

#[test]
fn slack_counts_characters_not_bytes() {
    assert_eq!(slack_of("/caf\u{e9}//"), 2);
    assert_eq!(slack_of("\u{1f980}/"), 1);
}
