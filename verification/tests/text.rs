use tf2_query::text::{contains_string, has_prefix, push_joined, split_char};

#[test]
fn split_matches_str_split() {
    for s in ["", ",", "a", "a,b", ",a,", "a,,b", "é,ü,,", "no commas here"] {
        let expected: Vec<String> = s.split(',').map(|p| p.to_string()).collect();
        assert_eq!(split_char(s, ','), expected, "{s:?}");
    }
}

#[test]
fn join_of_split_gives_back_the_string() {
    for s in ["", ",", "a,b", ",a,", "a,,b"] {
        let mut out = String::new();
        push_joined(&mut out, &split_char(s, ','), ",");
        assert_eq!(out, s);
    }
}

#[test]
fn split_of_join_gives_back_the_list() {
    let tags = vec!["cp".to_string(), "".to_string(), "valve".to_string()];
    let mut joined = String::new();
    push_joined(&mut joined, &tags, ",");
    assert_eq!(joined, "cp,,valve");
    assert_eq!(split_char(&joined, ','), tags);
}

#[test]
fn join_appends_with_separators() {
    let mut out = "x:".to_string();
    push_joined(&mut out, &vec!["a".to_string(), "b".to_string(), "c".to_string()], "--");
    assert_eq!(out, "x:a--b--c");
    let mut out = "x:".to_string();
    push_joined(&mut out, &vec![], "--");
    assert_eq!(out, "x:");
}

#[test]
fn prefixes() {
    assert!(has_prefix("syd1", "syd"));
    assert!(has_prefix("syd1", ""));
    assert!(has_prefix("syd1", "syd1"));
    assert!(!has_prefix("syd1", "syd12"));
    assert!(!has_prefix("sy", "syd"));
    assert!(!has_prefix("fsn-hetz", "syd"));
}

#[test]
fn containment() {
    let v = vec!["mvm".to_string(), "cp".to_string()];
    assert!(contains_string(&v, &"cp".to_string()));
    assert!(!contains_string(&v, &"c".to_string()));
    assert!(!contains_string(&vec![], &"".to_string()));
}
