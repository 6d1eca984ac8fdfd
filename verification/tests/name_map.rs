use tool_tunnel::config::validate_alias;
use tool_tunnel::errors::AliasProblem;
use tool_tunnel::names::NameMap;
use tool_tunnel::text::{str_eq, str_lt};

#[test]
fn keeps_names_in_order_and_replaces_values() {
    let mut m: NameMap<u32> = NameMap::new();
    assert_eq!(m.insert("b".to_string(), 1), None);
    assert_eq!(m.insert("a".to_string(), 2), None);
    assert_eq!(m.insert("c".to_string(), 3), None);
    assert_eq!(m.insert("b".to_string(), 4), Some(1));
    assert_eq!(m.len(), 3);
    let names: Vec<&str> = (0..m.len()).map(|i| m.name_at(i).as_str()).collect();
    assert_eq!(names, vec!["a", "b", "c"]);
    assert_eq!(m.get("b"), Some(&4));
    assert_eq!(m.get("z"), None);
    m.set_value(0, 9);
    assert_eq!(m.value_at(0), &9);
}

#[test]
fn orders_names_like_strings() {
    let words = ["", "a", "B", "ab", "a-b", "a_b", "é", "z", "Z9"];
    for x in words {
        for y in words {
            assert_eq!(str_lt(x, y), x < y, "{x:?} < {y:?}");
            assert_eq!(str_eq(x, y), x == y);
        }
    }
}

#[test]
fn validates_aliases() {
    assert!(validate_alias("import", "remote-1_a").is_ok());
    let e = validate_alias("import", "").unwrap_err();
    assert_eq!(e.problem, AliasProblem::Empty);
    assert_eq!(e.message(), "import alias cannot be empty");
    let e = validate_alias("client profile", "a b").unwrap_err();
    assert_eq!(e.problem, AliasProblem::InvalidCharacter);
    assert_eq!(e.message(), "client profile alias \"a b\" must be ascii alphanumeric, '-' or '_'");
    let e = validate_alias("export profile", "x__y").unwrap_err();
    assert_eq!(e.problem, AliasProblem::ReservedDelimiter);
    assert_eq!(e.message(), "export profile alias \"x__y\" cannot contain reserved delimiter '__'");
    assert!(validate_alias("import", "lab_").is_ok());
}
