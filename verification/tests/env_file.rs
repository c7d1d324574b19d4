use short::env_file::Env;
use short::Error;

#[test]
fn lib_env_iterator() {
    let mut env = Env::new();
    env.add("name1", "value1");
    env.add_empty_line();
    env.add("name2", "value2");

    let mut iter = env.iter();

    if let Some((name, value)) = iter.next() {
        assert_eq!(name, "name1");
        assert_eq!(value, "value1");
    } else {
        assert!(false);
    }

    if let Some((name, value)) = iter.next() {
        assert_eq!(name, "name2");
        assert_eq!(value, "value2");
    } else {
        assert!(false);
    }

    assert!(iter.next().is_none());
}

#[test]
fn lib_name() {
    let mut env = Env::new();
    assert!(env.name().is_err());
    env.set_name("test-env");
    let name = env.name().unwrap();
    assert_eq!(name, "test-env");

    // trim dot
    let mut env = Env::new();
    env.set_name(".test-env");
    let name = env.name().unwrap();
    assert_eq!(name, "test-env");
}

#[test]
fn dot_name() {
    let mut env = Env::new();
    env.set_name("test-env");
    let name = env.dot_name().unwrap();
    assert_eq!(name, ".test-env");
}

#[test]
fn mod_env_iterator() {
    let mut env = Env::new();
    env.add("name1", "value1");
    env.add_empty_line();
    env.add("name2", "value2");

    let mut iter = env.iter();

    if let Some((name, value)) = iter.next() {
        assert_eq!(name, "name1");
        assert_eq!(value, "value1");
    } else {
        assert!(false);
    }

    if let Some((name, value)) = iter.next() {
        assert_eq!(name, "name2");
        assert_eq!(value, "value2");
    } else {
        assert!(false);
    }

    assert!(iter.next().is_none());
}

#[test]
fn mod_name() {
    let mut env = Env::new();
    assert!(env.name().is_err());
    env.set_path(&"/test-env".into());
    let file_name = env.file_name().unwrap();
    assert_eq!(file_name, "test-env");
    let name = env.name().unwrap();
    assert_eq!(name, "test-env");

    // trim dot
    let mut env = Env::new();
    env.set_path(&"test/.test-env".into());
    let file_name = env.file_name().unwrap();
    assert_eq!(file_name, ".test-env");
    let name = env.name().unwrap();
    assert_eq!(name, "test-env");
}

#[test]
fn is_set() {
    let mut env = Env::new();
    env.add("name1", "value1");
    let is_set = env.is_set("name1", "value1");
    assert!(is_set);
    let is_set = env.is_set("name1", "value2");
    assert!(!is_set);
}

#[test]
fn empty() {
    let content = "";
    let env = Env::from_reader(content).unwrap();
    assert_eq!(env.serialize(), "")
}

#[test]
fn once_var() {
    let content = "A=a";
    let env = Env::from_reader(content).unwrap();
    assert_eq!(env.serialize(), "A=a\n")
}

#[test]
fn name_end_with_space() {
    let content = "A=a ";
    let env = Env::from_reader(content).unwrap();
    assert_eq!(env.serialize(), "A=a\n")
}

#[test]
fn name_start_with_space() {
    let content = "A= a";
    let env = Env::from_reader(content).unwrap();
    assert_eq!(env.serialize(), "A=a\n")
}

#[test]
fn value_end_with_space() {
    let content = "A =a";
    let env = Env::from_reader(content).unwrap();
    assert_eq!(env.serialize(), "A=a\n");
}

#[test]
fn value_start_with_space() {
    let content = " A=a";
    let env = Env::from_reader(content).unwrap();
    assert_eq!(env.serialize(), "A=a\n");
}

#[test]
fn value_with_space_inside() {
    let content = "A B=a";
    let env = Env::from_reader(content);
    assert!(env.is_err());
}

#[test]
fn empty_comment() {
    let content = "#";
    let env = Env::from_reader(content).unwrap();
    assert_eq!(env.serialize(), "#\n")
}

#[test]
fn comment() {
    let content = "#test";
    let env = Env::from_reader(content).unwrap();
    assert_eq!(env.serialize(), "#test\n")
}

#[test]
fn multi_var() {
    let content = "A=a
    B=b";
    let env = Env::from_reader(content).unwrap();
    assert_eq!(env.serialize(), "A=a\nB=b\n")
}

#[test]
fn multi_var_and_comment() {
    let content = "A=a
#test
B=b";
    let env = Env::from_reader(content).unwrap();
    assert_eq!(env.serialize(), "A=a\n#test\nB=b\n")
}

#[test]
fn empty_lines() {
    let content = "\n\n";
    let env = Env::from_reader(content).unwrap();
    assert_eq!(env.serialize(), "\n\n")
}

#[test]
fn round_trip_trims_and_keeps_order() {
    let content = " A = a \n#kept verbatim\n\nB=b\nC = x y z ";
    let env = Env::from_reader(content).unwrap();
    assert_eq!(env.serialize(), "A=a\n#kept verbatim\n\nB=b\nC=x y z\n");

    // A serialized file parses back to itself.
    let text = env.serialize();
    let again = Env::from_reader(text.as_str()).unwrap();
    assert_eq!(again.serialize(), text);
}

#[test]
fn add_twice_get_first() {
    let mut env = Env::new();
    env.add("var1", "first");
    let (name, value) = env.get("var1").unwrap();
    assert_eq!(name, "var1");
    assert_eq!(value, "first");

    env.add("var1", "second");
    let (_, value) = env.get("var1").unwrap();
    assert_eq!(value, "first");
}

#[test]
fn splits_on_last_eq() {
    let env = Env::from_reader("A=B=C").unwrap();
    let (name, value) = env.get("A=B").unwrap();
    assert_eq!(name, "A=B");
    assert_eq!(value, "C");
    assert_eq!(env.serialize(), "A=B=C\n");
}

#[test]
fn is_set_absent_is_false() {
    let mut env = Env::new();
    env.add("present", "x");
    assert!(!env.is_set("absent", "x"));
    assert!(!Env::new().is_set("anything", ""));
}

#[test]
fn scenario_mixed_content() {
    let env = Env::from_reader("A=a \n#test\nB =b").unwrap();
    let (_, a) = env.get("A").unwrap();
    assert_eq!(a, "a");
    let (_, b) = env.get("B").unwrap();
    assert_eq!(b, "b");
    let mut iter = env.iter();
    assert_eq!(iter.next(), Some(("A".to_string(), "a".to_string())));
    assert_eq!(iter.next(), Some(("B".to_string(), "b".to_string())));
    assert!(iter.next().is_none());
    assert_eq!(env.serialize(), "A=a\n#test\nB=b\n");
}

#[test]
fn invalid_format_names_line() {
    let err = Env::from_reader("A=a\nnot a variable\nB=b").unwrap_err();
    assert!(matches!(err, Error::InvalidFormat { ref subject } if subject == "not a variable"));
}

#[test]
fn not_found_names_query() {
    let env = Env::new();
    let err = env.get("missing").unwrap_err();
    assert!(matches!(err, Error::NotFound { ref name } if name == "missing"));
}

#[test]
fn not_found_names_env() {
    let mut env = Env::new();
    env.set_name("myenv");
    let err = env.get("missing").unwrap_err();
    assert!(matches!(err, Error::NotFound { ref name } if name == "missing to env myenv"));
}

#[test]
fn unicode_whitespace() {
    // A line of non-ASCII whitespace is blank.
    let env = Env::from_reader("\u{a0}\u{2003}").unwrap();
    assert_eq!(env.serialize(), "\n");

    // Non-ASCII whitespace is trimmed around names and values.
    let env = Env::from_reader("\u{a0}A=\u{2003}a\u{a0}").unwrap();
    assert_eq!(env.serialize(), "A=a\n");

    // Non-ASCII whitespace inside a name is rejected.
    let env = Env::from_reader("A\u{a0}B=a");
    assert!(env.is_err());
}

#[test]
fn name_strips_one_dot() {
    let mut env = Env::new();
    env.set_path(&"/dir/.example".into());
    assert_eq!(env.name().unwrap(), "example");

    let mut env = Env::new();
    env.set_path(&"/dir/example".into());
    assert_eq!(env.name().unwrap(), "example");

    // Only one leading dot is stripped.
    let mut env = Env::new();
    env.set_name("..hidden");
    assert_eq!(env.name().unwrap(), ".hidden");
}
