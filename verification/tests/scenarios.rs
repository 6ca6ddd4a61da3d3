use dynarg::{ArgData, ArgKind, Args, DynArgError};

#[test]
fn greeting_round_trip() {
    let mut args = Args::new();
    args.insert_string("greeting", "hello world".to_string());
    assert_eq!(args.get_string("greeting"), Ok("hello world".to_string()));
}

#[test]
fn wrong_kind_reports_not_of_type() {
    let mut args = Args::new();
    args.insert_i32("meaning_of_life", 42);
    assert_eq!(
        args.get("meaning_of_life", ArgKind::F32),
        Err(DynArgError::NotOfType { name: "meaning_of_life".to_string() })
    );
    assert_eq!(args.get_i32("meaning_of_life"), Ok(42));
}

#[test]
fn empty_map_is_all_used() {
    let args = Args::new();
    assert!(args.all_used());
    let args = Args::with_capacity(16);
    assert!(args.all_used());
}

#[test]
fn consuming_one_of_two() {
    let mut args = Args::new();
    args.insert_i32("a", 1);
    args.insert_i32("b", 2);
    assert_eq!(args.poke_i32("a"), Ok(1));
    assert_eq!(args.iter_not_used_name(), vec!["b"]);
    assert_eq!(args.all_used(), false);
    assert_eq!(args.poke_i32("b"), Ok(2));
    assert_eq!(args.all_used(), true);
    assert_eq!(args.iter_not_used_name(), Vec::<&str>::new());
}

#[test]
fn reset_clears_used_flags() {
    let mut args = Args::new();
    args.insert_i32("x", 1);
    assert_eq!(args.poke_i32("x"), Ok(1));
    assert!(args.all_used());
    args.reset_used_status();
    assert_eq!(args.iter_not_used_name(), vec!["x"]);
    assert!(!args.all_used());
}

#[test]
fn missing_name_reports_no_such_arg() {
    let mut args = Args::new();
    assert_eq!(
        args.get_string("missing"),
        Err(DynArgError::NoSuchArg { name: "missing".to_string() })
    );
    assert_eq!(
        args.poke_i32("missing"),
        Err(DynArgError::NoSuchArg { name: "missing".to_string() })
    );
}

#[test]
fn insert_keeps_order_and_uniqueness() {
    let mut args = Args::new();
    args.insert_i32("a", 1);
    args.insert_i32("b", 2);
    args.insert_i32("a", 3);
    let names: Vec<String> = args.iter().iter().map(|p| p.0.to_string()).collect();
    assert_eq!(names, vec!["a".to_string(), "b".to_string()]);
    assert_eq!(args.get_i32("a"), Ok(3));
    args.insert_i32("c", 4);
    let names: Vec<String> = args.iter().iter().map(|p| p.0.to_string()).collect();
    assert_eq!(names, vec!["a".to_string(), "b".to_string(), "c".to_string()]);
}

#[test]
fn removed_names_are_gone() {
    let mut args = Args::new();
    args.insert_i32("a", 1);
    args.insert_i32("b", 2);
    args.remove("a");
    let names: Vec<String> = args.iter().iter().map(|p| p.0.to_string()).collect();
    assert_eq!(names, vec!["b".to_string()]);
    assert_eq!(
        args.get_i32("a"),
        Err(DynArgError::NoSuchArg { name: "a".to_string() })
    );
    args.remove("never_inserted");
    assert_eq!(args.iter().len(), 1);
}

#[test]
fn take_is_idempotent_and_failure_keeps_flag() {
    let mut args = Args::new();
    args.insert_i32("x", 9);
    assert_eq!(args.poke_i32("x"), Ok(9));
    assert!(args.all_used());
    assert_eq!(args.poke_i32("x"), Ok(9));
    assert!(args.all_used());
    assert_eq!(
        args.poke_bool("x"),
        Err(DynArgError::NotOfType { name: "x".to_string() })
    );
    assert!(args.all_used());

    let mut args = Args::new();
    args.insert_i32("y", 1);
    assert_eq!(
        args.poke_bool("y"),
        Err(DynArgError::NotOfType { name: "y".to_string() })
    );
    assert!(!args.all_used());
}

#[test]
fn overwrite_replaces_value_and_clears_flag() {
    let mut args = Args::new();
    args.insert_i32("x", 1);
    assert_eq!(args.poke_i32("x"), Ok(1));
    assert!(args.all_used());
    args.insert_i32("x", 2);
    assert!(!args.all_used());
    assert_eq!(args.iter_not_used_name(), vec!["x"]);
    assert_eq!(args.get_i32("x"), Ok(2));
}

#[test]
fn peek_does_not_consume() {
    let mut args = Args::new();
    args.insert_i32("x", 5);
    assert_eq!(args.get_i32("x"), Ok(5));
    assert!(!args.all_used());
    assert_eq!(args.iter_used_name(), Vec::<&str>::new());
}

#[test]
fn typed_wrappers_round_trip() {
    let mut args = Args::new();
    args.insert_i64("big", 1_234_567_890_123);
    args.insert_bool("flag", true);
    args.insert_string("word", "verso".to_string());
    assert_eq!(args.get_i64("big"), Ok(1_234_567_890_123));
    assert_eq!(args.get_bool("flag"), Ok(true));
    assert_eq!(args.get_string("word"), Ok("verso".to_string()));
    assert_eq!(args.poke_i64("big"), Ok(1_234_567_890_123));
    assert_eq!(args.poke_bool("flag"), Ok(true));
    assert_eq!(args.poke_string("word"), Ok("verso".to_string()));
    assert!(args.all_used());
    assert_eq!(
        args.get_bool("big"),
        Err(DynArgError::NotOfType { name: "big".to_string() })
    );
}

#[test]
fn float_bits_round_trip() {
    let mut args = Args::new();
    args.insert("ratio", ArgData::F32Bits(2.5f32.to_bits()));
    args.insert("precise", ArgData::F64Bits(3.25f64.to_bits()));
    match args.get("ratio", ArgKind::F32) {
        Ok(ArgData::F32Bits(b)) => assert_eq!(f32::from_bits(b), 2.5f32),
        other => panic!("unexpected result: {:?}", other),
    }
    match args.get("precise", ArgKind::F64) {
        Ok(ArgData::F64Bits(b)) => assert_eq!(f64::from_bits(b), 3.25f64),
        other => panic!("unexpected result: {:?}", other),
    }
    assert_eq!(
        args.get("ratio", ArgKind::F64),
        Err(DynArgError::NotOfType { name: "ratio".to_string() })
    );
}

#[test]
fn iter_exposes_entries_in_order() {
    let mut args = Args::new();
    args.insert_i32("one", 1);
    args.insert_string("two", "2".to_string());
    let pairs = args.iter();
    assert_eq!(pairs.len(), 2);
    assert_eq!(pairs[0].0, "one");
    assert_eq!(pairs[0].1.get(ArgKind::I32), Ok(ArgData::I32(1)));
    assert_eq!(pairs[0].1.used(), false);
    assert_eq!(pairs[1].0, "two");
    assert_eq!(
        pairs[1].1.get(ArgKind::Str),
        Ok(ArgData::Str("2".to_string()))
    );
}

#[test]
fn arg_from_argdata_starts_unused() {
    let arg = dynarg::Arg::from_argdata(ArgData::Bool(false));
    assert_eq!(arg.used(), false);
    assert_eq!(arg.get(ArgKind::Bool), Ok(ArgData::Bool(false)));
    assert_eq!(
        arg.get(ArgKind::Str),
        Err(DynArgError::NotOfType { name: "String".to_string() })
    );
}
