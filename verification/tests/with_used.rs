use dynarg::{Arg, ArgData, ArgKind, Args, DynArgError};

#[test]
fn test_arg() {
    let a = 5;
    let mut arg = Arg::new(ArgData::I32(a));
    assert_eq!(arg.poke(ArgKind::I32), Ok(ArgData::I32(5)));
    assert_eq!(arg.used(), true);

    let arg = Arg::new(ArgData::I32(a));
    assert_eq!(arg.used(), false);

    let test = "apple";
    let arg = Arg::new(ArgData::Str(test.to_string()));
    assert_eq!(arg.get(ArgKind::Str), Ok(ArgData::Str("apple".to_string())));

    let test2 = String::from("apple");
    let arg2 = Arg::new(ArgData::Str(test2));
    assert_eq!(arg2.get(ArgKind::Str), Ok(ArgData::Str("apple".to_string())));

    let test3 = String::from("apple");
    let arg3 = Arg::new(ArgData::Str(test3));
    assert_eq!(
        arg3.get(ArgKind::I32),
        Err(DynArgError::NotOfType { name: "i32".to_string() })
    );
}

#[test]
fn test_args() {
    let mut args = Args::default();
    let arg_name = String::from("number");
    args.insert(arg_name.as_str(), ArgData::I32(6));
    let result = args.get("number", ArgKind::I32);
    assert_eq!(result, Ok(ArgData::I32(6)));

    let static_str = "A";
    args.insert("letter", ArgData::Str(static_str.to_string()));
    let arg = args.get("letter", ArgKind::Str);
    assert_eq!(arg, Ok(ArgData::Str("A".to_string())));

    let arg2 = args.get("nonexistent", ArgKind::Str);
    assert_eq!(
        arg2,
        Err(DynArgError::NoSuchArg { name: "nonexistent".to_string() })
    );

    let mut args = Args::default();
    args.insert_i32("nice", 69);
    args.insert_i32("wow", 42);
    args.poke_i32("nice").unwrap();
    assert_eq!(args.all_used(), false);
    assert_eq!(args.iter_not_used_name(), vec!["wow"]);

    let mut args = Args::default();
    args.insert_i32("nice", 69);
    args.insert_i32("wow", 42);
    args.poke_i32("nice").unwrap();
    assert_eq!(args.all_used(), false);
    assert_eq!(args.iter_used_name(), vec!["nice"]);

    let mut args = Args::default();
    let mut name = String::new();
    name.push_str("henlo");
    args.insert_i32(name.as_str(), 56);
    assert_eq!(args.poke_i32(name.as_str()).unwrap(), 56);
}
