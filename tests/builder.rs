use command_limits::{CommandBuilder, CommandLimits, EnvEntry, Error, Platform};

type Ambient = Vec<(Vec<u8>, Vec<u8>)>;

fn unix_limits(arg_size: usize) -> CommandLimits {
    CommandLimits {
        arg_size,
        individual_arg_size: None,
        arg_count: None,
        env_size: None,
        individual_env_size: None,
        env_count: None,
        platform: Platform::Unix,
    }
}

fn ambient(pairs: &[(&str, &str)]) -> Ambient {
    pairs.iter().map(|(k, v)| (k.as_bytes().to_vec(), v.as_bytes().to_vec())).collect()
}

fn entry(key: &str, value: Option<&str>) -> EnvEntry {
    EnvEntry { key: key.as_bytes().to_vec(), value: value.map(|v| v.as_bytes().to_vec()) }
}

fn find<'a>(env: &'a [EnvEntry], key: &str) -> Option<&'a EnvEntry> {
    env.iter().find(|e| e.key == key.as_bytes())
}

#[test]
fn program_is_counted_as_the_first_argument() {
    let b = CommandBuilder::with_limits(b"echo", unix_limits(100), &[]).unwrap();
    assert_eq!(b.arg_size(), 13);
    assert_eq!(b.env_size(), 0);
    assert_eq!(b.get_program(), b"echo");
    assert!(b.get_args().is_empty());
    assert_eq!(b.argc(), 1);
}

#[test]
fn new_uses_the_conservative_profile() {
    let b = CommandBuilder::new(b"echo", &ambient(&[("A", "1")])).unwrap();
    assert_eq!(b.get_limits(), CommandLimits::default());
    // 8 + 5 + 1 for the program; (8 + 2 + 1) + (2 + 1) for A=1
    assert_eq!(b.arg_size(), 14);
    assert_eq!(b.env_size(), 14);
}

#[test]
fn forty_byte_budget_takes_four_ten_byte_arguments() {
    // The one-byte program name takes 10 of the 50 bytes, leaving 40.
    let mut b = CommandBuilder::with_limits(b"p", unix_limits(50), &[]).unwrap();
    for a in [b"a", b"b", b"c", b"d"] {
        assert_eq!(b.arg(a), Ok(()));
    }
    assert_eq!(b.arg(b"e"), Err(Error::InsufficientSpace));
    assert_eq!(b.arg_size(), 50);
    assert_eq!(b.get_args(), vec![b"a".to_vec(), b"b".to_vec(), b"c".to_vec(), b"d".to_vec()]);
}

#[test]
fn arguments_within_budget_all_fit() {
    let mut b = CommandBuilder::with_limits(b"p", unix_limits(1000), &[]).unwrap();
    let args: Vec<Vec<u8>> = (0..30u8).map(|i| vec![b'a' + (i % 26); 20]).collect();
    // each costs 29; 30 of them cost 870, and the program 10
    for a in &args {
        assert_eq!(b.arg(a), Ok(()));
    }
    assert_eq!(b.arg_size(), 880);
}

#[test]
fn oversized_argument_is_too_large_even_when_empty() {
    let mut l = unix_limits(1000);
    l.individual_arg_size = Some(20);
    let mut b = CommandBuilder::with_limits(b"p", l, &[]).unwrap();
    assert_eq!(b.arg(&[b'x'; 12]), Err(Error::TooLarge));
    assert_eq!(b.arg(&[b'x'; 11]), Ok(()));
}

#[test]
fn oversized_program_is_refused() {
    let mut l = unix_limits(1000);
    l.individual_arg_size = Some(20);
    assert_eq!(CommandBuilder::with_limits(&[b'x'; 12], l, &[]).err(), Some(Error::TooLarge));
}

#[test]
fn argument_count_limit_gives_too_many() {
    let mut l = unix_limits(1000);
    l.arg_count = Some(2);
    let mut b = CommandBuilder::with_limits(b"p", l, &[]).unwrap();
    assert_eq!(b.arg(b"a"), Ok(()));
    assert_eq!(b.arg(b"b"), Err(Error::TooMany));
}

#[test]
fn args_are_all_or_nothing() {
    let mut b = CommandBuilder::with_limits(b"p", unix_limits(45), &[]).unwrap();
    b.arg(b"a").unwrap();
    let list = vec![b"b".to_vec(), b"c".to_vec(), b"d".to_vec()];
    assert_eq!(b.args(&list), Err(Error::InsufficientSpace));
    assert_eq!(b.arg_size(), 20);
    assert_eq!(b.get_args(), vec![b"a".to_vec()]);
    assert_eq!(b.args(&list[..2]), Ok(()));
    assert_eq!(b.arg_size(), 40);
    assert_eq!(b.get_args(), vec![b"a".to_vec(), b"b".to_vec(), b"c".to_vec()]);
}

#[test]
fn args_count_earlier_items_of_the_same_list() {
    // Each of the two fits alone, but not both together.
    let mut b = CommandBuilder::with_limits(b"p", unix_limits(30), &[]).unwrap();
    let list = vec![b"bb".to_vec(), b"cc".to_vec()];
    assert_eq!(b.snapshot().arg(b"bb"), Ok(()));
    assert_eq!(b.args(&list), Err(Error::InsufficientSpace));
    assert_eq!(b.arg_size(), 10);
    assert!(b.get_args().is_empty());
}

#[test]
fn inherited_environment_shares_the_argument_space() {
    let amb = ambient(&[("HOME", "/root")]);
    let mut b = CommandBuilder::with_limits(b"p", unix_limits(40), &amb).unwrap();
    assert_eq!(b.env_size(), 19);
    assert_eq!(b.arg(b"a"), Ok(()));
    assert_eq!(b.arg(b"b"), Err(Error::InsufficientSpace));
}

#[test]
fn environment_too_large_to_inherit() {
    let amb = ambient(&[("HOME", "/root")]);
    assert_eq!(CommandBuilder::with_limits(b"p", unix_limits(18), &amb).err(), Some(Error::InsufficientSpace));
    assert_eq!(CommandBuilder::capture_with_limits(b"p", unix_limits(18), &amb).err(), Some(Error::InsufficientSpace));
}

#[test]
fn separate_environment_space() {
    let mut l = unix_limits(20);
    l.env_size = Some(19);
    let amb = ambient(&[("HOME", "/root")]);
    let mut b = CommandBuilder::with_limits(b"p", l, &amb).unwrap();
    assert_eq!(b.arg(b"a"), Ok(()));
    assert_eq!(b.arg_size(), 20);
    assert_eq!(b.env(b"X", b"", None), Err(Error::InsufficientSpace));
    assert_eq!(b.env(b"HOME", b"/", Some(b"/root")), Ok(()));
    assert_eq!(b.env_size(), 15);
}

#[test]
fn removing_unknown_variable_changes_no_cost() {
    let amb = ambient(&[("HOME", "/root")]);
    let mut b = CommandBuilder::with_limits(b"p", unix_limits(1000), &amb).unwrap();
    b.arg(b"x").unwrap();
    b.env_remove(b"NOPE", None);
    assert_eq!(b.env_size(), 19);
    assert_eq!(b.arg_size(), 20);
    let inv = b.into_command();
    assert!(!inv.clear_env);
    assert_eq!(inv.env.len(), 1);
    assert_eq!(find(&inv.env, "NOPE").unwrap().value, None);
}

#[test]
fn removing_unknown_variable_from_cleared_environment_is_a_no_op() {
    let mut b = CommandBuilder::with_limits(b"p", unix_limits(1000), &[]).unwrap();
    b.env_clear();
    b.env(b"A", b"1", None).unwrap();
    let before = b.env_size();
    b.env_remove(b"NOPE", None);
    assert_eq!(b.env_size(), before);
    let inv = b.into_command();
    assert!(inv.clear_env);
    assert_eq!(inv.env.len(), 1);
    assert_eq!(inv.env[0].value, Some(b"1".to_vec()));
}

#[test]
fn set_then_remove_inherited_matches_remove_alone() {
    let amb = ambient(&[("HOME", "/root"), ("LANG", "C")]);
    let mut a = CommandBuilder::with_limits(b"p", unix_limits(1000), &amb).unwrap();
    let mut b = a.clone();
    let original = a.env_size();
    a.env(b"HOME", b"/home/someone/else", Some(b"/root")).unwrap();
    assert_eq!(a.env_size(), original + 13);
    a.env_remove(b"HOME", Some(b"/root"));
    b.env_remove(b"HOME", Some(b"/root"));
    assert_eq!(a.env_size(), b.env_size());
    assert_eq!(a.env_size(), original - 19);
}

#[test]
fn set_inherited_to_same_value_keeps_cost() {
    let amb = ambient(&[("HOME", "/root")]);
    let mut b = CommandBuilder::with_limits(b"p", unix_limits(1000), &amb).unwrap();
    b.env(b"HOME", b"/root", Some(b"/root")).unwrap();
    assert_eq!(b.env_size(), 19);
    b.env(b"HOME", b"/r", Some(b"/root")).unwrap();
    assert_eq!(b.env_size(), 16);
}

#[test]
fn new_variable_is_checked_against_space() {
    let mut b = CommandBuilder::with_limits(b"p", unix_limits(30), &[]).unwrap();
    // 8 + 1 + 1 for the key, 10 + 1 for the value: 21 would exceed 30 - 10.
    assert_eq!(b.env(b"K", b"1234567890", None), Err(Error::InsufficientSpace));
    assert_eq!(b.env_size(), 0);
    assert_eq!(b.env(b"K", b"123456789", None), Ok(()));
    assert_eq!(b.env_size(), 20);
}

#[test]
fn replacing_a_value_checks_only_growth() {
    let mut b = CommandBuilder::with_limits(b"p", unix_limits(40), &[]).unwrap();
    b.env(b"K", b"12345", None).unwrap();
    assert_eq!(b.env_size(), 16);
    assert_eq!(b.env(b"K", &[b'x'; 20], None), Err(Error::InsufficientSpace));
    assert_eq!(b.env_size(), 16);
    assert_eq!(b.env(b"K", b"1", None), Ok(()));
    assert_eq!(b.env_size(), 12);
    let inv = b.into_command();
    assert_eq!(inv.env.len(), 1);
    assert_eq!(inv.env[0].value, Some(b"1".to_vec()));
}

#[test]
fn environment_count_limit_gives_too_many() {
    let mut l = unix_limits(1000);
    l.env_count = Some(1);
    let mut b = CommandBuilder::with_limits(b"p", l, &[]).unwrap();
    assert_eq!(b.env(b"A", b"1", None), Ok(()));
    assert_eq!(b.env(b"B", b"2", None), Err(Error::TooMany));
    assert_eq!(b.env(b"A", b"3", None), Ok(()));
}

#[test]
fn environment_entry_ceiling_gives_too_large() {
    let mut l = unix_limits(1000);
    l.individual_env_size = Some(15);
    let mut b = CommandBuilder::with_limits(b"p", l, &[]).unwrap();
    assert_eq!(b.env(b"A", b"12345", None), Err(Error::TooLarge));
    assert_eq!(b.env(b"A", b"1234", None), Ok(()));
}

#[test]
fn unset_variable_set_again_is_counted_whole() {
    let amb = ambient(&[("HOME", "/root")]);
    let mut b = CommandBuilder::with_limits(b"p", unix_limits(1000), &amb).unwrap();
    b.env_remove(b"HOME", Some(b"/root"));
    assert_eq!(b.env_size(), 0);
    b.env_remove(b"HOME", Some(b"/root"));
    assert_eq!(b.env_size(), 0);
    b.env(b"HOME", b"/x", Some(b"/root")).unwrap();
    assert_eq!(b.env_size(), 16);
}

#[test]
fn capture_copies_the_environment() {
    let amb = ambient(&[("A", "1"), ("B", "22")]);
    let b = CommandBuilder::new_capture_env(b"prog", &amb).unwrap();
    assert_eq!(b.env_size(), 14 + 15);
    let inv = b.into_command();
    assert!(inv.clear_env);
    assert_eq!(inv.env.len(), 2);
    assert_eq!(find(&inv.env, "A").unwrap().value, Some(b"1".to_vec()));
    assert_eq!(find(&inv.env, "B").unwrap().value, Some(b"22".to_vec()));
}

#[test]
fn captured_variable_removed_is_dropped() {
    let amb = ambient(&[("A", "1"), ("B", "22")]);
    let mut b = CommandBuilder::capture_with_limits(b"prog", unix_limits(1000), &amb).unwrap();
    assert_eq!(b.env_size(), 25);
    b.env_remove(b"A", None);
    assert_eq!(b.env_size(), 13);
    let inv = b.into_command();
    assert_eq!(inv.env.len(), 1);
    assert!(find(&inv.env, "A").is_none());
}

#[test]
fn clearing_the_environment_frees_its_space() {
    let amb = ambient(&[("HOME", "/root")]);
    let mut b = CommandBuilder::with_limits(b"p", unix_limits(1000), &amb).unwrap();
    b.env(b"X", b"1", None).unwrap();
    b.env_clear();
    assert_eq!(b.env_size(), 0);
    let inv = b.into_command();
    assert!(inv.clear_env);
    assert!(inv.env.is_empty());
}

#[test]
fn inherit_env_drops_tracked_variables() {
    let mut b = CommandBuilder::new_capture_env(b"p", &ambient(&[("A", "1")])).unwrap();
    assert_eq!(b.inherit_env(&ambient(&[("B", "22"), ("C", "3")])), Ok(()));
    assert_eq!(b.env_size(), 15 + 14);
    let inv = b.into_command();
    assert!(!inv.clear_env);
    assert!(inv.env.is_empty());
    assert_eq!(b.capture_env(&ambient(&[("D", "4")])), Ok(()));
    assert_eq!(b.into_command().env.len(), 1);
}

#[test]
fn into_command_lists_program_and_arguments_in_order() {
    let mut b = CommandBuilder::with_limits(b"prog", unix_limits(1000), &[]).unwrap();
    b.args(&[b"x".to_vec(), b"y".to_vec()]).unwrap();
    b.arg(b"x").unwrap();
    b.env(b"K", b"v", None).unwrap();
    b.env_remove(b"G", None);
    let inv = b.into_command();
    assert_eq!(inv.program, b"prog".to_vec());
    assert_eq!(inv.args, vec![b"x".to_vec(), b"y".to_vec(), b"x".to_vec()]);
    assert!(!inv.clear_env);
    assert_eq!(inv.env.len(), 2);
    assert_eq!(find(&inv.env, "K").unwrap().value, entry("K", Some("v")).value);
    assert_eq!(find(&inv.env, "G").unwrap().value, None);
}

#[test]
fn snapshot_is_independent() {
    let mut b = CommandBuilder::with_limits(b"p", unix_limits(1000), &[]).unwrap();
    let s = b.snapshot();
    b.arg(b"x").unwrap();
    assert_eq!(s.arg_size(), 10);
    assert!(s.get_args().is_empty());
    assert_eq!(b.arg_size(), 20);
}
