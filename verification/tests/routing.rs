use cmdrouter::attribute::CmdAttr;
use cmdrouter::attribute::CmdFlag;
use cmdrouter::attribute::Registry;
use cmdrouter::attribute::RewriteEntry;
use cmdrouter::attribute::get_not_supported_cmds;
use cmdrouter::attribute::get_optional_multi_key_cmds;
use cmdrouter::attribute::get_single_key_cmds;
use cmdrouter::attribute::is_write_command;
use cmdrouter::decompose::check_multikey_command_arguments;
use cmdrouter::decompose::split_multikeys_command;
use cmdrouter::errors::CommandError;

fn attr(name: &str, arity: i32, flags: CmdFlag, first_key: i32, last_key: i32, step: i32) -> CmdAttr {
    CmdAttr { name: name.as_bytes().to_vec(), arity, flags, first_key, last_key, step }
}

fn demo_registry() -> Registry {
    let attrs = vec![
        attr("get", 2, CmdFlag::Readonly, 1, 1, 1),
        attr("set", 3, CmdFlag::Write, 1, 1, 1),
        attr("append", 3, CmdFlag::Write, 1, 1, 1),
        attr("cad", 3, CmdFlag::Write, 1, 1, 1),
        attr("mset", -3, CmdFlag::Write, 1, -1, 2),
        attr("mget", -2, CmdFlag::Readonly, 1, -1, 1),
        attr("command", -1, CmdFlag::Readonly, 0, 0, 0),
        attr("ping", -1, CmdFlag::Readonly, 0, 0, 0),
        attr("smove", 4, CmdFlag::Write, 1, 2, 1),
    ];
    let rewrites = vec![
        RewriteEntry { from: b"mset".to_vec(), to: b"set".to_vec() },
        RewriteEntry { from: b"mget".to_vec(), to: b"get".to_vec() },
    ];
    Registry::new(attrs, rewrites).expect("every demo entry is well shaped")
}

fn argv(parts: &[&str]) -> Vec<Vec<u8>> {
    parts.iter().map(|p| p.as_bytes().to_vec()).collect()
}

#[test]
fn mset_splits_into_rewritten_single_key_commands() {
    let reg = demo_registry();
    let (passthrough, subs) =
        split_multikeys_command(&reg, &argv(&["mset", "a", "1", "b", "2"])).unwrap();
    assert_eq!(passthrough, Vec::<Vec<u8>>::new());
    assert_eq!(subs, vec![argv(&["set", "a", "1"]), argv(&["set", "b", "2"])]);
}

#[test]
fn get_single_key_passes_through() {
    let reg = demo_registry();
    let (passthrough, subs) = split_multikeys_command(&reg, &argv(&["get", "x"])).unwrap();
    assert_eq!(passthrough, argv(&["get", "x"]));
    assert!(subs.is_empty());
}

#[test]
fn mset_dangling_argument_is_malformed() {
    let reg = demo_registry();
    let r = split_multikeys_command(&reg, &argv(&["mset", "a", "1", "b"]));
    assert_eq!(r, Err(CommandError::MalformedArguments(b"b".to_vec())));
}

#[test]
fn unknown_command_is_not_found() {
    let reg = demo_registry();
    let r = split_multikeys_command(&reg, &argv(&["unknownverb", "x"]));
    assert_eq!(r, Err(CommandError::CommandNotFound(b"unknownverb".to_vec())));
}

#[test]
fn mset_with_one_group_passes_through_rewritten() {
    let reg = demo_registry();
    let (passthrough, subs) = split_multikeys_command(&reg, &argv(&["mset", "a", "1"])).unwrap();
    assert_eq!(passthrough, argv(&["set", "a", "1"]));
    assert!(subs.is_empty());
}

#[test]
fn mset_with_name_alone_passes_through_rewritten() {
    let reg = demo_registry();
    let (passthrough, subs) = split_multikeys_command(&reg, &argv(&["mset"])).unwrap();
    assert_eq!(passthrough, argv(&["set"]));
    assert!(subs.is_empty());
}

#[test]
fn mget_splits_each_key() {
    let reg = demo_registry();
    let (passthrough, subs) =
        split_multikeys_command(&reg, &argv(&["mget", "k1", "k2", "k3"])).unwrap();
    assert!(passthrough.is_empty());
    assert_eq!(
        subs,
        vec![argv(&["get", "k1"]), argv(&["get", "k2"]), argv(&["get", "k3"])]
    );
}

#[test]
fn readonly_command_is_not_a_write() {
    let reg = demo_registry();
    assert!(!is_write_command(&reg, b"get"));
    assert!(is_write_command(&reg, b"set"));
}

#[test]
fn unknown_command_defaults_to_write() {
    let reg = demo_registry();
    assert!(is_write_command(&reg, b"unknownverb"));
}

#[test]
fn classifiers_partition_the_registry() {
    let reg = demo_registry();
    let unsupported = get_not_supported_cmds(&reg);
    assert_eq!(unsupported, argv(&["ping", "smove"]));
    let single = get_single_key_cmds(&reg).unwrap();
    assert_eq!(single, argv(&["get", "set", "append", "cad"]));
    let variable = get_optional_multi_key_cmds(&reg).unwrap();
    assert_eq!(variable, argv(&["mset", "mget"]));
    // keyless "command" is exempt from the unsupported list, so each of the
    // nine registered commands lands in exactly one list or is "command".
    assert_eq!(unsupported.len() + single.len() + variable.len() + 1, 9);
}

#[test]
fn registry_rejects_entry_with_unknown_shape() {
    let attrs = vec![attr("weird", 2, CmdFlag::Write, 2, 2, 1)];
    let r = Registry::new(attrs, Vec::new());
    assert_eq!(r, Err(CommandError::UnsupportedShape(b"weird".to_vec())));
}

#[test]
fn multi_key_query_reports_unvalidated_entry() {
    // built directly, skipping Registry::new's validation
    let reg = Registry {
        attrs: vec![
            attr("get", 2, CmdFlag::Readonly, 1, 1, 1),
            attr("weird", 2, CmdFlag::Write, 2, 2, 1),
        ],
        rewrites: Vec::new(),
    };
    let r = get_optional_multi_key_cmds(&reg);
    assert_eq!(r, Err(CommandError::UnsupportedShape(b"weird".to_vec())));
}

#[test]
fn check_accepts_exactly_one_key_group() {
    let reg = demo_registry();
    assert_eq!(check_multikey_command_arguments(&reg, &argv(&["get", "x"])), Ok(()));
    assert_eq!(check_multikey_command_arguments(&reg, &argv(&["mset", "a", "1"])), Ok(()));
}

#[test]
fn check_rejects_several_key_groups() {
    let reg = demo_registry();
    let r = check_multikey_command_arguments(&reg, &argv(&["mset", "a", "1", "b", "2"]));
    assert_eq!(r, Err(CommandError::MalformedArguments(b"b".to_vec())));
}

#[test]
fn check_rejects_unknown_command() {
    let reg = demo_registry();
    let r = check_multikey_command_arguments(&reg, &argv(&["unknownverb", "x"]));
    assert_eq!(r, Err(CommandError::CommandNotFound(b"unknownverb".to_vec())));
}

#[test]
fn single_key_command_with_extra_argument_splits() {
    // a single-key command given more arguments than one key group is walked
    // by the same stride rule, so it does not pass through unchanged
    let reg = demo_registry();
    let (passthrough, subs) =
        split_multikeys_command(&reg, &argv(&["append", "k", "v"])).unwrap();
    assert!(passthrough.is_empty());
    assert_eq!(subs, vec![argv(&["append", "k"]), argv(&["append", "v"])]);
}
