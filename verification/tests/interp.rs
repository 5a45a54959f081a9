use launchkit::errors::LaunchError;
use launchkit::registry::check_duplicate_package_names;
use launchkit::resolve::{load_launch_file, DocumentSet};
use launchkit::schema::{
    Env, Executable, Group, GroupChild, Include, IncludeArg, Launch, LaunchArg, LaunchChild, Let,
    Node, NodeChild, SetEnv,
};
use launchkit::strmap::StrMap;

fn exe(cmd: &str, args: Option<&str>) -> Executable {
    Executable {
        cmd: cmd.to_string(),
        cwd: None,
        name: None,
        args: args.map(|a| a.to_string()),
        shell: None,
        launch_prefix: None,
        output: None,
        if_cond: None,
        unless: None,
        env: Vec::new(),
    }
}

fn node(pkg: &str, exec_name: &str) -> Node {
    Node {
        pkg: pkg.to_string(),
        exec_name: exec_name.to_string(),
        name: None,
        ros_args: None,
        args: None,
        namespace: None,
        launch_prefix: None,
        output: None,
        if_cond: None,
        unless: None,
        children: Vec::new(),
    }
}

fn arg_decl(name: &str, value: Option<&str>, default: Option<&str>) -> LaunchChild {
    LaunchChild::Arg(LaunchArg {
        name: name.to_string(),
        value: value.map(|v| v.to_string()),
        default: default.map(|v| v.to_string()),
        description: None,
    })
}

fn resolve_one(
    children: Vec<LaunchChild>,
    caller: &[(&str, &str)],
) -> Result<launchkit::profile::LaunchProfile, LaunchError> {
    let mut docs = DocumentSet::new();
    docs.insert("/a/top.xml".to_string(), Launch { children });
    let args: Vec<(String, String)> =
        caller.iter().map(|(k, v)| (k.to_string(), v.to_string())).collect();
    load_launch_file(
        &docs,
        &"/a/top.xml".to_string(),
        &args,
        StrMap::new(),
        StrMap::new(),
        "r".to_string(),
        8,
    )
}

#[test]
fn arg_value_wins_over_caller() {
    let children = vec![
        arg_decl("x", Some("1"), None),
        LaunchChild::Executable(exe("run", Some("$(arg x)"))),
    ];
    let profile = resolve_one(children, &[("x", "2")]).unwrap();
    assert_eq!(profile.execs[0].args, Some("1".to_string()));
}

#[test]
fn arg_default_used_when_absent() {
    let children = vec![
        arg_decl("x", None, Some("1")),
        LaunchChild::Executable(exe("run", Some("$(arg x)"))),
    ];
    let profile = resolve_one(children, &[]).unwrap();
    assert_eq!(profile.execs[0].args, Some("1".to_string()));
}

#[test]
fn arg_caller_wins_over_default() {
    let children = vec![
        arg_decl("x", None, Some("1")),
        LaunchChild::Executable(exe("run", Some("$(arg x)"))),
    ];
    let profile = resolve_one(children, &[("x", "2")]).unwrap();
    assert_eq!(profile.execs[0].args, Some("2".to_string()));
}

#[test]
fn arg_required_missing_fails() {
    let children = vec![arg_decl("x", None, None)];
    assert_eq!(
        resolve_one(children, &[]),
        Err(LaunchError::MissingRequiredArg { name: "x".to_string() })
    );
}

#[test]
fn let_binding_is_expanded_and_overrides() {
    let children = vec![
        arg_decl("x", Some("1"), None),
        LaunchChild::Let(Let { name: "x".to_string(), value: "$(eval 1 + 1)".to_string() }),
        LaunchChild::Executable(exe("run", Some("$(arg x)"))),
    ];
    let profile = resolve_one(children, &[]).unwrap();
    assert_eq!(profile.execs[0].args, Some("2".to_string()));
}

#[test]
fn scoped_group_isolates_set_env() {
    let children = vec![
        LaunchChild::Group(Group {
            scoped: Some(true),
            if_cond: None,
            unless: None,
            children: vec![GroupChild::SetEnv(SetEnv {
                name: "E".to_string(),
                value: "inner".to_string(),
                if_cond: None,
                unless: None,
            })],
        }),
        LaunchChild::Executable(exe("run", Some("$(optenv E fallback)"))),
    ];
    let profile = resolve_one(children, &[]).unwrap();
    assert_eq!(profile.execs[0].args, Some("fallback".to_string()));
}

#[test]
fn unscoped_group_leaks_set_env_to_later_siblings() {
    let children = vec![
        LaunchChild::Group(Group {
            scoped: None,
            if_cond: None,
            unless: None,
            children: vec![GroupChild::SetEnv(SetEnv {
                name: "E".to_string(),
                value: "inner".to_string(),
                if_cond: None,
                unless: None,
            })],
        }),
        LaunchChild::Executable(exe("run", Some("$(optenv E fallback)"))),
    ];
    let profile = resolve_one(children, &[]).unwrap();
    assert_eq!(profile.execs[0].args, Some("inner".to_string()));
}

#[test]
fn set_env_visible_only_to_later_siblings() {
    let children = vec![
        LaunchChild::Executable(exe("before", Some("$(optenv E none)"))),
        LaunchChild::SetEnv(SetEnv {
            name: "E".to_string(),
            value: "v".to_string(),
            if_cond: None,
            unless: None,
        }),
        LaunchChild::Executable(exe("after", Some("$(optenv E none)"))),
    ];
    let profile = resolve_one(children, &[]).unwrap();
    assert_eq!(profile.execs[0].args, Some("none".to_string()));
    assert_eq!(profile.execs[1].args, Some("v".to_string()));
}

#[test]
fn unset_env_removes_and_tolerates_absence() {
    let children = vec![
        LaunchChild::SetEnv(SetEnv {
            name: "E".to_string(),
            value: "v".to_string(),
            if_cond: None,
            unless: None,
        }),
        LaunchChild::UnsetEnv(launchkit::schema::UnsetEnv {
            name: "E".to_string(),
            if_cond: None,
            unless: None,
        }),
        LaunchChild::UnsetEnv(launchkit::schema::UnsetEnv {
            name: "NEVER_SET".to_string(),
            if_cond: None,
            unless: None,
        }),
        LaunchChild::Executable(exe("run", Some("$(optenv E gone)"))),
    ];
    let profile = resolve_one(children, &[]).unwrap();
    assert_eq!(profile.execs[0].args, Some("gone".to_string()));
}

#[test]
fn ordering_across_an_inclusion() {
    let mut docs = DocumentSet::new();
    docs.insert(
        "/a/top.xml".to_string(),
        Launch {
            children: vec![
                LaunchChild::Executable(exe("A", None)),
                LaunchChild::Include(Include {
                    file: "sub.xml".to_string(),
                    if_cond: None,
                    unless: None,
                    arg: Vec::new(),
                }),
                LaunchChild::Executable(exe("B", None)),
            ],
        },
    );
    docs.insert(
        "/a/sub.xml".to_string(),
        Launch { children: vec![LaunchChild::Node(node("pkg", "n"))] },
    );
    let profile = load_launch_file(
        &docs,
        &"/a/top.xml".to_string(),
        &Vec::new(),
        StrMap::new(),
        StrMap::new(),
        "r".to_string(),
        8,
    )
    .unwrap();
    assert_eq!(profile.execs.len(), 2);
    assert_eq!(profile.execs[0].cmd, "A".to_string());
    assert_eq!(profile.execs[1].cmd, "B".to_string());
    assert_eq!(profile.nodes.len(), 1);
    assert_eq!(profile.nodes[0].pkg, "pkg".to_string());
}

#[test]
fn inclusion_arguments_expand_against_including_scope() {
    let mut docs = DocumentSet::new();
    docs.insert(
        "/a/top.xml".to_string(),
        Launch {
            children: vec![
                arg_decl("outer", Some("42"), None),
                LaunchChild::Include(Include {
                    file: "sub.xml".to_string(),
                    if_cond: None,
                    unless: None,
                    arg: vec![IncludeArg {
                        name: "inner".to_string(),
                        value: "$(arg outer)".to_string(),
                    }],
                }),
            ],
        },
    );
    docs.insert(
        "/a/sub.xml".to_string(),
        Launch {
            children: vec![
                arg_decl("inner", None, None),
                LaunchChild::Executable(exe("run", Some("$(arg inner)"))),
            ],
        },
    );
    let profile = load_launch_file(
        &docs,
        &"/a/top.xml".to_string(),
        &Vec::new(),
        StrMap::new(),
        StrMap::new(),
        "r".to_string(),
        8,
    )
    .unwrap();
    assert_eq!(profile.execs[0].args, Some("42".to_string()));
}

#[test]
fn guarded_subtree_is_entirely_skipped() {
    let children = vec![
        arg_decl("flag", None, Some("false")),
        LaunchChild::Group(Group {
            scoped: None,
            if_cond: Some("$(arg flag)".to_string()),
            unless: None,
            children: vec![
                GroupChild::SetEnv(SetEnv {
                    name: "E".to_string(),
                    value: "leaked".to_string(),
                    if_cond: None,
                    unless: None,
                }),
                GroupChild::Executable(exe("guarded", None)),
                GroupChild::Node(node("p", "n")),
            ],
        }),
        LaunchChild::Executable(exe("after", Some("$(optenv E clean)"))),
    ];
    let profile = resolve_one(children, &[("flag", "false")]).unwrap();
    assert_eq!(profile.execs.len(), 1);
    assert_eq!(profile.execs[0].cmd, "after".to_string());
    assert_eq!(profile.execs[0].args, Some("clean".to_string()));
    assert_eq!(profile.nodes.len(), 0);
}

#[test]
fn guard_with_invalid_literal_fails() {
    let children = vec![LaunchChild::Executable(Executable {
        if_cond: Some("maybe".to_string()),
        ..exe("run", None)
    })];
    assert_eq!(
        resolve_one(children, &[]),
        Err(LaunchError::InvalidBooleanLiteral { text: "maybe".to_string() })
    );
}

#[test]
fn node_children_are_resolved() {
    let mut n = node("pkg", "exec");
    n.children = vec![
        NodeChild::Env(Env { name: "E".to_string(), value: "$(eval 2 * 2)".to_string() }),
        NodeChild::Param(launchkit::schema::Param {
            name: Some("rate".to_string()),
            from: None,
            sep: None,
            value: "$(eval 5 + 5)".to_string(),
        }),
        NodeChild::Remap(launchkit::schema::Remap {
            from: "$(eval 1)".to_string(),
            to: "two".to_string(),
        }),
    ];
    let profile = resolve_one(vec![LaunchChild::Node(n)], &[]).unwrap();
    let rec = &profile.nodes[0];
    assert_eq!(rec.env.get(&"E".to_string()), Some("4".to_string()));
    assert_eq!(rec.param[0].value, "10".to_string());
    assert_eq!(rec.param[0].name, Some("rate".to_string()));
    assert_eq!(rec.remap[0].from, "1".to_string());
    assert_eq!(rec.remap[0].to, "two".to_string());
}

#[test]
fn executable_env_entries_are_expanded() {
    let mut e = exe("run", None);
    e.env = vec![
        Env { name: "A".to_string(), value: "$(eval 1 + 1)".to_string() },
        Env { name: "A".to_string(), value: "$(eval 3 + 3)".to_string() },
    ];
    let profile = resolve_one(vec![LaunchChild::Executable(e)], &[]).unwrap();
    assert_eq!(profile.execs[0].env.get(&"A".to_string()), Some("6".to_string()));
}

#[test]
fn unsupported_extension_is_rejected() {
    let mut docs = DocumentSet::new();
    docs.insert("/a/top.txt".to_string(), Launch { children: Vec::new() });
    let r = load_launch_file(
        &docs,
        &"/a/top.txt".to_string(),
        &Vec::new(),
        StrMap::new(),
        StrMap::new(),
        "r".to_string(),
        8,
    );
    assert_eq!(r, Err(LaunchError::UnsupportedFileFormat { path: "/a/top.txt".to_string() }));
}

#[test]
fn missing_document_is_reported() {
    let docs = DocumentSet::new();
    let r = load_launch_file(
        &docs,
        &"/a/top.yaml".to_string(),
        &Vec::new(),
        StrMap::new(),
        StrMap::new(),
        "r".to_string(),
        8,
    );
    assert_eq!(r, Err(LaunchError::DocumentNotLoaded { path: "/a/top.yaml".to_string() }));
}

#[test]
fn self_inclusion_exhausts_the_depth_budget() {
    let mut docs = DocumentSet::new();
    docs.insert(
        "/a/top.xml".to_string(),
        Launch {
            children: vec![LaunchChild::Include(Include {
                file: "top.xml".to_string(),
                if_cond: None,
                unless: None,
                arg: Vec::new(),
            })],
        },
    );
    let r = load_launch_file(
        &docs,
        &"/a/top.xml".to_string(),
        &Vec::new(),
        StrMap::new(),
        StrMap::new(),
        "r".to_string(),
        4,
    );
    assert_eq!(r, Err(LaunchError::RecursionLimitExceeded));
}

#[test]
fn equal_documents_resolve_identically() {
    let build = || {
        vec![
            arg_decl("x", None, Some("7")),
            LaunchChild::Executable(exe("run", Some("$(arg x)"))),
            LaunchChild::Node(node("pkg", "n")),
        ]
    };
    let from_xml_shape = resolve_one(build(), &[("x", "9")]).unwrap();
    let from_yaml_shape = resolve_one(build(), &[("x", "9")]).unwrap();
    assert_eq!(from_xml_shape, from_yaml_shape);
    assert_eq!(from_xml_shape.execs[0].args, Some("9".to_string()));
}

#[test]
fn duplicate_package_names_are_reported_in_order() {
    let ok = vec![
        ("/w/a/package.xml".to_string(), "alpha".to_string()),
        ("/w/b/package.xml".to_string(), "beta".to_string()),
    ];
    assert_eq!(check_duplicate_package_names(&ok), Ok(()));
    let dup = vec![
        ("/w/a/package.xml".to_string(), "alpha".to_string()),
        ("/w/b/package.xml".to_string(), "beta".to_string()),
        ("/w/c/package.xml".to_string(), "alpha".to_string()),
    ];
    assert_eq!(
        check_duplicate_package_names(&dup),
        Err(LaunchError::DuplicatePackageName {
            name: "alpha".to_string(),
            first: "/w/a/package.xml".to_string(),
            second: "/w/c/package.xml".to_string(),
        })
    );
}
