use ellipsis::cmd::{ExecError, Plan, Runner};
use ellipsis::config::{
    Config, ConfigHost, LinkDefinition, LinkKind, LiteralTaskDefinition, TaskDefinition,
};
use ellipsis::opts::{ExecCmd, InstallCmd, LinkCmd, SubCommand};

fn literal(name: Option<&str>, command: &str) -> LiteralTaskDefinition {
    LiteralTaskDefinition {
        name: name.map(|n| n.to_string()),
        exec_command: command.to_string(),
    }
}

fn link(from: &str, to: &str, name: Option<&str>, kind: Option<LinkKind>) -> LinkDefinition {
    LinkDefinition {
        from: from.to_string(),
        to: to.to_string(),
        name: name.map(|n| n.to_string()),
        kind,
    }
}

#[test]
fn host_literal_task_shadows_global_task() {
    let host = ConfigHost {
        tasks: vec![TaskDefinition::Literal(literal(Some("t"), "echo host"))],
        links: Vec::new(),
    };
    let config = Config {
        vars: Vec::new(),
        hosts: vec![("h".to_string(), host)],
        tasks: vec![("t".to_string(), literal(Some("t"), "echo global"))],
    };
    let runner = Runner::new(config);
    let task = runner
        .execute_exec_cmd(ExecCmd {
            hostname: "h".to_string(),
            task_name: "t".to_string(),
        })
        .unwrap();
    assert_eq!(task.exec_command, "echo host");
}

#[test]
fn global_task_found_when_host_has_no_literal() {
    let host = ConfigHost {
        tasks: vec![TaskDefinition::Ref("t".to_string())],
        links: Vec::new(),
    };
    let config = Config {
        vars: Vec::new(),
        hosts: vec![("h".to_string(), host)],
        tasks: vec![("t".to_string(), literal(Some("t"), "echo global"))],
    };
    let runner = Runner::new(config);
    let task = runner
        .execute_exec_cmd(ExecCmd {
            hostname: "h".to_string(),
            task_name: "t".to_string(),
        })
        .unwrap();
    assert_eq!(task.exec_command, "echo global");
}

#[test]
fn exec_of_unknown_task_fails_with_no_task_found() {
    let host = ConfigHost {
        tasks: vec![TaskDefinition::Literal(literal(Some("t"), "echo host"))],
        links: Vec::new(),
    };
    let config = Config {
        vars: Vec::new(),
        hosts: vec![("h".to_string(), host)],
        tasks: Vec::new(),
    };
    let runner = Runner::new(config);
    match runner.execute_exec_cmd(ExecCmd {
        hostname: "h".to_string(),
        task_name: "missing".to_string(),
    }) {
        Err(ExecError::NoTaskFound(name)) => assert_eq!(name, "missing"),
        other => panic!("expected a missing-task error, got {:?}", other),
    }
}

#[test]
fn unknown_host_fails_with_no_config_found() {
    let config = Config {
        vars: Vec::new(),
        hosts: Vec::new(),
        tasks: Vec::new(),
    };
    let runner = Runner::new(config);
    match runner.execute_cmd(SubCommand::Install(InstallCmd {
        hostname: "nowhere".to_string(),
    })) {
        Err(ExecError::NoConfigFound(name)) => assert_eq!(name, "nowhere"),
        other => panic!("expected a missing-host error, got {:?}", other),
    }
}

#[test]
fn resolve_all_preserves_declaration_order() {
    let host = ConfigHost {
        tasks: vec![
            TaskDefinition::Literal(literal(Some("first"), "echo 1")),
            TaskDefinition::Ref("second".to_string()),
            TaskDefinition::Literal(literal(None, "echo 3")),
        ],
        links: Vec::new(),
    };
    let config = Config {
        vars: Vec::new(),
        hosts: vec![("h".to_string(), host)],
        tasks: vec![("second".to_string(), literal(Some("second"), "echo 2"))],
    };
    let runner = Runner::new(config);
    let tasks = runner.resolve_all_tasks_for_host("h".to_string()).unwrap();
    let commands: Vec<&str> = tasks.iter().map(|t| t.exec_command.as_str()).collect();
    assert_eq!(commands, vec!["echo 1", "echo 2", "echo 3"]);
}

#[test]
fn resolve_all_fails_fast_on_any_missing_reference() {
    let host = ConfigHost {
        tasks: vec![
            TaskDefinition::Literal(literal(Some("ok"), "echo ok")),
            TaskDefinition::Ref("present".to_string()),
            TaskDefinition::Ref("missing".to_string()),
        ],
        links: Vec::new(),
    };
    let config = Config {
        vars: Vec::new(),
        hosts: vec![("h".to_string(), host)],
        tasks: vec![("present".to_string(), literal(Some("present"), "echo p"))],
    };
    let runner = Runner::new(config);
    match runner.resolve_all_tasks_for_host("h".to_string()) {
        Err(ExecError::NoTaskFound(name)) => assert_eq!(name, "missing"),
        other => panic!("expected a missing-task error, got {:?}", other),
    }
    // The install plan fails the same way: no task is handed out at all.
    match runner.execute_cmd(SubCommand::Install(InstallCmd {
        hostname: "h".to_string(),
    })) {
        Err(ExecError::NoTaskFound(name)) => assert_eq!(name, "missing"),
        other => panic!("expected a missing-task error, got {:?}", other),
    }
}

#[test]
fn link_without_kind_plans_like_soft_kind() {
    let config = Config {
        vars: vec![("root".to_string(), "/tmp/app".to_string())],
        hosts: Vec::new(),
        tasks: Vec::new(),
    };
    let runner = Runner::new(config);
    let bare = link("{{root}}/a", "./a", None, None);
    let soft = link("{{root}}/a", "./a", None, Some(LinkKind::Soft));
    let bare_action = runner.plan_link(&bare).unwrap();
    let soft_action = runner.plan_link(&soft).unwrap();
    assert_eq!(bare_action.from, soft_action.from);
    assert_eq!(bare_action.to, soft_action.to);
    assert_eq!(bare_action.kind, soft_action.kind);
    assert_eq!(bare_action.kind, LinkKind::Soft);
}

#[test]
fn plan_link_fails_on_undefined_variable_in_path() {
    let config = Config {
        vars: Vec::new(),
        hosts: Vec::new(),
        tasks: Vec::new(),
    };
    let runner = Runner::new(config);
    let broken = link("{{root}}/a", "./a", None, None);
    assert!(runner.plan_link(&broken).is_err());
}

#[test]
fn empty_selector_list_takes_every_link() {
    let host = ConfigHost {
        tasks: Vec::new(),
        links: vec![
            link("/s/one", "/d/one", Some("x"), Some(LinkKind::Hard)),
            link("/s/two", "/d/two", None, None),
            link("/s/three", "/d/three", Some("y"), Some(LinkKind::Copy)),
        ],
    };
    let config = Config {
        vars: Vec::new(),
        hosts: vec![("h".to_string(), host)],
        tasks: Vec::new(),
    };
    let runner = Runner::new(config);
    let links = runner
        .execute_link_cmd(LinkCmd {
            hostname: "h".to_string(),
            args: Vec::new(),
        })
        .unwrap();
    let froms: Vec<&str> = links.iter().map(|l| l.from.as_str()).collect();
    assert_eq!(froms, vec!["/s/one", "/s/two", "/s/three"]);
}

#[test]
fn selectors_pick_only_links_with_a_matching_name() {
    let host = ConfigHost {
        tasks: Vec::new(),
        links: vec![
            link("/s/one", "/d/one", Some("x"), None),
            link("/s/two", "/d/two", None, None),
            link("/s/three", "/d/three", Some("y"), None),
            link("/s/four", "/d/four", Some("x"), None),
        ],
    };
    let config = Config {
        vars: Vec::new(),
        hosts: vec![("h".to_string(), host)],
        tasks: Vec::new(),
    };
    let runner = Runner::new(config);
    let links = runner
        .execute_link_cmd(LinkCmd {
            hostname: "h".to_string(),
            args: vec!["x".to_string()],
        })
        .unwrap();
    let froms: Vec<&str> = links.iter().map(|l| l.from.as_str()).collect();
    assert_eq!(froms, vec!["/s/one", "/s/four"]);
}

#[test]
fn install_scenario_resolves_task_and_link() {
    let host = ConfigHost {
        tasks: vec![TaskDefinition::Literal(literal(
            None,
            "echo {{root}}/run.sh",
        ))],
        links: vec![link("{{root}}/a", "./a", None, Some(LinkKind::Soft))],
    };
    let config = Config {
        vars: vec![("root".to_string(), "/tmp/app".to_string())],
        hosts: vec![("h".to_string(), host)],
        tasks: Vec::new(),
    };
    let runner = Runner::new(config);
    let plan = runner
        .execute_cmd(SubCommand::Install(InstallCmd {
            hostname: "h".to_string(),
        }))
        .unwrap();
    match plan {
        Plan::Install(install) => {
            assert_eq!(install.tasks.len(), 1);
            let command = runner.prepare_task_command(&install.tasks[0]).unwrap();
            assert_eq!(command, "echo /tmp/app/run.sh");
            assert_eq!(install.links.len(), 1);
            let action = runner.plan_link(&install.links[0]).unwrap();
            assert_eq!(action.from, "/tmp/app/a");
            assert_eq!(action.to, "./a");
            assert_eq!(action.kind, LinkKind::Soft);
        }
        other => panic!("expected an install plan, got another plan: {:?}", other),
    }
}

#[test]
fn exec_error_messages() {
    assert_eq!(ExecError::NoHostname.message(), "Could not get hostname");
    assert_eq!(
        ExecError::NoConfigFound("h".to_string()).message(),
        "No config found for hostname h"
    );
    assert_eq!(
        ExecError::NoTaskFound("t".to_string()).message(),
        "Could not find task named t"
    );
    assert_eq!(
        ExecError::RunFailure("ls".to_string(), "exit status: 1".to_string()).message(),
        "Task ls failed with exit status: 1"
    );
    assert_eq!(
        ExecError::MetadataFailure("/p".to_string()).message(),
        "Could not retrieve metadata for file /p"
    );
}
