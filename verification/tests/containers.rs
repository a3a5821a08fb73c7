use super_orchestrator::build_plan::{plan_builds, KeyOrder, order_keys};
use super_orchestrator::cli_docker::{Build, Container, CopyStep};
use super_orchestrator::command::{Command, CommandResult, ExitStatus};
use super_orchestrator::docker_container;
use super_orchestrator::docker_helpers::{
    auto_exec_args, docker_exec, docker_exec_i, docker_exec_step, find_container, get_ip_addr,
    inspect_command, wait_get_ip_addr_error, ExecStep,
};
use super_orchestrator::docker_network::{
    ContainerNetwork, Polled, RunState, SinglePhase, Verdict,
};
use super_orchestrator::dockerfile::{created_id, docker, Dockerfile};
use super_orchestrator::duration::Duration;
use super_orchestrator::error::{Error, ErrorKind, Location};
use super_orchestrator::error_report::{add_record_report, add_result_report, new_report};
use super_orchestrator::example_dockerfiles::{container2_dockerfile, test_dockerfile};
use super_orchestrator::name_map::NameMap;
use super_orchestrator::run_sequence::{RunAction, RunSequence};
use super_orchestrator::uuid::Uuid;
use super_orchestrator::wait_loop::{WaitAction, WaitLoop};

fn strings(v: &[&str]) -> Vec<String> {
    v.iter().map(|s| s.to_string()).collect()
}

fn pairs(v: &[(&str, &str)]) -> Vec<(String, String)> {
    v.iter().map(|(a, b)| (a.to_string(), b.to_string())).collect()
}

fn texts(e: &Error) -> Vec<String> {
    e.error_stack
        .iter()
        .map(|kind| match kind {
            ErrorKind::StrError(s) => s.to_string(),
            ErrorKind::StringError(s) => s.clone(),
            ErrorKind::TimeoutError => "TimeoutError".to_owned(),
            _ => "another kind".to_owned(),
        })
        .collect()
}

fn result(success: Option<bool>, stdout: &[u8]) -> CommandResult {
    CommandResult {
        command: Command::new("docker start"),
        status: success.map(|success| ExitStatus {
            success,
            shown: "ExitStatus".to_owned(),
            shown_pretty: "ExitStatus".to_owned(),
        }),
        stdout: stdout.to_vec(),
        stderr: vec![],
    }
}

fn trouble() -> Error {
    Error::from_text("trouble".to_owned())
}

fn place() -> Location {
    Location { file: "f".to_owned(), line: 1, col: 1 }
}

fn network(names: &[&str]) -> ContainerNetwork {
    let mut cn =
        ContainerNetwork::with_uuid(Uuid { bits: 1 }, "test", Some("./dockerfiles"), "./logs");
    for name in names {
        let container = Container::new(name, Dockerfile::name_tag("fedora:38"));
        assert!(cn.add_container(container).is_ok());
    }
    cn
}

fn activate(cn: &mut ContainerNetwork, name: &str) {
    cn.created(name, format!("id_{name}"));
    cn.started(name);
}

const UUID: &str = "00000000-0000-0000-0000-000000000001";

#[test]
fn networks_name_their_containers() {
    let mut cn = network(&["container0", "container1", "container2"]);
    assert_eq!(cn.inactive_names(), strings(&["container0", "container1", "container2"]));
    assert!(cn.active_names().is_empty());
    activate(&mut cn, "container0");
    activate(&mut cn, "container1");
    assert_eq!(cn.active_names(), strings(&["container0", "container1"]));
    assert_eq!(cn.inactive_names(), strings(&["container2"]));
    assert_eq!(
        cn.get_active_container_ids(),
        pairs(&[("container0", "id_container0"), ("container1", "id_container1")])
    );
    assert_eq!(cn.network_name(), "test");
    assert_eq!(cn.uuid_as_string(), UUID);
    assert_eq!(ContainerNetwork::new("a", None, "./logs").network_name(), "a");
    let cn = ContainerNetwork::new_with_uuid("a", None, "./logs");
    assert_eq!(cn.network_name(), format!("a_{}", cn.uuid_as_string()));
}

#[test]
fn containers_cannot_be_added_twice() {
    let mut cn = network(&["a"]);
    let e = cn.add_container(Container::new("a", Dockerfile::name_tag("x"))).err().unwrap();
    assert_eq!(
        texts(&e),
        vec![
            "ContainerNetwork::add_container -> two containers were supplied with the same name \
             \"a\""
        ]
    );
    let mut cn = ContainerNetwork::new("n", None, "./logs");
    let e = cn.add_container(Container::new("a", Dockerfile::contents("FROM x"))).err().unwrap();
    assert_eq!(
        texts(&e),
        vec![
            "ContainerNetwork::add_container -> a container is built with `Dockerfile::Contents`, \
             but `dockerfile_write_dir` is unset"
        ]
    );
    assert!(cn.names().is_empty());
}

#[test]
fn only_known_inactive_containers_can_be_run() {
    let mut cn = network(&["a", "b"]);
    assert!(cn.check_run(&strings(&["a", "b"])).is_ok());
    let e = cn.check_run(&strings(&["a", "a"])).err().unwrap();
    assert_eq!(
        texts(&e),
        vec!["ContainerNetwork::run -> two containers were supplied with the same name \"a\""]
    );
    let e = cn.check_run(&strings(&["c"])).err().unwrap();
    assert_eq!(
        texts(&e),
        vec!["ContainerNetwork::run -> argument name \"c\" is not contained in the network"]
    );
    activate(&mut cn, "a");
    let e = cn.check_run(&strings(&["b", "a"])).err().unwrap();
    assert_eq!(
        texts(&e),
        vec!["ContainerNetwork::run -> name \"a\" is already an active container"]
    );
}

#[test]
fn a_container_is_created_with_all_its_options() {
    let mut cn = network(&[]);
    let container = Container::new("a", Dockerfile::name_tag("fedora:38"))
        .entrypoint("/bin/a", strings(&["--x"]))
        .entrypoint_arg("--y")
        .volume("./logs", "/logs")
        .environment_vars(pairs(&[("K", "V")]))
        .create_args(strings(&["--privileged"]))
        .workdir("/app");
    assert!(cn.add_container(container).is_ok());
    cn.add_common_volumes(&pairs(&[("./r", "/r")]))
        .add_common_entrypoint_args(&strings(&["--z"]));
    assert!(cn
        .precheck("a", Ok(()), vec![], vec![Ok("/h/logs".to_owned()), Ok("/h/r".to_owned())])
        .is_ok());
    let names = strings(&["a"]);
    cn.plan_builds(&names);
    let command = cn.create("a", 0).ok().unwrap();
    assert_eq!(command.program, "docker");
    assert_eq!(
        command.args.join(" "),
        "create --rm --network test --hostname a --name a -w /app -e K=V --volume /h/logs:/logs \
         --volume /h/r:/r --privileged fedora:38 /bin/a --x --y --z"
    );
}

#[test]
fn local_parts_of_volumes_have_to_exist() {
    let mut cn = network(&[]);
    let container = Container::new("a", Dockerfile::name_tag("x")).volume("./n", "/n");
    assert!(cn.add_container(container).is_ok());
    let e = cn.precheck("a", Ok(()), vec![], vec![Err(trouble())]).err().unwrap();
    assert_eq!(
        texts(&e),
        vec![
            "trouble",
            "Container::precheck -> could not acquire_path to local part of volume argument"
        ]
    );
}

#[test]
fn networks_are_created_and_removed() {
    let mut cn = network(&["a"]);
    cn.add_network_args(strings(&["--driver", "bridge"]));
    assert!(cn.network_removal().is_none());
    let command = cn.network_creation().unwrap();
    assert_eq!(command.args.join(" "), "network create --driver bridge test");
    assert!(cn.network_created(Ok(result(Some(false), b""))).is_err());
    assert!(!cn.network_active);
    assert!(cn.network_created(Ok(result(Some(true), b""))).is_ok());
    assert!(cn.network_creation().is_none());
    assert_eq!(cn.network_removal().unwrap().args.join(" "), "network rm test");
    cn.network_removed();
    assert!(cn.network_removal().is_none());
}

#[test]
fn same_builds_are_shared() {
    let contents = "FROM x\nRUN y";
    let a = Container::new("a", Dockerfile::contents(contents));
    let b = Container::new("b", Dockerfile::contents(contents));
    let c = Container::new("c", Dockerfile::contents(contents)).build_args(strings(&["--no"]));
    let d = Container::new("d", Dockerfile::name_tag("x"));
    let plan = plan_builds(&vec![&a, &b, &c, &d]);
    assert_eq!(plan.order, vec![3, 0, 2]);
    assert_eq!(plan.images[0], plan.images[1]);
    assert_ne!(plan.images[0], plan.images[2]);
    assert_eq!(plan.images[3], Some(3));
    assert_eq!(order_keys(&a, &b), KeyOrder::Same);
    assert_eq!(order_keys(&a, &c), KeyOrder::Before);
    assert_eq!(order_keys(&c, &a), KeyOrder::After);
    assert_eq!(order_keys(&d, &a), KeyOrder::Before);
}

#[test]
fn shared_builds_have_one_tag() {
    let mut cn = network(&[]);
    for name in ["a", "b"] {
        let container = Container::new(name, Dockerfile::contents("FROM x"));
        assert!(cn.add_container(container).is_ok());
    }
    let names = cn.inactive_names();
    for name in &names {
        let file = cn.dockerfile_to_acquire(name).ok().unwrap().unwrap();
        assert_eq!(file.path, format!("./dockerfiles/{name}.tmp.dockerfile"));
        let path = format!("/h/dockerfiles/{name}.tmp.dockerfile");
        assert!(cn.dockerfile_acquired(name, Ok(path)).is_ok());
    }
    let order = cn.plan_builds(&names);
    assert_eq!(order.len(), 1);
    let name = &names[order[0]];
    match cn.build(name, Err(trouble()), 0).ok().unwrap() {
        Build::Run { write, command } => {
            let file = format!("/h/dockerfiles/{name}.tmp.dockerfile");
            assert_eq!(write, Some((file.clone(), "FROM x".to_owned())));
            assert_eq!(
                command.args.join(" "),
                format!("build -t super_orchestrator_{name}_{UUID} --file {file} /h/dockerfiles")
            );
        }
        Build::Nothing => unreachable!(),
    }
    for other in &names {
        let args = cn.create(other, 0).ok().unwrap().args;
        assert!(args.contains(&format!("super_orchestrator_{name}_{UUID}")));
    }
}

fn run(n: usize, builds: usize, fails_at: Option<RunAction>) -> Vec<RunAction> {
    let mut run = RunSequence::new(n);
    let mut all = vec![];
    loop {
        let action = run.action;
        all.push(action);
        match action {
            RunAction::Finished | RunAction::Failed => return all,
            RunAction::PlanBuilds => run.planned(builds),
            _ => run.done(Some(action) != fails_at),
        }
    }
}

#[test]
fn a_run_goes_through_its_phases() {
    assert_eq!(
        run(2, 1, None),
        vec![
            RunAction::CheckNames,
            RunAction::AcquireLog,
            RunAction::WriteFile(0),
            RunAction::WriteFile(1),
            RunAction::Precheck(0),
            RunAction::Precheck(1),
            RunAction::PlanBuilds,
            RunAction::Build(0),
            RunAction::CreateNetwork,
            RunAction::Create(0),
            RunAction::Create(1),
            RunAction::Start(0),
            RunAction::Start(1),
            RunAction::Finished,
        ]
    );
    assert_eq!(
        run(0, 0, None).last(),
        Some(&RunAction::Finished)
    );
}

#[test]
fn a_failed_run_is_undone() {
    let all = run(3, 1, Some(RunAction::Build(0)));
    assert_eq!(all.last(), Some(&RunAction::Failed));
    assert!(!all.iter().any(|a| matches!(a, RunAction::Undo { .. })));
    for failing in [RunAction::Create(1), RunAction::Start(1)] {
        let all = run(3, 1, Some(failing));
        assert_eq!(all.last(), Some(&RunAction::Failed));
        let undone: Vec<usize> = all
            .iter()
            .filter_map(|a| match a {
                RunAction::Undo { i, .. } => Some(*i),
                _ => None,
            })
            .collect();
        let created: Vec<usize> = all
            .iter()
            .filter_map(|a| match a {
                RunAction::Create(i) if Some(*a) != Some(failing) => Some(*i),
                _ => None,
            })
            .collect();
        for i in created {
            assert!(undone.contains(&i));
        }
    }
}

#[test]
fn waiting_goes_round() {
    let mut wait = WaitLoop::new(strings(&["a", "b"]), strings(&["c"]));
    assert_eq!(wait.next(false), WaitAction::Poll { sleep: false });
    assert_eq!(wait.current(), "a");
    wait.complete();
    assert_eq!(wait.next(false), WaitAction::Poll { sleep: false });
    assert_eq!(wait.current(), "b");
    assert!(wait.is_waited_for());
    wait.pass();
    assert_eq!(wait.next(false), WaitAction::Poll { sleep: false });
    assert_eq!(wait.current(), "c");
    assert!(!wait.is_waited_for());
    wait.pass();
    assert_eq!(wait.next(false), WaitAction::Poll { sleep: true });
    assert_eq!(wait.current(), "b");
    wait.complete();
    assert_eq!(wait.next(false), WaitAction::Finished);
}

#[test]
fn a_timeout_gives_an_extra_round() {
    let mut wait = WaitLoop::new(strings(&["a"]), vec![]);
    assert_eq!(wait.next(true), WaitAction::Poll { sleep: false });
    wait.pass();
    assert_eq!(wait.next(true), WaitAction::Poll { sleep: false });
    wait.pass();
    assert_eq!(wait.next(true), WaitAction::TimedOut);
    assert_eq!(WaitLoop::new(vec![], vec![]).next(true), WaitAction::Finished);
}

#[test]
fn completed_containers_leave_a_result() {
    let mut cn = network(&["a", "b"]);
    activate(&mut cn, "a");
    activate(&mut cn, "b");
    assert!(cn.check_wait(&strings(&["a"])).is_ok());
    assert_eq!(cn.other_names(&strings(&["a"]), true), strings(&["b"]));
    assert_eq!(cn.polled("a", true, true, Polled::Running), Verdict::Pass);
    let done = Polled::Done(Some(result(Some(true), b"")));
    assert_eq!(cn.polled("a", true, true, done), Verdict::Complete);
    assert!(!cn.is_active("a"));
    let e = cn.check_wait(&strings(&["a"])).err().unwrap();
    assert_eq!(
        texts(&e),
        vec!["ContainerNetwork::wait_with_timeout -> name \"a\" is already inactive"]
    );
    let e = cn.check_wait(&strings(&["c"])).err().unwrap();
    assert_eq!(
        texts(&e),
        vec!["ContainerNetwork::wait_with_timeout -> name \"c\" not found in the network"]
    );
    let done = Polled::Done(Some(result(
        Some(false),
        b"x Error { stack: [\nbad\n] }",
    )));
    assert_eq!(cn.polled("b", true, true, done), Verdict::Unsuccessful);
    let e = cn.unsuccessful_error();
    let all = texts(&e);
    assert!(all
        .contains(&"Error stack from container \"b\":\nError { stack: [\nbad\n] }\n".to_owned()));
}

#[test]
fn containers_that_were_not_waited_for_can_be_waited_for_later() {
    let mut cn = network(&["a", "b"]);
    activate(&mut cn, "a");
    activate(&mut cn, "b");
    assert!(cn.other_names(&strings(&["a"]), false).is_empty());
    // while "a" is waited for, "b" completes
    let done = || Polled::Done(Some(result(Some(true), b"out")));
    assert_eq!(cn.polled("b", false, true, done()), Verdict::Complete);
    assert!(cn.is_active("b"));
    assert_eq!(cn.polled("a", true, true, done()), Verdict::Complete);
    assert_eq!(cn.active_names(), strings(&["b"]));
    // a later wait for "b" finds it completed
    assert!(cn.check_wait(&strings(&["b"])).is_ok());
    assert_eq!(cn.polled("b", true, true, done()), Verdict::Complete);
    assert!(!cn.is_active("b"));
    assert!(cn.active_names().is_empty());
}

#[test]
fn failures_of_other_containers_end_the_waiting() {
    let failed = || Polled::Done(Some(result(Some(false), b"Error { stack: [x] }")));
    let mut cn = network(&["a", "b"]);
    activate(&mut cn, "a");
    activate(&mut cn, "b");
    assert_eq!(cn.polled("b", false, false, failed()), Verdict::Complete);
    assert_eq!(cn.polled("b", false, true, Polled::Failed), Verdict::Pass);
    assert!(cn.is_active("b"));
    assert_eq!(cn.polled("b", false, true, failed()), Verdict::Unsuccessful);
    assert!(!cn.is_active("b"));
    assert!(texts(&cn.unsuccessful_error())[0].starts_with("Error stack from container \"b\""));
}

#[test]
fn everything_is_terminated() {
    let mut cn = network(&["a", "b", "c"]);
    activate(&mut cn, "a");
    activate(&mut cn, "c");
    cn.terminate_containers(vec![Ok(Some(result(None, b"out"))), Ok(None), Err(trouble())]);
    assert!(cn.active_names().is_empty() && cn.known_container_ids().is_empty());
    assert_eq!(cn.inactive_names(), strings(&["a", "b", "c"]));
    assert!(matches!(&cn.set.values[0].run_state, RunState::PostActive(Ok(r)) if r.stdout == b"out"));
    assert!(matches!(&cn.set.values[1].run_state, RunState::PreActive));
    assert!(matches!(&cn.set.values[2].run_state, RunState::PostActive(Err(_))));
}

#[test]
fn removed_containers_give_their_result() {
    let mut cn = network(&["a", "b"]);
    activate(&mut cn, "a");
    assert_eq!(cn.removal("a").unwrap().args.join(" "), "rm -f id_a");
    assert!(cn.removal("b").is_none());
    let r = cn.remove_container("a", Ok(Some(result(None, b"out")))).ok().unwrap().unwrap();
    assert_eq!(r.stdout, b"out");
    assert_eq!(cn.names(), strings(&["b"]));
    let e = cn.remove_container("a", Ok(None)).err().unwrap();
    assert_eq!(
        texts(&e),
        vec!["ContainerNetwork::remove_name -> could not find name \"a\" in the network"]
    );
    assert!(cn.remove_container("b", Ok(None)).ok().unwrap().is_none());
    activate_after_terminate();
}

fn activate_after_terminate() {
    let mut cn = network(&["a"]);
    activate(&mut cn, "a");
    cn.terminate("a", Ok(Some(result(None, b""))));
    assert!(!cn.is_active("a"));
    assert!(matches!(cn.set.values[0].run_state, RunState::PostActive(Ok(_))));
    assert!(cn.check_run(&strings(&["a"])).is_ok());
    activate(&mut cn, "a");
    assert!(cn.is_active("a"));
}

#[test]
fn timeouts_name_the_containers() {
    let e = ContainerNetwork::timeout_error(&strings(&["a", "b"]), place());
    assert!(e.is_timeout());
    assert!(texts(&e).contains(
        &"ContainerNetwork::wait_with_timeout timeout waiting for container names [\"a\", \"b\"] \
          to complete"
            .to_owned()
    ));
    assert!(!ContainerNetwork::ctrlc_error().is_timeout());
    let cn = network(&["a"]);
    let delay = Duration::from_secs(1);
    let e = cn.ip_addr_id(3, delay, "a").err().unwrap();
    assert_eq!(
        texts(&e),
        vec![
            "ContainerNetwork::get_ip_addr(num_retries: 3, delay: 1s, name: a) -> found \
             container, but it was not active"
        ]
    );
}

#[test]
fn failures_are_reported() {
    let r = result(Some(false), b"thread 'main' panicked at x\ny");
    let e = add_result_report(new_report(), "a", &r);
    assert_eq!(
        texts(&e),
        vec!["Panic message from container \"a\":\nthread 'main' panicked at x\ny\n"]
    );
    let e = add_result_report(new_report(), "a", &result(Some(false), b""));
    assert_eq!(
        texts(&e),
        vec![
            "Error: Container \"a\" was unsuccessful but does not seem to have an error stack or \
             panic message\n"
        ]
    );
    assert!(add_result_report(new_report(), "a", &result(Some(true), b"")).error_stack.is_empty());
    assert!(add_result_report(new_report(), "a", &result(None, b"")).error_stack.is_empty());
    let hint = b"Error { stack: [ProbablyNotRootCauseError] }";
    let e = add_result_report(new_report(), "a", &result(None, hint));
    assert!(e.error_stack.is_empty());
    let stdout = b"Error: Error { stack: [ProbablyNotRootCauseError] }\nError: Error { stack: [real] }";
    let e = add_result_report(new_report(), "c", &result(Some(false), stdout));
    assert_eq!(texts(&e), vec!["Error stack from container \"c\":\nError { stack: [real] }\n"]);
}

#[test]
fn records_are_cut_to_their_end() {
    let e = add_record_report(new_report(), "a", "x Error: first Error: second");
    assert_eq!(
        texts(&e),
        vec!["Error from container \"a\" std_record:\nError: first Error: second\n"]
    );
    let long = format!("Error:{}", "\u{e4}".repeat(20000));
    let e = add_record_report(new_report(), "a", &long);
    assert_eq!(
        texts(&e),
        vec![format!("Error from container \"a\" std_record:\n{}\n", "\u{e4}".repeat(10000))]
    );
}

#[test]
fn addresses_are_read_from_an_inspection() {
    assert_eq!(inspect_command("id").args, strings(&["inspect", "id"]));
    let inspected = r#"[{"NetworkSettings":{"Networks":{"net":{"IPAddress":"172.17.0.2"}}}}]"#;
    let r = get_ip_addr(Ok(result(Some(true), inspected.as_bytes())));
    assert_eq!(r.ok(), Some("172.17.0.2".to_owned()));
    let inspected = r#"[{"NetworkSettings":{"Networks":{"net":{"IPAddress":""}}}}]"#;
    let e = get_ip_addr(Ok(result(Some(true), inspected.as_bytes()))).err().unwrap();
    assert_eq!(texts(&e), vec!["IP address has not been assigned yet"]);
    let e = get_ip_addr(Ok(result(Some(true), b"[]"))).err().unwrap();
    assert_eq!(texts(&e), vec!["stacked_get(v ... [0] ...) -> indexing failed"]);
    let e = get_ip_addr(Err(trouble())).err().unwrap();
    assert_eq!(texts(&e), vec!["trouble", "could not run `docker inspect`"]);
    assert!(get_ip_addr(Ok(result(Some(false), b""))).is_err());
    assert!(matches!(
        get_ip_addr(Ok(result(Some(true), b"\xff"))).err().unwrap().error_stack[..],
        [ErrorKind::BoxedError(_)]
    ));
    assert!(matches!(
        get_ip_addr(Ok(result(Some(true), b"{"))).err().unwrap().error_stack[..],
        [ErrorKind::SerdeJsonError(_)]
    ));
    let e = wait_get_ip_addr_error("id", trouble());
    assert_eq!(texts(&e)[1], "wait_get_ip_addr(container_id: id)");
}

#[test]
fn containers_are_found_by_prefix() {
    let printed = "CONTAINER ID   IMAGE   NAMES\n\
                   8f1   fedora:38   test_runner_1\n\
                   9a2   fedora:38   postgres_1\n";
    let found = find_container(printed, "post").ok().unwrap().unwrap();
    assert_eq!((found.name.as_str(), found.id.as_str()), ("postgres_1", "9a2"));
    assert!(find_container(printed, "fedora").ok().unwrap().is_none());
    let twice = format!("{printed}111   fedora:38   postgres_2\n");
    assert!(find_container(&twice, "postgres").ok().unwrap().is_none());
}

#[test]
fn exec_arguments_are_put_together() {
    let args = auto_exec_args(&strings(&["-it"]), "9a2", &strings(&["bash", "-l"]));
    assert_eq!(args, strings(&["-it", "9a2", "bash", "-l"]));
    assert_eq!(docker_exec(&args).args.join(" "), "exec -it 9a2 bash -l");
    assert_eq!(docker_exec_i("9a2").args.join(" "), "exec -i 9a2 bash");
    assert!(matches!(docker_exec_step(false, Ok(())), ExecStep::Finished));
    assert!(matches!(docker_exec_step(true, Err(trouble())), ExecStep::Terminate));
    assert!(matches!(docker_exec_step(false, Err(trouble())), ExecStep::TerminateWith(_)));
    assert!(matches!(docker_exec_step(false, Err(Error::timeout(place()))), ExecStep::Sleep));
}

#[test]
fn container_ids_lose_their_newline() {
    assert_eq!(created_id(&result(Some(true), b"abc\n")).ok(), Some("abc".to_owned()));
    assert_eq!(created_id(&result(Some(true), b"")).ok(), Some("".to_owned()));
    assert!(created_id(&result(Some(false), b"abc\n")).is_err());
    match &created_id(&result(Some(true), b"\xffa\n")).err().unwrap().error_stack[0] {
        ErrorKind::FromUtf8Error(s) => {
            assert_eq!(
                s,
                "FromUtf8Error { bytes: [255, 97], error: Utf8Error { valid_up_to: 0, error_len: \
                 Some(1) } }"
            )
        }
        _ => unreachable!(),
    }
    assert_eq!(docker(strings(&["ps"])).get_unified_command(), "docker ps");
}

#[test]
fn entrypoints_are_mounted_or_copied() {
    let name_tag = || Container::new("a", Dockerfile::name_tag("alpine:3.20"));
    let c = name_tag().with_external_entrypoint("/t/main", Uuid { bits: 1 }, strings(&["--x"]));
    assert_eq!(c.volumes, vec![("/t/main".to_owned(), format!("/main_{UUID}"))]);
    assert_eq!(c.entrypoint_file, Some(format!("/main_{UUID}")));
    let e = name_tag().external_entrypoint(Err(trouble()), vec![]).err().unwrap();
    assert_eq!(
        texts(&e)[1],
        "Container::external_entrypoint could not acquire the external entrypoint binary"
    );
    let c = name_tag()
        .with_copied_entrypoint("bin/main", "/t/bin/main", Err(trouble()), Uuid { bits: 1 }, vec![])
        .ok()
        .unwrap();
    match c.dockerfile {
        Dockerfile::Contents(s) => assert_eq!(
            s,
            format!("FROM alpine:3.20\nCOPY bin/main /main_{UUID}\nRUN chmod +x /main_{UUID}")
        ),
        _ => unreachable!(),
    }
}

#[test]
fn build_steps_are_added_to_contents() {
    let steps = strings(&["RUN a", "RUN b"]);
    let f = Dockerfile::path("d").add_build_steps(Ok("FROM x".to_owned()), &steps).ok().unwrap();
    assert!(f.same_as(&Dockerfile::contents("FROM x\nRUN a\nRUN b")));
    assert!(Dockerfile::path("d").add_build_steps(Err(trouble()), &steps).is_err());
    assert_eq!(Dockerfile::path("d").needed_file(), Some(&"d".to_owned()));
    assert_eq!(Dockerfile::name_tag("d").needed_file(), None);
}

#[test]
fn example_dockerfiles_are_generated() {
    assert!(container2_dockerfile().starts_with("\nFROM alpine:3.20\n\n# note: when adding"));
    assert!(container2_dockerfile()
        .ends_with("ENV ARG_FROM_ENV=\"environment var from dockerfile\"\n"));
    assert!(test_dockerfile().ends_with("\nENV SOMETHING=\"example/something\"\n"));
}

#[test]
fn names_are_kept_in_order() {
    let mut map: NameMap<u8> = NameMap::new();
    for (i, name) in ["b", "a", "c", "\u{10000}", "\u{ffff}"].iter().enumerate() {
        map.put(name.to_string(), i as u8);
    }
    assert_eq!(map.names, strings(&["a", "b", "c", "\u{ffff}", "\u{10000}"]));
    map.put("a".to_owned(), 9);
    assert_eq!(map.values, vec![9, 0, 2, 4, 3]);
    assert_eq!(map.take("b"), Some(0));
    assert_eq!(map.take("b"), None);
    assert_eq!(map.find("c"), Some(1));
}

#[test]
fn single_containers_have_a_root_path() {
    let c = docker_container::Container::new("a", Dockerfile::name_tag("x"))
        .external_entrypoint(Ok("/t/main".to_owned()), vec![])
        .ok()
        .unwrap();
    assert_eq!(c.entrypoint_file, Some("/main".to_owned()));
    assert_eq!(docker_container::make_root_path("/t/main"), "/main");
    let volumes = c.create_volumes(vec![Ok("/h/t/main".to_owned())]).ok().unwrap();
    assert_eq!(
        c.create("net", &volumes, None).args.join(" "),
        "create --rm --network net --hostname a --name a --volume /h/t/main:/main -t x /main"
    );
    let c = docker_container::Container::new("a", Dockerfile::contents("FROM x"));
    let e = c.check_create(None).err().unwrap();
    assert_eq!(
        texts(&e),
        vec![
            "Container::create -> `Dockerfile::Contents` requires a `dockerfile_write_dir`, but \
             none was provided"
        ]
    );
    assert_eq!(
        texts(&c.build_error(Some("/w/__tmp.dockerfile"), trouble())),
        vec![
            "trouble",
            "Container::create -> when using the `Dockerfile::Contents` written to \
             \"\"/w/__tmp.dockerfile\"\":\nFROM x\n",
        ]
    );
    assert_eq!(texts(&c.build_error(None, trouble())), vec!["trouble"]);
}

#[test]
fn contents_are_copied_after_the_creation() {
    let id = Container::create_result(Ok(result(Some(true), b"abc123\n")));
    assert_eq!(id.ok().unwrap(), "abc123");
    let e = Container::create_result(Err(trouble())).err().unwrap();
    assert_eq!(texts(&e), ["trouble", "Container::create -> when creating the container"]);
    let mut container = Container::new("main", Dockerfile::name_tag("fedora:38"));
    assert!(matches!(container.copy_step(0, None), CopyStep::Finished));
    container.copied_contents = pairs(&[("./a", "/a"), ("./b", "/b")]);
    assert!(matches!(container.copy_step(0, None), CopyStep::Copy(0)));
    assert!(matches!(container.copy_step(1, None), CopyStep::Copy(1)));
    assert!(matches!(container.copy_step(2, None), CopyStep::Finished));
    let command = container.copy_contents(1, "abc123", None, false, 0);
    assert_eq!(command.args, ["cp", "./b", "abc123:/b"]);
    match container.copy_step(1, Some(trouble())) {
        CopyStep::Failed(e) => assert_eq!(
            texts(&e),
            ["trouble", "Container::copy -> when copying contents to container after creation"]
        ),
        _ => panic!("the copying has failed"),
    }
    assert_eq!(texts(&Container::start_error(trouble())), ["trouble", "Container::start"]);
}

#[test]
fn containers_of_a_network_can_be_changed() {
    let mut cn = network(&["a"]);
    cn.set.values[0].container_mut().log = true;
    assert!(cn.set.values[0].container().log);
    assert!(!cn.set.values[0].is_active());
}

#[test]
fn single_containers_have_a_network_of_their_own() {
    let container = Container::new("main", Dockerfile::contents("FROM fedora:38"));
    let cn = ContainerNetwork::for_single(container, Some("./dockerfiles"), "./logs", true);
    let cn = cn.ok().unwrap();
    assert_eq!(cn.names(), ["main"]);
    assert_eq!(cn.inactive_names(), ["main"]);
    assert!(cn.network_name().starts_with("super_orchestrator_"));
    assert!(cn.set.values[0].container().allow_unsuccessful);
    assert!(cn.debug_build && cn.debug_create && !cn.debug_extra);
    let container = Container::new("main", Dockerfile::contents("FROM fedora:38"));
    let e = ContainerNetwork::for_single(container, None, "./logs", true).err().unwrap();
    assert_eq!(
        texts(&e),
        [
            "ContainerNetwork::add_container -> a container is built with \
             `Dockerfile::Contents`, but `dockerfile_write_dir` is unset",
            "Container::run when trying to create a `ContainerNetwork`",
        ]
    );
    assert_eq!(
        texts(&ContainerNetwork::single_error(SinglePhase::Run, trouble())),
        ["trouble", "Container::run when trying to run a `ContainerNetwork`"]
    );
    assert_eq!(
        texts(&ContainerNetwork::single_error(SinglePhase::Wait, trouble())),
        ["trouble", "Container::run when waiting on its `ContainerNetwork`"]
    );
    assert_eq!(Container::run_result(Some(result(Some(true), b"out"))).ok().unwrap().stdout, b"out");
    assert!(Container::run_result(None).is_err());
}

#[test]
fn dockerfiles_are_prechecked() {
    let mut c = Container::new("a", Dockerfile::contents("FROM fedora:38"));
    let e = c.precheck(Ok(()), vec![], vec![]).err().unwrap();
    assert_eq!(
        texts(&e),
        ["Container::precheck -> `Dockerfile::Contents` requires a `dockerfile_write_dir`, but \
          none was provided"]
    );
    let mut c = c.dockerfile_write_file(Some("./dockerfiles/a".to_owned()));
    assert!(c.precheck(Ok(()), vec![], vec![]).is_ok());
    let mut c = Container::new("a", Dockerfile::path("./a.dockerfile"));
    assert!(c.precheck(Ok(()), vec![], vec![]).is_ok());
    let e = c.precheck(Err(trouble()), vec![], vec![]).err().unwrap();
    assert_eq!(
        texts(&e),
        [
            "trouble",
            "Container::precheck -> could not acquire the path in a `Dockerfile::Path`"
        ]
    );
    let mut c = Container::new("a", Dockerfile::name_tag("fedora:38"));
    assert!(c.precheck(Err(trouble()), vec![], vec![]).is_ok());
}

#[test]
fn builds_need_a_tag() {
    let c = Container::new("a", Dockerfile::name_tag("fedora:38"));
    assert!(matches!(c.build(Err(trouble()), false, 0), Ok(Build::Nothing)));
    let mut c = Container::new("a", Dockerfile::path("./a.dockerfile"));
    assert_eq!(
        texts(&c.build(Ok("/h/a.dockerfile".to_owned()), false, 0).err().unwrap()),
        ["Container::build -> the `build_tag` needs to be set"]
    );
    c.build_tag = Some("tag".to_owned());
    match c.build(Ok("/h/a.dockerfile".to_owned()), false, 0) {
        Ok(Build::Run { write: None, command }) => assert_eq!(
            command.args,
            ["build", "-t", "tag", "--file", "/h/a.dockerfile", "/h"]
        ),
        _ => panic!("the image is built"),
    }
    assert_eq!(
        texts(&c.build_error(trouble())),
        ["trouble", "Container::build -> when using the dockerfile at \"./a.dockerfile\""]
    );
    let mut c = Container::new("a", Dockerfile::contents("FROM fedora:38"));
    c.build_tag = Some("tag".to_owned());
    assert!(c.build(Ok(String::new()), false, 0).is_err());
    assert_eq!(texts(&c.build_error(trouble())), ["trouble"]);
    c.dockerfile_write_file = Some("/w/a.tmp".to_owned());
    match c.build(Err(trouble()), false, 0) {
        Ok(Build::Run { write: Some((file, contents)), command }) => {
            assert_eq!((file.as_str(), contents.as_str()), ("/w/a.tmp", "FROM fedora:38"));
            assert_eq!(command.args, ["build", "-t", "tag", "--file", "/w/a.tmp", "/w"]);
        }
        _ => panic!("the contents are written"),
    }
}
