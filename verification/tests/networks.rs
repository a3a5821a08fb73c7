use super_orchestrator::cli_docker::Build;
use super_orchestrator::command::{Command, CommandResult, ExitStatus};
use super_orchestrator::docker::{
    next_step, Container, ContainerNetwork, RunStep, RunnerEvent,
};
use super_orchestrator::docker_network::Verdict;
use super_orchestrator::dockerfile::Dockerfile;
use super_orchestrator::error::{Error, ErrorKind, Location};
use super_orchestrator::uuid::Uuid;

const UUID: &str = "00000000-0000-0000-0000-00000000000a";

fn strings(v: &[&str]) -> Vec<String> {
    v.iter().map(|s| s.to_string()).collect()
}

fn texts(e: &Error) -> Vec<String> {
    e.error_stack
        .iter()
        .map(|kind| match kind {
            ErrorKind::StrError(s) => s.to_string(),
            ErrorKind::StringError(s) => s.clone(),
            _ => "another kind".to_owned(),
        })
        .collect()
}

fn trouble() -> Error {
    Error::from_text("trouble".to_owned())
}

fn result(success: bool, stdout: &[u8]) -> CommandResult {
    CommandResult {
        command: Command::new("docker start"),
        status: Some(ExitStatus {
            success,
            shown: "ExitStatus".to_owned(),
            shown_pretty: "ExitStatus".to_owned(),
        }),
        stdout: stdout.to_vec(),
        stderr: vec![],
    }
}

fn network(is_not_internal: bool) -> ContainerNetwork {
    let containers = vec![
        Container::new("a", Dockerfile::name_tag("fedora:38")).volume("./v", "/v"),
        Container::new("b", Dockerfile::contents("FROM x")).no_uuid_for_host_name(),
        Container::new("c", Dockerfile::path("./d/c.dockerfile")),
    ];
    let mut cn =
        ContainerNetwork::new("net", containers, Some("./dockerfiles"), is_not_internal, "./logs")
            .ok()
            .unwrap();
    cn.uuid = Uuid { bits: 10 };
    cn
}

#[test]
fn names_have_a_uuid() {
    let cn = network(false);
    assert_eq!(cn.uuid_as_string(), UUID);
    assert_eq!(cn.network_name_with_uuid(), format!("net_{UUID}"));
    assert_eq!(cn.container_name_with_uuid("a").ok(), Some(format!("a_{UUID}")));
    assert_eq!(cn.hostname_with_uuid("a").ok(), Some(format!("a_{UUID}")));
    assert_eq!(cn.hostname_with_uuid("b").ok(), Some("b".to_owned()));
    assert_eq!(
        texts(&cn.container_name_with_uuid("z").err().unwrap()),
        vec!["container_name_with_uuid(z): could not find container with given name"]
    );
    assert!(cn.hostname_with_uuid("z").is_err());
}

#[test]
fn duplicates_are_refused() {
    let twice = vec![
        Container::new("a", Dockerfile::name_tag("x")),
        Container::new("a", Dockerfile::name_tag("y")),
    ];
    let e = ContainerNetwork::new("net", twice, None, false, "./logs").err().unwrap();
    assert_eq!(
        texts(&e),
        vec!["ContainerNetwork::new() two containers were supplied with the same name \"a\""]
    );
    let contents = vec![Container::new("a", Dockerfile::contents("FROM x"))];
    let e = ContainerNetwork::new("net", contents, None, false, "./logs").err().unwrap();
    assert_eq!(
        texts(&e),
        vec![
            "ContainerNetwork::new() a container is built with `Dockerfile::Contents`, but \
             `dockerfile_write_dir` is unset"
        ]
    );
    let mut cn = network(false);
    assert!(cn.add_container(Container::new("a", Dockerfile::name_tag("x"))).is_err());
    assert!(cn.add_container(Container::new("d", Dockerfile::name_tag("x"))).is_ok());
    assert_eq!(cn.inactive_names(), strings(&["a", "b", "c", "d"]));
}

#[test]
fn networks_are_internal_unless_told_otherwise() {
    let mut cn = network(false);
    assert_eq!(
        cn.network_creation().unwrap().args.join(" "),
        format!("network create --internal net_{UUID}")
    );
    assert_eq!(
        network(true).network_creation().unwrap().args.join(" "),
        format!("network create net_{UUID}")
    );
    assert!(cn.drop_warning().is_none());
    assert!(cn.network_created(Ok(result(true, b""))).is_ok());
    assert!(cn.network_creation().is_none());
    assert!(cn.drop_warning().unwrap().contains("network still active"));
    assert_eq!(cn.network_removal().unwrap().args.join(" "), format!("network rm net_{UUID}"));
    cn.network_removed();
    assert!(cn.network_removal().is_none());
    assert!(cn.network_created(Err(trouble())).is_err());
}

#[test]
fn containers_are_prepared_and_created() {
    let cn = network(false);
    let names = strings(&["a", "b", "c"]);
    assert!(cn.check_run(&names).is_ok());
    assert!(cn.check_run(&strings(&["z"])).is_err());
    assert!(cn.check_run(&strings(&["a", "a"])).is_err());
    assert_eq!(cn.dockerfile_to_find("c"), Some(&"./d/c.dockerfile".to_owned()));
    assert_eq!(cn.dockerfile_to_find("a"), None);
    assert_eq!(cn.write_dir_to_find(&names), Some(&"./dockerfiles".to_owned()));
    assert_eq!(cn.write_dir_to_find(&strings(&["a"])), None);
    assert_eq!(ContainerNetwork::write_file("/h/d"), "/h/d/__tmp.dockerfile");
    assert_eq!(cn.log_file().path, "./logs/container_network_net.log");
    let volumes = cn.create_volumes("a", vec![Ok("/h/v".to_owned())]).ok().unwrap();
    assert_eq!(
        cn.create("a", &volumes, false).args.join(" "),
        format!(
            "create --rm --network net_{UUID} --hostname a_{UUID} --name a_{UUID} --volume \
             /h/v:/v -t fedora:38"
        )
    );
    assert_eq!(
        texts(&cn.create_volumes("a", vec![Err(trouble())]).err().unwrap()),
        vec!["trouble", "could not locate local part of volume argument"]
    );
    assert!(matches!(cn.build("a", Err(trouble()), None, false), Ok(Build::Nothing)));
    match cn.build("b", Err(trouble()), Some("/h/d"), false).ok().unwrap() {
        Build::Run { write, command } => {
            let file = "/h/d/__tmp.dockerfile".to_owned();
            assert_eq!(write, Some((file.clone(), "FROM x".to_owned())));
            assert_eq!(
                command.args.join(" "),
                format!("build -t b_{UUID} --file {file} /h/d")
            );
        }
        Build::Nothing => unreachable!(),
    }
}

#[test]
fn running_containers_are_tracked() {
    let mut cn = network(false);
    cn.created("a", "id_a".to_owned());
    cn.created("b", "id_b".to_owned());
    assert_eq!(cn.active_names(), strings(&["a", "b"]));
    assert_eq!(cn.inactive_names(), strings(&["c"]));
    assert_eq!(cn.start("a", false).args.join(" "), "start --attach id_a");
    assert!(!cn.is_running("a"));
    cn.started("a");
    cn.started("b");
    assert!(cn.is_running("a"));
    assert!(cn.drop_warning().unwrap().contains("container runners still running"));
    assert_eq!(cn.removal("a").unwrap().args.join(" "), "rm -f id_a");
    assert!(cn.check_wait("a").is_ok() && cn.check_wait("c").is_err());
    assert_eq!(cn.polled("a", true, true, RunnerEvent::Running).ok(), Some(Verdict::Pass));
    let done = RunnerEvent::Done(result(true, b""));
    assert_eq!(cn.polled("a", true, true, done).ok(), Some(Verdict::Complete));
    assert!(!cn.is_running("a"));
    let done = RunnerEvent::Done(result(false, b" panicked at x"));
    assert_eq!(cn.polled("b", true, true, done).ok(), Some(Verdict::Unsuccessful));
    assert!(!cn.wait_error().is_timeout());
    assert_eq!(cn.ip_addr_id("z").err().map(|e| texts(&e)[0].clone()).unwrap(),
        "get_ip_addr(z) -> could not find active container with name");
    let l = Location { file: "f".to_owned(), line: 1, col: 1 };
    assert!(ContainerNetwork::timeout_error(&strings(&["a"]), l).is_timeout());
}

#[test]
fn terminated_containers_are_inactive() {
    let mut cn = network(false);
    cn.created("a", "id_a".to_owned());
    cn.started("a");
    cn.terminate("a", Some(result(true, b"")));
    assert!(cn.active_names().is_empty() && !cn.is_running("a"));
    assert!(cn.removal("a").is_none());
}

#[test]
fn other_runners_are_looked_at() {
    let mut cn = network(false);
    for name in ["a", "b", "c"] {
        cn.created(name, format!("id_{name}"));
        cn.started(name);
    }
    assert_eq!(cn.other_names(&strings(&["b"]), true), strings(&["a", "c"]));
    assert!(cn.other_names(&strings(&["b"]), false).is_empty());
    // one that completes can be waited for later
    let done = || RunnerEvent::Done(result(true, b""));
    assert_eq!(cn.polled("a", false, true, done()).ok(), Some(Verdict::Complete));
    assert!(cn.is_running("a") && cn.check_wait("a").is_ok());
    assert_eq!(cn.polled("a", true, true, done()).ok(), Some(Verdict::Complete));
    assert!(!cn.is_running("a"));
    let failed = RunnerEvent::Done(result(false, b""));
    assert_eq!(cn.polled("c", false, true, failed).ok(), Some(Verdict::Unsuccessful));
    assert_eq!(cn.polled("b", false, false, RunnerEvent::Failed(trouble())).ok(), Some(Verdict::Pass));
    assert_eq!(cn.polled("b", false, true, RunnerEvent::Failed(trouble())).ok(), Some(Verdict::OsError));
}

#[test]
fn runners_that_cannot_be_terminated_end_the_waiting() {
    let mut cn = network(false);
    cn.created("a", "id_a".to_owned());
    cn.started("a");
    let e = cn.polled("a", true, true, RunnerEvent::Lost(trouble())).err().unwrap();
    assert_eq!(texts(&e), ["trouble"]);
    assert!(!cn.is_running("a") && cn.active_names().is_empty());
    assert!(cn.container_results.names.is_empty());
}

#[test]
fn everything_is_terminated_before_a_failed_creation_is_reported() {
    let containers = vec![Container::new("a", Dockerfile::name_tag("fedora:38"))];
    let mut cn = ContainerNetwork::new("net", containers, None, false, "./logs").ok().unwrap();
    cn.uuid = Uuid { bits: 10 };
    cn.created("a", "id_a".to_owned());
    cn.started("a");
    cn.terminate_containers(vec![Some(result(true, b""))]);
    assert!(cn.active_names().is_empty() && !cn.is_running("a"));
    let shown = cn.container_results.values[0].as_ref().ok().unwrap().debug_text();
    assert_eq!(
        texts(&cn.create_error(trouble()))[1],
        format!(
            "ContainerNetwork {{ uuid: {UUID}, network_name: \"net\", containers: {{\"a\": \
             Container {{ name: \"a\", host_name: \"a\", no_uuid_for_host_name: false, dockerfile: \
             NameTag(\"fedora:38\"), build_args: [], create_args: [], volumes: [], \
             environment_vars: [], entrypoint_file: None, entrypoint_args: [] }}}}, \
             dockerfile_write_dir: None, is_not_internal: false, log_dir: \"./logs\", \
             active_container_ids: {{}}, container_runners: {{}}, container_results: {{\"a\": \
             Ok({shown})}}, network_active: false }}.run()"
        )
    );
}

fn steps(n: usize, fails_at: Option<RunStep>) -> Vec<RunStep> {
    let mut step = RunStep::CheckNames;
    let mut all = vec![];
    loop {
        all.push(step);
        if matches!(step, RunStep::Finished | RunStep::Failed) {
            return all;
        }
        step = next_step(n, step, Some(step) != fails_at, false);
    }
}

#[test]
fn steps_come_to_an_end() {
    let all = steps(2, None);
    assert_eq!(all.first(), Some(&RunStep::CheckNames));
    assert_eq!(all.last(), Some(&RunStep::Finished));
    for i in 0..2 {
        let create = all.iter().position(|s| *s == RunStep::Create(i)).unwrap();
        let start = all.iter().position(|s| *s == RunStep::Start(i)).unwrap();
        assert!(create < start);
    }
    assert_eq!(steps(0, None).last(), Some(&RunStep::Finished));
}

#[test]
fn a_failed_start_terminates_everything() {
    let all = steps(2, Some(RunStep::CreateNetwork));
    assert_eq!(all.last(), Some(&RunStep::Failed));
    let all = steps(2, Some(RunStep::Create(1)));
    assert_eq!(all.last(), Some(&RunStep::Failed));
    assert!(all.contains(&RunStep::TerminateAll));
}
