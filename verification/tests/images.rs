use std::io::Read;

use super_orchestrator::container_network::{
    all_done, check_name, has_failed, is_complete, is_healthy, AddContainerOptions,
    ContainerNetwork, ContainerStatus, HealthStatus, ImageStep, NetworkCreateOptions,
    OutputDirConfig, WaitEvent,
};
use super_orchestrator::container_runner::{
    log_prefixes, log_step, names_to_stop, should_stop, teardown_names, teardown_result,
    total_teardown, ContainerCreateOptions,
    ExtraAddContainerOptions, LogSource,
};
use super_orchestrator::docker_network::Verdict;
use super_orchestrator::dockerfile::Dockerfile;
use super_orchestrator::error::{Error, ErrorKind};
use super_orchestrator::misc_structs::{
    port_bindings_to_bollard_args, BootstrapOptions, PortBind, SuperImage,
};
use super_orchestrator::name_map::NameMap;
use super_orchestrator::super_docker_file::{
    bootstrap_musl, bootstrap_path, built_image, is_musl, resolve_from_to, CopiedContents,
    CopiedFile, SuperBuildImageOptionsWrapper, SuperDockerFile,
};
use super_orchestrator::super_network::{
    self, is_down, output_dir_env_var_name, DirOutcome, SuperCreateNetworkOptions, SuperNetwork,
    SuperNetworkContainerOptions,
};
use super_orchestrator::tarball::Tarball;

fn strings(v: &[&str]) -> Vec<String> {
    v.iter().map(|s| s.to_string()).collect()
}

fn trouble() -> Error {
    Error::from_text("trouble".to_owned())
}

fn only_text(e: &Error) -> String {
    assert_eq!(e.error_stack.len(), 1);
    match &e.error_stack[0] {
        ErrorKind::StringError(s) => s.clone(),
        ErrorKind::StrError(s) => s.to_string(),
        _ => panic!("not a text"),
    }
}

fn files_in(tarball: &[u8]) -> Vec<(String, u32, Vec<u8>)> {
    let mut archive = tar::Archive::new(tarball);
    let mut all = vec![];
    for entry in archive.entries().unwrap() {
        let mut entry = entry.unwrap();
        let path = entry.path().unwrap().to_str().unwrap().to_owned();
        let mode = entry.header().mode().unwrap();
        let mut content = vec![];
        entry.read_to_end(&mut content).unwrap();
        all.push((path, mode, content));
    }
    all
}

#[test]
fn tarballs_hold_what_is_appended() {
    let mut t = Tarball::default();
    assert!(t.append_file_bytes("a/b.txt", 0o644, b"hello").is_ok());
    assert_eq!(t.written.len() % 512, 0);
    assert!(t.append_file_bytes("c", 0o777, &[1; 600]).is_ok());
    let bytes = t.into_tarball().ok().unwrap();
    assert_eq!(bytes.len() % 512, 0);
    assert_eq!(
        files_in(&bytes),
        vec![
            ("a/b.txt".to_owned(), 0o644, b"hello".to_vec()),
            ("c".to_owned(), 0o777, vec![1; 600]),
        ]
    );
    let t = Tarball::new(bytes).ok().unwrap();
    assert_eq!(t.paths, strings(&["a/b.txt", "c"]));
    assert_eq!(t.debug_text(), "Tarball { a/b.txt\nc }");
}

#[test]
fn paths_that_tar_refuses_are_errors() {
    let mut t = Tarball::default();
    let e = t.append_file_bytes("../a", 0o644, b"").err().unwrap();
    assert!(matches!(e.error_stack[..], [ErrorKind::StdIoError(_)]));
    assert!(t.written.is_empty());
    assert!(Tarball::new(vec![1; 512]).is_err());
}

fn header(path: &[u8], kind: tar::EntryType) -> tar::Header {
    let mut header = tar::Header::new_gnu();
    header.as_old_mut().name[..path.len()].copy_from_slice(path);
    header.set_entry_type(kind);
    header.set_mode(0o644);
    header.set_size(0);
    header
}

fn sparse_header(size: u64, extended: bool) -> Vec<u8> {
    let mut header = header(b"a", tar::EntryType::GNUSparse);
    header.set_size(size);
    header.as_gnu_mut().unwrap().set_is_extended(extended);
    header.set_cksum();
    header.as_bytes().to_vec()
}

#[test]
fn sparse_files_cannot_declare_too_much() {
    let too_much = "the tarball declares too many bytes for a sparse file";
    let mut bytes = sparse_header(u64::MAX - 1023, true);
    bytes.extend([0; 512]);
    let e = Tarball::new(bytes.clone()).err().unwrap();
    assert_eq!(only_text(&e), too_much);
    let base = Dockerfile::name_tag("x");
    let e = SuperDockerFile::new_with_tar(base, None, bytes).err().unwrap();
    assert_eq!(only_text(&e), too_much);
    // a record can declare it too
    let mut bytes = b"29 size=18446744073709550592\n".to_vec();
    bytes.resize(512, 0);
    bytes.extend(sparse_header(0, true));
    bytes.extend([0; 512]);
    assert_eq!(only_text(&Tarball::new(bytes).err().unwrap()), too_much);
    // what does not go on, or declares less, is left to be read
    let e = Tarball::new(sparse_header(u64::MAX - 1023, false)).err().unwrap();
    assert!(matches!(e.error_stack[..], [ErrorKind::StdIoError(_)]));
    let mut bytes = sparse_header(512, true);
    bytes.extend([0; 512]);
    let e = Tarball::new(bytes).err().unwrap();
    assert!(matches!(e.error_stack[..], [ErrorKind::StdIoError(_)]));
    // and so is a text in a file
    let mut t = Tarball::default();
    assert!(t.append_file_bytes("a", 0o644, b"size=18446744073709550592").is_ok());
    let bytes = t.into_tarball().ok().unwrap();
    assert_eq!(Tarball::new(bytes).ok().unwrap().paths, strings(&["a"]));
}

#[test]
fn the_first_bad_entry_counts() {
    let mut not_text = header(b"a\xff", tar::EntryType::Regular);
    not_text.set_cksum();
    let mut bytes = not_text.as_bytes().to_vec();
    bytes.extend([1; 512]);
    let e = Tarball::new(bytes).err().unwrap();
    assert_eq!(only_text(&e), "failed to convert os_str to str");
    let mut bytes = vec![1; 512];
    bytes.extend(not_text.as_bytes());
    let e = Tarball::new(bytes).err().unwrap();
    assert!(matches!(e.error_stack[..], [ErrorKind::StdIoError(_)]));
}

#[test]
fn appended_files_are_remembered() {
    let mut t = Tarball::default();
    assert!(t.append_file("a", Ok(vec![0; 512])).is_ok());
    assert!(t.append_file("a", Ok(vec![0; 512])).is_ok());
    assert!(t.append_file("b", Err(trouble())).is_err());
    assert_eq!(t.paths, strings(&["a", "b"]));
    assert_eq!(t.written.len(), 1024);
}

#[test]
fn docker_files_are_extended() {
    let f = SuperDockerFile::new(Dockerfile::name_tag("fedora:38"), Some("img:v1".to_owned()))
        .appending_dockerfile_instructions(&strings(&["RUN a", "RUN b"]));
    let f = f
        .copying_from_contents(&vec![CopiedContents {
            to: "etc/x".to_owned(),
            mode: None,
            content: b"y".to_vec(),
        }])
        .ok()
        .unwrap();
    let entry = CopiedFile {
        from: "/t/main".to_owned(),
        to: "/main".to_owned(),
        opened: Ok(Ok(vec![0; 512])),
    };
    let f = f.with_entrypoint(entry, &strings(&["--a", "b"])).ok().unwrap();
    let contents = f.docker_file_contents(Err(trouble())).ok().unwrap();
    assert_eq!(
        String::from_utf8(contents).unwrap(),
        "FROM fedora:38\nRUN a\nRUN b\nCOPY etc/x etc/x\nCOPY /t/main /main\nENTRYPOINT \
         [\"/main\", \"--a\", \"b\"] "
    );
    assert_eq!(f.tarball.paths, strings(&["/t/main"]));
    let (args, tarball) = f.into_bollard_args(Ok(vec![])).ok().unwrap();
    assert_eq!(args.dockerfile, "./super.dockerfile");
    assert_eq!(args.opts.labels.names, strings(&["img"]));
    assert_eq!(args.opts.labels.values, strings(&["v1"]));
    assert_eq!(files_in(&tarball)[0], ("etc/x".to_owned(), 0o777, b"y".to_vec()));
}

#[test]
fn docker_files_end_the_tarball() {
    let f = || SuperDockerFile::new(Dockerfile::path("d"), None)
        .appending_dockerfile_instructions(&strings(&["RUN a"]));
    let (args, tarball) = f().into_build_args(Ok(b"FROM x".to_vec())).ok().unwrap();
    assert_eq!(args.dockerfile, "./super.dockerfile");
    let (path, mode, contents) = files_in(&tarball).pop().unwrap();
    assert!(path.ends_with("super.dockerfile"));
    assert_eq!((mode, &contents[..]), (0o644, &b"FROM x\nRUN a"[..]));
    assert!(f().into_build_args(Err(trouble())).is_err());
}

#[test]
fn files_that_cannot_be_opened_stop_the_copying() {
    let f = || SuperDockerFile::new(Dockerfile::path("d"), None);
    let file = |opened| CopiedFile { from: "a".to_owned(), to: "b".to_owned(), opened };
    assert!(f().copying_from_paths(vec![file(Ok(Ok(vec![]))), file(Err(trouble()))]).is_err());
    assert!(f().copying_from_paths(vec![file(Ok(Err(trouble())))]).is_err());
    let g = f().copying_from_paths(vec![file(Ok(Ok(vec![])))]).ok().unwrap();
    assert_eq!(g.content_extend, b"\nCOPY a b");
    assert!(g.docker_file_contents(Err(trouble())).is_err());
    assert_eq!(g.docker_file_contents(Ok(b"FROM x".to_vec())).ok().unwrap(), b"FROM x\nCOPY a b");
    assert!(g.into_bollard_args(Err(trouble())).is_err());
}

#[test]
fn copied_paths_are_resolved() {
    let pair = |a: &str, b: &str| (a.to_owned(), b.to_owned());
    assert_eq!(resolve_from_to("a", None, None), pair("a", "a"));
    assert_eq!(resolve_from_to("a", Some("/b"), None), pair("a", "/b"));
    assert_eq!(resolve_from_to("a", None, Some("/d")), pair("/d/a", "/d/a"));
    assert_eq!(resolve_from_to("/a", Some("b"), Some("/d")), pair("/a", "b"));
    let f = SuperDockerFile::new(Dockerfile::path("d"), None).with_build_path("x".to_owned());
    assert_eq!(f.resolve("a", None), pair("x/a", "x/a"));
}

#[test]
fn binaries_are_built_for_musl() {
    let exe = "/w/target/x86_64-unknown-linux-musl/release/examples/ex";
    assert!(is_musl(exe, BootstrapOptions::Example));
    assert!(!is_musl(exe, BootstrapOptions::Bin));
    assert!(bootstrap_musl(exe, BootstrapOptions::Example, vec![]).is_none());
    let build = bootstrap_musl("/w/target/debug/ex", BootstrapOptions::Bin, strings(&["-v"]));
    let build = build.unwrap();
    assert_eq!(
        build.command.get_unified_command(),
        "cargo build -r --target x86_64-unknown-linux-musl --bin ex -v"
    );
    assert_eq!(build.entrypoint, "./target/x86_64-unknown-linux-musl/release/ex");
    let build = bootstrap_musl("/w/target/debug/ex", BootstrapOptions::Test, vec![]).unwrap();
    assert_eq!(build.entrypoint, "./target/x86_64-unknown-linux-musl/release/tests/ex");
    assert_eq!(bootstrap_path(None), "/super-bootstrapped");
    assert_eq!(bootstrap_path(Some("/x".to_owned())), "/x");
    assert_eq!(BootstrapOptions::Bench.to_flag(), "--bench");
    assert_eq!(BootstrapOptions::Bench.to_path_str(), Some("benches"));
}

#[test]
fn built_images_have_an_id() {
    let image = built_image(Ok(vec![Some("sha256:1".to_owned()), None])).ok().unwrap();
    assert_eq!(image.get_image_id(), "sha256:1");
    assert_eq!(only_text(&built_image(Ok(vec![])).err().unwrap()), "image built without id");
    assert!(built_image(Ok(vec![None, Some("x".to_owned())])).is_err());
    assert!(built_image(Err(trouble())).is_err());
    assert_eq!(image.clone().into_inner(), "sha256:1");
}

#[test]
fn no_port_binding_is_lost() {
    let bindings = port_bindings_to_bollard_args(&vec![
        PortBind::new(80),
        PortBind::from(5432).with_host_port(1),
        PortBind::new(80).with_host_port(8080).with_host_ip("::1".to_owned()),
    ]);
    assert_eq!(bindings.names, strings(&["5432", "80"]));
    let ports = |i: usize| -> Vec<String> {
        bindings.values[i].iter().map(|b| b.host_port.clone()).collect()
    };
    assert_eq!(ports(0), strings(&["1"]));
    assert_eq!(ports(1), strings(&["80", "8080"]));
    assert_eq!(bindings.values[1][1].host_ip, Some("::1".to_owned()));
}

fn options(name: &str, important: bool) -> ContainerCreateOptions {
    ContainerCreateOptions { name: name.to_owned(), important, ..Default::default() }
}

fn image() -> SuperImage {
    SuperImage::new("img".to_owned())
}

fn network() -> ContainerNetwork {
    let opts = NetworkCreateOptions { name: "net".to_owned(), ..Default::default() };
    let mut cn = ContainerNetwork::create("id".to_owned(), opts);
    for (name, important) in [("a", true), ("b", false), ("c", true)] {
        assert!(cn.check_add(name).is_ok());
        cn.register(image(), ExtraAddContainerOptions::default(), options(name, important));
    }
    cn
}

#[test]
fn networks_register_their_containers() {
    let mut cn = network();
    assert_eq!(only_text(&cn.check_add("a").err().unwrap()), "Name is already registered");
    assert_eq!(only_text(&cn.check_add("").err().unwrap()), "Name for container can't be empty");
    assert!(cn.check_replace("a").is_ok());
    assert_eq!(
        only_text(&cn.check_replace("d").err().unwrap()),
        "d isn't an existing container"
    );
    assert_eq!(cn.wait_important(), strings(&["a", "c"]));
    assert_eq!(cn.teardown(), strings(&["a", "b", "c"]));
    assert!(cn.containers.names.is_empty());
}

#[test]
fn containers_are_started_once() {
    let mut cn = network();
    {
        let config = cn.start_container("a").ok().unwrap().unwrap();
        assert_eq!(config.hostname.map(|s| s.as_str()), Some("a"));
        assert_eq!(config.image.get_image_id(), "img");
        assert_eq!(config.network_name, "net");
        assert!(config.auto_remove && config.interactive);
    }
    assert!(cn.start_container("a").ok().unwrap().is_none());
    assert_eq!(cn.stop_container("a").ok(), Some(true));
    assert_eq!(cn.stop_container("b").ok(), Some(false));
    cn.container_stopped("a");
    assert_eq!(cn.stop_container("a").ok(), Some(false));
    assert_eq!(
        only_text(&cn.start_container("d").err().unwrap()),
        "Container with name d not found"
    );
    assert!(cn.stop_container("d").is_err());
}

#[test]
fn volumes_become_binds() {
    let mut cn = network();
    let mut opts = options("d", false);
    opts.volumes.push(("/h".to_owned(), "/c".to_owned()));
    opts.port_bindings.push(PortBind::new(80));
    let extra = ExtraAddContainerOptions {
        hostname: Some("host".to_owned()),
        ipv4_addr: Some("10.0.0.2".to_owned()),
        ..Default::default()
    };
    cn.register(image(), extra, opts);
    let config = cn.start_container("d").ok().unwrap().unwrap();
    assert_eq!(config.binds, strings(&["/h:/c"]));
    assert_eq!(config.volumes, strings(&["/c"]));
    assert_eq!(config.ports.names, strings(&["80"]));
    assert_eq!(config.hostname.map(|s| s.as_str()), Some("host"));
    assert_eq!(config.ipv4_addr.map(|s| s.as_str()), Some("10.0.0.2"));
    assert!(config.ipv6_addr.is_none() && config.mac_address.is_none());
}

#[test]
fn ends_of_containers_are_judged() {
    let mut cn = network();
    assert_eq!(cn.polled("a", true, &WaitEvent::Running), Verdict::Pass);
    let gone = WaitEvent::Failed("No such container: a".to_owned());
    assert_eq!(cn.polled("a", true, &gone), Verdict::Complete);
    assert_eq!(cn.polled("a", false, &WaitEvent::Exited { status_code: 1 }), Verdict::Complete);
    assert!(!cn.containers.values[0].had_error);
    let failed = WaitEvent::Exited { status_code: 1 };
    assert_eq!(cn.polled("a", true, &failed), Verdict::Unsuccessful);
    assert!(cn.containers.values[0].had_error);
    assert!(has_failed(true, &WaitEvent::Ended) && !has_failed(false, &WaitEvent::Ended));
    assert!(has_failed(false, &failed));
    let e = cn.error_compilation(&vec![Some("Error: x".to_owned()), None, None]);
    assert_eq!(e.error_stack.len(), 2);
}

#[test]
fn states_are_read() {
    assert!(is_complete(None) && is_complete(Some(None)));
    assert!(is_complete(Some(Some(ContainerStatus::Exited))));
    assert!(!is_complete(Some(Some(ContainerStatus::Running))));
    assert!(is_healthy(Some(None)) && !is_healthy(None) && !is_healthy(Some(Some(None))));
    assert!(is_healthy(Some(Some(Some(HealthStatus::Healthy)))));
    assert!(!is_healthy(Some(Some(Some(HealthStatus::Starting)))));
    assert!(all_done(&vec![true, true]) && !all_done(&vec![true, false]) && all_done(&vec![]));
    assert!(is_down(None) && is_down(Some(Some(false))) && !is_down(Some(Some(true))));
}

#[test]
fn existing_networks_are_overwritten_only_on_demand() {
    let existing = vec![None, Some("net".to_owned())];
    assert_eq!(check_name("other", false, &existing).ok(), Some(false));
    assert_eq!(check_name("net", true, &existing).ok(), Some(true));
    let e = check_name("net", false, &existing).err().unwrap();
    assert!(matches!(&e.error_stack[..], [ErrorKind::StringError(s)] if s == "network net already exists"));
    let opts = NetworkCreateOptions::default();
    assert_eq!(opts.driver_name(), "bridge");
    assert!(!opts.write_logs());
}

#[test]
fn images_are_used_or_built() {
    let mut cn = network();
    assert!(matches!(
        cn.image_step(AddContainerOptions::Container(image())),
        ImageStep::Use(_)
    ));
    cn.opts.output_dir_config =
        Some(OutputDirConfig { output_dir: "/out".to_owned(), save_logs: true });
    assert!(cn.opts.write_logs());
    assert!(matches!(
        cn.image_step(AddContainerOptions::Container(image())),
        ImageStep::BuildFile(_)
    ));
    cn.register(image(), ExtraAddContainerOptions::default(), options("d", false));
    let runner = &cn.containers.values[3];
    assert_eq!(runner.log_file(true), Some(&"/out/d.log".to_owned()));
    assert_eq!(runner.log_file(false), None);
    assert!(runner.log_output(true) && !runner.log_output(false));
    assert_eq!(cn.build_error(true, trouble()).error_stack.len(), 1);
    assert_eq!(cn.build_error(false, trouble()).error_stack.len(), 2);
    cn.opts.output_dir_config = None;
    assert_eq!(cn.build_error(true, trouble()).error_stack.len(), 2);
}

#[test]
fn output_lines_are_prefixed() {
    let (out, err) = log_prefixes("a", true, 2);
    assert_eq!(out, "\u{1b}[32ma  | \u{1b}[39m");
    assert_eq!(err, "\u{1b}[32ma E| \u{1b}[39m");
    assert_eq!(log_prefixes("a", false, 2), (String::new(), String::new()));
    let (out, err) = super_network::log_prefixes("a", true, 2);
    assert_eq!(out, "\u{1b}[32ma   | \u{1b}[39m");
    assert_eq!(err, "\u{1b}[32ma  E| \u{1b}[39m");
    let step = log_step(LogSource::StdOut, b"x\ny\n", true, "O ", "E ");
    assert_eq!(step.shown, Some("O x\nO y".to_owned()));
    assert!(step.kept);
    let step = log_step(LogSource::StdErr, b"x", true, "O ", "E ");
    assert_eq!(step.shown, Some("E x".to_owned()));
    let step = log_step(LogSource::StdErr, b"x", false, "O ", "E ");
    assert!(step.shown.is_none() && step.kept);
    assert!(!log_step(LogSource::StdIn, b"x", true, "O ", "E ").kept);
}

#[test]
fn teardowns_keep_all_errors() {
    assert!(teardown_result(vec![]).is_ok());
    let errs = ["1", "2", "3"].iter().map(|s| Error::from_text(s.to_string())).collect();
    let e = teardown_result(errs).err().unwrap();
    let texts: Vec<String> = e
        .error_stack
        .iter()
        .map(|k| match k {
            ErrorKind::StringError(s) => s.clone(),
            _ => unreachable!(),
        })
        .collect();
    assert_eq!(texts, strings(&["3", "1", "2"]));
    assert!(should_stop(&Ok(Some(Some(true)))));
    assert!(!should_stop(&Ok(Some(Some(false)))) && !should_stop(&Ok(None)));
    assert!(!should_stop(&Err(trouble())));
}

#[test]
fn running_containers_are_stopped_before_the_network_is_removed() {
    let names = teardown_names(&strings(&["1f", "2e"]), &strings(&["a", "b"]));
    assert_eq!(names, strings(&["1f", "2e", "a", "b"]));
    let inspected =
        vec![Ok(Some(Some(true))), Ok(Some(Some(false))), Err(trouble()), Ok(Some(Some(true)))];
    assert_eq!(names_to_stop(&names, &inspected), strings(&["1f", "b"]));
    assert!(total_teardown(vec![Ok(()), Ok(())], Ok(())).is_ok());
    let e = total_teardown(vec![Ok(()), Err(trouble())], Ok(())).err().unwrap();
    assert_eq!(e.error_stack.len(), 1);
    let removed = Err(Error::from_text("removal".to_owned()));
    let e = total_teardown(vec![Err(trouble()), Ok(())], removed).err().unwrap();
    assert!(matches!(&e.error_stack[0], ErrorKind::StringError(s) if s == "removal"));
    assert_eq!(e.error_stack.len(), 2);
}

fn super_net(output_dir: Option<&str>) -> SuperNetwork {
    SuperNetwork::create(
        "id".to_owned(),
        SuperCreateNetworkOptions {
            name: "net".to_owned(),
            driver: None,
            enable_ipv6: false,
            options: NameMap::new(),
            labels: NameMap::new(),
            overwrite_existing: false,
            output_dir_config: output_dir
                .map(|d| OutputDirConfig { output_dir: d.to_owned(), save_logs: true }),
            log_by_default: false,
        },
    )
}

#[test]
fn outputs_of_containers_have_a_directory() {
    assert_eq!(output_dir_env_var_name(), "SUPER_NETWORK_OUTPUT_DIR");
    let mut sn = super_net(Some("/out"));
    assert_eq!(sn.output_dir("a"), Some("/out/a".to_owned()));
    sn.add_container(image(), SuperNetworkContainerOptions::default(), options("a", true));
    let live = &sn.containers.values[0];
    assert_eq!(
        live.container_opts.volumes,
        vec![("/out/a".to_owned(), "/super_out".to_owned())]
    );
    assert_eq!(
        live.container_opts.env_vars,
        strings(&["SUPER_NETWORK_OUTPUT_DIR=/super_out"])
    );
    assert_eq!(live.log_file(true), Some("/out/a/super_log".to_owned()));
    match sn.image_step(AddContainerOptions::Container(image())) {
        ImageStep::BuildFile(f) => assert_eq!(f.content_extend, b"\nRUN mkdir /super_out"),
        _ => unreachable!(),
    }
    {
        let config = sn.start_container("a").ok().unwrap().unwrap();
        assert!(config.hostname.is_none());
    }
    assert!(sn.start_container("a").ok().unwrap().is_none());
    assert!(sn.start_container("b").is_err());
    assert!(sn.check_add("a").is_err() && sn.check_add("").is_err() && sn.check_add("b").is_ok());
    assert_eq!(sn.wait_important(), strings(&["a"]));
    assert_eq!(sn.teardown(), strings(&["a"]));
}

#[test]
fn output_directories_are_checked() {
    assert!(SuperNetwork::check_output_dir("/out/a", "a", DirOutcome::Created).is_ok());
    assert!(SuperNetwork::check_output_dir("/out/a", "a", DirOutcome::AlreadyExists).is_ok());
    assert_eq!(
        only_text(&SuperNetwork::check_output_dir("/", "a", DirOutcome::AlreadyExists).err().unwrap()),
        "Trying to create output_dir at / for a"
    );
    assert_eq!(
        only_text(&SuperNetwork::check_output_dir("/o", "a", DirOutcome::Failed).err().unwrap()),
        "Problems creating output_dir (/o) for container a"
    );
    let mut sn = super_net(None);
    sn.add_container(image(), SuperNetworkContainerOptions::default(), options("a", false));
    assert!(sn.containers.values[0].container_opts.volumes.is_empty());
    assert!(sn.containers.values[0].output_dir.is_none());
    assert!(sn.wait_important().is_empty());
}

#[test]
fn docker_files_start_from_a_tarball() {
    let mut t = Tarball::default();
    assert!(t.append_file_bytes("a/b.txt", 0o644, b"hello").is_ok());
    let bytes = t.into_tarball().ok().unwrap();
    let base = Dockerfile::name_tag("fedora:38");
    let f = SuperDockerFile::new_with_tar(base, None, bytes.clone()).ok().unwrap();
    assert_eq!(f.tarball.paths, strings(&["a/b.txt"]));
    assert_eq!(f.tarball.written, bytes);
    let mut opts = SuperBuildImageOptionsWrapper::default();
    opts.nocache = true;
    let f = f.with_build_path("./build".to_owned()).with_build_opts(opts);
    assert_eq!(f.build_path, Some("./build".to_owned()));
    assert!(f.build_opts.nocache);
    let (args, _) = f.into_bollard_args(Ok(vec![])).ok().unwrap();
    assert!(args.opts.nocache);
    let base = Dockerfile::name_tag("fedora:38");
    assert!(SuperDockerFile::new_with_tar(base, None, vec![1; 700]).is_err());
}
