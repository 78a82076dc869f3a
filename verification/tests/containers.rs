use serverbox::json::parse_json;
use serverbox::models::{DockerCreateInput, LogsRequest};
use serverbox::providers::docker::{
    attach_usage, check_create, check_docker_action, check_image, check_inspect, check_section,
    collection_arguments, container_of, create_outcome, docker_action, docker_create,
    docker_inspect, docker_pull, docker_snapshot, image_of, log_outcome, network_of,
    parse_docker_collection, parse_human_size, parse_pair_sizes, pull_outcome, stats_of, volume_of,
    RunOutcome,
};
use serverbox::providers::logs::{
    compose_logs_arguments, container_access_command, docker_logs_command, docker_since_argument,
    docker_since_shell_argument, inside_container, journal_grep_pattern, log_access_command,
    log_command, log_lines, resolved_log_source, system_log_command, tail_command,
    validate_log_path, validate_simple_log_name, LogPlan,
};
use serverbox::providers::runtimes::{
    access_command, check_container, container_exec, docker_runtime, ensure_container_running,
    judge_runtime, resolve_container_shell_privileged, resolve_container_terminal_shell,
    running_probe, runtime_candidates, runtime_probe, runtime_shell_probe, shell_at,
    ContainerRuntimeAccess, ProbeVerdict, RunningAction, RunningEvent, RuntimeProbe, ShellAction,
    ShellEvent, CONTAINER_NOT_RUNNING, CONTAINER_PERMISSION, NO_RUNTIME, NO_SHELL,
};
use serverbox::ssh::ExecOutput;
use serverbox::text::chars_of;
use serverbox::tier3::compose::{
    check_compose_action, compose_action, compose_command, compose_exec_arguments,
    compose_metadata, compose_outcome, ensure_compose_service_running, parse_compose_scan,
    service_probe, ComposePlan,
};

fn ran(stdout: &str, stderr: &str, exit_code: i32) -> ExecOutput {
    ExecOutput { stdout: stdout.to_string(), stderr: stderr.to_string(), exit_code }
}

fn request(source: &str) -> LogsRequest {
    LogsRequest {
        source: source.to_string(),
        service: None,
        container: None,
        compose_path: None,
        file_path: None,
        lines: 100,
        since: None,
        query: None,
        severity: None,
    }
}

fn some(text: &str) -> Option<String> {
    Some(text.to_string())
}

#[test]
fn sizes_of_containers_have_binary_units() {
    for (text, number, multiplier) in [
        ("1.5GiB", "1.5", 1_073_741_824),
        (" 3 kB ", "3", 1000),
        ("12MB", "12", 1_000_000),
        ("7", "7", 1),
        ("9b", "9", 1),
        ("2TiB", "2", 1_099_511_627_776),
    ] {
        let size = parse_human_size(&chars_of(text));
        assert_eq!((size.number.as_str(), size.multiplier), (number, multiplier), "{text}");
    }
    let (used, limit) = parse_pair_sizes("1MiB / 2GiB");
    assert_eq!(used.number, "1");
    assert_eq!(limit.map(|size| size.multiplier), Some(1_073_741_824));
    assert_eq!(parse_pair_sizes("5B").1, None);
}

#[test]
fn resources_are_read_from_json() {
    let json = |text: &str| parse_json(text).unwrap();
    let container = container_of(&json("{\"Id\":\"1\",\"Names\":\"web\",\"Image\":\"nginx\",\"State\":\"running\",\"Ports\":5}"));
    assert_eq!((container.id.as_str(), container.name.as_str(), container.ports.as_str()), ("1", "web", ""));
    assert_eq!(container.usage, None);
    let stats = stats_of(&json("{\"ID\":\"1\",\"Name\":\"web\",\"CPUPerc\":\" 5% \",\"MemUsage\":\"1MiB / 2GiB\",\"MemPerc\":\"7%\",\"NetIO\":\"1B / 2B\",\"BlockIO\":\"\"}"));
    assert_eq!(stats.usage.cpu_percent, "5");
    assert_eq!(stats.usage.memory_percent, "7");
    assert_eq!(stats.usage.memory_usage.number, "1");
    let joined = attach_usage(vec![container], &[stats]);
    assert!(joined[0].usage.is_some());
    let image = image_of(&json("{\"ID\":\"i\",\"Repository\":\"r\",\"Tag\":\"t\",\"Size\":\"1MB\",\"CreatedAt\":\"then\"}"));
    assert_eq!((image.repository.as_str(), image.created.as_str()), ("r", "then"));
    let volume = volume_of(&json("{\"Name\":\"v\",\"Driver\":\"local\",\"Mountpoint\":\"/x\"}"));
    assert_eq!((volume.name.as_str(), volume.mountpoint.as_str()), ("v", ""));
    let network = network_of(&json("{\"ID\":\"n\",\"Name\":\"bridge\",\"Driver\":\"d\",\"Scope\":\"local\"}"));
    assert_eq!((network.id.as_str(), network.scope.as_str()), ("n", "local"));
}

#[test]
fn collections_are_framed() {
    let output = "__SERVERBOX_DOCKER_ITEMS_V1__\n{\"ID\":\"1\",\"Names\":\"a\"}\nbroken\n{\"ID\":\"2\",\"Names\":\"b\"}\n__SERVERBOX_DOCKER_STATS_V1__\n{\"ID\":\"2\",\"CPUPerc\":\"1%\"}\n";
    let (items, stats) = parse_docker_collection(output).unwrap();
    assert_eq!(stats, "{\"ID\":\"2\",\"CPUPerc\":\"1%\"}\n");
    let page = docker_snapshot("docker", "containers", &items, &stats, 5);
    assert_eq!(page.containers.len(), 2);
    assert!(page.containers[0].usage.is_none() && page.containers[1].usage.is_some());
    assert!(!page.has_more);
    assert!(docker_snapshot("docker", "images", &items, "", 1).has_more);
    assert_eq!(docker_snapshot("podman", "networks", &items, "", 9).networks.len(), 2);
    assert_eq!(
        parse_docker_collection("x"),
        Err("The container runtime returned an invalid resource response".to_string())
    );
    assert_eq!(
        parse_docker_collection("__SERVERBOX_DOCKER_ITEMS_V1__\nx"),
        Err("The container runtime returned an incomplete resource response".to_string())
    );
    assert_eq!(check_section("volumes"), Ok(()));
    assert_eq!(check_section("pods"), Err("Unknown Docker section".to_string()));
    assert_eq!(collection_arguments("docker", "images", 5, 10), vec!["docker", "images", "5", "10"]);
}

#[test]
fn docker_commands_are_composed() {
    assert_eq!(check_docker_action("stop", "x"), Ok(()));
    assert_eq!(check_docker_action("kill", "x"), Err("Unsupported Docker action".to_string()));
    assert_eq!(check_docker_action("stop", " "), Err("Choose a Docker resource first".to_string()));
    assert_eq!(docker_action("docker", "rmi", "x"), "docker image rm 'x'");
    assert_eq!(docker_action("podman", "volume-create", "x"), "podman volume create 'x'");
    assert_eq!(docker_action("docker", "network-rm", "x"), "docker network rm 'x'");
    assert_eq!(docker_action("docker", "pause", "x"), "docker pause 'x'");
    assert_eq!(check_inspect("x", "image"), Ok(()));
    assert_eq!(check_inspect("x", "pod"), Err("Unsupported Docker resource".to_string()));
    assert_eq!(check_inspect("", "image"), Err("Choose a Docker resource first".to_string()));
    assert_eq!(docker_inspect("docker", "x", "container"), "docker inspect 'x'");
    assert_eq!(docker_inspect("docker", "x", "volume"), "docker volume inspect 'x'");
    assert_eq!(check_image(" "), Err("Enter an image name".to_string()));
    assert_eq!(docker_pull("docker", "a/b:c"), "docker pull 'a/b:c'");
}

#[test]
fn containers_are_created() {
    let mut input = DockerCreateInput {
        image: "nginx".to_string(),
        name: some("web"),
        command: some("echo hi"),
        ports: vec!["80:80".to_string(), " ".to_string()],
        environment: vec!["A=b".to_string()],
        volumes: vec!["/a:/b".to_string()],
        networks: vec!["net".to_string()],
        restart_policy: some("always"),
        detached: true,
        remove_on_exit: true,
        memory_limit: some("1g"),
        cpu_limit: some("2"),
    };
    assert_eq!(
        docker_create("docker", &input),
        "docker run -d --rm --name 'web' --restart 'always' --memory '1g' --cpus '2' -p '80:80' -e 'A=b' -v '/a:/b' --network 'net' 'nginx' sh -lc 'echo hi'"
    );
    assert_eq!(
        create_outcome(&input, &ran("", "sh: not found", 127)),
        RunOutcome::Failed("The image could not run the requested command through sh (exit status 127). It may be a shell-less/distroless image. Runtime detail: sh: not found".to_string())
    );
    input.command = some(" ");
    input.restart_policy = some("sometimes");
    assert!(!docker_create("docker", &input).contains("--restart"));
    assert_eq!(create_outcome(&input, &ran("", "x", 127)), RunOutcome::Failed("x".to_string()));
    assert_eq!(create_outcome(&input, &ran(" id\n", "", 0)), RunOutcome::Done("id".to_string()));
    assert_eq!(create_outcome(&input, &ran("", "permission denied", 1)), RunOutcome::NeedsRoot);
    input.image = String::new();
    assert_eq!(check_create(&input), Err("Enter a Docker image".to_string()));
    assert_eq!(pull_outcome(ran("x\n", "", 0)), RunOutcome::Done("x\n".to_string()));
    assert_eq!(pull_outcome(ran("", "gone", 1)), RunOutcome::Failed("gone".to_string()));
    assert_eq!(log_outcome(ran("", "access denied", 1)), RunOutcome::NeedsRoot);
    assert_eq!(log_outcome(ran("l", "", 0)), RunOutcome::Done("l".to_string()));
}

#[test]
fn usable_runtimes_come_first() {
    assert_eq!(runtime_candidates(true, true), vec!["docker", "podman"]);
    assert_eq!(runtime_candidates(false, true), vec!["podman"]);
    assert_eq!(runtime_probe("docker"), "docker info >/dev/null");
    assert_eq!(judge_runtime("docker", Ok(ran("", "", 0))), ProbeVerdict::Usable);
    assert_eq!(judge_runtime("docker", Ok(ran("", "permission denied", 1))), ProbeVerdict::NeedsRoot);
    assert_eq!(
        judge_runtime("docker", Ok(ran("", "down", 1))),
        ProbeVerdict::Broken("docker: down".to_string())
    );
    assert_eq!(
        judge_runtime("docker", Err("timed out".to_string())),
        ProbeVerdict::Broken("docker: timed out".to_string())
    );
    let probe = |runtime: &str, verdict: ProbeVerdict| RuntimeProbe { runtime: runtime.to_string(), verdict };
    assert_eq!(docker_runtime(&[]), Err(NO_RUNTIME.to_string()));
    assert_eq!(
        docker_runtime(&[probe("docker", ProbeVerdict::NeedsRoot), probe("podman", ProbeVerdict::Usable)]),
        Ok("podman".to_string())
    );
    assert_eq!(
        docker_runtime(&[probe("docker", ProbeVerdict::NeedsRoot), probe("podman", ProbeVerdict::Broken("x".to_string()))]),
        Ok("docker".to_string())
    );
    assert_eq!(
        docker_runtime(&[
            probe("docker", ProbeVerdict::Broken("docker: a".to_string())),
            probe("podman", ProbeVerdict::Broken("podman: b".to_string()))
        ]),
        Err("No usable container runtime is available. docker: a; podman: b".to_string())
    );
}

#[test]
fn shells_are_tried_in_order() {
    assert_eq!((shell_at(0), shell_at(3)), ("/bin/sh", "/bin/zsh"));
    assert_eq!(runtime_shell_probe("docker", "c", "/bin/sh"), "docker exec 'c' '/bin/sh' -c 'exit'");
    assert_eq!(resolve_container_terminal_shell(0, &ran("", "", 0)), ShellAction::Found(0));
    assert_eq!(resolve_container_terminal_shell(0, &ran("", "", 127)), ShellAction::Probe(1));
    assert_eq!(
        resolve_container_terminal_shell(3, &ran("", "", 126)),
        ShellAction::Fail(NO_SHELL.to_string())
    );
    assert_eq!(
        resolve_container_terminal_shell(0, &ran("", "permission denied", 1)),
        ShellAction::Fail(CONTAINER_PERMISSION.to_string())
    );
    assert_eq!(
        resolve_container_terminal_shell(0, &ran("", "broken", 1)),
        ShellAction::Fail("broken".to_string())
    );
    let step = resolve_container_shell_privileged;
    assert_eq!(step(1, ShellEvent::Ran(ran("", "permission denied", 1))), ShellAction::ProbeAsRoot(1));
    assert_eq!(step(1, ShellEvent::RanAsRoot(Ok(String::new()))), ShellAction::Found(1));
    assert_eq!(step(1, ShellEvent::RanAsRoot(Err("exit status 127".to_string()))), ShellAction::Probe(2));
    assert_eq!(step(1, ShellEvent::RanAsRoot(Err("no".to_string()))), ShellAction::Fail("no".to_string()));
}

#[test]
fn containers_run_before_a_shell_is_opened() {
    assert_eq!(check_container(" "), Err("Choose a container first".to_string()));
    assert_eq!(running_probe("docker", "c"), "docker inspect --format '{{.State.Running}}' 'c'");
    assert_eq!(
        ensure_container_running(RunningEvent::Inspected(ran("true\n", "", 0))),
        RunningAction::Running(ContainerRuntimeAccess::Direct)
    );
    assert_eq!(
        ensure_container_running(RunningEvent::Inspected(ran("false\n", "", 0))),
        RunningAction::Fail(CONTAINER_NOT_RUNNING.to_string())
    );
    assert_eq!(
        ensure_container_running(RunningEvent::Inspected(ran("", "permission denied", 1))),
        RunningAction::ProbeSudo
    );
    assert_eq!(
        ensure_container_running(RunningEvent::SudoProbed { exit_code: 1 }),
        RunningAction::Fail(CONTAINER_PERMISSION.to_string())
    );
    assert_eq!(
        ensure_container_running(RunningEvent::SudoProbed { exit_code: 0 }),
        RunningAction::InspectAsRoot
    );
    assert_eq!(
        ensure_container_running(RunningEvent::InspectedAsRoot(ran("true", "", 0))),
        RunningAction::Running(ContainerRuntimeAccess::PasswordlessSudo)
    );
    let exec = container_exec("docker", "c", "/bin/sh", ContainerRuntimeAccess::PasswordlessSudo);
    assert_eq!(exec.command, "exec sudo -n docker exec -it 'c' '/bin/sh'");
    assert_eq!(exec.shell, "/bin/sh");
    assert_eq!(access_command("x y", ContainerRuntimeAccess::Direct), "x y");
    assert_eq!(access_command("x y", ContainerRuntimeAccess::PasswordlessSudo), "sudo -n sh -c 'x y'");
}

#[test]
fn searches_are_literal() {
    assert_eq!(journal_grep_pattern("a.b*[c]"), "a\\.b\\*\\[c\\]");
    assert_eq!(journal_grep_pattern("plain"), "plain");
    assert_eq!(journal_grep_pattern("\\^$|(){}+?"), "\\\\\\^\\$\\|\\(\\)\\{\\}\\+\\?");
}

#[test]
fn times_are_passed_on() {
    assert_eq!(docker_since_argument(&None), Ok(None));
    assert_eq!(docker_since_argument(&some(" ")), Ok(None));
    assert_eq!(docker_since_argument(&some("1 hour ago")), Ok(some("1h")));
    assert_eq!(docker_since_argument(&some("a\nb")), Err("Invalid log time filter".to_string()));
    assert_eq!(docker_since_shell_argument(&some("2h")), Ok(some("'2h'")));
    assert_eq!(
        docker_since_shell_argument(&some("today")),
        Ok(some("\"$(date '+%Y-%m-%dT00:00:00%z' | sed 's/\\([+-][0-9][0-9]\\)\\([0-9][0-9]\\)$/\\1:\\2/')\""))
    );
    assert_eq!((log_lines(0, false), log_lines(0, true), log_lines(9999, true)), (1, 0, 5000));
}

#[test]
fn log_sources_are_resolved() {
    let mut asked = request("system");
    assert_eq!(resolved_log_source(&asked), "system");
    asked.container = some("c");
    assert_eq!(resolved_log_source(&asked), "container");
    asked.compose_path = some("/p");
    assert_eq!(resolved_log_source(&asked), "compose");
    asked.file_path = some("/f");
    assert_eq!(resolved_log_source(&asked), "file");
    asked.file_path = some(" ");
    assert_eq!(resolved_log_source(&asked), "compose");
    assert_eq!(validate_log_path("/var/log/x"), Ok(()));
    assert_eq!(validate_log_path("x"), Err("Enter an absolute log file path".to_string()));
    assert_eq!(validate_simple_log_name("a-b_c.1", "x"), Ok(()));
    assert_eq!(validate_simple_log_name("a b", "Compose service"), Err("Invalid Compose service".to_string()));
}

#[test]
fn container_logs_are_followed() {
    assert_eq!(
        docker_logs_command("docker", "c", 50, &some("2h"), false),
        Ok("docker logs --tail 50 --since '2h' 'c'".to_string())
    );
    assert_eq!(
        docker_logs_command("docker", "c", 0, &None, true),
        Ok("docker logs --follow --tail 0 'c'".to_string())
    );
    assert_eq!(docker_logs_command("docker", "c", 0, &None, false), Ok("docker logs --tail 1 'c'".to_string()));
    assert_eq!(
        compose_logs_arguments(5, &some("1h"), &some(" web "), true),
        Ok("logs --tail 5 --follow --since '1h' 'web'".to_string())
    );
    assert_eq!(
        compose_logs_arguments(5, &None, &some("a b"), true),
        Err("Invalid Compose service".to_string())
    );
    assert_eq!(tail_command("/f", 5, false), "tail -n 5  -- '/f'");
    assert_eq!(tail_command("/f", 5, true), "tail -n 5 -F -- '/f'");
    assert_eq!(
        inside_container("docker", "c", "/bin/sh", "tail"),
        "docker exec 'c' '/bin/sh' -c 'tail'"
    );
}

#[test]
fn log_commands_fit_their_source() {
    let mut asked = request("docker");
    assert_eq!(log_command(&asked, false), Err("Choose a container first".to_string()));
    asked.container = some(" c ");
    assert_eq!(log_command(&asked, false), Ok(LogPlan::Runtime { container: "c".to_string() }));
    asked.file_path = some("/var/log/x");
    assert_eq!(
        log_command(&asked, true),
        Ok(LogPlan::Shell {
            container: "c".to_string(),
            command: "tail -n 100 -F -- '/var/log/x'".to_string(),
        })
    );
    asked.container = None;
    assert_eq!(log_command(&asked, false), Ok(LogPlan::Ready("tail -n 100  -- '/var/log/x'".to_string())));
    asked.file_path = some("x");
    assert_eq!(log_command(&asked, false), Err("Enter an absolute log file path".to_string()));
    assert_eq!(log_command(&request("compose"), false), Err("Choose a Compose project first".to_string()));
    let mut project = request("compose");
    project.compose_path = some("/a\nb");
    assert_eq!(log_command(&project, false), Err("Choose a valid Compose file".to_string()));
    project.compose_path = some("/p.yml");
    assert_eq!(
        log_command(&project, false),
        Ok(LogPlan::Ready(compose_command("/p.yml", "logs --tail 100")))
    );
    assert_eq!(log_command(&request("system"), true), Ok(LogPlan::Capabilities));
    assert_eq!(log_command(&request("mail"), true), Err("Unsupported log source".to_string()));
}

#[test]
fn system_logs_are_filtered() {
    let mut asked = request("system");
    asked.service = some(" ssh ");
    asked.since = some("today");
    asked.query = some("a.b");
    asked.severity = some("warn");
    assert_eq!(
        system_log_command(&asked, true, false, true),
        Ok("journalctl -n 100 --no-pager -o short-iso --follow -u 'ssh' --since 'today' --grep 'a\\.b' -p warning".to_string())
    );
    asked.severity = some("loud");
    assert_eq!(system_log_command(&asked, true, false, true), Err("Unsupported log severity".to_string()));
    assert_eq!(system_log_command(&asked, false, true, false), Ok("logread -l 100".to_string()));
    assert_eq!(
        system_log_command(&asked, false, true, true),
        Err("Live streaming is unavailable for this syslog buffer".to_string())
    );
    assert_eq!(
        system_log_command(&asked, false, false, false),
        Err("No supported system log source is available on this server".to_string())
    );
}

#[test]
fn access_is_probed_at_the_same_place() {
    assert_eq!(
        log_access_command(&request("system")),
        Ok(LogPlan::Ready("journalctl -n 1 --no-pager >/dev/null".to_string()))
    );
    assert_eq!(container_access_command("docker", "c"), "docker inspect 'c' >/dev/null");
    let mut asked = request("file");
    asked.file_path = some("/f");
    assert_eq!(
        log_access_command(&asked),
        Ok(LogPlan::Ready("if [ ! -e '/f' ] || [ -r '/f' ]; then exit 0; else echo 'Permission denied' >&2; exit 1; fi".to_string()))
    );
    let mut project = request("x");
    project.compose_path = some("/p");
    assert_eq!(
        log_access_command(&project),
        Ok(LogPlan::Ready(format!("{} >/dev/null", compose_command("/p", "ps"))))
    );
    assert_eq!(log_access_command(&request("x")), Err("Unsupported log source".to_string()));
}

#[test]
fn compose_projects_are_scanned() {
    let text = "__SERVERBOX_COMPOSE_MODE__\tservices\n\n__SERVERBOX_COMPOSE_PROJECT__\t/srv/shop/compose.yml\n\n__SERVERBOX_COMPOSE_SERVICES__\nweb\ndb\n\n__SERVERBOX_COMPOSE_CONFIG__\n{\"services\":{\"web\":{\"depends_on\":[\"db\"],\"environment\":[\"KEY=secret\"]},\"db\":{\"environment\":{\"PASS\":\"x\"}}}}\n\n__SERVERBOX_COMPOSE_RUNNING__\nweb\n\n__SERVERBOX_COMPOSE_PROJECT__\t/empty.yml\n\n__SERVERBOX_COMPOSE_SERVICES__\n\n";
    let projects = parse_compose_scan(text);
    assert_eq!(projects.len(), 1);
    let shop = &projects[0];
    assert_eq!((shop.name.as_str(), shop.path.as_str(), shop.running), ("shop", "/srv/shop/compose.yml", 1));
    assert_eq!(shop.services, vec!["web", "db"]);
    assert_eq!(shop.topology, vec!["web \u{2192} db"]);
    assert_eq!(shop.environment, vec!["db: PASS", "web: KEY"]);
    assert!(!format!("{shop:?}").contains("secret"));
    let states = text.replace("\tservices", "\tstates").replace("RUNNING__\nweb", "RUNNING__\nRunning\nexited");
    assert_eq!(parse_compose_scan(&states)[0].running, 1);
    assert!(parse_compose_scan("__SERVERBOX_COMPOSE_MODE__\tnone\n").is_empty());
    assert!(parse_compose_scan("").is_empty());
    let (topology, environment) = compose_metadata("services:\n  a:\n    depends_on:\n      b:\n        condition: x\n    environment:\n      - K\n");
    assert_eq!(topology, vec!["a \u{2192} b"]);
    assert_eq!(environment, vec!["a: K"]);
    assert_eq!(compose_metadata("]["), (Vec::new(), Vec::new()));
}

#[test]
fn compose_actions_are_planned() {
    assert_eq!(check_compose_action("/p", "up", &None), Ok(()));
    assert_eq!(check_compose_action(" ", "up", &None), Err("Choose a valid Compose file".to_string()));
    assert_eq!(check_compose_action("/p", "kill", &None), Err("Unsupported Compose action".to_string()));
    assert_eq!(check_compose_action("/p", "up", &some("a b")), Err("Invalid service name".to_string()));
    let plan = |action: &str, service: Option<String>, command: Option<String>| {
        compose_action(action, &service, &command, None, &None)
    };
    assert_eq!(plan("up", None, None), Ok(ComposePlan::Run("up -d".to_string())));
    assert_eq!(plan("rebuild", None, None), Ok(ComposePlan::Run("up -d --build".to_string())));
    assert_eq!(plan("restart", some("web"), None), Ok(ComposePlan::Run("restart 'web'".to_string())));
    assert_eq!(plan("restart", None, None), Ok(ComposePlan::Run("restart ".to_string())));
    assert_eq!(plan("logs", None, None), Ok(ComposePlan::Run("logs --tail 300 ".to_string())));
    assert_eq!(
        compose_action("logs", &some("web"), &None, Some(9999), &some("1 hour ago")),
        Ok(ComposePlan::Run("logs --tail 5000 --since '1h' 'web'".to_string()))
    );
    assert_eq!(plan("exec", None, None), Err("Choose a Compose service".to_string()));
    assert_eq!(plan("exec", some("web"), some(" ")), Err("Enter a command".to_string()));
    assert_eq!(
        plan("exec", some("web"), some("ls")),
        Ok(ComposePlan::Exec { service: "web".to_string(), command: "ls".to_string() })
    );
    assert_eq!(plan("scale", None, some("web=2")), Ok(ComposePlan::Run("up -d --scale 'web=2'".to_string())));
    assert_eq!(plan("scale", None, some("web")), Err("Enter scale as service=count".to_string()));
    assert_eq!(compose_exec_arguments("web", "/bin/sh", "ls"), "exec -T 'web' '/bin/sh' -c 'ls'");
    assert_eq!(service_probe("/p", "web"), compose_command("/p", "ps -q 'web'"));
    assert_eq!(ensure_compose_service_running("web", "id\n"), Ok(()));
    assert_eq!(
        ensure_compose_service_running("web", " \n"),
        Err("Start web before running a command.".to_string())
    );
    assert_eq!(compose_outcome("up", ran("out", "err", 0)), RunOutcome::Done("outerr".to_string()));
    assert_eq!(compose_outcome("logs", ran("out", "err", 0)), RunOutcome::Done("out".to_string()));
    assert_eq!(compose_outcome("up", ran("", "permission denied", 1)), RunOutcome::NeedsRoot);
    assert_eq!(compose_outcome("up", ran("", "bad", 1)), RunOutcome::Failed("bad".to_string()));
    assert!(compose_command("/a b", "ps").contains("docker compose -f '/a b' ps; elif"));
}

#[test]
fn scans_of_two_blocks_are_read_apart() {
    let head = "__SERVERBOX_COMPOSE_MODE__\tservices\n";
    let block = |name: &str| {
        format!(
            "__SERVERBOX_COMPOSE_PROJECT__\t/srv/{name}/compose.yml\n__SERVERBOX_COMPOSE_SERVICES__\n{name}\n__SERVERBOX_COMPOSE_RUNNING__\n{name}\n"
        )
    };
    let (a, b) = (block("one"), block("two"));
    let mut apart = parse_compose_scan(&format!("{head}{a}"));
    apart.extend(parse_compose_scan(&format!("{head}{b}")));
    assert_eq!(parse_compose_scan(&format!("{head}{a}{b}")), apart);
    assert_eq!(apart.len(), 2);
}

#[test]
fn values_of_variables_are_not_shown() {
    let config = |mapped: &str, listed: &str| {
        format!(
            "services:\n  a:\n    environment:\n      TOKEN: {mapped}\n  b:\n    environment:\n      - KEY={listed}\n    depends_on:\n      - a\n"
        )
    };
    let shown = compose_metadata(&config("first", "one=two"));
    assert_eq!(shown, compose_metadata(&config("second", "three")));
    assert_eq!(shown.0, vec!["b \u{2192} a".to_string()]);
    assert_eq!(shown.1, vec!["a: TOKEN".to_string(), "b: KEY".to_string()]);
}
