use serverbox::models::{CronJobInput, UserCreateInput};
use serverbox::providers::accounts::{
    account_action, accounts, create_user, guard_account_action, new_password,
    reset_user_password, validate_account_name,
};
use serverbox::providers::cron_jobs::{
    check_cron_action, check_cron_job, cron_action, cron_job_line, cron_jobs, cron_line_id,
    human_cron, next_cron_run, next_cron_run_after, parse_user_crontab, plan_cron_job,
    replace_cron_line, save_cron_job, validate_cron, CRON_JOB_GONE,
};
use serverbox::providers::dashboard::{
    connect, dashboard, dashboard_at, parse_cpu_time, parse_disks, parse_memory, parse_network,
    parse_swap, parse_uptime, DashboardCard,
};
use serverbox::providers::packages::{
    check_manager, package_action, package_details, packages, packages_command,
    validate_package_name, PackageOutput, INSTALLED_COMMAND,
};
use serverbox::providers::ports::{ports, ports_command, socket_tool, SocketTool};
use serverbox::providers::processes::{
    direct_outcome, processes, processes_command, signal_process, DirectOutcome,
};
use serverbox::providers::services::{
    details_commands, parse_services, service_action, service_details, services, services_command,
    states_command, validate_unit_name,
};
use serverbox::ssh::ExecOutput;
use serverbox::text::chars_of;

fn printed(stdout: &str, stderr: &str, exit_code: i32) -> ExecOutput {
    ExecOutput { stdout: stdout.to_string(), stderr: stderr.to_string(), exit_code }
}

#[test]
fn cpu_time_is_the_difference_of_two_samples() {
    let time = parse_cpu_time("10 0 10 70 10 0 0 0", "20 0 20 100 10 0 0 0");
    assert_eq!((time.busy, time.total), (20, 50));
    let none = parse_cpu_time("1 2 3", "4 5 6");
    assert_eq!(none.busy, 0);
    let back = parse_cpu_time("20 0 20 100 10", "10 0 10 70 10");
    assert_eq!(back.total, 0);
}

#[test]
fn memory_is_read_in_kibibytes() {
    let memory = parse_memory("MemTotal: 1000 kB\nMemFree: 100 kB\nMemAvailable: 400 kB\n");
    assert_eq!((memory.total_bytes, memory.free_bytes, memory.used_bytes), (1024000, 409600, 614400));
    let old = parse_memory(
        "MemTotal: 1000 kB\nMemFree: 100 kB\nBuffers: 50 kB\nCached: 200 kB\nSReclaimable: 30 kB\nShmem: 80 kB\n",
    );
    assert_eq!(old.free_bytes, 300 * 1024);
    assert_eq!(parse_memory("").total_bytes, 0);
    let swap = parse_swap("SwapTotal: 10 kB\nSwapFree: 4 kB\n");
    assert_eq!((swap.total_bytes, swap.used_bytes), (10240, 6144));
}

#[test]
fn disks_and_networks_are_listed() {
    let disks = parse_disks(
        "head\n/dev/a 100 40 60 40% /\n/dev/b 0 0 0 - /none\nshort\n/dev/c 8 1 7 x% /my disk\n",
    );
    let mounts: Vec<&str> = disks.iter().map(|disk| disk.mount.as_str()).collect();
    assert_eq!(mounts, vec!["/", "/my disk"]);
    assert_eq!(disks[0].used_bytes, 40960);
    assert_eq!((disks[0].percent.as_str(), disks[1].percent.as_str()), ("40", "x"));
    let many: String = (0..30).map(|n| format!("/dev/{n} 1 0 1 0% /m{n}\n")).collect();
    assert_eq!(parse_disks(&format!("head\n{many}")).len(), 20);
    let found = parse_network(
        "2: eth0    inet 10.0.0.2/24 scope global\n2: eth0 inet6 fd00::2/64 scope global\n3: lo nothing here at all\n",
    );
    assert_eq!(found.len(), 1);
    assert_eq!(found[0].name, "eth0");
    assert_eq!(found[0].addresses, vec!["10.0.0.2/24", "fd00::2/64"]);
    let plain = parse_network("10.0.0.2 fd00::2\n");
    assert_eq!(plain[0].name, "network");
    assert_eq!(plain[0].addresses.len(), 2);
    assert!(parse_network(" \n").is_empty());
    let (seconds, load) = parse_uptime("3600\n0.5 0.25 0.1 1/100 99\n");
    assert_eq!(seconds, 3600);
    assert_eq!(load, vec!["0.5", "0.25", "0.1"]);
    assert_eq!(parse_uptime("").0, 0);
}

#[test]
fn overviews_have_six_cards() {
    let text = "\n__SERVERBOX_OVERVIEW_V1__profile\nhostname\tweb\nkernel\t6.1\n\n__SERVERBOX_OVERVIEW_V1__capabilities\ndistro\tDebian\narchitecture\tarm64\n\n__SERVERBOX_OVERVIEW_V1__memory\nMemTotal: 2 kB\nSwapTotal: 1 kB\n\n__SERVERBOX_OVERVIEW_V1__storage\nhead\n/dev/a 1 0 1 0% /\n\n__SERVERBOX_OVERVIEW_V1__uptime\n7\n1 2 3\n\n__SERVERBOX_OVERVIEW_V1__network\n1.2.3.4\n\n__SERVERBOX_OVERVIEW_V1__cpu\nbefore\t1 0 0 0 0\nafter\t2 0 0 1 0\ncores\t0\nmodel\t  \n";
    let cards = dashboard_at("s", text, "now");
    assert_eq!(cards.len(), 6);
    match &cards[0] {
        DashboardCard::Profile { summary } => {
            assert_eq!(summary.hostname, "web");
            assert_eq!(summary.os, "Debian");
            assert_eq!(summary.kernel, "6.1");
            assert_eq!(summary.architecture, "arm64");
            assert_eq!(summary.connected_at, "now");
        }
        other => panic!("{other:?}"),
    }
    match &cards[1] {
        DashboardCard::Cpu { time, cpu_cores, cpu_model } => {
            assert_eq!((time.busy, time.total), (1, 2));
            assert_eq!(*cpu_cores, 1);
            assert_eq!(cpu_model, "Unknown CPU");
        }
        other => panic!("{other:?}"),
    }
    match &dashboard_at("s", "", "now")[0] {
        DashboardCard::Profile { summary } => {
            assert_eq!((summary.hostname.as_str(), summary.os.as_str()), ("unknown", "Linux"));
        }
        other => panic!("{other:?}"),
    }
    match &dashboard("s", text)[0] {
        DashboardCard::Profile { summary } => assert!(summary.connected_at.contains('T')),
        other => panic!("{other:?}"),
    }
    let connection = connect("s");
    assert_eq!(connection.server_id, "s");
    assert!(connection.connected_at.starts_with("20") && connection.connected_at.contains('T'));
}

#[test]
fn processes_are_read_from_either_layout() {
    let listed = processes("serverbox-eo\n 1 root 0.5 1.5 10 99 /sbin/init  splash\nshort line\nx y 1 1 1 1 1\n", 10);
    assert_eq!(listed.items.len(), 1);
    let init = &listed.items[0];
    assert_eq!((init.pid, init.user.as_str(), init.rss_bytes, init.runtime_seconds), (1, "root", 10240, 99));
    assert_eq!((init.cpu_percent.as_str(), init.memory_percent.as_str()), ("0.5", "1.5"));
    assert_eq!(init.command, "/sbin/init splash");
    let aux = processes(
        "serverbox-aux\nPID   USER     RSS COMMAND\n    1 root     4 init  x\n    2 me       bad sh\nz me 1 y\n",
        1,
    );
    assert_eq!(aux.items.len(), 1);
    assert!(aux.has_more);
    assert_eq!((aux.items[0].rss_bytes, aux.items[0].command.as_str()), (4096, "init x"));
    assert!(processes("serverbox-aux\nNAME\nx\n", 5).items.is_empty());
    assert!(processes_command(10, 5).contains("sed -n '11,16p'"));
    assert!(processes_command(10, 5).contains("sed -n '1p;12,17p'"));
}

#[test]
fn signals_go_to_a_process() {
    assert_eq!(signal_process(0, true), Err("Refusing to signal PID 0".to_string()));
    assert_eq!(signal_process(7, false), Ok("kill -TERM 7".to_string()));
    assert_eq!(signal_process(7, true), Ok("kill -KILL 7".to_string()));
    assert_eq!(direct_outcome(&printed("", "", 0)), DirectOutcome::Done);
    assert_eq!(direct_outcome(&printed("", "Operation not permitted", 1)), DirectOutcome::NeedsRoot);
    assert_eq!(
        direct_outcome(&printed("", "No such process", 1)),
        DirectOutcome::Failed("No such process".to_string())
    );
}

#[test]
fn schedules_have_five_fields() {
    assert_eq!(validate_cron("*/5 * * * *"), Ok(()));
    assert_eq!(validate_cron(" 0 0 1 1 * "), Ok(()));
    assert_eq!(
        validate_cron("* * * *"),
        Err("Cron schedules need exactly five fields".to_string())
    );
    assert_eq!(
        validate_cron("99 * * * *"),
        Err("That cron expression is not valid".to_string())
    );
    assert!(next_cron_run("* * * * *").is_some_and(|time| time.contains('T')));
    assert_eq!(next_cron_run("99 * * * *"), None);
    assert_eq!(
        next_cron_run_after("30 4 * * *", "2026-03-01T05:00:00+00:00"),
        Some("2026-03-02T04:30:00+00:00".to_string())
    );
    assert_eq!(
        next_cron_run_after("30 4 * * *", "2026-03-01T05:00:00+01:00"),
        Some("2026-03-01T04:30:00+00:00".to_string())
    );
    assert_eq!(next_cron_run_after("30 4 * *", "2026-03-01T05:00:00+00:00"), None);
    assert_eq!(next_cron_run_after("30 4 * * *", "noon"), None);
    assert_eq!(human_cron(" * * * * * "), "Every minute");
    assert_eq!(human_cron("0 * * * *"), "Every hour");
    assert_eq!(human_cron("0 0 * * *"), "Every day at midnight");
    assert_eq!(human_cron("0 0 * * 0"), "Every Sunday at midnight");
    assert_eq!(human_cron("0 0 1 * *"), "On the first day of every month");
    assert_eq!(human_cron("*/7 * * * *"), "At a regular minute interval");
    assert_eq!(human_cron("1 2 3 4 5"), "Custom schedule");
}

#[test]
fn crontabs_are_read() {
    let text = "# comment\nMAILTO=x\n*/5 * * * * echo  hi # serverbox:user:1\n# SERVERBOX_DISABLED 0 0 * * * backup # serverbox:user:2\n0 1 * * * plain\nshort\n";
    let jobs = parse_user_crontab(text, "me");
    assert_eq!(jobs.len(), 3);
    assert_eq!(jobs[0].id, "user:1");
    assert_eq!((jobs[0].schedule.as_str(), jobs[0].command.as_str()), ("*/5 * * * *", "echo hi"));
    assert!(jobs[0].enabled && jobs[0].editable);
    assert_eq!((jobs[1].id.as_str(), jobs[1].enabled), ("user:2", false));
    assert_eq!(jobs[1].human_schedule, "Every day at midnight");
    assert_eq!(jobs[2].id, "user:line:4");
    assert_eq!(jobs[2].source, "User crontab");
    let all = cron_jobs(
        text,
        "me",
        "/etc/crontab\t17 * * * * root run-parts /x\n/etc/crontab\tSHELL=/bin/sh\nno tab\n/etc/cron.d/y\t0 0 * * * root\n",
    );
    assert_eq!(all.len(), 4);
    assert_eq!(all[3].id, "system:/etc/crontab:0");
    assert_eq!((all[3].user.as_str(), all[3].command.as_str(), all[3].editable), ("root", "run-parts /x", false));
}

#[test]
fn job_lines_carry_their_id() {
    let line = cron_job_line("user:9", " * * * * * ", " ls ", true);
    assert_eq!(line, "* * * * * ls # serverbox:user:9");
    assert_eq!(
        cron_job_line("user:9", "* * * * *", "ls", false),
        "# SERVERBOX_DISABLED * * * * * ls # serverbox:user:9"
    );
    assert_eq!(cron_line_id(&chars_of(&line), 3), "user:9");
    assert_eq!(cron_line_id(&chars_of("x # serverbox:other"), 3), "user:line:3");
    assert_eq!(cron_line_id(&chars_of("x"), 0), "user:line:0");
}

#[test]
fn jobs_are_added_replaced_and_removed() {
    let text = "a\nb # serverbox:user:1\n";
    assert_eq!(replace_cron_line(text, None, Some("new")), Ok("a\nb # serverbox:user:1\nnew\n".to_string()));
    assert_eq!(replace_cron_line(text, Some("user:1"), Some("new")), Ok("a\nnew\n".to_string()));
    assert_eq!(replace_cron_line(text, Some("user:line:0"), None), Ok("b # serverbox:user:1\n".to_string()));
    assert_eq!(replace_cron_line(text, Some("user:2"), None), Err(CRON_JOB_GONE.to_string()));
    let mut input = CronJobInput {
        id: None,
        schedule: "0 * * * *".to_string(),
        command: "ls".to_string(),
        enabled: true,
    };
    assert_eq!(
        plan_cron_job(&input, "a\n", "fresh"),
        Ok("a\n0 * * * * ls # serverbox:user:fresh\n".to_string())
    );
    let saved = save_cron_job(&input, "").unwrap();
    assert!(saved.contains("0 * * * * ls # serverbox:user:"));
    input.id = Some("user:1".to_string());
    assert_eq!(
        plan_cron_job(&input, text, "fresh"),
        Ok("a\n0 * * * * ls # serverbox:user:1\n".to_string())
    );
    assert_eq!(check_cron_job(&input), Ok(()));
    for bad in ["", " ", "a\nb", "a\rb"] {
        input.command = bad.to_string();
        assert_eq!(check_cron_job(&input), Err("Enter a single-line cron command".to_string()));
    }
}

#[test]
fn switching_a_job_off_is_undone_by_switching_it_on() {
    let text = "* * * * * ls # serverbox:user:1\n";
    let off = cron_action("user:1", "disable", text).unwrap();
    assert_eq!(off, "# SERVERBOX_DISABLED * * * * * ls # serverbox:user:1\n");
    assert_eq!(cron_action("user:1", "enable", &off), Ok(text.to_string()));
    assert_eq!(cron_action("user:1", "delete", text), Ok("\n".to_string()));
    assert_eq!(cron_action("user:2", "delete", text), Err(CRON_JOB_GONE.to_string()));
    assert_eq!(check_cron_action("user:1", "enable"), Ok(()));
    assert_eq!(check_cron_action("system:x:1", "delete"), Err("Unsupported cron action".to_string()));
    assert_eq!(check_cron_action("user:1", "run"), Err("Unsupported cron action".to_string()));
}

#[test]
fn packages_know_their_upgrades() {
    let apt = "Package management currently supports Debian and Ubuntu APT servers";
    assert_eq!(check_manager(&Some("apt-get".to_string())), Ok(()));
    assert_eq!(check_manager(&Some("dnf".to_string())), Err(apt.to_string()));
    assert_eq!(check_manager(&None), Err(apt.to_string()));
    let output = PackageOutput {
        upgradable: "Listing...\nbash/stable 5.2 amd64 [upgradable from: 5.1]\nlibc6:i386/stable 2.36 i386\n".to_string(),
        listing: "bash\t5.1\tamd64\tGNU shell\nlibc6\t2.35\ti386\tC library\nzlib\t1\tamd64\tz\nbroken\n".to_string(),
        installed_names: String::new(),
    };
    let page = packages("", false, 0, 2, &output);
    assert_eq!(page.manager, "APT");
    assert_eq!(page.pending_upgrades, 2);
    assert!(page.packages.has_more);
    assert_eq!(page.packages.items[0].upgrade_version, Some("5.2".to_string()));
    assert_eq!(page.packages.items[1].upgrade_version, Some("2.36".to_string()));
    assert!(page.packages.items[0].installed);
    let upgrades = packages(" ", true, 1, 10, &output);
    assert_eq!(upgrades.packages.items.len(), 1);
    assert_eq!(upgrades.packages.items[0].name, "libc6");
    let search = PackageOutput {
        upgradable: String::new(),
        listing: "vim - editor - really\nno dash\nnano - small\n".to_string(),
        installed_names: "nano\n".to_string(),
    };
    let found = packages("ed", false, 0, 10, &search);
    assert_eq!(found.packages.items.len(), 2);
    assert_eq!(found.packages.items[0].description, "editor - really");
    assert!(!found.packages.items[0].installed && found.packages.items[1].installed);
    assert_eq!(packages_command(" "), INSTALLED_COMMAND);
    assert_eq!(
        packages_command(" it's "),
        "apt-cache search --names-only 'it'\\''s' 2>/dev/null || true"
    );
}

#[test]
fn package_actions_are_composed() {
    assert_eq!(validate_package_name("libc6:i386"), Ok(()));
    assert_eq!(validate_package_name("a b"), Err("Invalid package name".to_string()));
    assert_eq!(validate_package_name(""), Err("Invalid package name".to_string()));
    assert_eq!(
        package_details("vim"),
        Ok("apt-cache show 'vim' 2>/dev/null | sed -n '1,100p'".to_string())
    );
    assert_eq!(
        package_action("update", None),
        Ok("DEBIAN_FRONTEND=noninteractive apt-get update".to_string())
    );
    assert_eq!(
        package_action("upgrade-all", None),
        Ok("DEBIAN_FRONTEND=noninteractive apt-get -y upgrade".to_string())
    );
    assert_eq!(
        package_action("upgrade", Some("vim")),
        Ok("DEBIAN_FRONTEND=noninteractive apt-get -y install --only-upgrade 'vim'".to_string())
    );
    assert_eq!(
        package_action("remove", Some("vim")),
        Ok("DEBIAN_FRONTEND=noninteractive apt-get -y remove 'vim'".to_string())
    );
    assert_eq!(package_action("install", None), Err("Choose a package".to_string()));
    assert_eq!(package_action("install", Some("$x")), Err("Invalid package name".to_string()));
    assert_eq!(package_action("purge", Some("vim")), Err("Unsupported package action".to_string()));
}

#[test]
fn sockets_are_read_from_either_tool() {
    assert_eq!(socket_tool(&Some("ss".to_string())), Ok(SocketTool::Ss));
    assert_eq!(socket_tool(&Some("netstat".to_string())), Ok(SocketTool::Netstat));
    assert_eq!(
        socket_tool(&Some("lsof".to_string())),
        Err("Unsupported network tool: lsof".to_string())
    );
    assert_eq!(
        socket_tool(&None),
        Err("No supported network socket tool is available on this server".to_string())
    );
    assert_eq!(ports_command(SocketTool::Ss, 5, 10), "ss -H -tunap 2>/dev/null | sed -n '6,16p'");
    assert_eq!(
        ports_command(SocketTool::Netstat, 5, 10),
        "netstat -tunap 2>/dev/null | sed -n '8,18p'"
    );
    let ss = ports(
        SocketTool::Ss,
        "tcp LISTEN 0 128 0.0.0.0:22 0.0.0.0:* users:((\"sshd\",pid=812,fd=3))\nudp UNCONN 0 0 1.1.1.1:5\nshort\n",
        10,
    );
    assert_eq!(ss.items.len(), 2);
    assert_eq!((ss.items[0].state.as_str(), ss.items[0].pid), ("LISTEN", Some(812)));
    assert_eq!(ss.items[0].local_address, "0.0.0.0:22");
    assert_eq!(ss.items[1].remote_address, "1.1.1.1:5");
    assert_eq!(ss.items[1].pid, None);
    let netstat = ports(
        SocketTool::Netstat,
        "tcp 0 0 0.0.0.0:22 0.0.0.0:* LISTEN 812/sshd: x\nudp 0 0 0.0.0.0:68 0.0.0.0:* 500/dhclient\nunix 1 2 3 4 5\ntcp6 0 0 :::80 :::* LISTEN -\n",
        10,
    );
    assert_eq!(netstat.items.len(), 3);
    assert_eq!((netstat.items[0].process.as_str(), netstat.items[0].pid), ("812/sshd: x", Some(812)));
    assert_eq!((netstat.items[1].state.as_str(), netstat.items[1].pid), ("\u{2014}", Some(500)));
    assert_eq!(netstat.items[2].pid, None);
}

#[test]
fn accounts_are_put_together() {
    let snapshot = accounts(
        "root:x:0:0:root:/root:/bin/sh\nme:x:1000:1000::/home/me:/bin/bash\nbad:x:n:0::/:/\nshort:x\n",
        "root:x:0:\nwheel:x:10:me,root\nme:x:1000:\nbad:x\n",
        "Username Port From Latest\nroot     pts/0 <10.0.0.1> Mon\nme       **Never logged in**\n",
        "root:!:1\nme:$6$x:1\n",
    );
    assert_eq!(snapshot.groups.len(), 3);
    assert_eq!(snapshot.groups[1].members, vec!["me", "root"]);
    assert_eq!(snapshot.users.len(), 2);
    assert_eq!(snapshot.users[0].groups, vec!["root", "wheel"]);
    assert_eq!(snapshot.users[0].last_login, Some("pts/0 10.0.0.1 Mon".to_string()));
    assert!(snapshot.users[0].locked && !snapshot.users[1].locked);
    assert_eq!(snapshot.users[1].groups, vec!["me", "wheel"]);
    assert_eq!(snapshot.users[1].last_login, None);
}

#[test]
fn users_are_created() {
    let mut input = UserCreateInput {
        name: "new".to_string(),
        home: Some(" ".to_string()),
        shell: Some("/bin/zsh".to_string()),
        groups: vec!["wheel".to_string(), "docker".to_string()],
        password: Some(String::new()),
    };
    assert_eq!(
        create_user(&input),
        Ok("if command -v useradd >/dev/null 2>&1; then useradd -m -s '/bin/zsh' -G 'wheel,docker' 'new'; elif [ -e /etc/alpine-release ] && command -v adduser >/dev/null 2>&1 && command -v addgroup >/dev/null 2>&1; then adduser -D -s '/bin/zsh' 'new' && addgroup 'new' 'wheel' && addgroup 'new' 'docker'; else echo 'User creation requires shadow-utils/useradd or Alpine BusyBox adduser/addgroup' >&2; exit 69; fi".to_string())
    );
    assert_eq!(new_password(&input), None);
    input.password = Some("pw".to_string());
    assert_eq!(new_password(&input), Some("new:pw\n".to_string()));
    input.groups.push("a b".to_string());
    assert_eq!(create_user(&input), Err("Invalid group".to_string()));
    input.name = "a;b".to_string();
    assert_eq!(create_user(&input), Err("Invalid username".to_string()));
    assert_eq!(validate_account_name("a.b_c-d+1", "username"), Ok(()));
    assert_eq!(reset_user_password("me", "pw"), Ok("me:pw\n".to_string()));
    assert_eq!(reset_user_password("me", ""), Err("Enter a password".to_string()));
    assert_eq!(reset_user_password("me", "a\nb"), Err("Enter a password".to_string()));
}

#[test]
fn account_actions_are_guarded() {
    assert_eq!(
        account_action("lock", "me", None),
        Ok("if command -v usermod >/dev/null 2>&1; then usermod -L 'me'; elif command -v passwd >/dev/null 2>&1; then passwd -l 'me'; else echo 'Account locking requires usermod or passwd' >&2; exit 69; fi".to_string())
    );
    assert!(account_action("unlock", "me", None).unwrap().contains("usermod -U 'me'"));
    assert!(account_action("delete-user", "me", None).unwrap().contains("userdel -r 'me'"));
    assert!(account_action("shell", "me", Some("/bin/sh")).unwrap().contains("usermod -s '/bin/sh' 'me'"));
    assert_eq!(account_action("shell", "me", None), Err("Enter a shell".to_string()));
    assert!(account_action("groups", "me", None).unwrap().contains("usermod -G '' 'me'"));
    assert!(account_action("create-group", "g", None).unwrap().contains("groupadd 'g'"));
    assert!(account_action("delete-group", "g", None).unwrap().contains("groupdel 'g'"));
    assert_eq!(account_action("create-group", "g g", None), Err("Invalid group".to_string()));
    assert_eq!(account_action("rename", "me", None), Err("Unsupported account action".to_string()));
    let refused = Err("Refusing to delete or lock root or the active SSH user".to_string());
    assert_eq!(guard_account_action("lock", "root", "me"), refused);
    assert_eq!(guard_account_action("delete-user", "me", "me"), refused);
    assert_eq!(guard_account_action("unlock", "root", "me"), Ok(()));
    assert_eq!(guard_account_action("lock", "you", "me"), Ok(()));
}

#[test]
fn services_are_listed_with_their_state() {
    assert_eq!(
        services_command(0, 2),
        "systemctl list-units --type=service --all --no-legend --no-pager 2>/dev/null | sed -n '1,3p' || true"
    );
    let listed = parse_services(
        "ssh.service loaded active running OpenBSD  Secure Shell\nx.socket loaded active running y\ncron.service loaded inactive dead\nnope.service loaded\n",
    );
    assert_eq!(listed.len(), 2);
    assert_eq!(listed[0].description, "OpenBSD Secure Shell");
    assert_eq!(
        states_command(&listed, 1),
        Some("for unit in 'ssh.service'; do state=\"$(LC_ALL=C systemctl is-enabled \"$unit\" 2>/dev/null || true)\"; printf '%s\\t%s\\n' \"$unit\" \"$state\"; done".to_string())
    );
    assert_eq!(states_command(&[], 5), None);
    let page = services(listed, "ssh.service\tenabled\ncron.service\t\n", 5);
    assert_eq!(page.items[0].enabled, Some(true));
    assert_eq!(page.items[1].enabled, None);
    let page = services(parse_services("a.service l a r\nb.service l a r\n"), "a.service\tdisabled\nb.service\tenabled\n", 1);
    assert!(page.has_more);
    assert_eq!(page.items[0].enabled, Some(false));
}

#[test]
fn service_details_keep_what_is_shown() {
    assert_eq!(validate_unit_name("ssh.service"), Ok(()));
    for bad in ["", " ", "a b", "a;b", "a&b", "a|b"] {
        assert_eq!(validate_unit_name(bad), Err("Invalid systemd service name".to_string()));
    }
    let commands = details_commands("it's").unwrap();
    assert_eq!(commands.properties, "systemctl show 'it'\\''s' --no-pager 2>/dev/null || true");
    assert_eq!(
        commands.journal,
        "journalctl -u 'it'\\''s' -n 60 --no-pager -o short-iso 2>/dev/null || true"
    );
    let details = service_details(
        "ssh",
        "Description=OpenSSH\nId=ssh.service\nMainPID=\nExecStart=a=b\n",
        "log".to_string(),
        " /lib/ssh.service\n",
    );
    assert_eq!(
        details.properties,
        vec![
            ("Description".to_string(), "OpenSSH".to_string()),
            ("ExecStart".to_string(), "a=b".to_string())
        ]
    );
    assert_eq!(details.unit_file, Some("/lib/ssh.service".to_string()));
    assert_eq!(service_details("ssh", "", String::new(), " \n").unit_file, None);
    assert_eq!(service_action("ssh", "restart"), Ok("systemctl restart 'ssh'".to_string()));
    assert_eq!(service_action("ssh", "mask"), Err("Unsupported service action".to_string()));
    assert_eq!(service_action("s s", "start"), Err("Invalid systemd service name".to_string()));
}
