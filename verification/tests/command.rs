use smart_horizoker::command::{
    check_shell_available, open_in_browser, open_terminal, CommandLine, Platform, ShellStep,
    TerminalStep,
};

fn command(program: &str, args: Vec<&str>) -> CommandLine {
    CommandLine {
        program: program.to_string(),
        args: args.into_iter().map(|a| a.to_string()).collect(),
    }
}

const SHELL: &str = "if command -v bash >/dev/null 2>&1; then exec bash; else exec sh; fi";

#[test]
fn browsers_open_local_ports() {
    assert_eq!(
        open_in_browser(Platform::Linux, 8080),
        Some(command("xdg-open", vec!["http://localhost:8080"]))
    );
    assert_eq!(
        open_in_browser(Platform::MacOs, 1),
        Some(command("open", vec!["http://localhost:1"]))
    );
    assert_eq!(
        open_in_browser(Platform::Windows, 65535),
        Some(command("cmd", vec!["/C", "start", "http://localhost:65535"]))
    );
    assert_eq!(open_in_browser(Platform::Other, 80), None);
}

#[test]
fn linux_terminals_are_probed_one_after_the_other() {
    let step = |probes: Vec<bool>| open_terminal(Platform::Linux, "web", &probes);
    let probe = |program| TerminalStep::Probe(command(program, vec!["--version"]));
    assert_eq!(step(vec![]), probe("gnome-terminal"));
    assert_eq!(step(vec![false]), probe("konsole"));
    assert_eq!(step(vec![false, false]), probe("xfce4-terminal"));
    assert_eq!(step(vec![false, false, false]), TerminalStep::Unavailable);
}

#[test]
fn the_first_linux_terminal_is_launched() {
    let step = |probes: Vec<bool>| open_terminal(Platform::Linux, "web", &probes);
    let launch = |program, options: Vec<&'static str>| {
        let mut args = options;
        args.extend(vec!["docker", "exec", "-it", "web", "/bin/sh", "-c", SHELL]);
        TerminalStep::Launch(command(program, args))
    };
    assert_eq!(step(vec![true]), launch("gnome-terminal", vec!["--"]));
    assert_eq!(step(vec![false, true]), launch("konsole", vec!["--separate", "--"]));
    assert_eq!(step(vec![false, false, true]), launch("xfce4-terminal", vec!["--"]));
}

#[test]
fn other_platforms_have_one_terminal_or_none() {
    let shell = vec!["docker", "exec", "-it", "db", "/bin/sh", "-c", SHELL];
    let mut mac = vec!["-a", "Terminal", "--"];
    mac.extend(shell.clone());
    assert_eq!(
        open_terminal(Platform::MacOs, "db", &vec![]),
        TerminalStep::Launch(command("open", mac))
    );
    let mut windows = vec!["/C", "start"];
    windows.extend(shell);
    assert_eq!(
        open_terminal(Platform::Windows, "db", &vec![]),
        TerminalStep::Launch(command("cmd", windows))
    );
    assert_eq!(open_terminal(Platform::Other, "db", &vec![]), TerminalStep::Unavailable);
}

#[test]
fn a_shell_is_found_step_by_step() {
    let probe = vec![
        "sh".to_string(),
        "-c".to_string(),
        "command -v bash >/dev/null 2>&1 || command -v sh >/dev/null 2>&1".to_string(),
    ];
    assert_eq!(check_shell_available(true, None, None), ShellStep::Create(probe));
    assert_eq!(check_shell_available(true, Some(true), None), ShellStep::Start);
    assert_eq!(check_shell_available(true, Some(true), Some(true)), ShellStep::Answer(true));
    assert_eq!(check_shell_available(true, Some(true), Some(false)), ShellStep::Answer(false));
    assert_eq!(check_shell_available(true, Some(false), None), ShellStep::Answer(false));
    assert_eq!(check_shell_available(false, None, None), ShellStep::Answer(false));
}
