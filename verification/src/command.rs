//! Programs that the dashboard starts: browsers, terminals and shells in containers.
use crate::model;
use crate::text;
use vstd::prelude::*;
use vstd::string::StringExecFns;

verus! {

/// The operating systems that are told apart.
#[derive(Clone, Copy, Debug, PartialEq, Eq, Structural)]
pub enum Platform {
    Linux,
    MacOs,
    Windows,
    Other,
}

/// A program and its arguments.
#[derive(Debug, PartialEq, Eq)]
pub struct CommandLine {
    pub program: String,
    pub args: Vec<String>,
}

/// What a `CommandLine` says.
#[verifier::ext_equal]
pub struct CommandView {
    pub program: Seq<char>,
    pub args: Seq<Seq<char>>,
}

impl View for CommandLine {
    type V = CommandView;

    open spec fn view(&self) -> CommandView {
        CommandView { program: self.program@, args: model::texts(self.args@) }
    }
}

/// Number of terminal programs that are looked for on Linux.
pub const TERMINALS: usize = 3;

fn words(list: Vec<&str>) -> (owned: Vec<String>)
    ensures
        model::texts(owned@) == Seq::new(list@.len(), |i: int| list@[i]@),
{
    let mut owned: Vec<String> = Vec::new();
    let mut i: usize = 0;
    while i < list.len()
        invariant
            i <= list@.len(),
            owned@.len() == i,
            forall|j: int| 0 <= j < i ==> (#[trigger] owned@[j])@ == list@[j]@,
        decreases list@.len() - i,
    {
        owned.push(list[i].to_owned());
        i = i + 1;
    }
    assert(model::texts(owned@) =~= Seq::new(list@.len(), |i: int| list@[i]@));
    owned
}

/// The address that a forwarded port answers at.
pub open spec fn local_url(port: u16) -> Seq<char> {
    "http://localhost:"@ + text::decimal(port as nat)
}

/// The command that opens a forwarded port in the browser, if there is one for the platform.
pub open spec fn browser_command(platform: Platform, port: u16) -> Option<CommandView> {
    match platform {
        Platform::Linux => Some(
            CommandView { program: "xdg-open"@, args: seq![local_url(port)] },
        ),
        Platform::MacOs => Some(CommandView { program: "open"@, args: seq![local_url(port)] }),
        Platform::Windows => Some(
            CommandView { program: "cmd"@, args: seq!["/C"@, "start"@, local_url(port)] },
        ),
        Platform::Other => None,
    }
}

/// The command that opens a forwarded port in the browser.
pub fn open_in_browser(platform: Platform, port: u16) -> (command: Option<CommandLine>)
    ensures
        command is Some <==> browser_command(platform, port) is Some,
        command matches Some(c) ==> browser_command(platform, port) == Some(c@),
{
    let mut url: String = "http://localhost:".to_owned();
    url.append(text::decimal_text(port as u64).as_str());
    match platform {
        Platform::Linux => {
            let command: CommandLine = CommandLine {
                program: "xdg-open".to_owned(),
                args: words(vec![url.as_str()]),
            };
            assert(command@ =~= browser_command(platform, port)->0);
            Some(command)
        },
        Platform::MacOs => {
            let command: CommandLine = CommandLine {
                program: "open".to_owned(),
                args: words(vec![url.as_str()]),
            };
            assert(command@ =~= browser_command(platform, port)->0);
            Some(command)
        },
        Platform::Windows => {
            let command: CommandLine = CommandLine {
                program: "cmd".to_owned(),
                args: words(vec!["/C", "start", url.as_str()]),
            };
            assert(command@ =~= browser_command(platform, port)->0);
            Some(command)
        },
        Platform::Other => None,
    }
}

/// Different ports open different addresses.
pub proof fn urls_are_distinct(a: u16, b: u16)
    requires
        local_url(a) == local_url(b),
    ensures
        a == b,
{
    let p = "http://localhost:"@;
    let x = text::decimal(a as nat);
    let y = text::decimal(b as nat);
    assert(x =~= (p + x).skip(p.len() as int));
    assert(y =~= (p + y).skip(p.len() as int));
    text::decimal_is_injective(a as nat, b as nat);
}

/// The arguments that run a shell in a container, `bash` where the container has it.
pub open spec fn shell_args(container_id: Seq<char>) -> Seq<Seq<char>> {
    seq![
        "docker"@,
        "exec"@,
        "-it"@,
        container_id,
        "/bin/sh"@,
        "-c"@,
        "if command -v bash >/dev/null 2>&1; then exec bash; else exec sh; fi"@,
    ]
}

/// The terminal programs that are looked for on Linux, the preferred one first.
pub open spec fn terminal_program(choice: int) -> Seq<char> {
    if choice == 0 {
        "gnome-terminal"@
    } else if choice == 1 {
        "konsole"@
    } else {
        "xfce4-terminal"@
    }
}

/// What a Linux terminal program is told before the command that it is to run.
pub open spec fn terminal_options(choice: int) -> Seq<Seq<char>> {
    if choice == 1 {
        seq!["--separate"@, "--"@]
    } else {
        seq!["--"@]
    }
}

/// What is to be done next to open a terminal.
#[derive(Debug, PartialEq, Eq)]
pub enum TerminalStep {
    /// Run this to see whether the program is there.
    Probe(CommandLine),
    /// Run this; it is the terminal.
    Launch(CommandLine),
    /// There is no terminal to be had.
    Unavailable,
}

/// What a `TerminalStep` says.
pub enum TerminalStepView {
    Probe(CommandView),
    Launch(CommandView),
    Unavailable,
}

impl View for TerminalStep {
    type V = TerminalStepView;

    open spec fn view(&self) -> TerminalStepView {
        match *self {
            TerminalStep::Probe(c) => TerminalStepView::Probe(c@),
            TerminalStep::Launch(c) => TerminalStepView::Launch(c@),
            TerminalStep::Unavailable => TerminalStepView::Unavailable,
        }
    }
}

/// Number of the first probe that succeeded, or the number of probes where none did.
pub open spec fn first_success(probes: Seq<bool>) -> nat
    decreases probes.len(),
{
    if probes.len() == 0 || probes[0] {
        0
    } else {
        1 + first_success(probes.drop_first())
    }
}

/// The probe for a Linux terminal program.
pub open spec fn probe_command(choice: int) -> CommandView {
    CommandView { program: terminal_program(choice), args: seq!["--version"@] }
}

/// The command that opens a Linux terminal program with a shell in the container.
pub open spec fn launch_command(choice: int, container_id: Seq<char>) -> CommandView {
    CommandView {
        program: terminal_program(choice),
        args: terminal_options(choice) + shell_args(container_id),
    }
}

/// The next step towards a terminal, given the outcomes of the probes so far.
pub open spec fn terminal_step(
    platform: Platform,
    container_id: Seq<char>,
    probes: Seq<bool>,
) -> TerminalStepView {
    match platform {
        Platform::Linux => {
            let choice = first_success(probes);
            if choice < probes.len() && choice < TERMINALS {
                TerminalStepView::Launch(launch_command(choice as int, container_id))
            } else if probes.len() < TERMINALS {
                TerminalStepView::Probe(probe_command(probes.len() as int))
            } else {
                TerminalStepView::Unavailable
            }
        },
        Platform::MacOs => TerminalStepView::Launch(
            CommandView {
                program: "open"@,
                args: seq!["-a"@, "Terminal"@, "--"@] + shell_args(container_id),
            },
        ),
        Platform::Windows => TerminalStepView::Launch(
            CommandView {
                program: "cmd"@,
                args: seq!["/C"@, "start"@] + shell_args(container_id),
            },
        ),
        Platform::Other => TerminalStepView::Unavailable,
    }
}

/// What `first_success` means.
pub proof fn first_success_is_first(probes: Seq<bool>)
    ensures
        first_success(probes) <= probes.len(),
        first_success(probes) < probes.len() ==> probes[first_success(probes) as int],
        forall|i: int| 0 <= i < first_success(probes) ==> !probes[i],
    decreases probes.len(),
{
    if probes.len() > 0 && !probes[0] {
        first_success_is_first(probes.drop_first());
        assert forall|i: int| 0 <= i < first_success(probes) implies !probes[i] by {
            if i > 0 {
                assert(probes.drop_first()[i - 1] == probes[i]);
            }
        }
    }
}

proof fn first_success_at(probes: Seq<bool>, k: int)
    requires
        0 <= k <= probes.len(),
        k < probes.len() ==> probes[k],
        forall|i: int| 0 <= i < k ==> !probes[i],
    ensures
        first_success(probes) == k,
{
    first_success_is_first(probes);
    let p: int = first_success(probes) as int;
    if p < k {
        assert(!probes[p]);
    } else if k < p {
        assert(!probes[k]);
    }
}

fn program_name(choice: usize) -> (name: String)
    requires
        choice < TERMINALS,
    ensures
        name@ == terminal_program(choice as int),
{
    match choice {
        0 => "gnome-terminal".to_owned(),
        1 => "konsole".to_owned(),
        _ => "xfce4-terminal".to_owned(),
    }
}

fn with_shell(mut args: Vec<String>, container_id: &str) -> (all: Vec<String>)
    ensures
        model::texts(all@) == model::texts(args@) + shell_args(container_id@),
{
    let ghost before = args@;
    let mut tail: Vec<String> = words(
        vec![
            "docker",
            "exec",
            "-it",
            container_id,
            "/bin/sh",
            "-c",
            "if command -v bash >/dev/null 2>&1; then exec bash; else exec sh; fi",
        ],
    );
    let ghost after = tail@;
    assert(model::texts(after) =~= shell_args(container_id@));
    args.append(&mut tail);
    assert(model::texts(args@) =~= model::texts(before) + model::texts(after));
    args
}

/// The next step towards a terminal with a shell in the container, given the outcomes of the
/// probes so far.
pub fn open_terminal(platform: Platform, container_id: &str, probes: &Vec<bool>) -> (step:
    TerminalStep)
    ensures
        step@ == terminal_step(platform, container_id@, probes@),
{
    match platform {
        Platform::Linux => {
            let mut choice: usize = 0;
            while choice < probes.len() && !probes[choice]
                invariant
                    choice <= probes@.len(),
                    forall|i: int| 0 <= i < choice ==> !probes@[i],
                decreases probes@.len() - choice,
            {
                choice = choice + 1;
            }
            proof {
                first_success_at(probes@, choice as int);
            }
            if choice < probes.len() && choice < TERMINALS {
                let options: Vec<String> = if choice == 1 {
                    words(vec!["--separate", "--"])
                } else {
                    words(vec!["--"])
                };
                assert(model::texts(options@) =~= terminal_options(choice as int));
                TerminalStep::Launch(
                    CommandLine {
                        program: program_name(choice),
                        args: with_shell(options, container_id),
                    },
                )
            } else if probes.len() < TERMINALS {
                let args: Vec<String> = words(vec!["--version"]);
                assert(model::texts(args@) =~= seq!["--version"@]);
                TerminalStep::Probe(CommandLine { program: program_name(probes.len()), args })
            } else {
                TerminalStep::Unavailable
            }
        },
        Platform::MacOs => {
            let options: Vec<String> = words(vec!["-a", "Terminal", "--"]);
            assert(model::texts(options@) =~= seq!["-a"@, "Terminal"@, "--"@]);
            TerminalStep::Launch(
                CommandLine { program: "open".to_owned(), args: with_shell(options, container_id) },
            )
        },
        Platform::Windows => {
            let options: Vec<String> = words(vec!["/C", "start"]);
            assert(model::texts(options@) =~= seq!["/C"@, "start"@]);
            TerminalStep::Launch(
                CommandLine { program: "cmd".to_owned(), args: with_shell(options, container_id) },
            )
        },
        Platform::Other => TerminalStep::Unavailable,
    }
}

/// On Linux the terminals are tried in turn, none behind the first that is there, and that one is
/// opened; where none is there, nothing is.
pub proof fn terminals_are_tried_in_turn(container_id: Seq<char>, present: Seq<bool>, n: int)
    requires
        present.len() == TERMINALS,
        0 <= n <= TERMINALS,
        n <= first_success(present) + 1,
    ensures
        terminal_step(Platform::Linux, container_id, present.take(n)) == if n > first_success(
            present,
        ) {
            TerminalStepView::Launch(launch_command(first_success(present) as int, container_id))
        } else if n < TERMINALS {
            TerminalStepView::Probe(probe_command(n))
        } else {
            TerminalStepView::Unavailable
        },
{
    first_success_is_first(present);
    let k: int = first_success(present) as int;
    if n > k {
        first_success_at(present.take(n), k);
    } else {
        first_success_at(present.take(n), n);
    }
}

/// What is to be done next to learn whether a container has a shell.
#[derive(Debug, PartialEq, Eq)]
pub enum ShellStep {
    /// Have the daemon prepare this command in the container, with its output attached.
    Create(Vec<String>),
    /// Have the daemon start the prepared command.
    Start,
    /// The answer is found.
    Answer(bool),
}

/// What a `ShellStep` says.
pub enum ShellStepView {
    Create(Seq<Seq<char>>),
    Start,
    Answer(bool),
}

impl View for ShellStep {
    type V = ShellStepView;

    open spec fn view(&self) -> ShellStepView {
        match *self {
            ShellStep::Create(c) => ShellStepView::Create(model::texts(c@)),
            ShellStep::Start => ShellStepView::Start,
            ShellStep::Answer(b) => ShellStepView::Answer(b),
        }
    }
}

/// The command that looks for a shell in a container.
pub open spec fn shell_probe() -> Seq<Seq<char>> {
    seq![
        "sh"@,
        "-c"@,
        "command -v bash >/dev/null 2>&1 || command -v sh >/dev/null 2>&1"@,
    ]
}

/// The next step towards the answer, given whether the daemon is there and, as far as they are
/// known, whether it prepared and whether it started the command.
pub open spec fn shell_step(
    connected: bool,
    created: Option<bool>,
    started: Option<bool>,
) -> ShellStepView {
    if !connected {
        ShellStepView::Answer(false)
    } else {
        match created {
            None => ShellStepView::Create(shell_probe()),
            Some(false) => ShellStepView::Answer(false),
            Some(true) => match started {
                None => ShellStepView::Start,
                Some(started) => ShellStepView::Answer(started),
            },
        }
    }
}

/// The next step towards learning whether a container has a shell.
pub fn check_shell_available(
    connected: bool,
    created: Option<bool>,
    started: Option<bool>,
) -> (step: ShellStep)
    ensures
        step@ == shell_step(connected, created, started),
{
    if !connected {
        return ShellStep::Answer(false);
    }
    match created {
        None => {
            let command: Vec<String> = words(
                vec![
                    "sh",
                    "-c",
                    "command -v bash >/dev/null 2>&1 || command -v sh >/dev/null 2>&1",
                ],
            );
            assert(model::texts(command@) =~= shell_probe());
            ShellStep::Create(command)
        },
        Some(false) => ShellStep::Answer(false),
        Some(true) => match started {
            None => ShellStep::Start,
            Some(started) => ShellStep::Answer(started),
        },
    }
}

/// A shell is only found where the daemon is there, prepared the command and started it.
pub proof fn shell_needs_every_step(
    connected: bool,
    created: Option<bool>,
    started: Option<bool>,
)
    ensures
        shell_step(connected, created, started) == ShellStepView::Answer(true) <==> connected
            && created == Some(true) && started == Some(true),
{
}

/// On every platform but unknown ones every port opens, with one and the same program, and the
/// last argument is its address: the scheme, the host and the port's own number.
pub proof fn every_port_opens_in_the_browser(
    platform: Platform,
    port: u16,
    command: Option<CommandLine>,
)
    requires
        call_ensures(open_in_browser, (platform, port), command),
    ensures
        command is Some <==> platform != Platform::Other,
        command matches Some(c) ==> {
            let url = c.args@[c.args@.len() - 1]@;
            &&& c.args@.len() > 0
            &&& url.len() > 17
            &&& url.take(17) == "http://localhost:"@
            &&& text::port_number(url.skip(17)) == Some(port)
            &&& url.skip(17) == text::decimal(port as nat)
            &&& platform == Platform::Linux ==> c.program@ == "xdg-open"@ && c.args@.len() == 1
            &&& platform == Platform::MacOs ==> c.program@ == "open"@ && c.args@.len() == 1
            &&& platform == Platform::Windows ==> c.program@ == "cmd"@ && c.args@.len() == 3
                && c.args@[0]@ == "/C"@ && c.args@[1]@ == "start"@
        },
{
    reveal_strlit("http://localhost:");
    text::port_text_reads_back(port);
    text::decimal_steps(port as nat);
    if command is Some {
        let c = command->0;
        let n = c.args@.len() - 1;
        let p = "http://localhost:"@;
        assert(c@.args.len() == c.args@.len());
        assert(c@.args[n] == c.args@[n]@);
        assert(c.args@[n]@ == local_url(port));
        assert(local_url(port).take(17) =~= p);
        assert(local_url(port).skip(17) =~= text::decimal(port as nat));
        if platform == Platform::Windows {
            assert(c@.args[0] == c.args@[0]@);
            assert(c@.args[1] == c.args@[1]@);
        }
    }
}

/// Whether `args` end with the command that runs a shell in the container.
pub open spec fn ends_with_shell(args: Seq<String>, container_id: Seq<char>) -> bool {
    let n = args.len() as int;
    &&& n >= 7
    &&& args[n - 7]@ == "docker"@
    &&& args[n - 6]@ == "exec"@
    &&& args[n - 5]@ == "-it"@
    &&& args[n - 4]@ == container_id
    &&& args[n - 3]@ == "/bin/sh"@
    &&& args[n - 2]@ == "-c"@
    &&& args[n - 1]@ == "if command -v bash >/dev/null 2>&1; then exec bash; else exec sh; fi"@
}

proof fn shell_at_the_end(args: Seq<String>, options: Seq<Seq<char>>, container_id: Seq<char>)
    requires
        model::texts(args) == options + shell_args(container_id),
    ensures
        args.len() == options.len() + 7,
        ends_with_shell(args, container_id),
        forall|i: int| 0 <= i < options.len() ==> (#[trigger] args[i])@ == options[i],
{
    let all = model::texts(args);
    let n = all.len() as int;
    assert(shell_args(container_id).len() == 7);
    assert(args.len() == n);
    assert forall|i: int| 0 <= i < 7 implies #[trigger] shell_args(container_id)[i] == args[n - 7
        + i]@ by {
        assert(all[n - 7 + i] == args[n - 7 + i]@);
    }
    assert(shell_args(container_id)[0] == "docker"@);
    assert(shell_args(container_id)[1] == "exec"@);
    assert(shell_args(container_id)[2] == "-it"@);
    assert(shell_args(container_id)[3] == container_id);
    assert(shell_args(container_id)[4] == "/bin/sh"@);
    assert(shell_args(container_id)[5] == "-c"@);
    assert(shell_args(container_id)[6]
        == "if command -v bash >/dev/null 2>&1; then exec bash; else exec sh; fi"@);
    assert forall|i: int| 0 <= i < options.len() implies (#[trigger] args[i])@ == options[i] by {
        assert(all[i] == args[i]@);
    }
}

/// Every launched terminal runs a shell in the container that was asked for, on every platform and
/// whichever terminal it is.
pub proof fn terminals_run_a_shell_in_the_container(
    platform: Platform,
    container_id: &str,
    probes: Vec<bool>,
    step: TerminalStep,
)
    requires
        call_ensures(open_terminal, (platform, container_id, &probes), step),
    ensures
        step matches TerminalStep::Launch(c) ==> ends_with_shell(c.args@, container_id@),
        platform == Platform::MacOs ==> (step matches TerminalStep::Launch(c) && c.program@
            == "open"@ && c.args@.len() == 10 && c.args@[0]@ == "-a"@ && c.args@[1]@
            == "Terminal"@ && c.args@[2]@ == "--"@),
        platform == Platform::Windows ==> (step matches TerminalStep::Launch(c) && c.program@
            == "cmd"@ && c.args@.len() == 9 && c.args@[0]@ == "/C"@ && c.args@[1]@ == "start"@),
        platform == Platform::Other ==> step is Unavailable,
{
    match step {
        TerminalStep::Launch(c) => {
            assert(c@.args == model::texts(c.args@));
            match platform {
                Platform::Linux => {
                    let choice = first_success(probes@) as int;
                    shell_at_the_end(c.args@, terminal_options(choice), container_id@);
                },
                Platform::MacOs => {
                    shell_at_the_end(
                        c.args@,
                        seq!["-a"@, "Terminal"@, "--"@],
                        container_id@,
                    );
                },
                Platform::Windows => {
                    shell_at_the_end(c.args@, seq!["/C"@, "start"@], container_id@);
                },
                Platform::Other => {},
            }
        },
        _ => {},
    }
}

/// On Linux a terminal is probed for as long as no probe has succeeded and there are others left,
/// which is so for three probes; the one that is there is launched, and it is the very program
/// that was probed for.
pub proof fn the_probed_terminal_is_launched(
    container_id: &str,
    probes: Vec<bool>,
    longer: Vec<bool>,
    found: bool,
    step: TerminalStep,
    next: TerminalStep,
)
    requires
        call_ensures(open_terminal, (Platform::Linux, container_id, &probes), step),
        call_ensures(open_terminal, (Platform::Linux, container_id, &longer), next),
        forall|i: int| 0 <= i < probes@.len() ==> !probes@[i],
        longer@ == probes@.push(found),
    ensures
        probes@.len() < 3 <==> step is Probe,
        probes@.len() >= 3 ==> step is Unavailable && next is Unavailable,
        step matches TerminalStep::Probe(p) ==> {
            &&& p.args@.len() == 1 && p.args@[0]@ == "--version"@
            &&& probes@.len() == 0 ==> p.program@ == "gnome-terminal"@
            &&& probes@.len() == 1 ==> p.program@ == "konsole"@
            &&& probes@.len() == 2 ==> p.program@ == "xfce4-terminal"@
            &&& found ==> (next matches TerminalStep::Launch(c) && c.program@ == p.program@)
            &&& next matches TerminalStep::Launch(c) ==> found && c.args@[c.args@.len() - 8]@
                == "--"@ && c.args@.len() == if probes@.len() == 1 {
                9int
            } else {
                8
            } && (probes@.len() == 1 ==> c.args@[0]@ == "--separate"@)
        },
{
    let n = probes@.len() as int;
    first_success_at(probes@, n);
    if found {
        first_success_at(longer@, n);
    } else {
        first_success_at(longer@, n + 1);
    }
    if step is Probe {
        let p = step->Probe_0;
        assert(p@.args.len() == p.args@.len());
        assert(p@.args[0] == p.args@[0]@);
    }
    if next is Launch {
        let c = next->Launch_0;
        assert(c@.args == model::texts(c.args@));
        shell_at_the_end(c.args@, terminal_options(n), container_id@);
    }
}

/// Later probes do not matter: the first terminal that was found is launched in any case.
pub proof fn later_probes_do_not_matter(
    container_id: &str,
    probes: Vec<bool>,
    longer: Vec<bool>,
    step: TerminalStep,
    next: TerminalStep,
)
    requires
        call_ensures(open_terminal, (Platform::Linux, container_id, &probes), step),
        call_ensures(open_terminal, (Platform::Linux, container_id, &longer), next),
        step is Launch,
        probes@.is_prefix_of(longer@),
    ensures
        next@ == step@,
{
    let k = first_success(probes@) as int;
    first_success_is_first(probes@);
    assert forall|i: int| 0 <= i < k implies !longer@[i] by {
        assert(probes@[i] == longer@[i]);
    }
    assert(longer@[k] == probes@[k]);
    first_success_at(longer@, k);
}

/// A shell is looked for in three steps: the command is prepared, then started, then the answer is
/// whether it started. Without a daemon, or where it cannot be prepared, the answer is no.
pub proof fn shells_are_looked_for_in_order(
    connected: bool,
    created: Option<bool>,
    started: Option<bool>,
    step: ShellStep,
)
    requires
        call_ensures(check_shell_available, (connected, created, started), step),
    ensures
        !connected || created == Some(false) ==> step == ShellStep::Answer(false),
        connected && created is None ==> (step matches ShellStep::Create(c) && c@.len() == 3
            && c@[0]@ == "sh"@ && c@[1]@ == "-c"@ && c@[2]@
            == "command -v bash >/dev/null 2>&1 || command -v sh >/dev/null 2>&1"@),
        connected && created == Some(true) && started is None ==> step == ShellStep::Start,
        connected && created == Some(true) ==> (started matches Some(s) ==> step
            == ShellStep::Answer(s)),
{
    if connected && created is None {
        let c = step->Create_0;
        assert(model::texts(c@).len() == c@.len());
        assert(model::texts(c@)[0] == c@[0]@);
        assert(model::texts(c@)[1] == c@[1]@);
        assert(model::texts(c@)[2] == c@[2]@);
    }
}

} // verus!
