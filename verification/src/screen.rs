//! What is on the screen: rows of the file browser and cards of containers.
use crate::bytesize;
use crate::clock;
use crate::dashboard::DockerGuiApp;
use crate::model;
use crate::model::{
    ContainerInfo, ContainerInfoView, ContainerState, ContainerStateView, ContainerStats,
    PortMapping, PortMappingView,
};
use crate::table;
use crate::text;
use vstd::prelude::*;
use vstd::string::StringExecFns;

verus! {

/// The name of the file that makes a directory a project.
pub const COMPOSE_FILE_NAME: &'static str = "docker-compose.yml";

/// A row of the file browser. The row of a Compose file stands out.
#[derive(Debug, PartialEq, Eq)]
pub struct EntryRow {
    pub label: String,
    pub is_compose: bool,
}

/// The label of a row: a symbol for directories and for files, then the name, or question marks
/// where it cannot be shown.
pub open spec fn entry_label(name: Option<Seq<char>>, is_dir: bool) -> Seq<char> {
    let icon = if is_dir {
        "📁"@
    } else {
        "📄"@
    };
    icon + " "@ + match name {
        Some(name) => name,
        None => "???"@,
    }
}

/// The row of a directory entry, where `name` is its name if that can be shown.
pub fn entry_row(name: Option<String>, is_dir: bool) -> (row: EntryRow)
    ensures
        row.label@ == entry_label(model::optional_text(name), is_dir),
        row.is_compose == (model::optional_text(name) == Some(COMPOSE_FILE_NAME@)),
{
    let mut label: String = if is_dir {
        "📁".to_owned()
    } else {
        "📄".to_owned()
    };
    label.append(" ");
    match name {
        Some(name) => {
            label.append(name.as_str());
            EntryRow { label, is_compose: name == COMPOSE_FILE_NAME.to_owned() }
        },
        None => {
            label.append("???");
            EntryRow { label, is_compose: false }
        },
    }
}

/// A button that acts on a container.
#[derive(Clone, Copy, Debug, PartialEq, Eq, Structural)]
pub enum Control {
    Stop,
    Restart,
    Start,
}

/// The log panel: its text and the number of rows that it takes.
#[derive(Debug, PartialEq, Eq)]
pub struct LogsPanel {
    pub rows: usize,
    pub text: String,
}

/// What a `LogsPanel` says.
pub struct LogsPanelView {
    pub rows: usize,
    pub text: Seq<char>,
}

impl View for LogsPanel {
    type V = LogsPanelView;

    open spec fn view(&self) -> LogsPanelView {
        LogsPanelView { rows: self.rows, text: self.text@ }
    }
}

/// A row of the port panel. `browse` is the host port of a row that can be opened in the browser.
#[derive(Debug, PartialEq, Eq)]
pub struct PortRow {
    pub container: String,
    pub host: String,
    pub protocol: String,
    pub browse: Option<u16>,
}

/// What a `PortRow` says.
pub struct PortRowView {
    pub container: Seq<char>,
    pub host: Seq<char>,
    pub protocol: Seq<char>,
    pub browse: Option<u16>,
}

impl View for PortRow {
    type V = PortRowView;

    open spec fn view(&self) -> PortRowView {
        PortRowView {
            container: self.container@,
            host: self.host@,
            protocol: self.protocol@,
            browse: self.browse,
        }
    }
}

/// The panel of facts. Lists without entries are left out.
#[derive(Debug, PartialEq, Eq)]
pub struct InfoPanel {
    pub image: String,
    pub created: String,
    pub env: Option<Vec<String>>,
    pub volumes: Option<Vec<(String, String)>>,
}

/// What an `InfoPanel` says.
pub struct InfoPanelView {
    pub image: Seq<char>,
    pub created: Seq<char>,
    pub env: Option<Seq<Seq<char>>>,
    pub volumes: Option<Seq<(Seq<char>, Seq<char>)>>,
}

impl View for InfoPanel {
    type V = InfoPanelView;

    open spec fn view(&self) -> InfoPanelView {
        InfoPanelView {
            image: self.image@,
            created: self.created@,
            env: match self.env {
                Some(env) => Some(model::texts(env@)),
                None => None,
            },
            volumes: match self.volumes {
                Some(volumes) => Some(model::text_pairs(volumes@)),
                None => None,
            },
        }
    }
}

/// The lower part of a card, which can be closed. Its buttons carry labels; the one for the ports
/// is there if there are ports, the one for a terminal if the container runs.
#[derive(Debug, PartialEq, Eq)]
pub struct Details {
    pub logs_label: String,
    pub ports_label: Option<String>,
    pub info_label: String,
    pub terminal: bool,
    pub logs: Option<LogsPanel>,
    pub ports: Option<Vec<PortRow>>,
    pub info: Option<InfoPanel>,
}

/// What `Details` say.
pub struct DetailsView {
    pub logs_label: Seq<char>,
    pub ports_label: Option<Seq<char>>,
    pub info_label: Seq<char>,
    pub terminal: bool,
    pub logs: Option<LogsPanelView>,
    pub ports: Option<Seq<PortRowView>>,
    pub info: Option<InfoPanelView>,
}

/// The rows that a list holds.
pub open spec fn port_rows(rows: Seq<PortRow>) -> Seq<PortRowView> {
    Seq::new(rows.len(), |i: int| rows[i]@)
}

impl View for Details {
    type V = DetailsView;

    open spec fn view(&self) -> DetailsView {
        DetailsView {
            logs_label: self.logs_label@,
            ports_label: model::optional_text(self.ports_label),
            info_label: self.info_label@,
            terminal: self.terminal,
            logs: match self.logs {
                Some(logs) => Some(logs@),
                None => None,
            },
            ports: match self.ports {
                Some(ports) => Some(port_rows(ports@)),
                None => None,
            },
            info: match self.info {
                Some(info) => Some(info@),
                None => None,
            },
        }
    }
}

/// Memory use as it is shown: the part of the limit that is used, if there is a limit, and a hint
/// in words.
#[derive(Debug, PartialEq, Eq)]
pub struct MemoryUse {
    pub share: Option<(u64, u64)>,
    pub hint: String,
}

/// What a `MemoryUse` says.
pub struct MemoryUseView {
    pub share: Option<(u64, u64)>,
    pub hint: Seq<char>,
}

impl View for MemoryUse {
    type V = MemoryUseView;

    open spec fn view(&self) -> MemoryUseView {
        MemoryUseView { share: self.share, hint: self.hint@ }
    }
}

/// The card of one container. Resource use is shown while the container runs.
pub struct ContainerCard {
    pub id: String,
    pub title: String,
    pub status: String,
    pub running: bool,
    pub color: (u8, u8, u8),
    pub expand_label: String,
    pub controls: Vec<Control>,
    pub stats: ContainerStats,
    pub memory: Option<MemoryUse>,
    pub details: Option<Details>,
}

/// What a `ContainerCard` says.
pub struct CardView {
    pub id: Seq<char>,
    pub title: Seq<char>,
    pub status: Seq<char>,
    pub running: bool,
    pub color: (u8, u8, u8),
    pub expand_label: Seq<char>,
    pub controls: Seq<Control>,
    pub stats: ContainerStats,
    pub memory: Option<MemoryUseView>,
    pub details: Option<DetailsView>,
}

impl View for ContainerCard {
    type V = CardView;

    open spec fn view(&self) -> CardView {
        CardView {
            id: self.id@,
            title: self.title@,
            status: self.status@,
            running: self.running,
            color: self.color,
            expand_label: self.expand_label@,
            controls: self.controls@,
            stats: self.stats,
            memory: match self.memory {
                Some(memory) => Some(memory@),
                None => None,
            },
            details: match self.details {
                Some(details) => Some(details@),
                None => None,
            },
        }
    }
}

/// Whether a container with that status runs.
pub open spec fn runs(status: Seq<char>) -> bool {
    text::occurs(status, "Up"@)
}

/// The colour of a container's mark, in red, green and blue.
pub open spec fn mark_color(running: bool) -> (u8, u8, u8) {
    if running {
        (50, 200, 100)
    } else {
        (200, 50, 50)
    }
}

/// The buttons for a container: a running one can be stopped and restarted, any other one
/// started.
pub open spec fn controls_for(running: bool) -> Seq<Control> {
    if running {
        seq![Control::Stop, Control::Restart]
    } else {
        seq![Control::Start]
    }
}

/// The number of rows for a text: one more than it has lines, as far as that can be counted.
pub open spec fn rows_for(shown: Seq<char>) -> usize {
    if text::line_count(shown) < usize::MAX {
        (text::line_count(shown) + 1) as usize
    } else {
        usize::MAX
    }
}

/// The row of a forwarded port. Only TCP ports can be opened in the browser.
pub open spec fn port_row(port: PortMappingView) -> PortRowView {
    PortRowView {
        container: text::decimal(port.container_port as nat),
        host: text::decimal(port.host_port as nat),
        protocol: port.protocol,
        browse: if port.protocol == "tcp"@ {
            Some(port.host_port)
        } else {
            None
        },
    }
}

/// The rows of all forwarded ports.
pub open spec fn port_panel(ports: Seq<PortMappingView>) -> Seq<PortRowView> {
    Seq::new(ports.len(), |i: int| port_row(ports[i]))
}

/// The panel of facts, with the instant of creation on a clock `offset` seconds ahead of UTC.
pub open spec fn info_panel(info: ContainerInfoView, offset: i32) -> InfoPanelView {
    InfoPanelView {
        image: info.image,
        created: clock::date_text(info.created.0 + offset, info.created.1 as nat),
        env: if info.env.len() > 0 {
            Some(info.env)
        } else {
            None
        },
        volumes: if info.volumes.len() > 0 {
            Some(info.volumes)
        } else {
            None
        },
    }
}

/// The label of the button that opens and closes the log panel.
pub open spec fn logs_label(shown: bool) -> Seq<char> {
    if shown {
        "🔽 Скрыть логи"@
    } else {
        "🔼 Показать логи"@
    }
}

/// The label of the button that opens and closes the port panel.
pub open spec fn ports_label(shown: bool) -> Seq<char> {
    if shown {
        "🔽 Скрыть порты"@
    } else {
        "🔼 Показать порты"@
    }
}

/// The label of the button that opens and closes the panel of facts.
pub open spec fn info_label(shown: bool) -> Seq<char> {
    if shown {
        "🔽 Скрыть информацию"@
    } else {
        "🔼 Показать информацию"@
    }
}

/// The lower part of a container's card.
pub open spec fn details_for(state: ContainerStateView, offset: i32) -> DetailsView {
    DetailsView {
        logs_label: logs_label(state.show_logs),
        ports_label: if state.ports.len() > 0 {
            Some(ports_label(state.show_ports))
        } else {
            None
        },
        info_label: info_label(state.show_info),
        terminal: runs(state.status),
        logs: if state.show_logs {
            Some(LogsPanelView { rows: rows_for(state.logs), text: state.logs })
        } else {
            None
        },
        ports: if state.show_ports && state.ports.len() > 0 {
            Some(port_panel(state.ports))
        } else {
            None
        },
        info: if state.show_info {
            Some(info_panel(state.info, offset))
        } else {
            None
        },
    }
}

/// The memory use that the statistics give.
pub open spec fn memory_for(stats: ContainerStats) -> MemoryUseView {
    MemoryUseView {
        share: if stats.memory_limit > 0 {
            Some((stats.memory_usage, stats.memory_limit))
        } else {
            None
        },
        hint: "Использовано "@ + bytesize::bytes_text(stats.memory_usage as nat) + " из "@
            + bytesize::bytes_text(stats.memory_limit as nat),
    }
}

/// The card of a container, on a clock `offset` seconds ahead of UTC.
pub open spec fn card_for(id: Seq<char>, state: ContainerStateView, offset: i32) -> CardView {
    CardView {
        id,
        title: state.name,
        status: state.status,
        running: runs(state.status),
        color: mark_color(runs(state.status)),
        expand_label: if state.expanded {
            "🔼"@
        } else {
            "🔽"@
        },
        controls: controls_for(runs(state.status)),
        stats: state.stats,
        memory: if runs(state.status) {
            Some(memory_for(state.stats))
        } else {
            None
        },
        details: if state.expanded {
            Some(details_for(state, offset))
        } else {
            None
        },
    }
}

/// Whether a container with that status runs.
pub fn is_running(status: &str) -> (b: bool)
    ensures
        b == runs(status@),
{
    text::contains(status, "Up")
}

fn copy_texts(list: &Vec<String>) -> (copy: Vec<String>)
    ensures
        model::texts(copy@) == model::texts(list@),
{
    let mut copy: Vec<String> = Vec::new();
    let mut i: usize = 0;
    while i < list.len()
        invariant
            i <= list@.len(),
            copy@.len() == i,
            forall|j: int| 0 <= j < i ==> (#[trigger] copy@[j])@ == list@[j]@,
        decreases list@.len() - i,
    {
        copy.push(list[i].clone());
        i = i + 1;
    }
    assert(model::texts(copy@) =~= model::texts(list@));
    copy
}

fn copy_pairs(list: &Vec<(String, String)>) -> (copy: Vec<(String, String)>)
    ensures
        model::text_pairs(copy@) == model::text_pairs(list@),
{
    let mut copy: Vec<(String, String)> = Vec::new();
    let mut i: usize = 0;
    while i < list.len()
        invariant
            i <= list@.len(),
            copy@.len() == i,
            forall|j: int|
                0 <= j < i ==> (#[trigger] copy@[j]).0@ == list@[j].0@ && copy@[j].1@
                    == list@[j].1@,
        decreases list@.len() - i,
    {
        copy.push((list[i].0.clone(), list[i].1.clone()));
        i = i + 1;
    }
    assert(model::text_pairs(copy@) =~= model::text_pairs(list@));
    copy
}

fn show_port(port: &PortMapping) -> (row: PortRow)
    ensures
        row@ == port_row(port@),
{
    PortRow {
        container: text::decimal_text(port.container_port as u64),
        host: text::decimal_text(port.host_port as u64),
        protocol: port.protocol.clone(),
        browse: if port.protocol == "tcp".to_owned() {
            Some(port.host_port)
        } else {
            None
        },
    }
}

fn show_ports(ports: &Vec<PortMapping>) -> (rows: Vec<PortRow>)
    ensures
        port_rows(rows@) == port_panel(model::mappings(ports@)),
{
    let mut rows: Vec<PortRow> = Vec::new();
    let mut i: usize = 0;
    while i < ports.len()
        invariant
            i <= ports@.len(),
            rows@.len() == i,
            forall|j: int| 0 <= j < i ==> (#[trigger] rows@[j])@ == port_row(ports@[j]@),
        decreases ports@.len() - i,
    {
        rows.push(show_port(&ports[i]));
        i = i + 1;
    }
    assert(port_rows(rows@) =~= port_panel(model::mappings(ports@)));
    rows
}

fn show_info(info: &ContainerInfo, offset: i32) -> (panel: InfoPanel)
    requires
        clock::valid_offset(offset as int),
    ensures
        panel@ == info_panel(info@, offset),
{
    InfoPanel {
        image: info.image.clone(),
        created: info.created.date_label(offset),
        env: if info.env.len() > 0 {
            Some(copy_texts(&info.env))
        } else {
            None
        },
        volumes: if info.volumes.len() > 0 {
            Some(copy_pairs(&info.volumes))
        } else {
            None
        },
    }
}

fn show_logs(logs: &String) -> (panel: LogsPanel)
    ensures
        panel@ == (LogsPanelView { rows: rows_for(logs@), text: logs@ }),
{
    let lines: usize = text::count_lines(logs.as_str());
    let rows: usize = if lines < usize::MAX {
        lines + 1
    } else {
        usize::MAX
    };
    LogsPanel { rows, text: logs.clone() }
}

fn show_memory(stats: &ContainerStats) -> (memory: MemoryUse)
    ensures
        memory@ == memory_for(*stats),
{
    let mut hint: String = "Использовано ".to_owned();
    hint.append(bytesize::format_bytes(stats.memory_usage).as_str());
    hint.append(" из ");
    hint.append(bytesize::format_bytes(stats.memory_limit).as_str());
    let share: Option<(u64, u64)> = if stats.memory_limit > 0 {
        Some((stats.memory_usage, stats.memory_limit))
    } else {
        None
    };
    MemoryUse { share, hint }
}

fn choose_label(open: bool, if_open: &str, if_closed: &str) -> (label: String)
    ensures
        label@ == (if open {
            if_open@
        } else {
            if_closed@
        }),
{
    if open {
        if_open.to_owned()
    } else {
        if_closed.to_owned()
    }
}

fn show_details(state: &ContainerState, running: bool, offset: i32) -> (details: Details)
    requires
        clock::valid_offset(offset as int),
        running == runs(state.status@),
    ensures
        details@ == details_for(state@, offset),
{
    let has_ports: bool = state.ports.len() > 0;
    Details {
        logs_label: choose_label(state.show_logs, "🔽 Скрыть логи", "🔼 Показать логи"),
        ports_label: if has_ports {
            Some(choose_label(state.show_ports, "🔽 Скрыть порты", "🔼 Показать порты"))
        } else {
            None
        },
        info_label: choose_label(
            state.show_info,
            "🔽 Скрыть информацию",
            "🔼 Показать информацию",
        ),
        terminal: running,
        logs: if state.show_logs {
            Some(show_logs(&state.logs))
        } else {
            None
        },
        ports: if state.show_ports && has_ports {
            Some(show_ports(&state.ports))
        } else {
            None
        },
        info: if state.show_info {
            Some(show_info(&state.info, offset))
        } else {
            None
        },
    }
}

/// Lays out the card of a container, on a clock `offset` seconds ahead of UTC.
pub fn container_card(id: &str, state: &ContainerState, offset: i32) -> (card: ContainerCard)
    requires
        clock::valid_offset(offset as int),
    ensures
        card@ == card_for(id@, state@, offset),
{
    let running: bool = is_running(state.status.as_str());
    let controls: Vec<Control> = if running {
        vec![Control::Stop, Control::Restart]
    } else {
        vec![Control::Start]
    };
    assert(controls@ =~= controls_for(running));
    ContainerCard {
        id: id.to_owned(),
        title: state.name.clone(),
        status: state.status.clone(),
        running,
        color: if running {
            (50, 200, 100)
        } else {
            (200, 50, 50)
        },
        expand_label: choose_label(state.expanded, "🔼", "🔽"),
        controls,
        stats: state.stats,
        memory: if running {
            Some(show_memory(&state.stats))
        } else {
            None
        },
        details: if state.expanded {
            Some(show_details(state, running, offset))
        } else {
            None
        },
    }
}

/// The central part of the screen.
pub enum CentralView {
    /// There is no project in the directory.
    NoProject,
    /// The project has no containers.
    NoContainers,
    /// One card for each container, in display order.
    Cards(Vec<ContainerCard>),
}

/// Whether `card` is the card of that container on a possible clock.
pub open spec fn is_card(card: CardView, id: Seq<char>, state: ContainerStateView) -> bool {
    exists|offset: i32|
        clock::valid_offset(offset as int) && card == #[trigger] card_for(id, state, offset)
}

/// Whether `cards` are the cards of the table's containers, in order.
pub open spec fn cards_of(cards: Seq<ContainerCard>, table: table::TableView) -> bool {
    &&& cards.len() == table.order.len()
    &&& forall|i: int|
        0 <= i < cards.len() ==> is_card(
            (#[trigger] cards[i])@,
            table.order[i],
            table.states[table.order[i]],
        )
}

impl<P> DockerGuiApp<P> {
    /// Lays out the central part of the screen, on the machine's local clock. The clock is asked
    /// for no card but those whose panel of facts is on display.
    pub fn central_view(&self) -> (central: CentralView)
        ensures
            self@.compose_file is None ==> central is NoProject,
            self@.compose_file is Some && self@.containers == table::TableView::empty()
                ==> central is NoContainers,
            self@.compose_file is Some && self@.containers != table::TableView::empty() ==> (
            central matches CentralView::Cards(cards) && cards_of(cards@, self@.containers)),
    {
        if self.compose_file.is_none() {
            return CentralView::NoProject;
        }
        if self.containers.is_empty() {
            return CentralView::NoContainers;
        }
        let size: usize = self.containers.len();
        let mut cards: Vec<ContainerCard> = Vec::new();
        let mut i: usize = 0;
        while i < size
            invariant
                i <= size,
                size == self@.containers.order.len(),
                cards@.len() == i,
                forall|j: int|
                    0 <= j < i ==> is_card(
                        (#[trigger] cards@[j])@,
                        self@.containers.order[j],
                        self@.containers.states[self@.containers.order[j]],
                    ),
            decreases size - i,
        {
            let entry: (&String, &ContainerState) = self.containers.entry(i);
            let offset: i32 = if entry.1.expanded && entry.1.show_info {
                entry.1.info.created.local_offset()
            } else {
                0
            };
            let card: ContainerCard = container_card(entry.0.as_str(), entry.1, offset);
            assert(card@ == card_for(
                self@.containers.order[i as int],
                self@.containers.states[self@.containers.order[i as int]],
                offset,
            ));
            cards.push(card);
            i = i + 1;
        }
        CentralView::Cards(cards)
    }
}

/// A container is either offered to be started or to be stopped and restarted, never both.
pub proof fn controls_exclude_each_other(running: bool)
    ensures
        controls_for(running).contains(Control::Start) <==> !running,
        controls_for(running).contains(Control::Stop) <==> running,
        controls_for(running).contains(Control::Restart) <==> running,
{
    if running {
        assert(controls_for(running)[0] == Control::Stop);
        assert(controls_for(running)[1] == Control::Restart);
    } else {
        assert(controls_for(running)[0] == Control::Start);
    }
}

/// A closed card shows no panel, and an open one shows exactly the panels that are open, except
/// that there is no port panel without ports.
pub proof fn panels_follow_the_state(id: Seq<char>, state: ContainerStateView, offset: i32)
    ensures
        card_for(id, state, offset).details is Some <==> state.expanded,
        card_for(id, state, offset).details matches Some(d) ==> {
            &&& d.logs is Some <==> state.show_logs
            &&& d.ports is Some <==> state.show_ports && state.ports.len() > 0
            &&& d.info is Some <==> state.show_info
        },
{
}

/// Every port that can be opened in the browser is a TCP port, shown under its own host number.
pub proof fn only_tcp_ports_are_browsed(port: PortMappingView)
    ensures
        port_row(port).browse matches Some(p) ==> p == port.host_port && port.protocol == "tcp"@,
        port_row(port).browse is None ==> port.protocol != "tcp"@,
        text::port_number(port_row(port).host) == Some(port.host_port),
        text::port_number(port_row(port).container) == Some(port.container_port),
{
    text::port_text_reads_back(port.host_port);
    text::port_text_reads_back(port.container_port);
}

/// A row shows a symbol, a space and the entry's whole name, or three question marks where the
/// name cannot be shown. Exactly the entries named `docker-compose.yml` stand out.
pub proof fn rows_show_the_whole_name(name: Option<String>, is_dir: bool, row: EntryRow)
    requires
        call_ensures(entry_row, (name, is_dir), row),
    ensures
        row.label@.len() >= 2,
        row.label@[0] == if is_dir {
            '📁'
        } else {
            '📄'
        },
        row.label@[1] == ' ',
        name matches Some(n) ==> row.label@.skip(2) == n@,
        name is None ==> row.label@.skip(2) == "???"@,
        row.is_compose <==> (name matches Some(n) && n@ == "docker-compose.yml"@),
{
    reveal_strlit("📁");
    reveal_strlit("📄");
    reveal_strlit(" ");
    match name {
        Some(n) => {
            assert(row.label@.skip(2) =~= n@);
        },
        None => {
            assert(row.label@.skip(2) =~= "???"@);
        },
    }
}

/// A container runs exactly where its status has a `U` directly followed by a `p`, whatever else
/// stands there; so every status that begins with `Up` runs.
pub proof fn running_means_up(status: &str, b: bool)
    requires
        call_ensures(is_running, (status,), b),
    ensures
        b <==> exists|i: int|
            0 <= i < status@.len() - 1 && #[trigger] status@[i] == 'U' && status@[i + 1] == 'p',
        status@.len() >= 2 && status@[0] == 'U' && status@[1] == 'p' ==> b,
{
    up_by_characters(status@);
}

proof fn up_by_characters(status: Seq<char>)
    ensures
        runs(status) <==> exists|i: int|
            0 <= i < status.len() - 1 && #[trigger] status[i] == 'U' && status[i + 1] == 'p',
{
    reveal_strlit("Up");
    if runs(status) {
        let at = choose|at: int| text::occurs_at(status, "Up"@, at);
        assert(status.subrange(at, at + 2)[0] == 'U');
        assert(status.subrange(at, at + 2)[1] == 'p');
        assert(status[at] == 'U' && status[at + 1] == 'p');
    }
    if exists|i: int|
        0 <= i < status.len() - 1 && #[trigger] status[i] == 'U' && status[i + 1] == 'p' {
        let i = choose|i: int|
            0 <= i < status.len() - 1 && #[trigger] status[i] == 'U' && status[i + 1] == 'p';
        assert(status.subrange(i, i + 2) =~= "Up"@);
        assert(text::occurs_at(status, "Up"@, i));
    }
}

/// A card bears the container's name, identifier, status and statistics. A running container has a
/// green mark, buttons to stop and to restart it and its memory use; any other one has a red mark,
/// a button to start it, and no memory use.
pub proof fn cards_follow_the_status(
    id: &str,
    state: ContainerState,
    offset: i32,
    card: ContainerCard,
    status: &str,
    running: bool,
)
    requires
        call_ensures(container_card, (id, &state, offset), card),
        call_ensures(is_running, (status,), running),
        status@ == state.status@,
    ensures
        card.id@ == id@,
        card.title@ == state.name@,
        card.status@ == state.status@,
        card.stats == state.stats,
        card.running == running,
        running ==> card.color == (50u8, 200u8, 100u8) && card.controls@ == seq![
            Control::Stop,
            Control::Restart,
        ] && card.memory is Some,
        !running ==> card.color == (200u8, 50u8, 50u8) && card.controls@ == seq![Control::Start]
            && card.memory is None,
        card.details is Some <==> state.expanded,
        state.expanded ==> card.expand_label@ == "🔼"@,
        !state.expanded ==> card.expand_label@ == "🔽"@,
{
    assert(card@ == card_for(id@, state@, offset));
    assert(card@.memory is Some <==> card.memory is Some);
    assert(card@.details is Some <==> card.details is Some);
}

/// Memory use is shown as the part of the limit that is used, wherever there is a limit, and in
/// words, with both counts as they are written for readers.
pub proof fn memory_is_shown_with_its_limit(
    id: &str,
    state: ContainerState,
    offset: i32,
    card: ContainerCard,
    memory: MemoryUse,
    used: String,
    limit: String,
)
    requires
        call_ensures(container_card, (id, &state, offset), card),
        call_ensures(bytesize::format_bytes, (state.stats.memory_usage,), used),
        call_ensures(bytesize::format_bytes, (state.stats.memory_limit,), limit),
        card.memory == Some(memory),
    ensures
        state.stats.memory_limit > 0 ==> memory.share == Some(
            (state.stats.memory_usage, state.stats.memory_limit),
        ),
        state.stats.memory_limit == 0 ==> memory.share is None,
        memory.hint@ == "Использовано "@ + used@ + " из "@ + limit@,
{
    assert(card@ == card_for(id@, state@, offset));
    assert(card@.memory == Some(memory@));
}

/// An open card has a button for the log and one for the facts, one for the ports where there are
/// any, and a terminal where the container runs. Buttons say what a click does: close what is open
/// and open what is closed.
pub proof fn open_cards_have_their_buttons(
    id: &str,
    state: ContainerState,
    offset: i32,
    card: ContainerCard,
    details: Details,
)
    requires
        call_ensures(container_card, (id, &state, offset), card),
        card.details == Some(details),
    ensures
        details.terminal == card.running,
        details.logs_label@ == if state.show_logs {
            "🔽 Скрыть логи"@
        } else {
            "🔼 Показать логи"@
        },
        details.info_label@ == if state.show_info {
            "🔽 Скрыть информацию"@
        } else {
            "🔼 Показать информацию"@
        },
        details.ports_label is Some <==> state.ports@.len() > 0,
        details.ports_label matches Some(label) ==> label@ == if state.show_ports {
            "🔽 Скрыть порты"@
        } else {
            "🔼 Показать порты"@
        },
        details.logs is Some <==> state.show_logs,
        details.ports is Some <==> state.show_ports && state.ports@.len() > 0,
        details.info is Some <==> state.show_info,
{
    assert(card@ == card_for(id@, state@, offset));
    assert(card@.details == Some(details@));
    assert(state@.ports.len() == state.ports@.len());
    assert(details@.ports_label is Some <==> details.ports_label is Some);
    assert(details@.logs is Some <==> details.logs is Some);
    assert(details@.ports is Some <==> details.ports is Some);
    assert(details@.info is Some <==> details.info is Some);
}

/// The log panel shows the whole log, in one row more than the log has lines.
pub proof fn the_log_panel_shows_the_whole_log(
    id: &str,
    state: ContainerState,
    offset: i32,
    card: ContainerCard,
    details: Details,
    panel: LogsPanel,
    logs: &str,
    lines: usize,
)
    requires
        call_ensures(container_card, (id, &state, offset), card),
        call_ensures(text::count_lines, (logs,), lines),
        logs@ == state.logs@,
        card.details == Some(details),
        details.logs == Some(panel),
    ensures
        panel.text@ == state.logs@,
        lines < usize::MAX ==> panel.rows == lines + 1,
{
    assert(card@ == card_for(id@, state@, offset));
    assert(card@.details == Some(details@));
    assert(details@.logs == Some(panel@));
}

/// The port panel has a row for each forwarded port, in order, with both numbers and the protocol.
/// TCP ports, and no others, can be opened in the browser, under their host number.
pub proof fn the_port_panel_shows_every_port(
    id: &str,
    state: ContainerState,
    offset: i32,
    card: ContainerCard,
    details: Details,
    rows: Vec<PortRow>,
    i: int,
)
    requires
        call_ensures(container_card, (id, &state, offset), card),
        card.details == Some(details),
        details.ports == Some(rows),
        0 <= i < state.ports@.len(),
    ensures
        rows@.len() == state.ports@.len(),
        rows@[i].container@ == text::decimal(state.ports@[i].container_port as nat),
        rows@[i].host@ == text::decimal(state.ports@[i].host_port as nat),
        rows@[i].protocol@ == state.ports@[i].protocol@,
        state.ports@[i].protocol@ == "tcp"@ ==> rows@[i].browse == Some(state.ports@[i].host_port),
        state.ports@[i].protocol@ != "tcp"@ ==> rows@[i].browse is None,
{
    assert(card@ == card_for(id@, state@, offset));
    assert(card@.details == Some(details@));
    assert(details@.ports == Some(port_rows(rows@)));
    assert(port_rows(rows@).len() == rows@.len());
    assert(port_rows(rows@)[i] == rows@[i]@);
    assert(state@.ports[i] == state.ports@[i]@);
}

/// The panel of facts shows the image, the instant of creation as a date label, and every variable
/// and volume in order; lists without entries are left out.
pub proof fn the_panel_of_facts_shows_every_fact(
    id: &str,
    state: ContainerState,
    offset: i32,
    card: ContainerCard,
    details: Details,
    panel: InfoPanel,
    created: String,
    i: int,
)
    requires
        call_ensures(container_card, (id, &state, offset), card),
        call_ensures(clock::Moment::date_label, (state.info.created, offset), created),
        card.details == Some(details),
        details.info == Some(panel),
    ensures
        panel.image@ == state.info.image@,
        panel.created@ == created@,
        panel.env is Some <==> state.info.env@.len() > 0,
        panel.env matches Some(env) ==> env@.len() == state.info.env@.len() && (0 <= i < env@.len()
            ==> env@[i]@ == state.info.env@[i]@),
        panel.volumes is Some <==> state.info.volumes@.len() > 0,
        panel.volumes matches Some(volumes) ==> volumes@.len() == state.info.volumes@.len() && (0
            <= i < volumes@.len() ==> volumes@[i].0@ == state.info.volumes@[i].0@ && volumes@[i].1@
            == state.info.volumes@[i].1@),
{
    assert(card@ == card_for(id@, state@, offset));
    assert(card@.details == Some(details@));
    assert(details@.info == Some(panel@));
    let info = state@.info;
    assert(info.env.len() == state.info.env@.len());
    assert(info.volumes.len() == state.info.volumes@.len());
    if panel.env is Some {
        let env = panel.env->0@;
        assert(panel@.env == Some(model::texts(env)));
        assert(model::texts(env).len() == env.len());
        if 0 <= i < env.len() {
            assert(model::texts(env)[i] == env[i]@);
            assert(info.env[i] == state.info.env@[i]@);
        }
    }
    if panel.volumes is Some {
        let volumes = panel.volumes->0@;
        assert(panel@.volumes == Some(model::text_pairs(volumes)));
        assert(model::text_pairs(volumes).len() == volumes.len());
        if 0 <= i < volumes.len() {
            assert(model::text_pairs(volumes)[i] == (volumes[i].0@, volumes[i].1@));
            assert(info.volumes[i] == (state.info.volumes@[i].0@, state.info.volumes@[i].1@));
        }
    }
}

/// The centre shows no project without a Compose file, no containers where there are none, and
/// otherwise a card for each container, in display order: the one that is laid out for it on a
/// clock less than a day from UTC.
pub proof fn the_centre_shows_every_container<P>(
    app: &DockerGuiApp<P>,
    central: CentralView,
    state: ContainerState,
    id: &str,
    i: int,
)
    requires
        call_ensures(DockerGuiApp::<P>::central_view, (app,), central),
        app.compose_file is Some && 0 <= i < app.containers@.order.len() ==> id@
            == app.containers@.order[i] && state@ == app.containers@.states[id@],
    ensures
        app.compose_file is None ==> central is NoProject,
        app.compose_file is Some && app.containers@.order.len() == 0
            && app.containers@.states.dom() == Set::<Seq<char>>::empty()
            ==> central is NoContainers,
        app.compose_file is Some && app.containers@.order.len() > 0 ==> {
            &&& central matches CentralView::Cards(cards)
            &&& cards@.len() == app.containers@.order.len()
            &&& 0 <= i < cards@.len() ==> exists|offset: i32|
                -86_400 < offset < 86_400 && cards@[i]@ == #[trigger] card_for(
                    id@,
                    state@,
                    offset,
                )
        },
{
    if app.compose_file is Some {
        if app.containers@.order.len() == 0 && app.containers@.states.dom() == Set::<
            Seq<char>,
        >::empty() {
            assert(app.containers@.states =~= Map::empty());
            assert(app.containers@ =~= table::TableView::empty());
        }
        if app.containers@.order.len() > 0 {
            assert(app.containers@ != table::TableView::empty());
            let cards = central->Cards_0;
            if 0 <= i < cards@.len() {
                assert(is_card(cards@[i]@, id@, state@));
            }
        }
    }
}

} // verus!
