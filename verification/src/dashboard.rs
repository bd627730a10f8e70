//! The dashboard's state and everything that happens to it.
use crate::clock;
use crate::compose;
use crate::compose::{ComposeConfig, ContainerSummary};
use crate::inspect;
use crate::inspect::InspectReport;
use crate::logs;
use crate::model;
use crate::model::{ContainerState, ContainerStateView};
use crate::stats;
use crate::stats::StatsSample;
use crate::table::{ContainerTable, TableView};
use vstd::prelude::*;

verus! {

/// Seconds that a container is given to stop by itself.
pub const STOP_TIMEOUT_SECONDS: i64 = 10;

/// What a look for a Compose file in the current directory found.
pub enum ComposeLookup<P> {
    /// There is none.
    Missing,
    /// There is one at `path`. It could be read and understood if there is a `config`.
    Found { path: P, config: Option<ComposeConfig> },
}

/// The parts of a container's card that can be opened and closed.
#[derive(Clone, Copy, Debug, PartialEq, Eq, Structural)]
pub enum Panel {
    Details,
    Logs,
    Ports,
    Info,
}

/// What the daemon is asked to do with a container.
#[derive(Debug, PartialEq, Eq)]
pub enum DaemonRequest {
    Start { id: String },
    Stop { id: String, timeout: i64 },
    Restart { id: String, timeout: i64 },
}

/// What a `DaemonRequest` says.
pub enum DaemonRequestView {
    Start { id: Seq<char> },
    Stop { id: Seq<char>, timeout: i64 },
    Restart { id: Seq<char>, timeout: i64 },
}

impl View for DaemonRequest {
    type V = DaemonRequestView;

    open spec fn view(&self) -> DaemonRequestView {
        match *self {
            DaemonRequest::Start { id } => DaemonRequestView::Start { id: id@ },
            DaemonRequest::Stop { id, timeout } => DaemonRequestView::Stop { id: id@, timeout },
            DaemonRequest::Restart { id, timeout } => DaemonRequestView::Restart {
                id: id@,
                timeout,
            },
        }
    }
}

/// The dashboard: whether a daemon is there, the directory on display, the containers of its
/// project, the project's Compose file, and when the containers were last looked at, in
/// nanoseconds on the program's clock. `P` is the type of paths.
pub struct DockerGuiApp<P> {
    pub connected: bool,
    pub current_path: P,
    pub containers: ContainerTable,
    pub compose_file: Option<P>,
    pub last_update: Option<u64>,
}

/// What a `DockerGuiApp` says.
pub struct AppView<P> {
    pub connected: bool,
    pub current_path: P,
    pub containers: TableView,
    pub compose_file: Option<P>,
    pub last_update: Option<u64>,
}

impl<P> View for DockerGuiApp<P> {
    type V = AppView<P>;

    open spec fn view(&self) -> AppView<P> {
        AppView {
            connected: self.connected,
            current_path: self.current_path,
            containers: self.containers@,
            compose_file: self.compose_file,
            last_update: self.last_update,
        }
    }
}

/// The state with one of its panels opened if it was closed, and closed if it was open.
pub open spec fn flipped(state: ContainerStateView, panel: Panel) -> ContainerStateView {
    match panel {
        Panel::Details => ContainerStateView { expanded: !state.expanded, ..state },
        Panel::Logs => ContainerStateView { show_logs: !state.show_logs, ..state },
        Panel::Ports => ContainerStateView { show_ports: !state.show_ports, ..state },
        Panel::Info => ContainerStateView { show_info: !state.show_info, ..state },
    }
}

impl<P> AppView<P> {
    /// The dashboard at the start.
    pub open spec fn started(connected: bool, path: P) -> AppView<P> {
        AppView {
            connected,
            current_path: path,
            containers: TableView::empty(),
            compose_file: None,
            last_update: None,
        }
    }

    /// Whether the containers are to be looked at again.
    pub open spec fn poll_due(self, now: u64) -> bool {
        clock::due(self.last_update, now, clock::REFRESH_INTERVAL)
    }

    /// The dashboard after a chance to look at the containers again.
    pub open spec fn polled(self, now: u64) -> AppView<P> {
        if self.poll_due(now) {
            AppView { last_update: Some(now), ..self }
        } else {
            self
        }
    }

    /// The dashboard with other containers.
    pub open spec fn showing(self, containers: TableView) -> AppView<P> {
        AppView { containers, ..self }
    }

    /// The dashboard with another state of a container, if it has that container.
    pub open spec fn with_state(self, id: Seq<char>, state: ContainerStateView) -> AppView<P> {
        if self.containers.has(id) {
            self.showing(self.containers.insert(id, state))
        } else {
            self
        }
    }

    /// The dashboard after a look for a Compose file.
    pub open spec fn checked(self, lookup: ComposeLookup<P>, now: u64) -> AppView<P> {
        match lookup {
            ComposeLookup::Missing => AppView { compose_file: None, ..self }.showing(
                TableView::empty(),
            ),
            ComposeLookup::Found { path, config } => {
                let found = AppView { compose_file: Some(path), ..self };
                match config {
                    Some(config) => found.showing(compose::opened(config.services@)).polled(now),
                    None => found,
                }
            },
        }
    }

    /// Whether a look for a Compose file makes it necessary to look at the containers.
    pub open spec fn check_polls(self, lookup: ComposeLookup<P>, now: u64) -> bool {
        match lookup {
            ComposeLookup::Found { path, config: Some(config) } => self.poll_due(now),
            _ => false,
        }
    }

    /// The dashboard with that log text for a container, read at `now`.
    pub open spec fn logged(self, id: Seq<char>, text: Seq<char>, now: u64) -> AppView<P> {
        self.with_state(
            id,
            ContainerStateView {
                logs: text,
                last_log_update: Some(now),
                ..self.containers.states[id]
            },
        )
    }

    /// Whether a container's log is to be read: not without a daemon, and not when it was read
    /// less than a second ago.
    pub open spec fn log_due(self, id: Seq<char>, now: u64) -> bool {
        self.connected && (self.containers.has(id) ==> clock::due(
            self.containers.states[id].last_log_update,
            now,
            clock::LOG_INTERVAL,
        ))
    }

    /// Whether a container's statistics are to be read: not without a daemon, and not when they
    /// were read less than two seconds ago.
    pub open spec fn stats_due(self, id: Seq<char>, now: u64) -> bool {
        self.connected && (self.containers.has(id) ==> clock::due(
            self.containers.states[id].stats.last_update,
            now,
            clock::STATS_INTERVAL,
        ))
    }

    /// The dashboard with one of a container's panels opened or closed.
    pub open spec fn toggled(self, id: Seq<char>, panel: Panel) -> AppView<P> {
        self.with_state(id, flipped(self.containers.states[id], panel))
    }
}

impl<P> DockerGuiApp<P> {
    /// A dashboard that shows the directory `current_path`, with a daemon or without one.
    pub fn new(connected: bool, current_path: P) -> (app: Self)
        ensures
            app@ == AppView::started(connected, current_path),
    {
        DockerGuiApp {
            connected,
            current_path,
            containers: ContainerTable::new(),
            compose_file: None,
            last_update: None,
        }
    }

    /// Goes to the parent directory, if there is one. Says whether the directory is to be
    /// searched for a Compose file.
    pub fn go_up(&mut self, parent: Option<P>) -> (moved: bool)
        ensures
            moved == (parent is Some),
            parent matches Some(p) ==> final(self)@ == (AppView { current_path: p, ..old(self)@ }),
            parent is None ==> final(self)@ == old(self)@,
    {
        match parent {
            Some(path) => {
                self.current_path = path;
                true
            },
            None => false,
        }
    }

    /// Goes to the entry that was clicked, if it is a directory. Says whether the directory is to
    /// be searched for a Compose file.
    pub fn enter(&mut self, entry: P, is_dir: bool) -> (moved: bool)
        ensures
            moved == is_dir,
            is_dir ==> final(self)@ == (AppView { current_path: entry, ..old(self)@ }),
            !is_dir ==> final(self)@ == old(self)@,
    {
        if is_dir {
            self.current_path = entry;
        }
        is_dir
    }

    /// Takes over what a look for a Compose file found. Says whether to look at the containers.
    pub fn check_compose_file(&mut self, lookup: ComposeLookup<P>, now: u64) -> (poll: bool)
        ensures
            final(self)@ == old(self)@.checked(lookup, now),
            poll == old(self)@.check_polls(lookup, now),
    {
        match lookup {
            ComposeLookup::Missing => {
                self.compose_file = None;
                self.containers.clear();
                false
            },
            ComposeLookup::Found { path, config } => {
                self.compose_file = Some(path);
                match config {
                    Some(config) => {
                        compose::open_project(&mut self.containers, &config);
                        self.update_containers_if_needed(now)
                    },
                    None => false,
                }
            },
        }
    }

    /// Says whether to look at the containers again, which is so twice a second.
    pub fn update_containers_if_needed(&mut self, now: u64) -> (poll: bool)
        ensures
            final(self)@ == old(self)@.polled(now),
            poll == old(self)@.poll_due(now),
    {
        let poll: bool = clock::is_due(self.last_update, now, clock::REFRESH_INTERVAL);
        if poll {
            self.last_update = Some(now);
        }
        poll
    }

    /// Says, frame by frame, whether to look at the containers again: only while there is a
    /// Compose file.
    pub fn begin_frame(&mut self, now: u64) -> (poll: bool)
        ensures
            final(self)@ == if old(self)@.compose_file is Some {
                old(self)@.polled(now)
            } else {
                old(self)@
            },
            poll == (old(self)@.compose_file is Some && old(self)@.poll_due(now)),
    {
        if self.compose_file.is_some() {
            self.update_containers_if_needed(now)
        } else {
            false
        }
    }

    /// The Compose file to look at the containers with: none without a daemon.
    pub fn refresh_source(&self) -> (path: Option<&P>)
        ensures
            path is Some <==> self@.connected && self@.compose_file is Some,
            path matches Some(p) ==> self@.compose_file == Some(*p),
    {
        if self.connected {
            self.compose_file.as_ref()
        } else {
            None
        }
    }

    /// Takes over the daemon's list of containers, as far as the project has them.
    pub fn update_containers(&mut self, config: &ComposeConfig, listing: Vec<ContainerSummary>)
        ensures
            final(self)@ == old(self)@.showing(
                compose::refreshed(old(self)@.containers, config.services@, listing@),
            ),
    {
        compose::take_listing(&mut self.containers, config, listing);
    }

    /// The request to restart a container, if there is a daemon.
    pub fn restart_container(&self, container_id: &str) -> (request: Option<DaemonRequest>)
        ensures
            request is Some <==> self@.connected,
            request matches Some(r) ==> r@ == (DaemonRequestView::Restart {
                id: container_id@,
                timeout: STOP_TIMEOUT_SECONDS,
            }),
    {
        if self.connected {
            Some(
                DaemonRequest::Restart {
                    id: container_id.to_owned(),
                    timeout: STOP_TIMEOUT_SECONDS,
                },
            )
        } else {
            None
        }
    }

    /// The request to stop a container, if there is a daemon.
    pub fn stop_container(&self, container_id: &str) -> (request: Option<DaemonRequest>)
        ensures
            request is Some <==> self@.connected,
            request matches Some(r) ==> r@ == (DaemonRequestView::Stop {
                id: container_id@,
                timeout: STOP_TIMEOUT_SECONDS,
            }),
    {
        if self.connected {
            Some(
                DaemonRequest::Stop {
                    id: container_id.to_owned(),
                    timeout: STOP_TIMEOUT_SECONDS,
                },
            )
        } else {
            None
        }
    }

    /// The request to start a container, if there is a daemon.
    pub fn start_container(&self, container_id: &str) -> (request: Option<DaemonRequest>)
        ensures
            request is Some <==> self@.connected,
            request matches Some(r) ==> r@ == (DaemonRequestView::Start { id: container_id@ }),
    {
        if self.connected {
            Some(DaemonRequest::Start { id: container_id.to_owned() })
        } else {
            None
        }
    }

    /// Whether a container's log is to be read.
    pub fn log_update_due(&self, container_id: &str, now: u64) -> (b: bool)
        ensures
            b == self@.log_due(container_id@, now),
    {
        if !self.connected {
            return false;
        }
        match self.containers.get(container_id) {
            Some(state) => clock::is_due(state.last_log_update, now, clock::LOG_INTERVAL),
            None => true,
        }
    }

    /// Keeps a container's log text, read at `now`, if the dashboard has the container.
    pub fn store_logs(&mut self, container_id: &str, text: String, now: u64)
        ensures
            final(self)@ == old(self)@.logged(container_id@, text@, now),
    {
        let mut state: ContainerState = ContainerState::default();
        if self.containers.exchange(container_id, &mut state) {
            state.logs = text;
            state.last_log_update = Some(now);
            let ghost next = state@;
            self.containers.exchange(container_id, &mut state);
            proof {
                old(self)@.containers.insert_over(container_id@, model::blank_state(), next);
            }
        }
    }

    /// Keeps a container's log, read at `now` as a list of raw chunks, in the form in which it is
    /// shown.
    pub fn update_container_logs(&mut self, container_id: &str, chunks: Vec<Vec<u8>>, now: u64)
        ensures
            exists|offsets: Seq<int>|
                logs::possible_offsets(offsets, chunks@.len()) && final(self)@ == old(self)@.logged(
                    container_id@,
                    #[trigger] logs::log_text(logs::bytes_of(chunks@), offsets),
                    now,
                ),
    {
        let text: String = logs::render_chunks(chunks);
        self.store_logs(container_id, text, now);
    }

    /// Whether a container's statistics are to be read.
    pub fn stats_update_due(&self, container_id: &str, now: u64) -> (b: bool)
        ensures
            b == self@.stats_due(container_id@, now),
    {
        if !self.connected {
            return false;
        }
        match self.containers.get(container_id) {
            Some(state) => clock::is_due(state.stats.last_update, now, clock::STATS_INTERVAL),
            None => true,
        }
    }

    /// Keeps a container's statistics, read at `now`, if the dashboard has the container.
    pub fn update_container_stats(&mut self, container_id: &str, sample: &StatsSample, now: u64)
        requires
            sample.in_range(),
        ensures
            final(self)@ == old(self)@.with_state(
                container_id@,
                ContainerStateView {
                    stats: sample.stats(now),
                    ..old(self)@.containers.states[container_id@]
                },
            ),
    {
        let mut state: ContainerState = ContainerState::default();
        if self.containers.exchange(container_id, &mut state) {
            state.stats = stats::container_stats(sample, now);
            let ghost next = state@;
            self.containers.exchange(container_id, &mut state);
            proof {
                old(self)@.containers.insert_over(container_id@, model::blank_state(), next);
            }
        }
    }

    /// Keeps the ports and the facts of the daemon's report, if the dashboard has the container.
    pub fn update_container_info(&mut self, container_id: &str, report: InspectReport)
        ensures
            final(self)@ == old(self)@.with_state(
                container_id@,
                ContainerStateView {
                    ports: inspect::reported_ports(report),
                    info: inspect::reported_info(report, inspect::reported_instant(report)),
                    ..old(self)@.containers.states[container_id@]
                },
            ),
    {
        let mut state: ContainerState = ContainerState::default();
        if self.containers.exchange(container_id, &mut state) {
            state.ports = inspect::read_ports(&report);
            let created: Option<clock::Moment> = inspect::read_created(&report);
            state.info = inspect::read_info(report, created);
            let ghost next = state@;
            self.containers.exchange(container_id, &mut state);
            proof {
                old(self)@.containers.insert_over(container_id@, model::blank_state(), next);
            }
        }
    }

    /// Opens or closes a panel of a container. Says whether the container's log is to be read:
    /// when its panel was opened.
    pub fn toggle(&mut self, container_id: &str, panel: Panel) -> (read_logs: bool)
        ensures
            final(self)@ == old(self)@.toggled(container_id@, panel),
            read_logs == (panel == Panel::Logs && old(self)@.containers.has(container_id@) && !old(
                self,
            )@.containers.states[container_id@].show_logs),
    {
        let mut state: ContainerState = ContainerState::default();
        if self.containers.exchange(container_id, &mut state) {
            let mut read_logs: bool = false;
            match panel {
                Panel::Details => {
                    state.expanded = !state.expanded;
                },
                Panel::Logs => {
                    state.show_logs = !state.show_logs;
                    read_logs = state.show_logs;
                },
                Panel::Ports => {
                    state.show_ports = !state.show_ports;
                },
                Panel::Info => {
                    state.show_info = !state.show_info;
                },
            }
            let ghost next = state@;
            self.containers.exchange(container_id, &mut state);
            proof {
                old(self)@.containers.insert_over(container_id@, model::blank_state(), next);
            }
            read_logs
        } else {
            false
        }
    }
}

/// Between two looks at the containers that follow each other at least half a second passes.
pub proof fn looks_keep_their_distance<P>(app: AppView<P>, first: u64, second: u64)
    requires
        app.poll_due(first),
        app.polled(first).poll_due(second),
    ensures
        second >= first + clock::REFRESH_INTERVAL,
{
}

/// A dashboard that has never looked at its containers looks at once.
pub proof fn first_look_is_immediate<P>(connected: bool, path: P, now: u64)
    ensures
        AppView::started(connected, path).poll_due(now),
{
}

/// Opening and closing a panel leaves everything as it was.
pub proof fn toggling_twice_changes_nothing<P>(app: AppView<P>, id: Seq<char>, panel: Panel)
    ensures
        app.toggled(id, panel).toggled(id, panel) == app,
{
    if app.containers.has(id) {
        let state = app.containers.states[id];
        assert(flipped(flipped(state, panel), panel) == state);
        app.containers.insert_over(id, flipped(state, panel), state);
        assert(app.containers.insert(id, state) =~= app.containers) by {
            assert(app.containers.states.insert(id, state) =~= app.containers.states);
        }
    }
}

/// What happens to one container changes no other one, nor the order, nor anything else.
pub proof fn containers_are_independent<P>(
    app: AppView<P>,
    id: Seq<char>,
    state: ContainerStateView,
    other: Seq<char>,
)
    requires
        other != id,
    ensures
        app.with_state(id, state).containers.get(other) == app.containers.get(other),
        app.with_state(id, state).containers.order == app.containers.order,
        app.with_state(id, state) == app.showing(app.with_state(id, state).containers),
{
}

/// News of a container that the dashboard does not have changes nothing.
pub proof fn unknown_containers_are_ignored<P>(
    app: AppView<P>,
    id: Seq<char>,
    state: ContainerStateView,
    text: Seq<char>,
    panel: Panel,
    now: u64,
)
    requires
        !app.containers.has(id),
    ensures
        app.with_state(id, state) == app,
        app.logged(id, text, now) == app,
        app.toggled(id, panel) == app,
{
}

/// A log that was just stored is not read again within a second.
pub proof fn stored_logs_rest<P>(
    app: AppView<P>,
    id: Seq<char>,
    text: Seq<char>,
    now: u64,
    later: u64,
)
    requires
        app.containers.has(id),
        app.logged(id, text, now).log_due(id, later),
    ensures
        later >= now + clock::LOG_INTERVAL,
{
}

/// Statistics that were just stored are not read again within two seconds.
pub proof fn stored_statistics_rest<P>(
    app: AppView<P>,
    id: Seq<char>,
    sample: StatsSample,
    now: u64,
    later: u64,
)
    requires
        app.containers.has(id),
        app.with_state(
            id,
            ContainerStateView { stats: sample.stats(now), ..app.containers.states[id] },
        ).stats_due(id, later),
    ensures
        later >= now + clock::STATS_INTERVAL,
{
}

/// Without a Compose file in the directory nothing is shown and nothing is looked at.
pub proof fn nothing_is_shown_without_a_compose_file<P>(app: AppView<P>, now: u64)
    ensures
        app.checked(ComposeLookup::Missing, now).containers == TableView::empty(),
        app.checked(ComposeLookup::Missing, now).compose_file is None,
        !app.check_polls(ComposeLookup::Missing, now),
{
}

/// A log survives a look at the containers: what was stored is still there afterwards.
pub proof fn logs_survive_a_look<P>(
    app: AppView<P>,
    id: Seq<char>,
    text: Seq<char>,
    now: u64,
    services: Seq<(String, compose::ComposeService)>,
    listing: Seq<ContainerSummary>,
)
    requires
        app.containers.has(id),
    ensures
        ({
            let stored = app.logged(id, text, now);
            let after = compose::refreshed(stored.containers, services, listing);
            after.has(id) && after.states[id].logs == text && after.states[id].last_log_update
                == Some(now)
        }),
{
    compose::refresh_keeps_logs(app.logged(id, text, now).containers, services, listing, id);
}

/// A new dashboard shows the directory that it was given, no containers and no project, and has
/// never looked at any.
pub proof fn a_new_dashboard_has_seen_nothing<P>(
    connected: bool,
    path: P,
    app: DockerGuiApp<P>,
    name: Seq<char>,
)
    requires
        call_ensures(DockerGuiApp::<P>::new, (connected, path), app),
    ensures
        app.connected == connected,
        app.current_path == path,
        app.compose_file is None,
        app.last_update is None,
        !app.containers@.states.contains_key(name),
        app.containers@.order.len() == 0,
{
}

/// A look that found a readable Compose file puts up exactly the container names that its services
/// set, each with a blank state, whatever the dashboard showed before.
pub proof fn a_readable_project_replaces_the_last_one<P>(
    app: &mut DockerGuiApp<P>,
    path: P,
    config: ComposeConfig,
    now: u64,
    name: Seq<char>,
    blank: ContainerState,
    poll: bool,
)
    requires
        call_ensures(
            DockerGuiApp::<P>::check_compose_file,
            (app, ComposeLookup::Found { path, config: Some(config) }, now),
            poll,
        ),
        call_ensures(ContainerState::default, (), blank),
    ensures
        final(app).compose_file == Some(path),
        final(app).current_path == old(app).current_path,
        final(app).connected == old(app).connected,
        final(app).containers@.states.contains_key(name) <==> exists|i: int|
            0 <= i < config.services@.len() && ((
            #[trigger] config.services@[i]).1.container_name matches Some(n) && n@ == name),
        final(app).containers@.states.contains_key(name) ==> final(app).containers@.states[name]
            == blank@,
        poll <==> (old(app).last_update matches Some(t) ==> now >= t + 500_000_000),
        final(app).last_update == if poll {
            Some(now)
        } else {
            old(app).last_update
        },
{
    compose::opened_shows_the_project(config.services@, name);
    assert(final(app)@.containers == compose::opened(config.services@));
    if compose::mentions(config.services@, name) {
        let i = choose|i: int|
            0 <= i < config.services@.len() && compose::chosen_name(#[trigger] config.services@[i])
                == Some(name);
        assert(config.services@[i].1.container_name matches Some(n) && n@ == name);
    }
    if exists|i: int|
        0 <= i < config.services@.len() && ((
        #[trigger] config.services@[i]).1.container_name matches Some(n) && n@ == name) {
        let i = choose|i: int|
            0 <= i < config.services@.len() && ((
            #[trigger] config.services@[i]).1.container_name matches Some(n) && n@ == name);
        assert(compose::chosen_name(config.services@[i]) == Some(name));
    }
}

/// The names of a readable project come up as opening it puts them up.
pub proof fn a_readable_project_is_opened<P>(
    app: &mut DockerGuiApp<P>,
    table: &mut ContainerTable,
    path: P,
    config: ComposeConfig,
    now: u64,
    poll: bool,
)
    requires
        call_ensures(
            DockerGuiApp::<P>::check_compose_file,
            (app, ComposeLookup::Found { path, config: Some(config) }, now),
            poll,
        ),
        call_ensures(compose::open_project, (table, &config), ()),
    ensures
        final(app).containers@ == final(table)@,
{
    assert(final(app)@.containers == compose::opened(config.services@));
}

/// A Compose file that cannot be read or understood becomes the project's file and changes nothing
/// else; without a Compose file there is no project and no container. Neither makes it necessary
/// to look at the containers.
pub proof fn other_looks_open_nothing<P>(
    app: &mut DockerGuiApp<P>,
    lookup: ComposeLookup<P>,
    now: u64,
    name: Seq<char>,
    poll: bool,
)
    requires
        call_ensures(DockerGuiApp::<P>::check_compose_file, (app, lookup, now), poll),
        lookup matches ComposeLookup::Found { path, config } ==> config is None,
    ensures
        !poll,
        final(app).current_path == old(app).current_path,
        final(app).connected == old(app).connected,
        final(app).last_update == old(app).last_update,
        lookup matches ComposeLookup::Found { path, config } ==> final(app).compose_file == Some(
            path,
        ) && final(app).containers@ == old(app).containers@,
        lookup is Missing ==> final(app).compose_file is None && !final(
            app
        ).containers@.states.contains_key(name) && final(app).containers@.order.len() == 0,
{
    assert(final(app)@ == old(app)@.checked(lookup, now));
}

/// The containers are looked at when they never were, and again half a second after the last time
/// and not before. The time of the look is kept, and nothing else changes.
pub proof fn containers_are_looked_at_twice_a_second<P>(
    app: &mut DockerGuiApp<P>,
    now: u64,
    poll: bool,
)
    requires
        call_ensures(DockerGuiApp::<P>::update_containers_if_needed, (app, now), poll),
    ensures
        poll <==> (old(app).last_update matches Some(t) ==> now >= t + 500_000_000),
        final(app).last_update == if poll {
            Some(now)
        } else {
            old(app).last_update
        },
        final(app).containers@ == old(app).containers@,
        final(app).compose_file == old(app).compose_file,
        final(app).current_path == old(app).current_path,
        final(app).connected == old(app).connected,
{
    assert(final(app)@ == old(app)@.polled(now));
}

/// A frame makes the dashboard look at its containers in the same rhythm, as long as there is a
/// Compose file, and never without one.
pub proof fn frames_look_while_there_is_a_project<P>(
    app: &mut DockerGuiApp<P>,
    now: u64,
    poll: bool,
)
    requires
        call_ensures(DockerGuiApp::<P>::begin_frame, (app, now), poll),
    ensures
        poll <==> old(app).compose_file is Some && (old(app).last_update matches Some(t) ==> now
            >= t + 500_000_000),
        final(app).last_update == if poll {
            Some(now)
        } else {
            old(app).last_update
        },
        final(app).containers@ == old(app).containers@,
        final(app).compose_file == old(app).compose_file,
        final(app).current_path == old(app).current_path,
        final(app).connected == old(app).connected,
{
    assert(final(app)@ == old(app)@ || final(app)@ == old(app)@.polled(now));
}

/// Going up leads to the parent directory, entering leads to the entry if it is a directory, and
/// neither changes anything but the directory.
pub proof fn moving_changes_the_directory_alone<P>(
    up: &mut DockerGuiApp<P>,
    parent: Option<P>,
    went_up: bool,
    down: &mut DockerGuiApp<P>,
    entry: P,
    is_dir: bool,
    entered: bool,
)
    requires
        call_ensures(DockerGuiApp::<P>::go_up, (up, parent), went_up),
        call_ensures(DockerGuiApp::<P>::enter, (down, entry, is_dir), entered),
    ensures
        went_up <==> parent is Some,
        parent matches Some(p) ==> final(up).current_path == p,
        parent is None ==> final(up).current_path == old(up).current_path,
        final(up).containers@ == old(up).containers@,
        final(up).compose_file == old(up).compose_file,
        final(up).last_update == old(up).last_update,
        final(up).connected == old(up).connected,
        entered <==> is_dir,
        is_dir ==> final(down).current_path == entry,
        !is_dir ==> final(down).current_path == old(down).current_path,
        final(down).containers@ == old(down).containers@,
        final(down).compose_file == old(down).compose_file,
        final(down).last_update == old(down).last_update,
        final(down).connected == old(down).connected,
{
    let u = final(up)@;
    let d = final(down)@;
    assert(u.connected == old(up)@.connected);
    assert(d.connected == old(down)@.connected);
}

/// The daemon's list changes the containers as taking it over does, and nothing else; it is asked
/// for with the project's file, and only where there is a daemon.
pub proof fn the_list_changes_the_containers_alone<P>(
    app: &mut DockerGuiApp<P>,
    table: &mut ContainerTable,
    config: ComposeConfig,
    listing: Vec<ContainerSummary>,
    asked: &DockerGuiApp<P>,
    source: Option<&P>,
)
    requires
        call_ensures(DockerGuiApp::<P>::update_containers, (app, &config, listing), ()),
        call_ensures(compose::take_listing, (table, &config, listing), ()),
        call_ensures(DockerGuiApp::<P>::refresh_source, (asked,), source),
        old(table)@ == old(app).containers@,
    ensures
        final(app).containers@ == final(table)@,
        final(app).compose_file == old(app).compose_file,
        final(app).current_path == old(app).current_path,
        final(app).last_update == old(app).last_update,
        final(app).connected == old(app).connected,
        source is Some <==> asked.connected && asked.compose_file is Some,
        source matches Some(p) ==> asked.compose_file == Some(*p),
{
    assert(final(app)@.containers == final(table)@);
}

/// Where there is a daemon, it is asked to start, stop or restart the very container that was
/// chosen, with ten seconds for it to stop by itself; without a daemon nothing is asked.
pub proof fn requests_name_their_container<P>(
    app: &DockerGuiApp<P>,
    id: &str,
    start: Option<DaemonRequest>,
    stop: Option<DaemonRequest>,
    restart: Option<DaemonRequest>,
)
    requires
        call_ensures(DockerGuiApp::<P>::start_container, (app, id), start),
        call_ensures(DockerGuiApp::<P>::stop_container, (app, id), stop),
        call_ensures(DockerGuiApp::<P>::restart_container, (app, id), restart),
    ensures
        !app.connected ==> start is None && stop is None && restart is None,
        app.connected ==> {
            &&& start matches Some(DaemonRequest::Start { id: i }) && i@ == id@
            &&& stop matches Some(DaemonRequest::Stop { id: i, timeout }) && i@ == id@ && timeout
                == 10
            &&& restart matches Some(DaemonRequest::Restart { id: i, timeout }) && i@ == id@
                && timeout == 10
        },
{
    if app.connected {
        assert(start->0@ is Start);
        assert(stop->0@ is Stop);
        assert(restart->0@ is Restart);
    }
}

/// With a daemon, a log is read when it never was or when the container is not on display, and
/// again one second after the last time and not before; statistics likewise after two seconds.
pub proof fn readings_keep_their_rhythm<P>(
    app: &DockerGuiApp<P>,
    id: &str,
    now: u64,
    log: bool,
    stats: bool,
)
    requires
        call_ensures(DockerGuiApp::<P>::log_update_due, (app, id, now), log),
        call_ensures(DockerGuiApp::<P>::stats_update_due, (app, id, now), stats),
    ensures
        !app.connected ==> !log && !stats,
        app.connected && !app.containers@.states.contains_key(id@) ==> log && stats,
        app.connected && app.containers@.states.contains_key(id@) ==> {
            let state = app.containers@.states[id@];
            &&& log <==> (state.last_log_update matches Some(t) ==> now >= t + 1_000_000_000)
            &&& stats <==> (state.stats.last_update matches Some(t) ==> now >= t + 2_000_000_000)
        },
{
}

/// Whether two dashboards differ in nothing but the state of one container.
pub open spec fn differ_in_one<P>(before: AppView<P>, after: AppView<P>, id: Seq<char>) -> bool {
    &&& after.connected == before.connected
    &&& after.current_path == before.current_path
    &&& after.compose_file == before.compose_file
    &&& after.last_update == before.last_update
    &&& after.containers.order == before.containers.order
    &&& forall|other: Seq<char>| #[trigger]
        after.containers.states.contains_key(other) <==> before.containers.states.contains_key(
            other,
        )
    &&& forall|other: Seq<char>|
        other != id ==> #[trigger] after.containers.states[other]
            == before.containers.states[other]
}

proof fn one_state_changes<P>(before: AppView<P>, id: Seq<char>, state: ContainerStateView)
    ensures
        differ_in_one(before, before.with_state(id, state), id),
        before.containers.has(id) ==> before.with_state(id, state).containers.states[id] == state,
        !before.containers.has(id) ==> before.with_state(id, state) == before,
{
}

/// A stored log is kept in full together with the time of reading, and changes nothing else of the
/// container nor of the dashboard. Where the container is not on display nothing changes.
pub proof fn a_stored_log_is_kept_in_full<P>(
    app: &mut DockerGuiApp<P>,
    id: &str,
    text: String,
    now: u64,
)
    requires
        call_ensures(DockerGuiApp::<P>::store_logs, (app, id, text, now), ()),
    ensures
        differ_in_one(old(app)@, final(app)@, id@),
        old(app).containers@.states.contains_key(id@) ==> {
            let before = old(app).containers@.states[id@];
            let after = final(app).containers@.states[id@];
            &&& after.logs == text@
            &&& after.last_log_update == Some(now)
            &&& after.name == before.name && after.status == before.status
            &&& after.show_logs == before.show_logs && after.show_ports == before.show_ports
            &&& after.show_info == before.show_info && after.expanded == before.expanded
            &&& after.stats == before.stats && after.ports == before.ports
            &&& after.info == before.info
        },
        !old(app).containers@.states.contains_key(id@) ==> final(app)@ == old(app)@,
{
    let before = old(app)@;
    one_state_changes(
        before,
        id@,
        ContainerStateView {
            logs: text@,
            last_log_update: Some(now),
            ..before.containers.states[id@]
        },
    );
}

/// Chunks of a log are kept as the log that they make, as storing that log does.
pub proof fn chunks_are_kept_as_their_log<P>(
    app: &mut DockerGuiApp<P>,
    id: &str,
    chunks: Vec<Vec<u8>>,
    bytes: Seq<Seq<u8>>,
    now: u64,
)
    requires
        call_ensures(DockerGuiApp::<P>::update_container_logs, (app, id, chunks, now), ()),
        bytes.len() == chunks@.len(),
        forall|i: int| 0 <= i < bytes.len() ==> #[trigger] bytes[i] == chunks@[i]@,
    ensures
        differ_in_one(old(app)@, final(app)@, id@),
        old(app).containers@.states.contains_key(id@) ==> {
            let before = old(app).containers@.states[id@];
            let after = final(app).containers@.states[id@];
            &&& exists|offsets: Seq<int>|
                offsets.len() == bytes.len() && (forall|i: int|
                    0 <= i < offsets.len() ==> -86_400 < #[trigger] offsets[i] < 86_400)
                    && after.logs == #[trigger] logs::log_text(bytes, offsets)
            &&& after.last_log_update == Some(now)
            &&& after.name == before.name && after.status == before.status
            &&& after.show_logs == before.show_logs && after.show_ports == before.show_ports
            &&& after.show_info == before.show_info && after.expanded == before.expanded
            &&& after.stats == before.stats && after.ports == before.ports
            &&& after.info == before.info
        },
{
    assert(bytes =~= logs::bytes_of(chunks@));
    let before = old(app)@;
    let offsets = choose|offsets: Seq<int>|
        logs::possible_offsets(offsets, chunks@.len()) && final(app)@ == before.logged(
            id@,
            #[trigger] logs::log_text(logs::bytes_of(chunks@), offsets),
            now,
        );
    assert forall|i: int| 0 <= i < offsets.len() implies -86_400 < #[trigger] offsets[i]
        < 86_400 by {
        assert(clock::valid_offset(offsets[i]));
    }
    let text = logs::log_text(bytes, offsets);
    one_state_changes(
        before,
        id@,
        ContainerStateView { logs: text, last_log_update: Some(now), ..before.containers.states[id@]
        },
    );
}

/// Stored statistics are those that the sample gives, and change nothing else.
pub proof fn stored_statistics_are_those_of_the_sample<P>(
    app: &mut DockerGuiApp<P>,
    id: &str,
    sample: StatsSample,
    now: u64,
    given: model::ContainerStats,
)
    requires
        call_ensures(DockerGuiApp::<P>::update_container_stats, (app, id, &sample, now), ()),
        call_ensures(stats::container_stats, (&sample, now), given),
    ensures
        differ_in_one(old(app)@, final(app)@, id@),
        old(app).containers@.states.contains_key(id@) ==> {
            let before = old(app).containers@.states[id@];
            let after = final(app).containers@.states[id@];
            &&& after.stats == given
            &&& after.name == before.name && after.status == before.status
            &&& after.logs == before.logs && after.last_log_update == before.last_log_update
            &&& after.show_logs == before.show_logs && after.show_ports == before.show_ports
            &&& after.show_info == before.show_info && after.expanded == before.expanded
            &&& after.ports == before.ports && after.info == before.info
        },
        !old(app).containers@.states.contains_key(id@) ==> final(app)@ == old(app)@,
{
    let before = old(app)@;
    one_state_changes(
        before,
        id@,
        ContainerStateView { stats: sample.stats(now), ..before.containers.states[id@] },
    );
}

/// A report sets the ports and the facts of the container to those that it gives, and changes
/// nothing else.
pub proof fn a_report_sets_ports_and_facts<P>(
    app: &mut DockerGuiApp<P>,
    id: &str,
    report: InspectReport,
    ports: Vec<model::PortMapping>,
    created: Option<clock::Moment>,
    info: model::ContainerInfo,
)
    requires
        call_ensures(DockerGuiApp::<P>::update_container_info, (app, id, report), ()),
        call_ensures(inspect::read_ports, (&report,), ports),
        call_ensures(inspect::read_created, (&report,), created),
        call_ensures(inspect::read_info, (report, created), info),
    ensures
        differ_in_one(old(app)@, final(app)@, id@),
        old(app).containers@.states.contains_key(id@) ==> {
            let before = old(app).containers@.states[id@];
            let after = final(app).containers@.states[id@];
            &&& after.ports == model::mappings(ports@)
            &&& after.info == info@
            &&& after.name == before.name && after.status == before.status
            &&& after.logs == before.logs && after.last_log_update == before.last_log_update
            &&& after.show_logs == before.show_logs && after.show_ports == before.show_ports
            &&& after.show_info == before.show_info && after.expanded == before.expanded
            &&& after.stats == before.stats
        },
        !old(app).containers@.states.contains_key(id@) ==> final(app)@ == old(app)@,
{
    let before = old(app)@;
    one_state_changes(
        before,
        id@,
        ContainerStateView {
            ports: inspect::reported_ports(report),
            info: inspect::reported_info(report, inspect::reported_instant(report)),
            ..before.containers.states[id@]
        },
    );
}

/// A panel that is toggled opens where it was closed and closes where it was open; the other
/// panels and all else stay. The log is to be read when its panel opens, and only then.
pub proof fn a_toggled_panel_opens_or_closes<P>(
    app: &mut DockerGuiApp<P>,
    id: &str,
    panel: Panel,
    read_logs: bool,
)
    requires
        call_ensures(DockerGuiApp::<P>::toggle, (app, id, panel), read_logs),
    ensures
        differ_in_one(old(app)@, final(app)@, id@),
        old(app).containers@.states.contains_key(id@) ==> {
            let before = old(app).containers@.states[id@];
            let after = final(app).containers@.states[id@];
            &&& after.expanded != before.expanded <==> panel == Panel::Details
            &&& after.show_logs != before.show_logs <==> panel == Panel::Logs
            &&& after.show_ports != before.show_ports <==> panel == Panel::Ports
            &&& after.show_info != before.show_info <==> panel == Panel::Info
            &&& after.name == before.name && after.status == before.status
            &&& after.logs == before.logs && after.last_log_update == before.last_log_update
            &&& after.stats == before.stats && after.ports == before.ports
            &&& after.info == before.info
            &&& read_logs <==> panel == Panel::Logs && after.show_logs
        },
        !old(app).containers@.states.contains_key(id@) ==> final(app)@ == old(app)@ && !read_logs,
{
    let before = old(app)@;
    one_state_changes(before, id@, flipped(before.containers.states[id@], panel));
}

/// Nothing of a dashboard is missing from its view.
pub proof fn the_view_shows_the_dashboard<P>(app: DockerGuiApp<P>)
    ensures
        app@.connected == app.connected,
        app@.current_path == app.current_path,
        app@.containers == app.containers@,
        app@.compose_file == app.compose_file,
        app@.last_update == app.last_update,
{
}

} // verus!
