//! What the dashboard keeps of each container.
use crate::clock::Moment;
use vstd::prelude::*;

verus! {

/// The texts that a list of strings holds.
pub open spec fn texts(list: Seq<String>) -> Seq<Seq<char>> {
    Seq::new(list.len(), |i: int| list[i]@)
}

/// The pairs of texts that a list of pairs of strings holds.
pub open spec fn text_pairs(list: Seq<(String, String)>) -> Seq<(Seq<char>, Seq<char>)> {
    Seq::new(list.len(), |i: int| (list[i].0@, list[i].1@))
}

/// The text of an optional string.
pub open spec fn optional_text(s: Option<String>) -> Option<Seq<char>> {
    match s {
        Some(s) => Some(s@),
        None => None,
    }
}

/// A share of processor time: what a container used while the whole system used `system_delta`.
#[derive(Clone, Copy, Debug, PartialEq, Eq)]
pub struct CpuShare {
    pub cpu_delta: i64,
    pub system_delta: i64,
    pub online_cpus: u64,
}

/// Resource use of a container. No `cpu_usage` means a processor use of zero.
#[derive(Clone, Copy, Debug, PartialEq, Eq)]
pub struct ContainerStats {
    pub cpu_usage: Option<CpuShare>,
    pub memory_usage: u64,
    pub memory_limit: u64,
    pub network_rx: u64,
    pub network_tx: u64,
    pub block_read: u64,
    pub block_write: u64,
    pub last_update: Option<u64>,
}

/// Statistics of a container that none were read of.
pub open spec fn no_stats() -> ContainerStats {
    ContainerStats {
        cpu_usage: None,
        memory_usage: 0,
        memory_limit: 0,
        network_rx: 0,
        network_tx: 0,
        block_read: 0,
        block_write: 0,
        last_update: None,
    }
}

impl Default for ContainerStats {
    fn default() -> (stats: Self)
        ensures
            stats == no_stats(),
    {
        ContainerStats {
            cpu_usage: None,
            memory_usage: 0,
            memory_limit: 0,
            network_rx: 0,
            network_tx: 0,
            block_read: 0,
            block_write: 0,
            last_update: None,
        }
    }
}

/// A port of a container that the host forwards to it.
#[derive(Clone, Debug, PartialEq, Eq)]
pub struct PortMapping {
    pub container_port: u16,
    pub host_port: u16,
    pub protocol: String,
}

/// What a `PortMapping` says.
pub struct PortMappingView {
    pub container_port: u16,
    pub host_port: u16,
    pub protocol: Seq<char>,
}

impl View for PortMapping {
    type V = PortMappingView;

    open spec fn view(&self) -> PortMappingView {
        PortMappingView {
            container_port: self.container_port,
            host_port: self.host_port,
            protocol: self.protocol@,
        }
    }
}

/// The mappings that a list holds.
pub open spec fn mappings(list: Seq<PortMapping>) -> Seq<PortMappingView> {
    Seq::new(list.len(), |i: int| list[i]@)
}

/// Descriptive facts about a container. Volumes are pairs of a host path and a container path.
#[derive(Clone, Debug, PartialEq, Eq)]
pub struct ContainerInfo {
    pub image: String,
    pub created: Moment,
    pub env: Vec<String>,
    pub volumes: Vec<(String, String)>,
}

/// What a `ContainerInfo` says; `created` is the second and the fraction of the instant.
pub struct ContainerInfoView {
    pub image: Seq<char>,
    pub created: (i64, u32),
    pub env: Seq<Seq<char>>,
    pub volumes: Seq<(Seq<char>, Seq<char>)>,
}

impl View for ContainerInfo {
    type V = ContainerInfoView;

    open spec fn view(&self) -> ContainerInfoView {
        ContainerInfoView {
            image: self.image@,
            created: self.created.instant(),
            env: texts(self.env@),
            volumes: text_pairs(self.volumes@),
        }
    }
}

/// The facts about a container that nothing is known of.
pub open spec fn no_info() -> ContainerInfoView {
    ContainerInfoView {
        image: Seq::empty(),
        created: (0, 0),
        env: Seq::empty(),
        volumes: Seq::empty(),
    }
}

impl Default for ContainerInfo {
    fn default() -> (info: Self)
        ensures
            info@ == no_info(),
    {
        let info: ContainerInfo = ContainerInfo {
            image: String::new(),
            created: Moment::epoch(),
            env: Vec::new(),
            volumes: Vec::new(),
        };
        assert(texts(info.env@) =~= Seq::empty());
        assert(text_pairs(info.volumes@) =~= Seq::empty());
        info
    }
}

/// Everything the dashboard keeps of one container.
#[derive(Clone, Debug, PartialEq, Eq)]
pub struct ContainerState {
    pub name: String,
    pub status: String,
    pub logs: String,
    pub show_logs: bool,
    pub last_log_update: Option<u64>,
    pub stats: ContainerStats,
    pub ports: Vec<PortMapping>,
    pub show_ports: bool,
    pub info: ContainerInfo,
    pub show_info: bool,
    pub expanded: bool,
}

/// What a `ContainerState` says.
pub struct ContainerStateView {
    pub name: Seq<char>,
    pub status: Seq<char>,
    pub logs: Seq<char>,
    pub show_logs: bool,
    pub last_log_update: Option<u64>,
    pub stats: ContainerStats,
    pub ports: Seq<PortMappingView>,
    pub show_ports: bool,
    pub info: ContainerInfoView,
    pub show_info: bool,
    pub expanded: bool,
}

impl View for ContainerState {
    type V = ContainerStateView;

    open spec fn view(&self) -> ContainerStateView {
        ContainerStateView {
            name: self.name@,
            status: self.status@,
            logs: self.logs@,
            show_logs: self.show_logs,
            last_log_update: self.last_log_update,
            stats: self.stats,
            ports: mappings(self.ports@),
            show_ports: self.show_ports,
            info: self.info@,
            show_info: self.show_info,
            expanded: self.expanded,
        }
    }
}

/// The state of a container that is known by nothing but the Compose file.
pub open spec fn blank_state() -> ContainerStateView {
    ContainerStateView {
        name: Seq::empty(),
        status: Seq::empty(),
        logs: Seq::empty(),
        show_logs: false,
        last_log_update: None,
        stats: no_stats(),
        ports: Seq::empty(),
        show_ports: false,
        info: no_info(),
        show_info: false,
        expanded: false,
    }
}

impl Default for ContainerState {
    fn default() -> (state: Self)
        ensures
            state@ == blank_state(),
    {
        let state: ContainerState = ContainerState {
            name: String::new(),
            status: String::new(),
            logs: String::new(),
            show_logs: false,
            last_log_update: None,
            stats: ContainerStats::default(),
            ports: Vec::new(),
            show_ports: false,
            info: ContainerInfo::default(),
            show_info: false,
            expanded: false,
        };
        assert(mappings(state.ports@) =~= Seq::empty());
        state
    }
}

/// What is kept of a container that nothing but its name is known of: nothing.
pub proof fn blank_containers_are_blank(
    state: ContainerState,
    info: ContainerInfo,
    stats: ContainerStats,
)
    requires
        call_ensures(ContainerState::default, (), state),
        call_ensures(ContainerInfo::default, (), info),
        call_ensures(ContainerStats::default, (), stats),
    ensures
        state@.name.len() == 0 && state@.status.len() == 0 && state@.logs.len() == 0,
        !state@.show_logs && !state@.show_ports && !state@.show_info && !state@.expanded,
        state@.last_log_update is None,
        state@.ports.len() == 0,
        state@.info == info@,
        state@.stats == stats,
        info@.image.len() == 0 && info@.env.len() == 0 && info@.volumes.len() == 0,
        info@.created == (0i64, 0u32),
        stats.cpu_usage is None && stats.last_update is None,
        stats.memory_usage == 0 && stats.memory_limit == 0,
        stats.network_rx == 0 && stats.network_tx == 0,
        stats.block_read == 0 && stats.block_write == 0,
{
}

/// Nothing that is kept of a container is missing from its view.
pub proof fn views_show_every_field(state: ContainerState, mapping: PortMapping, i: int)
    ensures
        state@.name == state.name@ && state@.status == state.status@ && state@.logs == state.logs@,
        state@.show_logs == state.show_logs && state@.show_ports == state.show_ports,
        state@.show_info == state.show_info && state@.expanded == state.expanded,
        state@.last_log_update == state.last_log_update,
        state@.stats == state.stats,
        state@.ports.len() == state.ports@.len(),
        0 <= i < state.ports@.len() ==> state@.ports[i] == state.ports@[i]@,
        mapping@.container_port == mapping.container_port,
        mapping@.host_port == mapping.host_port,
        mapping@.protocol == mapping.protocol@,
        state@.info.image == state.info.image@,
        state@.info.created == (state.info.created.secs(), state.info.created.nanos()),
        state@.info.env.len() == state.info.env@.len(),
        0 <= i < state.info.env@.len() ==> state@.info.env[i] == state.info.env@[i]@,
        state@.info.volumes.len() == state.info.volumes@.len(),
        0 <= i < state.info.volumes@.len() ==> state@.info.volumes[i] == (
            state.info.volumes@[i].0@,
            state.info.volumes@[i].1@,
        ),
{
}

} // verus!
