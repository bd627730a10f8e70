//! The daemon's report on one container: forwarded ports and descriptive facts.
use crate::clock;
use crate::clock::Moment;
use crate::model;
use crate::model::{ContainerInfo, ContainerInfoView, PortMapping, PortMappingView};
use crate::text;
use vstd::prelude::*;

verus! {

/// A port of the container, written as number and protocol around a slash, and the host ports
/// that are bound to it.
pub struct PublishedPort {
    pub port: String,
    pub bindings: Option<Vec<Option<String>>>,
}

/// The part of the report on the container's configuration.
pub struct ConfigReport {
    pub image: Option<String>,
    pub env: Option<Vec<String>>,
}

/// A mounted volume.
pub struct MountReport {
    pub source: Option<String>,
    pub destination: Option<String>,
}

/// What the daemon reports on one container.
pub struct InspectReport {
    pub ports: Option<Vec<PublishedPort>>,
    pub config: Option<ConfigReport>,
    pub created: Option<String>,
    pub mounts: Option<Vec<MountReport>>,
}

/// The protocol of a published port, TCP where none is written.
pub open spec fn protocol_of(port: Seq<char>) -> Seq<char> {
    match text::second_segment(port, '/') {
        Some(protocol) => protocol,
        None => "tcp"@,
    }
}

/// The mapping that one binding of a port gives: none unless both ports are written as numbers.
pub open spec fn mapping_of(port: Seq<char>, host: Option<Seq<char>>) -> Option<PortMappingView> {
    match (host, text::port_number(text::first_segment(port, '/'))) {
        (Some(host), Some(container_port)) => match text::port_number(host) {
            Some(host_port) => Some(
                PortMappingView { container_port, host_port, protocol: protocol_of(port) },
            ),
            None => None,
        },
        _ => None,
    }
}

/// The sequence of an optional value.
pub open spec fn at_most_one<T>(value: Option<T>) -> Seq<T> {
    match value {
        Some(v) => seq![v],
        None => seq![],
    }
}

/// The mappings of one port, in the order of its bindings.
pub open spec fn bound_ports(port: Seq<char>, bindings: Seq<Option<String>>) -> Seq<PortMappingView>
    decreases bindings.len(),
{
    if bindings.len() == 0 {
        Seq::empty()
    } else {
        bound_ports(port, bindings.drop_last()) + at_most_one(
            mapping_of(port, model::optional_text(bindings.last())),
        )
    }
}

/// The mappings of one published port.
pub open spec fn published(port: PublishedPort) -> Seq<PortMappingView> {
    match port.bindings {
        Some(bindings) => bound_ports(port.port@, bindings@),
        None => Seq::empty(),
    }
}

/// The mappings of all ports, port after port.
pub open spec fn all_published(ports: Seq<PublishedPort>) -> Seq<PortMappingView>
    decreases ports.len(),
{
    if ports.len() == 0 {
        Seq::empty()
    } else {
        all_published(ports.drop_last()) + published(ports.last())
    }
}

/// The mappings that a report gives.
pub open spec fn reported_ports(report: InspectReport) -> Seq<PortMappingView> {
    match report.ports {
        Some(ports) => all_published(ports@),
        None => Seq::empty(),
    }
}

/// The volume of one mount: none unless both of its paths are known.
pub open spec fn volume_of(mount: MountReport) -> Option<(Seq<char>, Seq<char>)> {
    match (mount.source, mount.destination) {
        (Some(source), Some(destination)) => Some((source@, destination@)),
        _ => None,
    }
}

/// The volumes of all mounts, in their order.
pub open spec fn volumes_of(mounts: Seq<MountReport>) -> Seq<(Seq<char>, Seq<char>)>
    decreases mounts.len(),
{
    if mounts.len() == 0 {
        Seq::empty()
    } else {
        volumes_of(mounts.drop_last()) + at_most_one(volume_of(mounts.last()))
    }
}

/// The facts that a report gives, where `created` is the instant that its time stamp names.
pub open spec fn reported_info(
    report: InspectReport,
    created: Option<(i64, u32)>,
) -> ContainerInfoView {
    ContainerInfoView {
        image: match report.config {
            Some(config) => match config.image {
                Some(image) => image@,
                None => Seq::empty(),
            },
            None => Seq::empty(),
        },
        created: match created {
            Some(instant) => clock::settle(instant),
            None => (0, 0),
        },
        env: match report.config {
            Some(config) => match config.env {
                Some(env) => model::texts(env@),
                None => Seq::empty(),
            },
            None => Seq::empty(),
        },
        volumes: match report.mounts {
            Some(mounts) => volumes_of(mounts@),
            None => Seq::empty(),
        },
    }
}

/// The instant of the report's time stamp: none where it is missing or not an RFC 3339 stamp.
pub open spec fn reported_instant(report: InspectReport) -> Option<(i64, u32)> {
    match report.created {
        Some(stamp) => clock::rfc3339_instant(stamp@),
        None => None,
    }
}

/// The mapping that one binding of a port gives.
pub fn read_binding(port: &str, host: &Option<String>) -> (mapping: Option<PortMapping>)
    ensures
        mapping is Some <==> mapping_of(port@, model::optional_text(*host)) is Some,
        mapping matches Some(m) ==> mapping_of(port@, model::optional_text(*host)) == Some(m@),
{
    let host: &String = match host {
        Some(host) => host,
        None => {
            return None;
        },
    };
    let container_port: u16 = match text::parse_port(text::segment_first(port, '/').as_str()) {
        Some(n) => n,
        None => {
            return None;
        },
    };
    let host_port: u16 = match text::parse_port(host.as_str()) {
        Some(n) => n,
        None => {
            return None;
        },
    };
    let protocol: String = match text::segment_second(port, '/') {
        Some(protocol) => protocol,
        None => "tcp".to_owned(),
    };
    Some(PortMapping { container_port, host_port, protocol })
}

fn read_published(port: &PublishedPort, found: &mut Vec<PortMapping>)
    ensures
        model::mappings(final(found)@) == model::mappings(old(found)@) + published(*port),
{
    let ghost before = model::mappings(found@);
    let bindings: &Vec<Option<String>> = match &port.bindings {
        Some(bindings) => bindings,
        None => {
            assert(before + Seq::empty() =~= before);
            return ;
        },
    };
    assert(before + Seq::empty() =~= before);
    assert(bindings@.take(0) =~= Seq::empty());
    let mut i: usize = 0;
    while i < bindings.len()
        invariant
            i <= bindings@.len(),
            model::mappings(found@) == before + bound_ports(port.port@, bindings@.take(i as int)),
        decreases bindings@.len() - i,
    {
        assert(bindings@.take(i + 1).drop_last() =~= bindings@.take(i as int));
        let ghost so_far = found@;
        match read_binding(port.port.as_str(), &bindings[i]) {
            Some(mapping) => {
                found.push(mapping);
                assert(model::mappings(found@) =~= model::mappings(so_far) + seq![mapping@]);
            },
            None => {},
        }
        assert(model::mappings(found@) =~= before + bound_ports(
            port.port@,
            bindings@.take(i + 1),
        ));
        i = i + 1;
    }
    assert(bindings@.take(i as int) =~= bindings@);
}

/// The forwarded ports of a report.
pub fn read_ports(report: &InspectReport) -> (found: Vec<PortMapping>)
    ensures
        model::mappings(found@) == reported_ports(*report),
{
    let mut found: Vec<PortMapping> = Vec::new();
    assert(model::mappings(found@) =~= Seq::empty());
    let ports: &Vec<PublishedPort> = match &report.ports {
        Some(ports) => ports,
        None => {
            return found;
        },
    };
    assert(ports@.take(0) =~= Seq::empty());
    let mut i: usize = 0;
    while i < ports.len()
        invariant
            i <= ports@.len(),
            model::mappings(found@) == all_published(ports@.take(i as int)),
        decreases ports@.len() - i,
    {
        assert(ports@.take(i + 1).drop_last() =~= ports@.take(i as int));
        read_published(&ports[i], &mut found);
        i = i + 1;
    }
    assert(ports@.take(i as int) =~= ports@);
    found
}

fn read_volumes(mounts: Option<Vec<MountReport>>) -> (volumes: Vec<(String, String)>)
    ensures
        model::text_pairs(volumes@) == (match mounts {
            Some(mounts) => volumes_of(mounts@),
            None => Seq::empty(),
        }),
{
    let mut volumes: Vec<(String, String)> = Vec::new();
    assert(model::text_pairs(volumes@) =~= Seq::empty());
    let mounts: Vec<MountReport> = match mounts {
        Some(mounts) => mounts,
        None => {
            return volumes;
        },
    };
    assert(mounts@.take(0) =~= Seq::empty());
    let mut i: usize = 0;
    while i < mounts.len()
        invariant
            i <= mounts@.len(),
            model::text_pairs(volumes@) == volumes_of(mounts@.take(i as int)),
        decreases mounts@.len() - i,
    {
        assert(mounts@.take(i + 1).drop_last() =~= mounts@.take(i as int));
        let ghost so_far = volumes@;
        let mount: &MountReport = &mounts[i];
        match (&mount.source, &mount.destination) {
            (Some(source), Some(destination)) => {
                let volume: (String, String) = (source.clone(), destination.clone());
                volumes.push(volume);
                assert(model::text_pairs(volumes@) =~= model::text_pairs(so_far) + seq![
                    (source@, destination@),
                ]);
            },
            _ => {
                assert(volume_of(*mount) is None);
            },
        }
        assert(model::text_pairs(volumes@) =~= volumes_of(mounts@.take(i + 1)));
        i = i + 1;
    }
    assert(mounts@.take(i as int) =~= mounts@);
    volumes
}

/// The instant of the report's time stamp.
pub fn read_created(report: &InspectReport) -> (created: Option<Moment>)
    ensures
        created is Some <==> reported_instant(*report) is Some,
        created matches Some(m) ==> reported_instant(*report) == Some(m.instant()),
{
    match &report.created {
        Some(stamp) => Moment::parse(stamp.as_str()),
        None => None,
    }
}

/// The facts of a report, where `created` is the instant that its time stamp names.
pub fn read_info(report: InspectReport, created: Option<Moment>) -> (info: ContainerInfo)
    ensures
        info@ == reported_info(
            report,
            match created {
                Some(m) => Some(m.instant()),
                None => None,
            },
        ),
{
    let mut info: ContainerInfo = ContainerInfo::default();
    match report.config {
        Some(config) => {
            match config.image {
                Some(image) => {
                    info.image = image;
                },
                None => {},
            }
            match config.env {
                Some(env) => {
                    info.env = env;
                },
                None => {},
            }
        },
        None => {},
    }
    match created {
        Some(moment) => {
            info.created = moment.settled();
        },
        None => {},
    }
    info.volumes = read_volumes(report.mounts);
    info
}

/// The ports of two lists together are the ports of the first, then those of the second.
pub proof fn published_ports_concatenate(a: Seq<PublishedPort>, b: Seq<PublishedPort>)
    ensures
        all_published(a + b) == all_published(a) + all_published(b),
    decreases b.len(),
{
    if b.len() == 0 {
        assert(a + b =~= a);
        assert(all_published(a) + Seq::empty() =~= all_published(a));
    } else {
        published_ports_concatenate(a, b.drop_last());
        assert((a + b).drop_last() =~= a + b.drop_last());
        assert(all_published(a + b) =~= all_published(a) + all_published(b));
    }
}

/// Every mapping of a port has the port's own number and protocol, and there are no more of them
/// than bindings.
pub proof fn bound_ports_agree(port: Seq<char>, bindings: Seq<Option<String>>)
    ensures
        bound_ports(port, bindings).len() <= bindings.len(),
        forall|i: int|
            0 <= i < bound_ports(port, bindings).len() ==> {
                &&& (#[trigger] bound_ports(port, bindings)[i]).protocol == protocol_of(port)
                &&& text::port_number(text::first_segment(port, '/')) == Some(
                    bound_ports(port, bindings)[i].container_port,
                )
            },
    decreases bindings.len(),
{
    if bindings.len() > 0 {
        bound_ports_agree(port, bindings.drop_last());
    }
}

/// A published port that is written without a number gives no mapping at all.
pub proof fn unnumbered_port_gives_nothing(port: PublishedPort)
    requires
        text::port_number(text::first_segment(port.port@, '/')) is None,
    ensures
        published(port) == Seq::<PortMappingView>::empty(),
{
    match port.bindings {
        Some(bindings) => {
            bound_ports_agree(port.port@, bindings@);
            let found = bound_ports(port.port@, bindings@);
            if found.len() > 0 {
                assert(found[0].protocol == protocol_of(port.port@));
            }
            assert(found =~= Seq::empty());
        },
        None => {},
    }
}

/// A binding gives a mapping exactly where both of its ports are numbers, equal or not, and the
/// mapping has the two numbers and the protocol that follows the slash, whatever comes after it.
pub proof fn bindings_map_their_numbers(
    port: &str,
    number: &str,
    protocol: Seq<char>,
    rest: Seq<char>,
    host: String,
    host_number: &str,
    container_port: Option<u16>,
    host_port: Option<u16>,
    mapping: Option<PortMapping>,
)
    requires
        call_ensures(read_binding, (port, &Some(host)), mapping),
        call_ensures(text::parse_port, (number,), container_port),
        call_ensures(text::parse_port, (host_number,), host_port),
        host_number@ == host@,
        !number@.contains('/'),
        !protocol.contains('/'),
        rest.len() == 0 || rest[0] == '/',
        port@ == number@ + seq!['/'] + protocol + rest,
    ensures
        mapping is Some <==> container_port is Some && host_port is Some,
        mapping matches Some(m) ==> {
            &&& container_port == Some(m.container_port)
            &&& host_port == Some(m.host_port)
            &&& m.protocol@ == protocol
        },
{
    segments(port@, number@, protocol, rest);
}

proof fn segments(port: Seq<char>, number: Seq<char>, protocol: Seq<char>, rest: Seq<char>)
    requires
        !number.contains('/'),
        !protocol.contains('/'),
        rest.len() == 0 || rest[0] == '/',
        port == number + seq!['/'] + protocol + rest,
    ensures
        text::first_segment(port, '/') == number,
        protocol_of(port) == protocol,
{
    text::first_position_is_first(port, '/');
    let k = text::first_position(port, '/') as int;
    assert(port[number.len() as int] == '/');
    if k < number.len() {
        assert(number[k] == '/');
    }
    assert(port.take(k) =~= number);
    let behind = port.skip(k + 1);
    assert(behind =~= protocol + rest);
    text::first_position_is_first(behind, '/');
    let j = text::first_position(behind, '/') as int;
    if j < protocol.len() {
        assert(protocol[j] == '/');
    }
    if rest.len() > 0 {
        assert(behind[protocol.len() as int] == '/');
    }
    assert(j == protocol.len());
    assert(behind.take(j) =~= protocol);
}

/// A port that is written without a protocol is a TCP port.
pub proof fn bindings_are_tcp_by_default(
    port: &str,
    host: String,
    host_number: &str,
    container_port: Option<u16>,
    host_port: Option<u16>,
    mapping: Option<PortMapping>,
)
    requires
        call_ensures(read_binding, (port, &Some(host)), mapping),
        call_ensures(text::parse_port, (port,), container_port),
        call_ensures(text::parse_port, (host_number,), host_port),
        host_number@ == host@,
        !port@.contains('/'),
    ensures
        mapping is Some <==> container_port is Some && host_port is Some,
        mapping matches Some(m) ==> {
            &&& container_port == Some(m.container_port)
            &&& host_port == Some(m.host_port)
            &&& m.protocol@ == "tcp"@
        },
{
    text::first_position_is_first(port@, '/');
    assert(port@.take(port@.len() as int) =~= port@);
}

/// A binding without a host port gives no mapping.
pub proof fn bindings_need_a_host_port(port: &str, mapping: Option<PortMapping>)
    requires
        call_ensures(read_binding, (port, &None::<String>), mapping),
    ensures
        mapping is None,
{
}

proof fn decimal_has_no_slash(n: nat)
    ensures
        !text::decimal(n).contains('/'),
{
    text::decimal_steps(n);
    assert forall|i: int| 0 <= i < text::decimal(n).len() implies text::decimal(n)[i] != '/' by {
        assert('0' <= text::decimal(n)[i]);
    }
}

/// Every container port is forwarded from every host port, equal or not, under every protocol:
/// the texts of the two numbers give exactly that mapping.
pub proof fn forwarded_ports_are_read_back(
    port: &str,
    container_port: u16,
    host_port: u16,
    protocol: Seq<char>,
    host: String,
    mapping: Option<PortMapping>,
)
    requires
        call_ensures(read_binding, (port, &Some(host)), mapping),
        !protocol.contains('/'),
        port@ == text::decimal(container_port as nat) + seq!['/'] + protocol,
        host@ == text::decimal(host_port as nat),
    ensures
        mapping matches Some(m) && m.container_port == container_port && m.host_port == host_port
            && m.protocol@ == protocol,
{
    let number = text::decimal(container_port as nat);
    decimal_has_no_slash(container_port as nat);
    assert(port@ =~= number + seq!['/'] + protocol + Seq::<char>::empty());
    segments(port@, number, protocol, Seq::empty());
    text::port_text_reads_back(container_port);
    text::port_text_reads_back(host_port);
}

/// A published port whose bindings are all numbers gives as many mappings as bindings, in their
/// order, each with the host port of its binding.
pub proof fn every_numbered_binding_is_read(
    report: InspectReport,
    port: PublishedPort,
    bindings: Vec<Option<String>>,
    container_port: u16,
    protocol: Seq<char>,
    hosts: Seq<u16>,
    found: Vec<PortMapping>,
)
    requires
        call_ensures(read_ports, (&report,), found),
        report.ports matches Some(ports) && ports@ == seq![port],
        port.bindings == Some(bindings),
        !protocol.contains('/'),
        port.port@ == text::decimal(container_port as nat) + seq!['/'] + protocol,
        hosts.len() == bindings@.len(),
        forall|i: int|
            0 <= i < hosts.len() ==> ((#[trigger] bindings@[i]) matches Some(host) && host@
                == text::decimal(hosts[i] as nat)),
    ensures
        found@.len() == bindings@.len(),
        forall|i: int|
            0 <= i < hosts.len() ==> (#[trigger] found@[i]).container_port == container_port
                && found@[i].host_port == hosts[i] && found@[i].protocol@ == protocol,
{
    let number = text::decimal(container_port as nat);
    decimal_has_no_slash(container_port as nat);
    assert(port.port@ =~= number + seq!['/'] + protocol + Seq::<char>::empty());
    segments(port.port@, number, protocol, Seq::empty());
    text::port_text_reads_back(container_port);
    numbered_bindings(port.port@, container_port, protocol, bindings@, hosts);
    only_port(port);
    assert forall|i: int| 0 <= i < hosts.len() implies (#[trigger] found@[i]).container_port
        == container_port && found@[i].host_port == hosts[i] && found@[i].protocol@
        == protocol by {
        assert(model::mappings(found@)[i] == found@[i]@);
    }
}

proof fn only_port(port: PublishedPort)
    ensures
        all_published(seq![port]) == published(port),
{
    assert(seq![port].drop_last() =~= Seq::empty());
    assert(all_published(seq![port].drop_last()) == Seq::<PortMappingView>::empty());
    assert(Seq::<PortMappingView>::empty() + published(port) =~= published(port));
}

proof fn numbered_bindings(
    port: Seq<char>,
    container_port: u16,
    protocol: Seq<char>,
    bindings: Seq<Option<String>>,
    hosts: Seq<u16>,
)
    requires
        text::port_number(text::first_segment(port, '/')) == Some(container_port),
        protocol_of(port) == protocol,
        hosts.len() == bindings.len(),
        forall|i: int|
            0 <= i < hosts.len() ==> ((#[trigger] bindings[i]) matches Some(host) && host@
                == text::decimal(hosts[i] as nat)),
    ensures
        bound_ports(port, bindings) == Seq::new(
            hosts.len(),
            |i: int| PortMappingView { container_port, host_port: hosts[i], protocol },
        ),
    decreases bindings.len(),
{
    let all = Seq::new(
        hosts.len(),
        |i: int| PortMappingView { container_port, host_port: hosts[i], protocol },
    );
    if bindings.len() > 0 {
        let n = bindings.len() - 1;
        numbered_bindings(port, container_port, protocol, bindings.drop_last(), hosts.drop_last());
        assert(bindings[n] is Some);
        text::port_text_reads_back(hosts[n]);
        assert(bound_ports(port, bindings) =~= all);
    } else {
        assert(bound_ports(port, bindings) =~= all);
    }
}

/// The mappings of a report are those of its ports one after the other.
pub proof fn reports_are_read_port_by_port(
    report: InspectReport,
    first: InspectReport,
    second: InspectReport,
    all: Vec<PortMapping>,
    before: Vec<PortMapping>,
    after: Vec<PortMapping>,
)
    requires
        call_ensures(read_ports, (&report,), all),
        call_ensures(read_ports, (&first,), before),
        call_ensures(read_ports, (&second,), after),
        report.ports is Some,
        first.ports is Some,
        second.ports is Some,
        report.ports->0@ == first.ports->0@ + second.ports->0@,
    ensures
        all@.len() == before@.len() + after@.len(),
        model::mappings(all@) == model::mappings(before@) + model::mappings(after@),
{
    published_ports_concatenate(first.ports->0@, second.ports->0@);
    assert(all@.len() == model::mappings(all@).len());
}

/// The mappings of one port are those of its bindings one after the other.
pub proof fn ports_are_read_binding_by_binding(
    report: InspectReport,
    shorter: InspectReport,
    port: PublishedPort,
    less: PublishedPort,
    written: &str,
    binding: Option<String>,
    all: Vec<PortMapping>,
    before: Vec<PortMapping>,
    last: Option<PortMapping>,
)
    requires
        call_ensures(read_ports, (&report,), all),
        call_ensures(read_ports, (&shorter,), before),
        call_ensures(read_binding, (written, &binding), last),
        written@ == port.port@,
        report.ports is Some && report.ports->0@ == seq![port],
        shorter.ports is Some && shorter.ports->0@ == seq![less],
        port.port@ == less.port@,
        port.bindings is Some,
        less.bindings is Some,
        port.bindings->0@ == less.bindings->0@.push(binding),
    ensures
        last is None ==> model::mappings(all@) == model::mappings(before@),
        last matches Some(m) ==> model::mappings(all@) == model::mappings(before@).push(m@),
{
    only_port(port);
    only_port(less);
    let list = port.bindings->0@;
    assert(list.drop_last() =~= less.bindings->0@);
    if last is None {
        assert(model::mappings(all@) =~= model::mappings(before@));
    } else {
        assert(model::mappings(all@) =~= model::mappings(before@).push(last->0@));
    }
}

/// Without ports, and without bindings, there are no mappings.
pub proof fn nothing_published_gives_nothing(
    report: InspectReport,
    port: PublishedPort,
    found: Vec<PortMapping>,
)
    requires
        call_ensures(read_ports, (&report,), found),
        report.ports is None || report.ports->0@.len() == 0 || (report.ports->0@ == seq![port] && (
        port.bindings is None || port.bindings->0@.len() == 0)),
    ensures
        found@.len() == 0,
{
    only_port(port);
    assert(found@.len() == model::mappings(found@).len());
}

/// The image and the environment are taken over as they are reported, whatever their lengths, and
/// are empty where they are not reported.
pub proof fn image_and_environment_are_taken_over(
    report: InspectReport,
    created: Option<Moment>,
    info: ContainerInfo,
)
    requires
        call_ensures(read_info, (report, created), info),
    ensures
        report.config matches Some(config) ==> {
            &&& config.image matches Some(image) ==> info.image@ == image@
            &&& config.image is None ==> info.image@.len() == 0
            &&& config.env matches Some(env) ==> info.env@.len() == env@.len() && forall|i: int|
                0 <= i < env@.len() ==> (#[trigger] info.env@[i])@ == env@[i]@
            &&& config.env is None ==> info.env@.len() == 0
        },
        report.config is None ==> info.image@.len() == 0 && info.env@.len() == 0,
{
    assert(info@.env.len() == info.env@.len());
    if report.config is Some && report.config->0.env is Some {
        let env = report.config->0.env->0;
        assert forall|i: int| 0 <= i < env@.len() implies (#[trigger] info.env@[i])@
            == env@[i]@ by {
            assert(info@.env[i] == info.env@[i]@);
            assert(model::texts(env@)[i] == env@[i]@);
        }
    }
}

/// The instant of creation is kept: the one that was read, with a leap second carried over into
/// the next second, and the beginning of the year 1970 where none was read.
pub proof fn the_instant_of_creation_is_kept(
    report: InspectReport,
    created: Option<Moment>,
    info: ContainerInfo,
)
    requires
        call_ensures(read_info, (report, created), info),
    ensures
        created is None ==> info.created.secs() == 0 && info.created.nanos() == 0,
        created matches Some(m) ==> {
            &&& m.nanos() < 1_000_000_000 ==> info.created.secs() == m.secs()
                && info.created.nanos() == m.nanos()
            &&& clock::EARLIEST_SECOND <= m.secs() <= clock::LATEST_SECOND && 1_000_000_000
                <= m.nanos() < 2_000_000_000 ==> info.created.secs() == m.secs() + 1
                && info.created.nanos() == m.nanos() - 1_000_000_000
        },
{
}

/// The instant that is read is the one that the report's time stamp names.
pub proof fn the_stamp_of_creation_is_read(report: InspectReport, created: Option<Moment>)
    requires
        call_ensures(read_created, (&report,), created),
    ensures
        report.created is None ==> created is None,
        report.created matches Some(stamp) ==> {
            &&& created is Some <==> clock::rfc3339_instant(stamp@) is Some
            &&& created matches Some(m) ==> clock::rfc3339_instant(stamp@) == Some(
                (m.secs(), m.nanos()),
            )
        },
{
}

proof fn known_volumes(mounts: Seq<MountReport>)
    requires
        forall|i: int|
            0 <= i < mounts.len() ==> (#[trigger] mounts[i]).source is Some
                && mounts[i].destination is Some,
    ensures
        volumes_of(mounts) == Seq::new(
            mounts.len(),
            |i: int| (mounts[i].source->0@, mounts[i].destination->0@),
        ),
    decreases mounts.len(),
{
    let all = Seq::new(
        mounts.len(),
        |i: int| (mounts[i].source->0@, mounts[i].destination->0@),
    );
    if mounts.len() > 0 {
        let last = mounts[mounts.len() - 1];
        assert(last.source is Some && last.destination is Some);
        assert forall|i: int| 0 <= i < mounts.drop_last().len() implies (
        #[trigger] mounts.drop_last()[i]).source is Some
            && mounts.drop_last()[i].destination is Some by {
            assert(mounts[i].source is Some);
        }
        known_volumes(mounts.drop_last());
    }
    assert(volumes_of(mounts) =~= all);
}

/// Every mount with both paths gives a volume with those paths, in the order of the mounts.
pub proof fn every_known_mount_is_a_volume(
    report: InspectReport,
    mounts: Vec<MountReport>,
    created: Option<Moment>,
    info: ContainerInfo,
)
    requires
        call_ensures(read_info, (report, created), info),
        report.mounts == Some(mounts),
        forall|i: int|
            0 <= i < mounts@.len() ==> (#[trigger] mounts@[i]).source is Some
                && mounts@[i].destination is Some,
    ensures
        info.volumes@.len() == mounts@.len(),
        forall|i: int|
            0 <= i < mounts@.len() ==> (#[trigger] info.volumes@[i]).0@ == mounts@[i].source->0@
                && info.volumes@[i].1@ == mounts@[i].destination->0@,
{
    known_volumes(mounts@);
    assert(info@.volumes.len() == info.volumes@.len());
    assert forall|i: int| 0 <= i < mounts@.len() implies (#[trigger] info.volumes@[i]).0@
        == mounts@[i].source->0@ && info.volumes@[i].1@ == mounts@[i].destination->0@ by {
        assert(info@.volumes[i] == (info.volumes@[i].0@, info.volumes@[i].1@));
    }
}

/// The volumes are those of the mounts one after the other: one more mount adds its two paths at
/// the end, or nothing where one of them is missing. Without mounts there are none.
pub proof fn mounts_are_read_one_by_one(
    report: InspectReport,
    shorter: InspectReport,
    mount: MountReport,
    created: Option<Moment>,
    info: ContainerInfo,
    less: ContainerInfo,
)
    requires
        call_ensures(read_info, (report, created), info),
        call_ensures(read_info, (shorter, created), less),
        shorter.mounts is Some,
        report.mounts is None || report.mounts->0@ == shorter.mounts->0@.push(mount),
    ensures
        report.mounts is None ==> info.volumes@.len() == 0,
        report.mounts is Some && (mount.source is None || mount.destination is None)
            ==> model::text_pairs(info.volumes@) == model::text_pairs(less.volumes@),
        report.mounts is Some && mount.source is Some && mount.destination is Some
            ==> model::text_pairs(info.volumes@) == model::text_pairs(less.volumes@).push(
            (mount.source->0@, mount.destination->0@),
        ),
{
    assert(info@.volumes.len() == info.volumes@.len());
    if report.mounts is Some {
        let list = report.mounts->0@;
        assert(list.drop_last() =~= shorter.mounts->0@);
        assert(list.last() == mount);
        let before = volumes_of(shorter.mounts->0@);
        if mount.source is Some && mount.destination is Some {
            assert(volumes_of(list) =~= before.push((mount.source->0@, mount.destination->0@)));
        } else {
            assert(volume_of(mount) is None);
            assert(volumes_of(list) =~= before);
        }
    }
}

} // verus!
