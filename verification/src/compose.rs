//! Compose projects: which containers belong to one, and what the daemon lists of them.
use crate::model;
use crate::model::{ContainerInfo, ContainerState, ContainerStateView, ContainerStats};
use crate::table::{ContainerTable, TableView};
use crate::text;
use vstd::prelude::*;

verus! {

/// One service of a Compose file.
pub struct ComposeService {
    pub image: String,
    pub container_name: Option<String>,
}

/// The services of a Compose file, each under its name.
pub struct ComposeConfig {
    pub services: Vec<(String, ComposeService)>,
}

/// One container of the daemon's list.
pub struct ContainerSummary {
    pub id: Option<String>,
    pub status: Option<String>,
    pub names: Option<Vec<String>>,
}

/// The container name that a service sets, if it sets one.
pub open spec fn chosen_name(service: (String, ComposeService)) -> Option<Seq<char>> {
    model::optional_text(service.1.container_name)
}

/// Whether some service sets that container name.
pub open spec fn mentions(services: Seq<(String, ComposeService)>, name: Seq<char>) -> bool {
    exists|i: int| 0 <= i < services.len() && chosen_name(#[trigger] services[i]) == Some(name)
}

/// The table of a project that has just been opened: each container name that a service sets,
/// with a blank state.
pub open spec fn opened(services: Seq<(String, ComposeService)>) -> TableView
    decreases services.len(),
{
    if services.len() == 0 {
        TableView::empty()
    } else {
        match chosen_name(services.last()) {
            Some(name) => opened(services.drop_last()).insert(name, model::blank_state()),
            None => opened(services.drop_last()),
        }
    }
}

/// The name that a container is shown under: the first of its names without leading slashes, or
/// its identifier where it has none.
pub open spec fn display_name(id: Seq<char>, names: Seq<String>) -> Seq<char> {
    if names.len() > 0 {
        text::strip_leading(names[0]@, '/')
    } else {
        id
    }
}

/// The name and the status of a listed container. `None` where the list leaves out its
/// identifier, its status or its names.
pub open spec fn listed(summary: ContainerSummary) -> Option<(Seq<char>, Seq<char>)> {
    match (summary.id, summary.status, summary.names) {
        (Some(id), Some(status), Some(names)) => Some((display_name(id@, names@), status@)),
        _ => None,
    }
}

/// The state of a container that the list has just named: its log stays as it was, everything
/// else starts afresh.
pub open spec fn renewed(
    known: Option<ContainerStateView>,
    name: Seq<char>,
    status: Seq<char>,
) -> ContainerStateView {
    let last = match known {
        Some(state) => state,
        None => model::blank_state(),
    };
    ContainerStateView {
        name,
        status,
        logs: last.logs,
        show_logs: last.show_logs,
        last_log_update: last.last_log_update,
        ..model::blank_state()
    }
}

/// The table after one listed container: it is renewed if the project has it.
pub open spec fn with_listed(
    table: TableView,
    services: Seq<(String, ComposeService)>,
    summary: ContainerSummary,
) -> TableView {
    match listed(summary) {
        Some((name, status)) => if mentions(services, name) {
            table.insert(name, renewed(table.get(name), name, status))
        } else {
            table
        },
        None => table,
    }
}

/// The table after the whole list.
pub open spec fn refreshed(
    table: TableView,
    services: Seq<(String, ComposeService)>,
    listing: Seq<ContainerSummary>,
) -> TableView
    decreases listing.len(),
{
    if listing.len() == 0 {
        table
    } else {
        with_listed(refreshed(table, services, listing.drop_last()), services, listing.last())
    }
}

/// Whether the list names a container of the project.
pub open spec fn lists(
    services: Seq<(String, ComposeService)>,
    listing: Seq<ContainerSummary>,
    name: Seq<char>,
) -> bool {
    mentions(services, name) && exists|i: int|
        0 <= i < listing.len() && (listed(#[trigger] listing[i]) matches Some(l) && l.0 == name)
}

/// Puts the containers of a project that has just been opened into the table.
pub fn open_project(table: &mut ContainerTable, config: &ComposeConfig)
    ensures
        final(table)@ == opened(config.services@),
{
    table.clear();
    let services: &Vec<(String, ComposeService)> = &config.services;
    assert(services@.take(0) =~= Seq::empty());
    let mut i: usize = 0;
    while i < services.len()
        invariant
            i <= services@.len(),
            table@ == opened(services@.take(i as int)),
        decreases services@.len() - i,
    {
        assert(services@.take(i + 1).drop_last() =~= services@.take(i as int));
        match &services[i].1.container_name {
            Some(name) => {
                table.insert(name.clone(), ContainerState::default());
            },
            None => {},
        }
        i = i + 1;
    }
    assert(services@.take(i as int) =~= services@);
}

/// Whether some service of the project sets that container name.
pub fn has_container(config: &ComposeConfig, name: &String) -> (b: bool)
    ensures
        b == mentions(config.services@, name@),
{
    let services: &Vec<(String, ComposeService)> = &config.services;
    let mut i: usize = 0;
    while i < services.len()
        invariant
            i <= services@.len(),
            services@ == config.services@,
            forall|j: int| 0 <= j < i ==> chosen_name(#[trigger] services@[j]) != Some(name@),
        decreases services@.len() - i,
    {
        match &services[i].1.container_name {
            Some(chosen) => {
                if *chosen == *name {
                    assert(chosen_name(services@[i as int]) == Some(name@));
                    return true;
                }
            },
            None => {},
        }
        i = i + 1;
    }
    false
}

fn name_of(id: &String, names: &Vec<String>) -> (name: String)
    ensures
        name@ == display_name(id@, names@),
{
    if names.len() > 0 {
        text::trim_leading(names[0].as_str(), '/')
    } else {
        id.clone()
    }
}

fn renew(table: &mut ContainerTable, name: String, status: String)
    ensures
        final(table)@ == old(table)@.insert(
            name@,
            renewed(old(table)@.get(name@), name@, status@),
        ),
{
    let mut last: ContainerState = ContainerState::default();
    let found: bool = table.exchange(name.as_str(), &mut last);
    let next: ContainerState = ContainerState {
        name: name.clone(),
        status,
        logs: last.logs,
        show_logs: last.show_logs,
        last_log_update: last.last_log_update,
        stats: ContainerStats::default(),
        ports: Vec::new(),
        show_ports: false,
        info: ContainerInfo::default(),
        show_info: false,
        expanded: false,
    };
    assert(model::mappings(next.ports@) =~= Seq::empty());
    assert(next@ == renewed(old(table)@.get(name@), name@, next.status@));
    table.insert(name, next);
    assert(table@ =~= old(table)@.insert(name@, next@)) by {
        assert(table@.states =~= old(table)@.states.insert(name@, next@));
    }
}

/// Takes the daemon's list over into the table, as far as it names containers of the project.
pub fn take_listing(
    table: &mut ContainerTable,
    config: &ComposeConfig,
    listing: Vec<ContainerSummary>,
)
    ensures
        final(table)@ == refreshed(old(table)@, config.services@, listing@),
{
    let ghost start = table@;
    assert(listing@.take(0) =~= Seq::empty());
    for summary in it: listing
        invariant
            it.seq() == listing@,
            table@ == refreshed(start, config.services@, listing@.take(it.index())),
    {
        let ghost i = it.index();
        assert(listing@.take(i + 1).drop_last() =~= listing@.take(i));
        assert(listing@.take(i + 1).last() == summary);
        match (summary.id, summary.status, summary.names) {
            (Some(id), Some(status), Some(names)) => {
                let name: String = name_of(&id, &names);
                if has_container(config, &name) {
                    renew(table, name, status);
                }
            },
            _ => {},
        }
    }
    assert(listing@.take(listing@.len() as int) =~= listing@);
}

/// The status that the list gives a container: the last one, where it is named more than once.
pub open spec fn listed_status(listing: Seq<ContainerSummary>, name: Seq<char>) -> Seq<char>
    decreases listing.len(),
{
    if listing.len() == 0 {
        Seq::empty()
    } else {
        match listed(listing.last()) {
            Some((n, status)) => if n == name {
                status
            } else {
                listed_status(listing.drop_last(), name)
            },
            None => listed_status(listing.drop_last(), name),
        }
    }
}

proof fn lists_more(
    services: Seq<(String, ComposeService)>,
    listing: Seq<ContainerSummary>,
    name: Seq<char>,
)
    requires
        listing.len() > 0,
    ensures
        lists(services, listing, name) <==> lists(services, listing.drop_last(), name) || (
        mentions(services, name) && (listed(listing.last()) matches Some(l) && l.0 == name)),
{
    let rest = listing.drop_last();
    if lists(services, listing, name) {
        let i = choose|i: int|
            0 <= i < listing.len() && (listed(#[trigger] listing[i]) matches Some(l) && l.0
                == name);
        if i < rest.len() {
            assert(listed(rest[i]) == listed(listing[i]));
        }
    }
    if lists(services, rest, name) {
        let i = choose|i: int|
            0 <= i < rest.len() && (listed(#[trigger] rest[i]) matches Some(l) && l.0 == name);
        assert(listed(listing[i]) == listed(rest[i]));
    }
    if listed(listing.last()) matches Some(l) && l.0 == name {
        assert(listed(listing[listing.len() - 1]) == listed(listing.last()));
    }
}

/// What taking a list over does to each container: one that the list names and the project has is
/// renewed with its last listed status, every other one stays as it was.
pub proof fn refresh_container_by_container(
    table: TableView,
    services: Seq<(String, ComposeService)>,
    listing: Seq<ContainerSummary>,
    name: Seq<char>,
)
    ensures
        refreshed(table, services, listing).get(name) == if lists(services, listing, name) {
            Some(renewed(table.get(name), name, listed_status(listing, name)))
        } else {
            table.get(name)
        },
    decreases listing.len(),
{
    if listing.len() > 0 {
        refresh_container_by_container(table, services, listing.drop_last(), name);
        lists_more(services, listing, name);
    }
}

/// Taking a list over never loses a container or its log, and adds only containers that the list
/// names and the project has.
pub proof fn refresh_keeps_logs(
    table: TableView,
    services: Seq<(String, ComposeService)>,
    listing: Seq<ContainerSummary>,
    name: Seq<char>,
)
    ensures
        refreshed(table, services, listing).has(name) <==> table.has(name) || lists(
            services,
            listing,
            name,
        ),
        table.has(name) ==> {
            let before = table.states[name];
            let after = refreshed(table, services, listing).states[name];
            &&& after.logs == before.logs
            &&& after.show_logs == before.show_logs
            &&& after.last_log_update == before.last_log_update
        },
{
    refresh_container_by_container(table, services, listing, name);
}

/// Taking a list over keeps the table well formed, and the containers that were there before come
/// first, in their order.
pub proof fn refresh_keeps_order(
    table: TableView,
    services: Seq<(String, ComposeService)>,
    listing: Seq<ContainerSummary>,
)
    requires
        table.well_formed(),
    ensures
        refreshed(table, services, listing).well_formed(),
        table.order.is_prefix_of(refreshed(table, services, listing).order),
    decreases listing.len(),
{
    if listing.len() > 0 {
        let mid = refreshed(table, services, listing.drop_last());
        refresh_keeps_order(table, services, listing.drop_last());
        match listed(listing.last()) {
            Some((name, status)) => {
                if mentions(services, name) {
                    mid.insert_keeps_well_formed(name, renewed(mid.get(name), name, status));
                }
            },
            None => {},
        }
    }
}

proof fn refresh_of_known_keeps_order(
    table: TableView,
    services: Seq<(String, ComposeService)>,
    listing: Seq<ContainerSummary>,
)
    requires
        forall|name: Seq<char>| lists(services, listing, name) ==> #[trigger] table.has(name),
    ensures
        refreshed(table, services, listing).order == table.order,
    decreases listing.len(),
{
    if listing.len() > 0 {
        assert forall|name: Seq<char>| lists(services, listing.drop_last(), name) implies
        #[trigger] table.has(name) by {
            lists_more(services, listing, name);
        }
        refresh_of_known_keeps_order(table, services, listing.drop_last());
        match listed(listing.last()) {
            Some((name, _)) => {
                lists_more(services, listing, name);
                refresh_keeps_logs(table, services, listing.drop_last(), name);
                if mentions(services, name) {
                    assert(lists(services, listing, name));
                    assert(table.has(name));
                }
            },
            None => {},
        }
    }
}

/// Taking the same list over twice is the same as taking it over once.
pub proof fn refresh_is_idempotent(
    table: TableView,
    services: Seq<(String, ComposeService)>,
    listing: Seq<ContainerSummary>,
)
    ensures
        refreshed(refreshed(table, services, listing), services, listing) == refreshed(
            table,
            services,
            listing,
        ),
{
    let once = refreshed(table, services, listing);
    let twice = refreshed(once, services, listing);
    assert forall|name: Seq<char>| #[trigger] twice.get(name) == once.get(name) by {
        refresh_container_by_container(table, services, listing, name);
        refresh_container_by_container(once, services, listing, name);
    }
    assert(twice.states =~= once.states) by {
        assert forall|name: Seq<char>|
            twice.states.contains_key(name) <==> once.states.contains_key(name) by {
            assert(twice.get(name) == once.get(name));
        }
        assert forall|name: Seq<char>| twice.states.contains_key(name) implies twice.states[name]
            == once.states[name] by {
            assert(twice.get(name) == once.get(name));
        }
    }
    assert forall|name: Seq<char>| lists(services, listing, name) implies #[trigger] once.has(
        name,
    ) by {
        refresh_keeps_logs(table, services, listing, name);
    }
    refresh_of_known_keeps_order(once, services, listing);
    assert(twice =~= once);
}

/// A project that has just been opened shows exactly the container names that its services set,
/// each with a blank state.
pub proof fn opened_shows_the_project(services: Seq<(String, ComposeService)>, name: Seq<char>)
    ensures
        opened(services).has(name) <==> mentions(services, name),
        opened(services).has(name) ==> opened(services).states[name] == model::blank_state(),
    decreases services.len(),
{
    if services.len() > 0 {
        let rest = services.drop_last();
        opened_shows_the_project(rest, name);
        assert(mentions(services, name) <==> mentions(rest, name) || chosen_name(services.last())
            == Some(name)) by {
            if mentions(services, name) {
                let i = choose|i: int|
                    0 <= i < services.len() && chosen_name(#[trigger] services[i]) == Some(name);
                if i < rest.len() {
                    assert(chosen_name(rest[i]) == Some(name));
                }
            }
            if mentions(rest, name) {
                let i = choose|i: int|
                    0 <= i < rest.len() && chosen_name(#[trigger] rest[i]) == Some(name);
                assert(chosen_name(services[i]) == Some(name));
            }
            if chosen_name(services.last()) == Some(name) {
                assert(chosen_name(services[services.len() - 1]) == Some(name));
            }
        }
    }
}

/// The table of a project that has just been opened is well formed.
pub proof fn opened_is_well_formed(services: Seq<(String, ComposeService)>)
    ensures
        opened(services).well_formed(),
    decreases services.len(),
{
    if services.len() > 0 {
        opened_is_well_formed(services.drop_last());
        match chosen_name(services.last()) {
            Some(name) => {
                opened(services.drop_last()).insert_keeps_well_formed(name, model::blank_state());
            },
            None => {},
        }
    }
}

/// However often the daemon's list is taken over, an open project shows its own containers and no
/// others, in the order in which they were put up when it was opened.
pub proof fn project_shows_its_own_containers(
    table: TableView,
    services: Seq<(String, ComposeService)>,
    listing: Seq<ContainerSummary>,
)
    requires
        forall|name: Seq<char>| #[trigger] table.has(name) <==> mentions(services, name),
    ensures
        forall|name: Seq<char>| #[trigger]
            refreshed(table, services, listing).has(name) <==> mentions(services, name),
        refreshed(table, services, listing).order == table.order,
{
    assert forall|name: Seq<char>| #[trigger]
        refreshed(table, services, listing).has(name) <==> mentions(services, name) by {
        refresh_keeps_logs(table, services, listing, name);
        assert(table.has(name) <==> mentions(services, name));
    }
    refresh_of_known_keeps_order(table, services, listing);
}

proof fn mentions_by_field(services: Seq<(String, ComposeService)>, name: Seq<char>)
    ensures
        mentions(services, name) <==> exists|i: int|
            0 <= i < services.len() && ((#[trigger] services[i]).1.container_name matches Some(n)
                && n@ == name),
{
    if mentions(services, name) {
        let i = choose|i: int|
            0 <= i < services.len() && chosen_name(#[trigger] services[i]) == Some(name);
        assert(services[i].1.container_name matches Some(n) && n@ == name);
    }
    if exists|i: int|
        0 <= i < services.len() && ((#[trigger] services[i]).1.container_name matches Some(n) && n@
            == name) {
        let i = choose|i: int|
            0 <= i < services.len() && ((#[trigger] services[i]).1.container_name matches Some(n)
                && n@ == name);
        assert(chosen_name(services[i]) == Some(name));
    }
}

/// A project has a container exactly where one of its services sets that container name.
pub proof fn projects_have_the_names_they_set(config: ComposeConfig, name: String, b: bool)
    requires
        call_ensures(has_container, (&config, &name), b),
    ensures
        b <==> exists|i: int|
            0 <= i < config.services@.len() && ((
            #[trigger] config.services@[i]).1.container_name matches Some(n) && n@ == name@),
{
    mentions_by_field(config.services@, name@);
}

/// Opening a project puts up exactly the container names that its services set, each with a blank
/// state, whatever the table held before.
pub proof fn opening_shows_the_names_of_the_file(
    table: &mut ContainerTable,
    config: ComposeConfig,
    name: Seq<char>,
    blank: ContainerState,
)
    requires
        call_ensures(open_project, (table, &config), ()),
        call_ensures(ContainerState::default, (), blank),
    ensures
        final(table)@.states.contains_key(name) <==> exists|i: int|
            0 <= i < config.services@.len() && ((
            #[trigger] config.services@[i]).1.container_name matches Some(n) && n@ == name),
        final(table)@.states.contains_key(name) ==> final(table)@.states[name] == blank@,
{
    opened_shows_the_project(config.services@, name);
    mentions_by_field(config.services@, name);
}

/// Names come up in the order in which the services set them: one more service puts a new name at
/// the end, and changes nothing where it sets no name or one that is there.
pub proof fn opening_goes_service_by_service(
    table: &mut ContainerTable,
    longer: &mut ContainerTable,
    config: ComposeConfig,
    extended: ComposeConfig,
    service: (String, ComposeService),
)
    requires
        call_ensures(open_project, (table, &config), ()),
        call_ensures(open_project, (longer, &extended), ()),
        extended.services@ == config.services@.push(service),
    ensures
        config.services@.len() == 0 ==> final(table)@.order.len() == 0,
        service.1.container_name is None ==> final(longer)@.order == final(table)@.order,
        service.1.container_name matches Some(n) ==> {
            let shorter = final(table)@;
            final(longer)@.order == if shorter.states.contains_key(n@) {
                shorter.order
            } else {
                shorter.order + seq![n@]
            }
        },
{
    assert(extended.services@.drop_last() =~= config.services@);
    if service.1.container_name is Some {
        let name = service.1.container_name->0@;
        assert(final(table)@.order.push(name) =~= final(table)@.order + seq![name]);
    }
}

proof fn first_name(name: Seq<char>, slashes: Seq<char>)
    requires
        forall|i: int| 0 <= i < slashes.len() ==> slashes[i] == '/',
        name.len() > 0 ==> name[0] != '/',
    ensures
        text::strip_leading(slashes + name, '/') == name,
    decreases slashes.len(),
{
    if slashes.len() > 0 {
        first_name(name, slashes.drop_first());
        assert((slashes + name).drop_first() =~= slashes.drop_first() + name);
    } else {
        assert(slashes + name =~= name);
    }
}

/// A listed container of the project gets the status of the list and keeps its log, the log's
/// time and whether it is shown; all else of it is blank. It goes by its first name, without the
/// slashes before it. A container that is new comes last.
pub proof fn a_listed_container_is_renewed(
    table: &mut ContainerTable,
    config: ComposeConfig,
    listing: Vec<ContainerSummary>,
    names: Vec<String>,
    status: String,
    slashes: Seq<char>,
    name: Seq<char>,
    blank: ContainerState,
)
    requires
        call_ensures(take_listing, (table, &config, listing), ()),
        call_ensures(ContainerState::default, (), blank),
        listing@.len() == 1,
        listing@[0].id is Some,
        listing@[0].status == Some(status),
        listing@[0].names == Some(names),
        names@.len() > 0,
        names@[0]@ == slashes + name,
        forall|i: int| 0 <= i < slashes.len() ==> slashes[i] == '/',
        name.len() > 0 ==> name[0] != '/',
        exists|i: int|
            0 <= i < config.services@.len() && ((
            #[trigger] config.services@[i]).1.container_name matches Some(n) && n@ == name),
    ensures
        final(table)@.states.contains_key(name),
        ({
            let after = final(table)@.states[name];
            let known = old(table)@.states.contains_key(name);
            let before = old(table)@.states[name];
            &&& after.name == name
            &&& after.status == status@
            &&& known ==> after.logs == before.logs && after.show_logs == before.show_logs
                && after.last_log_update == before.last_log_update
            &&& !known ==> after.logs.len() == 0 && !after.show_logs
                && after.last_log_update is None
            &&& after.stats == blank.stats
            &&& after.ports.len() == 0
            &&& after.info == blank@.info
            &&& !after.show_ports && !after.show_info && !after.expanded
            &&& known ==> final(table)@.order == old(table)@.order
            &&& !known ==> final(table)@.order == old(table)@.order + seq![name]
        }),
{
    assert(old(table)@.order.push(name) =~= old(table)@.order + seq![name]);
    first_name(name, slashes);
    mentions_by_field(config.services@, name);
    one_listed(old(table)@, config.services@, listing@);
}

proof fn one_listed(
    table: TableView,
    services: Seq<(String, ComposeService)>,
    listing: Seq<ContainerSummary>,
)
    requires
        listing.len() == 1,
    ensures
        refreshed(table, services, listing) == with_listed(table, services, listing[0]),
{
    assert(refreshed(table, services, listing.drop_last()) == table);
}

/// A listed container without names goes by its identifier.
pub proof fn nameless_containers_go_by_their_identifier(
    table: &mut ContainerTable,
    config: ComposeConfig,
    listing: Vec<ContainerSummary>,
    names: Vec<String>,
    id: String,
    status: String,
)
    requires
        call_ensures(take_listing, (table, &config, listing), ()),
        listing@.len() == 1,
        listing@[0].id == Some(id),
        listing@[0].status == Some(status),
        listing@[0].names == Some(names),
        names@.len() == 0,
        exists|i: int|
            0 <= i < config.services@.len() && ((
            #[trigger] config.services@[i]).1.container_name matches Some(n) && n@ == id@),
    ensures
        final(table)@.states.contains_key(id@),
        final(table)@.states[id@].name == id@,
        final(table)@.states[id@].status == status@,
{
    mentions_by_field(config.services@, id@);
    one_listed(old(table)@, config.services@, listing@);
}

/// A listed container changes no container of another name, and nothing at all where the list
/// leaves out its identifier, its status or its names, or where no service sets its name.
pub proof fn a_listed_container_changes_no_other(
    table: &mut ContainerTable,
    config: ComposeConfig,
    listing: Vec<ContainerSummary>,
    names: Vec<String>,
    slashes: Seq<char>,
    name: Seq<char>,
    other: Seq<char>,
)
    requires
        call_ensures(take_listing, (table, &config, listing), ()),
        listing@.len() == 1,
        listing@[0].names is None || listing@[0].names == Some(names),
        names@.len() > 0,
        names@[0]@ == slashes + name,
        forall|i: int| 0 <= i < slashes.len() ==> slashes[i] == '/',
        name.len() > 0 ==> name[0] != '/',
    ensures
        other != name ==> {
            &&& final(table)@.states.contains_key(other) <==> old(table)@.states.contains_key(other)
            &&& old(table)@.states.contains_key(other) ==> final(table)@.states[other] == old(
                table,
            )@.states[other]
        },
        listing@[0].id is None || listing@[0].status is None || listing@[0].names is None || !(
        exists|i: int|
            0 <= i < config.services@.len() && ((
            #[trigger] config.services@[i]).1.container_name matches Some(n) && n@ == name))
            ==> final(table)@ == old(table)@,
        old(table)@.states.contains_key(name) ==> final(table)@.order == old(table)@.order,
{
    first_name(name, slashes);
    mentions_by_field(config.services@, name);
    one_listed(old(table)@, config.services@, listing@);
}

/// A list is taken over entry by entry, whatever its length: two lists one after the other do what
/// the joined list does, and an empty list does nothing.
pub proof fn lists_are_taken_over_entry_by_entry(
    table: TableView,
    services: Seq<(String, ComposeService)>,
    first: Seq<ContainerSummary>,
    second: Seq<ContainerSummary>,
)
    ensures
        refreshed(table, services, first + second) == refreshed(
            refreshed(table, services, first),
            services,
            second,
        ),
        refreshed(table, services, Seq::empty()) == table,
    decreases second.len(),
{
    if second.len() == 0 {
        assert(first + second =~= first);
    } else {
        lists_are_taken_over_entry_by_entry(table, services, first, second.drop_last());
        assert((first + second).drop_last() =~= first + second.drop_last());
    }
}

/// Taking over a joined list is taking over its two parts one after the other.
pub proof fn joined_lists_are_taken_over_in_turn(
    start: &mut ContainerTable,
    middle: &mut ContainerTable,
    whole: &mut ContainerTable,
    config: ComposeConfig,
    first: Vec<ContainerSummary>,
    second: Vec<ContainerSummary>,
    joined: Vec<ContainerSummary>,
)
    requires
        call_ensures(take_listing, (start, &config, first), ()),
        call_ensures(take_listing, (middle, &config, second), ()),
        call_ensures(take_listing, (whole, &config, joined), ()),
        old(whole)@ == old(start)@,
        old(middle)@ == final(start)@,
        joined@ == first@ + second@,
    ensures
        final(whole)@ == final(middle)@,
        first@.len() == 0 ==> final(start)@ == old(start)@,
{
    lists_are_taken_over_entry_by_entry(old(start)@, config.services@, first@, second@);
}

} // verus!
