//! The service units of a server.
use crate::models::{
    pairs_view, Page, ServiceDetails, ServiceDetailsView, ServiceInfo, ServiceInfoView,
};
use crate::numbers::{decimal, format_unsigned};
use crate::paging::{at_most, first_line, last_line, page, page_limit, page_size, shows};
use crate::ssh::{error_result, quote_shell, quoted, quoted_all, text_result};
use crate::text::{
    chars_of, collect, copy, ends_with, ends_with_str, glue3, glue5, is_space, is_text,
    is_word, join, join_from, joined_words_read_back, splits_read_back, lemma_views_push, lines_of,
    lines_str, opt_view, same, space, split_at_char, split_char, string_of, trim, trim_str, views,
    words, words_of,
};
use vstd::prelude::*;

verus! {

broadcast use vstd::string::group_string_axioms;

// ---------------------------------------------------------------------------
// Names
// ---------------------------------------------------------------------------

/// A character that no unit name holds.
pub open spec fn is_unit_breaker(c: char) -> bool {
    is_space(c) || c == ';' || c == '&' || c == '|'
}

/// Whether a text can be the name of a unit.
pub open spec fn is_unit_name(name: Seq<char>) -> bool {
    name.len() > 0 && forall|i: int| 0 <= i < name.len() ==> !is_unit_breaker(#[trigger] name[i])
}

pub open spec fn unit_verdict(name: Seq<char>) -> Result<(), Seq<char>> {
    if is_unit_name(name) {
        Ok(())
    } else {
        Err("Invalid systemd service name"@)
    }
}

pub fn validate_unit_name(name: &str) -> (res: Result<(), String>)
    ensures
        error_result(res) == unit_verdict(name@),
{
    let chars = chars_of(name);
    let mut i: usize = 0;
    while i < chars.len()
        invariant
            i <= chars@.len(),
            chars@ == name@,
            forall|j: int| 0 <= j < i ==> !is_unit_breaker(#[trigger] name@[j]),
        decreases chars@.len() - i,
    {
        let c = chars[i];
        if space(c) || c == ';' || c == '&' || c == '|' {
            assert(is_unit_breaker(name@[i as int]));
            return Err(copy("Invalid systemd service name"));
        }
        i += 1;
    }
    if chars.len() == 0 {
        return Err(copy("Invalid systemd service name"));
    }
    Ok(())
}

// ---------------------------------------------------------------------------
// Listing
// ---------------------------------------------------------------------------

/// Lists a page of units.
pub open spec fn services_text(offset: usize, limit: usize) -> Seq<char> {
    "systemctl list-units --type=service --all --no-legend --no-pager 2>/dev/null | sed -n '"@
        + decimal(first_line(offset) as nat) + ","@ + decimal(
        last_line(offset, page_size(limit)) as nat,
    ) + "p' || true"@
}

pub fn services_command(offset: usize, limit: usize) -> (res: String)
    ensures
        res@ == services_text(offset, limit),
{
    let end = offset.saturating_add(page_limit(limit)).saturating_add(1);
    glue5(
        "systemctl list-units --type=service --all --no-legend --no-pager 2>/dev/null | sed -n '",
        format_unsigned(offset.saturating_add(1) as u64).as_str(),
        ",",
        format_unsigned(end as u64).as_str(),
        "p' || true",
    )
}

/// The unit on a line. Whether it is enabled is not told there.
pub open spec fn service_of(line: Seq<char>) -> Option<ServiceInfoView> {
    let fields = words_of(line);
    if fields.len() < 4 || !ends_with(fields[0], ".service"@) {
        None
    } else {
        Some(
            ServiceInfoView {
                name: fields[0],
                load_state: fields[1],
                active_state: fields[2],
                sub_state: fields[3],
                description: join(fields.skip(4), " "@),
                enabled: None,
            },
        )
    }
}

pub open spec fn services_of(output: Seq<char>) -> Seq<ServiceInfoView> {
    lines_of(output).filter_map(|line: Seq<char>| service_of(line))
}

fn read_service(line: &[char]) -> (res: Option<ServiceInfo>)
    ensures
        opt_view(res) == service_of(line@),
{
    let fields = words(line);
    let ghost all = views(fields@);
    if fields.len() < 4 {
        return None;
    }
    assert(all[0] == fields@[0]@ && all[1] == fields@[1]@ && all[2] == fields@[2]@ && all[3]
        == fields@[3]@);
    if !ends_with_str(fields[0].as_slice(), ".service") {
        return None;
    }
    Some(
        ServiceInfo {
            name: string_of(fields[0].as_slice()),
            load_state: string_of(fields[1].as_slice()),
            active_state: string_of(fields[2].as_slice()),
            sub_state: string_of(fields[3].as_slice()),
            description: string_of(&join_from(&fields, 4)),
            enabled: None,
        },
    )
}

/// The units of a listing.
pub fn parse_services(output: &str) -> (res: Vec<ServiceInfo>)
    ensures
        views(res@) == services_of(output@),
{
    collect(&lines_str(output), read_service, Ghost(|line: Seq<char>| service_of(line)))
}

pub open spec fn names_of(services: Seq<ServiceInfoView>) -> Seq<Seq<char>> {
    services.map_values(|service: ServiceInfoView| service.name)
}

/// Asks whether the units of a page are enabled; nothing where it shows none.
pub open spec fn states_text(services: Seq<ServiceInfoView>, limit: usize) -> Option<Seq<char>> {
    let shown = at_most(services, page_size(limit) as nat);
    if shown.len() == 0 {
        None
    } else {
        Some(
            "for unit in "@ + join(quoted_all(names_of(shown)), " "@)
                + "; do state=\"$(LC_ALL=C systemctl is-enabled \"$unit\" 2>/dev/null || true)\"; printf '%s\\t%s\\n' \"$unit\" \"$state\"; done"@,
        )
    }
}

pub fn states_command(services: &[ServiceInfo], limit: usize) -> (res: Option<String>)
    ensures
        opt_view(res) == states_text(views(services@), limit),
{
    let limit = page_limit(limit);
    let count: usize = if services.len() < limit {
        services.len()
    } else {
        limit
    };
    let ghost shown = at_most(views(services@), limit as nat);
    if count == 0 {
        return None;
    }
    let mut names: Vec<String> = Vec::new();
    let mut i: usize = 0;
    assert(views(names@) =~= names_of(shown).take(0));
    while i < count
        invariant
            i <= count <= services@.len(),
            shown.len() == count,
            forall|k: int| 0 <= k < count ==> shown[k] == #[trigger] services@[k]@,
            views(names@) == names_of(shown).take(i as int),
        decreases count - i,
    {
        broadcast use lemma_views_push;

        names.push(services[i].name.clone());
        assert(names_of(shown).take(i + 1) =~= names_of(shown).take(i as int).push(
            services@[i as int]@.name,
        ));
        i += 1;
    }
    assert(names_of(shown).take(count as int) =~= names_of(shown));
    Some(
        glue3(
            "for unit in ",
            crate::ssh::quote_all(names.as_slice()).as_str(),
            "; do state=\"$(LC_ALL=C systemctl is-enabled \"$unit\" 2>/dev/null || true)\"; printf '%s\\t%s\\n' \"$unit\" \"$state\"; done",
        ),
    )
}

/// The state of a unit, as the last line that tells one has it.
pub open spec fn state_of(lines: Seq<Seq<char>>, name: Seq<char>) -> Option<Seq<char>>
    decreases lines.len(),
{
    if lines.len() == 0 {
        None
    } else {
        match split_at_char(lines.last(), '\t') {
            Some((unit, state)) => if unit == name && state.len() > 0 {
                Some(state)
            } else {
                state_of(lines.drop_last(), name)
            },
            None => state_of(lines.drop_last(), name),
        }
    }
}

/// A unit with what is known of whether it is enabled.
pub open spec fn with_state(service: ServiceInfoView, lines: Seq<Seq<char>>) -> ServiceInfoView {
    ServiceInfoView {
        enabled: match state_of(lines, service.name) {
            Some(state) => Some(state == "enabled"@),
            None => None,
        },
        ..service
    }
}

fn find_state(lines: &[Vec<char>], name: &str) -> (res: Option<bool>)
    ensures
        res == match state_of(views(lines@), name@) {
            Some(state) => Some(state == "enabled"@),
            None => None,
        },
{
    let ghost all = views(lines@);
    let mut n: usize = lines.len();
    assert(all.take(all.len() as int) =~= all);
    while n > 0
        invariant
            n <= lines@.len(),
            all == views(lines@),
            state_of(all, name@) == state_of(all.take(n as int), name@),
        decreases n,
    {
        assert(all.take(n as int).drop_last() =~= all.take(n - 1));
        assert(all.take(n as int).last() == lines@[n - 1]@);
        match split_char(lines[n - 1].as_slice(), '\t') {
            Some((unit, state)) => {
                if is_text(&unit, name) && state.len() > 0 {
                    return Some(is_text(&state, "enabled"));
                }
            },
            None => {},
        }
        n -= 1;
    }
    None
}

/// The page of units. `states` is what the question after their states was answered.
pub fn services(listed: Vec<ServiceInfo>, states: &str, limit: usize) -> (res: Page<ServiceInfo>)
    ensures
        views(res.items@) == at_most(views(listed@), page_size(limit) as nat).map_values(
            |service: ServiceInfoView| with_state(service, lines_of(states@)),
        ),
        res.has_more == (listed@.len() > page_size(limit)),
{
    let lines = lines_str(states);
    let shown = page(listed, page_limit(limit));
    let ghost kept = views(shown.items@);
    let ghost set = |service: ServiceInfoView| with_state(service, lines_of(states@));
    let mut rest = shown.items;
    let mut items: Vec<ServiceInfo> = Vec::new();
    assert(kept.skip(0) =~= kept);
    while rest.len() > 0
        invariant
            items@.len() <= kept.len(),
            views(lines@) == lines_of(states@),
            set == (|service: ServiceInfoView| with_state(service, lines_of(states@))),
            views(rest@) == kept.skip(items@.len() as int),
            views(items@) == kept.take(items@.len() as int).map_values(set),
        decreases rest@.len(),
    {
        broadcast use lemma_views_push;

        let ghost before = rest@;
        let n: usize = items.len();
        let mut service = rest.remove(0);
        assert(views(before)[0] == service@);
        assert(views(rest@) =~= views(before).skip(1));
        assert(kept.skip(n as int).skip(1) =~= kept.skip(n + 1));
        assert(kept[n as int] == service@);
        service.enabled = find_state(lines.as_slice(), service.name.as_str());
        assert(kept.take(n + 1).map_values(set) =~= kept.take(n as int).map_values(set).push(
            service@,
        ));
        items.push(service);
    }
    assert(kept.take(items@.len() as int) =~= kept);
    Page { items, has_more: shown.has_more }
}

// ---------------------------------------------------------------------------
// Details and actions
// ---------------------------------------------------------------------------

/// The commands that a unit's details are gathered with.
pub struct DetailsCommands {
    pub properties: String,
    pub journal: String,
    pub unit_file: String,
}

pub open spec fn properties_text(service: Seq<char>) -> Seq<char> {
    "systemctl show "@ + quoted(service) + " --no-pager 2>/dev/null || true"@
}

pub open spec fn journal_text(service: Seq<char>) -> Seq<char> {
    "journalctl -u "@ + quoted(service) + " -n 60 --no-pager -o short-iso 2>/dev/null || true"@
}

pub open spec fn unit_file_text(service: Seq<char>) -> Seq<char> {
    "systemctl show "@ + quoted(service)
        + " -p FragmentPath --value --no-pager 2>/dev/null || true"@
}

/// The commands that a unit's details are gathered with.
pub fn details_commands(service: &str) -> (res: Result<DetailsCommands, String>)
    ensures
        match res {
            Ok(commands) => is_unit_name(service@) && commands.properties@ == properties_text(
                service@,
            ) && commands.journal@ == journal_text(service@) && commands.unit_file@
                == unit_file_text(service@),
            Err(error) => unit_verdict(service@) == Err::<(), Seq<char>>(error@),
        },
{
    match validate_unit_name(service) {
        Err(error) => {
            return Err(error);
        },
        Ok(()) => {},
    }
    let name = quote_shell(service);
    Ok(
        DetailsCommands {
            properties: glue3(
                "systemctl show ",
                name.as_str(),
                " --no-pager 2>/dev/null || true",
            ),
            journal: glue3(
                "journalctl -u ",
                name.as_str(),
                " -n 60 --no-pager -o short-iso 2>/dev/null || true",
            ),
            unit_file: glue3(
                "systemctl show ",
                name.as_str(),
                " -p FragmentPath --value --no-pager 2>/dev/null || true",
            ),
        },
    )
}

pub open spec fn is_shown_property(key: Seq<char>) -> bool {
    key == "Description"@ || key == "ActiveState"@ || key == "SubState"@ || key == "UnitFileState"@
        || key == "FragmentPath"@ || key == "MainPID"@ || key == "ExecStart"@ || key
        == "MemoryCurrent"@ || key == "TasksCurrent"@
}

/// The property on a line, where it is one that is shown.
pub open spec fn property_of(line: Seq<char>) -> Option<(Seq<char>, Seq<char>)> {
    match split_at_char(line, '=') {
        Some((key, value)) => if value.len() > 0 && is_shown_property(key) {
            Some((key, value))
        } else {
            None
        },
        None => None,
    }
}

pub open spec fn properties_of(output: Seq<char>) -> Seq<(Seq<char>, Seq<char>)> {
    lines_of(output).filter_map(|line: Seq<char>| property_of(line))
}

fn shown_property(key: &[char]) -> (res: bool)
    ensures
        res == is_shown_property(key@),
{
    is_text(key, "Description") || is_text(key, "ActiveState") || is_text(key, "SubState")
        || is_text(key, "UnitFileState") || is_text(key, "FragmentPath") || is_text(key, "MainPID")
        || is_text(key, "ExecStart") || is_text(key, "MemoryCurrent") || is_text(
        key,
        "TasksCurrent",
    )
}

fn parse_properties(output: &str) -> (res: Vec<(String, String)>)
    ensures
        pairs_view(res@) == properties_of(output@),
{
    let lines = lines_str(output);
    let ghost all = views(lines@);
    let ghost spec = |line: Seq<char>| property_of(line);
    let mut out: Vec<(String, String)> = Vec::new();
    let mut i: usize = 0;
    assert(all.take(0) =~= Seq::empty());
    assert(pairs_view(out@) =~= all.take(0).filter_map(spec));
    while i < lines.len()
        invariant
            i <= lines@.len(),
            all == views(lines@),
            spec == (|line: Seq<char>| property_of(line)),
            pairs_view(out@) == all.take(i as int).filter_map(spec),
        decreases lines@.len() - i,
    {
        let ghost before = out@;
        let ghost next = all.take(i + 1);
        assert(next.drop_last() =~= all.take(i as int));
        assert(next.last() == lines@[i as int]@);
        match split_char(lines[i].as_slice(), '=') {
            Some((key, value)) => {
                if value.len() > 0 && shown_property(&key) {
                    out.push((string_of(&key), string_of(&value)));
                    assert(pairs_view(out@) =~= pairs_view(before) + seq![(key@, value@)]);
                }
            },
            None => {},
        }
        i += 1;
    }
    assert(all.take(lines@.len() as int) =~= all);
    out
}

/// The details of a unit, from what its commands printed.
pub fn service_details(service: &str, properties: &str, journal: String, unit_file: &str) -> (res:
    ServiceDetails)
    ensures
        res@ == (ServiceDetailsView {
            name: service@,
            properties: properties_of(properties@),
            journal: journal@,
            unit_file: if trim(unit_file@).len() > 0 {
                Some(trim(unit_file@))
            } else {
                None
            },
        }),
{
    let path = trim_str(unit_file);
    ServiceDetails {
        name: copy(service),
        properties: parse_properties(properties),
        journal,
        unit_file: if path.as_str().is_empty() {
            None
        } else {
            Some(path)
        },
    }
}

pub open spec fn is_service_action(action: Seq<char>) -> bool {
    action == "start"@ || action == "stop"@ || action == "restart"@ || action == "reload"@ || action
        == "enable"@ || action == "disable"@
}

/// The command of an action on a unit.
pub open spec fn service_action_text(service: Seq<char>, action: Seq<char>) -> Result<
    Seq<char>,
    Seq<char>,
> {
    if !is_unit_name(service) {
        Err("Invalid systemd service name"@)
    } else if !is_service_action(action) {
        Err("Unsupported service action"@)
    } else {
        Ok("systemctl "@ + action + " "@ + quoted(service))
    }
}

pub fn service_action(service: &str, action: &str) -> (res: Result<String, String>)
    ensures
        text_result(res) == service_action_text(service@, action@),
{
    match validate_unit_name(service) {
        Err(error) => {
            return Err(error);
        },
        Ok(()) => {},
    }
    if !(same(action, "start") || same(action, "stop") || same(action, "restart") || same(
        action,
        "reload",
    ) || same(action, "enable") || same(action, "disable")) {
        return Err(copy("Unsupported service action"));
    }
    let mut out = glue3("systemctl ", action, " ");
    out.append(quote_shell(service).as_str());
    Ok(out)
}

/// A service is acted on by its own name, as one word, and by nothing but the verb that was
/// asked for; a name that could be taken for more than one word is refused.
pub proof fn services_are_acted_on_by_name(service: Seq<char>, action: Seq<char>)
    ensures
        service_action_text(service, action) matches Ok(command) ==> {
            &&& command == "systemctl "@ + action + " "@ + quoted(service)
            &&& action == "start"@ || action == "stop"@ || action == "restart"@ || action
                == "reload"@ || action == "enable"@ || action == "disable"@
            &&& service.len() > 0
            &&& forall|i: int|
                0 <= i < service.len() ==> !is_space(#[trigger] service[i]) && service[i] != ';'
                    && service[i] != '&' && service[i] != '|'
        },
        is_word(service) && !service.contains(';') && !service.contains('&') && !service.contains(
            '|',
        ) && (action == "start"@ || action == "stop"@ || action == "restart"@ || action
            == "reload"@ || action == "enable"@ || action == "disable"@) ==> service_action_text(
            service,
            action,
        ) is Ok,
{
    if is_word(service) && !service.contains(';') && !service.contains('&') && !service.contains(
        '|',
    ) {
        assert forall|i: int| 0 <= i < service.len() implies !is_unit_breaker(
            #[trigger] service[i],
        ) by {
            assert(service.contains(service[i]));
        }
    }
}

/// A service is read back from its line: the unit, its three states and its description.
/// Lines of other units are left out.
pub proof fn service_lines_read_back(fields: Seq<Seq<char>>)
    requires
        fields.len() >= 4,
        forall|i: int| 0 <= i < fields.len() ==> is_word(#[trigger] fields[i]),
    ensures
        ends_with(fields[0], ".service"@) ==> service_of(join(fields, " "@)) == Some(
            ServiceInfoView {
                name: fields[0],
                load_state: fields[1],
                active_state: fields[2],
                sub_state: fields[3],
                description: join(fields.skip(4), " "@),
                enabled: None,
            },
        ),
        !ends_with(fields[0], ".service"@) ==> service_of(join(fields, " "@)) is None,
{
    joined_words_read_back(fields);
}

/// A service counts as enabled where the last line that names it says so, as disabled where
/// that line says anything else, and as neither where no line names it.
pub proof fn states_are_told_by_name(
    service: ServiceInfoView,
    lines: Seq<Seq<char>>,
    unit: Seq<char>,
    state: Seq<char>,
)
    requires
        !unit.contains('\t'),
        state.len() > 0,
    ensures
        unit == service.name ==> with_state(
            service,
            lines.push(unit + seq!['\t'] + state),
        ) == (ServiceInfoView { enabled: Some(state == "enabled"@), ..service }),
        unit != service.name ==> with_state(service, lines.push(unit + seq!['\t'] + state))
            == with_state(service, lines),
        with_state(service, Seq::empty()) == (ServiceInfoView { enabled: None, ..service }),
{
    let line = unit + seq!['\t'] + state;
    assert(lines.push(line).drop_last() =~= lines);
    splits_read_back(unit, '\t', state);
}

/// What is asked of a service is asked by its name, and changes nothing.
pub proof fn services_are_asked_by_name(service: Seq<char>)
    ensures
        properties_text(service) == "systemctl show "@ + quoted(service)
            + " --no-pager 2>/dev/null || true"@,
        journal_text(service) == "journalctl -u "@ + quoted(service)
            + " -n 60 --no-pager -o short-iso 2>/dev/null || true"@,
        unit_file_text(service) == "systemctl show "@ + quoted(service)
            + " -p FragmentPath --value --no-pager 2>/dev/null || true"@,
{
}

/// A property is shown as it is printed, where it is one of those that are shown and is set.
pub proof fn properties_read_back(key: Seq<char>, value: Seq<char>)
    requires
        !key.contains('='),
    ensures
        property_of(key + seq!['='] + value) matches Some(shown) ==> shown == (key, value),
        value.len() > 0 && (key == "Description"@ || key == "ActiveState"@ || key == "SubState"@
            || key == "UnitFileState"@ || key == "FragmentPath"@ || key == "MainPID"@ || key
            == "ExecStart"@ || key == "MemoryCurrent"@ || key == "TasksCurrent"@)
            <==> property_of(key + seq!['='] + value) is Some,
{
    splits_read_back(key, '=', value);
}

/// A page of services is a page of the lines that systemd lists, and one line more; and the
/// states are asked for the services of the page alone.
pub proof fn services_are_listed_by_page(offset: usize, limit: usize, services: Seq<ServiceInfoView>)
    requires
        1 <= limit <= 5000,
        offset + 5001 <= usize::MAX,
    ensures
        services_text(offset, limit)
            == "systemctl list-units --type=service --all --no-legend --no-pager 2>/dev/null | sed -n '"@
            + decimal((offset + 1) as nat) + ","@ + decimal((offset + limit + 1) as nat)
            + "p' || true"@,
        services.len() == 0 ==> states_text(services, limit) is None,
        0 < services.len() <= limit ==> states_text(services, limit) == Some(
            "for unit in "@ + join(quoted_all(names_of(services)), " "@)
                + "; do state=\"$(LC_ALL=C systemctl is-enabled \"$unit\" 2>/dev/null || true)\"; printf '%s\\t%s\\n' \"$unit\" \"$state\"; done"@,
        ),
{
}

/// A unit is named by any text without blanks and without what would end a command.
pub proof fn units_have_plain_names(name: Seq<char>, i: int)
    ensures
        unit_verdict(name) is Ok && 0 <= i < name.len() ==> !is_space(name[i]) && name[i] != ';'
            && name[i] != '&' && name[i] != '|',
        unit_verdict(name) is Ok ==> name.len() > 0,
        name.len() > 0 && (forall|k: int|
            0 <= k < name.len() ==> !is_space(#[trigger] name[k]) && name[k] != ';' && name[k] != '&'
                && name[k] != '|') ==> unit_verdict(name) is Ok,
        unit_verdict(name) matches Err(said) ==> said == "Invalid systemd service name"@,
{
}

} // verus!
