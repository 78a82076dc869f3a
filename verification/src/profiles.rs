//! Which servers a change to one of them touches.
use crate::models::{ServerProfile, ServerProfileView};
use crate::sorting::{before_fn, in_order, sort_texts, sorted_texts, texts_sort};
use crate::ssh::{connection_key, method_text, or_empty, profile_key};
use crate::text::{
    copy, is_char, is_digit, lemma_first_where_found, lemma_views_push, parts_of, same,
    splits_read_back, views,
};
use crate::numbers::{decimal, decimal_reads_back};
use vstd::prelude::*;

verus! {

broadcast use vstd::string::group_string_axioms;

/// Whether the connection to `id` goes over `target`, `steps` bastions away.
pub open spec fn goes_over(
    profiles: Seq<ServerProfileView>,
    id: Seq<char>,
    target: Seq<char>,
    steps: nat,
) -> bool
    decreases steps,
{
    if steps == 0 {
        id == target
    } else {
        exists|i: int|
            0 <= i < profiles.len() && (#[trigger] profiles[i]).id == id
                && profiles[i].jump_host_id is Some && goes_over(
                profiles,
                profiles[i].jump_host_id->Some_0,
                target,
                (steps - 1) as nat,
            )
    }
}

/// Whether the connection to `id` goes over `target`: it is the server itself, or one
/// routed through it.
pub open spec fn is_affected(
    profiles: Seq<ServerProfileView>,
    id: Seq<char>,
    target: Seq<char>,
) -> bool {
    exists|steps: nat| goes_over(profiles, id, target, steps)
}

/// How many of the first `n` profiles are not among `found`.
spec fn missing(profiles: Seq<ServerProfileView>, found: Seq<Seq<char>>, n: nat) -> nat
    decreases n,
{
    if n == 0 {
        0
    } else {
        missing(profiles, found, (n - 1) as nat) + (if found.contains(profiles[n - 1].id) {
            0nat
        } else {
            1nat
        })
    }
}

proof fn lemma_missing(
    profiles: Seq<ServerProfileView>,
    found: Seq<Seq<char>>,
    id: Seq<char>,
    n: nat,
)
    requires
        n <= profiles.len(),
    ensures
        missing(profiles, found.push(id), n) <= missing(profiles, found, n),
        !found.contains(id) && (exists|i: int| 0 <= i < n && (#[trigger] profiles[i]).id == id)
            ==> missing(profiles, found.push(id), n) < missing(profiles, found, n),
    decreases n,
{
    if n > 0 {
        lemma_missing(profiles, found, id, (n - 1) as nat);
        let more = found.push(id);
        let last = profiles[n - 1].id;
        assert(more[found.len() as int] == id);
        if found.contains(last) {
            let k = choose|k: int| 0 <= k < found.len() && found[k] == last;
            assert(more[k] == last);
        }
        if more.contains(last) && !found.contains(last) {
            let k = choose|k: int| 0 <= k < more.len() && more[k] == last;
            if k < found.len() {
                assert(found[k] == last);
            }
            assert(last == id);
        }
        if exists|i: int| 0 <= i < n && (#[trigger] profiles[i]).id == id {
            let i = choose|i: int| 0 <= i < n && (#[trigger] profiles[i]).id == id;
            if i == n - 1 {
                assert(more.contains(last));
            }
        }
    }
}

fn holds_text(items: &[String], text: &str) -> (res: bool)
    ensures
        res == views(items@).contains(text@),
{
    let mut i: usize = 0;
    while i < items.len()
        invariant
            i <= items@.len(),
            forall|j: int| 0 <= j < i ==> items@[j]@ != text@,
        decreases items@.len() - i,
    {
        if same(items[i].as_str(), text) {
            assert(views(items@)[i as int] == text@);
            return true;
        }
        i += 1;
    }
    false
}

/// Whether every profile whose bastion is among `found` is itself among them, up to `n`.
spec fn closed(profiles: Seq<ServerProfileView>, found: Seq<Seq<char>>, n: int) -> bool {
    forall|i: int|
        0 <= i < n ==> (#[trigger] profiles[i]).jump_host_id is Some ==> found.contains(
            profiles[i].jump_host_id->Some_0,
        ) ==> found.contains(profiles[i].id)
}

proof fn lemma_closed_holds_all(
    profiles: Seq<ServerProfileView>,
    found: Seq<Seq<char>>,
    target: Seq<char>,
    id: Seq<char>,
    steps: nat,
)
    requires
        closed(profiles, found, profiles.len() as int),
        found.contains(target),
        goes_over(profiles, id, target, steps),
    ensures
        found.contains(id),
    decreases steps,
{
    if steps > 0 {
        let i = choose|i: int|
            0 <= i < profiles.len() && (#[trigger] profiles[i]).id == id
                && profiles[i].jump_host_id is Some && goes_over(
                profiles,
                profiles[i].jump_host_id->Some_0,
                target,
                (steps - 1) as nat,
            );
        lemma_closed_holds_all(
            profiles,
            found,
            target,
            profiles[i].jump_host_id->Some_0,
            (steps - 1) as nat,
        );
    }
}

/// Whether `ids` are the servers whose connections go over the changed one, in order and
/// each once.
pub open spec fn lists_affected(
    ids: Seq<Seq<char>>,
    profiles: Seq<ServerProfileView>,
    changed: Seq<char>,
) -> bool {
    &&& forall|id: Seq<char>| #[trigger]
        ids.contains(id) <==> is_affected(profiles, id, changed)
    &&& ids.no_duplicates()
    &&& in_order(ids, before_fn())
}

/// The servers whose connections go over the changed one, in order and each once.
pub fn affected_server_ids(profiles: &[ServerProfile], changed_server_id: &str) -> (res: Vec<String>)
    ensures
        lists_affected(views(res@), views(profiles@), changed_server_id@),
{
    let ghost all = views(profiles@);
    let ghost target = changed_server_id@;
    let mut found: Vec<String> = Vec::new();
    found.push(copy(changed_server_id));
    proof {
        assert(views(found@) =~= seq![target]);
        assert(views(found@)[0] == target);
        assert(goes_over(all, target, target, 0));
    }
    let mut added = true;
    while added
        invariant
            all == views(profiles@),
            target == changed_server_id@,
            views(found@).no_duplicates(),
            views(found@).contains(target),
            forall|k: int|
                0 <= k < found@.len() ==> is_affected(all, #[trigger] views(found@)[k], target),
            !added ==> closed(all, views(found@), all.len() as int),
        decreases missing(all, views(found@), all.len()), (if added {
            1nat
        } else {
            0nat
        }),
    {
        added = false;
        let ghost start = views(found@);
        let mut i: usize = 0;
        while i < profiles.len()
            invariant
                i <= profiles@.len(),
                all == views(profiles@),
                views(found@).no_duplicates(),
                views(found@).contains(target),
                forall|k: int|
                    0 <= k < found@.len() ==> is_affected(all, #[trigger] views(found@)[k], target),
                missing(all, views(found@), all.len()) <= missing(all, start, all.len()),
                added ==> missing(all, views(found@), all.len()) < missing(all, start, all.len()),
                !added ==> views(found@) == start && closed(all, start, i as int),
            decreases profiles@.len() - i,
        {
            broadcast use lemma_views_push;

            assert(all[i as int] == profiles@[i as int]@);
            let routed = match &profiles[i].jump_host_id {
                Some(jump) => holds_text(&found, jump.as_str()),
                None => false,
            };
            if routed && !holds_text(&found, profiles[i].id.as_str()) {
                proof {
                    let id = all[i as int].id;
                    let before = views(found@);
                    let jump = all[i as int].jump_host_id->Some_0;
                    let k = choose|k: int| 0 <= k < before.len() && before[k] == jump;
                    assert(is_affected(all, before[k], target));
                    let steps = choose|steps: nat| goes_over(all, jump, target, steps);
                    assert(goes_over(all, id, target, steps + 1)) by {
                        assert(all[i as int].id == id);
                    }
                    lemma_missing(all, before, id, all.len());
                    let more = before.push(id);
                    let t = choose|t: int| 0 <= t < before.len() && before[t] == target;
                    assert(more[t] == target);
                    assert forall|m: int| 0 <= m < more.len() implies is_affected(
                        all,
                        #[trigger] more[m],
                        target,
                    ) by {
                        if m < before.len() {
                            assert(more[m] == before[m]);
                        }
                    }
                }
                found.push(profiles[i].id.clone());
                added = true;
            }
            i += 1;
        }
    }
    proof {
        let set = views(found@);
        assert forall|id: Seq<char>| #[trigger]
            set.contains(id) <==> is_affected(all, id, target) by {
            if set.contains(id) {
                let k = choose|k: int| 0 <= k < set.len() && set[k] == id;
                assert(is_affected(all, set[k], target));
            }
            if is_affected(all, id, target) {
                let steps = choose|steps: nat| goes_over(all, id, target, steps);
                lemma_closed_holds_all(all, set, target, id, steps);
            }
        }
        let sorted = sorted_texts(set);
        texts_sort(set);
        set.lemma_multiset_has_no_duplicates();
        sorted.lemma_multiset_has_no_duplicates_conv();
        assert forall|id: Seq<char>| #[trigger] sorted.contains(id) <==> set.contains(id) by {
            broadcast use vstd::seq_lib::group_to_multiset_ensures;

            assert(sorted.to_multiset().contains(id) <==> set.to_multiset().contains(id));
        }
    }
    sort_texts(found)
}

/// Whether saving a server outdates what is open on it: its secrets were given, it is
/// new, or it is reached in another way.
pub open spec fn outdates(
    secrets_given: bool,
    previous: Option<ServerProfileView>,
    saved: ServerProfileView,
) -> bool {
    secrets_given || match previous {
        Some(old) => connection_key(old) != connection_key(saved),
        None => true,
    }
}

pub fn connection_changed(
    password_given: bool,
    passphrase_given: bool,
    previous: Option<&ServerProfile>,
    saved: &ServerProfile,
) -> (res: bool)
    ensures
        res == outdates(
            password_given || passphrase_given,
            match previous {
                Some(old) => Some(old@),
                None => None,
            },
            saved@,
        ),
{
    if password_given || passphrase_given {
        return true;
    }
    match previous {
        Some(old) => !same(profile_key(old).as_str(), profile_key(saved).as_str()),
        None => true,
    }
}

/// The servers on which saving this one closes what is open: those whose connections go
/// over it where its connection changed, and else none.
pub fn invalidated_server_ids(changed: bool, profiles: &[ServerProfile], server_id: &str) -> (res:
    Vec<String>)
    ensures
        if changed {
            lists_affected(views(res@), views(profiles@), server_id@)
        } else {
            res@.len() == 0
        },
{
    if changed {
        affected_server_ids(profiles, server_id)
    } else {
        Vec::new()
    }
}

/// An edit of what only describes a known server disturbs nothing that is open.
pub proof fn descriptions_disturb_nothing(old: ServerProfileView, saved: ServerProfileView)
    requires
        old.host == saved.host,
        old.port == saved.port,
        old.username == saved.username,
        old.auth_method == saved.auth_method,
        old.key_path == saved.key_path,
        old.jump_host_id == saved.jump_host_id,
    ensures
        !outdates(false, Some(old), saved),
{
}

/// Whatever a connection depends on, changing it outdates the connection: new secrets, and a
/// server that was not known, always do.
pub proof fn changed_connections_are_outdated(old: ServerProfileView, saved: ServerProfileView)
    ensures
        outdates(true, Some(old), saved),
        outdates(false, None, saved),
        outdates(false, Some(old), saved) <==> connection_key(old) != connection_key(saved),
        old.port != saved.port && old.host == saved.host && !old.host.contains(':')
            ==> outdates(false, Some(old), saved),
{
    if old.port != saved.port && old.host == saved.host && !old.host.contains(':')
        && connection_key(old) == connection_key(saved) {
        lemma_port_in_key(old);
        lemma_port_in_key(saved);
        decimal_reads_back(old.port as nat, u16::MAX as int);
        decimal_reads_back(saved.port as nat, u16::MAX as int);
    }
}

proof fn lemma_port_in_key(profile: ServerProfileView)
    requires
        !profile.host.contains(':'),
    ensures
        parts_of(connection_key(profile), ':').len() > 1,
        parts_of(connection_key(profile), ':')[0] == profile.host,
        parts_of(connection_key(profile), ':')[1] == decimal(profile.port as nat),
{
    reveal_strlit(":");
    let number = decimal(profile.port as nat);
    let tail = profile.username + ":"@ + method_text(profile.auth_method) + ":"@ + or_empty(
        profile.key_path,
    ) + ":"@ + or_empty(profile.jump_host_id);
    let rest = number + seq![':'] + tail;
    assert(":"@ =~= seq![':']);
    assert(connection_key(profile) =~= profile.host + seq![':'] + rest);
    decimal_reads_back(profile.port as nat, u16::MAX as int);
    assert(!number.contains(':')) by {
        if number.contains(':') {
            let i = choose|i: int| 0 <= i < number.len() && number[i] == ':';
            assert(is_digit(number[i]));
        }
    }
    splits_read_back(profile.host, ':', rest);
    splits_read_back(number, ':', tail);
    assert(connection_key(profile) == profile.host + seq![':'] + rest);
    lemma_first_part(profile.host, rest);
    lemma_first_part(number, tail);
}

proof fn lemma_first_part(before: Seq<char>, after: Seq<char>)
    requires
        !before.contains(':'),
    ensures
        parts_of(before + seq![':'] + after, ':') == seq![before] + parts_of(after, ':'),
{
    let s = before + seq![':'] + after;
    splits_read_back(before, ':', after);
    lemma_first_where_found(s, is_char(':'));
}

/// A server is affected by a change of itself and of every server that it goes over.
pub proof fn changes_reach_what_goes_over(
    profiles: Seq<ServerProfileView>,
    at: int,
    changed: Seq<char>,
)
    requires
        0 <= at < profiles.len(),
        profiles[at].jump_host_id is Some,
        is_affected(profiles, profiles[at].jump_host_id->Some_0, changed),
    ensures
        is_affected(profiles, profiles[at].id, changed),
        is_affected(profiles, changed, changed),
{
    let steps = choose|steps: nat|
        goes_over(profiles, profiles[at].jump_host_id->Some_0, changed, steps);
    assert(profiles[at].id == profiles[at].id);
    assert(goes_over(profiles, profiles[at].id, changed, steps + 1));
    assert(goes_over(profiles, changed, changed, 0));
}

} // verus!
