//! Host keys: fingerprints, the lines of a known-hosts file, the chain of bastions
//! to a server, and what a presented key leads to.
use crate::app_error::{host_key_mismatch, host_key_unknown, mismatch_text, unknown_text};
use crate::encoding::{
    base64_text, decode_padded, encode_padded, encode_unpadded, sha256, sha256_digest,
};
use crate::models::{ServerProfile, ServerProfileView};
use crate::numbers::{decimal, format_unsigned};
use crate::ssh::{error_result, text_result};
use crate::text::{copy, lemma_views_push, opt_view, same, views};
use crate::utf8::decode_strict;
use vstd::prelude::*;
use vstd::utf8::{
    decode_utf8, encode_utf8, encode_utf8_decode_utf8, encode_utf8_valid_utf8, valid_utf8,
};

verus! {

broadcast use vstd::string::group_string_axioms;

pub const NO_HOST_KEY: &'static str = "The SSH server did not present a host key";

pub const CHAIN_CYCLE: &'static str = "Bastion profiles contain a connection cycle";

pub const CHAIN_TOO_LONG: &'static str = "Bastion chains are limited to 16 profiles";

pub const SERVER_GONE: &'static str = "That server no longer exists";

pub const PROMPT_OUTDATED: &'static str =
    "The SSH host-key prompt no longer matches this bastion chain";

// ---------------------------------------------------------------------------
// Keys
// ---------------------------------------------------------------------------

/// The number that four bytes write, the highest first.
pub open spec fn big_endian(bytes: Seq<u8>) -> int {
    bytes[0] * 0x100_0000 + bytes[1] * 0x1_0000 + bytes[2] * 0x100 + bytes[3]
}

/// The algorithm name at the front of a key: its length in four bytes, and then the
/// name.
pub open spec fn algorithm_of(key: Seq<u8>) -> Option<Seq<char>> {
    if key.len() < 4 {
        None
    } else {
        let length = big_endian(key);
        if length == 0 || key.len() < 4 + length || !valid_utf8(key.subrange(4, 4 + length)) {
            None
        } else {
            Some(decode_utf8(key.subrange(4, 4 + length)))
        }
    }
}

pub fn host_key_algorithm(key: &[u8]) -> (res: Option<String>)
    ensures
        opt_view(res) == algorithm_of(key@),
{
    if key.len() < 4 {
        return None;
    }
    let length: u64 = (key[0] as u64) * 0x100_0000 + (key[1] as u64) * 0x1_0000 + (key[2] as u64)
        * 0x100 + (key[3] as u64);
    if length == 0 || (key.len() as u64) < 4 + length {
        return None;
    }
    let mut name: Vec<u8> = Vec::new();
    let end: usize = 4 + length as usize;
    let mut i: usize = 4;
    while i < end
        invariant
            4 <= i <= end <= key@.len(),
            name@ == key@.subrange(4, i as int),
        decreases end - i,
    {
        name.push(key[i]);
        i += 1;
    }
    decode_strict(&name)
}

/// The fingerprint of a key, as OpenSSH writes it.
pub open spec fn fingerprint_of(key: Seq<u8>) -> Seq<char> {
    "SHA256:"@ + base64_text(sha256_digest(key), false)
}

pub fn host_key_fingerprint(key: &[u8]) -> (res: String)
    ensures
        res@ == fingerprint_of(key@),
{
    let digest = sha256(key);
    let mut out = copy("SHA256:");
    out.append(encode_unpadded(&digest).as_str());
    out
}

/// The fingerprint of a key that is saved in base64.
pub open spec fn saved_fingerprint(text: Seq<char>, fingerprint: Seq<char>) -> bool {
    exists|key: Seq<u8>| #[trigger]
        base64_text(key, true) == text && fingerprint == fingerprint_of(key)
}

/// The fingerprint of a key saved in base64; nothing where the text is no base64.
pub fn fingerprint_of_saved(text: &str) -> (res: Option<String>)
    ensures
        match res {
            Some(fingerprint) => saved_fingerprint(text@, fingerprint@),
            None => forall|key: Seq<u8>| #[trigger] base64_text(key, true) != text@,
        },
{
    match decode_padded(text) {
        Some(key) => Some(host_key_fingerprint(&key)),
        None => None,
    }
}

/// Whether `fingerprints` are those of the saved keys in order, without the keys that
/// are no base64.
pub open spec fn saved_fingerprints(saved: Seq<Seq<char>>, fingerprints: Seq<Seq<char>>) -> bool
    decreases saved.len(),
{
    if saved.len() == 0 {
        fingerprints.len() == 0
    } else if exists|key: Seq<u8>| #[trigger] base64_text(key, true) == saved.last() {
        fingerprints.len() > 0 && saved_fingerprint(saved.last(), fingerprints.last())
            && saved_fingerprints(saved.drop_last(), fingerprints.drop_last())
    } else {
        saved_fingerprints(saved.drop_last(), fingerprints)
    }
}

/// The fingerprints of the saved keys that do not match the presented one.
pub fn mismatched_fingerprints(saved: &[String]) -> (res: Vec<String>)
    ensures
        saved_fingerprints(views(saved@), views(res@)),
{
    let mut out: Vec<String> = Vec::new();
    let mut i: usize = 0;
    assert(views(saved@).take(0) =~= Seq::empty());
    while i < saved.len()
        invariant
            i <= saved@.len(),
            saved_fingerprints(views(saved@).take(i as int), views(out@)),
        decreases saved@.len() - i,
    {
        broadcast use lemma_views_push;

        let ghost next = views(saved@).take(i + 1);
        assert(next.drop_last() =~= views(saved@).take(i as int));
        assert(next.last() == saved@[i as int]@);
        let ghost before = views(out@);
        match fingerprint_of_saved(saved[i].as_str()) {
            Some(fingerprint) => {
                out.push(fingerprint);
                assert(views(out@).drop_last() =~= before);
            },
            None => {},
        }
        i += 1;
    }
    assert(views(saved@).take(saved@.len() as int) =~= views(saved@));
    out
}

/// How a host is named in a known-hosts file: with its port, unless it is 22.
pub open spec fn host_label_of(host: Seq<char>, port: u16) -> Seq<char> {
    if port == 22 {
        host
    } else {
        "["@ + host + "]:"@ + decimal(port as nat)
    }
}

pub fn host_label(host: &str, port: u16) -> (res: String)
    ensures
        res@ == host_label_of(host@, port),
{
    if port == 22 {
        return copy(host);
    }
    let mut out = copy("[");
    out.append(host);
    out.append("]:");
    out.append(format_unsigned(port as u64).as_str());
    out
}

/// The line that records a key.
pub open spec fn known_host_text(host: Seq<char>, port: u16, key: Seq<u8>) -> Result<
    Seq<char>,
    Seq<char>,
> {
    match algorithm_of(key) {
        Some(algorithm) => Ok(
            host_label_of(host, port) + " "@ + algorithm + " "@ + base64_text(key, true)
                + " added by Serverbox\n"@,
        ),
        None => Err("Could not determine the SSH host key algorithm"@),
    }
}

pub fn known_host_line(host: &str, port: u16, key: &[u8]) -> (res: Result<String, String>)
    ensures
        text_result(res) == known_host_text(host@, port, key@),
{
    match host_key_algorithm(key) {
        Some(algorithm) => {
            let mut line = host_label(host, port);
            line.append(" ");
            line.append(algorithm.as_str());
            line.append(" ");
            line.append(encode_padded(key).as_str());
            line.append(" added by Serverbox\n");
            Ok(line)
        },
        None => Err(copy("Could not determine the SSH host key algorithm")),
    }
}

/// What the known-hosts file says of a presented key.
#[derive(Clone, Copy, Debug, PartialEq, Eq, Structural)]
pub enum HostKeyCheck {
    Match,
    Mismatch,
    Failure,
    NotFound,
}

/// A connection goes on with a saved key alone: a key never seen, or another than the
/// saved one, is put before the user.
pub open spec fn key_verdict(
    host: Seq<char>,
    port: u16,
    key_type: Seq<char>,
    key: Seq<u8>,
    check: HostKeyCheck,
    old: Seq<Seq<char>>,
) -> Result<(), Seq<char>> {
    match check {
        HostKeyCheck::Match => Ok(()),
        HostKeyCheck::Mismatch => Err(
            mismatch_text(host, port, key_type, old, fingerprint_of(key)),
        ),
        HostKeyCheck::Failure => Err("Could not verify the SSH host key for "@ + host),
        HostKeyCheck::NotFound => Err(unknown_text(host, port, key_type, fingerprint_of(key))),
    }
}

/// What a presented key leads to. `old_fingerprints` are those of the saved keys of
/// the host.
pub fn verify_host_key(
    host: &str,
    port: u16,
    key_type: &str,
    key: &[u8],
    check: HostKeyCheck,
    old_fingerprints: &[String],
) -> (res: Result<(), String>)
    ensures
        error_result(res) == key_verdict(
            host@,
            port,
            key_type@,
            key@,
            check,
            views(old_fingerprints@),
        ),
        res is Ok <==> check == HostKeyCheck::Match,
{
    match check {
        HostKeyCheck::Match => Ok(()),
        HostKeyCheck::Mismatch => {
            let fingerprint = host_key_fingerprint(key);
            Err(host_key_mismatch(host, port, key_type, old_fingerprints, fingerprint.as_str()))
        },
        HostKeyCheck::Failure => {
            let mut message = copy("Could not verify the SSH host key for ");
            message.append(host);
            Err(message)
        },
        HostKeyCheck::NotFound => {
            let fingerprint = host_key_fingerprint(key);
            Err(host_key_unknown(host, port, key_type, fingerprint.as_str()))
        },
    }
}

// ---------------------------------------------------------------------------
// Bastion chains
// ---------------------------------------------------------------------------

/// The position of the first profile with this id, or the number of profiles.
pub open spec fn profile_at(profiles: Seq<ServerProfileView>, id: Seq<char>) -> int
    decreases profiles.len(),
{
    if profiles.len() == 0 || profiles[0].id == id {
        0
    } else {
        1 + profile_at(profiles.skip(1), id)
    }
}

pub proof fn lemma_profile_at(profiles: Seq<ServerProfileView>, id: Seq<char>, k: int)
    requires
        0 <= k <= profiles.len(),
        forall|j: int| 0 <= j < k ==> (#[trigger] profiles[j]).id != id,
        k < profiles.len() ==> profiles[k].id == id,
    ensures
        profile_at(profiles, id) == k,
    decreases profiles.len(),
{
    if profiles.len() > 0 && k > 0 {
        assert(profiles[0].id != id);
        assert forall|j: int| 0 <= j < k - 1 implies (#[trigger] profiles.skip(1)[j]).id
            != id by {
            assert(profiles.skip(1)[j] == profiles[j + 1]);
        }
        lemma_profile_at(profiles.skip(1), id, k - 1);
    }
}

/// The position of the profile with this id.
pub fn find_profile(profiles: &[ServerProfile], id: &str) -> (res: usize)
    ensures
        res == profile_at(views(profiles@), id@),
        res <= profiles@.len(),
        res < profiles@.len() ==> profiles@[res as int].id@ == id@,
{
    let mut i: usize = 0;
    while i < profiles.len() && !same(profiles[i].id.as_str(), id)
        invariant
            i <= profiles@.len(),
            forall|j: int| 0 <= j < i ==> profiles@[j].id@ != id@,
        decreases profiles@.len() - i,
    {
        i += 1;
    }
    proof {
        assert forall|j: int| 0 <= j < i implies (#[trigger] views(profiles@)[j]).id != id@ by {}
        lemma_profile_at(views(profiles@), id@, i as int);
    }
    i
}

/// The chain from the server `id` over its bastions, as positions in `profiles`,
/// behind those already `visited`.
pub open spec fn chain_behind(
    profiles: Seq<ServerProfileView>,
    id: Seq<char>,
    visited: Seq<int>,
) -> Result<Seq<int>, Seq<char>>
    decreases profiles.len() + 1 - visited.len(),
{
    let at = profile_at(profiles, id);
    if at >= profiles.len() {
        Err(SERVER_GONE@)
    } else if visited.contains(at) || visited.len() > profiles.len() {
        Err(CHAIN_CYCLE@)
    } else {
        match profiles[at].jump_host_id {
            None => Ok(visited.push(at)),
            Some(next) => chain_behind(profiles, next, visited.push(at)),
        }
    }
}

/// The chain from a server over its bastions: the server first.
pub open spec fn chain_of(profiles: Seq<ServerProfileView>, id: Seq<char>) -> Result<
    Seq<int>,
    Seq<char>,
> {
    chain_behind(profiles, id, Seq::empty())
}

/// The positions as integers.
pub open spec fn positions(chain: Seq<usize>) -> Seq<int> {
    Seq::new(chain.len(), |i: int| chain[i] as int)
}

/// Whether a chain result is as it should be.
pub open spec fn is_chain(
    res: Result<Vec<usize>, String>,
    expected: Result<Seq<int>, Seq<char>>,
) -> bool {
    match res {
        Ok(chain) => expected == Ok::<Seq<int>, Seq<char>>(positions(chain@)),
        Err(error) => expected == Err::<Seq<int>, Seq<char>>(error@),
    }
}

fn holds_position(chain: &[usize], at: usize) -> (res: bool)
    ensures
        res == positions(chain@).contains(at as int),
{
    let mut i: usize = 0;
    while i < chain.len()
        invariant
            i <= chain@.len(),
            forall|j: int| 0 <= j < i ==> chain@[j] != at,
        decreases chain@.len() - i,
    {
        if chain[i] == at {
            assert(positions(chain@)[i as int] == at);
            return true;
        }
        i += 1;
    }
    false
}

/// The chain from a server over its bastions.
pub fn bastion_chain(profiles: &[ServerProfile], server_id: &str) -> (res: Result<
    Vec<usize>,
    String,
>)
    ensures
        is_chain(res, chain_of(views(profiles@), server_id@)),
        res matches Ok(chain) ==> forall|i: int|
            0 <= i < chain@.len() ==> #[trigger] chain@[i] < profiles@.len(),
{
    let mut chain: Vec<usize> = Vec::new();
    let mut id: String = copy(server_id);
    assert(positions(chain@) =~= Seq::empty());
    loop
        invariant
            chain@.len() <= profiles@.len() + 1,
            forall|i: int| 0 <= i < chain@.len() ==> #[trigger] chain@[i] < profiles@.len(),
            chain_of(views(profiles@), server_id@) == chain_behind(
                views(profiles@),
                id@,
                positions(chain@),
            ),
        decreases profiles@.len() + 1 - chain@.len(),
    {
        let at = find_profile(profiles, id.as_str());
        if at >= profiles.len() {
            return Err(copy(SERVER_GONE));
        }
        if holds_position(&chain, at) || chain.len() > profiles.len() {
            return Err(copy(CHAIN_CYCLE));
        }
        let ghost before = positions(chain@);
        chain.push(at);
        assert(positions(chain@) =~= before.push(at as int));
        assert(views(profiles@)[at as int] == profiles@[at as int]@);
        match &profiles[at].jump_host_id {
            None => {
                return Ok(chain);
            },
            Some(next) => {
                id = copy(next.as_str());
            },
        }
    }
}

/// A chain never visits a server twice.
pub proof fn chains_have_no_repeats(
    profiles: Seq<ServerProfileView>,
    id: Seq<char>,
    visited: Seq<int>,
)
    requires
        visited.no_duplicates(),
    ensures
        chain_behind(profiles, id, visited) matches Ok(chain) ==> chain.no_duplicates()
            && visited.len() < chain.len(),
    decreases profiles.len() + 1 - visited.len(),
{
    let at = profile_at(profiles, id);
    if at >= profiles.len() {
    } else if visited.contains(at) || visited.len() > profiles.len() {
    } else {
        match profiles[at].jump_host_id {
            None => {},
            Some(next) => {
                chains_have_no_repeats(profiles, next, visited.push(at));
            },
        }
    }
}

/// Whether another hop may be entered: not one that is already on the way, and not
/// more than sixteen.
pub open spec fn hop_verdict(visited: Seq<Seq<char>>, id: Seq<char>) -> Result<(), Seq<char>> {
    if visited.contains(id) {
        Err(CHAIN_CYCLE@)
    } else if visited.len() >= 16 {
        Err(CHAIN_TOO_LONG@)
    } else {
        Ok(())
    }
}

pub fn enter_hop(visited: &[String], id: &str) -> (res: Result<(), String>)
    ensures
        error_result(res) == hop_verdict(views(visited@), id@),
{
    let mut i: usize = 0;
    while i < visited.len()
        invariant
            i <= visited@.len(),
            forall|j: int| 0 <= j < i ==> visited@[j]@ != id@,
        decreases visited@.len() - i,
    {
        if same(visited[i].as_str(), id) {
            assert(views(visited@)[i as int] == id@);
            return Err(copy(CHAIN_CYCLE));
        }
        i += 1;
    }
    if visited.len() >= 16 {
        return Err(copy(CHAIN_TOO_LONG));
    }
    Ok(())
}

/// Whether the profile at `at` is the host that a prompt was about.
pub open spec fn is_prompted(profile: ServerProfileView, host: Seq<char>, port: u16) -> bool {
    profile.host == host && profile.port == port
}

/// The last position below `left` in the chain whose host a prompt was about.
pub open spec fn candidate_below(
    profiles: Seq<ServerProfileView>,
    chain: Seq<int>,
    left: int,
    host: Seq<char>,
    port: u16,
) -> Option<int>
    decreases left,
{
    if left <= 0 {
        None
    } else if is_prompted(profiles[chain[left - 1]], host, port) {
        Some(left - 1)
    } else {
        candidate_below(profiles, chain, left - 1, host, port)
    }
}

/// The next hop to ask for its key: the chain is searched from its far end.
pub fn next_candidate(
    profiles: &[ServerProfile],
    chain: &[usize],
    left: usize,
    host: &str,
    port: u16,
) -> (res: Option<usize>)
    requires
        left <= chain@.len(),
        forall|i: int| 0 <= i < chain@.len() ==> #[trigger] chain@[i] < profiles@.len(),
    ensures
        match res {
            Some(at) => candidate_below(
                views(profiles@),
                positions(chain@),
                left as int,
                host@,
                port,
            ) == Some(at as int) && at < left,
            None => candidate_below(
                views(profiles@),
                positions(chain@),
                left as int,
                host@,
                port,
            ) is None,
        },
{
    let mut n: usize = left;
    while n > 0
        invariant
            n <= left <= chain@.len(),
            forall|i: int| 0 <= i < chain@.len() ==> #[trigger] chain@[i] < profiles@.len(),
            candidate_below(views(profiles@), positions(chain@), left as int, host@, port)
                == candidate_below(views(profiles@), positions(chain@), n as int, host@, port),
        decreases n,
    {
        let at: usize = chain[n - 1];
        assert(positions(chain@)[n - 1] == at);
        assert(views(profiles@)[at as int] == profiles@[at as int]@);
        if same(profiles[at].host.as_str(), host) && profiles[at].port == port {
            return Some(n - 1);
        }
        n -= 1;
    }
    None
}

/// The line to record where the key that was accepted is still the one presented.
pub open spec fn acceptance(
    host: Seq<char>,
    port: u16,
    presented: Option<Seq<u8>>,
    expected: Seq<char>,
) -> Result<Seq<char>, Seq<char>> {
    match presented {
        None => Err(NO_HOST_KEY@),
        Some(key) => if fingerprint_of(key) != expected {
            Err(
                "The SSH host key for "@ + host + " changed before it could be accepted. Expected "@
                    + expected + ", but the server now presents "@ + fingerprint_of(key)
                    + ". Connect again to review it."@,
            )
        } else {
            known_host_text(host, port, key)
        },
    }
}

/// The line to add to the known-hosts file for a key that the user accepted.
pub fn accept_host_key(
    host: &str,
    port: u16,
    presented: Option<&[u8]>,
    expected_fingerprint: &str,
) -> (res: Result<String, String>)
    ensures
        text_result(res) == acceptance(
            host@,
            port,
            match presented {
                Some(key) => Some(key@),
                None => None,
            },
            expected_fingerprint@,
        ),
{
    match presented {
        None => Err(copy(NO_HOST_KEY)),
        Some(key) => {
            let fingerprint = host_key_fingerprint(key);
            if !same(fingerprint.as_str(), expected_fingerprint) {
                let mut message = copy("The SSH host key for ");
                message.append(host);
                message.append(" changed before it could be accepted. Expected ");
                message.append(expected_fingerprint);
                message.append(", but the server now presents ");
                message.append(fingerprint.as_str());
                message.append(". Connect again to review it.");
                return Err(message);
            }
            known_host_line(host, port, key)
        },
    }
}

/// What a hop's key says in the search for the one to replace.
#[derive(Clone, Copy, Debug, PartialEq, Eq, Structural)]
pub enum ReplaceStep {
    /// This hop presents the key that was reviewed.
    Selected,
    /// Another key: it has to be a saved one for the search to go on.
    VerifyAndContinue,
}

/// Judges the key of a hop in the search for the one to replace.
pub fn judge_replacement(presented: Option<&[u8]>, expected_fingerprint: &str) -> (res: Result<
    ReplaceStep,
    String,
>)
    ensures
        error_result(res) == (match presented {
            None => Err::<ReplaceStep, Seq<char>>(NO_HOST_KEY@),
            Some(key) => Ok(
                if fingerprint_of(key@) == expected_fingerprint@ {
                    ReplaceStep::Selected
                } else {
                    ReplaceStep::VerifyAndContinue
                },
            ),
        }),
{
    match presented {
        None => Err(copy(NO_HOST_KEY)),
        Some(key) => {
            let fingerprint = host_key_fingerprint(key);
            if same(fingerprint.as_str(), expected_fingerprint) {
                Ok(ReplaceStep::Selected)
            } else {
                Ok(ReplaceStep::VerifyAndContinue)
            }
        },
    }
}

/// A saved key is replaced only where the host still has one, and the presented key is
/// still the one that was reviewed.
pub open spec fn replacement(
    host: Seq<char>,
    port: u16,
    key: Seq<u8>,
    expected: Seq<char>,
    check: HostKeyCheck,
) -> Result<Seq<char>, Seq<char>> {
    if fingerprint_of(key) != expected {
        Err(
            "The SSH host key changed again. Expected "@ + expected
                + ", but the server now presents "@ + fingerprint_of(key) + "."@,
        )
    } else if check == HostKeyCheck::Mismatch || check == HostKeyCheck::Match {
        Ok(host_label_of(host, port))
    } else {
        Err(
            "The saved SSH host key for "@ + host
                + " changed before it could be replaced. Connect again to review it."@,
        )
    }
}

/// The host name under which the new key is saved.
pub fn replace_host_key(
    host: &str,
    port: u16,
    key: &[u8],
    expected_fingerprint: &str,
    check: HostKeyCheck,
) -> (res: Result<String, String>)
    ensures
        text_result(res) == replacement(host@, port, key@, expected_fingerprint@, check),
{
    let fingerprint = host_key_fingerprint(key);
    if !same(fingerprint.as_str(), expected_fingerprint) {
        let mut message = copy("The SSH host key changed again. Expected ");
        message.append(expected_fingerprint);
        message.append(", but the server now presents ");
        message.append(fingerprint.as_str());
        message.append(".");
        return Err(message);
    }
    if check == HostKeyCheck::Mismatch || check == HostKeyCheck::Match {
        Ok(host_label(host, port))
    } else {
        let mut message = copy("The saved SSH host key for ");
        message.append(host);
        message.append(" changed before it could be replaced. Connect again to review it.");
        Err(message)
    }
}

/// A host is labelled by its name alone on the usual port, and with the port on any other.
pub proof fn hosts_are_labelled(host: Seq<char>, port: u16)
    ensures
        host_label_of(host, 22) == host,
        port != 22 ==> host_label_of(host, port) == "["@ + host + "]:"@ + decimal(port as nat),
{
}

/// A key is trusted only where the known hosts hold it: one that is not known, one that
/// differs and one that could not be checked are refused, each in its own way, with the
/// fingerprint of the key that was presented.
pub proof fn only_known_keys_are_trusted(
    host: Seq<char>,
    port: u16,
    kind: Seq<char>,
    key: Seq<u8>,
    old: Seq<Seq<char>>,
)
    ensures
        key_verdict(host, port, kind, key, HostKeyCheck::Match, old) is Ok,
        key_verdict(host, port, kind, key, HostKeyCheck::NotFound, old) == Err::<(), Seq<char>>(
            unknown_text(host, port, kind, fingerprint_of(key)),
        ),
        key_verdict(host, port, kind, key, HostKeyCheck::Mismatch, old) == Err::<(), Seq<char>>(
            mismatch_text(host, port, kind, old, fingerprint_of(key)),
        ),
        key_verdict(host, port, kind, key, HostKeyCheck::Failure, old) == Err::<(), Seq<char>>(
            "Could not verify the SSH host key for "@ + host,
        ),
{
}

/// A key is accepted, or put in the place of another, only where it is still the one whose
/// fingerprint was shown; and what is written is that key, for that host.
pub proof fn only_the_shown_key_is_accepted(
    host: Seq<char>,
    port: u16,
    key: Seq<u8>,
    expected: Seq<char>,
    check: HostKeyCheck,
)
    ensures
        acceptance(host, port, Some(key), expected) is Ok ==> expected == "SHA256:"@ + base64_text(
            sha256_digest(key),
            false,
        ),
        acceptance(host, port, Some(key), expected) matches Ok(line) ==> algorithm_of(key) matches
            Some(algorithm) && line == host_label_of(host, port) + " "@ + algorithm + " "@
            + base64_text(key, true) + " added by Serverbox\n"@,
        fingerprint_of(key) == expected && algorithm_of(key) is Some ==> acceptance(
            host,
            port,
            Some(key),
            expected,
        ) is Ok,
        acceptance(host, port, None, expected) is Err,
        replacement(host, port, key, expected, check) is Ok <==> fingerprint_of(key) == expected
            && (check == HostKeyCheck::Mismatch || check == HostKeyCheck::Match),
        replacement(host, port, key, expected, check) matches Ok(label) ==> label == host_label_of(
            host,
            port,
        ),
{
}

/// The kind of a key stands at its beginning, behind its length.
pub proof fn key_kinds_read_back(name: Seq<char>, length: Seq<u8>, rest: Seq<u8>)
    requires
        length.len() == 4,
        name.len() > 0,
        length[0] * 0x100_0000 + length[1] * 0x1_0000 + length[2] * 0x100 + length[3] == encode_utf8(
            name,
        ).len(),
    ensures
        algorithm_of(length + encode_utf8(name) + rest) == Some(name),
{
    let bytes = encode_utf8(name);
    let key = length + bytes + rest;
    encode_utf8_valid_utf8(name);
    encode_utf8_decode_utf8(name);
    assert(key[0] == length[0] && key[1] == length[1] && key[2] == length[2] && key[3]
        == length[3]);
    assert(big_endian(key) == bytes.len());
    assert(key.subrange(4, 4 + bytes.len() as int) =~= bytes);
    if bytes.len() == 0 {
        assert(bytes =~= encode_utf8(Seq::empty()));
        encode_utf8_decode_utf8(Seq::empty());
        assert(name =~= Seq::empty());
    }
}

/// Whether a place of a chain names the next one as its bastion.
pub open spec fn leads_on(profiles: Seq<ServerProfileView>, chain: Seq<int>, i: int) -> bool {
    &&& 0 <= chain[i] < profiles.len()
    &&& 0 <= chain[i + 1] < profiles.len()
    &&& profiles[chain[i]].jump_host_id == Some(profiles[chain[i + 1]].id)
}

/// The chain to a server begins with the server and goes from bastion to bastion, until one
/// has none.
pub proof fn chains_go_from_bastion_to_bastion(
    profiles: Seq<ServerProfileView>,
    id: Seq<char>,
    visited: Seq<int>,
)
    ensures
        chain_behind(profiles, id, visited) matches Ok(chain) ==> {
            let n = visited.len() as int;
            &&& chain.len() > n
            &&& chain.take(n) == visited
            &&& 0 <= chain[n] < profiles.len() && profiles[chain[n]].id == id
            &&& forall|i: int| n <= i < chain.len() - 1 ==> #[trigger] leads_on(profiles, chain, i)
            &&& profiles[chain.last()].jump_host_id is None
        },
        profile_at(profiles, id) >= profiles.len() ==> chain_behind(profiles, id, visited) == Err::<
            Seq<int>,
            Seq<char>,
        >("That server no longer exists"@),
    decreases profiles.len() + 1 - visited.len(),
{
    let at = profile_at(profiles, id);
    lemma_at(profiles, id);
    if at < profiles.len() && !visited.contains(at) && visited.len() <= profiles.len() {
        let n = visited.len() as int;
        match profiles[at].jump_host_id {
            None => {
                let chain = visited.push(at);
                assert(chain.take(n) =~= visited);
            },
            Some(next) => {
                let more = visited.push(at);
                chains_go_from_bastion_to_bastion(profiles, next, more);
                if let Ok(chain) = chain_behind(profiles, next, more) {
                    assert(chain.take(n) =~= chain.take(n + 1).take(n));
                    assert(more.take(n) =~= visited);
                    assert(chain.take(n + 1)[n] == chain[n]);
                    assert(leads_on(profiles, chain, n));
                }
            },
        }
    }
}

proof fn lemma_at(profiles: Seq<ServerProfileView>, id: Seq<char>)
    ensures
        0 <= profile_at(profiles, id) <= profiles.len(),
        profile_at(profiles, id) < profiles.len() ==> profiles[profile_at(profiles, id)].id == id,
    decreases profiles.len(),
{
    if profiles.len() > 0 && profiles[0].id != id {
        lemma_at(profiles.skip(1), id);
    }
}

/// A hop is entered once, and a chain has at most sixteen.
pub proof fn hops_are_entered_once(visited: Seq<Seq<char>>, id: Seq<char>)
    ensures
        hop_verdict(visited, id) is Ok <==> !visited.contains(id) && visited.len() < 16,
        visited.contains(id) ==> hop_verdict(visited, id) == Err::<(), Seq<char>>(
            "Bastion profiles contain a connection cycle"@,
        ),
{
}

/// The hop whose key is asked about is one with that host and that port, the last of them in
/// the chain.
pub proof fn prompts_are_answered_by_their_hop(
    profiles: Seq<ServerProfileView>,
    chain: Seq<int>,
    left: int,
    host: Seq<char>,
    port: u16,
)
    requires
        0 <= left <= chain.len(),
    ensures
        candidate_below(profiles, chain, left, host, port) matches Some(at) ==> 0 <= at < left
            && profiles[chain[at]].host == host && profiles[chain[at]].port == port && forall|i: int|
            at < i < left ==> profiles[#[trigger] chain[i]].host != host || profiles[chain[i]].port
                != port,
        candidate_below(profiles, chain, left, host, port) is None ==> forall|i: int|
            0 <= i < left ==> profiles[#[trigger] chain[i]].host != host || profiles[chain[i]].port
                != port,
    decreases left,
{
    if left > 0 && !is_prompted(profiles[chain[left - 1]], host, port) {
        prompts_are_answered_by_their_hop(profiles, chain, left - 1, host, port);
    }
}

} // verus!
