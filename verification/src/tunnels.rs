//! Tunnels: which ones run, where they may listen, and the SOCKS5 handshake.
use crate::models::{TunnelStatus, TunnelStatusView};
use crate::numbers::{decimal, format_unsigned};
use crate::registry::Registry;
use crate::ssh::error_result;
use crate::text::{copy, join, lemma_views_push, opt_view, views};
use crate::utf8::decode_strict;
use vstd::prelude::*;
use vstd::utf8::{decode_utf8, valid_utf8};

verus! {

broadcast use vstd::string::group_string_axioms;

/// A tunnel that was started. `flag` names the flag that its worker watches.
#[derive(Debug, PartialEq, Eq)]
pub struct Runtime {
    pub flag: u64,
    pub running: bool,
    pub error: Option<String>,
}

/// The tunnels that were started.
pub struct Runtimes {
    pub tunnels: Registry<Runtime>,
}

/// What is known of a tunnel; of one that was never started, that it does not run.
pub open spec fn status_of(tunnels: Map<Seq<char>, Runtime>, id: Seq<char>) -> TunnelStatusView {
    if tunnels.dom().contains(id) {
        TunnelStatusView {
            id,
            running: tunnels[id].running,
            error: opt_view(tunnels[id].error),
        }
    } else {
        TunnelStatusView { id, running: false, error: None }
    }
}

/// Whether a runtime is another one that was stopped.
pub open spec fn stopped(a: Runtime, b: Runtime) -> bool {
    a.flag == b.flag && !a.running && a.error == b.error
}

impl Runtimes {
    pub fn new() -> (res: Self)
        ensures
            res.tunnels@ == Map::<Seq<char>, Runtime>::empty(),
    {
        Runtimes { tunnels: Registry::new() }
    }

    /// Notes how the worker with this flag ended. One that was started since is not
    /// touched.
    pub fn ended(&mut self, id: &str, flag: u64, error: Option<String>)
        ensures
            ({
                let before = old(self).tunnels@;
                let after = final(self).tunnels@;
                if before.dom().contains(id@) && before[id@].flag == flag {
                    &&& after.dom() == before.dom()
                    &&& after[id@] == (Runtime { flag, running: false, error })
                    &&& forall|other: Seq<char>|
                        other != id@ && before.dom().contains(other) ==> #[trigger] after[other]
                            == before[other]
                } else {
                    after == before
                }
            }),
    {
        let ghost before = self.tunnels@;
        let own = match self.tunnels.get(id) {
            Some(runtime) => runtime.flag == flag,
            None => false,
        };
        if own {
            self.tunnels.insert(id, Runtime { flag, running: false, error });
            assert(self.tunnels@.dom() =~= before.dom());
        }
    }
}

/// Starts a tunnel: the one that ran under this id is stopped, and a new one runs. The
/// result is the flag of the old one, which is to be lowered.
pub fn start(runtimes: &mut Runtimes, id: &str, flag: u64) -> (res: (TunnelStatus, Option<u64>))
    ensures
        res.0@ == status_of(final(runtimes).tunnels@, id@),
        res.0@ == (TunnelStatusView { id: id@, running: true, error: None }),
        res.1 == (if old(runtimes).tunnels@.dom().contains(id@) {
            Some(old(runtimes).tunnels@[id@].flag)
        } else {
            None
        }),
        final(runtimes).tunnels@ == old(runtimes).tunnels@.insert(
            id@,
            Runtime { flag, running: true, error: None },
        ),
{
    let old_flag = match runtimes.tunnels.get(id) {
        Some(runtime) => Some(runtime.flag),
        None => None,
    };
    runtimes.tunnels.insert(id, Runtime { flag, running: true, error: None });
    (TunnelStatus { id: copy(id), running: true, error: None }, old_flag)
}

/// Stops a tunnel; the result is the flag that is to be lowered.
pub fn stop(runtimes: &mut Runtimes, id: &str) -> (res: Option<u64>)
    ensures
        ({
            let before = old(runtimes).tunnels@;
            let after = final(runtimes).tunnels@;
            if before.dom().contains(id@) {
                &&& res == Some(before[id@].flag)
                &&& after.dom() == before.dom()
                &&& stopped(after[id@], before[id@])
                &&& forall|other: Seq<char>|
                    other != id@ && before.dom().contains(other) ==> #[trigger] after[other]
                        == before[other]
            } else {
                res is None && after == before
            }
        }),
{
    let ghost before = runtimes.tunnels@;
    match runtimes.tunnels.remove(id) {
        Some(runtime) => {
            let flag = runtime.flag;
            runtimes.tunnels.insert(id, Runtime { flag, running: false, error: runtime.error });
            assert(runtimes.tunnels@.dom() =~= before.dom());
            Some(flag)
        },
        None => {
            assert(runtimes.tunnels@ =~= before);
            None
        },
    }
}

/// Whether a tunnel watches this flag.
pub open spec fn is_flag(tunnels: Map<Seq<char>, Runtime>, flag: u64) -> bool {
    exists|id: Seq<char>| #[trigger] tunnels.dom().contains(id) && tunnels[id].flag == flag
}

/// Stops all tunnels; the result is the flags that are to be lowered, one for each.
pub fn stop_all(runtimes: &mut Runtimes) -> (res: Vec<u64>)
    ensures
        final(runtimes).tunnels@.dom() == old(runtimes).tunnels@.dom(),
        forall|id: Seq<char>|
            old(runtimes).tunnels@.dom().contains(id) ==> stopped(
                #[trigger] final(runtimes).tunnels@[id],
                old(runtimes).tunnels@[id],
            ) && res@.contains(old(runtimes).tunnels@[id].flag),
        forall|i: int| 0 <= i < res@.len() ==> is_flag(old(runtimes).tunnels@, #[trigger] res@[i]),
{
    let names = runtimes.tunnels.names();
    let ghost all = views(names@);
    let ghost before = runtimes.tunnels@;
    let mut out: Vec<u64> = Vec::new();
    let mut i: usize = 0;
    while i < names.len()
        invariant
            i <= names@.len(),
            all == views(names@),
            all.no_duplicates(),
            forall|name: Seq<char>| #[trigger] all.contains(name) <==> before.dom().contains(name),
            runtimes.tunnels@.dom() == before.dom(),
            forall|j: int|
                0 <= j < i ==> stopped(
                    runtimes.tunnels@[#[trigger] all[j]],
                    before[all[j]],
                ) && out@.contains(before[all[j]].flag),
            forall|j: int|
                i <= j < all.len() ==> runtimes.tunnels@[#[trigger] all[j]] == before[all[j]],
            forall|k: int| 0 <= k < out@.len() ==> is_flag(before, #[trigger] out@[k]),
        decreases names@.len() - i,
    {
        let ghost held = runtimes.tunnels@;
        let ghost flags = out@;
        let ghost name = all[i as int];
        assert(all.contains(name));
        match stop(runtimes, names[i].as_str()) {
            Some(flag) => {
                out.push(flag);
                proof {
                    assert(out@[flags.len() as int] == flag);
                    assert forall|j: int| 0 <= j < i + 1 implies stopped(
                        runtimes.tunnels@[#[trigger] all[j]],
                        before[all[j]],
                    ) && out@.contains(before[all[j]].flag) by {
                        if j < i {
                            assert(all[j] != name);
                            assert(all.contains(all[j]));
                            let k = choose|k: int|
                                0 <= k < flags.len() && flags[k] == before[all[j]].flag;
                            assert(out@[k] == before[all[j]].flag);
                        }
                    }
                    assert forall|j: int| i + 1 <= j < all.len() implies runtimes.tunnels@[
                    #[trigger] all[j]] == before[all[j]] by {
                        assert(all[j] != name);
                        assert(all.contains(all[j]));
                    }
                    assert forall|k: int| 0 <= k < out@.len() implies is_flag(
                        before,
                        #[trigger] out@[k],
                    ) by {
                        if k < flags.len() {
                            assert(out@[k] == flags[k]);
                        } else {
                            assert(before.dom().contains(name) && before[name].flag == out@[k]);
                        }
                    }
                }
            },
            None => {},
        }
        i += 1;
    }
    proof {
        assert forall|id: Seq<char>| before.dom().contains(id) implies stopped(
            #[trigger] runtimes.tunnels@[id],
            before[id],
        ) && out@.contains(before[id].flag) by {
            assert(all.contains(id));
            let j = choose|j: int| 0 <= j < all.len() && all[j] == id;
            assert(stopped(runtimes.tunnels@[all[j]], before[all[j]]));
        }
    }
    out
}

/// What is known of each of the tunnels, in order.
pub open spec fn statuses_of(tunnels: Map<Seq<char>, Runtime>, ids: Seq<Seq<char>>) -> Seq<
    TunnelStatusView,
> {
    Seq::new(ids.len(), |i: int| status_of(tunnels, ids[i]))
}

pub fn statuses(runtimes: &Runtimes, ids: &[String]) -> (res: Vec<TunnelStatus>)
    ensures
        views(res@) == statuses_of(runtimes.tunnels@, views(ids@)),
{
    let mut out: Vec<TunnelStatus> = Vec::new();
    let mut i: usize = 0;
    let ghost expected = statuses_of(runtimes.tunnels@, views(ids@));
    while i < ids.len()
        invariant
            i <= ids@.len(),
            expected == statuses_of(runtimes.tunnels@, views(ids@)),
            views(out@) == expected.take(i as int),
        decreases ids@.len() - i,
    {
        broadcast use lemma_views_push;

        let status = match runtimes.tunnels.get(ids[i].as_str()) {
            Some(runtime) => TunnelStatus {
                id: ids[i].clone(),
                running: runtime.running,
                error: copy_optional(&runtime.error),
            },
            None => TunnelStatus { id: ids[i].clone(), running: false, error: None },
        };
        assert(status@ == status_of(runtimes.tunnels@, views(ids@)[i as int]));
        out.push(status);
        assert(expected.take(i + 1) =~= expected.take(i as int).push(status@));
        i += 1;
    }
    assert(expected.take(ids@.len() as int) =~= expected);
    out
}

fn copy_optional(value: &Option<String>) -> (res: Option<String>)
    ensures
        opt_view(res) == opt_view(*value),
{
    match value {
        Some(text) => Some(text.clone()),
        None => None,
    }
}

/// A tunnel that was stopped is reported as not running.
pub proof fn stopped_tunnels_do_not_run(
    before: Map<Seq<char>, Runtime>,
    after: Map<Seq<char>, Runtime>,
    id: Seq<char>,
)
    requires
        before.dom().contains(id),
        after.dom() == before.dom(),
        stopped(after[id], before[id]),
    ensures
        !status_of(after, id).running,
        status_of(after, id).error == status_of(before, id).error,
{
}

// ---------------------------------------------------------------------------
// Addresses
// ---------------------------------------------------------------------------

/// An address that a host name stands for.
#[derive(Clone, Copy, Debug, PartialEq, Eq)]
pub enum BindAddress {
    V4([u8; 4]),
    V6([u16; 8]),
}

/// Whether an address is reached from the same machine alone: 127.0.0.0/8 and ::1.
pub open spec fn is_loopback(address: BindAddress) -> bool {
    match address {
        BindAddress::V4(octets) => octets@[0] == 127,
        BindAddress::V6(segments) => segments@[7] == 1 && forall|i: int|
            0 <= i < 7 ==> segments@[i] == 0,
    }
}

pub fn loopback(address: &BindAddress) -> (res: bool)
    ensures
        res == is_loopback(*address),
{
    match address {
        BindAddress::V4(octets) => octets[0] == 127,
        BindAddress::V6(segments) => {
            let mut i: usize = 0;
            while i < 7
                invariant
                    i <= 7,
                    *address == BindAddress::V6(*segments),
                    forall|j: int| 0 <= j < i ==> segments@[j] == 0,
                decreases 7 - i,
            {
                if segments[i] != 0 {
                    return false;
                }
                i += 1;
            }
            segments[7] == 1
        },
    }
}

/// A SOCKS5 proxy asks for no password, so it may listen on loopback addresses alone.
pub open spec fn bind_verdict(host: Seq<char>, addresses: Seq<BindAddress>) -> Result<
    (),
    Seq<char>,
> {
    if addresses.len() == 0 {
        Err("Tunnel bind host "@ + host + " did not resolve to an address"@)
    } else if forall|i: int| 0 <= i < addresses.len() ==> is_loopback(#[trigger] addresses[i]) {
        Ok(())
    } else {
        Err(
            "SOCKS5 proxies must bind to a loopback address (127.0.0.1 or ::1). Binding "@ + host
                + " would expose an unauthenticated proxy to other machines."@,
        )
    }
}

/// Whether a SOCKS5 proxy may listen on the addresses that `bind_host` stands for.
pub fn loopback_bind_addresses(bind_host: &str, addresses: &[BindAddress]) -> (res: Result<
    (),
    String,
>)
    ensures
        error_result(res) == bind_verdict(bind_host@, addresses@),
{
    if addresses.len() == 0 {
        let mut message = copy("Tunnel bind host ");
        message.append(bind_host);
        message.append(" did not resolve to an address");
        return Err(message);
    }
    let mut i: usize = 0;
    while i < addresses.len()
        invariant
            i <= addresses@.len(),
            forall|j: int| 0 <= j < i ==> is_loopback(#[trigger] addresses@[j]),
        decreases addresses@.len() - i,
    {
        if !loopback(&addresses[i]) {
            assert(!is_loopback(addresses@[i as int]));
            let mut message = copy(
                "SOCKS5 proxies must bind to a loopback address (127.0.0.1 or ::1). Binding ",
            );
            message.append(bind_host);
            message.append(" would expose an unauthenticated proxy to other machines.");
            return Err(message);
        }
        i += 1;
    }
    Ok(())
}

// ---------------------------------------------------------------------------
// SOCKS5
// ---------------------------------------------------------------------------

/// The host that a SOCKS client asks for.
#[derive(Debug, PartialEq, Eq)]
pub enum SocksHost {
    Text(String),
    V6(Vec<u8>),
}

#[verifier::ext_equal]
pub enum SocksHostView {
    Text(Seq<char>),
    V6(Seq<u8>),
}

impl View for SocksHost {
    type V = SocksHostView;

    open spec fn view(&self) -> SocksHostView {
        match *self {
            SocksHost::Text(text) => SocksHostView::Text(text@),
            SocksHost::V6(bytes) => SocksHostView::V6(bytes@),
        }
    }
}

/// What the handshake reads next.
#[derive(Debug, PartialEq, Eq)]
pub enum SocksStage {
    Hello,
    Methods,
    Request,
    V4,
    NameLength,
    Name,
    V6,
    Port(SocksHost),
}

#[verifier::ext_equal]
pub enum SocksStageView {
    Hello,
    Methods,
    Request,
    V4,
    NameLength,
    Name,
    V6,
    Port(SocksHostView),
}

impl View for SocksStage {
    type V = SocksStageView;

    open spec fn view(&self) -> SocksStageView {
        match *self {
            SocksStage::Hello => SocksStageView::Hello,
            SocksStage::Methods => SocksStageView::Methods,
            SocksStage::Request => SocksStageView::Request,
            SocksStage::V4 => SocksStageView::V4,
            SocksStage::NameLength => SocksStageView::NameLength,
            SocksStage::Name => SocksStageView::Name,
            SocksStage::V6 => SocksStageView::V6,
            SocksStage::Port(host) => SocksStageView::Port(host@),
        }
    }
}

/// What follows bytes of a SOCKS client: `reply` is sent first.
#[derive(Debug, PartialEq, Eq)]
pub enum SocksStep {
    /// Send `reply` and read `length` bytes for the next stage.
    Read { reply: Vec<u8>, stage: SocksStage, length: usize },
    /// The client wants to reach this host and port.
    Target { host: SocksHost, port: u16 },
    /// Send `reply` and end the connection.
    Refuse { reply: Vec<u8>, error: String },
}

#[verifier::ext_equal]
pub enum SocksStepView {
    Read { reply: Seq<u8>, stage: SocksStageView, length: int },
    Target { host: SocksHostView, port: u16 },
    Refuse { reply: Seq<u8>, error: Seq<char> },
}

impl View for SocksStep {
    type V = SocksStepView;

    open spec fn view(&self) -> SocksStepView {
        match *self {
            SocksStep::Read { reply, stage, length } => SocksStepView::Read {
                reply: reply@,
                stage: stage@,
                length: length as int,
            },
            SocksStep::Target { host, port } => SocksStepView::Target { host: host@, port },
            SocksStep::Refuse { reply, error } => SocksStepView::Refuse {
                reply: reply@,
                error: error@,
            },
        }
    }
}

/// How many bytes a stage reads where that does not depend on the client.
pub open spec fn stage_length(stage: SocksStageView, length: int) -> bool {
    match stage {
        SocksStageView::Hello => length == 2,
        SocksStageView::Methods => 0 <= length < 256,
        SocksStageView::Request => length == 4,
        SocksStageView::V4 => length == 4,
        SocksStageView::NameLength => length == 1,
        SocksStageView::Name => 0 <= length < 256,
        SocksStageView::V6 => length == 16,
        SocksStageView::Port(_) => length == 2,
    }
}

/// An IPv4 address as text.
pub open spec fn v4_text(bytes: Seq<u8>) -> Seq<char> {
    decimal(bytes[0] as nat) + "."@ + decimal(bytes[1] as nat) + "."@ + decimal(bytes[2] as nat)
        + "."@ + decimal(bytes[3] as nat)
}

pub open spec fn refuse(error: Seq<char>) -> SocksStepView {
    SocksStepView::Refuse { reply: Seq::empty(), error }
}

pub open spec fn read_next(stage: SocksStageView, length: int) -> SocksStepView {
    SocksStepView::Read { reply: Seq::empty(), stage, length }
}

/// The reply to a client whose target was reached.
pub fn socks_granted() -> (res: Vec<u8>)
    ensures
        res@ == seq![5u8, 0, 0, 1, 0, 0, 0, 0, 0, 0],
{
    vec![5, 0, 0, 1, 0, 0, 0, 0, 0, 0]
}

/// What the bytes of a stage lead to.
pub open spec fn socks_next(stage: SocksStageView, bytes: Seq<u8>) -> SocksStepView {
    match stage {
        SocksStageView::Hello => if bytes[0] != 5 {
            refuse("Only SOCKS5 is supported"@)
        } else {
            read_next(SocksStageView::Methods, bytes[1] as int)
        },
        SocksStageView::Methods => if bytes.contains(0) {
            SocksStepView::Read {
                reply: seq![5u8, 0u8],
                stage: SocksStageView::Request,
                length: 4,
            }
        } else {
            SocksStepView::Refuse {
                reply: seq![5u8, 0xffu8],
                error: "SOCKS client requires authentication"@,
            }
        },
        SocksStageView::Request => if bytes[1] != 1 {
            refuse("Only SOCKS CONNECT is supported"@)
        } else if bytes[3] == 1 {
            read_next(SocksStageView::V4, 4)
        } else if bytes[3] == 3 {
            read_next(SocksStageView::NameLength, 1)
        } else if bytes[3] == 4 {
            read_next(SocksStageView::V6, 16)
        } else {
            refuse("Invalid SOCKS address"@)
        },
        SocksStageView::V4 => read_next(
            SocksStageView::Port(SocksHostView::Text(v4_text(bytes))),
            2,
        ),
        SocksStageView::NameLength => read_next(SocksStageView::Name, bytes[0] as int),
        SocksStageView::Name => if valid_utf8(bytes) {
            read_next(SocksStageView::Port(SocksHostView::Text(decode_utf8(bytes))), 2)
        } else {
            refuse("Invalid SOCKS host"@)
        },
        SocksStageView::V6 => read_next(SocksStageView::Port(SocksHostView::V6(bytes)), 2),
        SocksStageView::Port(host) => SocksStepView::Target {
            host,
            port: (bytes[0] * 256 + bytes[1]) as u16,
        },
    }
}

fn refusal(reply: Vec<u8>, error: &str) -> (res: SocksStep)
    ensures
        res@ == (SocksStepView::Refuse { reply: reply@, error: error@ }),
{
    SocksStep::Refuse { reply, error: copy(error) }
}

fn reading(stage: SocksStage, length: usize) -> (res: SocksStep)
    ensures
        res@ == read_next(stage@, length as int),
{
    let reply: Vec<u8> = Vec::new();
    assert(reply@ =~= Seq::empty());
    SocksStep::Read { reply, stage, length }
}

fn v4_string(bytes: &[u8]) -> (res: String)
    requires
        bytes@.len() == 4,
    ensures
        res@ == v4_text(bytes@),
{
    let mut out = format_unsigned(bytes[0] as u64);
    out.append(".");
    out.append(format_unsigned(bytes[1] as u64).as_str());
    out.append(".");
    out.append(format_unsigned(bytes[2] as u64).as_str());
    out.append(".");
    out.append(format_unsigned(bytes[3] as u64).as_str());
    out
}

fn has_zero(bytes: &[u8]) -> (res: bool)
    ensures
        res == bytes@.contains(0),
{
    let mut i: usize = 0;
    while i < bytes.len()
        invariant
            i <= bytes@.len(),
            forall|j: int| 0 <= j < i ==> bytes@[j] != 0,
        decreases bytes@.len() - i,
    {
        if bytes[i] == 0 {
            assert(bytes@[i as int] == 0);
            return true;
        }
        i += 1;
    }
    false
}

/// The first stage of the handshake, and how many bytes it reads.
pub fn socks_start() -> (res: (SocksStage, usize))
    ensures
        res.0@ == SocksStageView::Hello,
        stage_length(res.0@, res.1 as int),
{
    (SocksStage::Hello, 2)
}

/// What the bytes of a stage lead to. Every stage that is asked for reads as many bytes
/// as its answer needs.
pub fn socks_target(stage: SocksStage, bytes: &[u8]) -> (res: SocksStep)
    requires
        stage_length(stage@, bytes@.len() as int),
    ensures
        res@ == socks_next(stage@, bytes@),
        res@ matches SocksStepView::Read { stage: next, length, .. } ==> stage_length(next, length),
{
    let nothing: Vec<u8> = Vec::new();
    assert(nothing@ =~= Seq::empty());
    match stage {
        SocksStage::Hello => {
            if bytes[0] != 5 {
                refusal(nothing, "Only SOCKS5 is supported")
            } else {
                reading(SocksStage::Methods, bytes[1] as usize)
            }
        },
        SocksStage::Methods => {
            if has_zero(bytes) {
                let mut reply: Vec<u8> = Vec::new();
                reply.push(5);
                reply.push(0);
                assert(reply@ =~= seq![5u8, 0u8]);
                SocksStep::Read { reply, stage: SocksStage::Request, length: 4 }
            } else {
                let mut reply: Vec<u8> = Vec::new();
                reply.push(5);
                reply.push(0xff);
                assert(reply@ =~= seq![5u8, 0xffu8]);
                refusal(reply, "SOCKS client requires authentication")
            }
        },
        SocksStage::Request => {
            if bytes[1] != 1 {
                refusal(nothing, "Only SOCKS CONNECT is supported")
            } else if bytes[3] == 1 {
                reading(SocksStage::V4, 4)
            } else if bytes[3] == 3 {
                reading(SocksStage::NameLength, 1)
            } else if bytes[3] == 4 {
                reading(SocksStage::V6, 16)
            } else {
                refusal(nothing, "Invalid SOCKS address")
            }
        },
        SocksStage::V4 => reading(SocksStage::Port(SocksHost::Text(v4_string(bytes))), 2),
        SocksStage::NameLength => reading(SocksStage::Name, bytes[0] as usize),
        SocksStage::Name => match decode_strict(bytes) {
            Some(name) => reading(SocksStage::Port(SocksHost::Text(name)), 2),
            None => refusal(nothing, "Invalid SOCKS host"),
        },
        SocksStage::V6 => {
            let mut copy_of: Vec<u8> = Vec::new();
            crate::utf8::extend(&mut copy_of, bytes);
            assert(copy_of@ =~= bytes@);
            reading(SocksStage::Port(SocksHost::V6(copy_of)), 2)
        },
        SocksStage::Port(host) => SocksStep::Target {
            host,
            port: (bytes[0] as u16) * 256 + bytes[1] as u16,
        },
    }
}

/// A SOCKS client is heard out: it greets with version five, offers to go without a password,
/// asks to connect, and names where to: an address of four bytes, of sixteen, or a name. What
/// it asks for is what it gets.
pub proof fn socks_clients_are_heard_out(bytes: Seq<u8>, host: SocksHostView)
    ensures
        bytes.len() == 2 && bytes[0] == 5 ==> (socks_next(SocksStageView::Hello, bytes) matches
            SocksStepView::Read { reply, stage, length } && stage is Methods && length == bytes[1]
            && reply.len() == 0),
        bytes.len() == 2 && bytes[0] != 5 ==> socks_next(SocksStageView::Hello, bytes) is Refuse,
        bytes.contains(0u8) ==> (socks_next(SocksStageView::Methods, bytes) matches
            SocksStepView::Read { reply, stage, length } && stage is Request && length == 4 && reply
            == seq![5u8, 0u8]),
        !bytes.contains(0u8) ==> (socks_next(SocksStageView::Methods, bytes) matches
            SocksStepView::Refuse { reply, .. } && reply == seq![5u8, 255u8]),
        bytes.len() == 4 && bytes[1] != 1 ==> socks_next(SocksStageView::Request, bytes) is Refuse,
        bytes.len() == 4 && bytes[1] == 1 ==> match socks_next(SocksStageView::Request, bytes) {
            SocksStepView::Read { stage, length, .. } => (bytes[3] == 1 && stage is V4 && length
                == 4) || (bytes[3] == 3 && stage is NameLength && length == 1) || (bytes[3] == 4
                && stage is V6 && length == 16),
            SocksStepView::Refuse { .. } => bytes[3] != 1 && bytes[3] != 3 && bytes[3] != 4,
            SocksStepView::Target { .. } => false,
        },
        bytes.len() == 1 ==> (socks_next(SocksStageView::NameLength, bytes) matches
            SocksStepView::Read { stage, length, .. } && stage is Name && length == bytes[0]),
        valid_utf8(bytes) ==> (socks_next(SocksStageView::Name, bytes) matches
            SocksStepView::Read { stage, length, .. } && length == 2 && stage
            == SocksStageView::Port(SocksHostView::Text(decode_utf8(bytes)))),
        !valid_utf8(bytes) ==> socks_next(SocksStageView::Name, bytes) is Refuse,
        bytes.len() == 16 ==> (socks_next(SocksStageView::V6, bytes) matches SocksStepView::Read {
            stage,
            length,
            ..
        } && length == 2 && stage == SocksStageView::Port(SocksHostView::V6(bytes))),
        bytes.len() == 4 ==> (socks_next(SocksStageView::V4, bytes) matches SocksStepView::Read {
            stage,
            length,
            ..
        } && length == 2 && (stage matches SocksStageView::Port(SocksHostView::Text(text)) && text
            == join(
            seq![
                decimal(bytes[0] as nat),
                decimal(bytes[1] as nat),
                decimal(bytes[2] as nat),
                decimal(bytes[3] as nat),
            ],
            "."@,
        ))),
        bytes.len() == 2 ==> (socks_next(SocksStageView::Port(host), bytes) matches
            SocksStepView::Target { host: target, port } && target == host && port == bytes[0] * 256
            + bytes[1]),
{
    if bytes.len() == 4 {
        let parts = seq![
            decimal(bytes[0] as nat),
            decimal(bytes[1] as nat),
            decimal(bytes[2] as nat),
            decimal(bytes[3] as nat),
        ];
        assert(parts.drop_last() =~= seq![parts[0], parts[1], parts[2]]);
        assert(parts.drop_last().drop_last() =~= seq![parts[0], parts[1]]);
        assert(parts.drop_last().drop_last().drop_last() =~= seq![parts[0]]);
        reveal_with_fuel(join, 4);
        assert(join(parts, "."@) =~= v4_text(bytes));
    }
}

/// A proxy listens on this machine alone: every address that its host stands for is one of
/// the loopback.
pub proof fn proxies_listen_on_this_machine(host: Seq<char>, addresses: Seq<BindAddress>, at: int)
    ensures
        bind_verdict(host, addresses) is Ok && 0 <= at < addresses.len() ==> match addresses[at] {
            BindAddress::V4(octets) => octets@[0] == 127,
            BindAddress::V6(segments) => segments@[0] == 0 && segments@[1] == 0 && segments@[2] == 0
                && segments@[3] == 0 && segments@[4] == 0 && segments@[5] == 0 && segments@[6] == 0
                && segments@[7] == 1,
        },
        addresses.len() == 0 ==> bind_verdict(host, addresses) is Err,
        addresses.len() == 1 && is_loopback(addresses[0]) ==> bind_verdict(host, addresses) is Ok,
        forall|octets: [u8; 4]| octets@[0] == 127 ==> #[trigger] is_loopback(
            BindAddress::V4(octets),
        ),
{
    if bind_verdict(host, addresses) is Ok && 0 <= at < addresses.len() {
        assert(is_loopback(addresses[at]));
    }
}

/// A tunnel is shown as running where it is, with the error that it ended with; one that was
/// never started does not run.
pub proof fn tunnels_are_shown_as_they_are(
    tunnels: Map<Seq<char>, Runtime>,
    id: Seq<char>,
    runtime: Runtime,
    other: Seq<char>,
)
    ensures
        ({
            let shown = status_of(tunnels.insert(id, runtime), id);
            &&& shown.id == id
            &&& shown.running == runtime.running
            &&& shown.error == opt_view(runtime.error)
        }),
        other != id ==> status_of(tunnels.insert(id, runtime), other) == status_of(tunnels, other),
        !tunnels.dom().contains(id) ==> !status_of(tunnels, id).running && status_of(
            tunnels,
            id,
        ).error is None,
{
}

/// An address of four bytes is written as four numbers between dots.
pub proof fn short_addresses_are_dotted(a: u8, b: u8, c: u8, d: u8)
    ensures
        v4_text(seq![a, b, c, d]) == join(
            seq![decimal(a as nat), decimal(b as nat), decimal(c as nat), decimal(d as nat)],
            "."@,
        ),
{
    let parts = seq![decimal(a as nat), decimal(b as nat), decimal(c as nat), decimal(d as nat)];
    reveal_with_fuel(join, 5);
    assert(parts.drop_last() =~= parts.take(3));
    assert(parts.take(3).drop_last() =~= parts.take(2));
    assert(parts.take(2).drop_last() =~= parts.take(1));
    assert(parts.take(1).drop_last() =~= Seq::<Seq<char>>::empty());
}

} // verus!
