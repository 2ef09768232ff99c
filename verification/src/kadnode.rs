//! A small node that looks for peers and pings them.

use vstd::prelude::*;
use vstd::utf8::encode_utf8;

use crate::address::{AddrProtocol, Multiaddr};
use crate::byte_strings::bytes_to_vec;
use crate::content_name::{content_name, name_of_content};
use crate::peer::PeerId;
use crate::ping::Ping;

verus! {

/// How long to wait between the two searches at the start, in seconds.
pub const SEARCH_PAUSE: u64 = 5;

/// Commands to the node.
#[derive(Debug)]
pub enum SwarmCmd {
    /// Look for the peers closest to a name.
    Search([u8; 32]),
    /// Ping some peer.
    Get,
}

/// What happens to the node.
#[derive(Debug)]
pub enum SwarmEvent {
    /// A command, or the end of the commands.
    Cmd(Option<SwarmCmd>),
    /// Peers were discovered nearby.
    Discovered(Vec<(PeerId, Multiaddr)>),
    /// Something that nothing is done about.
    Other,
}

/// What the node does.
#[derive(Debug)]
pub enum SwarmAction {
    /// Look for the peers closest to a key.
    GetClosestPeers(Vec<u8>),
    /// Send a request to a random peer.
    SendToRandomPeer(Ping),
    /// Remember where a peer is.
    AddAddress(PeerId, Multiaddr),
}

/// Whether the actions are what the node does about the event.
pub open spec fn answers(event: SwarmEvent, actions: Seq<SwarmAction>) -> bool {
    match event {
        SwarmEvent::Cmd(Some(SwarmCmd::Search(name))) => {
            &&& actions.len() == 1
            &&& actions[0] matches SwarmAction::GetClosestPeers(key) && key@ == name@
        },
        SwarmEvent::Cmd(Some(SwarmCmd::Get)) => {
            &&& actions.len() == 1
            &&& actions[0] matches SwarmAction::SendToRandomPeer(ping) && ping.0@ == encode_utf8(
                "hello"@,
            )
        },
        SwarmEvent::Discovered(list) => {
            &&& actions.len() == list@.len()
            &&& forall|i: int|
                0 <= i < list@.len() ==> #[trigger] actions[i] == SwarmAction::AddAddress(
                    list@[i].0,
                    list@[i].1,
                )
        },
        _ => actions.len() == 0,
    }
}

/// What the node does about an event.
pub fn run_swarm(event: SwarmEvent) -> (actions: Vec<SwarmAction>)
    ensures
        answers(event, actions@),
{
    let mut actions: Vec<SwarmAction> = Vec::new();
    match event {
        SwarmEvent::Cmd(Some(SwarmCmd::Search(name))) => {
            actions.push(SwarmAction::GetClosestPeers(bytes_to_vec(name.as_slice())));
        },
        SwarmEvent::Cmd(Some(SwarmCmd::Get)) => {
            actions.push(
                SwarmAction::SendToRandomPeer(Ping(bytes_to_vec("hello".as_bytes()))),
            );
        },
        SwarmEvent::Discovered(list) => {
            for item in iter: list
                invariant
                    actions@.len() == iter.index(),
                    iter.seq() == list@,
                    forall|i: int|
                        0 <= i < actions@.len() ==> #[trigger] actions@[i]
                            == SwarmAction::AddAddress(list@[i].0, list@[i].1),
            {
                actions.push(SwarmAction::AddAddress(item.0, item.1));
            }
        },
        _ => {},
    }
    actions
}

/// Where the node listens: on all interfaces, at a port that the system picks.
pub fn listen_address() -> (addr: Multiaddr)
    ensures
        addr@ == seq![AddrProtocol::Ip4([0u8, 0, 0, 0]), AddrProtocol::Udp(0), AddrProtocol::QuicV1],
{
    let mut protocols: Vec<AddrProtocol> = Vec::new();
    protocols.push(AddrProtocol::Ip4([0u8, 0, 0, 0]));
    protocols.push(AddrProtocol::Udp(0));
    protocols.push(AddrProtocol::QuicV1);
    assert(protocols@ =~= seq![
        AddrProtocol::Ip4([0u8, 0, 0, 0]),
        AddrProtocol::Udp(0),
        AddrProtocol::QuicV1,
    ]);
    Multiaddr { protocols }
}

/// The name that is searched for at the start.
pub fn search_target() -> (name: [u8; 32])
    ensures
        name@ == content_name(encode_utf8("some random content here for you"@)),
{
    name_of_content("some random content here for you".as_bytes())
}

/// What the arguments of the program say.
#[derive(Debug)]
pub struct LogArgs {
    /// Where the logs go, if that was given.
    pub log_dir: Option<String>,
    /// The arguments that say nothing.
    pub unknown: Vec<String>,
}

/// The log directory that the arguments give, where `dir` is given before them: each `--log-dir`
/// takes the argument behind it, or takes back what was given if there is none.
pub open spec fn log_dir_of(args: Seq<Seq<char>>, dir: Option<Seq<char>>) -> Option<Seq<char>>
    decreases args.len(),
{
    if args.len() == 0 {
        dir
    } else if args[0] != "--log-dir"@ {
        log_dir_of(args.skip(1), dir)
    } else if args.len() == 1 {
        None
    } else {
        log_dir_of(args.skip(2), Some(args[1]))
    }
}

/// The arguments that are neither `--log-dir` nor taken by it.
pub open spec fn unknown_args(args: Seq<Seq<char>>) -> Seq<Seq<char>>
    decreases args.len(),
{
    if args.len() == 0 {
        Seq::empty()
    } else if args[0] != "--log-dir"@ {
        seq![args[0]] + unknown_args(args.skip(1))
    } else if args.len() == 1 {
        Seq::empty()
    } else {
        unknown_args(args.skip(2))
    }
}

/// The texts of some strings.
pub open spec fn string_views(strings: Seq<String>) -> Seq<Seq<char>> {
    strings.map_values(|s: String| s@)
}

/// Reads the arguments of the program, without its name.
pub fn grab_log_dir(args: &Vec<String>) -> (found: LogArgs)
    ensures
        match found.log_dir {
            Some(dir) => log_dir_of(string_views(args@), None) == Some(dir@),
            None => log_dir_of(string_views(args@), None) is None,
        },
        string_views(found.unknown@) == unknown_args(string_views(args@)),
{
    let ghost views = string_views(args@);
    let flag: String = "--log-dir".to_owned();
    let mut log_dir: Option<String> = None;
    let mut unknown: Vec<String> = Vec::new();
    let mut i: usize = 0;
    assert(views.skip(0) =~= views);
    assert(string_views(unknown@) + unknown_args(views) =~= unknown_args(views));
    while i < args.len()
        invariant
            i <= args@.len(),
            views == string_views(args@),
            flag@ == "--log-dir"@,
            log_dir_of(views, None) == log_dir_of(
                views.skip(i as int),
                match log_dir {
                    Some(dir) => Some(dir@),
                    None => None,
                },
            ),
            unknown_args(views) == string_views(unknown@) + unknown_args(views.skip(i as int)),
        decreases args@.len() - i,
    {
        assert(views.skip(i as int)[0] == args@[i as int]@);
        if args[i] == flag {
            if i + 1 < args.len() {
                assert(views.skip(i as int).skip(2) =~= views.skip(i + 2));
                log_dir = Some(args[i + 1].clone());
                i += 2;
            } else {
                assert(views.skip(i + 1) =~= Seq::<Seq<char>>::empty());
                log_dir = None;
                i += 1;
            }
        } else {
            let ghost before = string_views(unknown@);
            unknown.push(args[i].clone());
            assert(string_views(unknown@) =~= before.push(views[i as int]));
            assert(views.skip(i as int).skip(1) =~= views.skip(i + 1));
            assert(before + unknown_args(views.skip(i as int)) =~= string_views(unknown@)
                + unknown_args(views.skip(i + 1)));
            i += 1;
        }
    }
    assert(views.skip(i as int) =~= Seq::<Seq<char>>::empty());
    assert(string_views(unknown@) + Seq::<Seq<char>>::empty() =~= string_views(unknown@));
    LogArgs { log_dir, unknown }
}

/// A search looks for the peers closest to its name, a get pings one peer, and every peer that was
/// discovered is remembered at its own address, in order. About anything else nothing is done.
pub proof fn law_events_are_answered(event: SwarmEvent, actions: Seq<SwarmAction>)
    requires
        answers(event, actions),
    ensures
        event matches SwarmEvent::Cmd(Some(SwarmCmd::Search(name))) ==> actions.len() == 1 && (
        actions[0] matches SwarmAction::GetClosestPeers(key) && key@.len() == 32 && forall|i: int|
            0 <= i < 32 ==> key@[i] == name@[i]),
        event matches SwarmEvent::Cmd(Some(SwarmCmd::Get)) ==> actions.len() == 1 && (
        actions[0] matches SwarmAction::SendToRandomPeer(ping) && ping.0@ == encode_utf8(
            seq!['h', 'e', 'l', 'l', 'o'],
        )),
        event matches SwarmEvent::Discovered(list) ==> actions.len() == list@.len() && forall|i: int|
            0 <= i < list@.len() ==> (#[trigger] actions[i] matches SwarmAction::AddAddress(
                peer,
                addr,
            ) && peer == list@[i].0 && addr == list@[i].1),
        event matches SwarmEvent::Cmd(None) ==> actions.len() == 0,
        event is Other ==> actions.len() == 0,
{
    reveal_strlit("hello");
    assert("hello"@ =~= seq!['h', 'e', 'l', 'l', 'o']);
}

/// Arguments without the flag give no directory and are all unknown.
pub proof fn law_other_arguments_are_unknown(args: Seq<Seq<char>>, dir: Option<Seq<char>>)
    requires
        forall|i: int| 0 <= i < args.len() ==> args[i] != "--log-dir"@,
    ensures
        log_dir_of(args, dir) == dir,
        unknown_args(args) == args,
    decreases args.len(),
{
    if args.len() > 0 {
        law_other_arguments_are_unknown(args.skip(1), dir);
        assert(seq![args[0]] + args.skip(1) =~= args);
    }
}

/// The flag takes the argument behind it for the directory, whatever was given before and whatever
/// that argument is; what stands before the flag is unknown, and what follows is read on.
pub proof fn law_flag_takes_what_follows(
    front: Seq<Seq<char>>,
    dir: Seq<char>,
    rest: Seq<Seq<char>>,
    given: Option<Seq<char>>,
)
    requires
        forall|i: int| 0 <= i < front.len() ==> front[i] != "--log-dir"@,
    ensures
        log_dir_of(front + seq!["--log-dir"@, dir] + rest, given) == log_dir_of(rest, Some(dir)),
        unknown_args(front + seq!["--log-dir"@, dir] + rest) == front + unknown_args(rest),
    decreases front.len(),
{
    let args = front + seq!["--log-dir"@, dir] + rest;
    if front.len() == 0 {
        assert(args.skip(2) =~= rest);
        assert(front + unknown_args(rest) =~= unknown_args(rest));
    } else {
        law_flag_takes_what_follows(front.skip(1), dir, rest, given);
        assert(args.skip(1) =~= front.skip(1) + seq!["--log-dir"@, dir] + rest);
        assert(seq![front[0]] + (front.skip(1) + unknown_args(rest)) =~= front + unknown_args(
            rest,
        ));
    }
}

/// A flag at the very end takes back the directory that was given before.
pub proof fn law_flag_at_the_end_takes_back(front: Seq<Seq<char>>, given: Option<Seq<char>>)
    requires
        forall|i: int| 0 <= i < front.len() ==> front[i] != "--log-dir"@,
    ensures
        log_dir_of(front.push("--log-dir"@), given) is None,
        unknown_args(front.push("--log-dir"@)) == front,
    decreases front.len(),
{
    let args = front.push("--log-dir"@);
    if front.len() > 0 {
        law_flag_at_the_end_takes_back(front.skip(1), given);
        assert(args.skip(1) =~= front.skip(1).push("--log-dir"@));
        assert(seq![front[0]] + front.skip(1) =~= front);
    }
}

} // verus!
