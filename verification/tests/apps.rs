use safe_network::address::{AddrProtocol, Multiaddr};
use safe_network::console::{greet, main_js};
use safe_network::gutenberg::{book_url, AfterDownload, BookAction, State};
use safe_network::home::{
    Action, Body, Height, Home, NodeRegistry, NodeSummary, Panel, ServiceStatus,
};
use safe_network::kadnode::{
    grab_log_dir, listen_address, run_swarm, search_target, SwarmAction, SwarmCmd, SwarmEvent,
};
use safe_network::omni::{keep_books, Account, Transaction};
use safe_network::peer::PeerId;
use safe_network::text::{append_decimal, comes_before};
use safe_network::throttle::{ReplicationThrottle, REPLICATION_INTERVAL};

fn peer(n: u8) -> PeerId {
    PeerId::from_bytes(&[0, 1, n]).unwrap()
}

fn strings(texts: &[&str]) -> Vec<String> {
    texts.iter().map(|t| t.to_string()).collect()
}

// ---------- Gutenberg ----------

#[test]
fn marked_books_are_seen() {
    let mut state = State::new();
    assert!(!state.has_seen(1));
    state.mark_seen(1);
    state.mark_seen(1);
    assert!(state.has_seen(1));
    assert!(!state.has_seen(2));
    assert_eq!(state.seen_books.len(), 1);
}

#[test]
fn each_book_is_brought_once() {
    let mut state = State::new();
    assert_eq!(state.next_action(3), BookAction::Download);
    assert_eq!(state.downloaded(3, false), AfterDownload::ReportFailure);
    assert_eq!(state.next_action(3), BookAction::Download);
    assert_eq!(state.downloaded(3, true), AfterDownload::UploadAndSave);
    assert_eq!(state.next_action(3), BookAction::Skip);
    assert_eq!(state.next_action(4), BookAction::Download);
}

#[test]
fn saved_state_is_loaded() {
    let mut state = State::new();
    for id in [5, 1, 5, 9] {
        state.mark_seen(id);
    }
    let mut ids = state.to_ids();
    let loaded = State::from_ids(&ids);
    assert_eq!(loaded.seen_books, state.seen_books);
    ids.sort();
    assert_eq!(ids, vec![1, 5, 9]);
    assert!(State::from_ids(&vec![]).to_ids().is_empty());
}

#[test]
fn missing_file_is_an_empty_state() {
    assert!(State::load_from_file::<&str>(None).unwrap().to_ids().is_empty());
    let loaded = State::load_from_file::<&str>(Some(Ok(vec![4, 2, 4]))).unwrap();
    assert!(loaded.has_seen(2) && loaded.has_seen(4) && !loaded.has_seen(3));
    assert_eq!(State::load_from_file(Some(Err("bad json"))).err(), Some("bad json"));
}

#[test]
fn book_url_holds_the_number() {
    assert_eq!(book_url(0), "http://www.gutenberg.org/ebooks/0.txt.utf-8");
    assert_eq!(book_url(10), "http://www.gutenberg.org/ebooks/10.txt.utf-8");
    assert_eq!(book_url(u32::MAX), "http://www.gutenberg.org/ebooks/4294967295.txt.utf-8");
}

#[test]
fn numbers_and_texts() {
    let mut text = "n".to_string();
    append_decimal(&mut text, 1205);
    assert_eq!(text, "n1205");
    let words = strings(&["", "a", "ab", "b", "ba", "\u{e9}"]);
    for (i, a) in words.iter().enumerate() {
        for (j, b) in words.iter().enumerate() {
            assert_eq!(comes_before(a, b), i < j);
        }
    }
}

// ---------- replication ----------

#[test]
fn replication_is_triggered_once_per_minute() {
    let mut throttle = ReplicationThrottle::new();
    assert!(throttle.try_trigger(100));
    assert!(!throttle.try_trigger(100));
    assert!(!throttle.try_trigger(100 + REPLICATION_INTERVAL - 1));
    assert!(throttle.try_trigger(160));
    assert!(!throttle.try_trigger(150));
    assert!(!throttle.try_trigger(219));
    assert!(throttle.try_trigger(1000));
}

// ---------- the small node ----------

#[test]
fn search_asks_for_the_name() {
    let actions = run_swarm(SwarmEvent::Cmd(Some(SwarmCmd::Search(search_target()))));
    assert_eq!(actions.len(), 1);
    let name = xor_name::XorName::from_content(b"some random content here for you");
    match &actions[0] {
        SwarmAction::GetClosestPeers(key) => assert_eq!(key, &name.to_vec()),
        other => panic!("{other:?}"),
    }
}

#[test]
fn get_says_hello_to_somebody() {
    let actions = run_swarm(SwarmEvent::Cmd(Some(SwarmCmd::Get)));
    assert_eq!(actions.len(), 1);
    match &actions[0] {
        SwarmAction::SendToRandomPeer(ping) => assert_eq!(ping.0, b"hello".to_vec()),
        other => panic!("{other:?}"),
    }
}

#[test]
fn discovered_peers_are_remembered() {
    let found = vec![(peer(1), listen_address()), (peer(2), Multiaddr { protocols: vec![] })];
    let actions = run_swarm(SwarmEvent::Discovered(found));
    assert_eq!(actions.len(), 2);
    match (&actions[0], &actions[1]) {
        (SwarmAction::AddAddress(a, at), SwarmAction::AddAddress(b, _)) => {
            assert!(*a == peer(1));
            assert_eq!(at.protocols.len(), 3);
            assert!(*b == peer(2));
        }
        other => panic!("{other:?}"),
    }
    assert!(run_swarm(SwarmEvent::Cmd(None)).is_empty());
    assert!(run_swarm(SwarmEvent::Other).is_empty());
}

#[test]
fn node_listens_everywhere() {
    let protocols = listen_address().protocols;
    assert!(matches!(protocols[0], AddrProtocol::Ip4([0, 0, 0, 0])));
    assert!(matches!(protocols[1], AddrProtocol::Udp(0)));
    assert!(matches!(protocols[2], AddrProtocol::QuicV1));
}

#[test]
fn log_dir_is_the_last_one_given() {
    let cases: Vec<(&[&str], Option<&str>, &[&str])> = vec![
        (&[], None, &[]),
        (&["--log-dir", "a"], Some("a"), &[]),
        (&["x", "--log-dir", "a", "y"], Some("a"), &["x", "y"]),
        (&["--log-dir", "a", "--log-dir", "b"], Some("b"), &[]),
        (&["--log-dir", "a", "--log-dir"], None, &[]),
        (&["--log-dir", "--log-dir", "b"], Some("--log-dir"), &["b"]),
    ];
    for (args, dir, unknown) in cases {
        let found = grab_log_dir(&strings(args));
        assert_eq!(found.log_dir, dir.map(|d| d.to_string()));
        assert_eq!(found.unknown, strings(unknown));
    }
}

// ---------- the home screen ----------

fn registry(nodes: Vec<(ServiceStatus, Option<PeerId>)>) -> NodeRegistry {
    let nodes = nodes.into_iter().map(|(status, peer_id)| NodeSummary { status, peer_id });
    NodeRegistry { nodes: nodes.collect() }
}

fn home() -> Home<u8, u16> {
    Home::new()
}

fn text(panel: &Panel) -> (usize, &str, &str) {
    match &panel.body {
        Body::Text(text) => (panel.section, panel.title, text),
        Body::List(_) => panic!("a list"),
    }
}

#[test]
fn home_screen_without_nodes() {
    let panels = home().draw();
    assert_eq!(panels.len(), 3);
    assert_eq!(text(&panels[0]), (0, "Autonomi Node Runner", "TODO: All Node Stats"));
    assert_eq!(text(&panels[1]), (1, "Autonomi Node Runner", "No nodes running"));
    assert_eq!(text(&panels[2]), (2, " Key commands ", "[S]tart nodes, [Q]uit"));
    assert_eq!(
        Home::<u8, u16>::layout(),
        vec![Height::Min(5), Height::Min(3), Height::Max(3)]
    );
}

#[test]
fn home_screen_lists_running_nodes() {
    let mut home = home();
    let nodes = registry(vec![
        (ServiceStatus::Running, Some(peer(1))),
        (ServiceStatus::NotRunning, Some(peer(2))),
        (ServiceStatus::Running, None),
        (ServiceStatus::Running, Some(peer(4))),
    ]);
    let next = home.update(Action::Tick, Some(Ok::<_, ()>(nodes)));
    assert_eq!(next, Ok(None));
    let panels = home.draw();
    assert_eq!(panels.len(), 3);
    assert_eq!((panels[1].section, panels[1].title), (1, "Running nodes"));
    match &panels[1].body {
        Body::List(items) => {
            assert_eq!(*items, vec![peer(1).to_base58(), peer(4).to_base58()]);
            let shown = libp2p::PeerId::from_bytes(&[0, 1, 1]).unwrap().to_string();
            assert_eq!(items[0], shown);
        }
        Body::Text(_) => panic!("a text"),
    }
}

#[test]
fn home_screen_shows_no_list_if_nothing_runs() {
    let mut home = home();
    let nodes = registry(vec![(ServiceStatus::NotRunning, Some(peer(2)))]);
    assert_eq!(home.update(Action::Tick, Some(Ok::<_, ()>(nodes))), Ok(None));
    let panels = home.draw();
    assert_eq!(panels.len(), 2);
    assert_eq!(panels[1].section, 2);
}

#[test]
fn registry_is_taken_on_ticks_only() {
    let one = || registry(vec![(ServiceStatus::Running, Some(peer(1)))]);
    let mut home = home();
    assert!(Action::Tick.needs_registry() && Action::StartNode.needs_registry());
    assert!(!Action::Other.needs_registry());
    assert_eq!(home.update(Action::StartNode, Some(Ok::<_, ()>(one()))), Ok(None));
    assert!(home.node_registry.is_none());
    assert_eq!(home.update(Action::Tick, Some(Ok::<_, ()>(one()))), Ok(None));
    assert!(home.node_registry.is_some());
    assert_eq!(home.update::<()>(Action::Other, None), Ok(None));
    assert!(home.node_registry.is_some());
    assert_eq!(home.update(Action::Tick, Some(Err("no file"))), Err("no file"));
    assert!(home.node_registry.is_some());
    assert_eq!(home.update(Action::Tick, Some(Ok::<_, ()>(registry(vec![])))), Ok(None));
    assert!(home.node_registry.is_none());
}

#[test]
fn handlers_are_registered() {
    let mut home = home();
    assert_eq!((home.command_tx, home.config), (None, 0));
    home.register_action_handler(7);
    home.register_config_handler(8);
    assert_eq!((home.command_tx, home.config), (Some(7), 8));
}

// ---------- the books of an asset ----------

fn tx(from: Option<&str>, to: Option<&str>, spent: Option<&str>, got: Option<&str>) -> Transaction {
    let owned = |text: Option<&str>| text.map(|t| t.to_string());
    Transaction {
        sendingaddress: owned(from),
        referenceaddress: owned(to),
        amount: owned(spent),
        purchasedtokens: owned(got),
    }
}

fn shown(account: &Account) -> (&str, Vec<(bool, &str)>) {
    let entries = account.entries.iter().map(|e| (e.received, e.amount.as_str()));
    (&account.address, entries.collect())
}

#[test]
fn books_hold_what_was_spent_and_received() {
    let books = keep_books(&vec![
        tx(Some("a"), Some("b"), Some("1.5"), Some("2")),
        tx(None, Some("a"), Some("7"), Some("3")),
        tx(Some("b"), None, None, Some("9")),
        tx(Some("c"), Some("c"), Some("4"), None),
    ]);
    assert_eq!(books.len(), 3);
    assert_eq!(shown(&books[0]), ("a", vec![(false, "1.5"), (true, "3")]));
    assert_eq!(shown(&books[1]), ("b", vec![(true, "2"), (false, "0")]));
    assert_eq!(shown(&books[2]), ("c", vec![(false, "4"), (true, "0")]));
    assert!(keep_books(&vec![]).is_empty());
}

#[test]
fn each_address_has_one_account() {
    let txs = (0..20).map(|i| {
        let from = format!("{}", i % 3);
        let to = format!("{}", i % 5);
        tx(Some(&from), Some(&to), Some("1"), Some("1"))
    });
    let books = keep_books(&txs.collect());
    let mut addresses: Vec<String> = books.into_iter().map(|a| a.address).collect();
    addresses.sort();
    assert_eq!(addresses, strings(&["0", "1", "2", "3", "4"]));
}

// ---------- the console ----------

#[test]
fn console_lines() {
    assert_eq!(main_js(true), vec!["Hello safe world!", "Supposedly a client started!"]);
    assert_eq!(
        main_js(false),
        vec!["Hello safe world!", "quick_start err!.{error:?}", "Supposedly a client started!"]
    );
    assert_eq!(greet("hi"), "hi");
}
