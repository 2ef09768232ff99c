//! The home screen of the node runner: which nodes there are and what is shown of them.

use vstd::prelude::*;

use crate::peer::{peer_id_base58, PeerId};

verus! {

/// Whether a node's service runs.
#[derive(Clone, Copy, Debug, PartialEq, Eq, Structural)]
pub enum ServiceStatus {
    Running,
    /// It was added, stopped or removed.
    NotRunning,
}

/// A node of the registry.
#[derive(Debug)]
pub struct NodeSummary {
    pub status: ServiceStatus,
    pub peer_id: Option<PeerId>,
}

/// The nodes that are set up on this machine.
#[derive(Debug)]
pub struct NodeRegistry {
    pub nodes: Vec<NodeSummary>,
}

/// What the screen is told.
#[derive(Clone, Copy, Debug, PartialEq, Eq, Structural)]
pub enum Action {
    Tick,
    StartNode,
    /// Anything else.
    Other,
}

impl Action {
    /// Whether the node registry is loaded for the action.
    pub open spec fn wants_registry(self) -> bool {
        self is Tick || self is StartNode
    }

    /// Whether the node registry is to be loaded for the action.
    pub fn needs_registry(&self) -> (needed: bool)
        ensures
            needed == self.wants_registry(),
    {
        match self {
            Action::Tick => true,
            Action::StartNode => true,
            Action::Other => false,
        }
    }
}

/// How tall a section of the screen is, in lines.
#[derive(Clone, Copy, Debug, PartialEq, Eq, Structural)]
pub enum Height {
    Min(u16),
    Max(u16),
}

/// The sections of the screen, from top to bottom.
pub open spec fn home_layout() -> Seq<Height> {
    seq![Height::Min(5), Height::Min(3), Height::Max(3)]
}

/// What a box on the screen shows.
#[derive(Debug)]
pub enum Body {
    Text(&'static str),
    List(Vec<String>),
}

/// A box with borders and a title, in one of the sections.
#[derive(Debug)]
pub struct Panel {
    pub section: usize,
    pub title: &'static str,
    pub body: Body,
}

/// Whether the panel is a text in a section.
pub open spec fn shows_text(
    panel: Panel,
    section: nat,
    title: Seq<char>,
    text: Seq<char>,
) -> bool {
    &&& panel.section == section
    &&& panel.title@ == title
    &&& panel.body matches Body::Text(shown) && shown@ == text
}

/// Whether the panel is a list in a section.
pub open spec fn shows_list(
    panel: Panel,
    section: nat,
    title: Seq<char>,
    items: Seq<Seq<char>>,
) -> bool {
    &&& panel.section == section
    &&& panel.title@ == title
    &&& panel.body matches Body::List(shown) && shown@.map_values(|s: String| s@) == items
}

/// The texts of the peer ids of the nodes that run and have one.
pub open spec fn running_peers(nodes: Seq<NodeSummary>) -> Seq<Seq<char>>
    decreases nodes.len(),
{
    if nodes.len() == 0 {
        Seq::empty()
    } else {
        let before = running_peers(nodes.drop_last());
        match nodes.last().peer_id {
            Some(peer) if nodes.last().status == ServiceStatus::Running => before.push(
                peer_id_base58(peer@),
            ),
            _ => before,
        }
    }
}

/// Whether the panels are the home screen for the registry.
pub open spec fn is_home_screen(registry: Option<NodeRegistry>, panels: Seq<Panel>) -> bool {
    let middle = match registry {
        Some(r) => running_peers(r.nodes@).len() > 0,
        None => true,
    };
    &&& panels.len() == if middle { 3int } else { 2int }
    &&& shows_text(panels[0], 0, "Autonomi Node Runner"@, "TODO: All Node Stats"@)
    &&& match registry {
        Some(r) => middle ==> shows_list(
            panels[1],
            1,
            "Running nodes"@,
            running_peers(r.nodes@),
        ),
        None => shows_text(panels[1], 1, "Autonomi Node Runner"@, "No nodes running"@),
    }
    &&& shows_text(panels.last(), 2, " Key commands "@, "[S]tart nodes, [Q]uit"@)
}

/// Whether taking an action, with the outcome of loading the registry, leads from the nodes
/// `before` to the nodes `after` and to `next`.
pub open spec fn updates<E>(
    action: Action,
    loaded: Option<Result<NodeRegistry, E>>,
    before: Option<NodeRegistry>,
    after: Option<NodeRegistry>,
    next: Result<Option<Action>, E>,
) -> bool {
    match loaded {
        Some(Err(error)) => next == Err::<Option<Action>, E>(error) && after == before,
        Some(Ok(registry)) => {
            &&& next == Ok::<Option<Action>, E>(None)
            &&& after == if action == Action::Tick {
                if registry.nodes@.len() > 0 {
                    Some(registry)
                } else {
                    None
                }
            } else {
                before
            }
        },
        None => next == Ok::<Option<Action>, E>(None) && after == before,
    }
}

/// The home screen. `T` is where actions are sent, `C` the configuration.
#[derive(Debug)]
pub struct Home<T, C> {
    pub command_tx: Option<T>,
    pub config: C,
    pub node_registry: Option<NodeRegistry>,
}

impl<T, C: Default> Home<T, C> {
    /// A screen that knows of no nodes, with the default configuration.
    pub fn new() -> (home: Home<T, C>)
        ensures
            home.command_tx is None,
            call_ensures(C::default, (), home.config),
            home.node_registry is None,
    {
        Home { command_tx: None, config: C::default(), node_registry: None }
    }
}

impl<T, C> Home<T, C> {
    /// Sets where actions are sent.
    pub fn register_action_handler(&mut self, tx: T)
        ensures
            *final(self) == (Home { command_tx: Some(tx), ..*old(self) }),
    {
        self.command_tx = Some(tx);
    }

    /// Sets the configuration.
    pub fn register_config_handler(&mut self, config: C)
        ensures
            *final(self) == (Home { config, ..*old(self) }),
    {
        self.config = config;
    }

    /// Takes an action, with the outcome of loading the registry where the action needs it. On
    /// each tick the nodes are taken from the registry, if it has any. No action ever follows.
    pub fn update<E>(&mut self, action: Action, loaded: Option<Result<NodeRegistry, E>>) -> (next:
        Result<Option<Action>, E>)
        requires
            loaded is Some <==> action.wants_registry(),
        ensures
            final(self).command_tx == old(self).command_tx,
            final(self).config == old(self).config,
            match loaded {
                Some(Err(error)) => next == Err::<Option<Action>, E>(error)
                    && final(self).node_registry == old(self).node_registry,
                Some(Ok(registry)) => {
                    &&& next == Ok::<Option<Action>, E>(None)
                    &&& final(self).node_registry == if action == Action::Tick {
                        if registry.nodes@.len() > 0 {
                            Some(registry)
                        } else {
                            None
                        }
                    } else {
                        old(self).node_registry
                    }
                },
                None => next == Ok::<Option<Action>, E>(None) && final(self).node_registry
                    == old(self).node_registry,
            },
            updates(action, loaded, old(self).node_registry, final(self).node_registry, next),
    {
        match loaded {
            Some(Err(error)) => Err(error),
            Some(Ok(registry)) => {
                if action == Action::Tick {
                    if registry.nodes.len() > 0 {
                        self.node_registry = Some(registry);
                    } else {
                        self.node_registry = None;
                    }
                }
                Ok(None)
            },
            None => Ok(None),
        }
    }

    /// The sections of the screen, from top to bottom.
    pub fn layout() -> (heights: Vec<Height>)
        ensures
            heights@ == home_layout(),
    {
        let mut heights: Vec<Height> = Vec::new();
        heights.push(Height::Min(5));
        heights.push(Height::Min(3));
        heights.push(Height::Max(3));
        assert(heights@ =~= home_layout());
        heights
    }

    /// What is drawn.
    pub fn draw(&self) -> (panels: Vec<Panel>)
        ensures
            is_home_screen(self.node_registry, panels@),
    {
        let mut panels: Vec<Panel> = Vec::new();
        panels.push(
            Panel {
                section: 0,
                title: "Autonomi Node Runner",
                body: Body::Text("TODO: All Node Stats"),
            },
        );
        match &self.node_registry {
            Some(registry) => {
                let nodes = list_running_peers(&registry.nodes);
                if nodes.len() > 0 {
                    panels.push(
                        Panel { section: 1, title: "Running nodes", body: Body::List(nodes) },
                    );
                }
            },
            None => {
                panels.push(
                    Panel {
                        section: 1,
                        title: "Autonomi Node Runner",
                        body: Body::Text("No nodes running"),
                    },
                );
            },
        }
        panels.push(
            Panel {
                section: 2,
                title: " Key commands ",
                body: Body::Text("[S]tart nodes, [Q]uit"),
            },
        );
        panels
    }
}

/// The texts of the peer ids of the nodes that run and have one.
fn list_running_peers(nodes: &Vec<NodeSummary>) -> (texts: Vec<String>)
    ensures
        texts@.map_values(|s: String| s@) == running_peers(nodes@),
{
    let mut texts: Vec<String> = Vec::new();
    let mut i: usize = 0;
    assert(texts@.map_values(|s: String| s@) =~= running_peers(nodes@.take(0)));
    while i < nodes.len()
        invariant
            i <= nodes@.len(),
            texts@.map_values(|s: String| s@) == running_peers(nodes@.take(i as int)),
        decreases nodes@.len() - i,
    {
        let ghost before = texts@;
        assert(nodes@.take(i + 1).drop_last() =~= nodes@.take(i as int));
        if nodes[i].status == ServiceStatus::Running {
            if let Some(peer) = &nodes[i].peer_id {
                let text = peer.to_base58();
                texts.push(text);
                assert(texts@.map_values(|s: String| s@) =~= before.map_values(
                    |s: String| s@,
                ).push(text@));
            }
        }
        i += 1;
    }
    assert(nodes@.take(i as int) =~= nodes@);
    texts
}

/// The peers that are listed are those of the nodes that run and have a peer id, each as often and
/// in the order as the nodes are.
pub proof fn law_listed_peers_are_the_running_ones(nodes: Seq<NodeSummary>)
    ensures
        running_peers(nodes) == nodes.filter(
            |n: NodeSummary| n.status is Running && n.peer_id is Some,
        ).map_values(|n: NodeSummary| peer_id_base58(n.peer_id->0@)),
    decreases nodes.len(),
{
    let shown = |n: NodeSummary| n.status is Running && n.peer_id is Some;
    reveal(Seq::filter);
    if nodes.len() > 0 {
        law_listed_peers_are_the_running_ones(nodes.drop_last());
    }
    assert(running_peers(nodes) =~= nodes.filter(shown).map_values(
        |n: NodeSummary| peer_id_base58(n.peer_id->0@),
    ));
}

/// The screen has its heading first and its keys last, one panel per section from top to bottom.
/// The nodes in between are listed if any runs; without a registry it is said that none does.
pub proof fn law_screen_shows_the_nodes(registry: Option<NodeRegistry>, panels: Seq<Panel>)
    requires
        is_home_screen(registry, panels),
    ensures
        2 <= panels.len() <= 3,
        panels[0].section == 0,
        panels[0].title@ == "Autonomi Node Runner"@,
        panels[0].body matches Body::Text(text) && text@ == "TODO: All Node Stats"@,
        panels[panels.len() - 1].section == 2,
        panels[panels.len() - 1].title@ == " Key commands "@,
        panels[panels.len() - 1].body matches Body::Text(text) && text@ == "[S]tart nodes, [Q]uit"@,
        panels.len() == 3 ==> panels[1].section == 1,
        registry is None ==> panels.len() == 3 && panels[1].title@ == "Autonomi Node Runner"@ && (
        panels[1].body matches Body::Text(text) && text@ == "No nodes running"@),
        registry matches Some(found) ==> {
            let peers = found.nodes@.filter(
                |n: NodeSummary| n.status is Running && n.peer_id is Some,
            );
            &&& panels.len() == 3 <==> peers.len() > 0
            &&& panels.len() == 3 ==> panels[1].title@ == "Running nodes"@ && (
            panels[1].body matches Body::List(items) && items@.len() == peers.len() && (forall|
                i: int,
            |
                0 <= i < items@.len() ==> (#[trigger] items@[i])@ == peer_id_base58(
                    peers[i].peer_id->0@,
                )))
        },
{
    if let Some(found) = registry {
        law_listed_peers_are_the_running_ones(found.nodes@);
        if panels.len() == 3 {
            if let Body::List(items) = panels[1].body {
                assert forall|i: int| 0 <= i < items@.len() implies (#[trigger] items@[i])@
                    == running_peers(found.nodes@)[i] by {
                    assert(items@.map_values(|s: String| s@)[i] == items@[i]@);
                }
            }
        }
    }
}

/// Only a tick changes the nodes, and only if the registry could be loaded: to what was loaded, or
/// to nothing where that has no nodes. An error of loading is passed on, and nothing ever follows.
pub proof fn law_only_ticks_change_the_nodes<E>(
    action: Action,
    loaded: Option<Result<NodeRegistry, E>>,
    before: Option<NodeRegistry>,
    after: Option<NodeRegistry>,
    next: Result<Option<Action>, E>,
)
    requires
        loaded is Some <==> action.wants_registry(),
        updates(action, loaded, before, after, next),
    ensures
        !(action is Tick) ==> after == before,
        loaded matches Some(Err(error)) ==> after == before && next == Err::<Option<Action>, E>(
            error,
        ),
        !(loaded matches Some(Err(_))) ==> next == Ok::<Option<Action>, E>(None),
        action is Tick ==> (loaded matches Some(Ok(registry)) ==> {
            &&& registry.nodes@.len() == 0 ==> after is None
            &&& registry.nodes@.len() > 0 ==> after == Some(registry)
        }),
        loaded is Some <==> action is Tick || action is StartNode,
{
}

/// The sections of the screen: at least five lines, at least three, and at most three.
pub proof fn law_sections_of_the_screen()
    ensures
        home_layout().len() == 3,
        home_layout()[0] == Height::Min(5),
        home_layout()[1] == Height::Min(3),
        home_layout()[2] == Height::Max(3),
{
}

} // verus!
