//! Our place in the distributed search tree, and the children that we feed.
use vstd::prelude::*;
use vstd::string::*;
use crate::text::{group_views, views};
use crate::wire::{DistribSearch, ServerRequest, DISTRIB_SEARCH, SEARCH_IDENTIFIER};

verus! {

broadcast use group_views;

/// Hard cap on distributed children regardless of speed.
pub const MAX_DISTRIB_CHILDREN: usize = 10;

/// How many children to take: one for each hundred times `ratio` bytes per second of upload
/// speed, up to the cap; none before the server has sent a ratio or below its minimum speed.
pub open spec fn max_children_for(upload_speed: u32, min_speed: u32, ratio: u32) -> nat {
    if ratio > 0 && upload_speed >= min_speed {
        let n = upload_speed as nat / ratio as nat / 100;
        if n < 10 {
            n
        } else {
            10
        }
    } else {
        0
    }
}

/// How many children to accept.
pub fn compute_max_children(upload_speed: u32, min_speed: u32, ratio: u32) -> (r: usize)
    ensures
        r == max_children_for(upload_speed, min_speed, ratio),
        r <= MAX_DISTRIB_CHILDREN,
{
    if ratio > 0 && upload_speed >= min_speed {
        let n: u32 = upload_speed / ratio / 100;
        if n < 10 {
            n as usize
        } else {
            MAX_DISTRIB_CHILDREN
        }
    } else {
        0
    }
}

/// A message of the distributed network.
#[derive(Debug, PartialEq)]
pub enum DistribMessage {
    Search(DistribSearch),
    /// A message inside another; `search` is it read as a search, where it is one.
    Embedded { inner_code: u8, search: Option<DistribSearch> },
    BranchLevel { level: i32 },
    BranchRoot { root: String },
    /// A ping, or a child's depth.
    Other,
}

/// A message for our children.
#[derive(Debug, PartialEq)]
pub enum DistribFrame<S> {
    Search { identifier: u32, username: S, token: u32, query: S },
    BranchLevel { level: i32 },
    BranchRoot { root: S },
}

impl View for DistribFrame<String> {
    type V = DistribFrame<Seq<char>>;

    open spec fn view(&self) -> DistribFrame<Seq<char>> {
        match self {
            DistribFrame::Search { identifier, username, token, query } => DistribFrame::Search {
                identifier: *identifier,
                username: username@,
                token: *token,
                query: query@,
            },
            DistribFrame::BranchLevel { level } => DistribFrame::BranchLevel { level: *level },
            DistribFrame::BranchRoot { root } => DistribFrame::BranchRoot { root: root@ },
        }
    }
}

/// What a message on a distributed connection leads to.
pub struct Relay {
    /// For every child, in this order.
    pub forward: Vec<DistribFrame<String>>,
    /// A search to answer from our own shares.
    pub search: Option<DistribSearch>,
    /// Whether the server is to hear of our place in the tree.
    pub advertise: bool,
}

pub struct SearchView {
    pub identifier: u32,
    pub username: Seq<char>,
    pub token: u32,
    pub query: Seq<char>,
}

pub struct RelayView {
    pub forward: Seq<DistribFrame<Seq<char>>>,
    pub search: Option<SearchView>,
    pub advertise: bool,
}

pub open spec fn search_view(s: DistribSearch) -> SearchView {
    SearchView {
        identifier: s.identifier,
        username: s.username@,
        token: s.token,
        query: s.query@,
    }
}

impl View for Relay {
    type V = RelayView;

    open spec fn view(&self) -> RelayView {
        RelayView {
            forward: views(self.forward@),
            search: match self.search {
                Some(s) => Some(search_view(s)),
                None => None,
            },
            advertise: self.advertise,
        }
    }
}

/// Our place in the tree, in terms of what it stands for.
pub struct DistribModel {
    pub level: u32,
    pub root: Seq<char>,
    /// Children by their ids, oldest first.
    pub children: Seq<u32>,
    pub next_child: u32,
    /// Whether a parent, or the server itself, feeds us searches.
    pub attached: bool,
    pub min_speed: u32,
    pub ratio: u32,
}

/// Our place in the distributed search tree.
pub struct DistribState {
    level: u32,
    root: String,
    children: Vec<u32>,
    next_child: u32,
    attached: bool,
    min_speed: u32,
    ratio: u32,
}

impl View for DistribState {
    type V = DistribModel;

    closed spec fn view(&self) -> DistribModel {
        DistribModel {
            level: self.level,
            root: self.root@,
            children: self.children@,
            next_child: self.next_child,
            attached: self.attached,
            min_speed: self.min_speed,
            ratio: self.ratio,
        }
    }
}

/// A level as the wire carries it: the same bits, read as signed.
pub open spec fn signed(level: u32) -> i32 {
    if level < 0x8000_0000 {
        level as i32
    } else {
        (level - 0x1_0000_0000) as i32
    }
}

pub fn to_signed(level: u32) -> (r: i32)
    ensures
        r == signed(level),
{
    if level < 0x8000_0000 {
        level as i32
    } else {
        (level as i64 - 0x1_0000_0000) as i32
    }
}

/// Our level under a parent: one more than the parent's, a negative one counting as 0.
pub open spec fn level_below(parent: i32) -> u32 {
    if parent < 0 {
        1
    } else {
        (parent + 1) as u32
    }
}

/// What a search leads to: it goes on to every child as it is, and is answered.
pub open spec fn relay_search(s: SearchView) -> RelayView {
    RelayView {
        forward: seq![
            DistribFrame::Search {
                identifier: s.identifier,
                username: s.username,
                token: s.token,
                query: s.query,
            },
        ],
        search: Some(s),
        advertise: false,
    }
}

pub open spec fn relay_nothing() -> RelayView {
    RelayView { forward: Seq::empty(), search: None, advertise: false }
}

/// What a message from our parent leads to.
pub open spec fn on_parent_message(d: DistribModel, message: DistribMessage) -> (
    DistribModel,
    RelayView,
) {
    match message {
        DistribMessage::Search(s) => (d, relay_search(search_view(s))),
        DistribMessage::Embedded { inner_code, search } => (
            d,
            match search {
                Some(s) if inner_code == DISTRIB_SEARCH => relay_search(search_view(s)),
                _ => relay_nothing(),
            },
        ),
        DistribMessage::BranchLevel { level } => (
            DistribModel { level: level_below(level), ..d },
            RelayView {
                forward: seq![DistribFrame::BranchLevel { level: signed(level_below(level)) }],
                search: None,
                advertise: true,
            },
        ),
        DistribMessage::BranchRoot { root } => (
            DistribModel { root: root@, ..d },
            RelayView {
                forward: seq![DistribFrame::BranchRoot { root: root@ }],
                search: None,
                advertise: true,
            },
        ),
        DistribMessage::Other => (d, relay_nothing()),
    }
}

/// Without a parent we are our own root again, and children and server hear of it.
pub open spec fn on_parent_lost(d: DistribModel, our_username: Seq<char>) -> (
    DistribModel,
    RelayView,
) {
    (
        DistribModel { attached: false, level: 0, root: our_username, ..d },
        RelayView {
            forward: seq![
                DistribFrame::BranchLevel { level: 0 },
                DistribFrame::BranchRoot { root: our_username },
            ],
            search: None,
            advertise: true,
        },
    )
}

/// A search that the server hands to us as a branch root: we count as attached from then on
/// (the server hears of it the first time), and the search is relayed under the protocol's
/// identifier.
pub open spec fn on_server_search(
    d: DistribModel,
    username: Seq<char>,
    token: u32,
    query: Seq<char>,
) -> (DistribModel, RelayView) {
    (
        DistribModel { attached: true, ..d },
        RelayView {
            advertise: !d.attached,
            ..relay_search(SearchView { identifier: SEARCH_IDENTIFIER, username, token, query })
        },
    )
}

/// Whether one more child is taken.
pub open spec fn takes_children(d: DistribModel, upload_speed: u32) -> bool {
    d.children.len() < max_children_for(upload_speed, d.min_speed, d.ratio)
}

/// What the server is told of our place: level, root, and whether we take children, which we do
/// only while attached.
pub open spec fn advertisement(d: DistribModel, upload_speed: u32) -> Seq<ServerRequest<Seq<char>>> {
    seq![
        ServerRequest::BranchLevel { level: d.level },
        ServerRequest::BranchRoot { root: d.root },
        ServerRequest::AcceptChildren { accept: d.attached && takes_children(d, upload_speed) },
    ]
}

/// The tree without one child.
pub open spec fn without_child(d: DistribModel, id: u32) -> DistribModel {
    DistribModel { children: d.children.filter(other_than(id)), ..d }
}

pub open spec fn other_than(id: u32) -> spec_fn(u32) -> bool {
    |x: u32| x != id
}

fn relay_of(s: DistribSearch) -> (r: Relay)
    ensures
        r@ == relay_search(search_view(s)),
{
    let mut forward: Vec<DistribFrame<String>> = Vec::new();
    forward.push(
        DistribFrame::Search {
            identifier: s.identifier,
            username: s.username.clone(),
            token: s.token,
            query: s.query.clone(),
        },
    );
    let r = Relay { forward, search: Some(s), advertise: false };
    assert(r@.forward =~= relay_search(search_view(s)).forward);
    r
}

fn no_relay() -> (r: Relay)
    ensures
        r@ == relay_nothing(),
{
    let r = Relay { forward: Vec::new(), search: None, advertise: false };
    assert(r@.forward =~= Seq::empty());
    r
}

impl DistribState {
    /// A branch root of its own, with no children.
    pub fn new(our_username: &str) -> (r: Self)
        ensures
            r@ == (DistribModel {
                level: 0,
                root: our_username@,
                children: Seq::empty(),
                next_child: 0,
                attached: false,
                min_speed: 0,
                ratio: 0,
            }),
    {
        let r = DistribState {
            level: 0,
            root: our_username.to_owned(),
            children: Vec::new(),
            next_child: 0,
            attached: false,
            min_speed: 0,
            ratio: 0,
        };
        assert(r@.children =~= Seq::empty());
        r
    }

    /// Stores the server's limits on who may have children.
    pub fn set_limits(&mut self, min_speed: u32, ratio: u32)
        ensures
            final(self)@ == (DistribModel { min_speed, ratio, ..old(self)@ }),
    {
        self.min_speed = min_speed;
        self.ratio = ratio;
    }

    /// How many children there are.
    pub fn child_count(&self) -> (n: usize)
        ensures
            n == self@.children.len(),
    {
        self.children.len()
    }

    /// Our level in the tree.
    pub fn level(&self) -> (r: u32)
        ensures
            r == self@.level,
    {
        self.level
    }

    /// The root of our branch.
    pub fn root(&self) -> (r: &str)
        ensures
            r@ == self@.root,
    {
        self.root.as_str()
    }

    /// A parent connected.
    pub fn parent_connected(&mut self)
        ensures
            final(self)@ == (DistribModel { attached: true, ..old(self)@ }),
    {
        self.attached = true;
    }

    /// A message came from our parent.
    pub fn parent_message(&mut self, message: DistribMessage) -> (r: Relay)
        ensures
            (final(self)@, r@) == on_parent_message(old(self)@, message),
    {
        match message {
            DistribMessage::Search(s) => relay_of(s),
            DistribMessage::Embedded { inner_code, search } => match search {
                Some(s) => if inner_code == DISTRIB_SEARCH {
                    relay_of(s)
                } else {
                    no_relay()
                },
                None => no_relay(),
            },
            DistribMessage::BranchLevel { level } => {
                let ours: u32 = if level < 0 {
                    1
                } else {
                    level as u32 + 1
                };
                self.level = ours;
                let mut r = no_relay();
                r.forward.push(DistribFrame::BranchLevel { level: to_signed(ours) });
                r.advertise = true;
                assert(r@.forward =~= on_parent_message(old(self)@, message).1.forward);
                r
            },
            DistribMessage::BranchRoot { root } => {
                self.root = root.clone();
                let mut r = no_relay();
                r.forward.push(DistribFrame::BranchRoot { root });
                r.advertise = true;
                assert(r@.forward =~= on_parent_message(old(self)@, message).1.forward);
                r
            },
            DistribMessage::Other => no_relay(),
        }
    }

    /// The parent is gone.
    pub fn parent_lost(&mut self, our_username: &str) -> (r: Relay)
        ensures
            (final(self)@, r@) == on_parent_lost(old(self)@, our_username@),
    {
        self.attached = false;
        self.level = 0;
        self.root = our_username.to_owned();
        let mut r = no_relay();
        r.forward.push(DistribFrame::BranchLevel { level: 0 });
        r.forward.push(DistribFrame::BranchRoot { root: our_username.to_owned() });
        r.advertise = true;
        assert(r@.forward =~= on_parent_lost(old(self)@, our_username@).1.forward);
        r
    }

    /// The server hands us a search as a branch root.
    pub fn server_search(&mut self, username: String, token: u32, query: String) -> (r: Relay)
        ensures
            (final(self)@, r@) == on_server_search(old(self)@, username@, token, query@),
    {
        let first = !self.attached;
        self.attached = true;
        let identifier: u32 = SEARCH_IDENTIFIER;
        let mut r = relay_of(DistribSearch { identifier, username, token, query });
        r.advertise = first;
        r
    }

    /// A peer wants to be our child; it gets an id if there is room.
    pub fn adopt(&mut self, upload_speed: u32) -> (r: Option<u32>)
        ensures
            match r {
                Some(id) => takes_children(old(self)@, upload_speed) && id == old(
                    self,
                )@.next_child && final(self)@ == (DistribModel {
                    children: old(self)@.children.push(id),
                    next_child: crate::peer_net::gate::wrap_add(old(self)@.next_child, 1),
                    ..old(self)@
                }),
                None => !takes_children(old(self)@, upload_speed) && final(self)@ == old(self)@,
            },
    {
        if self.children.len() >= compute_max_children(upload_speed, self.min_speed, self.ratio) {
            return None;
        }
        let id: u32 = self.next_child;
        self.next_child = self.next_child.wrapping_add(1);
        self.children.push(id);
        Some(id)
    }

    /// A child left.
    pub fn child_left(&mut self, id: u32)
        ensures
            final(self)@ == without_child(old(self)@, id),
    {
        let mut kept: Vec<u32> = Vec::new();
        let mut i: usize = 0;
        proof {
            reveal(Seq::filter);
            assert(self.children@.take(0) =~= Seq::empty());
            assert(kept@ =~= self.children@.take(0).filter(other_than(id)));
        }
        while i < self.children.len()
            invariant
                i <= self.children@.len(),
                *self == *old(self),
                kept@ == self.children@.take(i as int).filter(other_than(id)),
            decreases self.children@.len() - i,
        {
            proof {
                reveal(Seq::filter);
                assert(self.children@.take(i as int + 1).drop_last() =~= self.children@.take(
                    i as int,
                ));
            }
            if self.children[i] != id {
                kept.push(self.children[i]);
            }
            i += 1;
        }
        assert(self.children@.take(i as int) =~= self.children@);
        self.children = kept;
    }

    /// What to tell the server of our place in the tree.
    pub fn advertise(&self, upload_speed: u32) -> (r: Vec<ServerRequest<String>>)
        ensures
            views(r@) == advertisement(self@, upload_speed),
    {
        let accept = self.attached && self.children.len() < compute_max_children(
            upload_speed,
            self.min_speed,
            self.ratio,
        );
        let mut r: Vec<ServerRequest<String>> = Vec::new();
        r.push(ServerRequest::BranchLevel { level: self.level });
        r.push(ServerRequest::BranchRoot { root: self.root.clone() });
        r.push(ServerRequest::AcceptChildren { accept });
        assert(views(r@) =~= advertisement(self@, upload_speed));
        r
    }
}

/// Only a node that is attached and has room invites children.
pub proof fn law_only_attached_nodes_invite_children(d: DistribModel, upload_speed: u32)
    ensures
        advertisement(d, upload_speed)[2] == (ServerRequest::AcceptChildren::<Seq<char>> {
            accept: true,
        }) <==> d.attached && d.children.len() < max_children_for(
            upload_speed,
            d.min_speed,
            d.ratio,
        ),
        max_children_for(upload_speed, d.min_speed, d.ratio) <= MAX_DISTRIB_CHILDREN,
{
}

/// Every search that comes down the tree, by itself or inside another message, is both relayed to
/// the children verbatim, identifier included, and answered, and changes nothing of our place.
pub proof fn law_searches_are_relayed_and_answered(d: DistribModel, s: DistribSearch)
    ensures
        on_parent_message(d, DistribMessage::Search(s)).0 == d,
        on_parent_message(d, DistribMessage::Search(s)).1.search == Some(search_view(s)),
        on_parent_message(d, DistribMessage::Search(s)).1.forward == seq![
            DistribFrame::Search {
                identifier: s.identifier,
                username: s.username@,
                token: s.token,
                query: s.query@,
            },
        ],
        on_parent_message(
            d,
            DistribMessage::Embedded { inner_code: DISTRIB_SEARCH, search: Some(s) },
        ) == on_parent_message(d, DistribMessage::Search(s)),
{
}

/// Once the parent is gone, nothing that it told us of our place is left.
pub proof fn law_parent_lost_forgets_the_branch(
    d: DistribModel,
    message: DistribMessage,
    our_username: Seq<char>,
)
    ensures
        on_parent_lost(on_parent_message(d, message).0, our_username) == on_parent_lost(
            d,
            our_username,
        ),
{
}

/// A node stands one level below its parent, tells its children so, and tells the server too; the
/// root of the branch is the parent's.
pub proof fn law_a_node_stands_below_its_parent(d: DistribModel, level: i32, root: String)
    ensures
        ({
            let (after, relay) = on_parent_message(d, DistribMessage::BranchLevel { level });
            &&& 0 <= level ==> after.level == level + 1
            &&& level < 0 ==> after.level == 1
            &&& level < i32::MAX ==> relay.forward == seq![
                DistribFrame::<Seq<char>>::BranchLevel { level: after.level as i32 },
            ]
            &&& relay.advertise && relay.search is None
            &&& after.root == d.root && after.children == d.children && after.attached
                == d.attached
        }),
        ({
            let (after, relay) = on_parent_message(d, DistribMessage::BranchRoot { root });
            &&& after.root == root@ && after.level == d.level && after.children == d.children
            &&& relay.forward == seq![DistribFrame::BranchRoot { root: root@ }]
            &&& relay.advertise && relay.search is None
        }),
        on_parent_message(d, DistribMessage::Other).0 == d,
        on_parent_message(d, DistribMessage::Other).1.forward.len() == 0,
        on_parent_message(d, DistribMessage::Other).1.search is None,
{
}

/// What the server is told is our own level and root.
pub proof fn law_the_server_hears_our_place(d: DistribModel, upload_speed: u32)
    ensures
        advertisement(d, upload_speed).len() == 3,
        advertisement(d, upload_speed)[0] == (ServerRequest::<Seq<char>>::BranchLevel {
            level: d.level,
        }),
        advertisement(d, upload_speed)[1] == (ServerRequest::BranchRoot { root: d.root }),
{
}

/// A faster node takes no fewer children, up to ten; one below the least speed takes none, and so
/// does every node where the server sets no ratio.
pub proof fn law_faster_nodes_take_more_children(
    slow: u32,
    fast: u32,
    min_speed: u32,
    ratio: u32,
)
    requires
        slow <= fast,
    ensures
        max_children_for(slow, min_speed, ratio) <= max_children_for(fast, min_speed, ratio),
        slow < min_speed ==> max_children_for(slow, min_speed, ratio) == 0,
        max_children_for(slow, min_speed, 0) == 0,
        ratio > 0 && slow >= min_speed && slow >= ratio * 1000 ==> max_children_for(
            slow,
            min_speed,
            ratio,
        ) == 10,
        ratio > 0 && slow >= min_speed && slow < ratio * 100 ==> max_children_for(
            slow,
            min_speed,
            ratio,
        ) == 0,
{
    if ratio > 0 {
        let (s, f, r) = (slow as int, fast as int, ratio as int);
        assert(s / r <= f / r) by (nonlinear_arith)
            requires
                s <= f,
                r > 0,
        ;
        assert(s >= r * 1000 ==> s / r >= 1000) by (nonlinear_arith)
            requires
                r > 0,
        ;
        assert(s < r * 100 ==> s / r < 100) by (nonlinear_arith)
            requires
                r > 0,
        ;
    }
}

/// A child that leaves is gone, and only it.
pub proof fn law_only_the_child_that_leaves_is_gone(d: DistribModel, id: u32)
    ensures
        without_child(d, id).children == d.children.filter(|x: u32| x != id),
        without_child(d, id).level == d.level && without_child(d, id).root == d.root
            && without_child(d, id).attached == d.attached,
{
    assert(other_than(id) =~= (|x: u32| x != id));
}

/// A search that the server hands us goes to every child and is answered, as the server gave it;
/// the server hears of us where it had not fed us before.
pub proof fn law_a_search_from_the_server_is_relayed(
    d: DistribModel,
    username: Seq<char>,
    token: u32,
    query: Seq<char>,
)
    ensures
        ({
            let (after, relay) = on_server_search(d, username, token, query);
            &&& after.attached && after.children == d.children && after.level == d.level
            &&& relay.advertise == !d.attached
            &&& relay.search matches Some(s) && s.username == username && s.token == token
                && s.query == query
            &&& relay.forward.len() == 1
            &&& relay.forward[0] matches DistribFrame::Search {
                username: u,
                token: t,
                query: q,
                ..
            } && u == username && t == token && q == query
        }),
{
}

/// A node without a parent is its own root, at the top, tells its children so, and keeps them.
pub proof fn law_a_node_without_a_parent_is_its_own_root(d: DistribModel, our_username: Seq<char>)
    ensures
        ({
            let (after, relay) = on_parent_lost(d, our_username);
            &&& after.level == 0 && after.root == our_username && !after.attached
            &&& after.children == d.children
            &&& relay.advertise && relay.search is None
            &&& relay.forward.len() == 2
            &&& relay.forward[0] == (DistribFrame::<Seq<char>>::BranchLevel { level: 0 })
            &&& relay.forward[1] == (DistribFrame::BranchRoot { root: our_username })
        }),
{
}

} // verus!
