//! The search for a local port to bind a client socket to.
use std::collections::HashSet;
use std::sync::Arc;

use vstd::prelude::*;

use crate::addr::SocketAddr;
use crate::ports::{Draw, PortDraws, PortSource};

verus! {

broadcast use vstd::std_specs::hash::group_hash_axioms;

/// How often a random port is tried before the operating system picks one.
pub const ATTEMPT_RANDOM: usize = 10;

/// The lowest port drawn at random. The dynamic ports are 49152 to 65535, but RFC
/// 6056 (section 3.2) wants the whole range from 1024 up to be used.
pub const MIN_RANDOM_PORT: u16 = 1024;

/// How a pending bind came out.
#[derive(Clone, Copy, Debug, PartialEq, Eq, Structural)]
pub enum BindEvent {
    /// No bind is under way.
    Idle,
    /// The bind is still under way.
    Pending,
    /// The socket is bound.
    Bound,
    /// The bind failed for want of permission for the port.
    PermissionDenied,
    /// The bind failed because the port is taken.
    AddrInUse,
    /// The bind failed in some other way.
    Failed,
}

/// What to do next about a bind.
#[derive(Clone, Copy, Debug, PartialEq, Eq)]
pub enum BindAction {
    /// Start to bind to `bind_addr` for talking to `name_server`, and poll that.
    Bind { bind_addr: SocketAddr, name_server: SocketAddr },
    /// Wait until the bind makes progress.
    ReturnPending,
    /// Hand out the bound socket.
    ReturnSocket,
    /// Hand out the error of the bind.
    ReturnError,
}

/// The search for a local port.
pub struct NextRandomUdpSocket {
    name_server: SocketAddr,
    bind_address: SocketAddr,
    /// Number of unsuccessful attempts to pick a port.
    attempted: usize,
    avoid_local_ports: Arc<HashSet<u16>>,
    os_port_selection: bool,
}

/// The state of a [`NextRandomUdpSocket`].
pub struct PortSearch {
    pub name_server: SocketAddr,
    pub bind_address: SocketAddr,
    pub attempted: nat,
    pub avoid: Set<u16>,
    pub os_port_selection: bool,
}

impl View for NextRandomUdpSocket {
    type V = PortSearch;

    closed spec fn view(&self) -> PortSearch {
        PortSearch {
            name_server: self.name_server,
            bind_address: self.bind_address,
            attempted: self.attempted as nat,
            avoid: self.avoid_local_ports@,
            os_port_selection: self.os_port_selection,
        }
    }
}

impl PortSearch {
    /// Whether the port is to be drawn at random: neither was one given nor is
    /// the operating system to pick it.
    pub open spec fn draws_port(self) -> bool {
        !self.os_port_selection && self.bind_address.port() == 0
    }

    /// Whether a port is drawn next: one is wanted, and there are random attempts
    /// left.
    pub open spec fn searches(self) -> bool {
        self.draws_port() && self.attempted < ATTEMPT_RANDOM
    }

    /// This search with another number of attempts.
    pub open spec fn with_attempted(self, attempted: nat) -> PortSearch {
        PortSearch { attempted, ..self }
    }

    /// This search with one more attempt.
    pub open spec fn counted(self) -> PortSearch {
        self.with_attempted(self.attempted + 1)
    }

    /// Whether a failed bind is followed by another: the failure must be one of
    /// the port, and there must be attempts left.
    pub open spec fn retries(self, event: BindEvent) -> bool {
        &&& event is PermissionDenied || event is AddrInUse
        &&& self.attempted < ATTEMPT_RANDOM + 1
    }

    /// Whether the search goes on to bind after `event`.
    pub open spec fn binds(self, event: BindEvent) -> bool {
        event is Idle || self.retries(event)
    }

    /// This search with the failed bind that `event` may be counted.
    pub open spec fn charged(self, event: BindEvent) -> PortSearch {
        if self.retries(event) {
            self.counted()
        } else {
            self
        }
    }
}

/// Whether a search in state `before` may go on to bind to `addr`, and is in state
/// `after` then.
///
/// Where no port is to be drawn, or the random attempts are used up, that is the
/// given address. Otherwise ports are drawn, and each one that is to be avoided
/// uses up an attempt: either a port that need not be avoided turns up, or the
/// attempts run out.
pub open spec fn picks(before: PortSearch, after: PortSearch, addr: SocketAddr) -> bool {
    if !before.searches() {
        &&& addr == before.bind_address
        &&& after == before
    } else {
        &&& after == before.with_attempted(after.attempted)
        &&& before.attempted <= after.attempted <= ATTEMPT_RANDOM
        &&& before.attempted < after.attempted ==> exists|port: u16|
            MIN_RANDOM_PORT <= port && #[trigger] before.avoid.contains(port)
        &&& if after.attempted < ATTEMPT_RANDOM {
            &&& addr == SocketAddr::new(before.bind_address.ip(), addr.port())
            &&& MIN_RANDOM_PORT <= addr.port()
            &&& !before.avoid.contains(addr.port())
        } else {
            addr == before.bind_address
        }
    }
}

/// The address that a search in state `s` goes on to bind to, and its state then,
/// when `draws` are the ports that are drawn, in this order.
///
/// Each port that is to be avoided uses up an attempt, and the first other one is
/// taken.
pub open spec fn settled(s: PortSearch, draws: Seq<u16>) -> (SocketAddr, PortSearch)
    decreases draws.len(),
{
    if !s.searches() || draws.len() == 0 {
        (s.bind_address, s)
    } else if s.avoid.contains(draws[0]) {
        settled(s.counted(), draws.skip(1))
    } else {
        (SocketAddr::new(s.bind_address.ip(), draws[0]), s)
    }
}

/// Whether `draws` are just as many ports as a search in state `s` draws: none where
/// no port is to be drawn, and otherwise up to the first port that need not be
/// avoided, or until the attempts are used up.
pub open spec fn draws_made(s: PortSearch, draws: Seq<u16>) -> bool
    decreases draws.len(),
{
    if !s.searches() {
        draws.len() == 0
    } else {
        &&& draws.len() > 0
        &&& if s.avoid.contains(draws[0]) {
            draws_made(s.counted(), draws.skip(1))
        } else {
            draws.len() == 1
        }
    }
}

/// How many of `draws` are to be avoided.
pub open spec fn rejected(avoid: Set<u16>, draws: Seq<u16>) -> nat
    decreases draws.len(),
{
    if draws.len() == 0 {
        0
    } else {
        (if avoid.contains(draws[0]) {
            1nat
        } else {
            0nat
        }) + rejected(avoid, draws.skip(1))
    }
}

/// Whether none of `draws` is below the range that ports are drawn from.
pub open spec fn in_range(draws: Seq<u16>) -> bool {
    forall|i: int| 0 <= i < draws.len() ==> MIN_RANDOM_PORT <= #[trigger] draws[i]
}

/// The account of `draws`, drawn each from the whole range.
pub open spec fn accounted(draws: Seq<u16>) -> Seq<Draw> {
    draws.map_values(|port: u16| Draw { low: MIN_RANDOM_PORT, high: u16::MAX, port })
}

/// What a search in state `s` does after `event`, and its state then, when `draws`
/// are the ports that are drawn.
pub open spec fn polled(s: PortSearch, event: BindEvent, draws: Seq<u16>) -> (
    BindAction,
    PortSearch,
) {
    match event {
        BindEvent::Pending => (BindAction::ReturnPending, s),
        BindEvent::Bound => (BindAction::ReturnSocket, s),
        _ => if s.binds(event) {
            let (bind_addr, after) = settled(s.charged(event), draws);
            (BindAction::Bind { bind_addr, name_server: s.name_server }, after)
        } else {
            (BindAction::ReturnError, s)
        },
    }
}

/// Whether `draws` can be the ports that a search in state `s` draws after `event`.
pub open spec fn can_follow(s: PortSearch, event: BindEvent, draws: Seq<u16>) -> bool {
    if s.binds(event) {
        in_range(draws) && draws_made(s.charged(event), draws)
    } else {
        draws.len() == 0
    }
}

impl NextRandomUdpSocket {
    /// Drawing a port uses up the random attempts at most, and a failed bind one
    /// more.
    #[verifier::type_invariant]
    spec fn attempts_bounded(self) -> bool {
        self.attempted <= ATTEMPT_RANDOM + 1
    }

    /// Starts a search for a port to talk to `name_server` from.
    ///
    /// A port in `bind_addr` is used as it is. Without a `bind_addr` the socket is
    /// bound to the unspecified address of the family of `name_server`.
    pub fn new(
        name_server: SocketAddr,
        bind_addr: Option<SocketAddr>,
        avoid_local_ports: Arc<HashSet<u16>>,
        os_port_selection: bool,
    ) -> (search: Self)
        ensures
            search@ == (PortSearch {
                name_server,
                bind_address: match bind_addr {
                    Some(given) => given,
                    None => name_server.unspecified_like(),
                },
                attempted: 0,
                avoid: avoid_local_ports@,
                os_port_selection,
            }),
    {
        let bind_address = match bind_addr {
            Some(given) => given,
            None => name_server.unspecified_like(),
        };
        NextRandomUdpSocket {
            name_server,
            bind_address,
            attempted: 0,
            avoid_local_ports,
            os_port_selection,
        }
    }

    /// Takes up a drawn port: the address to bind to, or `None` if the port is to
    /// be avoided, which uses up an attempt.
    pub fn offer_port(&mut self, port: u16) -> (r: Option<SocketAddr>)
        requires
            old(self)@.attempted < ATTEMPT_RANDOM,
        ensures
            old(self)@.avoid.contains(port) ==> r is None && final(self)@ == old(self)@.counted(),
            !old(self)@.avoid.contains(port) ==> r == Some(
                SocketAddr::new(old(self)@.bind_address.ip(), port),
            ) && final(self)@ == old(self)@,
            final(self)@.name_server == old(self)@.name_server,
            final(self)@.bind_address == old(self)@.bind_address,
            final(self)@.avoid == old(self)@.avoid,
            final(self)@.os_port_selection == old(self)@.os_port_selection,
            final(self)@.attempted == old(self)@.attempted + (if old(self)@.avoid.contains(port) {
                1int
            } else {
                0int
            }),
    {
        if self.avoid_local_ports.contains(&port) {
            // RFC 6056 (section 3.3.2) expects a suitable port within one or two
            // attempts. If the set of ports to avoid is very large, counting them
            // here keeps the search from going on for ever.
            self.attempted = self.attempted + 1;
            None
        } else {
            Some(SocketAddr::new(self.bind_address.ip(), port))
        }
    }

    /// The address to bind to next, where `draws` are the ports that are drawn.
    ///
    /// Where a port is wanted, there must be enough of them to use up the random
    /// attempts.
    pub fn settle(&mut self, draws: &[u16]) -> (addr: SocketAddr)
        requires
            old(self)@.draws_port() ==> old(self)@.attempted + draws@.len() >= ATTEMPT_RANDOM,
        ensures
            (addr, final(self)@) == settled(old(self)@, draws@),
    {
        let bind_addr = self.bind_address;
        if !self.os_port_selection && bind_addr.port() == 0 {
            let mut i: usize = 0;
            assert(draws@.skip(0) == draws@);
            while self.attempted < ATTEMPT_RANDOM
                invariant
                    old(self)@.draws_port(),
                    bind_addr == old(self)@.bind_address,
                    self@ == old(self)@.with_attempted(self@.attempted),
                    i <= draws@.len(),
                    self@.attempted + (draws@.len() - i) >= ATTEMPT_RANDOM,
                    settled(old(self)@, draws@) == settled(self@, draws@.skip(i as int)),
                decreases draws@.len() - i,
            {
                if let Some(addr) = self.offer_port(draws[i]) {
                    return addr;
                }
                assert(draws@.skip(i as int).skip(1) == draws@.skip(i + 1));
                i = i + 1;
            }
        }
        bind_addr
    }

    /// The address to bind to next, with ports drawn from `ports`.
    ///
    /// They are drawn from the whole range, one at a time and no more than it takes.
    pub fn next_bind_addr<S: PortSource>(&mut self, ports: &mut PortDraws<S>) -> (addr: SocketAddr)
        ensures
            exists|draws: Seq<u16>|
                {
                    &&& final(ports)@ == old(ports)@ + accounted(draws)
                    &&& in_range(draws)
                    &&& #[trigger] draws_made(old(self)@, draws)
                    &&& (addr, final(self)@) == settled(old(self)@, draws)
                },
            picks(old(self)@, final(self)@, addr),
    {
        let bind_addr = self.bind_address;
        let ghost mut draws: Seq<u16> = Seq::empty();
        assert(ports@ =~= old(ports)@ + accounted(draws));
        if !self.os_port_selection && bind_addr.port() == 0 {
            while self.attempted < ATTEMPT_RANDOM
                invariant
                    old(self)@.draws_port(),
                    bind_addr == old(self)@.bind_address,
                    ports@ == old(ports)@ + accounted(draws),
                    in_range(draws),
                    self@ == old(self)@.with_attempted(old(self)@.attempted + draws.len()),
                    draws.len() > 0 ==> self@.attempted <= ATTEMPT_RANDOM,
                    forall|i: int|
                        0 <= i < draws.len() ==> old(self)@.avoid.contains(#[trigger] draws[i]),
                decreases ATTEMPT_RANDOM - self.attempted,
            {
                let port: u16 = ports.draw(MIN_RANDOM_PORT, u16::MAX);
                let ghost made = draws.push(port);
                assert(ports@ =~= old(ports)@ + accounted(made));
                if let Some(addr) = self.offer_port(port) {
                    proof {
                        lemma_settled(old(self)@, draws, Some(port));
                        lemma_settled_picks(old(self)@, made);
                    }
                    return addr;
                }
                proof {
                    draws = made;
                }
            }
        }
        proof {
            lemma_settled(old(self)@, draws, None);
            lemma_settled_picks(old(self)@, draws);
        }
        bind_addr
    }

    /// Goes on with the search after `event`, with ports drawn from `ports`.
    pub fn poll<S: PortSource>(
        &mut self,
        event: BindEvent,
        ports: &mut PortDraws<S>,
    ) -> (action: BindAction)
        ensures
            match event {
                BindEvent::Idle => action matches BindAction::Bind { bind_addr, name_server }
                    && name_server == old(self)@.name_server && picks(
                    old(self)@,
                    final(self)@,
                    bind_addr,
                ),
                BindEvent::Pending => action is ReturnPending && final(self)@ == old(self)@,
                BindEvent::Bound => action is ReturnSocket && final(self)@ == old(self)@,
                BindEvent::PermissionDenied | BindEvent::AddrInUse | BindEvent::Failed => if old(
                    self,
                )@.retries(event) {
                    action matches BindAction::Bind { bind_addr, name_server } && name_server
                        == old(self)@.name_server && picks(
                        old(self)@.counted(),
                        final(self)@,
                        bind_addr,
                    )
                } else {
                    action is ReturnError && final(self)@ == old(self)@
                },
            },
            exists|draws: Seq<u16>|
                {
                    &&& final(ports)@ == old(ports)@ + accounted(draws)
                    &&& #[trigger] can_follow(old(self)@, event, draws)
                    &&& (action, final(self)@) == polled(old(self)@, event, draws)
                },
    {
        assert(!self@.binds(event) ==> can_follow(self@, event, Seq::empty()));
        assert(ports@ =~= old(ports)@ + accounted(Seq::empty()));
        match event {
            BindEvent::Idle => {},
            BindEvent::Pending => return BindAction::ReturnPending,
            BindEvent::Bound => return BindAction::ReturnSocket,
            BindEvent::PermissionDenied | BindEvent::AddrInUse => {
                if self.attempted >= ATTEMPT_RANDOM + 1 {
                    return BindAction::ReturnError;
                }
                self.attempted = self.attempted + 1;
            },
            BindEvent::Failed => return BindAction::ReturnError,
        }
        let ghost before = self@;
        let bind_addr = self.next_bind_addr(ports);
        proof {
            let draws = choose|draws: Seq<u16>|
                {
                    &&& ports@ == old(ports)@ + accounted(draws)
                    &&& in_range(draws)
                    &&& #[trigger] draws_made(before, draws)
                    &&& (bind_addr, self@) == settled(before, draws)
                };
            assert(can_follow(old(self)@, event, draws));
        }
        BindAction::Bind { bind_addr, name_server: self.name_server }
    }
}

/// A search in state `s` that draws `avoided`, which are all to be avoided, and then
/// `last`.
proof fn lemma_settled(s: PortSearch, avoided: Seq<u16>, last: Option<u16>)
    requires
        avoided.len() > 0 || last is Some ==> s.draws_port(),
        avoided.len() > 0 ==> s.attempted + avoided.len() <= ATTEMPT_RANDOM,
        forall|i: int| 0 <= i < avoided.len() ==> s.avoid.contains(#[trigger] avoided[i]),
        match last {
            Some(port) => s.attempted + avoided.len() < ATTEMPT_RANDOM && !s.avoid.contains(port),
            None => !s.draws_port() || s.attempted + avoided.len() >= ATTEMPT_RANDOM,
        },
    ensures
        ({
            let draws = match last {
                Some(port) => avoided.push(port),
                None => avoided,
            };
            let after = s.with_attempted(s.attempted + avoided.len());
            &&& draws_made(s, draws)
            &&& settled(s, draws) == match last {
                Some(port) => (SocketAddr::new(s.bind_address.ip(), port), after),
                None => (s.bind_address, after),
            }
        }),
    decreases avoided.len(),
{
    if avoided.len() > 0 {
        let rest = avoided.skip(1);
        assert forall|i: int| 0 <= i < rest.len() implies s.counted().avoid.contains(
            #[trigger] rest[i],
        ) by {
            assert(s.avoid.contains(avoided[i + 1]));
        }
        assert(s.avoid.contains(avoided[0]));
        lemma_settled(s.counted(), rest, last);
        if let Some(port) = last {
            assert(avoided.push(port).skip(1) == rest.push(port));
        }
    }
}

/// What settles the address is a matter of picking one.
proof fn lemma_settled_picks(s: PortSearch, draws: Seq<u16>)
    requires
        draws_made(s, draws),
        in_range(draws),
    ensures
        picks(s, settled(s, draws).1, settled(s, draws).0),
    decreases draws.len(),
{
    if s.searches() && s.avoid.contains(draws[0]) {
        let rest = draws.skip(1);
        assert forall|i: int| 0 <= i < rest.len() implies MIN_RANDOM_PORT
            <= #[trigger] rest[i] by {
            assert(MIN_RANDOM_PORT <= draws[i + 1]);
        }
        lemma_settled_picks(s.counted(), rest);
    }
}

/// A port that was given is the port that is bound, at every attempt; and where
/// the operating system is to pick the port, the ports to avoid do not matter.
pub proof fn law_given_address_is_used(before: PortSearch, after: PortSearch, addr: SocketAddr)
    requires
        picks(before, after, addr),
        before.bind_address.port() != 0 || before.os_port_selection,
    ensures
        addr == before.bind_address,
        after == before,
{
}

/// A port that the search picked itself is none of those to avoid and none of the
/// well-known ones, and the address is the one that was given.
pub proof fn law_drawn_port_is_suitable(before: PortSearch, after: PortSearch, addr: SocketAddr)
    requires
        picks(before, after, addr),
        addr.port() != before.bind_address.port(),
    ensures
        addr.port() >= 1024,
        !before.avoid.contains(addr.port()),
        addr.ip() == before.bind_address.ip(),
{
}

/// If none of the ports that may be drawn is to be avoided, the first draw settles
/// the port, and no attempt is used up.
pub proof fn law_first_draw_settles(before: PortSearch, after: PortSearch, addr: SocketAddr)
    requires
        picks(before, after, addr),
        before.draws_port(),
        before.attempted < ATTEMPT_RANDOM,
        forall|port: u16| MIN_RANDOM_PORT <= port ==> !#[trigger] before.avoid.contains(port),
    ensures
        addr.port() >= 1024,
        after == before,
{
}

/// What happened at one poll of a search: the event, and the ports that were drawn.
pub struct BindPoll {
    pub event: BindEvent,
    pub draws: Seq<u16>,
}

/// The state of a search that began in state `s`, after `polls`.
pub open spec fn search_after(s: PortSearch, polls: Seq<BindPoll>) -> PortSearch
    decreases polls.len(),
{
    if polls.len() == 0 {
        s
    } else {
        polled(search_after(s, polls.drop_last()), polls.last().event, polls.last().draws).1
    }
}

/// What a search that began in state `s` does at the last one of `polls`.
pub open spec fn last_action(s: PortSearch, polls: Seq<BindPoll>) -> BindAction {
    polled(search_after(s, polls.drop_last()), polls.last().event, polls.last().draws).0
}

/// Whether `polls` can be the first polls of a search that begins in state `s`: no
/// bind is under way at the first one, a bind is at each later one, and there is no
/// further poll once the search has returned a socket or an error.
pub open spec fn is_search(s: PortSearch, polls: Seq<BindPoll>) -> bool
    decreases polls.len(),
{
    polls.len() > 0 ==> {
        let front = polls.drop_last();
        &&& is_search(s, front)
        &&& polls.last().event is Idle <==> front.len() == 0
        &&& front.len() > 0 ==> last_action(s, front) is Bind || last_action(
            s,
            front,
        ) is ReturnPending
        &&& can_follow(search_after(s, front), polls.last().event, polls.last().draws)
    }
}

/// How many times a search that began in state `s` called for a bind in `polls`.
pub open spec fn binds_made(s: PortSearch, polls: Seq<BindPoll>) -> nat
    decreases polls.len(),
{
    if polls.len() == 0 {
        0
    } else {
        binds_made(s, polls.drop_last()) + (if last_action(s, polls) is Bind {
            1nat
        } else {
            0nat
        })
    }
}

/// How many failed binds a search that began in state `s` followed up with another
/// bind in `polls`.
pub open spec fn binds_retried(s: PortSearch, polls: Seq<BindPoll>) -> nat
    decreases polls.len(),
{
    if polls.len() == 0 {
        0
    } else {
        binds_retried(s, polls.drop_last()) + (if search_after(s, polls.drop_last()).retries(
            polls.last().event,
        ) {
            1nat
        } else {
            0nat
        })
    }
}

/// How many of the ports that were drawn in `polls` were to be avoided.
pub open spec fn ports_rejected(avoid: Set<u16>, polls: Seq<BindPoll>) -> nat
    decreases polls.len(),
{
    if polls.len() == 0 {
        0
    } else {
        ports_rejected(avoid, polls.drop_last()) + rejected(avoid, polls.last().draws)
    }
}

/// Only the attempts change while ports are drawn. They grow by one for each port
/// that is to be avoided, and drawing stops once the random attempts are used up.
pub proof fn law_each_rejected_port_counts(s: PortSearch, draws: Seq<u16>)
    requires
        draws_made(s, draws),
    ensures
        settled(s, draws).1 == s.with_attempted(s.attempted + rejected(s.avoid, draws)),
        rejected(s.avoid, draws) > 0 ==> settled(s, draws).1.attempted <= ATTEMPT_RANDOM,
    decreases draws.len(),
{
    if draws.len() > 0 {
        assert(draws.len() == 1 ==> draws.skip(1).len() == 0);
        if s.avoid.contains(draws[0]) {
            law_each_rejected_port_counts(s.counted(), draws.skip(1));
        }
    }
}

/// The attempts of a search are the failed binds that it followed up with another
/// bind and the drawn ports that were to be avoided. There are eleven of them at
/// most, they never become fewer, and nothing else of the search changes.
pub proof fn law_attempts_are_counted(s: PortSearch, polls: Seq<BindPoll>)
    requires
        s.attempted == 0,
        is_search(s, polls),
    ensures
        search_after(s, polls) == s.with_attempted(
            binds_retried(s, polls) + ports_rejected(s.avoid, polls),
        ),
        search_after(s, polls).attempted <= ATTEMPT_RANDOM + 1,
        ports_rejected(s.avoid, polls) <= ATTEMPT_RANDOM,
        polls.len() > 0 ==> search_after(s, polls.drop_last()).attempted <= search_after(
            s,
            polls,
        ).attempted,
    decreases polls.len(),
{
    if polls.len() > 0 {
        let front = polls.drop_last();
        law_attempts_are_counted(s, front);
        let before = search_after(s, front);
        let event = polls.last().event;
        if before.binds(event) {
            law_each_rejected_port_counts(before.charged(event), polls.last().draws);
        }
    }
}

/// The search ends: however the binds fail and whichever ports are drawn, it binds
/// at least once, rejects at most ten ports, and makes no more than twelve binds and
/// rejections together.
pub proof fn law_search_ends(s: PortSearch, polls: Seq<BindPoll>)
    requires
        s.attempted == 0,
        is_search(s, polls),
        polls.len() > 0,
    ensures
        binds_made(s, polls) >= 1,
        binds_made(s, polls) == 1 + binds_retried(s, polls),
        ports_rejected(s.avoid, polls) <= ATTEMPT_RANDOM,
        binds_made(s, polls) + ports_rejected(s.avoid, polls) <= ATTEMPT_RANDOM + 2,
    decreases polls.len(),
{
    law_attempts_are_counted(s, polls);
    let front = polls.drop_last();
    if front.len() > 0 {
        law_search_ends(s, front);
    }
}

/// Every bind is one for the name server. While a port is wanted and fewer than ten
/// binds failed or ports were rejected before a bind, it is for the given address
/// with the port that was drawn last, which need not be avoided. After that the
/// choice is left to the operating system.
pub proof fn law_attempts_decide_the_port(s: PortSearch, polls: Seq<BindPoll>)
    requires
        s.attempted == 0,
        s.draws_port(),
        is_search(s, polls),
        polls.len() > 0,
        last_action(s, polls) is Bind,
    ensures
        ({
            let failures = binds_made(s, polls) - 1 + ports_rejected(s.avoid, polls);
            &&& last_action(s, polls) matches BindAction::Bind { bind_addr, name_server }
            &&& name_server == s.name_server
            &&& failures < ATTEMPT_RANDOM ==> {
                &&& bind_addr == SocketAddr::new(s.bind_address.ip(), bind_addr.port())
                &&& polls.last().draws.len() > 0
                &&& bind_addr.port() == polls.last().draws.last()
                &&& 1024 <= bind_addr.port() <= 65535
                &&& !s.avoid.contains(bind_addr.port())
            }
            &&& failures >= ATTEMPT_RANDOM ==> bind_addr == s.bind_address
        }),
{
    law_search_ends(s, polls);
    law_attempts_are_counted(s, polls);
    law_attempts_are_counted(s, polls.drop_last());
    let before = search_after(s, polls.drop_last());
    lemma_settled_address(before.charged(polls.last().event), polls.last().draws);
}

/// The attempts that are used up once the address is settled tell which address it
/// is.
proof fn lemma_settled_address(s: PortSearch, draws: Seq<u16>)
    requires
        s.draws_port(),
        in_range(draws),
        draws_made(s, draws),
    ensures
        ({
            let (addr, after) = settled(s, draws);
            if after.attempted < ATTEMPT_RANDOM {
                &&& addr == SocketAddr::new(s.bind_address.ip(), addr.port())
                &&& draws.len() > 0 && addr.port() == draws.last()
                &&& MIN_RANDOM_PORT <= addr.port()
                &&& !s.avoid.contains(addr.port())
            } else {
                addr == s.bind_address
            }
        }),
    decreases draws.len(),
{
    if draws.len() > 0 {
        assert(MIN_RANDOM_PORT <= draws[0]);
        if s.avoid.contains(draws[0]) {
            assert forall|i: int| 0 <= i < draws.skip(1).len() implies MIN_RANDOM_PORT
                <= #[trigger] draws.skip(1)[i] by {
                assert(MIN_RANDOM_PORT <= draws[i + 1]);
            }
            lemma_settled_address(s.counted(), draws.skip(1));
        }
    }
}

/// Where neither a port was given nor the choice was left to the operating system, and
/// fewer than ten attempts are used up, ports are drawn, in either family and for any
/// address: each one but the last was to be avoided. If the last one is not, the given
/// address is bound with that port, without flow label and scope. If it is, the ten
/// attempts are used up, and the given address is bound as it is. Nothing but the
/// attempts changes.
pub proof fn law_wanted_port_is_drawn(s: PortSearch, draws: Seq<u16>)
    requires
        !s.os_port_selection,
        s.bind_address.port() == 0,
        s.attempted < 10,
        draws_made(s, draws),
        in_range(draws),
    ensures
        draws.len() > 0,
        forall|i: int| 0 <= i < draws.len() ==> 1024 <= #[trigger] draws[i] <= 65535,
        forall|i: int| 0 <= i < draws.len() - 1 ==> s.avoid.contains(#[trigger] draws[i]),
        ({
            let (addr, after) = settled(s, draws);
            &&& after.name_server == s.name_server
            &&& after.bind_address == s.bind_address
            &&& after.avoid == s.avoid
            &&& after.os_port_selection == s.os_port_selection
            &&& if s.avoid.contains(draws.last()) {
                &&& addr == s.bind_address
                &&& after.attempted == 10
                &&& draws.len() == 10 - s.attempted
            } else {
                &&& addr.ip() == s.bind_address.ip()
                &&& addr.port() == draws.last()
                &&& addr matches SocketAddr::V6(a) ==> a.flowinfo == 0 && a.scope_id == 0
                &&& after.attempted == s.attempted + draws.len() - 1
                &&& after.attempted < 10
            }
        }),
    decreases draws.len(),
{
    assert(1024 <= draws[0]);
    if s.avoid.contains(draws[0]) {
        let rest = draws.skip(1);
        assert forall|i: int| 0 <= i < rest.len() implies 1024 <= #[trigger] rest[i] by {
            assert(rest[i] == draws[i + 1]);
        }
        if s.attempted < 9 {
            law_wanted_port_is_drawn(s.counted(), rest);
            assert forall|i: int| 0 <= i < draws.len() - 1 implies s.avoid.contains(
                #[trigger] draws[i],
            ) by {
                if i > 0 {
                    assert(s.avoid.contains(rest[i - 1]));
                }
            }
            assert(rest.last() == draws.last());
        }
    }
}

/// Where a port was given, where the choice was left to the operating system, or once
/// ten attempts are used up, nothing is drawn: the given address is bound as it is,
/// and the search does not change.
pub proof fn law_unwanted_port_is_not_drawn(s: PortSearch, draws: Seq<u16>)
    requires
        s.os_port_selection || s.bind_address.port() != 0 || s.attempted >= 10,
    ensures
        draws_made(s, draws) <==> draws.len() == 0,
        settled(s, draws) == (s.bind_address, s),
{
}

/// Of ports that are offered in order, the first one that is not to be avoided is
/// taken, as long as fewer than ten attempts are used up when it is its turn; each one
/// before it has used up one. The ports behind it do not matter.
pub proof fn law_first_suitable_port_is_taken(s: PortSearch, draws: Seq<u16>, k: int)
    requires
        !s.os_port_selection,
        s.bind_address.port() == 0,
        0 <= k < draws.len(),
        s.attempted + k < 10,
        !s.avoid.contains(draws[k]),
        forall|i: int| 0 <= i < k ==> s.avoid.contains(#[trigger] draws[i]),
    ensures
        ({
            let (addr, after) = settled(s, draws);
            &&& addr.ip() == s.bind_address.ip()
            &&& addr.port() == draws[k]
            &&& addr matches SocketAddr::V6(a) ==> a.flowinfo == 0 && a.scope_id == 0
            &&& after == (PortSearch { attempted: (s.attempted + k) as nat, ..s })
        }),
    decreases k,
{
    if k > 0 {
        assert(s.avoid.contains(draws[0]));
        let rest = draws.skip(1);
        assert forall|i: int| 0 <= i < k - 1 implies s.avoid.contains(#[trigger] rest[i]) by {
            assert(rest[i] == draws[i + 1]);
        }
        law_first_suitable_port_is_taken(s.counted(), rest, k - 1);
    }
}

/// If the ports that are offered use up the ten attempts, the given address is bound
/// as it is.
pub proof fn law_unsuitable_ports_use_up_attempts(s: PortSearch, draws: Seq<u16>)
    requires
        !s.os_port_selection,
        s.bind_address.port() == 0,
        s.attempted <= 10,
        s.attempted + draws.len() >= 10,
        forall|i: int| 0 <= i < 10 - s.attempted ==> s.avoid.contains(#[trigger] draws[i]),
    ensures
        settled(s, draws).0 == s.bind_address,
        settled(s, draws).1 == (PortSearch { attempted: 10, ..s }),
    decreases draws.len(),
{
    if s.attempted < 10 {
        assert(s.avoid.contains(draws[0]));
        let rest = draws.skip(1);
        assert forall|i: int| 0 <= i < 10 - s.counted().attempted implies s.avoid.contains(
            #[trigger] rest[i],
        ) by {
            assert(rest[i] == draws[i + 1]);
        }
        law_unsuitable_ports_use_up_attempts(s.counted(), rest);
    }
}

/// The account of draws has each port in order, drawn from 1024 to 65535.
pub proof fn law_account_of_draws(draws: Seq<u16>)
    ensures
        accounted(draws).len() == draws.len(),
        forall|i: int|
            0 <= i < draws.len() ==> (#[trigger] accounted(draws)[i]).port == draws[i]
                && accounted(draws)[i].low == 1024 && accounted(draws)[i].high == 65535,
{
}

/// A search binds when it is first polled, and again after a bind that failed for want
/// of permission or because the port is taken, as long as at most ten attempts were
/// used up before. It waits while a bind is under way, and ends with the socket, or
/// with the error if the failure is another one or comes after eleven attempts.
pub proof fn law_when_a_search_binds(s: PortSearch, event: BindEvent, draws: Seq<u16>)
    requires
        can_follow(s, event, draws),
    ensures
        ({
            let (action, after) = polled(s, event, draws);
            let failed = event is PermissionDenied || event is AddrInUse;
            &&& action is Bind <==> event is Idle || failed && s.attempted < 11
            &&& action is ReturnPending <==> event is Pending
            &&& action is ReturnSocket <==> event is Bound
            &&& action is ReturnError <==> event is Failed || failed && s.attempted >= 11
            &&& !(action is Bind) ==> after == s && draws.len() == 0
            &&& action matches BindAction::Bind { name_server, .. } ==> name_server
                == s.name_server
        }),
{
}

/// Whenever a search binds: while a port is wanted and fewer than ten attempts are used
/// up, counting the failed bind before it if there was one, ports are drawn from 1024
/// to 65535, and the bind is for the last one of them, unless the draws used up the ten
/// attempts. Otherwise nothing is drawn, and the bind is for the given address.
pub proof fn law_each_bind_of_a_search(s: PortSearch, event: BindEvent, draws: Seq<u16>)
    requires
        can_follow(s, event, draws),
        event is Idle || (event is PermissionDenied || event is AddrInUse) && s.attempted < 11,
    ensures
        ({
            let (action, after) = polled(s, event, draws);
            let used = s.attempted + (if event is Idle {
                0int
            } else {
                1int
            });
            &&& after.name_server == s.name_server
            &&& after.bind_address == s.bind_address
            &&& after.avoid == s.avoid
            &&& after.os_port_selection == s.os_port_selection
            &&& action matches BindAction::Bind { bind_addr, name_server }
            &&& name_server == s.name_server
            &&& if !s.os_port_selection && s.bind_address.port() == 0 && used < 10 {
                &&& draws.len() > 0
                &&& forall|i: int| 0 <= i < draws.len() ==> 1024 <= #[trigger] draws[i] <= 65535
                &&& forall|i: int|
                    0 <= i < draws.len() - 1 ==> s.avoid.contains(#[trigger] draws[i])
                &&& if s.avoid.contains(draws.last()) {
                    &&& bind_addr == s.bind_address
                    &&& after.attempted == 10
                    &&& draws.len() == 10 - used
                } else {
                    &&& bind_addr.ip() == s.bind_address.ip()
                    &&& bind_addr.port() == draws.last()
                    &&& bind_addr matches SocketAddr::V6(a) ==> a.flowinfo == 0 && a.scope_id == 0
                    &&& after.attempted == used + draws.len() - 1
                }
            } else {
                &&& draws.len() == 0
                &&& bind_addr == s.bind_address
                &&& after.attempted == used
            }
        }),
{
    let base = s.charged(event);
    if !base.os_port_selection && base.bind_address.port() == 0 && base.attempted < 10 {
        law_wanted_port_is_drawn(base, draws);
    } else {
        law_unwanted_port_is_not_drawn(base, draws);
    }
}

/// A new search has used up no attempt and keeps what it was given: the name server,
/// the ports to avoid, who is to pick the port, and the address to bind to. Without an
/// address it binds to the unspecified one of the family of the name server, with no
/// port.
pub proof fn law_new_search(
    name_server: SocketAddr,
    bind_addr: Option<SocketAddr>,
    avoid_local_ports: Arc<HashSet<u16>>,
    os_port_selection: bool,
    search: NextRandomUdpSocket,
)
    requires
        call_ensures(
            NextRandomUdpSocket::new,
            (name_server, bind_addr, avoid_local_ports, os_port_selection),
            search,
        ),
    ensures
        search@.attempted == 0,
        search@.name_server == name_server,
        search@.avoid == avoid_local_ports@,
        search@.os_port_selection == os_port_selection,
        bind_addr matches Some(given) ==> search@.bind_address == given,
        bind_addr is None ==> match search@.bind_address {
            SocketAddr::V4(a) => name_server is V4 && a.port == 0 && (forall|i: int|
                0 <= i < 4 ==> #[trigger] a.ip.octets[i] == 0),
            SocketAddr::V6(a) => name_server is V6 && a.port == 0 && a.flowinfo == 0 && a.scope_id
                == 0 && (forall|i: int| 0 <= i < 16 ==> #[trigger] a.ip.octets[i] == 0),
        },
{
}

} // verus!
