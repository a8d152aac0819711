use vstd::prelude::*;
use std::collections::HashSet;
use vstd::hash_map::StringHashMap;
use crate::ports::ServerPorts;

verus! {

broadcast use vstd::std_specs::hash::group_hash_axioms;

/// The abstract state of a [`ServerAllocator`].
pub struct AllocatorModel {
    /// Game ports that were handed back and wait to be handed out again.
    pub free: Set<u16>,
    /// Every host port currently in use by some server.
    pub active: Set<u16>,
    /// The next game port that has never been handed out.
    pub next: u16,
    /// The game port recorded for each container id.
    pub servers: Map<Seq<char>, u16>,
}

impl AllocatorModel {
    /// The allocator's invariant: everything in use lies below `next`, a
    /// waiting game port and the port above it are both unused, and two
    /// waiting game ports never share a port pair.
    pub open spec fn wf(self) -> bool {
        &&& self.active.finite()
        &&& forall|p: u16| #[trigger] self.active.contains(p) ==> p < self.next
        &&& forall|q: u16|
            #[trigger] self.free.contains(q) ==> {
                &&& q + 1 < self.next
                &&& !self.active.contains(q)
                &&& !self.active.contains((q + 1) as u16)
            }
        &&& forall|a: u16, b: u16|
            #[trigger] self.free.contains(a) && #[trigger] self.free.contains(b) && a < b ==> a
                + 2 <= b
    }

    /// `p` is the smallest waiting game port.
    pub open spec fn is_least_free(self, p: u16) -> bool {
        &&& self.free.contains(p)
        &&& forall|x: u16| #[trigger] self.free.contains(x) ==> p <= x
    }

    /// Another pair can be handed out without running past the last port.
    pub open spec fn can_allocate(self) -> bool {
        !self.free.is_empty() || self.next + 2 <= u16::MAX
    }

    /// The game port that the next allocation hands out: the smallest
    /// waiting one, or else `next`.
    pub open spec fn next_base(self) -> u16 {
        if self.free.is_empty() {
            self.next
        } else {
            choose|p: u16| self.is_least_free(p)
        }
    }

    /// The state after one allocation.
    pub open spec fn allocate(self) -> AllocatorModel {
        let b = self.next_base();
        AllocatorModel {
            free: self.free.remove(b),
            active: self.active.insert(b).insert((b + 1) as u16),
            next: if self.free.is_empty() {
                (self.next + 2) as u16
            } else {
                self.next
            },
            servers: self.servers,
        }
    }

    /// The state after handing back the pair `(game, query)`, and whether the
    /// hand-back succeeded. The ports are taken out one after the other and
    /// the first one that is not in use stops it.
    pub open spec fn release(self, game: u16, query: u16) -> (AllocatorModel, bool) {
        if !self.active.contains(game) {
            (self, false)
        } else if !self.active.contains(query) {
            (AllocatorModel { active: self.active.remove(game), ..self }, false)
        } else {
            (
                AllocatorModel {
                    free: self.free.insert(game),
                    active: self.active.remove(game).remove(query),
                    ..self
                },
                true,
            )
        }
    }
}

/// Hands out pairs of adjacent host ports to game servers, reusing the
/// smallest handed-back pair first, and records which container runs on
/// which game port.
pub struct ServerAllocator {
    available_ports: Vec<u16>,
    active_ports: HashSet<u16>,
    next_port: u16,
    servers: StringHashMap<u16>,
}

impl View for ServerAllocator {
    type V = AllocatorModel;

    closed spec fn view(&self) -> AllocatorModel {
        AllocatorModel {
            free: Set::new(|p: u16| self.available_ports@.contains(p)),
            active: self.active_ports@,
            next: self.next_port,
            servers: self.servers@,
        }
    }
}

impl ServerAllocator {
    /// The waiting game ports are kept in strictly increasing order.
    pub closed spec fn sorted(&self) -> bool {
        forall|i: int, j: int|
            0 <= i < j < self.available_ports@.len() ==> self.available_ports@[i]
                < self.available_ports@[j]
    }

    /// Well-formedness: the model's invariant and the ordered free list.
    pub open spec fn wf(&self) -> bool {
        &&& self@.wf()
        &&& self.sorted()
    }

    /// An allocator that starts handing out pairs at `starting_port`.
    pub fn new(starting_port: u16) -> (r: Self)
        ensures
            r.wf(),
            r@ == AllocatorModel::fresh(starting_port),
    {
        let r = Self {
            available_ports: Vec::new(),
            active_ports: HashSet::new(),
            next_port: starting_port,
            servers: StringHashMap::new(),
        };
        assert(r@.free =~= Set::<u16>::empty());
        r
    }

    /// Whether [`Self::allocate_port`] can hand out another pair.
    pub fn can_allocate(&self) -> (r: bool)
        requires
            self.wf(),
        ensures
            r == self@.can_allocate(),
    {
        proof {
            if self.available_ports@.len() > 0 {
                assert(self@.free.contains(self.available_ports@[0]));
            } else {
                assert(self@.free =~= Set::<u16>::empty());
            }
        }
        self.available_ports.len() > 0 || self.next_port <= u16::MAX - 2
    }

    /// Hands out a pair of ports: the smallest handed-back game port if there
    /// is one, else the next fresh one. Both ports of the pair become active.
    pub fn allocate_port(&mut self) -> (r: ServerPorts)
        requires
            old(self).wf(),
            old(self)@.can_allocate(),
        ensures
            final(self).wf(),
            final(self)@ == old(self)@.allocate(),
            r.game() == old(self)@.next_base(),
            r.query() == r.game() + 1,
            !old(self)@.active.contains(r.game()),
            !old(self)@.active.contains(r.query()),
    {
        let ghost pre = self@;
        let base_port = if self.available_ports.len() > 0 {
            let first = self.available_ports[0];
            proof {
                assert(pre.free.contains(first));
                assert(pre.is_least_free(first)) by {
                    assert forall|x: u16| #[trigger] pre.free.contains(x) implies first <= x by {
                        let k = choose|k: int|
                            0 <= k < self.available_ports@.len() && self.available_ports@[k] == x;
                        if k > 0 {
                            assert(self.available_ports@[0] < self.available_ports@[k]);
                        }
                    }
                }
                let c = choose|p: u16| pre.is_least_free(p);
                assert(pre.is_least_free(c));
                assert(c == first);
            }
            let ghost before = self.available_ports@;
            let p = self.available_ports.remove(0);
            proof {
                assert(self.available_ports@ =~= before.subrange(1, before.len() as int));
                assert forall|x: u16| #[trigger] self@.free.contains(x) == pre.free.remove(p).contains(x) by {
                    if self@.free.contains(x) {
                        let k = choose|k: int|
                            0 <= k < self.available_ports@.len() && self.available_ports@[k] == x;
                        assert(before[k + 1] == x);
                        assert(before[0] < before[k + 1]);
                    }
                    if pre.free.remove(p).contains(x) {
                        let k = choose|k: int| 0 <= k < before.len() && before[k] == x;
                        assert(k != 0);
                        assert(self.available_ports@[k - 1] == x);
                    }
                }
                assert(self@.free =~= pre.free.remove(p));
            }
            p
        } else {
            proof {
                assert(pre.free =~= Set::<u16>::empty());
            }
            let p = self.next_port;
            self.next_port = self.next_port + 2;
            p
        };
        let ghost mid = self.available_ports@;
        proof {
            assert(self@.free =~= pre.free.remove(base_port));
            assert(self.sorted());
            assert(base_port == pre.next_base());
        }
        let server_ports = ServerPorts::new(base_port);
        let ports = server_ports.all_ports();
        let mut i: usize = 0;
        while i < 2
            invariant
                0 <= i <= 2,
                base_port < u16::MAX,
                ports@ == seq![base_port, (base_port + 1) as u16],
                self.available_ports@ == mid,
                self.next_port == pre.allocate().next,
                self.servers@ == pre.servers,
                self.active_ports@ == if i == 0 {
                    pre.active
                } else if i == 1 {
                    pre.active.insert(base_port)
                } else {
                    pre.active.insert(base_port).insert((base_port + 1) as u16)
                },
            decreases 2 - i,
        {
            self.active_ports.insert(ports[i]);
            i = i + 1;
        }
        proof {
            assert(self@.free =~= pre.free.remove(base_port));
            assert(self@ == pre.allocate());
        }
        server_ports
    }

    /// Puts `port` into the ordered free list.
    fn insert_available(&mut self, port: u16)
        requires
            old(self).sorted(),
            !old(self).available_ports@.contains(port),
        ensures
            final(self).sorted(),
            final(self)@ == (AllocatorModel { free: old(self)@.free.insert(port), ..old(self)@ }),
    {
        let ghost before = self.available_ports@;
        let mut i: usize = 0;
        while i < self.available_ports.len() && self.available_ports[i] < port
            invariant
                self.available_ports@ == before,
                i <= before.len(),
                forall|j: int| 0 <= j < i ==> before[j] < port,
            decreases before.len() - i,
        {
            i = i + 1;
        }
        proof {
            if i < before.len() {
                assert(before[i as int] != port);
            }
        }
        self.available_ports.insert(i, port);
        proof {
            let after = self.available_ports@;
            before.insert_ensures(i as int, port);
            assert(after =~= before.insert(i as int, port));
            assert forall|a: int, b: int| 0 <= a < b < after.len() implies after[a] < after[b] by {
                if b < i {
                } else if b == i {
                } else if a < i {
                    assert(before[a] < port);
                    if i < before.len() {
                        assert(port < before[i as int]);
                        assert(before[i as int] <= before[b - 1]);
                    }
                } else if a == i {
                    assert(port < before[i as int]);
                    assert(before[i as int] <= before[b - 1]);
                } else {
                }
            }
            assert forall|x: u16| #[trigger] self@.free.contains(x) == old(self)@.free.insert(port).contains(x) by {
                if self@.free.contains(x) {
                    let k = choose|k: int| 0 <= k < after.len() && after[k] == x;
                    if k < i {
                        assert(before[k] == x);
                    } else if k > i {
                        assert(before[k - 1] == x);
                    }
                }
                if old(self)@.free.contains(x) {
                    let k = choose|k: int| 0 <= k < before.len() && before[k] == x;
                    if k < i {
                        assert(after[k] == x);
                    } else {
                        assert(after[k + 1] == x);
                    }
                }
                if x == port {
                    assert(after[i as int] == port);
                }
            }
            assert(self@.free =~= old(self)@.free.insert(port));
        }
    }

    /// Hands a pair back. Its ports are taken out of use one after the other;
    /// if one of them is not in use the hand-back stops there and fails,
    /// otherwise the game port joins the handed-back ports.
    pub fn release_port(&mut self, server_ports: ServerPorts) -> (r: bool)
        requires
            old(self).wf(),
        ensures
            final(self).wf(),
            (final(self)@, r) == old(self)@.release(server_ports.game(), server_ports.query()),
    {
        proof {
            use_type_invariant(&server_ports);
        }
        let ghost pre = self@;
        let game_server_port = server_ports.game_server_port();
        let ports = server_ports.all_ports();
        let mut i: usize = 0;
        while i < 2
            invariant
                0 <= i <= 2,
                pre.wf(),
                self.sorted(),
                ports@ == seq![game_server_port, (game_server_port + 1) as u16],
                game_server_port < u16::MAX,
                server_ports.game() == game_server_port,
                server_ports.query() == game_server_port + 1,
                self.available_ports@ == old(self).available_ports@,
                self.next_port == pre.next,
                self.servers@ == pre.servers,
                pre == old(self)@,
                i >= 1 ==> pre.active.contains(game_server_port),
                i >= 2 ==> pre.active.contains((game_server_port + 1) as u16),
                self.active_ports@ == if i == 0 {
                    pre.active
                } else if i == 1 {
                    pre.active.remove(game_server_port)
                } else {
                    pre.active.remove(game_server_port).remove((game_server_port + 1) as u16)
                },
            decreases 2 - i,
        {
            if !self.active_ports.remove(&ports[i]) {
                proof {
                    if i == 0 {
                        assert(self.active_ports@ =~= pre.active);
                    } else {
                        assert(self.active_ports@ =~= pre.active.remove(game_server_port));
                    }
                    assert(self@.free =~= pre.free);
                }
                return false;
            }
            i = i + 1;
        }
        proof {
            assert(!self.available_ports@.contains(game_server_port)) by {
                if self.available_ports@.contains(game_server_port) {
                    assert(pre.free.contains(game_server_port));
                }
            }
        }
        self.insert_available(game_server_port);
        proof {
            let post = self@;
            let g = game_server_port;
            assert(post.active =~= pre.active.remove(g).remove((g + 1) as u16));
            assert(post.free =~= pre.free.insert(g));
            assert forall|q: u16| #[trigger] post.free.contains(q) implies {
                &&& q + 1 < post.next
                &&& !post.active.contains(q)
                &&& !post.active.contains((q + 1) as u16)
            } by {
                if q == g {
                    assert(pre.active.contains((g + 1) as u16));
                } else {
                    assert(pre.free.contains(q));
                }
            }
            assert forall|a: u16, b: u16|
                #[trigger] post.free.contains(a) && #[trigger] post.free.contains(b) && a < b implies a + 2 <= b by {
                if a != game_server_port && b != game_server_port {
                    assert(pre.free.contains(a) && pre.free.contains(b));
                } else if a == game_server_port {
                    assert(pre.free.contains(b));
                } else {
                    assert(pre.free.contains(a));
                }
            }
        }
        true
    }

    /// Records that container `container_id` runs on game port `port`.
    pub fn add_server(&mut self, container_id: String, port: u16)
        requires
            old(self).wf(),
        ensures
            final(self).wf(),
            final(self)@ == (AllocatorModel {
                servers: old(self)@.servers.insert(container_id@, port),
                ..old(self)@
            }),
    {
        self.servers.insert(container_id, port);
    }

    /// Forgets the record of container `container_id`.
    pub fn remove_server(&mut self, container_id: String)
        requires
            old(self).wf(),
        ensures
            final(self).wf(),
            final(self)@ == (AllocatorModel {
                servers: old(self)@.servers.remove(container_id@),
                ..old(self)@
            }),
    {
        self.servers.remove(container_id.as_str());
    }

    /// Whether `port` is in use.
    pub fn is_port_active(&self, port: u16) -> (r: bool)
        ensures
            r == self@.active.contains(port),
    {
        if self.active_ports.contains(&port) {
            true
        } else {
            false
        }
    }

    /// How many ports are in use.
    pub fn allocated_port_count(&self) -> (r: usize)
        ensures
            r == self@.active.len(),
    {
        self.active_ports.len()
    }

    /// The next game port that has never been handed out.
    pub fn next_port(&self) -> (r: u16)
        ensures
            r == self@.next,
    {
        self.next_port
    }
}

impl AllocatorModel {
    /// A non-empty set of handed-back game ports has a smallest element.
    pub proof fn lemma_least_free_exists(self, x: u16)
        requires
            self.free.contains(x),
        ensures
            self.is_least_free(self.next_base()),
        decreases x,
    {
        if exists|y: u16| self.free.contains(y) && y < x {
            let y = choose|y: u16| self.free.contains(y) && y < x;
            self.lemma_least_free_exists(y);
        } else {
            assert(self.is_least_free(x));
        }
    }
}

/// Allocation never hands out a port that is in use: neither port of the
/// pair that the next allocation returns is active beforehand, and both are
/// active afterwards.
pub proof fn law_allocation_is_fresh(m: AllocatorModel)
    requires
        m.wf(),
        m.can_allocate(),
    ensures
        !m.active.contains(m.next_base()),
        !m.active.contains((m.next_base() + 1) as u16),
        m.next_base() < u16::MAX,
        m.allocate().active.contains(m.next_base()),
        m.allocate().active.contains((m.next_base() + 1) as u16),
{
    if !m.free.is_empty() {
        let x = m.free.choose();
        m.lemma_least_free_exists(x);
    }
}

/// Handed-back pairs are reused before fresh ones, the smallest first; only
/// when none is waiting does allocation move on to fresh ports.
pub proof fn law_allocation_reuses_smallest(m: AllocatorModel)
    ensures
        !m.free.is_empty() ==> m.is_least_free(m.next_base()) && m.allocate().next == m.next,
        m.free.is_empty() ==> m.next_base() == m.next && (m.next + 2 <= u16::MAX
            ==> m.allocate().next == m.next + 2),
{
    if !m.free.is_empty() {
        let x = m.free.choose();
        m.lemma_least_free_exists(x);
    }
}

/// Every operation keeps the allocator's invariant.
pub proof fn law_operations_keep_invariant(m: AllocatorModel, game: u16)
    requires
        m.wf(),
        game < u16::MAX,
    ensures
        m.can_allocate() ==> m.allocate().wf(),
        m.release(game, (game + 1) as u16).0.wf(),
{
    if m.can_allocate() {
        law_allocation_is_fresh(m);
        let b = m.next_base();
        let post = m.allocate();
        if !m.free.is_empty() {
            let x = m.free.choose();
            m.lemma_least_free_exists(x);
        } else {
            assert(post.free =~= m.free);
        }
        assert forall|q: u16| #[trigger] post.free.contains(q) implies {
            &&& q + 1 < post.next
            &&& !post.active.contains(q)
            &&& !post.active.contains((q + 1) as u16)
        } by {
            assert(m.free.contains(q));
        }
    }
    let (r, ok) = m.release(game, (game + 1) as u16);
    if ok {
        let g = game;
        assert forall|q: u16| #[trigger] r.free.contains(q) implies {
            &&& q + 1 < r.next
            &&& !r.active.contains(q)
            &&& !r.active.contains((q + 1) as u16)
        } by {
            if q == g {
                assert(m.active.contains((g + 1) as u16));
            } else {
                assert(m.free.contains(q));
            }
        }
        assert forall|a: u16, b: u16|
            #[trigger] r.free.contains(a) && #[trigger] r.free.contains(b) && a < b implies a + 2 <= b by {
            if a != g && b != g {
                assert(m.free.contains(a) && m.free.contains(b));
            } else if a == g {
                assert(m.free.contains(b));
            } else {
                assert(m.free.contains(a));
            }
        }
    }
}

/// Handing back the pair that an allocation just handed out succeeds and
/// puts the ports in use back as they were; the game port then waits to be
/// reused.
pub proof fn law_release_undoes_allocate(m: AllocatorModel)
    requires
        m.wf(),
        m.can_allocate(),
    ensures
        ({
            let b = m.next_base();
            let (r, ok) = m.allocate().release(b, (b + 1) as u16);
            &&& ok
            &&& r.active == m.active
            &&& r.free == m.free.insert(b)
            &&& r.next == m.allocate().next
            &&& r.servers == m.servers
        }),
{
    law_allocation_is_fresh(m);
    let b = m.next_base();
    let (r, ok) = m.allocate().release(b, (b + 1) as u16);
    assert(r.active =~= m.active);
    assert(r.free =~= m.free.insert(b));
}

/// A pair can be handed back only once: after a successful hand-back, a
/// second one fails and changes nothing.
pub proof fn law_release_is_not_repeatable(m: AllocatorModel, game: u16)
    requires
        m.wf(),
        game < u16::MAX,
        m.release(game, (game + 1) as u16).1,
    ensures
        ({
            let r = m.release(game, (game + 1) as u16).0;
            r.release(game, (game + 1) as u16) == (r, false)
        }),
{
}

/// The count of ports in use grows by two with each allocation and shrinks
/// by two with each successful hand-back.
pub proof fn law_port_count(m: AllocatorModel, game: u16)
    requires
        m.wf(),
        game < u16::MAX,
    ensures
        m.can_allocate() ==> m.allocate().active.len() == m.active.len() + 2,
        m.release(game, (game + 1) as u16).1 ==> m.release(game, (game + 1) as u16).0.active.len()
            == m.active.len() - 2,
{
    if m.can_allocate() {
        law_allocation_is_fresh(m);
    }
}

/// Recording a container and then forgetting it leaves the records as they
/// were, when that container had no record before.
pub proof fn law_forget_undoes_record(m: AllocatorModel, id: Seq<char>, port: u16)
    requires
        !m.servers.contains_key(id),
    ensures
        m.servers.insert(id, port).remove(id) == m.servers,
{
    assert(m.servers.insert(id, port).remove(id) =~= m.servers);
}

/// The port paired with `p` in an allocator that started at `start`: the
/// pairs are `{b, b + 1}` with `b` at an even offset from `start`.
pub open spec fn mate(p: u16, start: u16) -> u16 {
    if (p - start) % 2 == 0 {
        (p + 1) as u16
    } else {
        (p - 1) as u16
    }
}

impl AllocatorModel {
    /// The state of a new allocator that starts at `start`.
    pub open spec fn fresh(start: u16) -> AllocatorModel {
        AllocatorModel {
            free: Set::empty(),
            active: Set::empty(),
            next: start,
            servers: Map::empty(),
        }
    }

    /// The pairing invariant of an allocator that started at `start`: every
    /// port in use lies in `[start, next)` and its mate is in use too, `next`
    /// and every waiting game port lie at an even offset from `start`.
    pub open spec fn paired(self, start: u16) -> bool {
        &&& self.wf()
        &&& start <= self.next
        &&& (self.next - start) % 2 == 0
        &&& forall|p: u16| #[trigger] self.active.contains(p) ==> start <= p && self.active.contains(
            mate(p, start),
        )
        &&& forall|q: u16| #[trigger] self.free.contains(q) ==> start <= q && (q - start) % 2 == 0
    }
}

/// Pairing is an involution without fixed points on `[start, u16::MAX)`.
proof fn lemma_mate(p: u16, start: u16)
    requires
        start <= p < u16::MAX,
    ensures
        mate(p, start) != p,
        start <= mate(p, start),
        mate(p, start) < u16::MAX ==> mate(mate(p, start), start) == p,
{
}

/// A set of ports closed under pairing has an even number of elements.
proof fn lemma_paired_set_even(s: Set<u16>, start: u16)
    requires
        s.finite(),
        forall|p: u16| #[trigger] s.contains(p) ==> start <= p < u16::MAX,
        forall|p: u16| #[trigger] s.contains(p) ==> s.contains(mate(p, start)),
    ensures
        s.len() % 2 == 0,
    decreases s.len(),
{
    if s.len() > 0 {
        let x = s.choose();
        assert(s.contains(x));
        let y = mate(x, start);
        lemma_mate(x, start);
        assert(s.contains(y));
        lemma_mate(y, start);
        let t = s.remove(x).remove(y);
        assert(t.len() == s.len() - 2);
        assert forall|p: u16| #[trigger] t.contains(p) implies t.contains(mate(p, start)) by {
            lemma_mate(p, start);
            let mp = mate(p, start);
            assert(s.contains(mp));
            lemma_mate(mp, start);
        }
        lemma_paired_set_even(t, start);
    }
}

/// A new allocator satisfies the pairing invariant.
pub proof fn law_fresh_is_paired(start: u16)
    ensures
        AllocatorModel::fresh(start).paired(start),
{
}

/// The pairing invariant holds on: an allocation keeps it, and so does a
/// hand-back of any pair whose game port lies at an even offset from the
/// start (every pair that an allocation hands out is such a pair). While it
/// holds, the number of ports in use is even.
pub proof fn law_pairing_is_kept(m: AllocatorModel, start: u16, game: u16)
    requires
        m.paired(start),
        game < u16::MAX,
    ensures
        m.active.len() % 2 == 0,
        m.can_allocate() ==> m.allocate().paired(start),
        start <= game && (game - start) % 2 == 0 ==> m.release(game, (game + 1) as u16).0.paired(
            start,
        ),
{
    assert forall|p: u16| #[trigger] m.active.contains(p) implies start <= p < u16::MAX by {}
    lemma_paired_set_even(m.active, start);
    law_operations_keep_invariant(m, game);
    if m.can_allocate() {
        law_allocation_is_fresh(m);
        let b = m.next_base();
        if !m.free.is_empty() {
            let x = m.free.choose();
            m.lemma_least_free_exists(x);
        }
        let post = m.allocate();
        assert(mate(b, start) == (b + 1) as u16);
        assert(mate((b + 1) as u16, start) == b);
        assert forall|p: u16| #[trigger] post.active.contains(p) implies start <= p
            && post.active.contains(mate(p, start)) by {
            if p != b && p != (b + 1) as u16 {
                assert(m.active.contains(p));
            }
        }
        assert forall|q: u16| #[trigger] post.free.contains(q) implies start <= q && (q - start) % 2
            == 0 by {
            assert(m.free.contains(q));
        }
    }
    if start <= game && (game - start) % 2 == 0 {
        let q = (game + 1) as u16;
        let r = m.release(game, q).0;
        if m.active.contains(game) {
            assert(mate(game, start) == q);
            assert(m.active.contains(q));
            assert forall|p: u16| #[trigger] r.active.contains(p) implies start <= p
                && r.active.contains(mate(p, start)) by {
                assert(m.active.contains(p));
                assert(m.active.contains(mate(p, start)));
                assert(mate(p, start) != game);
                assert(mate(p, start) != q);
            }
        }
    }
}

/// One call on an allocator: an allocation, or the hand-back of the pair
/// based at the given game port.
pub enum AllocatorOp {
    Allocate,
    Release(u16),
}

/// The state after the calls `ops`, in order, starting from `m`, with the
/// number of allocations and the number of successful hand-backs among them.
pub open spec fn replay(m: AllocatorModel, ops: Seq<AllocatorOp>) -> (AllocatorModel, nat, nat)
    decreases ops.len(),
{
    if ops.len() == 0 {
        (m, 0, 0)
    } else {
        let (m1, a, r) = replay(m, ops.drop_last());
        match ops.last() {
            AllocatorOp::Allocate => (m1.allocate(), a + 1, r),
            AllocatorOp::Release(g) => {
                let (m2, ok) = m1.release(g, (g + 1) as u16);
                (m2, a, if ok { r + 1 } else { r })
            },
        }
    }
}

/// The calls `ops` can be made from `m` in an allocator that started at
/// `start`: every allocation finds room, and every hand-back names a pair
/// at an even offset from the start, as the pairs that allocations hand out.
pub open spec fn valid_history(m: AllocatorModel, start: u16, ops: Seq<AllocatorOp>) -> bool
    decreases ops.len(),
{
    ops.len() == 0 || {
        &&& valid_history(m, start, ops.drop_last())
        &&& match ops.last() {
            AllocatorOp::Allocate => replay(m, ops.drop_last()).0.can_allocate(),
            AllocatorOp::Release(g) => start <= g < u16::MAX && (g - start) % 2 == 0,
        }
    }
}

proof fn lemma_replay_counts(m: AllocatorModel, start: u16, ops: Seq<AllocatorOp>)
    requires
        m.paired(start),
        valid_history(m, start, ops),
    ensures
        replay(m, ops).0.paired(start),
        replay(m, ops).0.active.len() + 2 * replay(m, ops).2 == m.active.len() + 2 * replay(
            m,
            ops,
        ).1,
    decreases ops.len(),
{
    if ops.len() > 0 {
        let prefix = ops.drop_last();
        lemma_replay_counts(m, start, prefix);
        let m1 = replay(m, prefix).0;
        match ops.last() {
            AllocatorOp::Allocate => {
                law_pairing_is_kept(m1, start, start);
                law_port_count(m1, start);
            },
            AllocatorOp::Release(g) => {
                law_pairing_is_kept(m1, start, g);
                law_port_count(m1, g);
                if !m1.release(g, (g + 1) as u16).1 {
                    let q = (g + 1) as u16;
                    if m1.active.contains(g) {
                        assert(mate(g, start) == q);
                    }
                }
            },
        }
    }
}

/// Over a whole history from a new allocator, the number of ports in use is
/// twice the number of allocations less the number of successful
/// hand-backs, and the pairing invariant holds throughout.
pub proof fn law_count_over_history(start: u16, ops: Seq<AllocatorOp>)
    requires
        valid_history(AllocatorModel::fresh(start), start, ops),
    ensures
        ({
            let (m, allocations, releases) = replay(AllocatorModel::fresh(start), ops);
            &&& m.paired(start)
            &&& releases <= allocations
            &&& m.active.len() == 2 * (allocations - releases)
        }),
{
    lemma_replay_counts(AllocatorModel::fresh(start), start, ops);
}

/// The state after `k` allocations from `m`.
pub open spec fn allocate_n(m: AllocatorModel, k: nat) -> AllocatorModel
    decreases k,
{
    if k == 0 {
        m
    } else {
        allocate_n(m, (k - 1) as nat).allocate()
    }
}

/// From a new allocator with nothing handed back, allocations hand out the
/// pairs in order: after `k` of them the ports `[start, start + 2k)` are in
/// use, nothing waits, and the next allocation is based at `start + 2k`.
pub proof fn law_allocations_from_fresh(start: u16, k: nat)
    requires
        start + 2 * k <= u16::MAX,
    ensures
        allocate_n(AllocatorModel::fresh(start), k) == (AllocatorModel {
            free: Set::empty(),
            active: Set::new(|p: u16| start <= p < start + 2 * k),
            next: (start + 2 * k) as u16,
            servers: Map::empty(),
        }),
        allocate_n(AllocatorModel::fresh(start), k).next_base() == start + 2 * k,
    decreases k,
{
    if k > 0 {
        law_allocations_from_fresh(start, (k - 1) as nat);
        let m = allocate_n(AllocatorModel::fresh(start), (k - 1) as nat);
        assert(m.free.is_empty());
        assert(m.allocate().active =~= Set::new(|p: u16| start <= p < start + 2 * k));
        assert(m.allocate().free =~= Set::empty());
    } else {
        assert(AllocatorModel::fresh(start).active =~= Set::new(|p: u16| start <= p < start));
    }
}

/// When an allocation can go ahead: always while a handed-back pair waits,
/// always while a fresh pair still fits below the last port, and never
/// otherwise (the fresh pair would run past the last port).
pub proof fn law_when_allocation_can_go_ahead(m: AllocatorModel)
    ensures
        !m.free.is_empty() ==> m.can_allocate(),
        m.next + 2 <= u16::MAX ==> m.can_allocate(),
        m.free.is_empty() && m.next + 2 > u16::MAX ==> !m.can_allocate(),
{
}

/// After a pair is handed back, another allocation can always go ahead, and
/// it hands out that pair again when it is the smallest one waiting; in
/// particular, right after an allocation is undone, the next allocation
/// gives the same pair back.
pub proof fn law_hand_back_allows_allocation(m: AllocatorModel)
    requires
        m.wf(),
        m.can_allocate(),
    ensures
        ({
            let b = m.next_base();
            let r = m.allocate().release(b, (b + 1) as u16).0;
            &&& r.can_allocate()
            &&& r.next_base() == b
        }),
{
    law_release_undoes_allocate(m);
    law_allocation_is_fresh(m);
    let b = m.next_base();
    let r = m.allocate().release(b, (b + 1) as u16).0;
    assert(r.free.contains(b));
    if !m.free.is_empty() {
        let x = m.free.choose();
        m.lemma_least_free_exists(x);
    }
    assert(r.is_least_free(b)) by {
        assert forall|x: u16| #[trigger] r.free.contains(x) implies b <= x by {
            if x != b {
                assert(m.free.contains(x));
                if m.free.is_empty() {
                } else {
                    assert(m.is_least_free(b));
                }
            }
        }
    }
    r.lemma_least_free_exists(b);
    let c = r.next_base();
    assert(r.is_least_free(c));
}

} // verus!
