//! Routing registry of the relay server: which Connector provides each
//! service, which services each Agent targets, and the reverse map from a
//! Connector to its service. Connections are named by their connection id
//! bytes.
use vstd::prelude::*;
use crate::bytes::copy_range;
use crate::vecmap::{VecMap, bytes_eq, entries_map, keys_unique, lemma_entries_map_at};

verus! {

/// Type of a connected client.
#[derive(Debug, Clone, Copy, PartialEq, Eq, Structural)]
pub enum ClientType {
    /// Agent connecting to reach a service
    Agent,
    /// Connector providing access to a service
    Connector,
}

/// Views of a list of strings.
pub open spec fn strings_view(s: Seq<String>) -> Seq<Seq<char>> {
    s.map_values(|x: String| x@)
}

/// Views of agent entries: connection id and target services.
pub open spec fn agents_view(s: Seq<(Vec<u8>, Vec<String>)>) -> Seq<(Seq<u8>, Seq<Seq<char>>)> {
    s.map_values(|e: (Vec<u8>, Vec<String>)| (e.0@, strings_view(e.1@)))
}

/// A service added to a list of services (kept once).
pub open spec fn add_service(s: Seq<Seq<char>>, service: Seq<char>) -> Seq<Seq<char>> {
    if s.contains(service) {
        s
    } else {
        s.push(service)
    }
}

/// Abstract state of the registry.
pub struct RegistryView {
    /// Service to the Connector that provides it
    pub connectors: Map<Seq<char>, Seq<u8>>,
    /// Agents and their target services, in order of first registration
    pub agents: Seq<(Seq<u8>, Seq<Seq<char>>)>,
    /// Connector to the service it registered last
    pub connector_services: Map<Seq<u8>, Seq<char>>,
}

/// Whether `conn` is registered as an Agent (at index `i`).
pub open spec fn agent_at(agents: Seq<(Seq<u8>, Seq<Seq<char>>)>, i: int, conn: Seq<u8>) -> bool {
    0 <= i < agents.len() && agents[i].0 == conn
}

/// Whether some Agent entry has connection id `conn`.
pub open spec fn is_agent(agents: Seq<(Seq<u8>, Seq<Seq<char>>)>, conn: Seq<u8>) -> bool {
    exists|i: int| #[trigger] agent_at(agents, i, conn)
}

/// The Registry after a registration.
pub open spec fn spec_register(
    pre: RegistryView,
    post: RegistryView,
    conn: Seq<u8>,
    client_type: ClientType,
    service: Seq<char>,
) -> bool {
    match client_type {
        ClientType::Connector => {
            let cs = if pre.connectors.contains_key(service) && pre.connectors[service] != conn {
                pre.connector_services.remove(pre.connectors[service])
            } else {
                pre.connector_services
            };
            &&& post.connectors == pre.connectors.insert(service, conn)
            &&& post.connector_services == cs.insert(conn, service)
            &&& post.agents == pre.agents
        },
        ClientType::Agent => {
            &&& post.connectors == pre.connectors
            &&& post.connector_services == pre.connector_services
            &&& if is_agent(pre.agents, conn) {
                exists|i: int|
                    #[trigger] agent_at(pre.agents, i, conn) && post.agents == pre.agents.update(
                        i,
                        (conn, add_service(pre.agents[i].1, service)),
                    )
            } else {
                post.agents == pre.agents.push((conn, seq![service]))
            }
        },
    }
}

/// The Registry after a connection closed: it is no Agent any more, and if
/// it was a Connector, its service entry goes too unless another Connector
/// took the service over.
pub open spec fn spec_unregister(pre: RegistryView, post: RegistryView, conn: Seq<u8>) -> bool {
    &&& if is_agent(pre.agents, conn) {
        exists|i: int| #[trigger] agent_at(pre.agents, i, conn) && post.agents == pre.agents.remove(i)
    } else {
        post.agents == pre.agents
    }
    &&& post.connector_services == pre.connector_services.remove(conn)
    &&& post.connectors == if pre.connector_services.contains_key(conn) {
        let service = pre.connector_services[conn];
        if pre.connectors.contains_key(service) && pre.connectors[service] == conn {
            pre.connectors.remove(service)
        } else {
            pre.connectors
        }
    } else {
        pre.connectors
    }
}

/// The first Agent (in order of registration) that targets `service`.
pub open spec fn first_agent_for(agents: Seq<(Seq<u8>, Seq<Seq<char>>)>, service: Seq<char>, r: Option<Seq<u8>>) -> bool {
    match r {
        Some(a) => exists|i: int|
            0 <= i < agents.len() && #[trigger] agents[i].0 == a && agents[i].1.contains(service) && forall|j: int|
                0 <= j < i ==> !(#[trigger] agents[j].1).contains(service),
        None => forall|j: int| 0 <= j < agents.len() ==> !(#[trigger] agents[j].1).contains(service),
    }
}

/// A Connector that takes a service over keeps it when the connection of
/// the Connector it replaced closes afterwards.
pub proof fn lemma_replacement_survives_unregister(
    r0: RegistryView,
    r1: RegistryView,
    r2: RegistryView,
    old_conn: Seq<u8>,
    new_conn: Seq<u8>,
    service: Seq<char>,
)
    requires
        spec_register(r0, r1, new_conn, ClientType::Connector, service),
        spec_unregister(r1, r2, old_conn),
        old_conn != new_conn,
    ensures
        r2.connectors.contains_key(service),
        r2.connectors[service] == new_conn,
{
}

/// A registered Agent is found again as an Agent for the service it
/// registered, and a registered Connector is the one found for its service.
pub proof fn lemma_register_then_find(pre: RegistryView, post: RegistryView, conn: Seq<u8>, client_type: ClientType, service: Seq<char>)
    requires
        spec_register(pre, post, conn, client_type, service),
    ensures
        client_type == ClientType::Connector ==> post.connectors.contains_key(service) && post.connectors[service] == conn,
        client_type == ClientType::Agent ==> exists|i: int| #[trigger] agent_at(post.agents, i, conn) && post.agents[i].1.contains(service),
{
    if client_type == ClientType::Agent {
        if is_agent(pre.agents, conn) {
            let i = choose|i: int|
                #[trigger] agent_at(pre.agents, i, conn) && post.agents == pre.agents.update(
                    i,
                    (conn, add_service(pre.agents[i].1, service)),
                );
            assert(agent_at(post.agents, i, conn));
            if !pre.agents[i].1.contains(service) {
                assert(add_service(pre.agents[i].1, service).last() == service);
                assert(add_service(pre.agents[i].1, service).contains(service));
            }
        } else {
            let n = pre.agents.len() as int;
            assert(agent_at(post.agents, n, conn));
            assert(post.agents[n].1[0] == service);
        }
    }
}

/// Registry for routing between Agents and Connectors.
#[derive(Debug)]
pub struct Registry {
    connectors: VecMap<String, Vec<u8>>,
    agent_targets: VecMap<Vec<u8>, Vec<String>>,
    connector_services: VecMap<Vec<u8>, String>,
}

impl View for Registry {
    type V = RegistryView;

    closed spec fn view(&self) -> RegistryView {
        RegistryView {
            connectors: self.connectors@.map_values(|v: Vec<u8>| v@),
            agents: agents_view(self.agent_targets.spec_entries()),
            connector_services: self.connector_services@.map_values(|v: String| v@),
        }
    }
}

/// A copy of a list of strings.
pub fn clone_strings(v: &Vec<String>) -> (r: Vec<String>)
    ensures
        r@ == v@,
{
    let mut r: Vec<String> = Vec::new();
    let mut i: usize = 0;
    while i < v.len()
        invariant
            i <= v@.len(),
            r@ == v@.subrange(0, i as int),
        decreases v@.len() - i,
    {
        r.push(v[i].clone());
        assert(r@ =~= v@.subrange(0, i + 1));
        i = i + 1;
    }
    assert(v@.subrange(0, i as int) =~= v@);
    r
}

/// Whether a list of strings holds one equal to `s`.
pub fn contains_str(v: &Vec<String>, s: &str) -> (r: bool)
    ensures
        r == strings_view(v@).contains(s@),
{
    let target = String::from_str(s);
    let mut i: usize = 0;
    while i < v.len()
        invariant
            i <= v@.len(),
            target@ == s@,
            forall|k: int| 0 <= k < i ==> (#[trigger] v@[k])@ != s@,
        decreases v@.len() - i,
    {
        if v[i] == target {
            assert(strings_view(v@)[i as int] == s@);
            return true;
        }
        i = i + 1;
    }
    assert forall|k: int| 0 <= k < strings_view(v@).len() implies strings_view(v@)[k] != s@ by {
        assert(strings_view(v@)[k] == v@[k]@);
    }
    false
}

impl Registry {
    /// The invariant of the three maps.
    pub closed spec fn wf(&self) -> bool {
        &&& self.connectors.wf()
        &&& self.agent_targets.wf()
        &&& self.connector_services.wf()
    }

    /// Agent entries have unique connection ids.
    pub proof fn lemma_agents_unique(&self)
        requires
            self.wf(),
        ensures
            forall|i: int, j: int|
                0 <= i < self@.agents.len() && 0 <= j < self@.agents.len() && i != j ==> #[trigger] self@.agents[i].0
                    != #[trigger] self@.agents[j].0,
    {
        let s = self.agent_targets.spec_entries();
        assert forall|i: int, j: int|
            0 <= i < self@.agents.len() && 0 <= j < self@.agents.len() && i != j implies #[trigger] self@.agents[i].0
                != #[trigger] self@.agents[j].0 by {
            assert(self@.agents[i].0 == s[i].0@);
            assert(self@.agents[j].0 == s[j].0@);
        }
    }

    /// An empty registry.
    pub fn new() -> (r: Registry)
        ensures
            r.wf(),
            r@.connectors == Map::<Seq<char>, Seq<u8>>::empty(),
            r@.agents == Seq::<(Seq<u8>, Seq<Seq<char>>)>::empty(),
            r@.connector_services == Map::<Seq<u8>, Seq<char>>::empty(),
    {
        let r = Registry { connectors: VecMap::new(), agent_targets: VecMap::new(), connector_services: VecMap::new() };
        assert(r@.connectors =~= Map::<Seq<char>, Seq<u8>>::empty());
        assert(r@.agents =~= Seq::<(Seq<u8>, Seq<Seq<char>>)>::empty());
        assert(r@.connector_services =~= Map::<Seq<u8>, Seq<char>>::empty());
        r
    }

    /// Registers a client: a Connector provides `service_id` (replacing any
    /// other Connector for it), an Agent adds `service_id` to its targets.
    pub fn register(&mut self, conn_id: Vec<u8>, client_type: ClientType, service_id: String)
        requires
            old(self).wf(),
        ensures
            final(self).wf(),
            spec_register(old(self)@, final(self)@, conn_id@, client_type, service_id@),
    {
        let ghost sid = service_id@;
        let ghost cid = conn_id@;
        match client_type {
            ClientType::Connector => {
                let previous = match self.connectors.get(&service_id) {
                    Some(c) => {
                        let cc = copy_range(c.as_slice(), 0, c.len());
                        assert(cc@ =~= c@);
                        Some(cc)
                    },
                    None => None,
                };
                assert(previous is Some <==> old(self)@.connectors.contains_key(sid));
                assert(previous matches Some(p) ==> p@ == old(self)@.connectors[sid]);
                match previous {
                    Some(p) => {
                        if !bytes_eq(p.as_slice(), conn_id.as_slice()) {
                            self.connector_services.remove(&p);
                        }
                    },
                    None => {},
                }
                let c2 = copy_range(conn_id.as_slice(), 0, conn_id.len());
                assert(c2@ =~= cid);
                self.connectors.insert(service_id.clone(), c2);
                self.connector_services.insert(conn_id, service_id);
                proof {
                    assert(self@.connectors =~= old(self)@.connectors.insert(sid, cid));
                    let cs = if old(self)@.connectors.contains_key(sid) && old(self)@.connectors[sid]
                        != cid {
                        old(self)@.connector_services.remove(old(self)@.connectors[sid])
                    } else {
                        old(self)@.connector_services
                    };
                    assert(self@.connector_services =~= cs.insert(cid, sid));
                }
            },
            ClientType::Agent => {
                let ghost pre = self.agent_targets.spec_entries();
                let mut services: Vec<String> = match self.agent_targets.get(&conn_id) {
                    Some(s) => clone_strings(s),
                    None => Vec::new(),
                };
                let ghost before = services@;
                if !contains_str(&services, service_id.as_str()) {
                    services.push(service_id);
                }
                assert(strings_view(services@) =~= add_service(strings_view(before), sid));
                let ghost key = cid;
                let ghost gk = conn_id;
                let ghost gv = services;
                self.agent_targets.insert(conn_id, services);
                proof {
                    let post = self.agent_targets.spec_entries();
                    if is_agent(old(self)@.agents, key) {
                        let i = choose|i: int| #[trigger] agent_at(old(self)@.agents, i, key);
                        assert(pre[i].0@ == key);
                        lemma_entries_map_at(pre, i);
                        assert(entries_map(pre).contains_key(key));
                        let j = choose|j: int|
                            0 <= j < pre.len() && #[trigger] pre[j].0@ == key && post == pre.update(j, (gk, gv));
                        if j != i {
                            assert(pre[j].0@ == pre[i].0@);
                        }
                        assert(pre[i].1@ == before);
                        assert(strings_view(gv@) =~= add_service(old(self)@.agents[i].1, sid));
                        assert(self@.agents =~= old(self)@.agents.update(
                            i,
                            (key, add_service(old(self)@.agents[i].1, sid)),
                        ));
                    } else {
                        assert forall|j: int| 0 <= j < pre.len() implies #[trigger] pre[j].0@ != key by {
                            assert(old(self)@.agents[j].0 == pre[j].0@);
                            assert(!agent_at(old(self)@.agents, j, key));
                        }
                        assert(!entries_map(pre).contains_key(key));
                        assert(before == Seq::<String>::empty());
                        assert(strings_view(gv@) =~= seq![sid]);
                        assert(self@.agents =~= old(self)@.agents.push((key, seq![sid])));
                    }
                    assert(self@.connectors =~= old(self)@.connectors);
                    assert(self@.connector_services =~= old(self)@.connector_services);
                }
            },
        }
    }

    /// Unregisters a connection that closed.
    pub fn unregister(&mut self, conn_id: &Vec<u8>)
        requires
            old(self).wf(),
        ensures
            final(self).wf(),
            spec_unregister(old(self)@, final(self)@, conn_id@),
    {
        let ghost pre = self.agent_targets.spec_entries();
        let ghost key = conn_id@;
        self.agent_targets.remove(conn_id);
        proof {
            let post = self.agent_targets.spec_entries();
            if is_agent(old(self)@.agents, key) {
                let i = choose|i: int| #[trigger] agent_at(old(self)@.agents, i, key);
                assert(pre[i].0@ == key);
                lemma_entries_map_at(pre, i);
                let j = choose|j: int|
                    0 <= j < pre.len() && #[trigger] pre[j].0@ == key && post == pre.remove(j);
                if j != i {
                    assert(pre[j].0@ == pre[i].0@);
                }
                assert(self@.agents =~= old(self)@.agents.remove(i));
            } else {
                assert forall|j: int| 0 <= j < pre.len() implies #[trigger] pre[j].0@ != key by {
                    assert(old(self)@.agents[j].0 == pre[j].0@);
                    assert(!agent_at(old(self)@.agents, j, key));
                }
                assert(!entries_map(pre).contains_key(key));
                assert(self@.agents =~= old(self)@.agents);
            }
        }
        let removed = self.connector_services.remove(conn_id);
        match removed {
            Some(service_id) => {
                let still_active = match self.connectors.get(&service_id) {
                    Some(c) => bytes_eq(c.as_slice(), conn_id.as_slice()),
                    None => false,
                };
                if still_active {
                    self.connectors.remove(&service_id);
                }
                proof {
                    assert(self@.connectors =~= (if old(self)@.connectors.contains_key(service_id@)
                        && old(self)@.connectors[service_id@] == key {
                        old(self)@.connectors.remove(service_id@)
                    } else {
                        old(self)@.connectors
                    }));
                }
            },
            None => {
                assert(self@.connectors =~= old(self)@.connectors);
            },
        }
        assert(self@.connector_services =~= old(self)@.connector_services.remove(key));
    }

    /// The Connector for `service_id`, if one is registered.
    pub fn find_connector_for_service(&self, service_id: &str) -> (r: Option<Vec<u8>>)
        requires
            self.wf(),
        ensures
            self@.connectors.contains_key(service_id@) ==> r is Some && r->0@ == self@.connectors[service_id@],
            !self@.connectors.contains_key(service_id@) ==> r is None,
    {
        let key = String::from_str(service_id);
        match self.connectors.get(&key) {
            Some(c) => Some(copy_range(c.as_slice(), 0, c.len())),
            None => None,
        }
    }

    /// The first Agent (in order of registration) targeting `service_id`.
    pub fn find_agent_for_service(&self, service_id: &str) -> (r: Option<Vec<u8>>)
        requires
            self.wf(),
        ensures
            first_agent_for(self@.agents, service_id@, match r {
                Some(v) => Some(v@),
                None => None,
            }),
    {
        let ghost s = self.agent_targets.spec_entries();
        let mut i: usize = 0;
        while i < self.agent_targets.len()
            invariant
                s == self.agent_targets.spec_entries(),
                i <= s.len(),
                forall|j: int| 0 <= j < i ==> !(#[trigger] self@.agents[j].1).contains(service_id@),
            decreases s.len() - i,
        {
            let (conn, services) = self.agent_targets.entry_at(i);
            assert(self@.agents[i as int] == (conn@, strings_view(services@)));
            if contains_str(services, service_id) {
                let r = copy_range(conn.as_slice(), 0, conn.len());
                assert(self@.agents[i as int].0 == r@);
                return Some(r);
            }
            i = i + 1;
        }
        None
    }

    /// Whether `conn_id` is a registered Agent that targets `service_id`.
    pub fn is_agent_for_service(&self, conn_id: &Vec<u8>, service_id: &str) -> (r: bool)
        requires
            self.wf(),
        ensures
            r == exists|i: int| #[trigger] agent_at(self@.agents, i, conn_id@) && self@.agents[i].1.contains(service_id@),
    {
        let ghost s = self.agent_targets.spec_entries();
        match self.agent_targets.find(conn_id) {
            Some(i) => {
                let (_c, services) = self.agent_targets.entry_at(i);
                assert(self@.agents[i as int] == (s[i as int].0@, strings_view(services@)));
                assert(agent_at(self@.agents, i as int, conn_id@));
                proof {
                    self.lemma_agents_unique();
                }
                contains_str(services, service_id)
            },
            None => {
                assert forall|i: int| !#[trigger] agent_at(self@.agents, i, conn_id@) by {
                    if 0 <= i < s.len() {
                        assert(self@.agents[i].0 == s[i].0@);
                    }
                }
                false
            },
        }
    }

    /// Where a datagram from `from_conn_id` goes without a service named:
    /// from an Agent, to the Connector of its first registered service; from
    /// a Connector, to the first Agent targeting its service.
    pub fn find_destination(&self, from_conn_id: &Vec<u8>) -> (r: Option<Vec<u8>>)
        requires
            self.wf(),
        ensures
            Self::spec_find_destination(self@, from_conn_id@, match r {
                Some(v) => Some(v@),
                None => None,
            }),
    {
        let ghost s = self.agent_targets.spec_entries();
        match self.agent_targets.find(from_conn_id) {
            Some(i) => {
                let (_c, services) = self.agent_targets.entry_at(i);
                assert(self@.agents[i as int] == (s[i as int].0@, strings_view(services@)));
                assert(agent_at(self@.agents, i as int, from_conn_id@));
                proof {
                    self.lemma_agents_unique();
                }
                if services.len() > 0 {
                    let r = self.find_connector_for_service(services[0].as_str());
                    return r;
                }
            },
            None => {
                assert forall|i: int| !#[trigger] agent_at(self@.agents, i, from_conn_id@) by {
                    if 0 <= i < s.len() {
                        assert(self@.agents[i].0 == s[i].0@);
                    }
                }
            },
        }
        let service = match self.connector_services.get(from_conn_id) {
            Some(sv) => sv.clone(),
            None => {
                return None;
            },
        };
        self.find_agent_for_service(service.as_str())
    }

    /// What `find_destination` gives (see there).
    pub open spec fn spec_find_destination(v: RegistryView, from: Seq<u8>, r: Option<Seq<u8>>) -> bool {
        if exists|i: int| #[trigger] agent_at(v.agents, i, from) && v.agents[i].1.len() > 0 {
            exists|i: int|
                #[trigger] agent_at(v.agents, i, from) && v.agents[i].1.len() > 0 && r == if v.connectors.contains_key(
                    v.agents[i].1[0],
                ) {
                    Some(v.connectors[v.agents[i].1[0]])
                } else {
                    None
                }
        } else if v.connector_services.contains_key(from) {
            first_agent_for(v.agents, v.connector_services[from], r)
        } else {
            r is None
        }
    }

    /// Number of registered Connectors (services with a Connector).
    pub fn connector_count(&self) -> (r: usize)
        requires
            self.wf(),
        ensures
            r == self@.connectors.len(),
    {
        proof {
            self.lemma_connectors_len();
        }
        self.connectors.len()
    }

    proof fn lemma_connectors_len(&self)
        requires
            self.wf(),
        ensures
            self.connectors.spec_entries().len() == self@.connectors.len(),
    {
        crate::vecmap::lemma_entries_map_len(self.connectors.spec_entries());
        assert(self@.connectors.dom() =~= self.connectors@.dom());
    }

    /// Number of registered Agents.
    pub fn agent_count(&self) -> (r: usize)
        ensures
            r == self@.agents.len(),
    {
        self.agent_targets.len()
    }
}

impl Default for Registry {
    fn default() -> (r: Registry)
        ensures
            r.wf(),
            r@.connectors == Map::<Seq<char>, Seq<u8>>::empty(),
            r@.agents == Seq::<(Seq<u8>, Seq<Seq<char>>)>::empty(),
            r@.connector_services == Map::<Seq<u8>, Seq<char>>::empty(),
    {
        Registry::new()
    }
}

} // verus!
