//! The decisions taken while watching the cluster's gateway and route
//! objects: which changes to ignore, which gateway to restart or shut down,
//! and which gateway a changed route belongs to.
use vstd::prelude::*;

use crate::config::config_by_k8s::{gateway_refusal, is_spacegate, is_spacegate_gateway, k8s_gateway_name, texts_of, K8sGateway, K8sHttpRoute};
use crate::config::k8s_crd::{namespace_or_default, opt_seq};
use crate::keyed::{entries_map, find_key, keys_distinct, put_key};
use crate::text::{chars_of, seq_eq, string_push};

verus! {

/// An object's id as text (empty when it has none).
pub open spec fn uid_text(u: Option<String>) -> Seq<char> {
    match u {
        Some(s) => s@,
        None => Seq::empty(),
    }
}

/// An object's generation (0 when it has none).
pub open spec fn generation_or_zero(g: Option<i64>) -> i64 {
    match g {
        Some(x) => x,
        None => 0,
    }
}

/// The generation recorded for an id (0 when none is).
pub open spec fn recorded_generation(m: Map<Seq<char>, i64>, uid: Seq<char>) -> i64 {
    if m.contains_key(uid) {
        m[uid]
    } else {
        0
    }
}

/// The generations of the gateway objects by id; a later object with the
/// same id wins.
pub open spec fn gateway_generations(gs: Seq<K8sGateway>) -> Map<Seq<char>, i64>
    decreases gs.len(),
{
    if gs.len() == 0 {
        Map::empty()
    } else {
        gateway_generations(gs.drop_last()).insert(uid_text(gs.last().uid), generation_or_zero(gs.last().generation))
    }
}

/// The generations of the route objects by id; a later object with the
/// same id wins.
pub open spec fn route_generations(rs: Seq<K8sHttpRoute>) -> Map<Seq<char>, i64>
    decreases rs.len(),
{
    if rs.len() == 0 {
        Map::empty()
    } else {
        route_generations(rs.drop_last()).insert(uid_text(rs.last().uid), generation_or_zero(rs.last().generation))
    }
}

/// The names without every occurrence of `n`, in order.
pub open spec fn drop_name(names: Seq<Seq<char>>, n: Seq<char>) -> Seq<Seq<char>>
    decreases names.len(),
{
    if names.len() == 0 {
        names
    } else if names.last() == n {
        drop_name(names.drop_last(), n)
    } else {
        drop_name(names.drop_last(), n).push(names.last())
    }
}

/// The gateway a route's first parent reference points at: its namespace
/// (the reference's, else the route's, else `default`) and its name.
pub open spec fn first_parent(route: K8sHttpRoute) -> (Seq<char>, Seq<char>) {
    let p = route.parent_refs->0@[0];
    let ns = match p.namespace {
        Some(n) => n@,
        None => namespace_or_default(opt_seq(route.namespace)),
    };
    (ns, p.name@)
}

/// What to do after a gateway object changed.
#[derive(Debug, Clone)]
pub enum K8sGatewayAction {
    /// Nothing: the change is not one to act on.
    Ignore,
    /// The gateway of this name still exists: select its routes again,
    /// shut it down and start it with them.
    Restart(String),
    /// The gateway of this name is gone: shut it down.
    Shutdown(String),
}

/// What the watcher keeps: the generations of the objects read at start, by
/// id, and the names of the gateways that are served.
pub struct K8sWatchState {
    gateway_gens: Vec<(String, i64)>,
    route_gens: Vec<(String, i64)>,
    gateway_names: Vec<String>,
}

/// The generations of the gateway objects as a keyed list.
fn gateway_generation_entries(gateways: &Vec<K8sGateway>) -> (r: Vec<(String, i64)>)
    ensures
        keys_distinct(r@),
        entries_map(r@) == gateway_generations(gateways@),
{
    let mut out: Vec<(String, i64)> = Vec::new();
    let mut i: usize = 0;
    assert(entries_map(out@) =~= Map::<Seq<char>, i64>::empty());
    while i < gateways.len()
        invariant
            i <= gateways@.len(),
            keys_distinct(out@),
            entries_map(out@) == gateway_generations(gateways@.take(i as int)),
        decreases gateways.len() - i,
    {
        proof {
            assert(gateways@.take(i + 1).drop_last() =~= gateways@.take(i as int));
            assert(gateways@.take(i + 1).last() == gateways@[i as int]);
        }
        let uid = match &gateways[i].uid {
            Some(u) => u.clone(),
            None => String::new(),
        };
        let generation: i64 = match gateways[i].generation {
            Some(g) => g,
            None => 0,
        };
        let _ = put_key(&mut out, uid, generation);
        i = i + 1;
    }
    assert(gateways@.take(gateways@.len() as int) =~= gateways@);
    out
}

/// The generations of the route objects as a keyed list.
fn route_generation_entries(routes: &Vec<K8sHttpRoute>) -> (r: Vec<(String, i64)>)
    ensures
        keys_distinct(r@),
        entries_map(r@) == route_generations(routes@),
{
    let mut out: Vec<(String, i64)> = Vec::new();
    let mut i: usize = 0;
    assert(entries_map(out@) =~= Map::<Seq<char>, i64>::empty());
    while i < routes.len()
        invariant
            i <= routes@.len(),
            keys_distinct(out@),
            entries_map(out@) == route_generations(routes@.take(i as int)),
        decreases routes.len() - i,
    {
        proof {
            assert(routes@.take(i + 1).drop_last() =~= routes@.take(i as int));
            assert(routes@.take(i + 1).last() == routes@[i as int]);
        }
        let uid = match &routes[i].uid {
            Some(u) => u.clone(),
            None => String::new(),
        };
        let generation: i64 = match routes[i].generation {
            Some(g) => g,
            None => 0,
        };
        let _ = put_key(&mut out, uid, generation);
        i = i + 1;
    }
    assert(routes@.take(routes@.len() as int) =~= routes@);
    out
}

/// The generation recorded in a keyed list for an object's id.
fn recorded(entries: &Vec<(String, i64)>, uid: &Option<String>) -> (r: i64)
    requires
        keys_distinct(entries@),
    ensures
        r == recorded_generation(entries_map(entries@), uid_text(*uid)),
{
    let empty = String::new();
    let key = match uid {
        Some(u) => u.as_str(),
        None => empty.as_str(),
    };
    match find_key(entries, key) {
        Some(i) => {
            proof {
                assert(entries_map(entries@).contains_key(uid_text(*uid)));
            }
            entries[i].1
        },
        None => 0,
    }
}

/// The name of a gateway object's gateway (see [`k8s_gateway_name`]).
fn gateway_name_of(g: &K8sGateway) -> (r: String)
    requires
        g.name is Some,
    ensures
        r@ == k8s_gateway_name(*g),
{
    let mut out = String::new();
    match &g.namespace {
        Some(n) => out.append(n.as_str()),
        None => {
            out.append("default");
            proof {
                reveal_strlit("default");
            }
        },
    }
    string_push(&mut out, '.');
    out.append(g.name.as_ref().unwrap().as_str());
    assert(out@ =~= k8s_gateway_name(*g));
    out
}

impl K8sWatchState {
    /// The invariant: no id recorded twice.
    pub closed spec fn wf(&self) -> bool {
        keys_distinct(self.gateway_gens@) && keys_distinct(self.route_gens@)
    }

    /// The names of the gateways served.
    pub closed spec fn names(&self) -> Seq<String> {
        self.gateway_names@
    }

    /// The names of the gateways served.
    pub fn gateway_names(&self) -> (r: &Vec<String>)
        ensures
            r@ == self.names(),
    {
        &self.gateway_names
    }

    /// The generations of the gateway objects read at start, by id.
    pub closed spec fn gateway_gens(&self) -> Map<Seq<char>, i64> {
        entries_map(self.gateway_gens@)
    }

    /// The generations of the route objects read at start, by id.
    pub closed spec fn route_gens(&self) -> Map<Seq<char>, i64> {
        entries_map(self.route_gens@)
    }

    /// The state after the objects were read at start, serving the
    /// gateways of these names.
    pub fn new(gateways: &Vec<K8sGateway>, routes: &Vec<K8sHttpRoute>, gateway_names: Vec<String>) -> (r: Self)
        ensures
            r.wf(),
            r.gateway_gens() == gateway_generations(gateways@),
            r.route_gens() == route_generations(routes@),
            r.names() == gateway_names@,
    {
        K8sWatchState {
            gateway_gens: gateway_generation_entries(gateways),
            route_gens: route_generation_entries(routes),
            gateway_names,
        }
    }

    /// A change of a gateway object is ignored when its generation is the
    /// one read at start, or when it is of another gateway class.
    pub open spec fn gateway_event_ignored(&self, obj: K8sGateway) -> bool {
        recorded_generation(self.gateway_gens(), uid_text(obj.uid)) == generation_or_zero(obj.generation) || !is_spacegate(obj)
    }

    /// A change of a route object is ignored when its generation is the one
    /// read at start, or when it has no parent references.
    pub open spec fn route_event_ignored(&self, obj: K8sHttpRoute) -> bool {
        recorded_generation(self.route_gens(), uid_text(obj.uid)) == generation_or_zero(obj.generation) || obj.parent_refs is None
    }

    /// Decides what to do after a gateway object changed. `exists` says
    /// whether the cluster still has the object (`None` when asking
    /// failed, and the change is then ignored). A gateway that still exists
    /// is served again under its name and restarted; one that is gone is
    /// no longer served and is shut down.
    pub fn on_gateway_event(&mut self, obj: &K8sGateway, exists: Option<bool>) -> (r: K8sGatewayAction)
        requires
            old(self).wf(),
            !old(self).gateway_event_ignored(*obj) && exists is Some ==> gateway_refusal(*obj) is None,
        ensures
            final(self).wf(),
            final(self).gateway_gens() == old(self).gateway_gens(),
            final(self).route_gens() == old(self).route_gens(),
            old(self).gateway_event_ignored(*obj) || exists is None ==> r is Ignore
                && final(self).names() == old(self).names(),
            !old(self).gateway_event_ignored(*obj) && exists == Some(true) ==> (r matches K8sGatewayAction::Restart(n)
                && n@ == k8s_gateway_name(*obj)
                && texts_of(final(self).names()) == texts_of(old(self).names()).push(n@)),
            !old(self).gateway_event_ignored(*obj) && exists == Some(false) ==> (r matches K8sGatewayAction::Shutdown(n)
                && n@ == k8s_gateway_name(*obj)
                && texts_of(final(self).names()) == drop_name(texts_of(old(self).names()), n@)),
    {
        let seen = recorded(&self.gateway_gens, &obj.uid);
        let generation: i64 = match obj.generation {
            Some(g) => g,
            None => 0,
        };
        if seen == generation || !is_spacegate_gateway(obj) {
            return K8sGatewayAction::Ignore;
        }
        let present = match exists {
            Some(b) => b,
            None => {
                return K8sGatewayAction::Ignore;
            },
        };
        let name = gateway_name_of(obj);
        if present {
            let ghost before = self.gateway_names@;
            self.gateway_names.push(name.clone());
            proof {
                assert(texts_of(self.gateway_names@) =~= texts_of(before).push(name@));
            }
            K8sGatewayAction::Restart(name)
        } else {
            let nc = chars_of(name.as_str());
            let ghost old_names = self.gateway_names@;
            let mut kept: Vec<String> = Vec::new();
            let mut i: usize = 0;
            while i < self.gateway_names.len()
                invariant
                    i <= old_names.len(),
                    self.gateway_names@ == old_names,
                    nc@ == name@,
                    texts_of(kept@) == drop_name(texts_of(old_names.take(i as int)), name@),
                decreases old_names.len() - i,
            {
                proof {
                    assert(texts_of(old_names.take(i + 1)).drop_last() =~= texts_of(old_names.take(i as int)));
                    assert(texts_of(old_names.take(i + 1)).last() == old_names[i as int]@);
                }
                let c = chars_of(self.gateway_names[i].as_str());
                if !seq_eq(c.as_slice(), nc.as_slice()) {
                    let ghost prev = kept@;
                    let x = self.gateway_names[i].clone();
                    kept.push(x);
                    proof {
                        assert(texts_of(kept@) =~= texts_of(prev).push(old_names[i as int]@));
                    }
                }
                i = i + 1;
            }
            assert(old_names.take(old_names.len() as int) =~= old_names);
            self.gateway_names = kept;
            K8sGatewayAction::Shutdown(name)
        }
    }

    /// Decides what to do after a route object changed: nothing when the
    /// change is ignored, else the namespace and name of the gateway its
    /// first parent reference points at, which is then looked up (see
    /// [`K8sWatchState::on_route_gateway`]).
    pub fn on_route_event(&self, obj: &K8sHttpRoute) -> (r: Option<(String, String)>)
        requires
            self.wf(),
            !self.route_event_ignored(*obj) ==> obj.parent_refs->0@.len() > 0,
        ensures
            self.route_event_ignored(*obj) ==> r is None,
            !self.route_event_ignored(*obj) ==> (r matches Some((ns, n)) && (ns@, n@) == first_parent(*obj)),
    {
        let seen = recorded(&self.route_gens, &obj.uid);
        let generation: i64 = match obj.generation {
            Some(g) => g,
            None => 0,
        };
        if seen == generation {
            return None;
        }
        match &obj.parent_refs {
            None => None,
            Some(ps) => {
                let p = &ps[0];
                let ns = match &p.namespace {
                    Some(n) => n.clone(),
                    None => match &obj.namespace {
                        Some(n) => n.clone(),
                        None => {
                            let mut d = String::new();
                            d.append("default");
                            proof {
                                reveal_strlit("default");
                                assert(d@ =~= seq!['d', 'e', 'f', 'a', 'u', 'l', 't']);
                            }
                            d
                        },
                    },
                };
                Some((ns, p.name.clone()))
            },
        }
    }

    /// Whether the gateway a changed route points at is to be started
    /// again with its routes: it was found, and it is of the `spacegate`
    /// class.
    pub fn on_route_gateway(gateway: &Option<K8sGateway>) -> (r: bool)
        ensures
            r == (*gateway matches Some(g) && is_spacegate(g)),
    {
        match gateway {
            Some(g) => is_spacegate_gateway(g),
            None => false,
        }
    }
}

} // verus!
