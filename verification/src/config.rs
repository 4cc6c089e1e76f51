//! Gateway configuration objects, and the events a configuration source
//! sends.
use vstd::prelude::*;

use self::gateway_dto::SgGateway;
use self::http_route_dto::SgHttpRoute;
use crate::keyed::{entries_map, find_key, keys_distinct, put_key, take_key};
use crate::text::{chars_of, seq_eq};

pub mod config_by_k8s;
pub mod k8s_watch;
pub mod gateway_conf;
pub mod gateway_dto;
pub mod http_route_dto;
pub mod k8s_crd;
pub mod plugin_filter_dto;

verus! {

/// A change of configuration.
#[derive(Debug, Clone)]
pub enum ConfigEvent {
    /// A gateway is added (or replaced) with its routes.
    GatewayAdd(SgGateway, Vec<SgHttpRoute>),
    /// The gateway with this name is removed.
    GatewayDelete(String),
    /// All gateways are removed.
    GatewayDeleteAll,
    /// The routes of the gateway with this name are replaced.
    HttpRouteReload(String, Vec<SgHttpRoute>),
}

/// A source of configuration events.
pub trait ConfigListener {
    /// The name of the source.
    fn config_listener_name(&self) -> &'static str;

    /// The next event; none when the source has no more.
    fn next_event(&mut self) -> Option<ConfigEvent>;

    /// Stops the source.
    fn shutdown(&mut self);
}

/// A gateway with its routes.
#[derive(Debug, Clone)]
pub struct StaticConfigItem {
    pub gateway: SgGateway,
    pub routes: Vec<SgHttpRoute>,
}

/// A fixed configuration: each item is added once, in order.
#[derive(Debug, Clone)]
pub struct StaticConfig {
    pub items: Vec<StaticConfigItem>,
}

impl ConfigListener for StaticConfig {
    /// The name `static`.
    fn config_listener_name(&self) -> (r: &'static str)
        ensures
            r@ == seq!['s', 't', 'a', 't', 'i', 'c'],
    {
        proof {
            reveal_strlit("static");
        }
        "static"
    }

    /// The first item that was not sent yet, as the addition of its gateway;
    /// none when all were sent.
    fn next_event(&mut self) -> (r: Option<ConfigEvent>)
        ensures
            old(self).items@.len() == 0 ==> r is None && final(self).items@.len() == 0,
            old(self).items@.len() > 0 ==> final(self).items@ == old(self).items@.skip(1)
                && r == Some(ConfigEvent::GatewayAdd(old(self).items@[0].gateway, old(self).items@[0].routes)),
    {
        self.poll_next()
    }

    fn shutdown(&mut self) {
    }
}

impl StaticConfig {
    /// The first item that was not sent yet, as the addition of its gateway;
    /// none when all were sent.
    pub fn poll_next(&mut self) -> (r: Option<ConfigEvent>)
        ensures
            old(self).items@.len() == 0 ==> r is None && final(self).items@.len() == 0,
            old(self).items@.len() > 0 ==> final(self).items@ == old(self).items@.skip(1)
                && r == Some(ConfigEvent::GatewayAdd(old(self).items@[0].gateway, old(self).items@[0].routes)),
    {
        if self.items.len() == 0 {
            return None;
        }
        let item = self.items.remove(0);
        assert(self.items@ =~= old(self).items@.skip(1));
        Some(ConfigEvent::GatewayAdd(item.gateway, item.routes))
    }
}

/// What the gateway does in answer to a configuration event.
#[derive(Debug, Clone)]
pub enum ConfigAction {
    /// Stop the running gateway of this name.
    Shutdown(String),
    /// Start a gateway with these routes; once it runs, it is reported with
    /// [`RunningGateways::started`].
    Start(SgGateway, Vec<SgHttpRoute>),
    /// Replace the routes of the running gateway of this name.
    ReloadRoutes(String, Vec<SgHttpRoute>),
}

/// Whether the action stops the gateway of name `n`.
pub open spec fn shuts_down(a: ConfigAction, n: Seq<char>) -> bool {
    a matches ConfigAction::Shutdown(x) && x@ == n
}

/// The names of the gateways that run.
#[derive(Debug)]
pub struct RunningGateways {
    names: Vec<(String, ())>,
}

impl RunningGateways {
    /// No name occurs twice.
    pub closed spec fn wf(&self) -> bool {
        keys_distinct(self.names@)
    }

    /// The names of the running gateways.
    pub closed spec fn running(&self) -> Set<Seq<char>> {
        entries_map(self.names@).dom()
    }

    /// No gateway runs.
    pub fn new() -> (r: Self)
        ensures
            r.wf(),
            r.running() == Set::<Seq<char>>::empty(),
    {
        let r = RunningGateways { names: Vec::new() };
        assert(r.running() =~= Set::<Seq<char>>::empty());
        r
    }

    /// Whether the gateway of this name runs.
    pub fn is_running(&self, name: &str) -> (r: bool)
        requires
            self.wf(),
        ensures
            r == self.running().contains(name@),
    {
        find_key(&self.names, name).is_some()
    }

    /// The gateway of this name was started and runs.
    pub fn started(&mut self, name: String)
        requires
            old(self).wf(),
        ensures
            final(self).wf(),
            final(self).running() == old(self).running().insert(name@),
    {
        put_key(&mut self.names, name, ());
    }

    /// The actions a configuration event asks for, and the gateways that
    /// run once they are done: adding a gateway stops the one of the same
    /// name first, if it runs, and starts the new one; deleting stops it;
    /// deleting all stops every running gateway; a route reload goes to the
    /// gateway of that name.
    pub fn on_event(&mut self, event: ConfigEvent) -> (r: Vec<ConfigAction>)
        requires
            old(self).wf(),
        ensures
            final(self).wf(),
            match event {
                ConfigEvent::GatewayAdd(g, routes) => {
                    &&& final(self).running() == old(self).running().remove(g.name@)
                    &&& if old(self).running().contains(g.name@) {
                        r@.len() == 2 && shuts_down(r@[0], g.name@)
                            && r@[1] == ConfigAction::Start(g, routes)
                    } else {
                        r@ == seq![ConfigAction::Start(g, routes)]
                    }
                },
                ConfigEvent::GatewayDelete(name) => {
                    &&& final(self).running() == old(self).running().remove(name@)
                    &&& if old(self).running().contains(name@) {
                        r@ == seq![ConfigAction::Shutdown(name)]
                    } else {
                        r@.len() == 0
                    }
                },
                ConfigEvent::GatewayDeleteAll => {
                    &&& final(self).running() == Set::<Seq<char>>::empty()
                    &&& forall|i: int| 0 <= i < r@.len() ==> (#[trigger] r@[i]) is Shutdown
                    &&& forall|n: Seq<char>| old(self).running().contains(n) <==> exists|i: int| 0 <= i < r@.len() && shuts_down(#[trigger] r@[i], n)
                },
                ConfigEvent::HttpRouteReload(name, routes) => {
                    &&& final(self).running() == old(self).running()
                    &&& r@ == seq![ConfigAction::ReloadRoutes(name, routes)]
                },
            },
    {
        match event {
            ConfigEvent::GatewayAdd(g, routes) => {
                let mut actions: Vec<ConfigAction> = Vec::new();
                if take_key(&mut self.names, g.name.as_str()).is_some() {
                    actions.push(ConfigAction::Shutdown(g.name.clone()));
                }
                proof {
                    assert(entries_map(self.names@).dom() =~= entries_map(old(self).names@).dom().remove(g.name@));
                }
                actions.push(ConfigAction::Start(g, routes));
                actions
            },
            ConfigEvent::GatewayDelete(name) => {
                let mut actions: Vec<ConfigAction> = Vec::new();
                if take_key(&mut self.names, name.as_str()).is_some() {
                    actions.push(ConfigAction::Shutdown(name));
                }
                proof {
                    assert(entries_map(self.names@).dom() =~= entries_map(old(self).names@).dom().remove(name@));
                }
                actions
            },
            ConfigEvent::GatewayDeleteAll => {
                let mut all: Vec<(String, ())> = Vec::new();
                std::mem::swap(&mut all, &mut self.names);
                let ghost s0 = all@;
                let mut actions: Vec<ConfigAction> = Vec::new();
                let mut i: usize = 0;
                while i < all.len()
                    invariant
                        i <= all@.len(),
                        all@ == s0,
                        actions@.len() == i,
                        forall|k: int| 0 <= k < i ==> shuts_down(#[trigger] actions@[k], s0[k].0@),
                    decreases all.len() - i,
                {
                    actions.push(ConfigAction::Shutdown(all[i].0.clone()));
                    i = i + 1;
                }
                proof {
                    assert(entries_map(self.names@).dom() =~= Set::<Seq<char>>::empty());
                    assert forall|n: Seq<char>| entries_map(s0).dom().contains(n) <==> exists|k: int| 0 <= k < actions@.len() && shuts_down(#[trigger] actions@[k], n) by {
                        if entries_map(s0).dom().contains(n) {
                            let k = choose|k: int| 0 <= k < s0.len() && #[trigger] s0[k].0@ == n;
                            assert(shuts_down(actions@[k], n));
                        }
                        if exists|k: int| 0 <= k < actions@.len() && shuts_down(#[trigger] actions@[k], n) {
                            let k = choose|k: int| 0 <= k < actions@.len() && shuts_down(#[trigger] actions@[k], n);
                            assert(s0[k].0@ == n);
                        }
                    }
                }
                actions
            },
            ConfigEvent::HttpRouteReload(name, routes) => {
                let mut actions: Vec<ConfigAction> = Vec::new();
                actions.push(ConfigAction::ReloadRoutes(name, routes));
                actions
            },
        }
    }
}

/// A gateway added and then deleted no longer runs; one added runs once
/// started, whether or not one of its name ran before.
pub proof fn lemma_add_start_delete(r0: RunningGateways, r1: RunningGateways, r2: RunningGateways, r3: RunningGateways, name: Seq<char>)
    requires
        r1.running() == r0.running().remove(name),
        r2.running() == r1.running().insert(name),
        r3.running() == r2.running().remove(name),
    ensures
        r2.running().contains(name),
        !r3.running().contains(name),
        r3.running() == r0.running().remove(name),
{
    assert(r3.running() =~= r0.running().remove(name));
}

/// The digests of the local configuration files last read, to tell whether
/// they changed.
#[derive(Debug, Clone)]
pub struct LocalConfigDigests {
    pub gateway: String,
    pub routes: String,
}

impl LocalConfigDigests {
    /// Nothing read yet.
    pub fn new() -> (r: Self)
        ensures
            r.gateway@.len() == 0,
            r.routes@.len() == 0,
    {
        LocalConfigDigests { gateway: String::new(), routes: String::new() }
    }

    /// Records the digests of the files just read and says whether the
    /// gateway file and the route files changed since the last reading.
    pub fn observe(&mut self, gateway: String, routes: String) -> (r: (bool, bool))
        ensures
            r.0 == (gateway@ != old(self).gateway@),
            r.1 == (routes@ != old(self).routes@),
            final(self).gateway == gateway,
            final(self).routes == routes,
    {
        let g_old = chars_of(self.gateway.as_str());
        let g_new = chars_of(gateway.as_str());
        let r_old = chars_of(self.routes.as_str());
        let r_new = chars_of(routes.as_str());
        let gateway_changed = !seq_eq(g_old.as_slice(), g_new.as_slice());
        let routes_changed = !seq_eq(r_old.as_slice(), r_new.as_slice());
        self.gateway = gateway;
        self.routes = routes;
        (gateway_changed, routes_changed)
    }
}

} // verus!
