//! Builders of routes, rules and backends.
use vstd::prelude::*;

use super::{SgHttpBackendLayer, SgHttpRoute, SgHttpRouteRuleLayer};
use crate::error::SgError;
use crate::text::chars_of;

verus! {

/* ------------------------------------------------------------------------
   Route
   ------------------------------------------------------------------------ */

/// The parts of a route as they are set, before it is built.
#[derive(Debug)]
pub struct SgHttpRouteLayerBuilder<R, P> {
    pub name: String,
    pub hostnames: Vec<String>,
    pub rules: Vec<R>,
    pub plugins: Vec<P>,
    pub priority: Option<i16>,
    pub extensions: http::Extensions,
}

impl<R, P> Default for SgHttpRouteLayerBuilder<R, P> {
    fn default() -> (r: Self)
        ensures
            r.name@.len() == 0,
            r.hostnames@.len() == 0,
            r.rules@.len() == 0,
            r.plugins@.len() == 0,
            r.priority is None,
    {
        Self::new()
    }
}

/// Whether one of the hostnames is the wildcard `*`.
pub open spec fn has_wildcard(hostnames: Seq<String>) -> bool {
    exists|i: int| 0 <= i < hostnames.len() && (#[trigger] hostnames[i])@ == seq!['*']
}

/// Whether `s` is the wildcard `*`.
fn is_star(s: &String) -> (r: bool)
    ensures
        r == (s@ == seq!['*']),
{
    let c = chars_of(s.as_str());
    if c.len() == 1 && c[0] == '*' {
        assert(c@ =~= seq!['*']);
        true
    } else {
        false
    }
}

impl<R, P> SgHttpRouteLayerBuilder<R, P> {
    /// A builder with nothing set.
    pub fn new() -> (r: Self)
        ensures
            r.name@.len() == 0,
            r.hostnames@.len() == 0,
            r.rules@.len() == 0,
            r.plugins@.len() == 0,
            r.priority is None,
    {
        SgHttpRouteLayerBuilder {
            name: String::new(),
            hostnames: Vec::new(),
            rules: Vec::new(),
            plugins: Vec::new(),
            priority: None,
            extensions: http::Extensions::new(),
        }
    }

    /// Sets the name.
    pub fn name(self, name: String) -> (r: Self)
        ensures
            r == (Self { name, ..self }),
    {
        let mut b = self;
        b.name = name;
        b
    }

    /// Sets the hostnames.
    pub fn hostnames(self, hostnames: Vec<String>) -> (r: Self)
        ensures
            r == (Self { hostnames, ..self }),
    {
        let mut b = self;
        b.hostnames = hostnames;
        b
    }

    /// Adds a rule after those set.
    pub fn rule(self, rule: R) -> (r: Self)
        ensures
            r.rules@ == self.rules@.push(rule),
            r.name == self.name,
            r.hostnames == self.hostnames,
            r.plugins == self.plugins,
            r.priority == self.priority,
            r.extensions == self.extensions,
    {
        let mut b = self;
        b.rules.push(rule);
        b
    }

    /// Adds rules after those set.
    pub fn rules(self, rules: Vec<R>) -> (r: Self)
        ensures
            r.rules@ == self.rules@ + rules@,
            r.name == self.name,
            r.hostnames == self.hostnames,
            r.plugins == self.plugins,
            r.priority == self.priority,
            r.extensions == self.extensions,
    {
        let mut b = self;
        let mut rules = rules;
        b.rules.append(&mut rules);
        b
    }

    /// Adds a plugin after those set.
    pub fn plugin(self, plugin: P) -> (r: Self)
        ensures
            r.plugins@ == self.plugins@.push(plugin),
            r.name == self.name,
            r.hostnames == self.hostnames,
            r.rules == self.rules,
            r.priority == self.priority,
            r.extensions == self.extensions,
    {
        let mut b = self;
        b.plugins.push(plugin);
        b
    }

    /// Adds plugins after those set.
    pub fn plugins(self, plugins: Vec<P>) -> (r: Self)
        ensures
            r.plugins@ == self.plugins@ + plugins@,
            r.name == self.name,
            r.hostnames == self.hostnames,
            r.rules == self.rules,
            r.priority == self.priority,
            r.extensions == self.extensions,
    {
        let mut b = self;
        let mut plugins = plugins;
        b.plugins.append(&mut plugins);
        b
    }

    /// Sets the priority.
    pub fn priority(self, priority: i16) -> (r: Self)
        ensures
            r == (Self { priority: Some(priority), ..self }),
    {
        let mut b = self;
        b.priority = Some(priority);
        b
    }

    /// Sets the extensions.
    pub fn ext(self, extensions: http::Extensions) -> (r: Self)
        ensures
            r == (Self { extensions, ..self }),
    {
        let mut b = self;
        b.extensions = extensions;
        b
    }

    /// The route: a wildcard among the hostnames makes `*` its only
    /// hostname; the priority is 1 when none was set.
    pub fn build(self) -> (r: Result<SgHttpRoute<R, P>, SgError>)
        ensures
            r matches Ok(route) && {
                &&& route.name == self.name
                &&& route.rules == self.rules
                &&& route.plugins == self.plugins
                &&& route.ext == self.extensions
                &&& route.priority == match self.priority {
                    Some(p) => p,
                    None => 1i16,
                }
                &&& if has_wildcard(self.hostnames@) {
                    route.hostnames@.len() == 1 && route.hostnames@[0]@ == seq!['*']
                } else {
                    route.hostnames == self.hostnames
                }
            },
    {
        let mut wildcard = false;
        let mut i: usize = 0;
        while i < self.hostnames.len()
            invariant
                i <= self.hostnames@.len(),
                wildcard <==> exists|j: int| 0 <= j < i && (#[trigger] self.hostnames@[j])@ == seq!['*'],
            decreases self.hostnames.len() - i,
        {
            if is_star(&self.hostnames[i]) {
                wildcard = true;
            }
            i = i + 1;
        }
        let hostnames = if wildcard {
            let mut star = String::new();
            crate::text::string_push(&mut star, '*');
            let mut hs: Vec<String> = Vec::new();
            hs.push(star);
            hs
        } else {
            self.hostnames
        };
        let priority: i16 = match self.priority {
            Some(p) => p,
            None => 1,
        };
        Ok(SgHttpRoute {
            plugins: self.plugins,
            hostnames,
            rules: self.rules,
            priority,
            name: self.name,
            ext: self.extensions,
        })
    }
}

/* ------------------------------------------------------------------------
   Rule
   ------------------------------------------------------------------------ */

/// The parts of a rule as they are set, before it is built.
#[derive(Debug)]
pub struct SgHttpRouteRuleLayerBuilder<M, P, B> {
    pub matches: Option<Vec<M>>,
    pub plugins: Vec<P>,
    pub timeouts: Option<core::time::Duration>,
    pub backends: Vec<B>,
    pub extensions: http::Extensions,
}

impl<M, P, B> Default for SgHttpRouteRuleLayerBuilder<M, P, B> {
    fn default() -> (r: Self)
        ensures
            r.matches is None,
            r.plugins@.len() == 0,
            r.timeouts is None,
            r.backends@.len() == 0,
    {
        Self::new()
    }
}

impl<M, P, B> SgHttpRouteRuleLayerBuilder<M, P, B> {
    /// A builder with nothing set: the rule matches every request.
    pub fn new() -> (r: Self)
        ensures
            r.matches is None,
            r.plugins@.len() == 0,
            r.timeouts is None,
            r.backends@.len() == 0,
    {
        SgHttpRouteRuleLayerBuilder {
            matches: None,
            plugins: Vec::new(),
            timeouts: None,
            backends: Vec::new(),
            extensions: http::Extensions::new(),
        }
    }

    /// Sets the match conditions.
    pub fn matches(self, matches: Vec<M>) -> (r: Self)
        ensures
            r == (Self { matches: Some(matches), ..self }),
    {
        let mut b = self;
        b.matches = Some(matches);
        b
    }

    /// Lets the rule match every request.
    pub fn match_all(self) -> (r: Self)
        ensures
            r == (Self { matches: None, ..self }),
    {
        let mut b = self;
        b.matches = None;
        b
    }

    /// Adds a plugin after those set.
    pub fn plugin(self, plugin: P) -> (r: Self)
        ensures
            r.plugins@ == self.plugins@.push(plugin),
            r.matches == self.matches,
            r.timeouts == self.timeouts,
            r.backends == self.backends,
            r.extensions == self.extensions,
    {
        let mut b = self;
        b.plugins.push(plugin);
        b
    }

    /// Adds plugins after those set.
    pub fn plugins(self, plugins: Vec<P>) -> (r: Self)
        ensures
            r.plugins@ == self.plugins@ + plugins@,
            r.matches == self.matches,
            r.timeouts == self.timeouts,
            r.backends == self.backends,
            r.extensions == self.extensions,
    {
        let mut b = self;
        let mut plugins = plugins;
        b.plugins.append(&mut plugins);
        b
    }

    /// Sets the timeout.
    pub fn timeout(self, timeout: core::time::Duration) -> (r: Self)
        ensures
            r == (Self { timeouts: Some(timeout), ..self }),
    {
        let mut b = self;
        b.timeouts = Some(timeout);
        b
    }

    /// Adds a backend after those set.
    pub fn backend(self, backend: B) -> (r: Self)
        ensures
            r.backends@ == self.backends@.push(backend),
            r.matches == self.matches,
            r.plugins == self.plugins,
            r.timeouts == self.timeouts,
            r.extensions == self.extensions,
    {
        let mut b = self;
        b.backends.push(backend);
        b
    }

    /// Adds backends after those set.
    pub fn backends(self, backends: Vec<B>) -> (r: Self)
        ensures
            r.backends@ == self.backends@ + backends@,
            r.matches == self.matches,
            r.plugins == self.plugins,
            r.timeouts == self.timeouts,
            r.extensions == self.extensions,
    {
        let mut b = self;
        let mut backends = backends;
        b.backends.append(&mut backends);
        b
    }

    /// Sets the extensions.
    pub fn ext(self, extensions: http::Extensions) -> (r: Self)
        ensures
            r == (Self { extensions, ..self }),
    {
        let mut b = self;
        b.extensions = extensions;
        b
    }

    /// The rule, with the parts as they were set.
    pub fn build(self) -> (r: Result<SgHttpRouteRuleLayer<M, P, B>, SgError>)
        ensures
            r matches Ok(rule) && {
                &&& rule.matches == self.matches
                &&& rule.plugins == self.plugins
                &&& rule.timeouts == self.timeouts
                &&& rule.backends == self.backends
                &&& rule.ext == self.extensions
            },
    {
        Ok(SgHttpRouteRuleLayer {
            matches: self.matches,
            plugins: self.plugins,
            timeouts: self.timeouts,
            backends: self.backends,
            ext: self.extensions,
        })
    }
}

/* ------------------------------------------------------------------------
   Backend
   ------------------------------------------------------------------------ */

/// The parts of a backend as they are set, before it is built.
#[derive(Debug)]
pub struct SgHttpBackendLayerBuilder<P> {
    pub host: Option<String>,
    pub port: Option<u16>,
    pub protocol: Option<String>,
    pub plugins: Vec<P>,
    pub timeout: Option<core::time::Duration>,
    pub weight: u16,
    pub extensions: http::Extensions,
}

impl<P> Default for SgHttpBackendLayerBuilder<P> {
    fn default() -> (r: Self)
        ensures
            r.host is None,
            r.port is None,
            r.protocol is None,
            r.plugins@.len() == 0,
            r.timeout is None,
            r.weight == 1,
    {
        SgHttpBackendLayerBuilder {
            host: None,
            port: None,
            protocol: None,
            plugins: Vec::new(),
            timeout: None,
            weight: 1,
            extensions: http::Extensions::new(),
        }
    }
}

impl<P> SgHttpBackendLayerBuilder<P> {
    /// A builder with weight 1 and nothing else set.
    pub fn new() -> (r: Self)
        ensures
            r.host is None,
            r.port is None,
            r.protocol is None,
            r.plugins@.len() == 0,
            r.timeout is None,
            r.weight == 1,
    {
        Self::default()
    }

    /// Adds a plugin after those set.
    pub fn plugin(self, plugin: P) -> (r: Self)
        ensures
            r.plugins@ == self.plugins@.push(plugin),
            r.host == self.host,
            r.port == self.port,
            r.protocol == self.protocol,
            r.timeout == self.timeout,
            r.weight == self.weight,
            r.extensions == self.extensions,
    {
        let mut b = self;
        b.plugins.push(plugin);
        b
    }

    /// Adds plugins after those set.
    pub fn plugins(self, plugins: Vec<P>) -> (r: Self)
        ensures
            r.plugins@ == self.plugins@ + plugins@,
            r.host == self.host,
            r.port == self.port,
            r.protocol == self.protocol,
            r.timeout == self.timeout,
            r.weight == self.weight,
            r.extensions == self.extensions,
    {
        let mut b = self;
        let mut plugins = plugins;
        b.plugins.append(&mut plugins);
        b
    }

    /// Sets the timeout.
    pub fn timeout(self, timeout: core::time::Duration) -> (r: Self)
        ensures
            r == (Self { timeout: Some(timeout), ..self }),
    {
        let mut b = self;
        b.timeout = Some(timeout);
        b
    }

    /// Sets the weight.
    pub fn weight(self, weight: u16) -> (r: Self)
        ensures
            r == (Self { weight, ..self }),
    {
        let mut b = self;
        b.weight = weight;
        b
    }

    /// Sets the host.
    pub fn host(self, host: String) -> (r: Self)
        ensures
            r == (Self { host: Some(host), ..self }),
    {
        let mut b = self;
        b.host = Some(host);
        b
    }

    /// Sets the port.
    pub fn port(self, port: u16) -> (r: Self)
        ensures
            r == (Self { port: Some(port), ..self }),
    {
        let mut b = self;
        b.port = Some(port);
        b
    }

    /// Sets the protocol (the scheme of the backend).
    pub fn protocol(self, protocol: String) -> (r: Self)
        ensures
            r == (Self { protocol: Some(protocol), ..self }),
    {
        let mut b = self;
        b.protocol = Some(protocol);
        b
    }

    /// Sets the extensions.
    pub fn ext(self, extensions: http::Extensions) -> (r: Self)
        ensures
            r == (Self { extensions, ..self }),
    {
        let mut b = self;
        b.extensions = extensions;
        b
    }

    /// The backend, with the protocol as its scheme.
    pub fn build(self) -> (r: Result<SgHttpBackendLayer<P>, SgError>)
        ensures
            r matches Ok(backend) && {
                &&& backend.host == self.host
                &&& backend.port == self.port
                &&& backend.scheme == self.protocol
                &&& backend.plugins == self.plugins
                &&& backend.timeout == self.timeout
                &&& backend.weight == self.weight
                &&& backend.ext == self.extensions
            },
    {
        Ok(SgHttpBackendLayer {
            host: self.host,
            port: self.port,
            scheme: self.protocol,
            plugins: self.plugins,
            timeout: self.timeout,
            weight: self.weight,
            ext: self.extensions,
        })
    }
}

} // verus!
