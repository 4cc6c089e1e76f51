//! The order in which the filters of a request run: those of the chosen
//! backend, then those of the chosen rule, of the route and of the gateway.
//! A filter whose id already ran is passed over, one that declines the
//! request is passed over too, and a filter that asks to stop ends the
//! chain. The filters themselves run outside: this state machine says which
//! one is next and learns how it went.
use vstd::prelude::*;

use crate::text::{chars_of, seq_eq};

verus! {

/// The ids of the filters of a request, in the order they are offered, and
/// how far the chain has got.
#[derive(Debug)]
pub struct FilterChain {
    ids: Vec<String>,
    pos: usize,
    executed: Vec<String>,
    stopped: bool,
}

/// The texts of a list of strings.
pub open spec fn texts(s: Seq<String>) -> Seq<Seq<char>> {
    s.map_values(|x: String| x@)
}

/// Whether `x` is one of the first `p` ids.
pub open spec fn stands_before(ids: Seq<String>, x: Seq<char>, p: int) -> bool {
    exists|k: int| 0 <= k < p && #[trigger] ids[k]@ == x
}

/// The ids of the levels, in order: backend, rule, route, gateway.
pub open spec fn chain_ids(backend: Option<Seq<String>>, rule: Option<Seq<String>>, route: Seq<String>, global: Seq<String>) -> Seq<Seq<char>> {
    let b = match backend {
        Some(v) => v,
        None => Seq::empty(),
    };
    let r = match rule {
        Some(v) => v,
        None => Seq::empty(),
    };
    texts(b + r + route + global)
}

impl FilterChain {
    /// The ids, in the order the filters are offered.
    pub closed spec fn ids_of(&self) -> Seq<Seq<char>> {
        texts(self.ids@)
    }

    /// The position of the next filter to consider.
    pub closed spec fn pos_of(&self) -> nat {
        self.pos as nat
    }

    /// The ids of the filters that ran and let the chain go on, in order.
    pub closed spec fn executed_of(&self) -> Seq<Seq<char>> {
        texts(self.executed@)
    }

    /// Whether a filter asked to stop.
    pub closed spec fn stopped_of(&self) -> bool {
        self.stopped
    }

    /// The chain's invariant: the position lies within the ids, no id ran
    /// twice, and every id that ran stands before the position.
    pub closed spec fn wf(&self) -> bool {
        &&& self.pos <= self.ids@.len()
        &&& forall|i: int, j: int| 0 <= i < j < self.executed@.len() ==> self.executed@[i]@ != self.executed@[j]@
        &&& forall|i: int| 0 <= i < self.executed@.len() ==> stands_before(self.ids@, (#[trigger] self.executed@[i])@, self.pos as int)
    }

    /// A chain over the filters of the backend, the rule, the route and the
    /// gateway, before any filter ran.
    pub fn new(backend: Option<Vec<String>>, rule: Option<Vec<String>>, route: Vec<String>, global: Vec<String>) -> (r: Self)
        ensures
            r.wf(),
            r.ids_of() == chain_ids(
                match backend { Some(v) => Some(v@), None => None },
                match rule { Some(v) => Some(v@), None => None },
                route@,
                global@,
            ),
            r.pos_of() == 0,
            r.executed_of() == Seq::<Seq<char>>::empty(),
            !r.stopped_of(),
    {
        let mut ids: Vec<String> = Vec::new();
        let ghost b = match &backend { Some(v) => v@, None => Seq::<String>::empty() };
        let ghost rl = match &rule { Some(v) => v@, None => Seq::<String>::empty() };
        if let Some(mut v) = backend {
            ids.append(&mut v);
        }
        if let Some(mut v) = rule {
            ids.append(&mut v);
        }
        let ghost route0 = route@;
        let ghost global0 = global@;
        let mut route = route;
        let mut global = global;
        ids.append(&mut route);
        ids.append(&mut global);
        assert(ids@ =~= b + rl + route0 + global0);
        let r = FilterChain { ids, pos: 0, executed: Vec::new(), stopped: false };
        assert(r.executed_of() =~= Seq::<Seq<char>>::empty());
        r
    }

    /// Whether the id at position `i` already ran.
    fn ran_before(&self, i: usize) -> (r: bool)
        requires
            i < self.ids@.len(),
        ensures
            r == texts(self.executed@).contains(self.ids@[i as int]@),
    {
        let id = chars_of(self.ids[i].as_str());
        let mut j: usize = 0;
        while j < self.executed.len()
            invariant
                j <= self.executed@.len(),
                id@ == self.ids@[i as int]@,
                forall|k: int| 0 <= k < j ==> self.executed@[k]@ != id@,
            decreases self.executed.len() - j,
        {
            let e = chars_of(self.executed[j].as_str());
            if seq_eq(e.as_slice(), id.as_slice()) {
                assert(texts(self.executed@)[j as int] == id@);
                return true;
            }
            j = j + 1;
        }
        proof {
            if texts(self.executed@).contains(id@) {
                let k = choose|k: int| 0 <= k < texts(self.executed@).len() && texts(self.executed@)[k] == id@;
                assert(self.executed@[k]@ == id@);
            }
        }
        false
    }

    /// The position of the next filter to offer: the first one from the
    /// current position on whose id has not run, which becomes the
    /// position. `None` at the end of the chain or once a filter asked to
    /// stop.
    pub fn next(&mut self) -> (r: Option<usize>)
        requires
            old(self).wf(),
        ensures
            final(self).wf(),
            final(self).ids_of() == old(self).ids_of(),
            final(self).executed_of() == old(self).executed_of(),
            final(self).stopped_of() == old(self).stopped_of(),
            old(self).stopped_of() ==> r is None && final(self).pos_of() == old(self).pos_of(),
            !old(self).stopped_of() ==> match r {
                Some(i) => {
                    &&& old(self).pos_of() <= i < old(self).ids_of().len()
                    &&& final(self).pos_of() == i
                    &&& !old(self).executed_of().contains(old(self).ids_of()[i as int])
                    &&& forall|k: int| old(self).pos_of() <= k < i ==> old(self).executed_of().contains(#[trigger] old(self).ids_of()[k])
                },
                None => {
                    &&& final(self).pos_of() == old(self).ids_of().len()
                    &&& forall|k: int| old(self).pos_of() <= k < old(self).ids_of().len() ==> old(self).executed_of().contains(#[trigger] old(self).ids_of()[k])
                },
            },
    {
        if self.stopped {
            return None;
        }
        let ghost p0 = self.pos;
        while self.pos < self.ids.len()
            invariant
                p0 <= self.pos <= self.ids@.len(),
                p0 == old(self).pos,
                !self.stopped,
                self.stopped == old(self).stopped,
                self.ids@ == old(self).ids@,
                self.executed@ == old(self).executed@,
                forall|i: int, j: int| 0 <= i < j < self.executed@.len() ==> self.executed@[i]@ != self.executed@[j]@,
                forall|i: int| 0 <= i < self.executed@.len() ==> stands_before(self.ids@, (#[trigger] self.executed@[i])@, p0 as int),
                forall|k: int| p0 <= k < self.pos ==> texts(self.executed@).contains(#[trigger] texts(self.ids@)[k]),
            decreases self.ids.len() - self.pos,
        {
            if !self.ran_before(self.pos) {
                proof {
                    self.lemma_executed_before(p0 as int, self.pos as int);
                    assert(old(self).ids_of().len() == self.ids@.len());
                }
                return Some(self.pos);
            }
            self.pos = self.pos + 1;
        }
        proof {
            self.lemma_executed_before(p0 as int, self.pos as int);
        }
        None
    }

    /// Every id that ran stands before any later position.
    proof fn lemma_executed_before(&self, p0: int, p: int)
        requires
            p0 <= p <= self.ids@.len(),
            forall|i: int| 0 <= i < self.executed@.len() ==> stands_before(self.ids@, (#[trigger] self.executed@[i])@, p0 as int),
        ensures
            forall|i: int| 0 <= i < self.executed@.len() ==> stands_before(self.ids@, (#[trigger] self.executed@[i])@, p),
    {
        assert forall|i: int| 0 <= i < self.executed@.len() implies stands_before(self.ids@, (#[trigger] self.executed@[i])@, p) by {
            let k = choose|k: int| 0 <= k < p0 && #[trigger] self.ids@[k]@ == self.executed@[i]@;
            assert(self.ids@[k]@ == self.executed@[i]@);
        }
    }

    /// The filter at the position declined the request: it is passed over.
    pub fn skip(&mut self)
        requires
            old(self).wf(),
            old(self).pos_of() < old(self).ids_of().len(),
        ensures
            final(self).wf(),
            final(self).ids_of() == old(self).ids_of(),
            final(self).executed_of() == old(self).executed_of(),
            final(self).stopped_of() == old(self).stopped_of(),
            final(self).pos_of() == old(self).pos_of() + 1,
    {
        proof {
            assert(self.ids_of().len() == self.ids@.len());
            self.lemma_executed_before(self.pos as int, self.pos + 1);
        }
        let _n = self.ids.len();
        self.pos = self.pos + 1;
    }

    /// The filter at the position ran. When it lets the chain go on, its id
    /// is recorded and the position moves past it, and the result is
    /// `true`; otherwise the chain stops and the result is `false`.
    pub fn ran(&mut self, is_continue: bool) -> (r: bool)
        requires
            old(self).wf(),
            old(self).pos_of() < old(self).ids_of().len(),
            !old(self).executed_of().contains(old(self).ids_of()[old(self).pos_of() as int]),
        ensures
            final(self).wf(),
            r == is_continue,
            final(self).ids_of() == old(self).ids_of(),
            is_continue ==> {
                &&& final(self).executed_of() == old(self).executed_of().push(old(self).ids_of()[old(self).pos_of() as int])
                &&& final(self).pos_of() == old(self).pos_of() + 1
                &&& final(self).stopped_of() == old(self).stopped_of()
            },
            !is_continue ==> {
                &&& final(self).executed_of() == old(self).executed_of()
                &&& final(self).pos_of() == old(self).pos_of()
                &&& final(self).stopped_of()
            },
    {
        if !is_continue {
            self.stopped = true;
            return false;
        }
        let ghost p = self.pos as int;
        let ghost ex0 = self.executed@;
        assert(self.ids_of().len() == self.ids@.len());
        let id = self.ids[self.pos].clone();
        self.executed.push(id);
        proof {
            assert(texts(self.executed@) =~= texts(ex0).push(texts(self.ids@)[p]));
            assert forall|i: int, j: int| 0 <= i < j < self.executed@.len() implies self.executed@[i]@ != self.executed@[j]@ by {
                if j == ex0.len() {
                    assert(texts(ex0)[i] == ex0[i]@);
                    assert(!texts(ex0).contains(texts(self.ids@)[p]));
                }
            }
            assert forall|i: int| 0 <= i < self.executed@.len() implies stands_before(self.ids@, (#[trigger] self.executed@[i])@, p + 1) by {
                if i == ex0.len() {
                    assert(self.ids@[p]@ == self.executed@[i]@);
                } else {
                    let k = choose|k: int| 0 <= k < p && #[trigger] self.ids@[k]@ == ex0[i]@;
                    assert(self.ids@[k]@ == self.executed@[i]@);
                }
            }
        }
        let _n = self.ids.len();
        self.pos = self.pos + 1;
        true
    }
}

/// No filter id runs twice in one chain: the ids recorded as run are
/// pairwise different, in every state the chain's operations reach.
pub proof fn lemma_no_filter_runs_twice(c: FilterChain)
    requires
        c.wf(),
    ensures
        forall|a: int, b: int| 0 <= a < b < c.executed_of().len() ==> c.executed_of()[a] != c.executed_of()[b],
{
}

} // verus!
