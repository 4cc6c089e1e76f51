//! The retry filter: how long to wait before each retry, and where a retry
//! is sent.
use vstd::prelude::*;

use crate::plugins::context::{base_url_spec, opt_text, AvailableBackendInst, SgRoutePluginContext};
use crate::plugins::filters::{SgPluginFilterAccept, SgPluginFilterKind};
use crate::random::{random_in_range, weight_sum, weighted_index};
use vstd::arithmetic::power2::{pow2, lemma2_to64, lemma2_to64_rest, lemma_pow2_strictly_increases, lemma_pow2_unfold};

pub mod expiring_map;

verus! {

/// The code the retry filter is configured under.
pub const CODE: &'static str = "retry";

/// The definition of the retry filter: the filter configured under its code.
#[derive(Debug, Clone, Copy)]
pub struct SgFilterRetryDef;

impl SgFilterRetryDef {
    /// The code of the filter.
    pub fn get_code(&self) -> (r: &'static str)
        ensures
            r@ == CODE@,
    {
        CODE
    }
}


/// How the wait between retries grows.
#[derive(Debug, Clone, Copy, PartialEq, Eq, Structural)]
pub enum BackOff {
    /// The same wait every time.
    Fixed,
    /// The wait doubles with every retry: `base_interval * 2^retry_count`.
    Exponential,
    /// A wait drawn at random between the base and the maximum interval.
    Random,
}

impl Default for BackOff {
    fn default() -> (r: Self)
        ensures
            r == BackOff::Exponential,
    {
        BackOff::Exponential
    }
}

/// The retry filter's settings.
#[derive(Debug, Clone)]
pub struct SgFilterRetry {
    pub retries: u16,
    pub retryable_methods: Vec<String>,
    pub backoff: BackOff,
    /// Milliseconds.
    pub base_interval: u64,
    /// Milliseconds.
    pub max_interval: u64,
}

impl Default for SgFilterRetry {
    fn default() -> (r: Self)
        ensures
            r.retries == 3,
            r.retryable_methods@.len() == 1,
            r.retryable_methods@[0]@ == seq!['*'],
            r.backoff == BackOff::Exponential,
            r.base_interval == 100,
            r.max_interval == 10000,
    {
        proof {
            reveal_strlit("*");
        }
        let mut retryable_methods: Vec<String> = Vec::new();
        retryable_methods.push("*".to_string());
        SgFilterRetry {
            retries: 3,
            retryable_methods,
            backoff: BackOff::Exponential,
            base_interval: 100,
            max_interval: 10000,
        }
    }
}

/// Whether the wait before retry number `retry_count` can be computed:
/// an exponential wait must fit in a `u64`, and a random one needs a
/// maximum above the base.
pub open spec fn backoff_defined(backoff: BackOff, base: u64, max: u64, retry_count: u32) -> bool {
    match backoff {
        BackOff::Fixed => true,
        BackOff::Exponential => retry_count < 64 && base * pow2(retry_count as nat) <= u64::MAX,
        BackOff::Random => base < max,
    }
}

impl SgFilterRetry {
    /// The filter runs on HTTP requests, error responses included.
    pub fn accept(&self) -> (r: SgPluginFilterAccept)
        ensures
            r.kind@ == seq![SgPluginFilterKind::Http],
            r.accept_error_response,
    {
        let mut kind: Vec<SgPluginFilterKind> = Vec::new();
        kind.push(SgPluginFilterKind::Http);
        SgPluginFilterAccept { kind, accept_error_response: true }
    }

    /// How long the request bodies are kept for retries: the retries times
    /// the maximum interval.
    pub fn body_keep_millis(&self) -> (r: u64)
        requires
            self.retries * self.max_interval <= u64::MAX,
        ensures
            r == self.retries * self.max_interval,
    {
        (self.retries as u64) * self.max_interval
    }

    /// The wait in milliseconds before retry number `retry_count` (counted
    /// from 1): the base interval; the base interval times `2^retry_count`;
    /// or a random wait from the base up to, not including, the maximum.
    pub fn backoff_interval(&self, retry_count: u32) -> (r: u64)
        requires
            backoff_defined(self.backoff, self.base_interval, self.max_interval, retry_count),
        ensures
            match self.backoff {
                BackOff::Fixed => r == self.base_interval,
                BackOff::Exponential => r == self.base_interval * pow2(retry_count as nat),
                BackOff::Random => self.base_interval <= r < self.max_interval,
            },
    {
        match self.backoff {
            BackOff::Fixed => self.base_interval,
            BackOff::Exponential => {
                let p = pow2_exec(retry_count);
                proof {
                    assert(self.base_interval * pow2(retry_count as nat) <= u64::MAX);
                }
                self.base_interval * p
            },
            BackOff::Random => random_in_range(self.base_interval, self.max_interval),
        }
    }
}

/// `2^e` for `e < 64` (`2u64.pow(e)`).
fn pow2_exec(e: u32) -> (r: u64)
    requires
        e < 64,
    ensures
        r == pow2(e as nat),
{
    proof {
        lemma2_to64();
    }
    let mut r: u64 = 1;
    let mut i: u32 = 0;
    while i < e
        invariant
            i <= e,
            e < 64,
            r == pow2(i as nat),
            pow2(i as nat) <= 0x8000_0000_0000_0000,
        decreases e - i,
    {
        proof {
            lemma2_to64();
            lemma2_to64_rest();
            if i + 1 < 63 {
                lemma_pow2_strictly_increases((i + 1) as nat, 63);
            }
            lemma_pow2_unfold((i + 1) as nat);
        }
        r = r * 2;
        i = i + 1;
    }
    r
}

/// The weights of the available backends, a missing weight counting 0.
pub open spec fn available_weights(bs: Seq<AvailableBackendInst>) -> Seq<u16> {
    Seq::new(bs.len(), |i: int| match bs[i].weight {
        Some(w) => w,
        None => 0,
    })
}

/// The base URL of an available backend.
pub open spec fn available_base_url(b: AvailableBackendInst) -> Seq<char> {
    base_url_spec(b.name_or_host@, opt_text(b.namespace), b.port, b.protocol)
}

/// Where a retry is sent: with a chosen backend, one of the rule's
/// backends (the only one, or one drawn by weight, so never one of weight
/// zero; nowhere when there are none); without one, the request's URI.
pub fn choose_backend_url(ctx: &SgRoutePluginContext) -> (r: String)
    requires
        ctx.chosen_backend_of() is Some ==> ({
            let bs = ctx.available_backends_of();
            bs.len() > 1 ==> 0 < weight_sum(available_weights(bs), bs.len() as int) <= u16::MAX
        }),
    ensures
        ctx.chosen_backend_of() is None ==> r@ == ctx.request_of().uri.current()@,
        ctx.chosen_backend_of() is Some ==> ({
            let bs = ctx.available_backends_of();
            &&& bs.len() == 0 ==> r@ == Seq::<char>::empty()
            &&& bs.len() == 1 ==> r@ == available_base_url(bs[0])
            &&& bs.len() > 1 ==> exists|i: int| 0 <= i < bs.len() && available_weights(bs)[i] > 0 && r@ == available_base_url(#[trigger] bs[i])
        }),
{
    if ctx.get_chose_backend_name().is_some() {
        let bs = ctx.get_available_backend();
        if bs.len() > 1 {
            let mut weights: Vec<u16> = Vec::new();
            let mut i: usize = 0;
            while i < bs.len()
                invariant
                    i <= bs@.len(),
                    weights@ == available_weights(bs@).take(i as int),
                decreases bs.len() - i,
            {
                let w = match bs[i].weight {
                    Some(w) => w,
                    None => 0,
                };
                weights.push(w);
                assert(available_weights(bs@).take(i + 1) =~= available_weights(bs@).take(i as int).push(w));
                i = i + 1;
            }
            assert(weights@ =~= available_weights(bs@));
            let k = weighted_index(&weights);
            let r = bs[k].get_base_url();
            assert(available_weights(bs@)[k as int] > 0 && r@ == available_base_url(bs@[k as int]));
            r
        } else if bs.len() == 1 {
            bs[0].get_base_url()
        } else {
            String::new()
        }
    } else {
        ctx.get_req_uri().clone()
    }
}

} // verus!
