//! Requests a route accepts by their host.
use vstd::prelude::*;

use crate::text::{chars_of, seq_eq};

verus! {

/// Why a request was refused by its host (answered `403 Forbidden`).
#[derive(Debug, Clone, Copy, PartialEq, Eq, Structural)]
pub enum HostnameRefusal {
    /// "hostname not allowed"
    NotAllowed,
    /// "missing hostname"
    Missing,
}

/// Lets through the requests whose host is one of the hostnames (any
/// request, when there are none).
#[derive(Debug, Clone)]
pub struct FilterByHostnames {
    pub hostnames: Vec<String>,
}

impl FilterByHostnames {
    /// Checks the host of a request's URI.
    pub fn check(&self, host: Option<&str>) -> (r: Result<(), HostnameRefusal>)
        ensures
            self.hostnames@.len() == 0 ==> r is Ok,
            self.hostnames@.len() > 0 ==> match host {
                None => r == Err::<(), HostnameRefusal>(HostnameRefusal::Missing),
                Some(h) => (r is Ok <==> exists|i: int| 0 <= i < self.hostnames@.len() && (#[trigger] self.hostnames@[i])@ == h@)
                    && (r is Err ==> r == Err::<(), HostnameRefusal>(HostnameRefusal::NotAllowed)),
            },
    {
        if self.hostnames.len() == 0 {
            return Ok(());
        }
        match host {
            None => Err(HostnameRefusal::Missing),
            Some(h) => {
                let hc = chars_of(h);
                let mut i: usize = 0;
                while i < self.hostnames.len()
                    invariant
                        i <= self.hostnames@.len(),
                        hc@ == h@,
                        host == Some(h),
                        self.hostnames@.len() > 0,
                        forall|j: int| 0 <= j < i ==> (#[trigger] self.hostnames@[j])@ != h@,
                    decreases self.hostnames.len() - i,
                {
                    let c = chars_of(self.hostnames[i].as_str());
                    if seq_eq(c.as_slice(), hc.as_slice()) {
                        assert(self.hostnames@[i as int]@ == h@);
                        return Ok(());
                    }
                    i = i + 1;
                }
                Err(HostnameRefusal::NotAllowed)
            },
        }
    }
}

} // verus!
