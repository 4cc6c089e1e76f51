//! The maintenance filter: while maintenance is on, requests from outside
//! the excluded networks are answered with a maintenance notice instead of
//! being forwarded.
use vstd::prelude::*;

use crate::error::SgError;
use crate::functions::http_route::{header_get, header_lookup, header_text, header_value_text};
use crate::plugin::filter::{copy_bytes, header_name_of, header_value_ok, lemma_lower_dash_name, values_of};
use vstd::string::StringSliceAdditionalSpecFns;
use vstd::utf8::encode_utf8;
use crate::plugins::context::{SgRouteFilterRequestAction, SgRoutePluginContext};
use crate::plugins::filters::{SgPluginFilterAccept, SgPluginFilterKind};
use crate::text::{chars_of, replace_spec, replace_str, seq_eq, split, split_spec};

verus! {

/// A time of day as `chrono::NaiveTime` holds it: seconds since midnight
/// and a fraction in nanoseconds (above a second during a leap second).
#[derive(Debug, Clone, Copy, PartialEq, Eq, Structural)]
pub struct TimeOfDay {
    pub secs: u32,
    pub frac: u32,
}

/// The order of times of day: by seconds, then by fraction.
pub open spec fn time_lt(a: TimeOfDay, b: TimeOfDay) -> bool {
    a.secs < b.secs || (a.secs == b.secs && a.frac < b.frac)
}

fn time_lt_exec(a: TimeOfDay, b: TimeOfDay) -> (r: bool)
    ensures
        r == time_lt(a, b),
{
    a.secs < b.secs || (a.secs == b.secs && a.frac < b.frac)
}

/// A range of times of day, from `start` (included) to `end` (excluded).
#[derive(Debug, Clone, Copy, PartialEq, Eq, Structural)]
pub struct TimeRange {
    pub start: TimeOfDay,
    pub end: TimeOfDay,
}

/// Whether `t` falls in the range; a range whose start is after its end
/// runs over midnight and holds every time outside `end..start`.
pub open spec fn range_contains(r: TimeRange, t: TimeOfDay) -> bool {
    if time_lt(r.end, r.start) {
        !(!time_lt(t, r.end) && time_lt(t, r.start))
    } else {
        !time_lt(t, r.start) && time_lt(t, r.end)
    }
}

/// An IP address: IPv4 in the low 32 bits, or IPv6.
#[derive(Debug, Clone, Copy, PartialEq, Eq, Structural)]
pub struct SgIpAddr {
    pub is_v6: bool,
    pub addr: u128,
}

/// An IP network: an address and the length of its network prefix.
#[derive(Debug, Clone, Copy, PartialEq, Eq, Structural)]
pub struct SgIpNet {
    pub is_v6: bool,
    pub addr: u128,
    pub prefix_len: u8,
}

/// The number of bits of an address of the family.
pub open spec fn addr_bits(is_v6: bool) -> int {
    if is_v6 {
        128
    } else {
        32
    }
}

/// A network is well formed when its prefix is no longer than its address.
pub open spec fn net_wf(n: SgIpNet) -> bool {
    n.prefix_len <= addr_bits(n.is_v6) && (!n.is_v6 ==> n.addr < 0x1_0000_0000)
}

/// Whether the network holds the address (`ipnet::IpNet::contains`): the
/// address is of the same family and agrees with the network on the prefix
/// bits.
pub open spec fn net_contains(n: SgIpNet, ip: SgIpAddr) -> bool {
    n.is_v6 == ip.is_v6 && (n.prefix_len == 0 || (ip.addr >> ((addr_bits(n.is_v6) - n.prefix_len) as u128)) == (n.addr >> ((addr_bits(n.is_v6) - n.prefix_len) as u128)))
}

impl SgIpNet {
    /// Whether the network holds the address.
    pub fn contains(&self, ip: &SgIpAddr) -> (r: bool)
        requires
            net_wf(*self),
        ensures
            r == net_contains(*self, *ip),
    {
        if self.is_v6 != ip.is_v6 {
            return false;
        }
        if self.prefix_len == 0 {
            return true;
        }
        let bits: u8 = if self.is_v6 { 128 } else { 32 };
        let k: u8 = bits - self.prefix_len;
        let kk: u128 = k as u128;
        (ip.addr >> kk) == (self.addr >> kk)
    }
}

/// The network `ipnet` reads from a text such as `10.0.0.0/16`, in plain
/// form, or `None` when `ipnet` refuses the text.
pub uninterp spec fn ip_net_text_spec(s: Seq<char>) -> Option<SgIpNet>;

/// The address `std` reads from a text such as `172.30.30.30`, in plain
/// form, or `None` when the text is no address.
pub uninterp spec fn ip_addr_text_spec(s: Seq<char>) -> Option<SgIpAddr>;

/// `str::parse::<ipnet::IpNet>`. The contract claims that the result is the
/// crate's reading of `s`, and that a network read is well formed: its
/// prefix is no longer than the address, and an IPv4 address has 32 bits.
#[verifier::external_body]
pub(crate) fn parse_ip_net(s: &str) -> (r: Option<SgIpNet>)
    ensures
        r == ip_net_text_spec(s@),
        r matches Some(n) ==> net_wf(n),
{
    match s.parse::<ipnet::IpNet>() {
        Ok(ipnet::IpNet::V4(n)) => Some(SgIpNet { is_v6: false, addr: u32::from(n.addr()) as u128, prefix_len: n.prefix_len() }),
        Ok(ipnet::IpNet::V6(n)) => Some(SgIpNet { is_v6: true, addr: u128::from(n.addr()), prefix_len: n.prefix_len() }),
        Err(_) => None,
    }
}

/// `str::parse::<IpAddr>`. The contract claims that the result is std's
/// reading of `s`, and that an IPv4 address has 32 bits.
#[verifier::external_body]
pub(crate) fn parse_ip_addr(s: &str) -> (r: Option<SgIpAddr>)
    ensures
        r == ip_addr_text_spec(s@),
        r matches Some(a) ==> (!a.is_v6 ==> a.addr < 0x1_0000_0000),
{
    match s.parse::<core::net::IpAddr>() {
        Ok(core::net::IpAddr::V4(a)) => Some(SgIpAddr { is_v6: false, addr: u32::from(a) as u128 }),
        Ok(core::net::IpAddr::V6(a)) => Some(SgIpAddr { is_v6: true, addr: u128::from(a) }),
        Err(_) => None,
    }
}

/// The network of a single address: the whole address is its prefix.
pub open spec fn host_net(a: SgIpAddr) -> SgIpNet {
    SgIpNet { is_v6: a.is_v6, addr: a.addr, prefix_len: if a.is_v6 { 128u8 } else { 32u8 } }
}

/// The network a configured text stands for: the text read as a network,
/// or else as an address, the network of that address alone.
pub open spec fn net_of_text(s: Seq<char>) -> Option<SgIpNet> {
    match ip_net_text_spec(s) {
        Some(n) => Some(n),
        None => match ip_addr_text_spec(s) {
            Some(a) => Some(host_net(a)),
            None => None,
        },
    }
}

/// The networks of the configured texts, in order, leaving out a text that
/// is neither a network nor an address.
pub open spec fn nets_of_texts(rs: Seq<String>) -> Seq<SgIpNet>
    decreases rs.len(),
{
    if rs.len() == 0 {
        Seq::empty()
    } else {
        let p = nets_of_texts(rs.drop_last());
        match net_of_text(rs.last()@) {
            Some(n) => p.push(n),
            None => p,
        }
    }
}

/// Reads a configured text as a network (see [`net_of_text`]).
pub fn ip_net_of_text(s: &str) -> (r: Option<SgIpNet>)
    ensures
        r == net_of_text(s@),
        r matches Some(n) ==> net_wf(n),
{
    match parse_ip_net(s) {
        Some(n) => Some(n),
        None => match parse_ip_addr(s) {
            Some(a) => {
                let bits: u8 = if a.is_v6 { 128 } else { 32 };
                Some(SgIpNet { is_v6: a.is_v6, addr: a.addr, prefix_len: bits })
            },
            None => None,
        },
    }
}

/// The page shown during maintenance, before the title.
pub const PAGE_HEAD: &'static str = "<!DOCTYPE html>\n                <html>\n                <head>\n                    <meta charset=\"UTF-8\" />\n                    <meta name=\"viewport\" content=\"width=device-width, initial-scale=1.0\" />\n                    <meta http-equiv=\"cache-control\" content=\"no-cache, no-store, must-revalidate\" />\n                    <title>";
/// The page between the title in the head and the title in the body.
pub const PAGE_STYLE: &'static str = "</title>\n                    <style>\n                        body {\n                            background: radial-gradient(circle at top left, #FFD700 0%, #FF8C00 25%, #FF4500 50%, #FF6347 75%, #FF1493 100%);\n                            height: 100vh;\n                            display: flex;\n                            justify-content: center;\n                            align-items: center;\n                        }\n                \n                        h1 {\n                            font-size: 40px;\n                            color: #FFFFFF;\n                        }\n                \n                        p {\n                            font-size: 20px;\n                            color: #FFFFFF;\n                            margin-bottom: 20px;\n                        }\n                    </style>\n                </head>\n                <body>\n                    <div>\n                    <h1>";
/// The page between the title and the message.
pub const PAGE_MSG: &'static str = "</h1>\n                    <br>\n                        <p>";
/// The page after the message.
pub const PAGE_TAIL: &'static str = "</p>\n                    </div>\n                </body>\n                </body>\n                </html>\n                ";

/// The maintenance page for a title and message; line breaks written `/n`
/// in the message become `<br>`.
pub open spec fn maintenance_page(title: Seq<char>, msg: Seq<char>) -> Seq<char> {
    PAGE_HEAD@ + title + PAGE_STYLE@ + title + PAGE_MSG@ + replace_spec(msg, seq!['/', 'n'], seq!['<', 'b', 'r', '>']) + PAGE_TAIL@
}

/// The short notice for clients that want neither HTML nor JSON.
pub open spec fn maintenance_notice(title: Seq<char>) -> Seq<char> {
    seq!['<', 'h', '1', '>'] + title + seq!['<', '/', 'h', '1', '>']
}

/// How a request is answered.
#[derive(Debug, Clone)]
pub enum MaintenanceAnswer {
    /// Maintenance does not apply: the request goes on.
    Pass,
    /// An HTML page (`Content-Type: text/html`).
    Html(String),
    /// A refusal with the maintenance message, for JSON clients.
    Forbidden(String),
    /// A short HTML notice in the body.
    Notice(String),
}

/// The comma-separated parts of a header value, as the filter reads them:
/// none without the header, and one empty part when the value is not text.
pub open spec fn header_parts(v: Option<Seq<u8>>) -> Seq<Seq<char>> {
    match v {
        Some(b) => match header_value_text(b) {
            Some(t) => split_spec(t, ','),
            None => split_spec(Seq::<char>::empty(), ','),
        },
        None => Seq::<Seq<char>>::empty(),
    }
}

/// The header value's bytes as plain values.
pub open spec fn opt_value(v: Option<&Vec<u8>>) -> Option<Seq<u8>> {
    match v {
        Some(b) => Some(b@),
        None => None,
    }
}

/// The maintenance filter's settings.
#[derive(Debug, Clone)]
pub struct SgFilterMaintenance {
    /// When maintenance is on; always, when not given.
    pub enabled_time_range: Option<Vec<TimeRange>>,
    /// The networks, as configured, whose requests are let through.
    pub exclude_ip_range: Option<Vec<String>>,
    pub title: String,
    pub msg: String,
    /// The excluded networks, parsed.
    pub exclude_ip_net: Option<Vec<SgIpNet>>,
}

impl Default for SgFilterMaintenance {
    fn default() -> (r: Self)
        ensures
            r.enabled_time_range is None,
            r.exclude_ip_range is None,
            r.exclude_ip_net is None,
            r.title@ == "System Maintenance"@,
            r.msg@ == "We apologize for the inconvenience, but we are currently performing system maintenance. We will be back to normal shortly./n Thank you for your patience, understanding, and support."@,
    {
        SgFilterMaintenance {
            enabled_time_range: None,
            exclude_ip_range: None,
            title: "System Maintenance".to_string(),
            msg: "We apologize for the inconvenience, but we are currently performing system maintenance. We will be back to normal shortly./n Thank you for your patience, understanding, and support.".to_string(),
            exclude_ip_net: None,
        }
    }
}

/// Whether maintenance is on at `time`: always without time ranges, else
/// when some range holds the time.
pub open spec fn on_at(ranges: Option<Vec<TimeRange>>, time: TimeOfDay) -> bool {
    match ranges {
        None => true,
        Some(rs) => exists|i: int| 0 <= i < rs@.len() && range_contains(#[trigger] rs@[i], time),
    }
}

/// Whether the address is in an excluded network.
pub open spec fn excluded(nets: Option<Vec<SgIpNet>>, ip: SgIpAddr) -> bool {
    match nets {
        None => false,
        Some(ns) => exists|i: int| 0 <= i < ns@.len() && net_contains(#[trigger] ns@[i], ip),
    }
}

/// The excluded networks are well formed.
pub open spec fn nets_wf(nets: Option<Vec<SgIpNet>>) -> bool {
    match nets {
        None => true,
        Some(ns) => forall|i: int| 0 <= i < ns@.len() ==> net_wf(#[trigger] ns@[i]),
    }
}

/// The time of day on the local clock (`chrono::Local::now().time()`). The
/// contract claims only the ranges of the parts; the value depends on the
/// clock and the time zone.
#[verifier::external_body]
fn local_time_of_day() -> (r: TimeOfDay)
    ensures
        r.secs < 86400,
        r.frac < 2_000_000_000,
{
    let now = chrono::Local::now().time();
    TimeOfDay { secs: chrono::Timelike::num_seconds_from_midnight(&now), frac: chrono::Timelike::nanosecond(&now) }
}

/// Whether `parts` holds the text `want`.
fn parts_contain(parts: &Vec<Vec<char>>, want: &str) -> (r: bool)
    ensures
        r == parts@.map_values(|p: Vec<char>| p@).contains(want@),
{
    let w = chars_of(want);
    let ghost mp = parts@.map_values(|p: Vec<char>| p@);
    let mut i: usize = 0;
    while i < parts.len()
        invariant
            i <= parts@.len(),
            w@ == want@,
            mp == parts@.map_values(|p: Vec<char>| p@),
            forall|j: int| 0 <= j < i ==> #[trigger] mp[j] != want@,
        decreases parts.len() - i,
    {
        assert(mp[i as int] == parts@[i as int]@);
        if seq_eq(parts[i].as_slice(), w.as_slice()) {
            return true;
        }
        i = i + 1;
    }
    false
}

/// The comma-separated parts of a header value (see [`header_parts`]).
fn parts_of(v: Option<&Vec<u8>>) -> (r: Vec<Vec<char>>)
    ensures
        r@.map_values(|p: Vec<char>| p@) == header_parts(opt_value(v)),
{
    let r = match v {
        Some(b) => match header_text(b) {
            Some(t) => {
                let c = chars_of(t.as_str());
                split(c.as_slice(), ',')
            },
            None => {
                let e: Vec<char> = Vec::new();
                split(e.as_slice(), ',')
            },
        },
        None => Vec::new(),
    };
    proof {
        match v {
            Some(b) => {
                let t = match header_value_text(b@) {
                    Some(t) => t,
                    None => Seq::<char>::empty(),
                };
                assert(r@.map_values(|p: Vec<char>| p@) =~= split_spec(t, ','));
            },
            None => {
                assert(r@.map_values(|p: Vec<char>| p@) =~= Seq::<Seq<char>>::empty());
            },
        }
    }
    r
}

/// How the filter answers a request at `time` from `remote`, given its
/// `Content-Type` and `Accept` headers: when maintenance is off or the
/// address is excluded the request passes; otherwise a client that sends or
/// accepts `text/html` gets the maintenance page, one that sends or accepts
/// `application/json` is refused with the message, and any other gets the
/// short notice.
pub open spec fn answer_spec(f: SgFilterMaintenance, time: TimeOfDay, remote: SgIpAddr, content_type: Option<Seq<u8>>, accept: Option<Seq<u8>>) -> (bool, Seq<char>) {
    let ct = header_parts(content_type);
    let ac = header_parts(accept);
    if !(on_at(f.enabled_time_range, time) && !excluded(f.exclude_ip_net, remote)) {
        (false, Seq::<char>::empty())
    } else if ct.contains("text/html"@) || ac.contains("text/html"@) {
        (true, maintenance_page(f.title@, f.msg@))
    } else if ct.contains("application/json"@) || ac.contains("application/json"@) {
        (true, f.msg@)
    } else {
        (true, maintenance_notice(f.title@))
    }
}

/// The kind of answer as plain values: 0 pass, 1 page, 2 refusal, 3 notice.
pub open spec fn answer_kind(f: SgFilterMaintenance, time: TimeOfDay, remote: SgIpAddr, content_type: Option<Seq<u8>>, accept: Option<Seq<u8>>) -> int {
    let ct = header_parts(content_type);
    let ac = header_parts(accept);
    if !(on_at(f.enabled_time_range, time) && !excluded(f.exclude_ip_net, remote)) {
        0
    } else if ct.contains("text/html"@) || ac.contains("text/html"@) {
        1
    } else if ct.contains("application/json"@) || ac.contains("application/json"@) {
        2
    } else {
        3
    }
}

impl SgFilterMaintenance {
    /// The filter runs on HTTP requests, not on error responses.
    pub fn accept(&self) -> (r: SgPluginFilterAccept)
        ensures
            r.kind@ == seq![SgPluginFilterKind::Http],
            !r.accept_error_response,
    {
        let mut kind: Vec<SgPluginFilterKind> = Vec::new();
        kind.push(SgPluginFilterKind::Http);
        SgPluginFilterAccept { kind, accept_error_response: false }
    }

    /// Whether maintenance is on at `time`.
    pub fn check_by_time(&self, time: TimeOfDay) -> (r: bool)
        ensures
            r == on_at(self.enabled_time_range, time),
    {
        match &self.enabled_time_range {
            None => true,
            Some(rs) => {
                let mut i: usize = 0;
                while i < rs.len()
                    invariant
                        i <= rs@.len(),
                        self.enabled_time_range == Some(*rs),
                        forall|j: int| 0 <= j < i ==> !range_contains(#[trigger] rs@[j], time),
                    decreases rs.len() - i,
                {
                    let r = rs[i];
                    let c = if time_lt_exec(r.end, r.start) {
                        !(!time_lt_exec(time, r.end) && time_lt_exec(time, r.start))
                    } else {
                        !time_lt_exec(time, r.start) && time_lt_exec(time, r.end)
                    };
                    if c {
                        assert(range_contains(rs@[i as int], time));
                        assert(self.enabled_time_range->0@[i as int] == rs@[i as int]);
                        assert(on_at(self.enabled_time_range, time));
                        return true;
                    }
                    i = i + 1;
                }
                false
            },
        }
    }

    /// Whether maintenance is on now, by the local clock.
    pub fn check_by_now(&self) -> (r: bool)
        ensures
            exists|t: TimeOfDay| r == on_at(self.enabled_time_range, t),
    {
        let t = local_time_of_day();
        self.check_by_time(t)
    }

    /// Reads the configured excluded ranges into networks, in order,
    /// leaving out a text that is neither a network nor an address; without
    /// configured ranges nothing changes.
    pub fn init(&mut self)
        ensures
            final(self).enabled_time_range == old(self).enabled_time_range,
            final(self).exclude_ip_range == old(self).exclude_ip_range,
            final(self).title == old(self).title,
            final(self).msg == old(self).msg,
            match old(self).exclude_ip_range {
                None => final(self).exclude_ip_net == old(self).exclude_ip_net,
                Some(rs) => final(self).exclude_ip_net matches Some(ns) && ns@ == nets_of_texts(rs@),
            },
            old(self).exclude_ip_range is Some ==> nets_wf(final(self).exclude_ip_net),
    {
        let nets: Option<Vec<SgIpNet>> = match &self.exclude_ip_range {
            None => None,
            Some(rs) => {
                let mut out: Vec<SgIpNet> = Vec::new();
                let mut i: usize = 0;
                while i < rs.len()
                    invariant
                        i <= rs@.len(),
                        out@ == nets_of_texts(rs@.take(i as int)),
                        forall|j: int| 0 <= j < out@.len() ==> net_wf(#[trigger] out@[j]),
                    decreases rs.len() - i,
                {
                    proof {
                        assert(rs@.take(i + 1).drop_last() =~= rs@.take(i as int));
                        assert(rs@.take(i + 1).last() == rs@[i as int]);
                    }
                    match ip_net_of_text(rs[i].as_str()) {
                        Some(n) => out.push(n),
                        None => {},
                    }
                    i = i + 1;
                }
                assert(rs@.take(rs@.len() as int) =~= rs@);
                Some(out)
            },
        };
        if nets.is_some() {
            self.exclude_ip_net = nets;
        }
    }

    /// Whether the address is in one of the excluded networks.
    pub fn check_ip(&self, ip: &SgIpAddr) -> (r: bool)
        requires
            nets_wf(self.exclude_ip_net),
        ensures
            r == excluded(self.exclude_ip_net, *ip),
    {
        match &self.exclude_ip_net {
            None => false,
            Some(ns) => {
                let mut i: usize = 0;
                while i < ns.len()
                    invariant
                        i <= ns@.len(),
                        self.exclude_ip_net == Some(*ns),
                        forall|j: int| 0 <= j < ns@.len() ==> net_wf(#[trigger] ns@[j]),
                        forall|j: int| 0 <= j < i ==> !net_contains(#[trigger] ns@[j], *ip),
                    decreases ns.len() - i,
                {
                    if ns[i].contains(ip) {
                        assert(net_contains(ns@[i as int], *ip));
                        assert(self.exclude_ip_net->0@[i as int] == ns@[i as int]);
                        assert(excluded(self.exclude_ip_net, *ip));
                        return true;
                    }
                    i = i + 1;
                }
                false
            },
        }
    }

    /// Answers a request at `time` from `remote` (see [`answer_spec`]); when
    /// the request does not pass, the context's action becomes a direct
    /// response.
    pub fn req_filter_at(&self, ctx: &mut SgRoutePluginContext, time: TimeOfDay, remote: &SgIpAddr, content_type: Option<&Vec<u8>>, accept: Option<&Vec<u8>>) -> (r: MaintenanceAnswer)
        requires
            nets_wf(self.exclude_ip_net),
        ensures
            ({
                let k = answer_kind(*self, time, *remote, opt_value(content_type), opt_value(accept));
                let text = answer_spec(*self, time, *remote, opt_value(content_type), opt_value(accept)).1;
                &&& k == 0 ==> r is Pass && *final(ctx) == *old(ctx)
                &&& k == 1 ==> (r matches MaintenanceAnswer::Html(b) && b@ == text)
                &&& k == 2 ==> (r matches MaintenanceAnswer::Forbidden(m) && m@ == text)
                &&& k == 3 ==> (r matches MaintenanceAnswer::Notice(b) && b@ == text)
                &&& k != 0 ==> final(ctx).action_of() == SgRouteFilterRequestAction::Response
                    && final(ctx).exts() == old(ctx).exts()
                    && final(ctx).wf() == old(ctx).wf()
                    && final(ctx).request_of() == old(ctx).request_of()
                    && final(ctx).response_of() == old(ctx).response_of()
            }),
    {
        if !(self.check_by_time(time) && !self.check_ip(remote)) {
            return MaintenanceAnswer::Pass;
        }
        ctx.set_action(SgRouteFilterRequestAction::Response);
        let ct = parts_of(content_type);
        let ac = parts_of(accept);
        if parts_contain(&ct, "text/html") || parts_contain(&ac, "text/html") {
            proof {
                reveal_strlit("/n");
                reveal_strlit("<br>");
            }
            let msg = replace_str(self.msg.as_str(), "/n", "<br>");
            let mut body = String::new();
            body.append(PAGE_HEAD);
            body.append(self.title.as_str());
            body.append(PAGE_STYLE);
            body.append(self.title.as_str());
            body.append(PAGE_MSG);
            body.append(msg.as_str());
            body.append(PAGE_TAIL);
            assert("/n"@ =~= seq!['/', 'n']);
            assert("<br>"@ =~= seq!['<', 'b', 'r', '>']);
            assert(msg@ == replace_spec(self.msg@, seq!['/', 'n'], seq!['<', 'b', 'r', '>']));
            assert(body@ =~= maintenance_page(self.title@, self.msg@));
            MaintenanceAnswer::Html(body)
        } else if parts_contain(&ct, "application/json") || parts_contain(&ac, "application/json") {
            MaintenanceAnswer::Forbidden(self.msg.clone())
        } else {
            let mut body = String::new();
            body.append("<h1>");
            body.append(self.title.as_str());
            body.append("</h1>");
            proof {
                reveal_strlit("<h1>");
                reveal_strlit("</h1>");
            }
            assert(body@ =~= maintenance_notice(self.title@));
            MaintenanceAnswer::Notice(body)
        }
    }
}

/// The header a request names its body's type in.
pub const CONTENT_TYPE: &'static str = "content-type";

/// The header a request names the types it accepts in.
pub const ACCEPT: &'static str = "accept";

/// The type of an HTML body.
pub const TEXT_HTML: &'static str = "text/html";

/// The UTF-8 bytes of a text.
fn bytes_of(s: &str) -> (r: Vec<u8>)
    ensures
        r@ == encode_utf8(s@),
{
    let b = s.as_bytes();
    let mut out: Vec<u8> = Vec::new();
    let mut i: usize = 0;
    while i < b.len()
        invariant
            i <= b@.len(),
            b@ == encode_utf8(s@),
            out@ == b@.take(i as int),
        decreases b.len() - i,
    {
        out.push(b[i]);
        assert(b@.take(i + 1) =~= b@.take(i as int).push(b@[i as int]));
        i = i + 1;
    }
    assert(b@.take(b@.len() as int) =~= b@);
    out
}

/// The header names and the HTML type are what `http` accepts.
proof fn lemma_maintenance_texts()
    ensures
        header_name_of(CONTENT_TYPE@) == Some(CONTENT_TYPE@),
        header_value_ok(TEXT_HTML@),
{
    reveal_strlit("content-type");
    reveal_strlit("text/html");
    lemma_lower_dash_name(CONTENT_TYPE@);
}

/// What the filter does with a request at `time` from `remote` (see
/// [`answer_spec`]), reading the request's `Content-Type` and `Accept`: a
/// request that passes goes on untouched; a JSON client is refused
/// (`Forbidden`); any other gets the page or the notice as the body of a
/// direct response (with `Content-Type: text/html` for the page), and the
/// chain stops.
pub open spec fn maintenance_outcome(f: SgFilterMaintenance, ctx: SgRoutePluginContext, time: TimeOfDay, remote: SgIpAddr, r: Result<(bool, SgRoutePluginContext), SgError>) -> bool {
    let hs = ctx.request_of().headers.current()@;
    let ct = header_lookup(hs, CONTENT_TYPE@);
    let ac = header_lookup(hs, ACCEPT@);
    let k = answer_kind(f, time, remote, ct, ac);
    let text = answer_spec(f, time, remote, ct, ac).1;
    if k == 0 {
        r == Ok::<(bool, SgRoutePluginContext), SgError>((true, ctx))
    } else if k == 2 {
        r == Err::<(bool, SgRoutePluginContext), SgError>(SgError::Forbidden)
    } else {
        r matches Ok((cont, c)) && {
            &&& !cont
            &&& c.action_of() == SgRouteFilterRequestAction::Response
            &&& c.response_of().body@ == encode_utf8(text)
            &&& k == 1 ==> values_of(c.response_of().headers.current()@, CONTENT_TYPE@) == seq![encode_utf8(TEXT_HTML@)]
            &&& k == 1 ==> forall|n: Seq<char>| n != CONTENT_TYPE@ ==> #[trigger] values_of(c.response_of().headers.current()@, n) == values_of(ctx.response_of().headers.current()@, n)
            &&& k == 3 ==> c.response_of().headers == ctx.response_of().headers
            &&& c.response_of().status_code == ctx.response_of().status_code
            &&& c.request_of() == ctx.request_of()
            &&& c.exts() == ctx.exts()
            &&& c.wf() == ctx.wf()
        }
    }
}

impl SgFilterMaintenance {
    /// Answers a request from `remote` now, by the local clock (see
    /// [`maintenance_outcome`]).
    pub fn req_filter(&self, _id: &str, ctx: SgRoutePluginContext, remote: &SgIpAddr) -> (r: Result<(bool, SgRoutePluginContext), SgError>)
        requires
            nets_wf(self.exclude_ip_net),
        ensures
            exists|t: TimeOfDay| t.secs < 86400 && #[trigger] maintenance_outcome(*self, ctx, t, *remote, r),
    {
        let ghost c0 = ctx;
        let mut ctx = ctx;
        let time = local_time_of_day();
        let content_type = match header_get(ctx.get_request().get_headers(), CONTENT_TYPE) {
            Some(v) => Some(copy_bytes(v)),
            None => None,
        };
        let accept = match header_get(ctx.get_request().get_headers(), ACCEPT) {
            Some(v) => Some(copy_bytes(v)),
            None => None,
        };
        let answer = self.req_filter_at(&mut ctx, time, remote, content_type.as_ref(), accept.as_ref());
        let r = match answer {
            MaintenanceAnswer::Pass => Ok((true, ctx)),
            MaintenanceAnswer::Forbidden(_) => Err(SgError::Forbidden),
            MaintenanceAnswer::Html(body) => {
                proof {
                    lemma_maintenance_texts();
                }
                let _ = ctx.response_mut().set_header(CONTENT_TYPE, TEXT_HTML);
                ctx.response_mut().set_body(bytes_of(body.as_str()));
                Ok((false, ctx))
            },
            MaintenanceAnswer::Notice(body) => {
                ctx.response_mut().set_body(bytes_of(body.as_str()));
                Ok((false, ctx))
            },
        };
        assert(maintenance_outcome(*self, c0, time, *remote, r));
        r
    }
}

/// Whether time of day `a` comes strictly before `b` (by seconds, then by
/// the fraction of the second).
pub open spec fn earlier(a: TimeOfDay, b: TimeOfDay) -> bool {
    a.secs < b.secs || (a.secs == b.secs && a.frac < b.frac)
}

/// A range whose end comes before its start runs over midnight: it holds
/// every time from its start to midnight and from midnight to its end, and
/// no time from its end up to its start. A range whose end does not come
/// before its start holds the times from its start (included) to its end
/// (excluded).
pub proof fn lemma_range_times(r: TimeRange, t: TimeOfDay)
    ensures
        earlier(r.end, r.start) ==> (range_contains(r, t) <==> (earlier(t, r.end) || !earlier(t, r.start))),
        !earlier(r.end, r.start) ==> (range_contains(r, t) <==> (!earlier(t, r.start) && earlier(t, r.end))),
{
}

/// Maintenance is on at any time that one of the configured ranges holds:
/// in particular, for a range over midnight, at every time from its start
/// on and at every time before its end; and without ranges it is always
/// on.
pub proof fn lemma_maintenance_on_in_range(rs: Vec<TimeRange>, i: int, t: TimeOfDay)
    requires
        0 <= i < rs@.len(),
    ensures
        earlier(rs@[i].end, rs@[i].start) && (!earlier(t, rs@[i].start) || earlier(t, rs@[i].end)) ==> on_at(Some(rs), t),
        !earlier(rs@[i].end, rs@[i].start) && !earlier(t, rs@[i].start) && earlier(t, rs@[i].end) ==> on_at(Some(rs), t),
        on_at(None, t),
{
    lemma_range_times(rs@[i], t);
    let o = Some(rs);
    if range_contains(rs@[i], t) {
        assert(o->0@[i] == rs@[i]);
        assert(range_contains(o->0@[i], t));
        assert(on_at(o, t));
    }
}

/// Maintenance is off at a time that no configured range holds: for
/// ranges all over midnight, at a time from the end up to the start of
/// each.
pub proof fn lemma_maintenance_off_between(rs: Vec<TimeRange>, t: TimeOfDay)
    requires
        forall|i: int| 0 <= i < rs@.len() ==> earlier((#[trigger] rs@[i]).end, rs@[i].start) && !earlier(t, rs@[i].end) && earlier(t, rs@[i].start),
    ensures
        !on_at(Some(rs), t),
{
    assert forall|i: int| 0 <= i < rs@.len() implies !range_contains(#[trigger] rs@[i], t) by {
        lemma_range_times(rs@[i], t);
    }
}

} // verus!
