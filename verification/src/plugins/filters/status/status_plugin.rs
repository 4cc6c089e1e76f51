//! The health status of backends, and the table that holds it.
use vstd::prelude::*;

use crate::keyed::{entries_map, keys_distinct, find_key, put_key, lemma_entries_map_len};
use crate::text::{replace_spec, replace_str};

verus! {

/// The health of a backend: good by default, minor after an error, major
/// after too many errors in the window.
#[derive(Debug, Clone, Copy, PartialEq, Eq, Structural)]
pub enum Status {
    Good,
    Minor,
    Major,
}

impl Default for Status {
    fn default() -> (r: Self)
        ensures
            r == Status::Good,
    {
        Status::Good
    }
}

/// The CSS class a status is shown with on the status page.
pub open spec fn css_class(s: Status) -> Seq<char> {
    match s {
        Status::Good => seq!['g', 'o', 'o', 'd'],
        Status::Minor => seq!['m', 'i', 'n', 'o', 'r'],
        Status::Major => seq!['m', 'a', 'j', 'o', 'r'],
    }
}

impl Status {
    /// The CSS class the status is shown with.
    pub fn to_html_css_class(&self) -> (r: String)
        ensures
            r@ == css_class(*self),
    {
        proof {
            reveal_strlit("good");
            reveal_strlit("minor");
            reveal_strlit("major");
        }
        match self {
            Status::Good => "good".to_string(),
            Status::Minor => "minor".to_string(),
            Status::Major => "major".to_string(),
        }
    }
}

/// The status of each backend, by backend name.
pub struct StatusTable {
    entries: Vec<(String, Status)>,
}

impl StatusTable {
    /// The statuses as a map from backend name.
    pub closed spec fn view_map(&self) -> Map<Seq<char>, Status> {
        entries_map(self.entries@)
    }

    /// The table's invariant: no backend is listed twice.
    pub closed spec fn wf(&self) -> bool {
        keys_distinct(self.entries@)
    }

    /// An empty table.
    pub fn new() -> (r: Self)
        ensures
            r.wf(),
            r.view_map() == Map::<Seq<char>, Status>::empty(),
    {
        let r = StatusTable { entries: Vec::new() };
        assert(r.view_map() =~= Map::<Seq<char>, Status>::empty());
        r
    }

    /// Sets the status of `server_name`.
    pub fn update_status(&mut self, server_name: &str, status: Status)
        requires
            old(self).wf(),
        ensures
            final(self).wf(),
            final(self).view_map() == old(self).view_map().insert(server_name@, status),
    {
        let _ = put_key(&mut self.entries, server_name.to_string(), status);
    }

    /// The status of `server_name`, if it has one.
    pub fn get_status(&self, server_name: &str) -> (r: Option<Status>)
        requires
            self.wf(),
        ensures
            r == (if self.view_map().contains_key(server_name@) {
                Some(self.view_map()[server_name@])
            } else {
                None
            }),
    {
        match find_key(&self.entries, server_name) {
            Some(i) => Some(self.entries[i].1),
            None => None,
        }
    }

    /// Forgets all statuses.
    pub fn clean_status(&mut self)
        ensures
            final(self).wf(),
            final(self).view_map() == Map::<Seq<char>, Status>::empty(),
    {
        self.entries = Vec::new();
        assert(self.view_map() =~= Map::<Seq<char>, Status>::empty());
    }

    /// The backends that have a status, with their statuses, in the order
    /// they were first given one.
    pub fn entries(&self) -> (r: &Vec<(String, Status)>)
        requires
            self.wf(),
        ensures
            keys_distinct(r@),
            entries_map(r@) == self.view_map(),
    {
        &self.entries
    }

    /// The number of backends that have a status.
    pub fn len(&self) -> (r: usize)
        requires
            self.wf(),
        ensures
            r == self.view_map().dom().len(),
    {
        proof {
            lemma_entries_map_len(self.entries@);
        }
        self.entries.len()
    }
}

/// The markup before a backend's name on the status page.
pub const SERVICE_OPEN: &'static str = "<div class=\"service\">\n                            <div class=\"service-name\">";

/// The markup between a backend's name and its status class.
pub const SERVICE_MID: &'static str = "</div>\n                            <div class=\"service-status ";

/// The markup after a backend's status class.
pub const SERVICE_CLOSE: &'static str = "\">Status</div>\n                        </div>";

/// The markup of one backend on the status page.
pub open spec fn service_html(name: Seq<char>, s: Status) -> Seq<char> {
    SERVICE_OPEN@ + name + SERVICE_MID@ + css_class(s) + SERVICE_CLOSE@
}

/// The markup of the backends, one after the other.
pub open spec fn services_html(entries: Seq<(String, Status)>) -> Seq<char>
    decreases entries.len(),
{
    if entries.len() == 0 {
        Seq::empty()
    } else {
        services_html(entries.drop_last()) + service_html(entries.last().0@, entries.last().1)
    }
}

pub open spec fn title_mark() -> Seq<char> {
    seq!['{', 't', 'i', 't', 'l', 'e', '}']
}

pub open spec fn status_mark() -> Seq<char> {
    seq!['{', 's', 't', 'a', 't', 'u', 's', '}']
}

/// The status page: the template with `{title}` replaced by the title, and
/// then `{status}` by the markup of the backends, in the order given.
pub fn create_status_html(template: &str, title: &str, statuses: &Vec<(String, Status)>) -> (r: String)
    ensures
        r@ == replace_spec(replace_spec(template@, title_mark(), title@), status_mark(), services_html(statuses@)),
{
    let mut service_html = String::new();
    let mut i: usize = 0;
    while i < statuses.len()
        invariant
            i <= statuses@.len(),
            service_html@ == services_html(statuses@.take(i as int)),
        decreases statuses.len() - i,
    {
        service_html.append(SERVICE_OPEN);
        service_html.append(statuses[i].0.as_str());
        service_html.append(SERVICE_MID);
        let class = statuses[i].1.to_html_css_class();
        service_html.append(class.as_str());
        service_html.append(SERVICE_CLOSE);
        proof {
            assert(statuses@.take(i + 1).drop_last() =~= statuses@.take(i as int));
            assert(service_html@ =~= services_html(statuses@.take(i + 1)));
        }
        i = i + 1;
    }
    proof {
        assert(statuses@.take(statuses@.len() as int) =~= statuses@);
        reveal_strlit("{title}");
        reveal_strlit("{status}");
        assert("{title}"@ =~= title_mark());
        assert("{status}"@ =~= status_mark());
    }
    let with_title = replace_str(template, "{title}", title);
    replace_str(with_title.as_str(), "{status}", service_html.as_str())
}

} // verus!
