use spacegate_kernel::functions::http_route::filter_chain::FilterChain;

fn ids(v: &[&str]) -> Vec<String> {
    v.iter().map(|s| s.to_string()).collect()
}

#[test]
fn filter_chain_passes_over_ids_that_ran() {
    // offered in the order: a b (backend), b c (route), a d (gateway)
    let mut c = FilterChain::new(Some(ids(&["a", "b"])), None, ids(&["b", "c"]), ids(&["a", "d"]));
    assert_eq!(c.next(), Some(0));
    assert!(c.ran(true));
    assert_eq!(c.next(), Some(1));
    // the first b declines the request: the second b still gets its turn
    c.skip();
    assert_eq!(c.next(), Some(2));
    assert!(c.ran(true));
    assert_eq!(c.next(), Some(3));
    assert!(c.ran(true));
    // the gateway's a is passed over, as an a already ran
    assert_eq!(c.next(), Some(5));
    assert!(c.ran(true));
    assert_eq!(c.next(), None);
}

#[test]
fn filter_chain_stops_when_asked() {
    let mut c = FilterChain::new(None, Some(ids(&["r"])), ids(&["x"]), vec![]);
    assert_eq!(c.next(), Some(0));
    assert!(!c.ran(false));
    assert_eq!(c.next(), None);
    assert_eq!(c.next(), None);
}

#[test]
fn filter_chain_empty() {
    let mut c = FilterChain::new(None, None, vec![], vec![]);
    assert_eq!(c.next(), None);
}
