use domain_resolver::{AsyncDomainResolver, Domain};

fn numbered_domains(n: usize) -> Vec<String> {
    (0..n).map(|i| format!("name{:03}.com", i)).collect()
}

/// Resolves every batch with a stubbed lookup that always fails, as a
/// driver would, and returns the batch sizes it saw.
fn run_with_failing_stub(r: &mut AsyncDomainResolver) -> Vec<usize> {
    let mut sizes = Vec::new();
    while let Some(batch) = r.next_batch() {
        sizes.push(batch.len());
        let results: Vec<Domain> =
            batch.into_iter().map(|name| Domain::from_lookups(name, false, false)).collect();
        r.record_batch(results);
    }
    sizes
}

#[test]
fn forty_five_domains_make_three_bounded_batches() {
    let mut r = AsyncDomainResolver::new(numbered_domains(45));
    assert_eq!(r.num_batches(), 3);
    let sizes = run_with_failing_stub(&mut r);
    assert_eq!(sizes, vec![20, 20, 5]);
    assert!(sizes.iter().all(|s| *s <= 20));
    assert!(r.is_finished());
}

#[test]
fn exact_multiple_of_the_batch_size_has_no_stub_batch() {
    let mut r = AsyncDomainResolver::new(numbered_domains(40));
    assert_eq!(r.num_batches(), 2);
    let sizes = run_with_failing_stub(&mut r);
    assert_eq!(sizes, vec![20, 20]);
}

#[test]
fn exactly_one_full_batch() {
    let mut r = AsyncDomainResolver::new(numbered_domains(20));
    assert_eq!(r.num_batches(), 1);
    let sizes = run_with_failing_stub(&mut r);
    assert_eq!(sizes, vec![20]);
    assert!(r.is_finished());
}

#[test]
fn one_more_than_a_batch_spills_a_single_domain() {
    let mut r = AsyncDomainResolver::new(numbered_domains(21));
    assert_eq!(r.num_batches(), 2);
    let sizes = run_with_failing_stub(&mut r);
    assert_eq!(sizes, vec![20, 1]);
}

#[test]
fn no_domains_means_no_batches() {
    let mut r = AsyncDomainResolver::new(Vec::new());
    assert_eq!(r.num_batches(), 0);
    assert!(r.next_batch().is_none());
    assert!(r.is_finished());
    let sizes = run_with_failing_stub(&mut r);
    assert!(sizes.is_empty());
}

#[test]
fn failing_stub_records_every_domain_unresolved() {
    let mut r = AsyncDomainResolver::new(numbered_domains(7));
    run_with_failing_stub(&mut r);
    assert_eq!(r.resolved_domains.domains.len(), 7);
    assert!(r.resolved_domains.domains.iter().all(|d| !d.resolved));
}

#[test]
fn results_keep_input_order_across_batch_boundaries() {
    let input = numbered_domains(45);
    let mut r = AsyncDomainResolver::new(input.clone());
    run_with_failing_stub(&mut r);
    let names: Vec<String> = r.resolved_domains.domains.iter().map(|d| d.name.clone()).collect();
    assert_eq!(names, input);
}

#[test]
fn each_domain_is_resolved_exactly_once() {
    let mut r = AsyncDomainResolver::new(numbered_domains(25));
    run_with_failing_stub(&mut r);
    let names: Vec<&String> = r.resolved_domains.domains.iter().map(|d| &d.name).collect();
    for (i, a) in names.iter().enumerate() {
        for (j, b) in names.iter().enumerate() {
            if i != j {
                assert_ne!(a, b);
            }
        }
    }
}

#[test]
fn resolution_policy_is_either_lookup_succeeding() {
    let cases = [
        (false, false, false),
        (true, false, true),
        (false, true, true),
        (true, true, true),
    ];
    for (ipv4, ipv6, expected) in cases {
        let d = Domain::from_lookups(String::from("example.com"), ipv4, ipv6);
        assert_eq!(d.resolved, expected);
        assert_eq!(d.name, "example.com");
    }
}

#[test]
fn mixed_outcomes_are_recorded_as_handed_back() {
    let mut r = AsyncDomainResolver::new(numbered_domains(3));
    let batch = r.next_batch().unwrap();
    assert_eq!(batch.len(), 3);
    let results: Vec<Domain> = batch
        .into_iter()
        .enumerate()
        .map(|(i, name)| Domain::from_lookups(name, i % 2 == 0, false))
        .collect();
    r.record_batch(results);
    assert!(r.is_finished());
    let flags: Vec<bool> = r.resolved_domains.domains.iter().map(|d| d.resolved).collect();
    assert_eq!(flags, vec![true, false, true]);
}
