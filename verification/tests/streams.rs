use creature_sim::rng::GlobalRng;

#[test]
fn forked_streams_are_decorrelated_over_ten_thousand_draws() {
    let mut source = GlobalRng::from_seed(424242);
    let mut a = source.fork();
    let mut b = source.fork();
    let da = a.draw(10000);
    let db = b.draw(10000);
    assert_eq!(da.len(), 10000);
    assert_eq!(db.len(), 10000);
    assert_ne!(da, db);
}

#[test]
fn sibling_forks_from_an_entropy_seeded_source_differ_too() {
    let mut source = GlobalRng::new();
    let mut a = source.fork();
    let mut b = source.fork();
    assert_ne!(a.draw(10000), b.draw(10000));
}

#[test]
fn one_stream_keeps_producing_fresh_values() {
    let mut source = GlobalRng::from_seed(9);
    let mut a = source.fork();
    let first = a.draw(5000);
    let second = a.draw(5000);
    assert_ne!(first, second);
}
