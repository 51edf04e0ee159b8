use aicortex_store::erasure::{
    check_erasure_batch, derivatives, erasure_lease_key, nonnegative, planned, Derivative, Eraser,
};
use aicortex_store::error::Error;
use aicortex_store::scope::{Scope, ScopeId};

#[test]
fn the_sweep_names_every_table_a_later_spec_will_add() {
    // An entry that gets dropped rather than moved would leave a table that
    // is created later never swept.
    let planned = planned();
    let swept = derivatives();
    let tables: Vec<&str> = planned.iter().map(|planned| planned.table).collect();
    assert!(tables.contains(&"chunk"), "the chunks");
    assert!(tables.contains(&"embedding"), "the vectors");
    assert!(tables.contains(&"chunk_token"), "the index entries");
    for planned in &planned {
        assert!(
            !swept.contains(planned),
            "{} is in both lists: it was copied rather than moved",
            planned.table
        );
    }
    // And registering one is what makes it swept.
    let eraser = Eraser::new().also(Derivative::new("chunk", "memory_id", "scope_id"));
    assert_eq!(eraser.derivatives().len(), swept.len() + 1);
    // Twice is once.
    let eraser = eraser.also(Derivative::new("chunk", "memory_id", "scope_id"));
    assert_eq!(eraser.derivatives().len(), swept.len() + 1);
}

#[test]
fn registering_a_swept_table_again_changes_nothing() {
    let first = derivatives()[0];
    let eraser = Eraser::new().also(first);
    assert_eq!(eraser.derivatives().len(), derivatives().len());
    assert_eq!(eraser.derivatives(), derivatives().as_slice());
}

#[test]
fn a_new_derivative_is_swept_last() {
    let added = Derivative::new("embedding", "memory_id", "scope_id");
    let eraser = Eraser::new().also(added);
    assert_eq!(eraser.derivatives().last(), Some(&added));
}

#[test]
fn an_erasure_batch_outside_its_bounds_is_refused() {
    assert!(matches!(check_erasure_batch(0), Err(Error::Validation(_))));
    assert!(matches!(check_erasure_batch(501), Err(Error::Validation(_))));
    assert!(check_erasure_batch(1).is_ok());
    assert!(check_erasure_batch(500).is_ok());
}

#[test]
fn a_negative_count_reads_as_zero() {
    assert_eq!(nonnegative(-5), 0);
    assert_eq!(nonnegative(0), 0);
    assert_eq!(nonnegative(42), 42);
    assert_eq!(nonnegative(i64::MAX), i64::MAX as u64);
}

#[test]
fn the_erasure_lease_is_per_scope() {
    let alice = ScopeId::of(&Scope::personal("sub-alice".to_owned()));
    let bob = ScopeId::of(&Scope::personal("sub-bob".to_owned()));
    let key = erasure_lease_key(&alice);
    assert!(key.ends_with(alice.as_str()));
    assert_ne!(key, erasure_lease_key(&bob));
}
