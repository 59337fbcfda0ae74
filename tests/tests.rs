use byte_mutator::{ByteMutator, FuzzConfig, Iterations, Mutation, MutationType, Stage};

#[test]
fn mutator_from_config() {
    let mut bytes = ByteMutator::new_from_config(FuzzConfig::default());

    for _ in 0..20 {
        bytes.next();
    }

    assert!(bytes.remaining_stages() >= 1);
}

#[test]
fn mutator() {
    let mut bytes = b"foo".to_vec();
    let mutator = ByteMutator::new().with_stages(vec![Stage {
        count: 0,
        iterations: Iterations::Limited(10),
        mutations: vec![Mutation {
            range: None,
            mutation: MutationType::BitFlipper { width: 1 },
        }],
    }]);

    // Bytes in their original state
    assert_eq!(&bytes, b"foo");

    // Perform a single mutation
    mutator.mutate(&mut bytes);

    // We've flipped the first bit (little endian)
    // 0b1100110 -> 0b1100111, 103 -> 102, f -> g
    assert_eq!(&bytes, b"goo");
}

#[test]
fn mutator_stage() {
    let mut byte_mutator = ByteMutator::new();

    byte_mutator.add_stage(Stage::new(
        0,
        vec![Mutation {
            range: None,
            mutation: MutationType::BitFlipper { width: 1 },
        }],
        Some(10),
    ));

    assert_eq!(byte_mutator.remaining_stages(), 1);

    for _ in 0..10 {
        byte_mutator.next();
    }

    assert_eq!(byte_mutator.remaining_stages(), 0);
}
