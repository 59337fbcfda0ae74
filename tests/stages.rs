use byte_mutator::{
    ByteMutator, CapacityError, FuzzConfig, Iterations, Mutation, MutationType, Stage,
};

fn flipper(range: Option<(usize, usize)>) -> Mutation {
    Mutation::new(MutationType::BitFlipper { width: 1 }, range)
}

fn stage(iterations: Iterations, mutations: Vec<Mutation>) -> Stage {
    Stage { count: 0, iterations, mutations }
}

#[test]
fn single_tick_limited_one_gives_goo() {
    let mut m = ByteMutator::from_seed(b"foo", 16).unwrap();
    m.add_stage(stage(Iterations::Limited(1), vec![flipper(None)]));
    m.next();
    assert_eq!(m.read(), b"goo");
    assert_eq!(m.remaining_stages(), 0);
}

#[test]
fn per_byte_stage_lasts_three_ticks_on_three_bytes() {
    let mut m = ByteMutator::from_seed(b"foo", 16).unwrap();
    m.add_stage(stage(Iterations::Bytes, vec![flipper(None)]));
    m.next();
    assert_eq!(m.remaining_stages(), 1);
    m.next();
    assert_eq!(m.remaining_stages(), 1);
    m.next();
    assert_eq!(m.remaining_stages(), 0);
}

#[test]
fn limited_ten_leaves_after_exactly_ten_ticks() {
    let mut m = ByteMutator::from_seed(b"foo", 16).unwrap();
    m.add_stage(stage(Iterations::Limited(10), vec![flipper(None)]));
    m.add_stage(stage(Iterations::Unlimited, vec![flipper(None)]));
    for _ in 0..9 {
        m.next();
        assert_eq!(m.remaining_stages(), 2);
    }
    m.next();
    assert_eq!(m.remaining_stages(), 1);
}

#[test]
fn per_bit_stage_lasts_eight_ticks_per_byte() {
    let mut m = ByteMutator::from_seed(b"ab", 16).unwrap();
    m.add_stage(stage(Iterations::Bits, vec![flipper(None)]));
    for _ in 0..15 {
        m.next();
        assert_eq!(m.remaining_stages(), 1);
    }
    m.next();
    assert_eq!(m.remaining_stages(), 0);
}

#[test]
fn ticks_are_not_cumulative() {
    let mut m = ByteMutator::from_seed(b"foo", 16).unwrap();
    m.add_stage(stage(Iterations::Unlimited, vec![flipper(None)]));
    m.next();
    assert_eq!(m.read(), &[0x67, 0x6f, 0x6f]);
    m.next();
    // the first flip is undone before bit 1 is flipped
    assert_eq!(m.read(), &[0x64, 0x6f, 0x6f]);
    for _ in 0..6 {
        m.next();
    }
    // counter 8: bit 0 of the second byte
    m.next();
    assert_eq!(m.read(), &[0x66, 0x6e, 0x6f]);
}

#[test]
fn counter_wraps_over_the_buffer() {
    let mut m = ByteMutator::from_seed(b"foo", 16).unwrap();
    m.add_stage(Stage {
        count: 24,
        iterations: Iterations::Unlimited,
        mutations: vec![flipper(None)],
    });
    m.next();
    assert_eq!(m.read(), b"goo");
}

#[test]
fn next_stage_starts_from_the_seed() {
    let mut m = ByteMutator::from_seed(b"foo", 16).unwrap();
    m.add_stage(stage(Iterations::Limited(1), vec![flipper(None)]));
    m.add_stage(stage(Iterations::Limited(1), vec![flipper(Some((1, 2)))]));
    m.next();
    assert_eq!(m.read(), b"foo");
    assert_eq!(m.remaining_stages(), 1);
    m.next();
    assert_eq!(m.read(), &[0x66, 0x6e, 0x6f]);
    assert_eq!(m.remaining_stages(), 0);
}

#[test]
fn all_mutations_of_a_stage_run_each_tick() {
    let mut m = ByteMutator::from_seed(b"foo", 16).unwrap();
    m.add_stage(stage(
        Iterations::Unlimited,
        vec![flipper(Some((0, 1))), flipper(Some((2, 3)))],
    ));
    m.next();
    assert_eq!(m.read(), &[0x67, 0x6f, 0x6e]);
}

#[test]
fn ranges_past_the_end_are_clamped() {
    let mut m = ByteMutator::from_seed(b"foo", 16).unwrap();
    m.add_stage(stage(Iterations::Unlimited, vec![flipper(Some((2, 100)))]));
    m.next();
    assert_eq!(m.read(), &[0x66, 0x6f, 0x6e]);

    let mut empty = ByteMutator::from_seed(b"foo", 16).unwrap();
    empty.add_stage(stage(Iterations::Unlimited, vec![flipper(Some((7, 9)))]));
    empty.next();
    assert_eq!(empty.read(), b"foo");
}

#[test]
fn empty_queue_is_a_no_op() {
    let mut m = ByteMutator::from_seed(b"foo", 16).unwrap();
    m.next();
    assert_eq!(m.read(), b"foo");
    assert_eq!(m.remaining_stages(), 0);
}

#[test]
fn empty_seed_still_counts_ticks() {
    let mut m = ByteMutator::new();
    m.add_stage(stage(Iterations::Limited(2), vec![flipper(None)]));
    m.next();
    assert_eq!(m.remaining_stages(), 1);
    m.next();
    assert_eq!(m.remaining_stages(), 0);
    assert_eq!(m.read(), b"");
}

#[test]
fn seed_over_capacity_is_rejected() {
    let e = ByteMutator::from_seed(b"hello", 4).unwrap_err();
    assert_eq!(e, CapacityError { needed: 5, capacity: 4 });
    assert!(ByteMutator::from_seed(b"hell", 4).is_ok());
}

#[test]
fn mutate_on_outside_bytes_leaves_counter() {
    let m = ByteMutator::new().with_stages(vec![Stage::new(3, vec![flipper(None)], None)]);
    let mut bytes = vec![0u8, 0u8];
    m.mutate(&mut bytes);
    assert_eq!(bytes, vec![0x08, 0x00]);
    m.mutate(&mut bytes);
    assert_eq!(bytes, vec![0x00, 0x00]);

    let idle = ByteMutator::new();
    idle.mutate(&mut bytes);
    assert_eq!(bytes, vec![0x00, 0x00]);
}

#[test]
fn stage_policies() {
    let mut s = Stage::new(0, vec![], Some(2));
    assert_eq!(s.iterations, Iterations::Limited(2));
    assert!(!s.is_done(5));
    s.next();
    s.next();
    assert_eq!(s.count, 2);
    assert!(s.is_done(5));

    let unlimited = Stage::new(usize::MAX - 1, vec![], None);
    assert_eq!(unlimited.iterations, Iterations::Unlimited);
    assert!(!unlimited.is_done(0));

    let bits = Stage { count: 23, iterations: Iterations::Bits, mutations: vec![] };
    assert!(!bits.is_done(3));
    assert!(Stage { count: 24, ..bits.clone() }.is_done(3));

    let bytes = Stage { count: 2, iterations: Iterations::Bytes, mutations: vec![] };
    assert!(!bytes.is_done(3));
    assert!(bytes.is_done(2));
}

#[test]
fn stage_default_and_add_mutation() {
    let mut s = Stage::default();
    assert_eq!(s.count, 0);
    assert_eq!(s.iterations, Iterations::Unlimited);
    assert!(s.mutations.is_empty());
    s.add_mutation(flipper(None));
    s.add_mutation(flipper(Some((1, 2))));
    assert_eq!(s.mutations, vec![flipper(None), flipper(Some((1, 2)))]);
}

#[test]
fn fuzz_config_default_is_one_unlimited_flipper() {
    let c = FuzzConfig::default();
    assert_eq!(c.stages.len(), 1);
    assert_eq!(c.stages[0].count, 0);
    assert_eq!(c.stages[0].iterations, Iterations::Unlimited);
    assert_eq!(c.stages[0].mutations, vec![flipper(None)]);
}

#[test]
fn with_stages_replaces_queue() {
    let m = ByteMutator::new()
        .with_stages(vec![Stage::default(), Stage::default()])
        .with_stages(vec![Stage::default()]);
    assert_eq!(m.remaining_stages(), 1);
}
