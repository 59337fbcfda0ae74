use byte_mutator::mutators::bitflipper::BitFlipper;
use byte_mutator::{Mutation, MutationType, UndoBuffer};

#[test]
fn flip_bit() {
    let mut buffer = UndoBuffer::new(b"foo", 1024).unwrap();

    // first bit should flip resulting in 'goo'
    // 0b1100110 -> 0b1100111, 103 -> 102, f -> g
    BitFlipper::mutate(buffer.get_mut(), 0, 1);
    assert_eq!(buffer.read(), b"goo");
}

#[test]
fn flipping_twice_restores() {
    for i in 0..40 {
        let mut bytes = b"foo".to_vec();
        BitFlipper::mutate(&mut bytes, i, 1);
        assert_ne!(&bytes, b"foo");
        BitFlipper::mutate(&mut bytes, i, 1);
        assert_eq!(&bytes, b"foo");
    }
}

#[test]
fn iterations_wrap_around() {
    for k in 0..24 {
        let mut a = b"foo".to_vec();
        let mut b = b"foo".to_vec();
        BitFlipper::mutate(&mut a, 3 * 8 + k, 1);
        BitFlipper::mutate(&mut b, k, 1);
        assert_eq!(a, b);
    }
}

#[test]
fn walks_bits_from_the_low_end() {
    let mut bytes = vec![0u8, 0u8];
    BitFlipper::mutate(&mut bytes, 7, 1);
    assert_eq!(bytes, vec![0x80, 0x00]);
    BitFlipper::mutate(&mut bytes, 10, 1);
    assert_eq!(bytes, vec![0x80, 0x04]);
}

#[test]
fn width_does_not_change_the_flip() {
    let mut a = vec![0u8; 2];
    let mut b = vec![0u8; 2];
    BitFlipper::mutate(&mut a, 5, 1);
    BitFlipper::mutate(&mut b, 5, 4);
    assert_eq!(a, b);
    assert_eq!(a, vec![0x20, 0x00]);
}

#[test]
fn empty_slice_is_left_alone() {
    let mut bytes: Vec<u8> = vec![];
    BitFlipper::mutate(&mut bytes, 5, 1);
    assert!(bytes.is_empty());
}

#[test]
fn mutation_scopes_to_its_range() {
    let mut bytes = b"foo".to_vec();
    let m = Mutation::new(MutationType::BitFlipper { width: 1 }, Some((1, 2)));
    m.mutate(&mut bytes, 0);
    assert_eq!(bytes, vec![0x66, 0x6e, 0x6f]);

    let whole = Mutation { range: None, mutation: MutationType::BitFlipper { width: 1 } };
    let mut bytes = b"foo".to_vec();
    whole.mutate(&mut bytes, 0);
    assert_eq!(&bytes, b"goo");

    let past = Mutation::new(MutationType::BitFlipper { width: 1 }, Some((5, 9)));
    let mut bytes = b"foo".to_vec();
    past.mutate(&mut bytes, 0);
    assert_eq!(&bytes, b"foo");
}

#[test]
fn mutation_type_dispatches_to_flipper() {
    let mut bytes = vec![0u8];
    MutationType::BitFlipper { width: 1 }.mutate(&mut bytes, 3);
    assert_eq!(bytes, vec![0x08]);
}
