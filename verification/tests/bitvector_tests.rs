use ggpo::bitvector::{clear_bit, read_bit, read_nibblet, set_bit, write_nibblet};

#[test]
fn set_bit_sets_one_bit_and_advances() {
    let mut v = [0u8; 2];
    let mut offset = 3usize;
    set_bit(&mut v, &mut offset);
    assert_eq!(v, [8u8, 0]);
    assert_eq!(offset, 4);
    set_bit(&mut v, &mut offset);
    assert_eq!(v, [24u8, 0]);
    let mut offset = 9usize;
    set_bit(&mut v, &mut offset);
    assert_eq!(v, [24u8, 2]);
    assert_eq!(offset, 10);
}

#[test]
fn clear_bit_clears_only_that_bit() {
    let mut v = [0xffu8, 0xff];
    let mut offset = 0usize;
    clear_bit(&mut v, &mut offset);
    assert_eq!(v, [0xfeu8, 0xff]);
    assert_eq!(offset, 1);
    let mut offset = 15usize;
    clear_bit(&mut v, &mut offset);
    assert_eq!(v, [0xfeu8, 0x7f]);
    assert_eq!(offset, 16);
}

#[test]
fn read_bit_gives_the_masked_byte() {
    let mut v = [0b0000_1010u8];
    let mut offset = 1usize;
    assert_eq!(read_bit(&mut v, &mut offset), 2);
    assert_eq!(offset, 2);
    assert_eq!(read_bit(&mut v, &mut offset), 0);
    assert_eq!(read_bit(&mut v, &mut offset), 8);
    assert_eq!(v, [0b0000_1010u8]);
}

#[test]
fn read_bit_after_set_bit_is_nonzero() {
    let mut v = [0u8; 3];
    for start in 0..24usize {
        let mut w = v;
        let mut offset = start;
        set_bit(&mut w, &mut offset);
        let mut offset = start;
        assert_ne!(read_bit(&mut w, &mut offset), 0);
        let mut offset = start;
        clear_bit(&mut w, &mut offset);
        let mut offset = start;
        assert_eq!(read_bit(&mut w, &mut offset), 0);
    }
    v[0] = 1;
    assert_eq!(v[0], 1);
}

#[test]
fn write_nibblet_writes_low_bits_first() {
    let mut v = [0u8; 3];
    let mut offset = 4usize;
    write_nibblet(&mut v, 0xA5, &mut offset);
    assert_eq!(offset, 12);
    assert_eq!(v, [0x50u8, 0x0A, 0]);
}

#[test]
fn write_nibblet_clears_bits_it_writes_as_zero() {
    let mut v = [0xffu8; 2];
    let mut offset = 0usize;
    write_nibblet(&mut v, 0x0F, &mut offset);
    assert_eq!(v, [0x0Fu8, 0xff]);
}

#[test]
fn read_nibblet_shifts_each_read_value_again() {
    // Each read value is the masked byte, shifted left once more by its
    // position, so a written nibble does not read back as itself.
    for (nibble, expected) in [(1usize, 1i32), (2, 4), (3, 5), (0, 0), (0x80, 0x4000)] {
        let mut v = [0u8; 2];
        let mut offset = 0usize;
        write_nibblet(&mut v, nibble, &mut offset);
        let mut offset = 0usize;
        assert_eq!(read_nibblet(&mut v, &mut offset), expected);
        assert_eq!(offset, 8);
    }
}

#[test]
fn read_nibblet_at_an_odd_offset() {
    let mut v = [0u8; 2];
    let mut offset = 3usize;
    write_nibblet(&mut v, 1, &mut offset);
    let mut offset = 3usize;
    // bit 3 is set: read as 8 and shifted by 0
    assert_eq!(read_nibblet(&mut v, &mut offset), 8);
    assert_eq!(offset, 11);
}
