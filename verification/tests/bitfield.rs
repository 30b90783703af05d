use peerwire::Bitfield;

#[test]
fn test_has_piece() {
    let bitfield = Bitfield(vec![0b01010100, 0b01010100]);
    let outputs = vec![
        false, true, false, true, false, true, false, false, false, true, false, true, false,
        true, false, false, false, false, false, false,
    ];
    for (i, output) in outputs.iter().enumerate() {
        assert_eq!(output, &bitfield.has_piece(i));
    }
}

#[test]
fn test_set_piece() {
    // 5th bit set
    let mut input = Bitfield(vec![0b01010100, 0b01010100]);
    let index = 4;
    let output = Bitfield(vec![0b01011100, 0b01010100]);
    input.set_piece(index);
    assert_eq!(input, output);

    // no-op
    let mut input = Bitfield(vec![0b01010100, 0b01010100]);
    let index = 9;
    let output = Bitfield(vec![0b01010100, 0b01010100]);
    input.set_piece(index);
    assert_eq!(input, output);

    // 16th bit changes
    let mut input = Bitfield(vec![0b01010100, 0b01010100]);
    let index = 15;
    let output = Bitfield(vec![0b01010100, 0b01010101]);
    input.set_piece(index);
    assert_eq!(input, output);

    // 20th bit out-of-range
    let mut input = Bitfield(vec![0b01010100, 0b01010100]);
    let index = 19;
    let output = Bitfield(vec![0b01010100, 0b01010100]);
    input.set_piece(index);
    assert_eq!(input, output);
}

#[test]
fn set_then_has_holds_in_range() {
    for i in 0..16 {
        let mut bf = Bitfield(vec![0x00, 0x00]);
        assert!(!bf.has_piece(i));
        bf.set_piece(i);
        assert!(bf.has_piece(i));
        for j in 0..24 {
            if j != i {
                assert!(!bf.has_piece(j));
            }
        }
    }
}

#[test]
fn out_of_range_never_faults() {
    let mut bf = Bitfield(vec![0xff]);
    assert!(!bf.has_piece(8));
    assert!(!bf.has_piece(usize::MAX));
    bf.set_piece(usize::MAX);
    assert_eq!(bf, Bitfield(vec![0xff]));
}
