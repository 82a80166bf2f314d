use strontium::instruction::Instruction as BitInstruction;
use strontium::memory::{Memory, Range};

#[test]
fn mod_grow() {
    let mut mem = Memory::new();

    mem.grow(5);
    assert_eq!(mem.data.len(), 5);
}

#[test]
fn mod_shrink() {
    let mut mem = Memory::new();

    mem.grow(5);
    mem.shrink(3).unwrap();

    assert_eq!(mem.data.len(), 2);
}

#[test]
fn shrink_error_handling() {
    let mut mem = Memory::new();

    mem.grow(5);

    assert_eq!(mem.shrink(6), Err("Cannot shrink to a buffer size lower than zero"))
}

#[test]
fn single_and() {
    let mut mem = Memory::new();

    mem.grow(8);

    mem.data[1] = true;
    mem.data[2] = true;

    let res = mem.single_and(1, 2, 5);

    match res {
        Ok(()) => {},
        Err(string) => println!("ERROR: {}", string),
    }

    assert_eq!(mem.data[5], true)
}

#[test]
fn range_and() {
    let mut mem = Memory::new();

    mem.append(&mut vec![true, true, false, false]);
    mem.append(&mut vec![false, true, false, false]);
    mem.grow(4);

    mem.range_and(Range(0, 3), Range(4, 7), Range(8, 11)).unwrap();

    assert_eq!(mem.data[8..=11], [false, true, false, false])
}

#[test]
fn single_or() {
    let mut mem = Memory::new();

    mem.grow(8);

    mem.data[1] = true;
    mem.data[2] = false;

    let res = mem.single_or(1, 2, 3);

    match res {
        Ok(()) => {},
        Err(string) => println!("ERROR: {}", string),
    }

    assert_eq!(mem.data[3], true)
}

#[test]
fn range_or() {
    let mut mem = Memory::new();

    mem.append(&mut vec![true, true, false, false]);
    mem.append(&mut vec![false, true, false, true]);
    mem.grow(4);
    mem.range_or(Range(0, 3), Range(4, 7), Range(8, 11)).unwrap();

    assert_eq!(mem.data[8..=11], [true, true, false, true])
}

#[test]
fn single_xor() {
    let mut mem = Memory::new();
    mem.grow(7);

    mem.data[1] = true;
    mem.data[2] = true;

    mem.data[4] = true;
    mem.data[5] = false;

    mem.single_xor(1, 2, 3).unwrap();
    mem.single_xor(4, 5, 6).unwrap();

    assert_eq!(mem.data[3], false);
    assert_eq!(mem.data[6], true);
}

#[test]
fn range_xor() {
    let mut mem = Memory::new();

    mem.append(&mut vec![true, true, false, false]);
    mem.append(&mut vec![false, true, false, true]);
    mem.grow(4);

    mem.range_xor(Range(0, 3), Range(4, 7), Range(8, 11)).unwrap();

    assert_eq!(mem.data[8..=11], [true, false, false, true])
}

#[test]
fn single_not() {
    let mut mem = Memory::new();

    mem.grow(8);
    mem.data[3] = true;
    mem.single_not(3, 3).unwrap();

    assert_eq!(mem.data[3], false)
}

#[test]
fn range_not() {
    let mut mem = Memory::new();

    mem.append(&mut vec![true, false, true, true, false, false]);
    mem.grow(6);
    mem.range_not(Range(0, 5), Range(6, 11)).unwrap();

    assert_eq!(mem.data[6..=11], [false, true, false, false, true, true])
}

#[test]
fn single_out_of_bounds_fails() {
    let mut mem = Memory::new();
    mem.grow(2);
    assert_eq!(mem.single_and(0, 1, 2), Err("Target out of bounds"));
    assert_eq!(mem.data, vec![false, false]);
}

#[test]
fn range_stops_at_first_out_of_bounds_offset() {
    let mut mem = Memory::new();
    mem.append(&mut vec![true, true, true, false, false]);
    // the second range starts at 3, so its third bit (5) lies out of bounds
    assert_eq!(mem.range_or(Range(0, 2), Range(3, 4), Range(3, 4)), Err("Target out of bounds"));
    // offsets 0 and 1 were written before the failure: out[3] = 1|0, out[4] = 1|0
    assert_eq!(mem.data, vec![true, true, true, true, true]);
}

#[test]
fn lshift_and_rshift() {
    let mut mem = Memory::new();
    mem.append(&mut vec![true, false, true, true]);
    mem.grow(4);
    mem.lshift(1, Range(0, 4), Range(4, 7)).unwrap();
    assert_eq!(mem.data[4..8], [false, true, true, false]);

    let mut mem = Memory::new();
    mem.append(&mut vec![true, false, true, false]);
    mem.grow(4);
    mem.rshift(2, Range(0, 4), Range(4, 7));
    assert_eq!(mem.data[4..8], [true, true, true, false]);
}

#[test]
fn bit_instruction_bytes() {
    assert_eq!(BitInstruction::from_byte(5), BitInstruction::AND);
    assert_eq!(BitInstruction::from_byte(13), BitInstruction::ILLEGAL);
    assert_eq!(BitInstruction::JUMPIF.to_byte(), 12);
    assert_eq!(BitInstruction::ILLEGAL.to_byte(), 0);
    for b in 0..=12u8 {
        assert_eq!(BitInstruction::from_byte(b).to_byte(), b);
    }
}
