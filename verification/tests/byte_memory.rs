use strontium::machine::instruction::MemoryMethod;
use strontium::machine::memory::Memory;

#[test]
fn grow() {
    let mut memory = Memory::new();

    memory.compute(MemoryMethod::GROW { amount: 4 }).unwrap();

    assert_eq!(memory.data.len(), 4)
}

#[test]
fn shrink() {
    let mut memory = Memory::new();

    memory.compute(MemoryMethod::GROW { amount: 4 }).unwrap();
    memory.compute(MemoryMethod::SHRINK { amount: 3 }).unwrap();

    assert_eq!(memory.data.len(), 1)
}

#[test]
fn set() {
    let mut memory = Memory::new();

    memory.compute(MemoryMethod::GROW { amount: 4 }).unwrap();
    memory.compute(MemoryMethod::SET { address: 2, value: 64 }).unwrap();

    assert_eq!(memory.data[2], 64)
}

#[test]
fn set_range() {
    let mut memory = Memory::new();

    memory.compute(MemoryMethod::GROW { amount: 4 }).unwrap();
    memory.compute(MemoryMethod::SET_RANGE { address: 0, values: vec![24, 42, 127, 255] }).unwrap();

    assert_eq!(&memory.data[..], &[24, 42, 127, 255])
}

#[test]
fn unset() {
    let mut memory = Memory::new();

    memory.compute(MemoryMethod::GROW { amount: 4 }).unwrap();
    memory.compute(MemoryMethod::SET { address: 2, value: 111 }).unwrap();
    memory.compute(MemoryMethod::UNSET { address: 2 }).unwrap();

    assert_eq!(memory.data[2], 0)
}

#[test]
fn or() {
    let mut memory = Memory::new();

    memory.compute(MemoryMethod::GROW { amount: 8 }).unwrap();
    memory.compute(MemoryMethod::SET { address: 2, value: 111 }).unwrap();
    memory.compute(MemoryMethod::SET { address: 3, value: 78 }).unwrap();
    memory.compute(MemoryMethod::OR { a: 2, b: 3, out: 4, len: 1 }).unwrap();

    assert_eq!(memory.data[4], 111 | 78)
}

#[test]
fn and() {
    let mut memory = Memory::new();

    memory.compute(MemoryMethod::GROW { amount: 8 }).unwrap();
    memory.compute(MemoryMethod::SET { address: 2, value: 111 }).unwrap();
    memory.compute(MemoryMethod::SET { address: 3, value: 78 }).unwrap();
    memory.compute(MemoryMethod::AND { a: 2, b: 3, out: 4, len: 1 }).unwrap();

    assert_eq!(memory.data[4], 111 & 78)
}

#[test]
fn xor() {
    let mut memory = Memory::new();

    memory.compute(MemoryMethod::GROW { amount: 8 }).unwrap();
    memory.compute(MemoryMethod::SET { address: 2, value: 65 }).unwrap();
    memory.compute(MemoryMethod::SET { address: 3, value: 223 }).unwrap();
    memory.compute(MemoryMethod::XOR { a: 2, b: 3, out: 4, len: 1 }).unwrap();

    assert_eq!(memory.data[4], 65 ^ 223)
}

#[test]
fn not() {
    let mut memory = Memory::new();

    memory.compute(MemoryMethod::GROW { amount: 8 }).unwrap();
    memory.compute(MemoryMethod::SET { address: 2, value: 65 }).unwrap();
    memory.compute(MemoryMethod::SET { address: 3, value: 128 }).unwrap();
    memory.compute(MemoryMethod::NOT { a: 2, out: 4, len: 2 }).unwrap();

    assert_eq!(memory.data[4], !65);
    assert_eq!(memory.data[5], !128);
}

#[test]
fn shift() {
    let mut memory = Memory::new();

    memory.compute(MemoryMethod::GROW { amount: 8 }).unwrap();
    memory.compute(MemoryMethod::SET { address: 2, value: 65 }).unwrap();
    memory.compute(MemoryMethod::SET { address: 4, value: 128 }).unwrap();
    memory.compute(MemoryMethod::LSH { a: 2, out: 3, amount: 2, len: 1 }).unwrap();
    memory.compute(MemoryMethod::RSH { a: 4, out: 5, amount: 6, len: 1 }).unwrap();

    assert_eq!(memory.data[3], 65 << 2);
    assert_eq!(memory.data[5], 128 >> 6);
}

#[test]
fn shrink_past_length_is_out_of_bounds() {
    let mut memory = Memory::new();

    memory.compute(MemoryMethod::GROW { amount: 2 }).unwrap();
    assert_eq!(
        memory.compute(MemoryMethod::SHRINK { amount: 3 }),
        Err(strontium::types::StrontiumError::OutOfBounds)
    );
    assert_eq!(memory.data.len(), 2);
}

#[test]
fn overlapping_and_reads_the_new_bytes() {
    let mut memory = Memory::new();

    memory.grow(4);
    memory.set_range(0, vec![0b1111, 0b0110, 0b0011, 0]);
    // out overlaps the second operand: offset 1 reads the byte that offset 0 wrote.
    memory.compute(MemoryMethod::AND { a: 0, b: 1, out: 2, len: 2 }).unwrap();
    assert_eq!(memory.data, vec![0b1111, 0b0110, 0b0110, 0b0110 & 0b0110]);
}

#[test]
fn range_may_end_at_the_length() {
    let mut memory = Memory::new();
    memory.grow(4);
    memory.set_range(0, vec![1, 2, 3, 4]);
    assert_eq!(memory.range(1..3), Ok(&[2u8, 3u8][..]));
    assert_eq!(memory.range(1..4), Ok(&[2u8, 3u8, 4u8][..]));
    assert_eq!(memory.range(0..4), Ok(&[1u8, 2u8, 3u8, 4u8][..]));
    assert_eq!(memory.range(1..5), Err(strontium::types::StrontiumError::OutOfBounds));
}
