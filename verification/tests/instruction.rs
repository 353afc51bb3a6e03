use chip8::instruction::Instruction;

#[test]
fn test_addr() {
    let inst = Instruction::new(0xDE1A);
    assert_eq!(0xE1A, inst.addr());
}

#[test]
fn test_nibble() {
    let inst = Instruction::new(0xDE1A);
    assert_eq!(0xA, inst.nibble());
}

#[test]
fn test_x() {
    let inst = Instruction::new(0xDE1A);
    assert_eq!(0xE, inst.x());
}

#[test]
fn test_y() {
    let inst = Instruction::new(0xDE1A);
    assert_eq!(0x1, inst.y());
}

#[test]
fn test_byte() {
    let inst = Instruction::new(0xDE1A);
    assert_eq!(0x1A, inst.byte());
}

#[test]
fn test_tuple() {
    let inst = Instruction::new(0xDE1A);
    assert_eq!((0xD, 0xE, 0x1, 0xA), inst.tuple());
}

#[test]
fn test_from_word() {
    let inst = Instruction::from(0x1234);
    assert_eq!(0x1234, inst.instruction);
}
