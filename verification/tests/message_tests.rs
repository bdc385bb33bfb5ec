use chip8_core::EmuError;

#[test]
fn messages_match_std_formatting() {
    for pc in [0u16, 0xF, 0xFFF, 0x1000, 0xFFFF] {
        assert_eq!(
            EmuError::PcOutOfBounds { pc }.message(),
            format!("program counter out of bounds: {pc:#05x}")
        );
    }
    for (addr, len) in [(0usize, 0usize), (0xFFF, 3), (0x12345, 987654321), (5, 10)] {
        assert_eq!(
            EmuError::MemoryOutOfBounds { addr, len }.message(),
            format!("memory access out of bounds: addr={addr:#05x}, len={len}")
        );
    }
    assert_eq!(EmuError::StackOverflow.message(), "stack overflow");
    assert_eq!(EmuError::StackUnderflow.message(), "stack underflow");
    for key in [0u8, 0x10, 0xAB, 0xFF] {
        assert_eq!(
            EmuError::InvalidKey { key }.message(),
            format!("invalid key register value: {key:#04x}")
        );
    }
    for opcode in [0u16, 0x1, 0xFFFF, 0x0ABC] {
        assert_eq!(
            EmuError::UnknownOpcode { opcode }.message(),
            format!("unknown opcode: {opcode:04x}")
        );
    }
}

#[test]
fn message_examples() {
    assert_eq!(EmuError::PcOutOfBounds { pc: 0xFFF }.message(), "program counter out of bounds: 0xfff");
    assert_eq!(
        EmuError::MemoryOutOfBounds { addr: 0xFFF, len: 3 }.message(),
        "memory access out of bounds: addr=0xfff, len=3"
    );
    assert_eq!(EmuError::InvalidKey { key: 0x10 }.message(), "invalid key register value: 0x10");
    assert_eq!(EmuError::UnknownOpcode { opcode: 0xF }.message(), "unknown opcode: 000f");
}
