use zkm_core::events::{MemInstrEvent, MemoryReadRecord, MemoryRecordEnum, MemoryWriteRecord};
use zkm_core::memory_instructions::{memory_instruction_row, ByteLookupEvent, ByteOpcode};
use zkm_core::opcode::Opcode;

#[test]
fn signed_byte_load_row() {
    let read = MemoryReadRecord::new(0x1234_8765, 1, 30, 1, 10);
    let event = MemInstrEvent::new(1, 30, 8, 12, Opcode::LB, 0xffff_ff87, 0x200, 1, MemoryRecordEnum::Read(read), 7);
    let (row, lookups) = memory_instruction_row(&event);
    assert_eq!((row.addr_word, row.addr_aligned, row.addr_ls_two_bits), (0x201, 0x200, 1));
    assert!(row.ls_bits_is_one && !row.ls_bits_is_two && !row.ls_bits_is_three);
    assert_eq!(row.unsigned_mem_val, 0x87);
    assert_eq!((row.most_sig_byte, row.most_sig_bit), (0x87, 1));
    assert!(row.mem_value_is_neg);
    assert!(row.is_lb && !row.is_lbu && !row.is_sw);
    assert!(!row.most_sig_bytes_zero);
    assert_eq!(
        lookups,
        vec![
            ByteLookupEvent { opcode: ByteOpcode::AND, a1: 1, a2: 0, b: 0x01, c: 3 },
            ByteLookupEvent { opcode: ByteOpcode::MSB, a1: 1, a2: 0, b: 0x87, c: 0 },
            ByteLookupEvent { opcode: ByteOpcode::U8Range, a1: 0, a2: 0, b: 0x02, c: 0 },
        ]
    );
}

#[test]
fn half_and_partial_word_load_rows() {
    let read = MemoryReadRecord::new(0x1234_8765, 1, 30, 1, 10);
    let lhu = MemInstrEvent::new(1, 30, 8, 12, Opcode::LHU, 0x1234, 0x200, 2, MemoryRecordEnum::Read(read), 0);
    assert_eq!(memory_instruction_row(&lhu).0.unsigned_mem_val, 0x1234);
    let lwl = MemInstrEvent::new(1, 30, 8, 12, Opcode::LWL, 0, 0x200, 1, MemoryRecordEnum::Read(read), 0xaabb_ccdd);
    // LWL at offset 1: the low two bytes of the word move to the top, the rest keeps the register.
    assert_eq!(memory_instruction_row(&lwl).0.unsigned_mem_val, 0x8765_ccdd);
    let lwr = MemInstrEvent::new(1, 30, 8, 12, Opcode::LWR, 0, 0x200, 1, MemoryRecordEnum::Read(read), 0xaabb_ccdd);
    assert_eq!(memory_instruction_row(&lwr).0.unsigned_mem_val, 0xaa12_3487);
}

#[test]
fn store_row_below_the_first_page() {
    let write = MemoryWriteRecord::new(5, 1, 30, 0, 0, 0);
    let event = MemInstrEvent::new(1, 30, 8, 12, Opcode::SW, 5, 0x10, 0, MemoryRecordEnum::Write(write), 5);
    let (row, lookups) = memory_instruction_row(&event);
    assert_eq!(row.unsigned_mem_val, 0);
    assert!(!row.mem_value_is_neg && row.is_sw && row.most_sig_bytes_zero);
    assert_eq!(
        lookups,
        vec![
            ByteLookupEvent { opcode: ByteOpcode::AND, a1: 0, a2: 0, b: 0x10, c: 3 },
            ByteLookupEvent { opcode: ByteOpcode::U8Range, a1: 0, a2: 0, b: 0, c: 0 },
            ByteLookupEvent { opcode: ByteOpcode::LTU, a1: 1, a2: 0, b: 35, c: 0x10 },
        ]
    );
}
