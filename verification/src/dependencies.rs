//! The auxiliary ALU events an instruction's proof depends on ("dependencies"): the
//! additions, comparisons, shifts and multiplications its circuit looks up.
use vstd::prelude::*;

use crate::alu::{mult_signed, signed_product64, spec_ror, two32};
use crate::events::{
    zero_write_record, AluEvent, BranchEvent, CompAluEvent, JumpEvent, MemInstrEvent, MemoryRecord,
    MemoryWriteRecord, MiscEvent, SyscallEvent,
};
use crate::opcode::Opcode;
use crate::utils::{
    abs_int, get_msb, get_quotient_and_remainder, is_signed_operation, signed,
    spec_is_signed_operation, spec_quotient_and_remainder, unsigned_abs, word_of,
};

verus! {

/// The default increment of the program counter.
pub const DEFAULT_PC_INC: u32 = 4;

/// The program counter of events that do not come from the CPU: valid program counters are
/// multiples of 4, so 1 marks an event as auxiliary.
pub const UNUSED_PC: u32 = 1;

/// The instruction events of an execution and the ALU events their proofs depend on, grouped
/// by the chip that proves them.
pub struct InstrsRecord {
    pub add_sub_events: Vec<AluEvent>,
    pub mul_events: Vec<CompAluEvent>,
    pub lt_events: Vec<AluEvent>,
    pub shift_left_events: Vec<AluEvent>,
    pub shift_right_events: Vec<AluEvent>,
    pub bitwise_events: Vec<AluEvent>,
    pub divrem_events: Vec<CompAluEvent>,
    pub cloclz_events: Vec<AluEvent>,
    pub movcond_events: Vec<AluEvent>,
    pub wsbh_events: Vec<AluEvent>,
    pub memory_instr_events: Vec<MemInstrEvent>,
    pub branch_events: Vec<BranchEvent>,
    pub jump_events: Vec<JumpEvent>,
    pub misc_events: Vec<MiscEvent>,
    pub syscall_events: Vec<SyscallEvent>,
}

/// The lists of an `InstrsRecord` other than the five ALU lists the dependencies extend.
pub open spec fn same_instruction_lists(a: InstrsRecord, b: InstrsRecord) -> bool {
    &&& a.bitwise_events@ == b.bitwise_events@
    &&& a.divrem_events@ == b.divrem_events@
    &&& a.cloclz_events@ == b.cloclz_events@
    &&& a.movcond_events@ == b.movcond_events@
    &&& a.wsbh_events@ == b.wsbh_events@
    &&& a.memory_instr_events@ == b.memory_instr_events@
    &&& a.branch_events@ == b.branch_events@
    &&& a.jump_events@ == b.jump_events@
    &&& a.misc_events@ == b.misc_events@
    &&& a.syscall_events@ == b.syscall_events@
}

/// An auxiliary ALU event with the given operation and operands.
pub open spec fn aux_event(opcode: Opcode, a: u32, b: u32, c: u32) -> AluEvent {
    AluEvent { pc: UNUSED_PC, next_pc: (UNUSED_PC + DEFAULT_PC_INC) as u32, opcode, hi: 0, a, b, c }
}

/// An auxiliary multiplication event.
pub open spec fn aux_mul_event(opcode: Opcode, a: u32, b: u32, c: u32, hi: u32) -> CompAluEvent {
    CompAluEvent {
        clk: 0,
        shard: 0,
        pc: UNUSED_PC,
        next_pc: (UNUSED_PC + DEFAULT_PC_INC) as u32,
        opcode,
        hi,
        a,
        b,
        c,
        hi_record_is_real: false,
        hi_record: zero_write_record(),
    }
}

fn new_aux_event(opcode: Opcode, a: u32, b: u32, c: u32) -> (r: AluEvent)
    ensures
        r == aux_event(opcode, a, b, c),
{
    AluEvent { pc: UNUSED_PC, next_pc: UNUSED_PC + DEFAULT_PC_INC, opcode, hi: 0, a, b, c }
}

fn new_aux_mul_event(opcode: Opcode, a: u32, b: u32, c: u32, hi: u32) -> (r: CompAluEvent)
    ensures
        r == aux_mul_event(opcode, a, b, c, hi),
{
    CompAluEvent {
        clk: 0,
        shard: 0,
        pc: UNUSED_PC,
        next_pc: UNUSED_PC + DEFAULT_PC_INC,
        opcode,
        hi,
        a,
        b,
        c,
        hi_record_is_real: false,
        hi_record: MemoryWriteRecord::zeroed(),
    }
}

impl InstrsRecord {
    /// An empty record.
    pub fn new() -> (r: Self)
        ensures
            r.add_sub_events@ == Seq::<AluEvent>::empty(),
            r.mul_events@ == Seq::<CompAluEvent>::empty(),
            r.lt_events@ == Seq::<AluEvent>::empty(),
            r.shift_left_events@ == Seq::<AluEvent>::empty(),
            r.shift_right_events@ == Seq::<AluEvent>::empty(),
            r.bitwise_events@ == Seq::<AluEvent>::empty(),
            r.divrem_events@ == Seq::<CompAluEvent>::empty(),
            r.cloclz_events@ == Seq::<AluEvent>::empty(),
            r.movcond_events@ == Seq::<AluEvent>::empty(),
            r.wsbh_events@ == Seq::<AluEvent>::empty(),
            r.memory_instr_events@ == Seq::<MemInstrEvent>::empty(),
            r.branch_events@ == Seq::<BranchEvent>::empty(),
            r.jump_events@ == Seq::<JumpEvent>::empty(),
            r.misc_events@ == Seq::<MiscEvent>::empty(),
            r.syscall_events@ == Seq::<SyscallEvent>::empty(),
    {
        InstrsRecord {
            add_sub_events: Vec::new(),
            mul_events: Vec::new(),
            lt_events: Vec::new(),
            shift_left_events: Vec::new(),
            shift_right_events: Vec::new(),
            bitwise_events: Vec::new(),
            divrem_events: Vec::new(),
            cloclz_events: Vec::new(),
            movcond_events: Vec::new(),
            wsbh_events: Vec::new(),
            memory_instr_events: Vec::new(),
            branch_events: Vec::new(),
            jump_events: Vec::new(),
            misc_events: Vec::new(),
            syscall_events: Vec::new(),
        }
    }

    /// Adds a multiplication event.
    pub fn add_mul_event(&mut self, event: CompAluEvent)
        ensures
            final(self).mul_events@ == old(self).mul_events@.push(event),
            final(self).add_sub_events@ == old(self).add_sub_events@,
            final(self).lt_events@ == old(self).lt_events@,
            final(self).shift_left_events@ == old(self).shift_left_events@,
            final(self).shift_right_events@ == old(self).shift_right_events@,
            same_instruction_lists(*old(self), *final(self)),
    {
        self.mul_events.push(event);
    }
}

/// The record `r` with `add_sub`, `mul`, `lt`, `shl` and `shr` appended to its event lists.
pub open spec fn appended(
    old_r: InstrsRecord,
    new_r: InstrsRecord,
    add_sub: Seq<AluEvent>,
    mul: Seq<CompAluEvent>,
    lt: Seq<AluEvent>,
    shl: Seq<AluEvent>,
    shr: Seq<AluEvent>,
) -> bool {
    &&& new_r.add_sub_events@ == old_r.add_sub_events@ + add_sub
    &&& new_r.mul_events@ == old_r.mul_events@ + mul
    &&& new_r.lt_events@ == old_r.lt_events@ + lt
    &&& new_r.shift_left_events@ == old_r.shift_left_events@ + shl
    &&& new_r.shift_right_events@ == old_r.shift_right_events@ + shr
    &&& same_instruction_lists(old_r, new_r)
}

// ---------------------------------------------------------------------------------------------
// Division and remainder.
// ---------------------------------------------------------------------------------------------

/// The 64-bit product of the quotient and the divisor, as (low word, high word): two's
/// complement for signed division, plain for unsigned.
pub open spec fn divrem_product(quotient: u32, c: u32, signed_op: bool) -> (u32, u32) {
    let p = if signed_op { signed_product64(quotient, c) } else { quotient * c };
    ((p % two32()) as u32, (p / two32()) as u32)
}

/// The additions that check the absolute values of a signed division's negative operands.
pub open spec fn divrem_add_events(event: AluEvent) -> Seq<AluEvent> {
    let (q, rem) = spec_quotient_and_remainder(event.b, event.c, event.opcode);
    let s = spec_is_signed_operation(event.opcode);
    let c_part = if s && event.c >= 0x8000_0000 {
        seq![aux_event(Opcode::ADD, 0, event.c, abs_int(signed(event.c)) as u32)]
    } else {
        Seq::<AluEvent>::empty()
    };
    let r_part = if s && rem >= 0x8000_0000 {
        seq![aux_event(Opcode::ADD, 0, rem, abs_int(signed(rem)) as u32)]
    } else {
        Seq::<AluEvent>::empty()
    };
    c_part + r_part
}

/// The multiplication that checks `quotient * c`.
pub open spec fn divrem_mul_event(event: AluEvent) -> CompAluEvent {
    let (q, rem) = spec_quotient_and_remainder(event.b, event.c, event.opcode);
    let s = spec_is_signed_operation(event.opcode);
    let (lo, hi) = divrem_product(q, event.c, s);
    aux_mul_event(if s { Opcode::MULT } else { Opcode::MULTU }, lo, q, event.c, hi)
}

/// The comparison that checks `|remainder| < max(1, |c|)`, present when the divisor is nonzero.
pub open spec fn divrem_lt_events(event: AluEvent) -> Seq<AluEvent> {
    let (q, rem) = spec_quotient_and_remainder(event.b, event.c, event.opcode);
    let s = spec_is_signed_operation(event.opcode);
    let abs_rem: u32 = if s { abs_int(signed(rem)) as u32 } else { rem };
    let abs_c: u32 = if s { abs_int(signed(event.c)) as u32 } else { event.c };
    let bound: u32 = if abs_c > 1 { abs_c } else { 1 };
    if event.c != 0 {
        seq![aux_event(Opcode::SLTU, 1, abs_rem, bound)]
    } else {
        Seq::<AluEvent>::empty()
    }
}

/// Emits the dependencies for division and remainder operations.
pub fn emit_divrem_dependencies(instrs_record: &mut InstrsRecord, event: AluEvent)
    ensures
        appended(
            *old(instrs_record),
            *final(instrs_record),
            divrem_add_events(event),
            seq![divrem_mul_event(event)],
            divrem_lt_events(event),
            Seq::empty(),
            Seq::empty(),
        ),
{
    let ghost old_add = instrs_record.add_sub_events@;
    let (quotient, remainder) = get_quotient_and_remainder(event.b, event.c, event.opcode);
    let c_msb = get_msb(event.c);
    let rem_msb = get_msb(remainder);
    let mut c_neg = 0u32;
    let mut rem_neg = 0u32;
    let is_signed = is_signed_operation(event.opcode);
    if is_signed {
        c_neg = c_msb;
        rem_neg = rem_msb;
    }
    if c_neg == 1 {
        let e = new_aux_event(Opcode::ADD, 0, event.c, unsigned_abs(event.c));
        instrs_record.add_sub_events.push(e);
    }
    if rem_neg == 1 {
        let e = new_aux_event(Opcode::ADD, 0, remainder, unsigned_abs(remainder));
        instrs_record.add_sub_events.push(e);
    }
    assert(instrs_record.add_sub_events@ =~= old_add + divrem_add_events(event));

    let (lower_word, upper_word) = if is_signed {
        let p = mult_signed(quotient, event.c);
        ((p % 0x1_0000_0000u64) as u32, (p / 0x1_0000_0000u64) as u32)
    } else {
        proof {
            crate::misc::lemma_product_bound(quotient, event.c);
        }
        let p = (quotient as u64) * (event.c as u64);
        ((p % 0x1_0000_0000u64) as u32, (p / 0x1_0000_0000u64) as u32)
    };
    proof {
        let p = if is_signed { signed_product64(quotient, event.c) } else { quotient * event.c };
        assert(p / two32() < two32()) by (nonlinear_arith)
            requires
                0 <= p < 0x1_0000_0000_0000_0000,
        ;
        if !is_signed {
            crate::misc::lemma_product_bound(quotient, event.c);
        }
    }
    let multiplication = new_aux_mul_event(
        if is_signed { Opcode::MULT } else { Opcode::MULTU },
        lower_word,
        event.c,
        quotient,
        upper_word,
    );
    let multiplication = CompAluEvent { b: quotient, c: event.c, ..multiplication };
    instrs_record.mul_events.push(multiplication);

    let lt_event = if is_signed {
        let abs_c = unsigned_abs(event.c);
        new_aux_event(Opcode::SLTU, 1, unsigned_abs(remainder), if abs_c > 1 { abs_c } else { 1 })
    } else {
        new_aux_event(Opcode::SLTU, 1, remainder, if event.c > 1 { event.c } else { 1 })
    };
    if event.c != 0 {
        instrs_record.lt_events.push(lt_event);
    }
    assert(multiplication == divrem_mul_event(event));
    assert(instrs_record.mul_events@ =~= old(instrs_record).mul_events@ + seq![divrem_mul_event(event)]);
    assert(instrs_record.lt_events@ =~= old(instrs_record).lt_events@ + divrem_lt_events(event));
    assert(instrs_record.shift_left_events@ =~= old(instrs_record).shift_left_events@ + Seq::<AluEvent>::empty());
    assert(instrs_record.shift_right_events@ =~= old(instrs_record).shift_right_events@ + Seq::<AluEvent>::empty());
}

// ---------------------------------------------------------------------------------------------
// Count leading zeros / ones.
// ---------------------------------------------------------------------------------------------

/// The word whose leading zeros a CLZ/CLO event counts.
pub open spec fn cloclz_operand(event: AluEvent) -> u32 {
    if event.opcode is CLZ {
        event.b
    } else {
        !event.b
    }
}

/// The shift that checks the count: the operand shifted right by `31 - a` (present when the
/// operand is nonzero).
pub open spec fn cloclz_events(event: AluEvent) -> Seq<AluEvent> {
    let b = cloclz_operand(event);
    if b != 0 {
        seq![aux_event(Opcode::SRL, b >> (31 - event.a) as u32, b, (31 - event.a) as u32)]
    } else {
        Seq::<AluEvent>::empty()
    }
}

/// Emits the dependencies for clo and clz operations.
pub fn emit_cloclz_dependencies(instrs_record: &mut InstrsRecord, event: AluEvent)
    requires
        cloclz_operand(event) != 0 ==> event.a <= 31,
    ensures
        appended(
            *old(instrs_record),
            *final(instrs_record),
            Seq::empty(),
            Seq::empty(),
            Seq::empty(),
            Seq::empty(),
            cloclz_events(event),
        ),
{
    let b = if matches!(event.opcode, Opcode::CLZ) { event.b } else { !event.b };
    if b != 0 {
        let srl_event = new_aux_event(Opcode::SRL, b >> (31 - event.a), b, 31 - event.a);
        instrs_record.shift_right_events.push(srl_event);
    }
    assert(instrs_record.add_sub_events@ =~= old(instrs_record).add_sub_events@ + Seq::<AluEvent>::empty());
    assert(instrs_record.mul_events@ =~= old(instrs_record).mul_events@ + Seq::<CompAluEvent>::empty());
    assert(instrs_record.lt_events@ =~= old(instrs_record).lt_events@ + Seq::<AluEvent>::empty());
    assert(instrs_record.shift_left_events@ =~= old(instrs_record).shift_left_events@ + Seq::<AluEvent>::empty());
    assert(instrs_record.shift_right_events@ =~= old(instrs_record).shift_right_events@ + cloclz_events(event));
}

} // verus!

verus! {

// ---------------------------------------------------------------------------------------------
// Memory instructions.
// ---------------------------------------------------------------------------------------------

/// The unsigned value a signed load reads before extension, and the sign offset (256 or 65536)
/// subtracted when its top bit is set.
pub open spec fn signed_load_parts(opcode: Opcode, mem_value: u32, addr_offset: u32) -> (u32, u32, u32) {
    if opcode is LB {
        let byte = (mem_value >> (addr_offset * 8) as u32) & 0xff;
        (byte, byte, 256)
    } else {
        let half = if (addr_offset >> 1u32) % 2 == 0 {
            mem_value & 0x0000_ffff
        } else {
            (mem_value & 0xffff_0000) >> 16u32
        };
        (half, (half >> 8u32) & 0xff, 65536)
    }
}

/// The events a memory instruction depends on: the address addition, and for a signed load
/// whose value is negative, the subtraction of the sign offset.
pub open spec fn memory_add_sub_events(event: MemInstrEvent, memory_record: MemoryRecord) -> Seq<AluEvent> {
    let addr = word_of(event.b + event.c);
    let add = aux_event(Opcode::ADD, addr, event.b, event.c);
    let (unsigned_val, top_byte, sign_value) = signed_load_parts(event.opcode, memory_record.value, addr % 4);
    if (event.opcode is LB || event.opcode is LH) && (top_byte >> 7u32) & 1 == 1 {
        seq![add, aux_event(Opcode::SUB, event.a, unsigned_val, sign_value)]
    } else {
        seq![add]
    }
}

/// Emit the dependencies for memory instructions.
pub fn emit_memory_dependencies(instrs_record: &mut InstrsRecord, event: MemInstrEvent, memory_record: MemoryRecord)
    ensures
        appended(
            *old(instrs_record),
            *final(instrs_record),
            memory_add_sub_events(event, memory_record),
            Seq::empty(),
            Seq::empty(),
            Seq::empty(),
            Seq::empty(),
        ),
{
    let memory_addr = event.b.wrapping_add(event.c);
    let add_event = new_aux_event(Opcode::ADD, memory_addr, event.b, event.c);
    instrs_record.add_sub_events.push(add_event);
    let addr_offset = memory_addr % 4;
    let mem_value = memory_record.value;
    if matches!(event.opcode, Opcode::LB | Opcode::LH) {
        let (unsigned_mem_val, most_sig_byte, sign_value) = if matches!(event.opcode, Opcode::LB) {
            let byte = (mem_value >> (addr_offset * 8)) & 0xff;
            (byte, byte, 256u32)
        } else {
            let half = if (addr_offset >> 1u32) % 2 == 0 {
                mem_value & 0x0000_ffff
            } else {
                (mem_value & 0xffff_0000) >> 16u32
            };
            (half, (half >> 8u32) & 0xff, 65536u32)
        };
        if (most_sig_byte >> 7u32) & 1 == 1 {
            let sub_event = new_aux_event(Opcode::SUB, event.a, unsigned_mem_val, sign_value);
            instrs_record.add_sub_events.push(sub_event);
        }
    }
    assert(instrs_record.add_sub_events@ =~= old(instrs_record).add_sub_events@ + memory_add_sub_events(event, memory_record));
    assert(instrs_record.mul_events@ =~= old(instrs_record).mul_events@ + Seq::<CompAluEvent>::empty());
    assert(instrs_record.lt_events@ =~= old(instrs_record).lt_events@ + Seq::<AluEvent>::empty());
    assert(instrs_record.shift_left_events@ =~= old(instrs_record).shift_left_events@ + Seq::<AluEvent>::empty());
    assert(instrs_record.shift_right_events@ =~= old(instrs_record).shift_right_events@ + Seq::<AluEvent>::empty());
}

// ---------------------------------------------------------------------------------------------
// Branches and jumps.
// ---------------------------------------------------------------------------------------------

/// Whether a branch event's condition holds.
pub open spec fn branch_taken(event: BranchEvent) -> bool {
    let a_eq_b = event.a == event.b;
    let a_lt_b = signed(event.a) < signed(event.b);
    let a_gt_b = signed(event.a) > signed(event.b);
    match event.opcode {
        Opcode::BEQ => a_eq_b,
        Opcode::BNE => !a_eq_b,
        Opcode::BLTZ => a_lt_b,
        Opcode::BLEZ => a_lt_b || a_eq_b,
        Opcode::BGTZ => a_gt_b,
        _ => a_eq_b || a_gt_b,
    }
}

/// The two signed comparisons a branch depends on.
pub open spec fn branch_lt_events(event: BranchEvent) -> Seq<AluEvent> {
    seq![
        aux_event(Opcode::SLT, if signed(event.a) < signed(event.b) { 1 } else { 0 }, event.a, event.b),
        aux_event(Opcode::SLT, if signed(event.a) > signed(event.b) { 1 } else { 0 }, event.b, event.a),
    ]
}

/// The target addition of a taken branch.
pub open spec fn branch_add_events(event: BranchEvent) -> Seq<AluEvent> {
    if branch_taken(event) {
        seq![aux_event(Opcode::ADD, event.next_next_pc, event.next_pc, event.c)]
    } else {
        Seq::<AluEvent>::empty()
    }
}

fn signed_lt(x: u32, y: u32) -> (r: bool)
    ensures
        r == (signed(x) < signed(y)),
{
    if (x >= 0x8000_0000) == (y >= 0x8000_0000) {
        x < y
    } else {
        x >= 0x8000_0000
    }
}

/// Emit the dependencies for branch instructions.
pub fn emit_branch_dependencies(instrs_record: &mut InstrsRecord, event: BranchEvent)
    requires
        event.opcode is BEQ || event.opcode is BNE || event.opcode is BLTZ || event.opcode is BLEZ
            || event.opcode is BGTZ || event.opcode is BGEZ,
    ensures
        appended(
            *old(instrs_record),
            *final(instrs_record),
            branch_add_events(event),
            Seq::empty(),
            branch_lt_events(event),
            Seq::empty(),
            Seq::empty(),
        ),
{
    let a_eq_b = event.a == event.b;
    let a_lt_b = signed_lt(event.a, event.b);
    let a_gt_b = signed_lt(event.b, event.a);
    let lt_comp_event = new_aux_event(Opcode::SLT, if a_lt_b { 1 } else { 0 }, event.a, event.b);
    let gt_comp_event = new_aux_event(Opcode::SLT, if a_gt_b { 1 } else { 0 }, event.b, event.a);
    instrs_record.lt_events.push(lt_comp_event);
    instrs_record.lt_events.push(gt_comp_event);
    let branching = match event.opcode {
        Opcode::BEQ => a_eq_b,
        Opcode::BNE => !a_eq_b,
        Opcode::BLTZ => a_lt_b,
        Opcode::BLEZ => a_lt_b || a_eq_b,
        Opcode::BGTZ => a_gt_b,
        _ => a_eq_b || a_gt_b,
    };
    if branching {
        let add_event = new_aux_event(Opcode::ADD, event.next_next_pc, event.next_pc, event.c);
        instrs_record.add_sub_events.push(add_event);
    }
    assert(instrs_record.add_sub_events@ =~= old(instrs_record).add_sub_events@ + branch_add_events(event));
    assert(instrs_record.mul_events@ =~= old(instrs_record).mul_events@ + Seq::<CompAluEvent>::empty());
    assert(instrs_record.lt_events@ =~= old(instrs_record).lt_events@ + branch_lt_events(event));
    assert(instrs_record.shift_left_events@ =~= old(instrs_record).shift_left_events@ + Seq::<AluEvent>::empty());
    assert(instrs_record.shift_right_events@ =~= old(instrs_record).shift_right_events@ + Seq::<AluEvent>::empty());
}

/// The target addition of a PC-relative jump.
pub open spec fn jump_add_events(event: JumpEvent) -> Seq<AluEvent> {
    if event.opcode is JumpDirect {
        seq![aux_event(Opcode::ADD, word_of(event.next_pc + event.b), event.next_pc, event.b)]
    } else {
        Seq::<AluEvent>::empty()
    }
}

/// Emit the dependencies for jump instructions.
pub fn emit_jump_dependencies(instrs_record: &mut InstrsRecord, event: JumpEvent)
    requires
        event.opcode is Jump || event.opcode is Jumpi || event.opcode is JumpDirect,
    ensures
        appended(
            *old(instrs_record),
            *final(instrs_record),
            jump_add_events(event),
            Seq::empty(),
            Seq::empty(),
            Seq::empty(),
            Seq::empty(),
        ),
{
    if matches!(event.opcode, Opcode::JumpDirect) {
        let target_pc = event.next_pc.wrapping_add(event.b);
        let add_event = new_aux_event(Opcode::ADD, target_pc, event.next_pc, event.b);
        instrs_record.add_sub_events.push(add_event);
    }
    assert(instrs_record.add_sub_events@ =~= old(instrs_record).add_sub_events@ + jump_add_events(event));
    assert(instrs_record.mul_events@ =~= old(instrs_record).mul_events@ + Seq::<CompAluEvent>::empty());
    assert(instrs_record.lt_events@ =~= old(instrs_record).lt_events@ + Seq::<AluEvent>::empty());
    assert(instrs_record.shift_left_events@ =~= old(instrs_record).shift_left_events@ + Seq::<AluEvent>::empty());
    assert(instrs_record.shift_right_events@ =~= old(instrs_record).shift_right_events@ + Seq::<AluEvent>::empty());
}

} // verus!

verus! {

// ---------------------------------------------------------------------------------------------
// Misc instructions.
// ---------------------------------------------------------------------------------------------

/// Rotation of a word to the right by `n < 32` bit positions.
pub fn rotate_right(x: u32, n: u32) -> (r: u32)
    requires
        n < 32,
    ensures
        r == spec_ror(x, n),
{
    if n == 0 {
        x
    } else {
        (x >> n) | (x << (32 - n))
    }
}

/// Whether the event of a misc instruction can have its dependencies computed: the bit-field
/// bounds must fit in a word and the recorded result must be the one the shifts reproduce.
pub open spec fn misc_dependencies_defined(event: MiscEvent) -> bool {
    let lsb = event.c & 0x1f;
    let msb = event.c >> 5u32;
    &&& event.opcode is EXT ==> {
        &&& lsb + msb <= 31
        &&& event.a == (event.b << (31 - lsb - msb) as u32) >> (31 - msb) as u32
    }
    &&& event.opcode is INS ==> {
        &&& lsb <= msb <= 31
        &&& msb - lsb + 1 < 32
        &&& event.a == spec_ror(ins_extra_shift(event), (31 - msb) as u32)
    }
}

/// For `INS`: the previous value rotated so that the field starts at bit 0.
pub open spec fn ins_ror_val(event: MiscEvent) -> u32 {
    spec_ror(event.prev_a, event.c & 0x1f)
}

/// For `INS`: the rotated previous value with the field shifted out.
pub open spec fn ins_srl_val(event: MiscEvent) -> u32 {
    ins_ror_val(event) >> ((event.c >> 5u32) - (event.c & 0x1f) + 1) as u32
}

/// For `INS`: the inserted value shifted to the top of the word.
pub open spec fn ins_sll_val(event: MiscEvent) -> u32 {
    event.b << (31 - (event.c >> 5u32) + (event.c & 0x1f)) as u32
}

/// For `INS`: the sum of the two shifted parts.
pub open spec fn ins_extra_shift(event: MiscEvent) -> u32 {
    (ins_srl_val(event) + ins_sll_val(event)) as u32
}

/// The multiplication a multiply-accumulate depends on.
pub open spec fn misc_mul_events(event: MiscEvent) -> Seq<CompAluEvent> {
    if event.opcode is MADDU || event.opcode is MSUBU {
        let p = event.b * event.c;
        seq![aux_mul_event(Opcode::MULTU, (p % two32()) as u32, event.b, event.c, (p / two32()) as u32)]
    } else if event.opcode is MADD || event.opcode is MSUB {
        let p = signed_product64(event.b, event.c);
        seq![aux_mul_event(Opcode::MULT, (p % two32()) as u32, event.b, event.c, (p / two32()) as u32)]
    } else {
        Seq::<CompAluEvent>::empty()
    }
}

/// The left shifts an `EXT` or `INS` depends on.
pub open spec fn misc_shl_events(event: MiscEvent) -> Seq<AluEvent> {
    let lsb = event.c & 0x1f;
    let msb = event.c >> 5u32;
    if event.opcode is EXT {
        let sh = (31 - lsb - msb) as u32;
        seq![aux_event(Opcode::SLL, event.b << sh, event.b, sh)]
    } else if event.opcode is INS {
        seq![aux_event(Opcode::SLL, ins_sll_val(event), event.b, (31 - msb + lsb) as u32)]
    } else {
        Seq::<AluEvent>::empty()
    }
}

/// The right shifts and rotations an `EXT` or `INS` depends on.
pub open spec fn misc_shr_events(event: MiscEvent) -> Seq<AluEvent> {
    let lsb = event.c & 0x1f;
    let msb = event.c >> 5u32;
    if event.opcode is EXT {
        let sh = (31 - lsb - msb) as u32;
        seq![aux_event(Opcode::SRL, event.a, event.b << sh, (31 - msb) as u32)]
    } else if event.opcode is INS {
        seq![
            aux_event(Opcode::ROR, ins_ror_val(event), event.prev_a, lsb),
            aux_event(Opcode::SRL, ins_srl_val(event), ins_ror_val(event), (msb - lsb + 1) as u32),
            aux_event(Opcode::ROR, event.a, ins_extra_shift(event), (31 - msb) as u32),
        ]
    } else {
        Seq::<AluEvent>::empty()
    }
}

/// The addition an `INS` depends on.
pub open spec fn misc_add_events(event: MiscEvent) -> Seq<AluEvent> {
    if event.opcode is INS {
        seq![aux_event(Opcode::ADD, ins_extra_shift(event), ins_srl_val(event), ins_sll_val(event))]
    } else {
        Seq::<AluEvent>::empty()
    }
}

/// Emit the dependencies for misc instructions.
pub fn emit_misc_dependencies(instrs_record: &mut InstrsRecord, event: MiscEvent)
    requires
        misc_dependencies_defined(event),
    ensures
        appended(
            *old(instrs_record),
            *final(instrs_record),
            misc_add_events(event),
            misc_mul_events(event),
            Seq::empty(),
            misc_shl_events(event),
            misc_shr_events(event),
        ),
{
    if matches!(event.opcode, Opcode::MADDU | Opcode::MSUBU) {
        proof {
            crate::misc::lemma_product_bound(event.b, event.c);
            let p = event.b * event.c;
            assert(p / two32() < two32()) by (nonlinear_arith)
                requires
                    0 <= p < 0x1_0000_0000_0000_0000,
            ;
        }
        let multiply = (event.b as u64) * (event.c as u64);
        let mul_hi = (multiply / 0x1_0000_0000u64) as u32;
        let mul_lo = (multiply % 0x1_0000_0000u64) as u32;
        let mul_event = new_aux_mul_event(Opcode::MULTU, mul_lo, event.b, event.c, mul_hi);
        instrs_record.add_mul_event(mul_event);
    } else if matches!(event.opcode, Opcode::MADD | Opcode::MSUB) {
        let multiply = mult_signed(event.b, event.c);
        proof {
            let p = multiply as int;
            assert(p / two32() < two32()) by (nonlinear_arith)
                requires
                    0 <= p < 0x1_0000_0000_0000_0000,
            ;
        }
        let mul_hi = (multiply / 0x1_0000_0000u64) as u32;
        let mul_lo = (multiply % 0x1_0000_0000u64) as u32;
        let mul_event = new_aux_mul_event(Opcode::MULT, mul_lo, event.b, event.c, mul_hi);
        instrs_record.add_mul_event(mul_event);
    } else if matches!(event.opcode, Opcode::EXT) {
        let lsb = event.c & 0x1f;
        let msbd = event.c >> 5u32;
        let sll_val = event.b << (31 - lsb - msbd);
        let sll_event = new_aux_event(Opcode::SLL, sll_val, event.b, 31 - lsb - msbd);
        instrs_record.shift_left_events.push(sll_event);
        let srl_event = new_aux_event(Opcode::SRL, event.a, sll_val, 31 - msbd);
        instrs_record.shift_right_events.push(srl_event);
    } else if matches!(event.opcode, Opcode::INS) {
        let ec = event.c;
        let eb = event.b;
        let lsb = ec & 0x1f;
        let msb = ec >> 5u32;
        assert(lsb < 32) by (bit_vector)
            requires lsb == ec & 0x1f;
        let ror_val = rotate_right(event.prev_a, lsb);
        let ror_event = new_aux_event(Opcode::ROR, ror_val, event.prev_a, lsb);
        instrs_record.shift_right_events.push(ror_event);

        let srl_val = ror_val >> (msb - lsb + 1);
        let srl_event = new_aux_event(Opcode::SRL, srl_val, ror_val, msb - lsb + 1);
        instrs_record.shift_right_events.push(srl_event);

        let sll_val = event.b << (31 - msb + lsb);
        let sll_event = new_aux_event(Opcode::SLL, sll_val, event.b, 31 - msb + lsb);
        instrs_record.shift_left_events.push(sll_event);

        let k = 31 - msb + lsb;
        assert((ror_val >> ((32 - k) as u32)) + (eb << k) <= 0xffff_ffff) by (bit_vector)
            requires
                1 <= k <= 31,
        ;
        assert(msb - lsb + 1 == 32 - k);
        let extra_shift = srl_val + sll_val;
        let add_event = new_aux_event(Opcode::ADD, extra_shift, srl_val, sll_val);
        instrs_record.add_sub_events.push(add_event);

        let ror_event2 = new_aux_event(Opcode::ROR, event.a, extra_shift, 31 - msb);
        instrs_record.shift_right_events.push(ror_event2);
    }
    assert(instrs_record.add_sub_events@ =~= old(instrs_record).add_sub_events@ + misc_add_events(event));
    assert(instrs_record.mul_events@ =~= old(instrs_record).mul_events@ + misc_mul_events(event));
    assert(instrs_record.lt_events@ =~= old(instrs_record).lt_events@ + Seq::<AluEvent>::empty());
    assert(instrs_record.shift_left_events@ =~= old(instrs_record).shift_left_events@ + misc_shl_events(event));
    assert(instrs_record.shift_right_events@ =~= old(instrs_record).shift_right_events@ + misc_shr_events(event));
}

} // verus!
