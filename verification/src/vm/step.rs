//! One instruction at a time: `step` reads the word at pc, checks what its
//! handler requires and runs it; `run` steps until the program pauses, ends
//! or hands something out. A float instruction, a print and a request to the
//! code manager go to the caller, which performs them.
use vstd::prelude::*;

use crate::vm::instruction::Op;
use crate::vm::io::{FuId, IoResult, Reactor, head_result, record_all, submitted};
use crate::vm::memory::{VPtr, dealloc_effect, id_of, id_unit, resized};
use crate::vm::numeric::wrap64;
use crate::vm::ops::{Operations, PAUSE, REGISTER_NUM, VM, abs_int, alloc_effect, alloc_id, build_io_request, event_regs, heaps_written, io_request, le_bytes, le_value, popcount, rotl, rotr, sar, sext, sgn, swapped, trailing_zeros, trunc_div, trunc_rem, wrapn};

verus! {

/// How a step ended.
pub enum StepEnd {
    /// The instruction ran; the program goes on.
    Continued,
    /// The pause flag was already set: nothing ran.
    Paused,
    /// `EXIT` ran; the code for the process to exit with.
    Exited(i32),
    /// The word at pc names no opcode; nothing ran.
    BadOpcode,
    /// The handler cannot take the instruction as it stands (a word past the
    /// end of the function, a divisor of zero, a shift of 64 or more, a place
    /// outside its heap, an empty call stack, ...); nothing ran.
    Fault(Op),
    /// A float instruction: nothing ran; the caller performs it.
    Float(Op),
    /// `PRINT_U64`: the value to print; pc moved past the instruction.
    Print(u64),
    /// `GET_DECODE`: the caller replaces the function table with the code
    /// manager's decoding of `(id, deep)`; pc moved past the instruction.
    Decode(u64, u64),
    /// `GET_DECODED`: the caller replaces the function table with the code
    /// manager's latest one; pc moved past the instruction.
    Decoded,
    /// An opcode that has no handler; nothing ran.
    NoHandler(Op),
    /// The reactor reported an error, handed on as the handler gives it.
    IoError(std::io::Error),
    /// `run` found the VM off its code: pc past the end of the current
    /// function, or the registers or the function index out of shape.
    OffCode,
}

impl<R: Reactor> VM<R> {
    /// Whether the words up to `n` after pc exist.
    pub fn words_ok(&self, n: usize) -> (r: bool)
        requires
            self.wf(),
        ensures
            r == self.has_words(n as int),
    {
        if self.st.pc > usize::MAX - n {
            return false;
        }
        self.st.pc + n < self.function_table[self.st.now_call_index].instructions.len()
    }

    /// The `n`-th word after pc, read in place.
    pub fn word(&self, n: usize) -> (r: u64)
        requires
            self.wf(),
            self.has_words(n as int),
        ensures
            r == self.imm(n as int),
    {
        self.function_table[self.st.now_call_index].instructions[self.st.pc + n].code
    }

    /// The bytes of the `n`-th word after pc, read in place.
    pub fn operand_bytes(&self, n: usize) -> (r: [u8; 8])
        requires
            self.wf(),
            self.has_words(n as int),
        ensures
            forall|i: u64| i < 8 ==> r@[i as int] == self.ol(n as int, i),
    {
        self.function_table[self.st.now_call_index].instructions[self.st.pc + n].as_ol()
    }

    /// Whether `n` bytes at the place the registers name lie in its heap.
    pub fn spot_ok_exec(&self, id_reg: u8, addr_reg: u8, offset: u64, n: usize) -> (r: bool)
        requires
            self.st.r@.len() == REGISTER_NUM,
        ensures
            r == self.spot_ok(id_reg, addr_reg, offset, n as int),
    {
        let (id, pos) = self.spot(id_reg, addr_reg, offset);
        if id >= self.mem.data.len() {
            return false;
        }
        let len = self.mem.data[id].raw.bytes.len();
        pos <= len && n <= len - pos
    }
}

/// What `ret` requires, read at pc.
pub open spec fn pre_ret<R: Reactor>(old: VM<R>) -> bool {
    &&& old.wf()
    &&& old.st.call_stack@.len() >= 2
    &&& old.st.call_stack@.last() < old.function_table@.len()
    &&& old.st.call_stack@[old.st.call_stack@.len() - 2] < usize::MAX
}

/// What `ret` ensures.
pub open spec fn post_ret<R: Reactor>(new: VM<R>, old: VM<R>) -> bool {
    &&& new.st.call_stack@ == old.st.call_stack@.drop_last().drop_last()
    &&& new.st.now_call_index == old.st.call_stack@.last()
    &&& new.st.pc == old.st.call_stack@[old.st.call_stack@.len() - 2] + 1
    &&& new.st.r@ == old.st.r@
    &&& new.st.state_flag == old.st.state_flag
    &&& new.function_table@ == old.function_table@
    &&& new.mem.data@ == old.mem.data@
    &&& new.io == old.io
    &&& new.wf()
}

/// What `call` requires, read at pc.
pub open spec fn pre_call<R: Reactor>(old: VM<R>) -> bool {
    &&& old.wf()
    &&& old.has_words(2)
    &&& (old.imm(1) as usize) < old.function_table@.len()
}

/// What `call` ensures.
pub open spec fn post_call<R: Reactor>(new: VM<R>, old: VM<R>) -> bool {
    &&& new.st.call_stack@ == old.st.call_stack@.push((old.st.pc + 2) as usize).push(
                old.st.now_call_index,
            )
    &&& new.st.pc == old.imm(2) as usize
    &&& new.st.now_call_index == old.imm(1) as usize
    &&& new.st.r@ == old.st.r@
    &&& new.st.state_flag == old.st.state_flag
    &&& new.function_table@ == old.function_table@
    &&& new.mem.data@ == old.mem.data@
    &&& new.io == old.io
    &&& new.wf()
}

/// What `jump` requires, read at pc.
pub open spec fn pre_jump<R: Reactor>(old: VM<R>) -> bool {
    &&& old.wf()
    &&& old.has_words(2)
}

/// What `jump` ensures.
pub open spec fn post_jump<R: Reactor>(new: VM<R>, old: VM<R>) -> bool {
    &&& new.st.pc == wrap64(old.reg(old.ol(1, 0)) + old.imm(2)) as usize
    &&& new.st.r@ == old.st.r@
    &&& new.same_rest(&old)
}

/// What `eq_jump` requires, read at pc.
pub open spec fn pre_eq_jump<R: Reactor>(old: VM<R>) -> bool {
    &&& old.wf()
    &&& old.has_words(2)
}

/// What `eq_jump` ensures.
pub open spec fn post_eq_jump<R: Reactor>(new: VM<R>, old: VM<R>) -> bool {
    &&& new.st.pc == if old.reg(old.ol(1, 1)) == old.reg(old.ol(1, 2)) {
                wrap64(old.reg(old.ol(1, 0)) + old.imm(2)) as usize
            } else {
                (old.st.pc + 3) as usize
            }
    &&& new.st.r@ == old.st.r@
    &&& new.same_rest(&old)
}

/// What `neq_jump` requires, read at pc.
pub open spec fn pre_neq_jump<R: Reactor>(old: VM<R>) -> bool {
    &&& old.wf()
    &&& old.has_words(2)
}

/// What `neq_jump` ensures.
pub open spec fn post_neq_jump<R: Reactor>(new: VM<R>, old: VM<R>) -> bool {
    &&& new.st.pc == if old.reg(old.ol(1, 1)) != old.reg(old.ol(1, 2)) {
                wrap64(old.reg(old.ol(1, 0)) + old.imm(2)) as usize
            } else {
                (old.st.pc + 3) as usize
            }
    &&& new.st.r@ == old.st.r@
    &&& new.same_rest(&old)
}

/// What `lt_u64_jump` requires, read at pc.
pub open spec fn pre_lt_u64_jump<R: Reactor>(old: VM<R>) -> bool {
    &&& old.wf()
    &&& old.has_words(2)
}

/// What `lt_u64_jump` ensures.
pub open spec fn post_lt_u64_jump<R: Reactor>(new: VM<R>, old: VM<R>) -> bool {
    &&& new.st.pc == if old.reg(old.ol(1, 1)) < old.reg(old.ol(1, 2)) {
                wrap64(old.reg(old.ol(1, 0)) + old.imm(2)) as usize
            } else {
                (old.st.pc + 3) as usize
            }
    &&& new.st.r@ == old.st.r@
    &&& new.same_rest(&old)
}

/// What `lte_u64_jump` requires, read at pc.
pub open spec fn pre_lte_u64_jump<R: Reactor>(old: VM<R>) -> bool {
    &&& old.wf()
    &&& old.has_words(2)
}

/// What `lte_u64_jump` ensures.
pub open spec fn post_lte_u64_jump<R: Reactor>(new: VM<R>, old: VM<R>) -> bool {
    &&& new.st.pc == if old.reg(old.ol(1, 1)) <= old.reg(old.ol(1, 2)) {
                wrap64(old.reg(old.ol(1, 0)) + old.imm(2)) as usize
            } else {
                (old.st.pc + 3) as usize
            }
    &&& new.st.r@ == old.st.r@
    &&& new.same_rest(&old)
}

/// What `lt_i64_jump` requires, read at pc.
pub open spec fn pre_lt_i64_jump<R: Reactor>(old: VM<R>) -> bool {
    &&& old.wf()
    &&& old.has_words(2)
}

/// What `lt_i64_jump` ensures.
pub open spec fn post_lt_i64_jump<R: Reactor>(new: VM<R>, old: VM<R>) -> bool {
    &&& new.st.pc == if sgn(old.reg(old.ol(1, 1))) < sgn(old.reg(old.ol(1, 2))) {
                wrap64(old.reg(old.ol(1, 0)) + old.imm(2)) as usize
            } else {
                (old.st.pc + 3) as usize
            }
    &&& new.st.r@ == old.st.r@
    &&& new.same_rest(&old)
}

/// What `lte_i64_jump` requires, read at pc.
pub open spec fn pre_lte_i64_jump<R: Reactor>(old: VM<R>) -> bool {
    &&& old.wf()
    &&& old.has_words(2)
}

/// What `lte_i64_jump` ensures.
pub open spec fn post_lte_i64_jump<R: Reactor>(new: VM<R>, old: VM<R>) -> bool {
    &&& new.st.pc == if sgn(old.reg(old.ol(1, 1))) <= sgn(old.reg(old.ol(1, 2))) {
                wrap64(old.reg(old.ol(1, 0)) + old.imm(2)) as usize
            } else {
                (old.st.pc + 3) as usize
            }
    &&& new.st.r@ == old.st.r@
    &&& new.same_rest(&old)
}

/// What `gt_u64_jump` requires, read at pc.
pub open spec fn pre_gt_u64_jump<R: Reactor>(old: VM<R>) -> bool {
    &&& old.wf()
    &&& old.has_words(2)
}

/// What `gt_u64_jump` ensures.
pub open spec fn post_gt_u64_jump<R: Reactor>(new: VM<R>, old: VM<R>) -> bool {
    &&& new.st.pc == if old.reg(old.ol(1, 1)) > old.reg(old.ol(1, 2)) {
                wrap64(old.reg(old.ol(1, 0)) + old.imm(2)) as usize
            } else {
                (old.st.pc + 3) as usize
            }
    &&& new.st.r@ == old.st.r@
    &&& new.same_rest(&old)
}

/// What `gte_u64_jump` requires, read at pc.
pub open spec fn pre_gte_u64_jump<R: Reactor>(old: VM<R>) -> bool {
    &&& old.wf()
    &&& old.has_words(2)
}

/// What `gte_u64_jump` ensures.
pub open spec fn post_gte_u64_jump<R: Reactor>(new: VM<R>, old: VM<R>) -> bool {
    &&& new.st.pc == if old.reg(old.ol(1, 1)) >= old.reg(old.ol(1, 2)) {
                wrap64(old.reg(old.ol(1, 0)) + old.imm(2)) as usize
            } else {
                (old.st.pc + 3) as usize
            }
    &&& new.st.r@ == old.st.r@
    &&& new.same_rest(&old)
}

/// What `gt_i64_jump` requires, read at pc.
pub open spec fn pre_gt_i64_jump<R: Reactor>(old: VM<R>) -> bool {
    &&& old.wf()
    &&& old.has_words(2)
}

/// What `gt_i64_jump` ensures.
pub open spec fn post_gt_i64_jump<R: Reactor>(new: VM<R>, old: VM<R>) -> bool {
    &&& new.st.pc == if sgn(old.reg(old.ol(1, 1))) > sgn(old.reg(old.ol(1, 2))) {
                wrap64(old.reg(old.ol(1, 0)) + old.imm(2)) as usize
            } else {
                (old.st.pc + 3) as usize
            }
    &&& new.st.r@ == old.st.r@
    &&& new.same_rest(&old)
}

/// What `gte_i64_jump` requires, read at pc.
pub open spec fn pre_gte_i64_jump<R: Reactor>(old: VM<R>) -> bool {
    &&& old.wf()
    &&& old.has_words(2)
}

/// What `gte_i64_jump` ensures.
pub open spec fn post_gte_i64_jump<R: Reactor>(new: VM<R>, old: VM<R>) -> bool {
    &&& new.st.pc == if sgn(old.reg(old.ol(1, 1))) >= sgn(old.reg(old.ol(1, 2))) {
                wrap64(old.reg(old.ol(1, 0)) + old.imm(2)) as usize
            } else {
                (old.st.pc + 3) as usize
            }
    &&& new.st.r@ == old.st.r@
    &&& new.same_rest(&old)
}

/// What `exit` requires, read at pc.
pub open spec fn pre_exit<R: Reactor>(old: VM<R>) -> bool {
    &&& old.wf()
    &&& old.has_words(1)
}

/// What `exit` ensures.
pub open spec fn post_exit<R: Reactor>(new: VM<R>, old: VM<R>, code: i32) -> bool {
    &&& code == old.reg(old.ol(1, 0)) as i32
    &&& new.st.r@ == old.st.r@.update(0, old.reg(old.ol(1, 0)))
    &&& new.st.state_flag == old.st.state_flag | PAUSE
    &&& new.st.pc == old.st.pc
    &&& new.st.now_call_index == old.st.now_call_index
    &&& new.st.call_stack@ == old.st.call_stack@
    &&& new.function_table@ == old.function_table@
    &&& new.mem.data@ == old.mem.data@
    &&& new.mem.reuse_list@ == old.mem.reuse_list@
    &&& new.io == old.io
}

/// What `allocate` requires, read at pc.
pub open spec fn pre_allocate<R: Reactor>(old: VM<R>) -> bool {
    &&& old.wf()
    &&& old.has_words(2)
    &&& old.mem.reuse_list@.len() > 0 ==> old.mem.reuse_list@.last() < old.mem.data@.len()
    &&& old.mem.data@.len() < usize::MAX
}

/// What `allocate` ensures.
pub open spec fn post_allocate<R: Reactor>(new: VM<R>, old: VM<R>) -> bool {
    &&& new.st.r@ == old.st.r@.update(
                old.ol(1, 1) as int,
                ((alloc_id(old.mem) % 0x100_0000) * id_unit()) as u64,
            )
    &&& new.st.pc == old.st.pc + 3
    &&& alloc_effect(new.mem, old.mem, wrap64(old.reg(old.ol(1, 0)) + old.imm(2)) as usize)
    &&& new.same_but_mem(&old)
}

/// What `realloc` requires, read at pc.
pub open spec fn pre_realloc<R: Reactor>(old: VM<R>) -> bool {
    &&& old.wf()
    &&& old.has_words(1)
    &&& id_of(VPtr(old.reg(old.ol(1, 1)))) < old.mem.data@.len()
}

/// What `realloc` ensures.
pub open spec fn post_realloc<R: Reactor>(new: VM<R>, old: VM<R>) -> bool {
    &&& ({
                let id = id_of(VPtr(old.reg(old.ol(1, 1))));
                let size = old.reg(old.ol(1, 0)) as usize;
                &&& new.mem.reuse_list@ == old.mem.reuse_list@
                &&& new.mem.data@.len() == old.mem.data@.len()
                &&& new.mem.data@[id].raw.size == size
                &&& new.mem.data@[id].raw.bytes@ == resized(old.mem.data@[id].raw.bytes@, size as int)
                &&& forall|j: int|
                    0 <= j < old.mem.data@.len() && j != id ==> #[trigger] new.mem.data@[j]
                        == old.mem.data@[j]
            })
    &&& new.st.r@ == old.st.r@
    &&& new.st.pc == old.st.pc + 2
    &&& new.same_but_mem(&old)
}

/// What `dealloc` requires, read at pc.
pub open spec fn pre_dealloc<R: Reactor>(old: VM<R>) -> bool {
    &&& old.wf()
    &&& old.has_words(1)
    &&& id_of(VPtr(old.reg(old.ol(1, 0)))) < old.mem.data@.len()
}

/// What `dealloc` ensures.
pub open spec fn post_dealloc<R: Reactor>(new: VM<R>, old: VM<R>) -> bool {
    &&& dealloc_effect(new.mem, old.mem, id_of(VPtr(old.reg(old.ol(1, 0)))))
    &&& new.st.r@ == old.st.r@
    &&& new.st.pc == old.st.pc + 2
    &&& new.same_but_mem(&old)
}

/// What `mov` requires, read at pc.
pub open spec fn pre_mov<R: Reactor>(old: VM<R>) -> bool {
    &&& old.wf()
    &&& old.has_words(1)
}

/// What `mov` ensures.
pub open spec fn post_mov<R: Reactor>(new: VM<R>, old: VM<R>) -> bool {
    &&& new.set_and_step(&old, old.ol(1, 0), old.reg(old.ol(1, 1)), 2)
}

/// What `load_u64_immediate` requires, read at pc.
pub open spec fn pre_load_u64_immediate<R: Reactor>(old: VM<R>) -> bool {
    &&& old.wf()
    &&& old.has_words(2)
}

/// What `load_u64_immediate` ensures.
pub open spec fn post_load_u64_immediate<R: Reactor>(new: VM<R>, old: VM<R>) -> bool {
    &&& new.set_and_step(&old, old.ol(1, 0), old.imm(2), 3)
}

/// What `swap` requires, read at pc.
pub open spec fn pre_swap<R: Reactor>(old: VM<R>) -> bool {
    &&& old.wf()
    &&& old.has_words(1)
}

/// What `swap` ensures.
pub open spec fn post_swap<R: Reactor>(new: VM<R>, old: VM<R>) -> bool {
    &&& new.st.r@ == swapped(old.st.r@, old.ol(1, 0) as int, old.ol(1, 1) as int)
    &&& new.st.pc == old.st.pc + 2
    &&& new.same_rest(&old)
}

/// What `add_u64` requires, read at pc.
pub open spec fn pre_add_u64<R: Reactor>(old: VM<R>) -> bool {
    &&& old.wf()
    &&& old.has_words(1)
}

/// What `add_u64` ensures.
pub open spec fn post_add_u64<R: Reactor>(new: VM<R>, old: VM<R>) -> bool {
    &&& new.st.r@ == old.st.r@.update((old.ol(1, 0) as u64) as int, wrap64(old.st.r@[(old.ol(1, 0) as u64) as int] + old.st.r@[(old.ol(1, 1) as u64) as int]))
    &&& new.st.pc == old.st.pc + 2
    &&& new.same_rest(&old)
}

/// What `add_u64_immediate` requires, read at pc.
pub open spec fn pre_add_u64_immediate<R: Reactor>(old: VM<R>) -> bool {
    &&& old.wf()
    &&& old.has_words(2)
}

/// What `add_u64_immediate` ensures.
pub open spec fn post_add_u64_immediate<R: Reactor>(new: VM<R>, old: VM<R>) -> bool {
    &&& new.st.r@ == old.st.r@.update((old.ol(1, 0) as u64) as int, wrap64(old.st.r@[(old.ol(1, 0) as u64) as int] + old.imm(2)))
    &&& new.st.pc == old.st.pc + 3
    &&& new.same_rest(&old)
}

/// What `add_i64` requires, read at pc.
pub open spec fn pre_add_i64<R: Reactor>(old: VM<R>) -> bool {
    &&& old.wf()
    &&& old.has_words(1)
}

/// What `add_i64` ensures.
pub open spec fn post_add_i64<R: Reactor>(new: VM<R>, old: VM<R>) -> bool {
    &&& new.st.r@ == old.st.r@.update((old.ol(1, 0) as u64) as int, wrap64(sgn(old.st.r@[(old.ol(1, 0) as u64) as int]) + sgn(old.st.r@[(old.ol(1, 1) as u64) as int])))
    &&& new.st.pc == old.st.pc + 2
    &&& new.same_rest(&old)
}

/// What `add_i64_immediate` requires, read at pc.
pub open spec fn pre_add_i64_immediate<R: Reactor>(old: VM<R>) -> bool {
    &&& old.wf()
    &&& old.has_words(2)
}

/// What `add_i64_immediate` ensures.
pub open spec fn post_add_i64_immediate<R: Reactor>(new: VM<R>, old: VM<R>) -> bool {
    &&& new.st.r@ == old.st.r@.update((old.ol(1, 0) as u64) as int, wrap64(sgn(old.st.r@[(old.ol(1, 0) as u64) as int]) + sgn(old.imm(2))))
    &&& new.st.pc == old.st.pc + 3
    &&& new.same_rest(&old)
}

/// What `sub_u64` requires, read at pc.
pub open spec fn pre_sub_u64<R: Reactor>(old: VM<R>) -> bool {
    &&& old.wf()
    &&& old.has_words(1)
}

/// What `sub_u64` ensures.
pub open spec fn post_sub_u64<R: Reactor>(new: VM<R>, old: VM<R>) -> bool {
    &&& new.st.r@ == old.st.r@.update((old.ol(1, 0) as u64) as int, wrap64(old.st.r@[(old.ol(1, 0) as u64) as int] - old.st.r@[(old.ol(1, 1) as u64) as int]))
    &&& new.st.pc == old.st.pc + 2
    &&& new.same_rest(&old)
}

/// What `sub_u64_immediate` requires, read at pc.
pub open spec fn pre_sub_u64_immediate<R: Reactor>(old: VM<R>) -> bool {
    &&& old.wf()
    &&& old.has_words(2)
}

/// What `sub_u64_immediate` ensures.
pub open spec fn post_sub_u64_immediate<R: Reactor>(new: VM<R>, old: VM<R>) -> bool {
    &&& new.st.r@ == old.st.r@.update((old.ol(1, 0) as u64) as int, wrap64(old.st.r@[(old.ol(1, 0) as u64) as int] - old.imm(2)))
    &&& new.st.pc == old.st.pc + 3
    &&& new.same_rest(&old)
}

/// What `sub_i64` requires, read at pc.
pub open spec fn pre_sub_i64<R: Reactor>(old: VM<R>) -> bool {
    &&& old.wf()
    &&& old.has_words(1)
}

/// What `sub_i64` ensures.
pub open spec fn post_sub_i64<R: Reactor>(new: VM<R>, old: VM<R>) -> bool {
    &&& new.st.r@ == old.st.r@.update((old.ol(1, 0) as u64) as int, wrap64(sgn(old.st.r@[(old.ol(1, 0) as u64) as int]) - sgn(old.st.r@[(old.ol(1, 1) as u64) as int])))
    &&& new.st.pc == old.st.pc + 2
    &&& new.same_rest(&old)
}

/// What `sub_i64_immediate` requires, read at pc.
pub open spec fn pre_sub_i64_immediate<R: Reactor>(old: VM<R>) -> bool {
    &&& old.wf()
    &&& old.has_words(2)
}

/// What `sub_i64_immediate` ensures.
pub open spec fn post_sub_i64_immediate<R: Reactor>(new: VM<R>, old: VM<R>) -> bool {
    &&& new.st.r@ == old.st.r@.update((old.ol(1, 0) as u64) as int, wrap64(sgn(old.st.r@[(old.ol(1, 0) as u64) as int]) - sgn(old.imm(2))))
    &&& new.st.pc == old.st.pc + 3
    &&& new.same_rest(&old)
}

/// What `mul_u64` requires, read at pc.
pub open spec fn pre_mul_u64<R: Reactor>(old: VM<R>) -> bool {
    &&& old.wf()
    &&& old.has_words(1)
}

/// What `mul_u64` ensures.
pub open spec fn post_mul_u64<R: Reactor>(new: VM<R>, old: VM<R>) -> bool {
    &&& new.st.r@ == old.st.r@.update((old.ol(1, 0) as u64) as int, wrap64(old.st.r@[(old.ol(1, 0) as u64) as int] * old.st.r@[(old.ol(1, 1) as u64) as int]))
    &&& new.st.pc == old.st.pc + 2
    &&& new.same_rest(&old)
}

/// What `mul_u64_immediate` requires, read at pc.
pub open spec fn pre_mul_u64_immediate<R: Reactor>(old: VM<R>) -> bool {
    &&& old.wf()
    &&& old.has_words(2)
}

/// What `mul_u64_immediate` ensures.
pub open spec fn post_mul_u64_immediate<R: Reactor>(new: VM<R>, old: VM<R>) -> bool {
    &&& new.st.r@ == old.st.r@.update((old.ol(1, 0) as u64) as int, wrap64(old.st.r@[(old.ol(1, 0) as u64) as int] * old.imm(2)))
    &&& new.st.pc == old.st.pc + 3
    &&& new.same_rest(&old)
}

/// What `mul_i64` requires, read at pc.
pub open spec fn pre_mul_i64<R: Reactor>(old: VM<R>) -> bool {
    &&& old.wf()
    &&& old.has_words(1)
}

/// What `mul_i64` ensures.
pub open spec fn post_mul_i64<R: Reactor>(new: VM<R>, old: VM<R>) -> bool {
    &&& new.st.r@ == old.st.r@.update((old.ol(1, 0) as u64) as int, wrap64(sgn(old.st.r@[(old.ol(1, 0) as u64) as int]) * sgn(old.st.r@[(old.ol(1, 1) as u64) as int])))
    &&& new.st.pc == old.st.pc + 2
    &&& new.same_rest(&old)
}

/// What `mul_i64_immediate` requires, read at pc.
pub open spec fn pre_mul_i64_immediate<R: Reactor>(old: VM<R>) -> bool {
    &&& old.wf()
    &&& old.has_words(2)
}

/// What `mul_i64_immediate` ensures.
pub open spec fn post_mul_i64_immediate<R: Reactor>(new: VM<R>, old: VM<R>) -> bool {
    &&& new.st.r@ == old.st.r@.update((old.ol(1, 0) as u64) as int, wrap64(sgn(old.st.r@[(old.ol(1, 0) as u64) as int]) * sgn(old.imm(2))))
    &&& new.st.pc == old.st.pc + 3
    &&& new.same_rest(&old)
}

/// What `div_u64` requires, read at pc.
pub open spec fn pre_div_u64<R: Reactor>(old: VM<R>) -> bool {
    &&& old.wf()
    &&& old.has_words(1)
    &&& old.st.r@[(old.ol(1, 1) as u64) as int] != 0
}

/// What `div_u64` ensures.
pub open spec fn post_div_u64<R: Reactor>(new: VM<R>, old: VM<R>) -> bool {
    &&& new.st.r@ == old.st.r@.update((old.ol(1, 0) as u64) as int, old.st.r@[(old.ol(1, 0) as u64) as int] / old.st.r@[(old.ol(1, 1) as u64) as int])
    &&& new.st.pc == old.st.pc + 2
    &&& new.same_rest(&old)
}

/// What `div_u64_immediate` requires, read at pc.
pub open spec fn pre_div_u64_immediate<R: Reactor>(old: VM<R>) -> bool {
    &&& old.wf()
    &&& old.has_words(2)
    &&& old.imm(2) != 0
}

/// What `div_u64_immediate` ensures.
pub open spec fn post_div_u64_immediate<R: Reactor>(new: VM<R>, old: VM<R>) -> bool {
    &&& new.st.r@ == old.st.r@.update((old.ol(1, 0) as u64) as int, old.st.r@[(old.ol(1, 0) as u64) as int] / old.imm(2))
    &&& new.st.pc == old.st.pc + 3
    &&& new.same_rest(&old)
}

/// What `div_i64` requires, read at pc.
pub open spec fn pre_div_i64<R: Reactor>(old: VM<R>) -> bool {
    &&& old.wf()
    &&& old.has_words(1)
    &&& old.st.r@[(old.ol(1, 1) as u64) as int] != 0
    &&& !(old.st.r@[(old.ol(1, 0) as u64) as int] == 0x8000_0000_0000_0000u64 && old.st.r@[(old.ol(1, 1) as u64) as int] == 0xFFFF_FFFF_FFFF_FFFFu64)
}

/// What `div_i64` ensures.
pub open spec fn post_div_i64<R: Reactor>(new: VM<R>, old: VM<R>) -> bool {
    &&& new.st.r@ == old.st.r@.update((old.ol(1, 0) as u64) as int, wrap64(trunc_div(sgn(old.st.r@[(old.ol(1, 0) as u64) as int]), sgn(old.st.r@[(old.ol(1, 1) as u64) as int]))))
    &&& new.st.pc == old.st.pc + 2
    &&& new.same_rest(&old)
}

/// What `div_i64_immediate` requires, read at pc.
pub open spec fn pre_div_i64_immediate<R: Reactor>(old: VM<R>) -> bool {
    &&& old.wf()
    &&& old.has_words(2)
    &&& old.imm(2) != 0
    &&& !(old.st.r@[(old.ol(1, 0) as u64) as int] == 0x8000_0000_0000_0000u64 && old.imm(2) == 0xFFFF_FFFF_FFFF_FFFFu64)
}

/// What `div_i64_immediate` ensures.
pub open spec fn post_div_i64_immediate<R: Reactor>(new: VM<R>, old: VM<R>) -> bool {
    &&& new.st.r@ == old.st.r@.update((old.ol(1, 0) as u64) as int, wrap64(trunc_div(sgn(old.st.r@[(old.ol(1, 0) as u64) as int]), sgn(old.imm(2)))))
    &&& new.st.pc == old.st.pc + 3
    &&& new.same_rest(&old)
}

/// What `abs` requires, read at pc.
pub open spec fn pre_abs<R: Reactor>(old: VM<R>) -> bool {
    &&& old.wf()
    &&& old.has_words(1)
}

/// What `abs` ensures.
pub open spec fn post_abs<R: Reactor>(new: VM<R>, old: VM<R>) -> bool {
    &&& new.st.r@ == old.st.r@.update((old.ol(1, 0) as u64) as int, wrap64(abs_int(sgn(old.st.r@[(old.ol(1, 1) as u64) as int]))))
    &&& new.st.pc == old.st.pc + 2
    &&& new.same_rest(&old)
}

/// What `mod_i64` requires, read at pc.
pub open spec fn pre_mod_i64<R: Reactor>(old: VM<R>) -> bool {
    &&& old.wf()
    &&& old.has_words(1)
    &&& old.st.r@[(old.ol(1, 1) as u64) as int] != 0
}

/// What `mod_i64` ensures.
pub open spec fn post_mod_i64<R: Reactor>(new: VM<R>, old: VM<R>) -> bool {
    &&& new.st.r@ == old.st.r@.update((old.ol(1, 0) as u64) as int, wrap64(trunc_rem(sgn(old.st.r@[(old.ol(1, 0) as u64) as int]), sgn(old.st.r@[(old.ol(1, 1) as u64) as int]))))
    &&& new.st.pc == old.st.pc + 2
    &&& new.same_rest(&old)
}

/// What `neg_i64` requires, read at pc.
pub open spec fn pre_neg_i64<R: Reactor>(old: VM<R>) -> bool {
    &&& old.wf()
    &&& old.has_words(1)
}

/// What `neg_i64` ensures.
pub open spec fn post_neg_i64<R: Reactor>(new: VM<R>, old: VM<R>) -> bool {
    &&& new.st.r@ == old.st.r@.update((old.ol(1, 0) as u64) as int, wrap64(-sgn(old.st.r@[(old.ol(1, 1) as u64) as int])))
    &&& new.st.pc == old.st.pc + 2
    &&& new.same_rest(&old)
}

/// What `and_u64` requires, read at pc.
pub open spec fn pre_and_u64<R: Reactor>(old: VM<R>) -> bool {
    &&& old.wf()
    &&& old.has_words(1)
}

/// What `and_u64` ensures.
pub open spec fn post_and_u64<R: Reactor>(new: VM<R>, old: VM<R>) -> bool {
    &&& new.set_and_step(&old, old.ol(1, 0), old.reg(old.ol(1, 0)) & old.reg(old.ol(1, 1)), 2)
}

/// What `and_u64_immediate` requires, read at pc.
pub open spec fn pre_and_u64_immediate<R: Reactor>(old: VM<R>) -> bool {
    &&& old.wf()
    &&& old.has_words(2)
}

/// What `and_u64_immediate` ensures.
pub open spec fn post_and_u64_immediate<R: Reactor>(new: VM<R>, old: VM<R>) -> bool {
    &&& new.set_and_step(&old, old.ol(1, 0), old.reg(old.ol(1, 0)) & old.imm(2), 3)
}

/// What `or_u64` requires, read at pc.
pub open spec fn pre_or_u64<R: Reactor>(old: VM<R>) -> bool {
    &&& old.wf()
    &&& old.has_words(1)
}

/// What `or_u64` ensures.
pub open spec fn post_or_u64<R: Reactor>(new: VM<R>, old: VM<R>) -> bool {
    &&& new.set_and_step(&old, old.ol(1, 0), old.reg(old.ol(1, 0)) | old.reg(old.ol(1, 1)), 2)
}

/// What `or_u64_immediate` requires, read at pc.
pub open spec fn pre_or_u64_immediate<R: Reactor>(old: VM<R>) -> bool {
    &&& old.wf()
    &&& old.has_words(2)
}

/// What `or_u64_immediate` ensures.
pub open spec fn post_or_u64_immediate<R: Reactor>(new: VM<R>, old: VM<R>) -> bool {
    &&& new.set_and_step(&old, old.ol(1, 0), old.reg(old.ol(1, 0)) | old.imm(2), 3)
}

/// What `xor_u64` requires, read at pc.
pub open spec fn pre_xor_u64<R: Reactor>(old: VM<R>) -> bool {
    &&& old.wf()
    &&& old.has_words(1)
}

/// What `xor_u64` ensures.
pub open spec fn post_xor_u64<R: Reactor>(new: VM<R>, old: VM<R>) -> bool {
    &&& new.set_and_step(&old, old.ol(1, 0), old.reg(old.ol(1, 0)) ^ old.reg(old.ol(1, 1)), 2)
}

/// What `xor_u64_immediate` requires, read at pc.
pub open spec fn pre_xor_u64_immediate<R: Reactor>(old: VM<R>) -> bool {
    &&& old.wf()
    &&& old.has_words(2)
}

/// What `xor_u64_immediate` ensures.
pub open spec fn post_xor_u64_immediate<R: Reactor>(new: VM<R>, old: VM<R>) -> bool {
    &&& new.set_and_step(&old, old.ol(1, 0), old.reg(old.ol(1, 0)) ^ old.imm(2), 3)
}

/// What `not_u64` requires, read at pc.
pub open spec fn pre_not_u64<R: Reactor>(old: VM<R>) -> bool {
    &&& old.wf()
    &&& old.has_words(1)
}

/// What `not_u64` ensures.
pub open spec fn post_not_u64<R: Reactor>(new: VM<R>, old: VM<R>) -> bool {
    &&& new.set_and_step(&old, old.ol(1, 0), !old.reg(old.ol(1, 1)), 2)
}

/// What `shl_u64` requires, read at pc.
pub open spec fn pre_shl_u64<R: Reactor>(old: VM<R>) -> bool {
    &&& old.wf()
    &&& old.has_words(1)
    &&& (old.reg(old.ol(1, 1)) as u32) < 64
}

/// What `shl_u64` ensures.
pub open spec fn post_shl_u64<R: Reactor>(new: VM<R>, old: VM<R>) -> bool {
    &&& new.set_and_step(&old, old.ol(1, 0), old.reg(old.ol(1, 0)) << (old.reg(old.ol(1, 1)) as u32), 2)
}

/// What `shl_u64_immediate` requires, read at pc.
pub open spec fn pre_shl_u64_immediate<R: Reactor>(old: VM<R>) -> bool {
    &&& old.wf()
    &&& old.has_words(2)
    &&& (old.imm(2) as u32) < 64
}

/// What `shl_u64_immediate` ensures.
pub open spec fn post_shl_u64_immediate<R: Reactor>(new: VM<R>, old: VM<R>) -> bool {
    &&& new.set_and_step(&old, old.ol(1, 0), old.reg(old.ol(1, 0)) << (old.imm(2) as u32), 3)
}

/// What `shl_i64` requires, read at pc.
pub open spec fn pre_shl_i64<R: Reactor>(old: VM<R>) -> bool {
    &&& old.wf()
    &&& old.has_words(1)
    &&& (old.reg(old.ol(1, 1)) as u32) < 64
}

/// What `shl_i64` ensures.
pub open spec fn post_shl_i64<R: Reactor>(new: VM<R>, old: VM<R>) -> bool {
    &&& new.set_and_step(&old, old.ol(1, 0), old.reg(old.ol(1, 0)) << (old.reg(old.ol(1, 1)) as u32), 2)
}

/// What `shl_i64_immediate` requires, read at pc.
pub open spec fn pre_shl_i64_immediate<R: Reactor>(old: VM<R>) -> bool {
    &&& old.wf()
    &&& old.has_words(2)
    &&& (old.imm(2) as u32) < 64
}

/// What `shl_i64_immediate` ensures.
pub open spec fn post_shl_i64_immediate<R: Reactor>(new: VM<R>, old: VM<R>) -> bool {
    &&& new.set_and_step(&old, old.ol(1, 0), old.reg(old.ol(1, 0)) << (old.imm(2) as u32), 3)
}

/// What `shr_u64` requires, read at pc.
pub open spec fn pre_shr_u64<R: Reactor>(old: VM<R>) -> bool {
    &&& old.wf()
    &&& old.has_words(1)
    &&& (old.reg(old.ol(1, 1)) as u32) < 64
}

/// What `shr_u64` ensures.
pub open spec fn post_shr_u64<R: Reactor>(new: VM<R>, old: VM<R>) -> bool {
    &&& new.set_and_step(&old, old.ol(1, 0), old.reg(old.ol(1, 0)) >> (old.reg(old.ol(1, 1)) as u32), 2)
}

/// What `shr_u64_immediate` requires, read at pc.
pub open spec fn pre_shr_u64_immediate<R: Reactor>(old: VM<R>) -> bool {
    &&& old.wf()
    &&& old.has_words(2)
    &&& (old.imm(2) as u32) < 64
}

/// What `shr_u64_immediate` ensures.
pub open spec fn post_shr_u64_immediate<R: Reactor>(new: VM<R>, old: VM<R>) -> bool {
    &&& new.set_and_step(&old, old.ol(1, 0), old.reg(old.ol(1, 0)) >> (old.imm(2) as u32), 3)
}

/// What `shr_i64` requires, read at pc.
pub open spec fn pre_shr_i64<R: Reactor>(old: VM<R>) -> bool {
    &&& old.wf()
    &&& old.has_words(1)
    &&& (old.reg(old.ol(1, 1)) as u32) < 64
}

/// What `shr_i64` ensures.
pub open spec fn post_shr_i64<R: Reactor>(new: VM<R>, old: VM<R>) -> bool {
    &&& new.set_and_step(&old, old.ol(1, 0), sar(old.reg(old.ol(1, 0)), old.reg(old.ol(1, 1)) as u32), 2)
}

/// What `shr_i64_immediate` requires, read at pc.
pub open spec fn pre_shr_i64_immediate<R: Reactor>(old: VM<R>) -> bool {
    &&& old.wf()
    &&& old.has_words(2)
    &&& (old.imm(2) as u32) < 64
}

/// What `shr_i64_immediate` ensures.
pub open spec fn post_shr_i64_immediate<R: Reactor>(new: VM<R>, old: VM<R>) -> bool {
    &&& new.set_and_step(&old, old.ol(1, 0), sar(old.reg(old.ol(1, 0)), old.imm(2) as u32), 3)
}

/// What `rol_u64` requires, read at pc.
pub open spec fn pre_rol_u64<R: Reactor>(old: VM<R>) -> bool {
    &&& old.wf()
    &&& old.has_words(1)
}

/// What `rol_u64` ensures.
pub open spec fn post_rol_u64<R: Reactor>(new: VM<R>, old: VM<R>) -> bool {
    &&& new.set_and_step(&old, old.ol(1, 0), rotl(old.reg(old.ol(1, 0)), old.reg(old.ol(1, 1)) & 127), 2)
}

/// What `rol_u64_immediate` requires, read at pc.
pub open spec fn pre_rol_u64_immediate<R: Reactor>(old: VM<R>) -> bool {
    &&& old.wf()
    &&& old.has_words(2)
}

/// What `rol_u64_immediate` ensures.
pub open spec fn post_rol_u64_immediate<R: Reactor>(new: VM<R>, old: VM<R>) -> bool {
    &&& new.set_and_step(&old, old.ol(1, 0), rotl(old.reg(old.ol(1, 0)), old.imm(2) & 127), 3)
}

/// What `ror_u64` requires, read at pc.
pub open spec fn pre_ror_u64<R: Reactor>(old: VM<R>) -> bool {
    &&& old.wf()
    &&& old.has_words(1)
}

/// What `ror_u64` ensures.
pub open spec fn post_ror_u64<R: Reactor>(new: VM<R>, old: VM<R>) -> bool {
    &&& new.set_and_step(&old, old.ol(1, 0), rotr(old.reg(old.ol(1, 0)), old.reg(old.ol(1, 1)) & 127), 2)
}

/// What `ror_u64_immediate` requires, read at pc.
pub open spec fn pre_ror_u64_immediate<R: Reactor>(old: VM<R>) -> bool {
    &&& old.wf()
    &&& old.has_words(2)
}

/// What `ror_u64_immediate` ensures.
pub open spec fn post_ror_u64_immediate<R: Reactor>(new: VM<R>, old: VM<R>) -> bool {
    &&& new.set_and_step(&old, old.ol(1, 0), rotr(old.reg(old.ol(1, 0)), old.imm(2) & 127), 3)
}

/// What `count_ones_u64` requires, read at pc.
pub open spec fn pre_count_ones_u64<R: Reactor>(old: VM<R>) -> bool {
    &&& old.wf()
    &&& old.has_words(1)
}

/// What `count_ones_u64` ensures.
pub open spec fn post_count_ones_u64<R: Reactor>(new: VM<R>, old: VM<R>) -> bool {
    &&& new.set_and_step(&old, old.ol(1, 0), popcount(old.reg(old.ol(1, 1)) as nat) as u64, 2)
}

/// What `count_zeros_u64` requires, read at pc.
pub open spec fn pre_count_zeros_u64<R: Reactor>(old: VM<R>) -> bool {
    &&& old.wf()
    &&& old.has_words(1)
}

/// What `count_zeros_u64` ensures.
pub open spec fn post_count_zeros_u64<R: Reactor>(new: VM<R>, old: VM<R>) -> bool {
    &&& new.set_and_step(&old, old.ol(1, 0), (64 - popcount(old.reg(old.ol(1, 1)) as nat)) as u64, 2)
}

/// What `trailing_zeros_u64` requires, read at pc.
pub open spec fn pre_trailing_zeros_u64<R: Reactor>(old: VM<R>) -> bool {
    &&& old.wf()
    &&& old.has_words(1)
}

/// What `trailing_zeros_u64` ensures.
pub open spec fn post_trailing_zeros_u64<R: Reactor>(new: VM<R>, old: VM<R>) -> bool {
    &&& new.set_and_step(&old, old.ol(1, 0), trailing_zeros(old.reg(old.ol(1, 1)) as nat, 64) as u64, 2)
}

/// What `load_u64` requires, read at pc.
pub open spec fn pre_load_u64<R: Reactor>(old: VM<R>) -> bool {
    &&& old.wf()
    &&& old.has_words(2)
    &&& old.spot_ok(old.ol(1, 0), old.ol(1, 1), old.imm(2), 8)
}

/// What `load_u64` ensures.
pub open spec fn post_load_u64<R: Reactor>(new: VM<R>, old: VM<R>) -> bool {
    &&& new.set_and_step(&old, old.ol(1, 2), le_value(old.spot_bytes(old.ol(1, 0), old.ol(1, 1), old.imm(2), 8)) as u64, 3)
}

/// What `load_u32` requires, read at pc.
pub open spec fn pre_load_u32<R: Reactor>(old: VM<R>) -> bool {
    &&& old.wf()
    &&& old.has_words(2)
    &&& old.spot_ok(old.ol(1, 0), old.ol(1, 1), old.imm(2), 4)
}

/// What `load_u32` ensures.
pub open spec fn post_load_u32<R: Reactor>(new: VM<R>, old: VM<R>) -> bool {
    &&& new.set_and_step(&old, old.ol(1, 2), le_value(old.spot_bytes(old.ol(1, 0), old.ol(1, 1), old.imm(2), 4)) as u64, 3)
}

/// What `load_u16` requires, read at pc.
pub open spec fn pre_load_u16<R: Reactor>(old: VM<R>) -> bool {
    &&& old.wf()
    &&& old.has_words(2)
    &&& old.spot_ok(old.ol(1, 0), old.ol(1, 1), old.imm(2), 2)
}

/// What `load_u16` ensures.
pub open spec fn post_load_u16<R: Reactor>(new: VM<R>, old: VM<R>) -> bool {
    &&& new.set_and_step(&old, old.ol(1, 2), le_value(old.spot_bytes(old.ol(1, 0), old.ol(1, 1), old.imm(2), 2)) as u64, 3)
}

/// What `load_u8` requires, read at pc.
pub open spec fn pre_load_u8<R: Reactor>(old: VM<R>) -> bool {
    &&& old.wf()
    &&& old.has_words(2)
    &&& old.spot_ok(old.ol(1, 0), old.ol(1, 1), old.imm(2), 1)
}

/// What `load_u8` ensures.
pub open spec fn post_load_u8<R: Reactor>(new: VM<R>, old: VM<R>) -> bool {
    &&& new.set_and_step(&old, old.ol(1, 2), le_value(old.spot_bytes(old.ol(1, 0), old.ol(1, 1), old.imm(2), 1)) as u64, 3)
}

/// What `store_u64` requires, read at pc.
pub open spec fn pre_store_u64<R: Reactor>(old: VM<R>) -> bool {
    &&& old.wf()
    &&& old.has_words(2)
    &&& old.spot_ok(old.ol(1, 0), old.ol(1, 1), old.imm(2), 8)
}

/// What `store_u64` ensures.
pub open spec fn post_store_u64<R: Reactor>(new: VM<R>, old: VM<R>) -> bool {
    &&& new.st.r@ == old.st.r@
    &&& new.st.pc == old.st.pc + 3
    &&& new.same_ctl(&old)
    &&& heaps_written(
                new.mem.data@,
                old.mem.data@,
                old.spot_id(old.ol(1, 0)),
                old.spot_pos(old.ol(1, 1), old.imm(2)),
                le_bytes(old.reg(old.ol(1, 2)) as nat, 8),
            )
}

/// What `store_u32` requires, read at pc.
pub open spec fn pre_store_u32<R: Reactor>(old: VM<R>) -> bool {
    &&& old.wf()
    &&& old.has_words(2)
    &&& old.spot_ok(old.ol(1, 0), old.ol(1, 1), old.imm(2), 4)
}

/// What `store_u32` ensures.
pub open spec fn post_store_u32<R: Reactor>(new: VM<R>, old: VM<R>) -> bool {
    &&& new.st.r@ == old.st.r@
    &&& new.st.pc == old.st.pc + 3
    &&& new.same_ctl(&old)
    &&& heaps_written(
                new.mem.data@,
                old.mem.data@,
                old.spot_id(old.ol(1, 0)),
                old.spot_pos(old.ol(1, 1), old.imm(2)),
                le_bytes(old.reg(old.ol(1, 2)) as nat, 4),
            )
}

/// What `store_u16` requires, read at pc.
pub open spec fn pre_store_u16<R: Reactor>(old: VM<R>) -> bool {
    &&& old.wf()
    &&& old.has_words(2)
    &&& old.spot_ok(old.ol(1, 0), old.ol(1, 1), old.imm(2), 2)
}

/// What `store_u16` ensures.
pub open spec fn post_store_u16<R: Reactor>(new: VM<R>, old: VM<R>) -> bool {
    &&& new.st.r@ == old.st.r@
    &&& new.st.pc == old.st.pc + 3
    &&& new.same_ctl(&old)
    &&& heaps_written(
                new.mem.data@,
                old.mem.data@,
                old.spot_id(old.ol(1, 0)),
                old.spot_pos(old.ol(1, 1), old.imm(2)),
                le_bytes(old.reg(old.ol(1, 2)) as nat, 2),
            )
}

/// What `store_u8` requires, read at pc.
pub open spec fn pre_store_u8<R: Reactor>(old: VM<R>) -> bool {
    &&& old.wf()
    &&& old.has_words(2)
    &&& old.spot_ok(old.ol(1, 0), old.ol(1, 1), old.imm(2), 1)
}

/// What `store_u8` ensures.
pub open spec fn post_store_u8<R: Reactor>(new: VM<R>, old: VM<R>) -> bool {
    &&& new.st.r@ == old.st.r@
    &&& new.st.pc == old.st.pc + 3
    &&& new.same_ctl(&old)
    &&& heaps_written(
                new.mem.data@,
                old.mem.data@,
                old.spot_id(old.ol(1, 0)),
                old.spot_pos(old.ol(1, 1), old.imm(2)),
                le_bytes(old.reg(old.ol(1, 2)) as nat, 1),
            )
}

/// What `atomic_load_u64` requires, read at pc.
pub open spec fn pre_atomic_load_u64<R: Reactor>(old: VM<R>) -> bool {
    &&& old.wf()
    &&& old.has_words(2)
    &&& old.spot_ok(old.ol(1, 0), old.ol(1, 1), old.imm(2), 8)
}

/// What `atomic_load_u64` ensures.
pub open spec fn post_atomic_load_u64<R: Reactor>(new: VM<R>, old: VM<R>) -> bool {
    &&& new.set_and_step(&old, old.ol(1, 2), le_value(old.spot_bytes(old.ol(1, 0), old.ol(1, 1), old.imm(2), 8)) as u64, 3)
}

/// What `atomic_store_u64` requires, read at pc.
pub open spec fn pre_atomic_store_u64<R: Reactor>(old: VM<R>) -> bool {
    &&& old.wf()
    &&& old.has_words(2)
    &&& old.spot_ok(old.ol(1, 0), old.ol(1, 1), old.imm(2), 8)
}

/// What `atomic_store_u64` ensures.
pub open spec fn post_atomic_store_u64<R: Reactor>(new: VM<R>, old: VM<R>) -> bool {
    &&& new.st.r@ == old.st.r@
    &&& new.st.pc == old.st.pc + 3
    &&& new.same_ctl(&old)
    &&& heaps_written(
                new.mem.data@,
                old.mem.data@,
                old.spot_id(old.ol(1, 0)),
                old.spot_pos(old.ol(1, 1), old.imm(2)),
                le_bytes(old.reg(old.ol(1, 2)) as nat, 8),
            )
}

/// What `atomic_add_u64` requires, read at pc.
pub open spec fn pre_atomic_add_u64<R: Reactor>(old: VM<R>) -> bool {
    &&& old.wf()
    &&& old.has_words(2)
    &&& old.spot_ok(old.ol(1, 1), old.ol(1, 2), old.imm(2), 8)
}

/// What `atomic_add_u64` ensures.
pub open spec fn post_atomic_add_u64<R: Reactor>(new: VM<R>, old: VM<R>) -> bool {
    &&& new.st.r@ == old.st.r@.update(old.ol(1, 0) as int, le_value(old.spot_bytes(old.ol(1, 1), old.ol(1, 2), old.imm(2), 8)) as u64)
    &&& new.st.pc == old.st.pc + 3
    &&& new.same_ctl(&old)
    &&& heaps_written(
                new.mem.data@,
                old.mem.data@,
                old.spot_id(old.ol(1, 1)),
                old.spot_pos(old.ol(1, 2), old.imm(2)),
                le_bytes(wrapn(le_value(old.spot_bytes(old.ol(1, 1), old.ol(1, 2), old.imm(2), 8)) + old.reg(old.ol(1, 3)), 8), 8),
            )
}

/// What `atomic_sub_u64` requires, read at pc.
pub open spec fn pre_atomic_sub_u64<R: Reactor>(old: VM<R>) -> bool {
    &&& old.wf()
    &&& old.has_words(2)
    &&& old.spot_ok(old.ol(1, 1), old.ol(1, 2), old.imm(2), 8)
}

/// What `atomic_sub_u64` ensures.
pub open spec fn post_atomic_sub_u64<R: Reactor>(new: VM<R>, old: VM<R>) -> bool {
    &&& new.st.r@ == old.st.r@.update(old.ol(1, 0) as int, le_value(old.spot_bytes(old.ol(1, 1), old.ol(1, 2), old.imm(2), 8)) as u64)
    &&& new.st.pc == old.st.pc + 3
    &&& new.same_ctl(&old)
    &&& heaps_written(
                new.mem.data@,
                old.mem.data@,
                old.spot_id(old.ol(1, 1)),
                old.spot_pos(old.ol(1, 2), old.imm(2)),
                le_bytes(wrapn(le_value(old.spot_bytes(old.ol(1, 1), old.ol(1, 2), old.imm(2), 8)) - old.reg(old.ol(1, 3)), 8), 8),
            )
}

/// What `atomic_load_u32` requires, read at pc.
pub open spec fn pre_atomic_load_u32<R: Reactor>(old: VM<R>) -> bool {
    &&& old.wf()
    &&& old.has_words(2)
    &&& old.spot_ok(old.ol(1, 0), old.ol(1, 1), old.imm(2), 4)
}

/// What `atomic_load_u32` ensures.
pub open spec fn post_atomic_load_u32<R: Reactor>(new: VM<R>, old: VM<R>) -> bool {
    &&& new.set_and_step(&old, old.ol(1, 2), le_value(old.spot_bytes(old.ol(1, 0), old.ol(1, 1), old.imm(2), 4)) as u64, 3)
}

/// What `atomic_store_u32` requires, read at pc.
pub open spec fn pre_atomic_store_u32<R: Reactor>(old: VM<R>) -> bool {
    &&& old.wf()
    &&& old.has_words(2)
    &&& old.spot_ok(old.ol(1, 0), old.ol(1, 1), old.imm(2), 4)
}

/// What `atomic_store_u32` ensures.
pub open spec fn post_atomic_store_u32<R: Reactor>(new: VM<R>, old: VM<R>) -> bool {
    &&& new.st.r@ == old.st.r@
    &&& new.st.pc == old.st.pc + 3
    &&& new.same_ctl(&old)
    &&& heaps_written(
                new.mem.data@,
                old.mem.data@,
                old.spot_id(old.ol(1, 0)),
                old.spot_pos(old.ol(1, 1), old.imm(2)),
                le_bytes(old.reg(old.ol(1, 2)) as nat, 4),
            )
}

/// What `atomic_add_u32` requires, read at pc.
pub open spec fn pre_atomic_add_u32<R: Reactor>(old: VM<R>) -> bool {
    &&& old.wf()
    &&& old.has_words(2)
    &&& old.spot_ok(old.ol(1, 1), old.ol(1, 2), old.imm(2), 4)
}

/// What `atomic_add_u32` ensures.
pub open spec fn post_atomic_add_u32<R: Reactor>(new: VM<R>, old: VM<R>) -> bool {
    &&& new.st.r@ == old.st.r@.update(old.ol(1, 0) as int, le_value(old.spot_bytes(old.ol(1, 1), old.ol(1, 2), old.imm(2), 4)) as u64)
    &&& new.st.pc == old.st.pc + 3
    &&& new.same_ctl(&old)
    &&& heaps_written(
                new.mem.data@,
                old.mem.data@,
                old.spot_id(old.ol(1, 1)),
                old.spot_pos(old.ol(1, 2), old.imm(2)),
                le_bytes(wrapn(le_value(old.spot_bytes(old.ol(1, 1), old.ol(1, 2), old.imm(2), 4)) + old.reg(old.ol(1, 3)), 4), 4),
            )
}

/// What `atomic_sub_u32` requires, read at pc.
pub open spec fn pre_atomic_sub_u32<R: Reactor>(old: VM<R>) -> bool {
    &&& old.wf()
    &&& old.has_words(2)
    &&& old.spot_ok(old.ol(1, 1), old.ol(1, 2), old.imm(2), 4)
}

/// What `atomic_sub_u32` ensures.
pub open spec fn post_atomic_sub_u32<R: Reactor>(new: VM<R>, old: VM<R>) -> bool {
    &&& new.st.r@ == old.st.r@.update(old.ol(1, 0) as int, le_value(old.spot_bytes(old.ol(1, 1), old.ol(1, 2), old.imm(2), 4)) as u64)
    &&& new.st.pc == old.st.pc + 3
    &&& new.same_ctl(&old)
    &&& heaps_written(
                new.mem.data@,
                old.mem.data@,
                old.spot_id(old.ol(1, 1)),
                old.spot_pos(old.ol(1, 2), old.imm(2)),
                le_bytes(wrapn(le_value(old.spot_bytes(old.ol(1, 1), old.ol(1, 2), old.imm(2), 4)) - old.reg(old.ol(1, 3)), 4), 4),
            )
}

/// What `atomic_load_u16` requires, read at pc.
pub open spec fn pre_atomic_load_u16<R: Reactor>(old: VM<R>) -> bool {
    &&& old.wf()
    &&& old.has_words(2)
    &&& old.spot_ok(old.ol(1, 0), old.ol(1, 1), old.imm(2), 2)
}

/// What `atomic_load_u16` ensures.
pub open spec fn post_atomic_load_u16<R: Reactor>(new: VM<R>, old: VM<R>) -> bool {
    &&& new.set_and_step(&old, old.ol(1, 2), le_value(old.spot_bytes(old.ol(1, 0), old.ol(1, 1), old.imm(2), 2)) as u64, 3)
}

/// What `atomic_store_u16` requires, read at pc.
pub open spec fn pre_atomic_store_u16<R: Reactor>(old: VM<R>) -> bool {
    &&& old.wf()
    &&& old.has_words(2)
    &&& old.spot_ok(old.ol(1, 0), old.ol(1, 1), old.imm(2), 2)
}

/// What `atomic_store_u16` ensures.
pub open spec fn post_atomic_store_u16<R: Reactor>(new: VM<R>, old: VM<R>) -> bool {
    &&& new.st.r@ == old.st.r@
    &&& new.st.pc == old.st.pc + 3
    &&& new.same_ctl(&old)
    &&& heaps_written(
                new.mem.data@,
                old.mem.data@,
                old.spot_id(old.ol(1, 0)),
                old.spot_pos(old.ol(1, 1), old.imm(2)),
                le_bytes(old.reg(old.ol(1, 2)) as nat, 2),
            )
}

/// What `atomic_add_u16` requires, read at pc.
pub open spec fn pre_atomic_add_u16<R: Reactor>(old: VM<R>) -> bool {
    &&& old.wf()
    &&& old.has_words(2)
    &&& old.spot_ok(old.ol(1, 1), old.ol(1, 2), old.imm(2), 2)
}

/// What `atomic_add_u16` ensures.
pub open spec fn post_atomic_add_u16<R: Reactor>(new: VM<R>, old: VM<R>) -> bool {
    &&& new.st.r@ == old.st.r@.update(old.ol(1, 0) as int, le_value(old.spot_bytes(old.ol(1, 1), old.ol(1, 2), old.imm(2), 2)) as u64)
    &&& new.st.pc == old.st.pc + 3
    &&& new.same_ctl(&old)
    &&& heaps_written(
                new.mem.data@,
                old.mem.data@,
                old.spot_id(old.ol(1, 1)),
                old.spot_pos(old.ol(1, 2), old.imm(2)),
                le_bytes(wrapn(le_value(old.spot_bytes(old.ol(1, 1), old.ol(1, 2), old.imm(2), 2)) + old.reg(old.ol(1, 3)), 2), 2),
            )
}

/// What `atomic_sub_u16` requires, read at pc.
pub open spec fn pre_atomic_sub_u16<R: Reactor>(old: VM<R>) -> bool {
    &&& old.wf()
    &&& old.has_words(2)
    &&& old.spot_ok(old.ol(1, 1), old.ol(1, 2), old.imm(2), 2)
}

/// What `atomic_sub_u16` ensures.
pub open spec fn post_atomic_sub_u16<R: Reactor>(new: VM<R>, old: VM<R>) -> bool {
    &&& new.st.r@ == old.st.r@.update(old.ol(1, 0) as int, le_value(old.spot_bytes(old.ol(1, 1), old.ol(1, 2), old.imm(2), 2)) as u64)
    &&& new.st.pc == old.st.pc + 3
    &&& new.same_ctl(&old)
    &&& heaps_written(
                new.mem.data@,
                old.mem.data@,
                old.spot_id(old.ol(1, 1)),
                old.spot_pos(old.ol(1, 2), old.imm(2)),
                le_bytes(wrapn(le_value(old.spot_bytes(old.ol(1, 1), old.ol(1, 2), old.imm(2), 2)) - old.reg(old.ol(1, 3)), 2), 2),
            )
}

/// What `atomic_load_u8` requires, read at pc.
pub open spec fn pre_atomic_load_u8<R: Reactor>(old: VM<R>) -> bool {
    &&& old.wf()
    &&& old.has_words(2)
    &&& old.spot_ok(old.ol(1, 0), old.ol(1, 1), old.imm(2), 1)
}

/// What `atomic_load_u8` ensures.
pub open spec fn post_atomic_load_u8<R: Reactor>(new: VM<R>, old: VM<R>) -> bool {
    &&& new.set_and_step(&old, old.ol(1, 2), le_value(old.spot_bytes(old.ol(1, 0), old.ol(1, 1), old.imm(2), 1)) as u64, 3)
}

/// What `atomic_store_u8` requires, read at pc.
pub open spec fn pre_atomic_store_u8<R: Reactor>(old: VM<R>) -> bool {
    &&& old.wf()
    &&& old.has_words(2)
    &&& old.spot_ok(old.ol(1, 0), old.ol(1, 1), old.imm(2), 1)
}

/// What `atomic_store_u8` ensures.
pub open spec fn post_atomic_store_u8<R: Reactor>(new: VM<R>, old: VM<R>) -> bool {
    &&& new.st.r@ == old.st.r@
    &&& new.st.pc == old.st.pc + 3
    &&& new.same_ctl(&old)
    &&& heaps_written(
                new.mem.data@,
                old.mem.data@,
                old.spot_id(old.ol(1, 0)),
                old.spot_pos(old.ol(1, 1), old.imm(2)),
                le_bytes(old.reg(old.ol(1, 2)) as nat, 1),
            )
}

/// What `atomic_add_u8` requires, read at pc.
pub open spec fn pre_atomic_add_u8<R: Reactor>(old: VM<R>) -> bool {
    &&& old.wf()
    &&& old.has_words(2)
    &&& old.spot_ok(old.ol(1, 1), old.ol(1, 2), old.imm(2), 1)
}

/// What `atomic_add_u8` ensures.
pub open spec fn post_atomic_add_u8<R: Reactor>(new: VM<R>, old: VM<R>) -> bool {
    &&& new.st.r@ == old.st.r@.update(old.ol(1, 0) as int, le_value(old.spot_bytes(old.ol(1, 1), old.ol(1, 2), old.imm(2), 1)) as u64)
    &&& new.st.pc == old.st.pc + 3
    &&& new.same_ctl(&old)
    &&& heaps_written(
                new.mem.data@,
                old.mem.data@,
                old.spot_id(old.ol(1, 1)),
                old.spot_pos(old.ol(1, 2), old.imm(2)),
                le_bytes(wrapn(le_value(old.spot_bytes(old.ol(1, 1), old.ol(1, 2), old.imm(2), 1)) + old.reg(old.ol(1, 3)), 1), 1),
            )
}

/// What `atomic_sub_u8` requires, read at pc.
pub open spec fn pre_atomic_sub_u8<R: Reactor>(old: VM<R>) -> bool {
    &&& old.wf()
    &&& old.has_words(2)
    &&& old.spot_ok(old.ol(1, 1), old.ol(1, 2), old.imm(2), 1)
}

/// What `atomic_sub_u8` ensures.
pub open spec fn post_atomic_sub_u8<R: Reactor>(new: VM<R>, old: VM<R>) -> bool {
    &&& new.st.r@ == old.st.r@.update(old.ol(1, 0) as int, le_value(old.spot_bytes(old.ol(1, 1), old.ol(1, 2), old.imm(2), 1)) as u64)
    &&& new.st.pc == old.st.pc + 3
    &&& new.same_ctl(&old)
    &&& heaps_written(
                new.mem.data@,
                old.mem.data@,
                old.spot_id(old.ol(1, 1)),
                old.spot_pos(old.ol(1, 2), old.imm(2)),
                le_bytes(wrapn(le_value(old.spot_bytes(old.ol(1, 1), old.ol(1, 2), old.imm(2), 1)) - old.reg(old.ol(1, 3)), 1), 1),
            )
}

/// What `atomic_load_i8` requires, read at pc.
pub open spec fn pre_atomic_load_i8<R: Reactor>(old: VM<R>) -> bool {
    &&& old.wf()
    &&& old.has_words(2)
    &&& old.spot_ok(old.ol(1, 0), old.ol(1, 1), old.imm(2), 1)
}

/// What `atomic_load_i8` ensures.
pub open spec fn post_atomic_load_i8<R: Reactor>(new: VM<R>, old: VM<R>) -> bool {
    &&& new.set_and_step(&old, old.ol(1, 2), sext(le_value(old.spot_bytes(old.ol(1, 0), old.ol(1, 1), old.imm(2), 1)), 1), 3)
}

/// What `atomic_load_i16` requires, read at pc.
pub open spec fn pre_atomic_load_i16<R: Reactor>(old: VM<R>) -> bool {
    &&& old.wf()
    &&& old.has_words(2)
    &&& old.spot_ok(old.ol(1, 0), old.ol(1, 1), old.imm(2), 2)
}

/// What `atomic_load_i16` ensures.
pub open spec fn post_atomic_load_i16<R: Reactor>(new: VM<R>, old: VM<R>) -> bool {
    &&& new.set_and_step(&old, old.ol(1, 2), sext(le_value(old.spot_bytes(old.ol(1, 0), old.ol(1, 1), old.imm(2), 2)), 2), 3)
}

/// What `atomic_load_i32` requires, read at pc.
pub open spec fn pre_atomic_load_i32<R: Reactor>(old: VM<R>) -> bool {
    &&& old.wf()
    &&& old.has_words(2)
    &&& old.spot_ok(old.ol(1, 0), old.ol(1, 1), old.imm(2), 4)
}

/// What `atomic_load_i32` ensures.
pub open spec fn post_atomic_load_i32<R: Reactor>(new: VM<R>, old: VM<R>) -> bool {
    &&& new.set_and_step(&old, old.ol(1, 2), sext(le_value(old.spot_bytes(old.ol(1, 0), old.ol(1, 1), old.imm(2), 4)), 4), 3)
}

/// What `atomic_load_i64` requires, read at pc.
pub open spec fn pre_atomic_load_i64<R: Reactor>(old: VM<R>) -> bool {
    &&& old.wf()
    &&& old.has_words(2)
    &&& old.spot_ok(old.ol(1, 0), old.ol(1, 1), old.imm(2), 8)
}

/// What `atomic_load_i64` ensures.
pub open spec fn post_atomic_load_i64<R: Reactor>(new: VM<R>, old: VM<R>) -> bool {
    &&& new.set_and_step(&old, old.ol(1, 2), sext(le_value(old.spot_bytes(old.ol(1, 0), old.ol(1, 1), old.imm(2), 8)), 8), 3)
}

/// What `atomic_store_i8` requires, read at pc.
pub open spec fn pre_atomic_store_i8<R: Reactor>(old: VM<R>) -> bool {
    &&& old.wf()
    &&& old.has_words(2)
    &&& old.spot_ok(old.ol(1, 0), old.ol(1, 1), old.imm(2), 1)
}

/// What `atomic_store_i8` ensures.
pub open spec fn post_atomic_store_i8<R: Reactor>(new: VM<R>, old: VM<R>) -> bool {
    &&& new.st.r@ == old.st.r@
    &&& new.st.pc == old.st.pc + 3
    &&& new.same_ctl(&old)
    &&& heaps_written(
                new.mem.data@,
                old.mem.data@,
                old.spot_id(old.ol(1, 0)),
                old.spot_pos(old.ol(1, 1), old.imm(2)),
                le_bytes(old.reg(old.ol(1, 2)) as nat, 1),
            )
}

/// What `atomic_store_i16` requires, read at pc.
pub open spec fn pre_atomic_store_i16<R: Reactor>(old: VM<R>) -> bool {
    &&& old.wf()
    &&& old.has_words(2)
    &&& old.spot_ok(old.ol(1, 0), old.ol(1, 1), old.imm(2), 2)
}

/// What `atomic_store_i16` ensures.
pub open spec fn post_atomic_store_i16<R: Reactor>(new: VM<R>, old: VM<R>) -> bool {
    &&& new.st.r@ == old.st.r@
    &&& new.st.pc == old.st.pc + 3
    &&& new.same_ctl(&old)
    &&& heaps_written(
                new.mem.data@,
                old.mem.data@,
                old.spot_id(old.ol(1, 0)),
                old.spot_pos(old.ol(1, 1), old.imm(2)),
                le_bytes(old.reg(old.ol(1, 2)) as nat, 2),
            )
}

/// What `atomic_store_i32` requires, read at pc.
pub open spec fn pre_atomic_store_i32<R: Reactor>(old: VM<R>) -> bool {
    &&& old.wf()
    &&& old.has_words(2)
    &&& old.spot_ok(old.ol(1, 0), old.ol(1, 1), old.imm(2), 4)
}

/// What `atomic_store_i32` ensures.
pub open spec fn post_atomic_store_i32<R: Reactor>(new: VM<R>, old: VM<R>) -> bool {
    &&& new.st.r@ == old.st.r@
    &&& new.st.pc == old.st.pc + 3
    &&& new.same_ctl(&old)
    &&& heaps_written(
                new.mem.data@,
                old.mem.data@,
                old.spot_id(old.ol(1, 0)),
                old.spot_pos(old.ol(1, 1), old.imm(2)),
                le_bytes(old.reg(old.ol(1, 2)) as nat, 4),
            )
}

/// What `atomic_store_i64` requires, read at pc.
pub open spec fn pre_atomic_store_i64<R: Reactor>(old: VM<R>) -> bool {
    &&& old.wf()
    &&& old.has_words(2)
    &&& old.spot_ok(old.ol(1, 0), old.ol(1, 1), old.imm(2), 8)
}

/// What `atomic_store_i64` ensures.
pub open spec fn post_atomic_store_i64<R: Reactor>(new: VM<R>, old: VM<R>) -> bool {
    &&& new.st.r@ == old.st.r@
    &&& new.st.pc == old.st.pc + 3
    &&& new.same_ctl(&old)
    &&& heaps_written(
                new.mem.data@,
                old.mem.data@,
                old.spot_id(old.ol(1, 0)),
                old.spot_pos(old.ol(1, 1), old.imm(2)),
                le_bytes(old.reg(old.ol(1, 2)) as nat, 8),
            )
}

/// What `atomic_add_i8` requires, read at pc.
pub open spec fn pre_atomic_add_i8<R: Reactor>(old: VM<R>) -> bool {
    &&& old.wf()
    &&& old.has_words(2)
    &&& old.spot_ok(old.ol(1, 1), old.ol(1, 2), old.imm(2), 1)
}

/// What `atomic_add_i8` ensures.
pub open spec fn post_atomic_add_i8<R: Reactor>(new: VM<R>, old: VM<R>) -> bool {
    &&& new.st.r@ == old.st.r@.update(old.ol(1, 0) as int, sext(le_value(old.spot_bytes(old.ol(1, 1), old.ol(1, 2), old.imm(2), 1)), 1))
    &&& new.st.pc == old.st.pc + 3
    &&& new.same_ctl(&old)
    &&& heaps_written(
                new.mem.data@,
                old.mem.data@,
                old.spot_id(old.ol(1, 1)),
                old.spot_pos(old.ol(1, 2), old.imm(2)),
                le_bytes(wrapn(le_value(old.spot_bytes(old.ol(1, 1), old.ol(1, 2), old.imm(2), 1)) + old.reg(old.ol(1, 3)), 1), 1),
            )
}

/// What `atomic_add_i16` requires, read at pc.
pub open spec fn pre_atomic_add_i16<R: Reactor>(old: VM<R>) -> bool {
    &&& old.wf()
    &&& old.has_words(2)
    &&& old.spot_ok(old.ol(1, 1), old.ol(1, 2), old.imm(2), 2)
}

/// What `atomic_add_i16` ensures.
pub open spec fn post_atomic_add_i16<R: Reactor>(new: VM<R>, old: VM<R>) -> bool {
    &&& new.st.r@ == old.st.r@.update(old.ol(1, 0) as int, sext(le_value(old.spot_bytes(old.ol(1, 1), old.ol(1, 2), old.imm(2), 2)), 2))
    &&& new.st.pc == old.st.pc + 3
    &&& new.same_ctl(&old)
    &&& heaps_written(
                new.mem.data@,
                old.mem.data@,
                old.spot_id(old.ol(1, 1)),
                old.spot_pos(old.ol(1, 2), old.imm(2)),
                le_bytes(wrapn(le_value(old.spot_bytes(old.ol(1, 1), old.ol(1, 2), old.imm(2), 2)) + old.reg(old.ol(1, 3)), 2), 2),
            )
}

/// What `atomic_add_i32` requires, read at pc.
pub open spec fn pre_atomic_add_i32<R: Reactor>(old: VM<R>) -> bool {
    &&& old.wf()
    &&& old.has_words(2)
    &&& old.spot_ok(old.ol(1, 1), old.ol(1, 2), old.imm(2), 4)
}

/// What `atomic_add_i32` ensures.
pub open spec fn post_atomic_add_i32<R: Reactor>(new: VM<R>, old: VM<R>) -> bool {
    &&& new.st.r@ == old.st.r@.update(old.ol(1, 0) as int, sext(le_value(old.spot_bytes(old.ol(1, 1), old.ol(1, 2), old.imm(2), 4)), 4))
    &&& new.st.pc == old.st.pc + 3
    &&& new.same_ctl(&old)
    &&& heaps_written(
                new.mem.data@,
                old.mem.data@,
                old.spot_id(old.ol(1, 1)),
                old.spot_pos(old.ol(1, 2), old.imm(2)),
                le_bytes(wrapn(le_value(old.spot_bytes(old.ol(1, 1), old.ol(1, 2), old.imm(2), 4)) + old.reg(old.ol(1, 3)), 4), 4),
            )
}

/// What `atomic_add_i64` requires, read at pc.
pub open spec fn pre_atomic_add_i64<R: Reactor>(old: VM<R>) -> bool {
    &&& old.wf()
    &&& old.has_words(2)
    &&& old.spot_ok(old.ol(1, 1), old.ol(1, 2), old.imm(2), 8)
}

/// What `atomic_add_i64` ensures.
pub open spec fn post_atomic_add_i64<R: Reactor>(new: VM<R>, old: VM<R>) -> bool {
    &&& new.st.r@ == old.st.r@.update(old.ol(1, 0) as int, sext(le_value(old.spot_bytes(old.ol(1, 1), old.ol(1, 2), old.imm(2), 8)), 8))
    &&& new.st.pc == old.st.pc + 3
    &&& new.same_ctl(&old)
    &&& heaps_written(
                new.mem.data@,
                old.mem.data@,
                old.spot_id(old.ol(1, 1)),
                old.spot_pos(old.ol(1, 2), old.imm(2)),
                le_bytes(wrapn(le_value(old.spot_bytes(old.ol(1, 1), old.ol(1, 2), old.imm(2), 8)) + old.reg(old.ol(1, 3)), 8), 8),
            )
}

/// What `atomic_sub_i8` requires, read at pc.
pub open spec fn pre_atomic_sub_i8<R: Reactor>(old: VM<R>) -> bool {
    &&& old.wf()
    &&& old.has_words(2)
    &&& old.spot_ok(old.ol(1, 1), old.ol(1, 2), old.imm(2), 1)
}

/// What `atomic_sub_i8` ensures.
pub open spec fn post_atomic_sub_i8<R: Reactor>(new: VM<R>, old: VM<R>) -> bool {
    &&& new.st.r@ == old.st.r@.update(old.ol(1, 0) as int, sext(le_value(old.spot_bytes(old.ol(1, 1), old.ol(1, 2), old.imm(2), 1)), 1))
    &&& new.st.pc == old.st.pc + 3
    &&& new.same_ctl(&old)
    &&& heaps_written(
                new.mem.data@,
                old.mem.data@,
                old.spot_id(old.ol(1, 1)),
                old.spot_pos(old.ol(1, 2), old.imm(2)),
                le_bytes(wrapn(le_value(old.spot_bytes(old.ol(1, 1), old.ol(1, 2), old.imm(2), 1)) - old.reg(old.ol(1, 3)), 1), 1),
            )
}

/// What `atomic_sub_i16` requires, read at pc.
pub open spec fn pre_atomic_sub_i16<R: Reactor>(old: VM<R>) -> bool {
    &&& old.wf()
    &&& old.has_words(2)
    &&& old.spot_ok(old.ol(1, 1), old.ol(1, 2), old.imm(2), 2)
}

/// What `atomic_sub_i16` ensures.
pub open spec fn post_atomic_sub_i16<R: Reactor>(new: VM<R>, old: VM<R>) -> bool {
    &&& new.st.r@ == old.st.r@.update(old.ol(1, 0) as int, sext(le_value(old.spot_bytes(old.ol(1, 1), old.ol(1, 2), old.imm(2), 2)), 2))
    &&& new.st.pc == old.st.pc + 3
    &&& new.same_ctl(&old)
    &&& heaps_written(
                new.mem.data@,
                old.mem.data@,
                old.spot_id(old.ol(1, 1)),
                old.spot_pos(old.ol(1, 2), old.imm(2)),
                le_bytes(wrapn(le_value(old.spot_bytes(old.ol(1, 1), old.ol(1, 2), old.imm(2), 2)) - old.reg(old.ol(1, 3)), 2), 2),
            )
}

/// What `atomic_sub_i32` requires, read at pc.
pub open spec fn pre_atomic_sub_i32<R: Reactor>(old: VM<R>) -> bool {
    &&& old.wf()
    &&& old.has_words(2)
    &&& old.spot_ok(old.ol(1, 1), old.ol(1, 2), old.imm(2), 4)
}

/// What `atomic_sub_i32` ensures.
pub open spec fn post_atomic_sub_i32<R: Reactor>(new: VM<R>, old: VM<R>) -> bool {
    &&& new.st.r@ == old.st.r@.update(old.ol(1, 0) as int, sext(le_value(old.spot_bytes(old.ol(1, 1), old.ol(1, 2), old.imm(2), 4)), 4))
    &&& new.st.pc == old.st.pc + 3
    &&& new.same_ctl(&old)
    &&& heaps_written(
                new.mem.data@,
                old.mem.data@,
                old.spot_id(old.ol(1, 1)),
                old.spot_pos(old.ol(1, 2), old.imm(2)),
                le_bytes(wrapn(le_value(old.spot_bytes(old.ol(1, 1), old.ol(1, 2), old.imm(2), 4)) - old.reg(old.ol(1, 3)), 4), 4),
            )
}

/// What `atomic_sub_i64` requires, read at pc.
pub open spec fn pre_atomic_sub_i64<R: Reactor>(old: VM<R>) -> bool {
    &&& old.wf()
    &&& old.has_words(2)
    &&& old.spot_ok(old.ol(1, 1), old.ol(1, 2), old.imm(2), 8)
}

/// What `atomic_sub_i64` ensures.
pub open spec fn post_atomic_sub_i64<R: Reactor>(new: VM<R>, old: VM<R>) -> bool {
    &&& new.st.r@ == old.st.r@.update(old.ol(1, 0) as int, sext(le_value(old.spot_bytes(old.ol(1, 1), old.ol(1, 2), old.imm(2), 8)), 8))
    &&& new.st.pc == old.st.pc + 3
    &&& new.same_ctl(&old)
    &&& heaps_written(
                new.mem.data@,
                old.mem.data@,
                old.spot_id(old.ol(1, 1)),
                old.spot_pos(old.ol(1, 2), old.imm(2)),
                le_bytes(wrapn(le_value(old.spot_bytes(old.ol(1, 1), old.ol(1, 2), old.imm(2), 8)) - old.reg(old.ol(1, 3)), 8), 8),
            )
}

/// What `load_i8` requires, read at pc.
pub open spec fn pre_load_i8<R: Reactor>(old: VM<R>) -> bool {
    &&& old.wf()
    &&& old.has_words(2)
    &&& old.spot_ok(old.ol(1, 0), old.ol(1, 1), old.imm(2), 1)
}

/// What `load_i8` ensures.
pub open spec fn post_load_i8<R: Reactor>(new: VM<R>, old: VM<R>) -> bool {
    &&& new.set_and_step(&old, old.ol(1, 2), sext(le_value(old.spot_bytes(old.ol(1, 0), old.ol(1, 1), old.imm(2), 1)), 1), 3)
}

/// What `load_i16` requires, read at pc.
pub open spec fn pre_load_i16<R: Reactor>(old: VM<R>) -> bool {
    &&& old.wf()
    &&& old.has_words(2)
    &&& old.spot_ok(old.ol(1, 0), old.ol(1, 1), old.imm(2), 2)
}

/// What `load_i16` ensures.
pub open spec fn post_load_i16<R: Reactor>(new: VM<R>, old: VM<R>) -> bool {
    &&& new.set_and_step(&old, old.ol(1, 2), sext(le_value(old.spot_bytes(old.ol(1, 0), old.ol(1, 1), old.imm(2), 2)), 2), 3)
}

/// What `load_i32` requires, read at pc.
pub open spec fn pre_load_i32<R: Reactor>(old: VM<R>) -> bool {
    &&& old.wf()
    &&& old.has_words(2)
    &&& old.spot_ok(old.ol(1, 0), old.ol(1, 1), old.imm(2), 4)
}

/// What `load_i32` ensures.
pub open spec fn post_load_i32<R: Reactor>(new: VM<R>, old: VM<R>) -> bool {
    &&& new.set_and_step(&old, old.ol(1, 2), sext(le_value(old.spot_bytes(old.ol(1, 0), old.ol(1, 1), old.imm(2), 4)), 4), 3)
}

/// What `load_i64` requires, read at pc.
pub open spec fn pre_load_i64<R: Reactor>(old: VM<R>) -> bool {
    &&& old.wf()
    &&& old.has_words(2)
    &&& old.spot_ok(old.ol(1, 0), old.ol(1, 1), old.imm(2), 8)
}

/// What `load_i64` ensures.
pub open spec fn post_load_i64<R: Reactor>(new: VM<R>, old: VM<R>) -> bool {
    &&& new.set_and_step(&old, old.ol(1, 2), sext(le_value(old.spot_bytes(old.ol(1, 0), old.ol(1, 1), old.imm(2), 8)), 8), 3)
}

/// What `store_i8` requires, read at pc.
pub open spec fn pre_store_i8<R: Reactor>(old: VM<R>) -> bool {
    &&& old.wf()
    &&& old.has_words(2)
    &&& old.spot_ok(old.ol(1, 0), old.ol(1, 1), old.imm(2), 1)
}

/// What `store_i8` ensures.
pub open spec fn post_store_i8<R: Reactor>(new: VM<R>, old: VM<R>) -> bool {
    &&& new.st.r@ == old.st.r@
    &&& new.st.pc == old.st.pc + 3
    &&& new.same_ctl(&old)
    &&& heaps_written(
                new.mem.data@,
                old.mem.data@,
                old.spot_id(old.ol(1, 0)),
                old.spot_pos(old.ol(1, 1), old.imm(2)),
                le_bytes(old.reg(old.ol(1, 2)) as nat, 1),
            )
}

/// What `store_i16` requires, read at pc.
pub open spec fn pre_store_i16<R: Reactor>(old: VM<R>) -> bool {
    &&& old.wf()
    &&& old.has_words(2)
    &&& old.spot_ok(old.ol(1, 0), old.ol(1, 1), old.imm(2), 2)
}

/// What `store_i16` ensures.
pub open spec fn post_store_i16<R: Reactor>(new: VM<R>, old: VM<R>) -> bool {
    &&& new.st.r@ == old.st.r@
    &&& new.st.pc == old.st.pc + 3
    &&& new.same_ctl(&old)
    &&& heaps_written(
                new.mem.data@,
                old.mem.data@,
                old.spot_id(old.ol(1, 0)),
                old.spot_pos(old.ol(1, 1), old.imm(2)),
                le_bytes(old.reg(old.ol(1, 2)) as nat, 2),
            )
}

/// What `store_i32` requires, read at pc.
pub open spec fn pre_store_i32<R: Reactor>(old: VM<R>) -> bool {
    &&& old.wf()
    &&& old.has_words(2)
    &&& old.spot_ok(old.ol(1, 0), old.ol(1, 1), old.imm(2), 4)
}

/// What `store_i32` ensures.
pub open spec fn post_store_i32<R: Reactor>(new: VM<R>, old: VM<R>) -> bool {
    &&& new.st.r@ == old.st.r@
    &&& new.st.pc == old.st.pc + 3
    &&& new.same_ctl(&old)
    &&& heaps_written(
                new.mem.data@,
                old.mem.data@,
                old.spot_id(old.ol(1, 0)),
                old.spot_pos(old.ol(1, 1), old.imm(2)),
                le_bytes(old.reg(old.ol(1, 2)) as nat, 4),
            )
}

/// What `store_i64` requires, read at pc.
pub open spec fn pre_store_i64<R: Reactor>(old: VM<R>) -> bool {
    &&& old.wf()
    &&& old.has_words(2)
    &&& old.spot_ok(old.ol(1, 0), old.ol(1, 1), old.imm(2), 8)
}

/// What `store_i64` ensures.
pub open spec fn post_store_i64<R: Reactor>(new: VM<R>, old: VM<R>) -> bool {
    &&& new.st.r@ == old.st.r@
    &&& new.st.pc == old.st.pc + 3
    &&& new.same_ctl(&old)
    &&& heaps_written(
                new.mem.data@,
                old.mem.data@,
                old.spot_id(old.ol(1, 0)),
                old.spot_pos(old.ol(1, 1), old.imm(2)),
                le_bytes(old.reg(old.ol(1, 2)) as nat, 8),
            )
}

/// What `call_thread` requires, read at pc.
pub open spec fn pre_call_thread<R: Reactor>(old: VM<R>) -> bool {
    &&& old.wf()
    &&& old.has_words(2)
}

/// What `call_thread` ensures.
pub open spec fn post_call_thread<R: Reactor>(new: VM<R>, old: VM<R>) -> bool {
    &&& new.set_and_step(&old, old.ol(1, 1), u64::MAX, 3)
}

/// What `set_io` requires, read at pc.
pub open spec fn pre_set_io<R: Reactor>(old: VM<R>) -> bool {
    &&& old.wf()
    &&& old.has_words(1)
    &&& io_request(old.st.r@, old.ol_seq(1)) is Some
    &&& old.io.next_id() < u64::MAX
}

/// What `set_io` ensures.
pub open spec fn post_set_io<R: Reactor>(new: VM<R>, old: VM<R>, res: Result<(), std::io::Error>) -> bool {
    &&& new.io.next_id() == old.io.next_id() + 1
    &&& new.io.reactor_handed(old.io.next_id(), io_request(old.st.r@, old.ol_seq(1))->0)
    &&& new.same_but_io(&old)
    &&& match res {
                Ok(()) => {
                    &&& new.st.r@ == old.st.r@.update(old.ol(1, 0) as int, old.io.next_id())
                    &&& new.st.pc == old.st.pc + 2
                    &&& submitted(
                        new.io,
                        old.io,
                        old.io.next_id(),
                        io_request(old.st.r@, old.ol_seq(1))->0,
                    )
                },
                Err(_) => {
                    &&& new.st.r@ == old.st.r@
                    &&& new.st.pc == old.st.pc + 1
                    &&& new.io.states() == old.io.states()
                    &&& new.io.queue() == old.io.queue()
                },
            }
}

/// What `wait_io` requires, read at pc.
pub open spec fn pre_wait_io<R: Reactor>(old: VM<R>) -> bool {
    &&& old.wf()
    &&& old.has_words(1)
}

/// What `wait_io` ensures.
pub open spec fn post_wait_io<R: Reactor>(new: VM<R>, old: VM<R>, res: Result<(), std::io::Error>) -> bool {
    &&& new.io.next_id() == old.io.next_id()
    &&& new.io.reactor_asked_to_wait(
                old.reg(old.ol(1, 0)) as i64,
                old.reg(old.ol(1, 1)) as usize,
            )
    &&& new.same_but_io(&old)
    &&& match res {
                Ok(()) => {
                    &&& new.st.pc == old.st.pc + 2
                    &&& new.st.r@ == old.st.r@.update(
                        old.ol(1, 2) as int,
                        new.st.r@[old.ol(1, 2) as int],
                    )
                    &&& new.st.r@[old.ol(1, 2) as int] <= old.reg(old.ol(1, 1)) as usize
                    &&& exists|ev: Seq<(FuId, IoResult)>|
                        ev.len() <= old.reg(old.ol(1, 1)) as usize && (
                            new.io.states(),
                            new.io.queue(),
                            new.st.r@[old.ol(1, 2) as int] as nat,
                        ) == #[trigger] record_all(old.io.states(), old.io.queue(), ev)
                },
                Err(_) => {
                    &&& new.st.r@ == old.st.r@
                    &&& new.st.pc == old.st.pc + 1
                    &&& new.io.states() == old.io.states()
                    &&& new.io.queue() == old.io.queue()
                },
            }
}

/// What `get_an_io` requires, read at pc.
pub open spec fn pre_get_an_io<R: Reactor>(old: VM<R>) -> bool {
    &&& old.wf()
    &&& old.has_words(1)
}

/// What `get_an_io` ensures.
pub open spec fn post_get_an_io<R: Reactor>(new: VM<R>, old: VM<R>) -> bool {
    &&& new.st.r@ == event_regs(
                old.st.r@,
                head_result(old.io.states(), old.io.queue()),
                old.ol(1, 0),
                old.ol(1, 1),
                old.ol(1, 2),
                old.ol(1, 3),
            )
    &&& new.st.pc == old.st.pc + 2
    &&& new.io.states() == old.io.states()
    &&& new.io.next_id() == old.io.next_id()
    &&& new.io.queue() == if old.io.queue().len() > 0 {
                old.io.queue().drop_first()
            } else {
                old.io.queue()
            }
    &&& new.same_but_io(&old)
}

/// The step of opcode `op` from `old`: its handler's contract where its
/// requirements hold, else `Fault` with nothing changed.
pub open spec fn op_step<R: Reactor>(op: Op, new: VM<R>, old: VM<R>, r: StepEnd) -> bool {
    match op {
        Op::Ret => if pre_ret(old) {
            r == StepEnd::Continued && post_ret(new, old)
        } else {
            r == StepEnd::Fault(op) && new == old
        },
        Op::Call => if pre_call(old) {
            r == StepEnd::Continued && post_call(new, old)
        } else {
            r == StepEnd::Fault(op) && new == old
        },
        Op::Jump => if pre_jump(old) {
            r == StepEnd::Continued && post_jump(new, old)
        } else {
            r == StepEnd::Fault(op) && new == old
        },
        Op::EqJump => if pre_eq_jump(old) {
            r == StepEnd::Continued && post_eq_jump(new, old)
        } else {
            r == StepEnd::Fault(op) && new == old
        },
        Op::NeqJump => if pre_neq_jump(old) {
            r == StepEnd::Continued && post_neq_jump(new, old)
        } else {
            r == StepEnd::Fault(op) && new == old
        },
        Op::LtU64Jump => if pre_lt_u64_jump(old) {
            r == StepEnd::Continued && post_lt_u64_jump(new, old)
        } else {
            r == StepEnd::Fault(op) && new == old
        },
        Op::LteU64Jump => if pre_lte_u64_jump(old) {
            r == StepEnd::Continued && post_lte_u64_jump(new, old)
        } else {
            r == StepEnd::Fault(op) && new == old
        },
        Op::LtI64Jump => if pre_lt_i64_jump(old) {
            r == StepEnd::Continued && post_lt_i64_jump(new, old)
        } else {
            r == StepEnd::Fault(op) && new == old
        },
        Op::LteI64Jump => if pre_lte_i64_jump(old) {
            r == StepEnd::Continued && post_lte_i64_jump(new, old)
        } else {
            r == StepEnd::Fault(op) && new == old
        },
        Op::GtU64Jump => if pre_gt_u64_jump(old) {
            r == StepEnd::Continued && post_gt_u64_jump(new, old)
        } else {
            r == StepEnd::Fault(op) && new == old
        },
        Op::GteU64Jump => if pre_gte_u64_jump(old) {
            r == StepEnd::Continued && post_gte_u64_jump(new, old)
        } else {
            r == StepEnd::Fault(op) && new == old
        },
        Op::GtI64Jump => if pre_gt_i64_jump(old) {
            r == StepEnd::Continued && post_gt_i64_jump(new, old)
        } else {
            r == StepEnd::Fault(op) && new == old
        },
        Op::GteI64Jump => if pre_gte_i64_jump(old) {
            r == StepEnd::Continued && post_gte_i64_jump(new, old)
        } else {
            r == StepEnd::Fault(op) && new == old
        },
        Op::Exit => if pre_exit(old) {
            r matches StepEnd::Exited(code) && post_exit(new, old, code)
        } else {
            r == StepEnd::Fault(op) && new == old
        },
        Op::Alloc => if pre_allocate(old) {
            r == StepEnd::Continued && post_allocate(new, old)
        } else {
            r == StepEnd::Fault(op) && new == old
        },
        Op::Realloc => if pre_realloc(old) {
            r == StepEnd::Continued && post_realloc(new, old)
        } else {
            r == StepEnd::Fault(op) && new == old
        },
        Op::Dealloc => if pre_dealloc(old) {
            r == StepEnd::Continued && post_dealloc(new, old)
        } else {
            r == StepEnd::Fault(op) && new == old
        },
        Op::Mov => if pre_mov(old) {
            r == StepEnd::Continued && post_mov(new, old)
        } else {
            r == StepEnd::Fault(op) && new == old
        },
        Op::LoadU64Immediate => if pre_load_u64_immediate(old) {
            r == StepEnd::Continued && post_load_u64_immediate(new, old)
        } else {
            r == StepEnd::Fault(op) && new == old
        },
        Op::Swap => if pre_swap(old) {
            r == StepEnd::Continued && post_swap(new, old)
        } else {
            r == StepEnd::Fault(op) && new == old
        },
        Op::AddU64 => if pre_add_u64(old) {
            r == StepEnd::Continued && post_add_u64(new, old)
        } else {
            r == StepEnd::Fault(op) && new == old
        },
        Op::AddU64Immediate => if pre_add_u64_immediate(old) {
            r == StepEnd::Continued && post_add_u64_immediate(new, old)
        } else {
            r == StepEnd::Fault(op) && new == old
        },
        Op::AddI64 => if pre_add_i64(old) {
            r == StepEnd::Continued && post_add_i64(new, old)
        } else {
            r == StepEnd::Fault(op) && new == old
        },
        Op::AddI64Immediate => if pre_add_i64_immediate(old) {
            r == StepEnd::Continued && post_add_i64_immediate(new, old)
        } else {
            r == StepEnd::Fault(op) && new == old
        },
        Op::SubU64 => if pre_sub_u64(old) {
            r == StepEnd::Continued && post_sub_u64(new, old)
        } else {
            r == StepEnd::Fault(op) && new == old
        },
        Op::SubU64Immediate => if pre_sub_u64_immediate(old) {
            r == StepEnd::Continued && post_sub_u64_immediate(new, old)
        } else {
            r == StepEnd::Fault(op) && new == old
        },
        Op::SubI64 => if pre_sub_i64(old) {
            r == StepEnd::Continued && post_sub_i64(new, old)
        } else {
            r == StepEnd::Fault(op) && new == old
        },
        Op::SubI64Immediate => if pre_sub_i64_immediate(old) {
            r == StepEnd::Continued && post_sub_i64_immediate(new, old)
        } else {
            r == StepEnd::Fault(op) && new == old
        },
        Op::MulU64 => if pre_mul_u64(old) {
            r == StepEnd::Continued && post_mul_u64(new, old)
        } else {
            r == StepEnd::Fault(op) && new == old
        },
        Op::MulU64Immediate => if pre_mul_u64_immediate(old) {
            r == StepEnd::Continued && post_mul_u64_immediate(new, old)
        } else {
            r == StepEnd::Fault(op) && new == old
        },
        Op::MulI64 => if pre_mul_i64(old) {
            r == StepEnd::Continued && post_mul_i64(new, old)
        } else {
            r == StepEnd::Fault(op) && new == old
        },
        Op::MulI64Immediate => if pre_mul_i64_immediate(old) {
            r == StepEnd::Continued && post_mul_i64_immediate(new, old)
        } else {
            r == StepEnd::Fault(op) && new == old
        },
        Op::DivU64 => if pre_div_u64(old) {
            r == StepEnd::Continued && post_div_u64(new, old)
        } else {
            r == StepEnd::Fault(op) && new == old
        },
        Op::DivU64Immediate => if pre_div_u64_immediate(old) {
            r == StepEnd::Continued && post_div_u64_immediate(new, old)
        } else {
            r == StepEnd::Fault(op) && new == old
        },
        Op::DivI64 => if pre_div_i64(old) {
            r == StepEnd::Continued && post_div_i64(new, old)
        } else {
            r == StepEnd::Fault(op) && new == old
        },
        Op::DivI64Immediate => if pre_div_i64_immediate(old) {
            r == StepEnd::Continued && post_div_i64_immediate(new, old)
        } else {
            r == StepEnd::Fault(op) && new == old
        },
        Op::Abs => if pre_abs(old) {
            r == StepEnd::Continued && post_abs(new, old)
        } else {
            r == StepEnd::Fault(op) && new == old
        },
        Op::ModI64 => if pre_mod_i64(old) {
            r == StepEnd::Continued && post_mod_i64(new, old)
        } else {
            r == StepEnd::Fault(op) && new == old
        },
        Op::NegI64 => if pre_neg_i64(old) {
            r == StepEnd::Continued && post_neg_i64(new, old)
        } else {
            r == StepEnd::Fault(op) && new == old
        },
        Op::U64ToF64 => r == StepEnd::Float(op) && new == old,
        Op::I64ToF64 => r == StepEnd::Float(op) && new == old,
        Op::AddF64 => r == StepEnd::Float(op) && new == old,
        Op::AddF64Immediate => r == StepEnd::Float(op) && new == old,
        Op::SubF64 => r == StepEnd::Float(op) && new == old,
        Op::SubF64Immediate => r == StepEnd::Float(op) && new == old,
        Op::MulF64 => r == StepEnd::Float(op) && new == old,
        Op::MulF64Immediate => r == StepEnd::Float(op) && new == old,
        Op::DivF64 => r == StepEnd::Float(op) && new == old,
        Op::DivF64Immediate => r == StepEnd::Float(op) && new == old,
        Op::AbsF64 => r == StepEnd::Float(op) && new == old,
        Op::NegF64 => r == StepEnd::Float(op) && new == old,
        Op::ToI64 => r == StepEnd::Float(op) && new == old,
        Op::AndU64 => if pre_and_u64(old) {
            r == StepEnd::Continued && post_and_u64(new, old)
        } else {
            r == StepEnd::Fault(op) && new == old
        },
        Op::AndU64Immediate => if pre_and_u64_immediate(old) {
            r == StepEnd::Continued && post_and_u64_immediate(new, old)
        } else {
            r == StepEnd::Fault(op) && new == old
        },
        Op::OrU64 => if pre_or_u64(old) {
            r == StepEnd::Continued && post_or_u64(new, old)
        } else {
            r == StepEnd::Fault(op) && new == old
        },
        Op::OrU64Immediate => if pre_or_u64_immediate(old) {
            r == StepEnd::Continued && post_or_u64_immediate(new, old)
        } else {
            r == StepEnd::Fault(op) && new == old
        },
        Op::XorU64 => if pre_xor_u64(old) {
            r == StepEnd::Continued && post_xor_u64(new, old)
        } else {
            r == StepEnd::Fault(op) && new == old
        },
        Op::XorU64Immediate => if pre_xor_u64_immediate(old) {
            r == StepEnd::Continued && post_xor_u64_immediate(new, old)
        } else {
            r == StepEnd::Fault(op) && new == old
        },
        Op::NotU64 => if pre_not_u64(old) {
            r == StepEnd::Continued && post_not_u64(new, old)
        } else {
            r == StepEnd::Fault(op) && new == old
        },
        Op::ShlU64 => if pre_shl_u64(old) {
            r == StepEnd::Continued && post_shl_u64(new, old)
        } else {
            r == StepEnd::Fault(op) && new == old
        },
        Op::ShlU64Immediate => if pre_shl_u64_immediate(old) {
            r == StepEnd::Continued && post_shl_u64_immediate(new, old)
        } else {
            r == StepEnd::Fault(op) && new == old
        },
        Op::ShlI64 => if pre_shl_i64(old) {
            r == StepEnd::Continued && post_shl_i64(new, old)
        } else {
            r == StepEnd::Fault(op) && new == old
        },
        Op::ShlI64Immediate => if pre_shl_i64_immediate(old) {
            r == StepEnd::Continued && post_shl_i64_immediate(new, old)
        } else {
            r == StepEnd::Fault(op) && new == old
        },
        Op::ShrU64 => if pre_shr_u64(old) {
            r == StepEnd::Continued && post_shr_u64(new, old)
        } else {
            r == StepEnd::Fault(op) && new == old
        },
        Op::ShrU64Immediate => if pre_shr_u64_immediate(old) {
            r == StepEnd::Continued && post_shr_u64_immediate(new, old)
        } else {
            r == StepEnd::Fault(op) && new == old
        },
        Op::ShrI64 => if pre_shr_i64(old) {
            r == StepEnd::Continued && post_shr_i64(new, old)
        } else {
            r == StepEnd::Fault(op) && new == old
        },
        Op::ShrI64Immediate => if pre_shr_i64_immediate(old) {
            r == StepEnd::Continued && post_shr_i64_immediate(new, old)
        } else {
            r == StepEnd::Fault(op) && new == old
        },
        Op::RolU64 => if pre_rol_u64(old) {
            r == StepEnd::Continued && post_rol_u64(new, old)
        } else {
            r == StepEnd::Fault(op) && new == old
        },
        Op::RolU64Immediate => if pre_rol_u64_immediate(old) {
            r == StepEnd::Continued && post_rol_u64_immediate(new, old)
        } else {
            r == StepEnd::Fault(op) && new == old
        },
        Op::RorU64 => if pre_ror_u64(old) {
            r == StepEnd::Continued && post_ror_u64(new, old)
        } else {
            r == StepEnd::Fault(op) && new == old
        },
        Op::RorU64Immediate => if pre_ror_u64_immediate(old) {
            r == StepEnd::Continued && post_ror_u64_immediate(new, old)
        } else {
            r == StepEnd::Fault(op) && new == old
        },
        Op::CountOnesU64 => if pre_count_ones_u64(old) {
            r == StepEnd::Continued && post_count_ones_u64(new, old)
        } else {
            r == StepEnd::Fault(op) && new == old
        },
        Op::CountZerosU64 => if pre_count_zeros_u64(old) {
            r == StepEnd::Continued && post_count_zeros_u64(new, old)
        } else {
            r == StepEnd::Fault(op) && new == old
        },
        Op::TrailingZerosU64 => if pre_trailing_zeros_u64(old) {
            r == StepEnd::Continued && post_trailing_zeros_u64(new, old)
        } else {
            r == StepEnd::Fault(op) && new == old
        },
        Op::LoadU64 => if pre_load_u64(old) {
            r == StepEnd::Continued && post_load_u64(new, old)
        } else {
            r == StepEnd::Fault(op) && new == old
        },
        Op::LoadU32 => if pre_load_u32(old) {
            r == StepEnd::Continued && post_load_u32(new, old)
        } else {
            r == StepEnd::Fault(op) && new == old
        },
        Op::LoadU16 => if pre_load_u16(old) {
            r == StepEnd::Continued && post_load_u16(new, old)
        } else {
            r == StepEnd::Fault(op) && new == old
        },
        Op::LoadU8 => if pre_load_u8(old) {
            r == StepEnd::Continued && post_load_u8(new, old)
        } else {
            r == StepEnd::Fault(op) && new == old
        },
        Op::StoreU64 => if pre_store_u64(old) {
            r == StepEnd::Continued && post_store_u64(new, old)
        } else {
            r == StepEnd::Fault(op) && new == old
        },
        Op::StoreU32 => if pre_store_u32(old) {
            r == StepEnd::Continued && post_store_u32(new, old)
        } else {
            r == StepEnd::Fault(op) && new == old
        },
        Op::StoreU16 => if pre_store_u16(old) {
            r == StepEnd::Continued && post_store_u16(new, old)
        } else {
            r == StepEnd::Fault(op) && new == old
        },
        Op::StoreU8 => if pre_store_u8(old) {
            r == StepEnd::Continued && post_store_u8(new, old)
        } else {
            r == StepEnd::Fault(op) && new == old
        },
        Op::AtomicLoadU64 => if pre_atomic_load_u64(old) {
            r == StepEnd::Continued && post_atomic_load_u64(new, old)
        } else {
            r == StepEnd::Fault(op) && new == old
        },
        Op::AtomicStoreU64 => if pre_atomic_store_u64(old) {
            r == StepEnd::Continued && post_atomic_store_u64(new, old)
        } else {
            r == StepEnd::Fault(op) && new == old
        },
        Op::AtomicAddU64 => if pre_atomic_add_u64(old) {
            r == StepEnd::Continued && post_atomic_add_u64(new, old)
        } else {
            r == StepEnd::Fault(op) && new == old
        },
        Op::AtomicSubU64 => if pre_atomic_sub_u64(old) {
            r == StepEnd::Continued && post_atomic_sub_u64(new, old)
        } else {
            r == StepEnd::Fault(op) && new == old
        },
        Op::AtomicLoadU32 => if pre_atomic_load_u32(old) {
            r == StepEnd::Continued && post_atomic_load_u32(new, old)
        } else {
            r == StepEnd::Fault(op) && new == old
        },
        Op::AtomicStoreU32 => if pre_atomic_store_u32(old) {
            r == StepEnd::Continued && post_atomic_store_u32(new, old)
        } else {
            r == StepEnd::Fault(op) && new == old
        },
        Op::AtomicAddU32 => if pre_atomic_add_u32(old) {
            r == StepEnd::Continued && post_atomic_add_u32(new, old)
        } else {
            r == StepEnd::Fault(op) && new == old
        },
        Op::AtomicSubU32 => if pre_atomic_sub_u32(old) {
            r == StepEnd::Continued && post_atomic_sub_u32(new, old)
        } else {
            r == StepEnd::Fault(op) && new == old
        },
        Op::AtomicLoadU16 => if pre_atomic_load_u16(old) {
            r == StepEnd::Continued && post_atomic_load_u16(new, old)
        } else {
            r == StepEnd::Fault(op) && new == old
        },
        Op::AtomicStoreU16 => if pre_atomic_store_u16(old) {
            r == StepEnd::Continued && post_atomic_store_u16(new, old)
        } else {
            r == StepEnd::Fault(op) && new == old
        },
        Op::AtomicAddU16 => if pre_atomic_add_u16(old) {
            r == StepEnd::Continued && post_atomic_add_u16(new, old)
        } else {
            r == StepEnd::Fault(op) && new == old
        },
        Op::AtomicSubU16 => if pre_atomic_sub_u16(old) {
            r == StepEnd::Continued && post_atomic_sub_u16(new, old)
        } else {
            r == StepEnd::Fault(op) && new == old
        },
        Op::AtomicLoadU8 => if pre_atomic_load_u8(old) {
            r == StepEnd::Continued && post_atomic_load_u8(new, old)
        } else {
            r == StepEnd::Fault(op) && new == old
        },
        Op::AtomicStoreU8 => if pre_atomic_store_u8(old) {
            r == StepEnd::Continued && post_atomic_store_u8(new, old)
        } else {
            r == StepEnd::Fault(op) && new == old
        },
        Op::AtomicAddU8 => if pre_atomic_add_u8(old) {
            r == StepEnd::Continued && post_atomic_add_u8(new, old)
        } else {
            r == StepEnd::Fault(op) && new == old
        },
        Op::AtomicSubU8 => if pre_atomic_sub_u8(old) {
            r == StepEnd::Continued && post_atomic_sub_u8(new, old)
        } else {
            r == StepEnd::Fault(op) && new == old
        },
        Op::AtomicLoadI8 => if pre_atomic_load_i8(old) {
            r == StepEnd::Continued && post_atomic_load_i8(new, old)
        } else {
            r == StepEnd::Fault(op) && new == old
        },
        Op::AtomicLoadI16 => if pre_atomic_load_i16(old) {
            r == StepEnd::Continued && post_atomic_load_i16(new, old)
        } else {
            r == StepEnd::Fault(op) && new == old
        },
        Op::AtomicLoadI32 => if pre_atomic_load_i32(old) {
            r == StepEnd::Continued && post_atomic_load_i32(new, old)
        } else {
            r == StepEnd::Fault(op) && new == old
        },
        Op::AtomicLoadI64 => if pre_atomic_load_i64(old) {
            r == StepEnd::Continued && post_atomic_load_i64(new, old)
        } else {
            r == StepEnd::Fault(op) && new == old
        },
        Op::AtomicStoreI8 => if pre_atomic_store_i8(old) {
            r == StepEnd::Continued && post_atomic_store_i8(new, old)
        } else {
            r == StepEnd::Fault(op) && new == old
        },
        Op::AtomicStoreI16 => if pre_atomic_store_i16(old) {
            r == StepEnd::Continued && post_atomic_store_i16(new, old)
        } else {
            r == StepEnd::Fault(op) && new == old
        },
        Op::AtomicStoreI32 => if pre_atomic_store_i32(old) {
            r == StepEnd::Continued && post_atomic_store_i32(new, old)
        } else {
            r == StepEnd::Fault(op) && new == old
        },
        Op::AtomicStoreI64 => if pre_atomic_store_i64(old) {
            r == StepEnd::Continued && post_atomic_store_i64(new, old)
        } else {
            r == StepEnd::Fault(op) && new == old
        },
        Op::AtomicAddI8 => if pre_atomic_add_i8(old) {
            r == StepEnd::Continued && post_atomic_add_i8(new, old)
        } else {
            r == StepEnd::Fault(op) && new == old
        },
        Op::AtomicAddI16 => if pre_atomic_add_i16(old) {
            r == StepEnd::Continued && post_atomic_add_i16(new, old)
        } else {
            r == StepEnd::Fault(op) && new == old
        },
        Op::AtomicAddI32 => if pre_atomic_add_i32(old) {
            r == StepEnd::Continued && post_atomic_add_i32(new, old)
        } else {
            r == StepEnd::Fault(op) && new == old
        },
        Op::AtomicAddI64 => if pre_atomic_add_i64(old) {
            r == StepEnd::Continued && post_atomic_add_i64(new, old)
        } else {
            r == StepEnd::Fault(op) && new == old
        },
        Op::AtomicSubI8 => if pre_atomic_sub_i8(old) {
            r == StepEnd::Continued && post_atomic_sub_i8(new, old)
        } else {
            r == StepEnd::Fault(op) && new == old
        },
        Op::AtomicSubI16 => if pre_atomic_sub_i16(old) {
            r == StepEnd::Continued && post_atomic_sub_i16(new, old)
        } else {
            r == StepEnd::Fault(op) && new == old
        },
        Op::AtomicSubI32 => if pre_atomic_sub_i32(old) {
            r == StepEnd::Continued && post_atomic_sub_i32(new, old)
        } else {
            r == StepEnd::Fault(op) && new == old
        },
        Op::AtomicSubI64 => if pre_atomic_sub_i64(old) {
            r == StepEnd::Continued && post_atomic_sub_i64(new, old)
        } else {
            r == StepEnd::Fault(op) && new == old
        },
        Op::LoadI8 => if pre_load_i8(old) {
            r == StepEnd::Continued && post_load_i8(new, old)
        } else {
            r == StepEnd::Fault(op) && new == old
        },
        Op::LoadI16 => if pre_load_i16(old) {
            r == StepEnd::Continued && post_load_i16(new, old)
        } else {
            r == StepEnd::Fault(op) && new == old
        },
        Op::LoadI32 => if pre_load_i32(old) {
            r == StepEnd::Continued && post_load_i32(new, old)
        } else {
            r == StepEnd::Fault(op) && new == old
        },
        Op::LoadI64 => if pre_load_i64(old) {
            r == StepEnd::Continued && post_load_i64(new, old)
        } else {
            r == StepEnd::Fault(op) && new == old
        },
        Op::StoreI8 => if pre_store_i8(old) {
            r == StepEnd::Continued && post_store_i8(new, old)
        } else {
            r == StepEnd::Fault(op) && new == old
        },
        Op::StoreI16 => if pre_store_i16(old) {
            r == StepEnd::Continued && post_store_i16(new, old)
        } else {
            r == StepEnd::Fault(op) && new == old
        },
        Op::StoreI32 => if pre_store_i32(old) {
            r == StepEnd::Continued && post_store_i32(new, old)
        } else {
            r == StepEnd::Fault(op) && new == old
        },
        Op::StoreI64 => if pre_store_i64(old) {
            r == StepEnd::Continued && post_store_i64(new, old)
        } else {
            r == StepEnd::Fault(op) && new == old
        },
        Op::CallThread => if pre_call_thread(old) {
            r == StepEnd::Continued && post_call_thread(new, old)
        } else {
            r == StepEnd::Fault(op) && new == old
        },
        Op::SetIo => if pre_set_io(old) {
            match r {
                StepEnd::Continued => post_set_io(new, old, Ok(())),
                StepEnd::IoError(e) => post_set_io(new, old, Err(e)),
                _ => false,
            }
        } else {
            r == StepEnd::Fault(op) && new == old
        },
        Op::WaitIo => if pre_wait_io(old) {
            match r {
                StepEnd::Continued => post_wait_io(new, old, Ok(())),
                StepEnd::IoError(e) => post_wait_io(new, old, Err(e)),
                _ => false,
            }
        } else {
            r == StepEnd::Fault(op) && new == old
        },
        Op::GetAnIo => if pre_get_an_io(old) {
            r == StepEnd::Continued && post_get_an_io(new, old)
        } else {
            r == StepEnd::Fault(op) && new == old
        },
        Op::PrintU64 => if old.has_words(1) {
            &&& r == StepEnd::Print(old.reg(old.ol(1, 0)))
            &&& new.st.r@ == old.st.r@
            &&& new.st.pc == old.st.pc + 2
            &&& new.same_rest(&old)
        } else {
            r == StepEnd::Fault(op) && new == old
        },
        Op::GetDecode => if old.has_words(2) {
            &&& r == StepEnd::Decode(old.imm(1), old.imm(2))
            &&& new.st.r@ == old.st.r@
            &&& new.st.pc == old.st.pc + 3
            &&& new.same_rest(&old)
        } else {
            r == StepEnd::Fault(op) && new == old
        },
        Op::GetDecoded => {
            &&& r == StepEnd::Decoded
            &&& new.st.r@ == old.st.r@
            &&& new.st.pc == old.st.pc + 1
            &&& new.same_rest(&old)
        },
        Op::MemoryCopy => r == StepEnd::NoHandler(op) && new == old,
    }
}

/// One step from `old` (see `step`).
pub open spec fn step_spec<R: Reactor>(new: VM<R>, old: VM<R>, r: StepEnd) -> bool {
    if old.st.state_flag & PAUSE != 0 {
        r == StepEnd::Paused && new == old
    } else {
        match Op::spec_from_index(old.imm(0)) {
            None => r == StepEnd::BadOpcode && new == old,
            Some(op) => op_step(op, new, old, r),
        }
    }
}

/// The opcodes of `step_ctl`.
pub open spec fn family_ctl(op: Op) -> bool {
    match op {
        Op::Ret | Op::Call | Op::Jump | Op::EqJump | Op::NeqJump | Op::LtU64Jump | Op::LteU64Jump | Op::LtI64Jump | Op::LteI64Jump | Op::GtU64Jump | Op::GteU64Jump | Op::GtI64Jump | Op::GteI64Jump | Op::Exit | Op::Alloc | Op::Realloc | Op::Dealloc | Op::CallThread | Op::SetIo | Op::WaitIo | Op::GetAnIo => true,
        _ => false,
    }
}

/// Jumps, calls, heaps and I/O.
fn step_ctl<R: Reactor>(vm: &mut VM<R>, op: Op) -> (r: StepEnd)
    requires
        old(vm).wf(),
        old(vm).has_words(0),
        Op::spec_from_index(old(vm).imm(0)) == Some(op),
        family_ctl(op),
    ensures
        op_step(op, *final(vm), *old(vm), r),
{
    match op {
        Op::Ret => {
                if !(vm.st.call_stack.len() >= 2) {
                    return StepEnd::Fault(op);
                }
                if !(vm.st.call_stack[vm.st.call_stack.len() - 1] < vm.function_table.len()) {
                    return StepEnd::Fault(op);
                }
                if !(vm.st.call_stack[vm.st.call_stack.len() - 2] < usize::MAX) {
                    return StepEnd::Fault(op);
                }
                Operations::ret(vm);
                StepEnd::Continued
        },
        Op::Call => {
                if !vm.words_ok(2) {
                    return StepEnd::Fault(op);
                }
                if !((vm.word(1) as usize) < vm.function_table.len()) {
                    return StepEnd::Fault(op);
                }
                Operations::call(vm);
                StepEnd::Continued
        },
        Op::Jump => {
                if !vm.words_ok(2) {
                    return StepEnd::Fault(op);
                }
                Operations::jump(vm);
                StepEnd::Continued
        },
        Op::EqJump => {
                if !vm.words_ok(2) {
                    return StepEnd::Fault(op);
                }
                Operations::eq_jump(vm);
                StepEnd::Continued
        },
        Op::NeqJump => {
                if !vm.words_ok(2) {
                    return StepEnd::Fault(op);
                }
                Operations::neq_jump(vm);
                StepEnd::Continued
        },
        Op::LtU64Jump => {
                if !vm.words_ok(2) {
                    return StepEnd::Fault(op);
                }
                Operations::lt_u64_jump(vm);
                StepEnd::Continued
        },
        Op::LteU64Jump => {
                if !vm.words_ok(2) {
                    return StepEnd::Fault(op);
                }
                Operations::lte_u64_jump(vm);
                StepEnd::Continued
        },
        Op::LtI64Jump => {
                if !vm.words_ok(2) {
                    return StepEnd::Fault(op);
                }
                Operations::lt_i64_jump(vm);
                StepEnd::Continued
        },
        Op::LteI64Jump => {
                if !vm.words_ok(2) {
                    return StepEnd::Fault(op);
                }
                Operations::lte_i64_jump(vm);
                StepEnd::Continued
        },
        Op::GtU64Jump => {
                if !vm.words_ok(2) {
                    return StepEnd::Fault(op);
                }
                Operations::gt_u64_jump(vm);
                StepEnd::Continued
        },
        Op::GteU64Jump => {
                if !vm.words_ok(2) {
                    return StepEnd::Fault(op);
                }
                Operations::gte_u64_jump(vm);
                StepEnd::Continued
        },
        Op::GtI64Jump => {
                if !vm.words_ok(2) {
                    return StepEnd::Fault(op);
                }
                Operations::gt_i64_jump(vm);
                StepEnd::Continued
        },
        Op::GteI64Jump => {
                if !vm.words_ok(2) {
                    return StepEnd::Fault(op);
                }
                Operations::gte_i64_jump(vm);
                StepEnd::Continued
        },
        Op::Exit => {
                if !vm.words_ok(1) {
                    return StepEnd::Fault(op);
                }
                let code = Operations::exit(vm);
                StepEnd::Exited(code)
        },
        Op::Alloc => {
                if !vm.words_ok(2) {
                    return StepEnd::Fault(op);
                }
                if !(vm.mem.reuse_list.len() == 0 || vm.mem.reuse_list[vm.mem.reuse_list.len() - 1] < vm.mem.data.len()) {
                    return StepEnd::Fault(op);
                }
                if !(vm.mem.data.len() < usize::MAX) {
                    return StepEnd::Fault(op);
                }
                Operations::allocate(vm);
                StepEnd::Continued
        },
        Op::Realloc => {
                if !vm.words_ok(1) {
                    return StepEnd::Fault(op);
                }
                let b = vm.operand_bytes(1);
                if !(VPtr(vm.st.r[b[1] as usize]).heep_id() < vm.mem.data.len()) {
                    return StepEnd::Fault(op);
                }
                Operations::realloc(vm);
                StepEnd::Continued
        },
        Op::Dealloc => {
                if !vm.words_ok(1) {
                    return StepEnd::Fault(op);
                }
                let b = vm.operand_bytes(1);
                if !(VPtr(vm.st.r[b[0] as usize]).heep_id() < vm.mem.data.len()) {
                    return StepEnd::Fault(op);
                }
                Operations::dealloc(vm);
                StepEnd::Continued
        },
        Op::CallThread => {
                if !vm.words_ok(2) {
                    return StepEnd::Fault(op);
                }
                Operations::call_thread(vm);
                StepEnd::Continued
        },
        Op::SetIo => {
                if !vm.words_ok(1) {
                    return StepEnd::Fault(op);
                }
                let b = vm.operand_bytes(1);
                proof {
                    assert(b@ =~= vm.ol_seq(1));
                }
                if !(build_io_request(&vm.st.r, &b).is_some()) {
                    return StepEnd::Fault(op);
                }
                if !(vm.io.next_fu_id() < u64::MAX) {
                    return StepEnd::Fault(op);
                }
                match Operations::set_io(vm) {
                    Ok(()) => StepEnd::Continued,
                    Err(e) => StepEnd::IoError(e),
                }
        },
        Op::WaitIo => {
                if !vm.words_ok(1) {
                    return StepEnd::Fault(op);
                }
                match Operations::wait_io(vm) {
                    Ok(()) => StepEnd::Continued,
                    Err(e) => StepEnd::IoError(e),
                }
        },
        Op::GetAnIo => {
                if !vm.words_ok(1) {
                    return StepEnd::Fault(op);
                }
                Operations::get_an_io(vm);
                StepEnd::Continued
        },
        _ => vstd::pervasive::unreached(),
    }
}

/// The opcodes of `step_misc`.
pub open spec fn family_misc(op: Op) -> bool {
    match op {
        Op::GetDecode | Op::GetDecoded | Op::PrintU64 | Op::U64ToF64 | Op::I64ToF64 | Op::AddF64 | Op::AddF64Immediate | Op::SubF64 | Op::SubF64Immediate | Op::MulF64 | Op::MulF64Immediate | Op::DivF64 | Op::DivF64Immediate | Op::AbsF64 | Op::NegF64 | Op::ToI64 | Op::MemoryCopy => true,
        _ => false,
    }
}

/// Float instructions, which this library leaves to the caller, and the instructions that hand a request out.
fn step_misc<R: Reactor>(vm: &mut VM<R>, op: Op) -> (r: StepEnd)
    requires
        old(vm).wf(),
        old(vm).has_words(0),
        Op::spec_from_index(old(vm).imm(0)) == Some(op),
        family_misc(op),
    ensures
        op_step(op, *final(vm), *old(vm), r),
{
    match op {
        Op::GetDecode => {
                if !vm.words_ok(2) {
                    return StepEnd::Fault(op);
                }
                let id = vm.word(1);
                let deep = vm.word(2);
                vm.st.pc = vm.st.pc + 3;
                StepEnd::Decode(id, deep)
        },
        Op::GetDecoded => {
                vm.st.pc = vm.st.pc + 1;
                StepEnd::Decoded
        },
        Op::PrintU64 => {
                if !vm.words_ok(1) {
                    return StepEnd::Fault(op);
                }
                let b = vm.operand_bytes(1);
                let v = vm.st.r[b[0] as usize];
                vm.st.pc = vm.st.pc + 2;
                StepEnd::Print(v)
        },
        Op::U64ToF64 => {
                StepEnd::Float(op)
        },
        Op::I64ToF64 => {
                StepEnd::Float(op)
        },
        Op::AddF64 => {
                StepEnd::Float(op)
        },
        Op::AddF64Immediate => {
                StepEnd::Float(op)
        },
        Op::SubF64 => {
                StepEnd::Float(op)
        },
        Op::SubF64Immediate => {
                StepEnd::Float(op)
        },
        Op::MulF64 => {
                StepEnd::Float(op)
        },
        Op::MulF64Immediate => {
                StepEnd::Float(op)
        },
        Op::DivF64 => {
                StepEnd::Float(op)
        },
        Op::DivF64Immediate => {
                StepEnd::Float(op)
        },
        Op::AbsF64 => {
                StepEnd::Float(op)
        },
        Op::NegF64 => {
                StepEnd::Float(op)
        },
        Op::ToI64 => {
                StepEnd::Float(op)
        },
        Op::MemoryCopy => {
                StepEnd::NoHandler(op)
        },
        _ => vstd::pervasive::unreached(),
    }
}

/// The opcodes of `step_bits`.
pub open spec fn family_bits(op: Op) -> bool {
    match op {
        Op::Mov | Op::LoadU64Immediate | Op::Swap | Op::AndU64 | Op::AndU64Immediate | Op::OrU64 | Op::OrU64Immediate | Op::XorU64 | Op::XorU64Immediate | Op::NotU64 | Op::ShlU64 | Op::ShlU64Immediate | Op::ShlI64 | Op::ShlI64Immediate | Op::ShrU64 | Op::ShrU64Immediate | Op::ShrI64 | Op::ShrI64Immediate | Op::RolU64 | Op::RolU64Immediate | Op::RorU64 | Op::RorU64Immediate | Op::CountOnesU64 | Op::CountZerosU64 | Op::TrailingZerosU64 => true,
        _ => false,
    }
}

/// Bit and register operations.
fn step_bits<R: Reactor>(vm: &mut VM<R>, op: Op) -> (r: StepEnd)
    requires
        old(vm).wf(),
        old(vm).has_words(0),
        Op::spec_from_index(old(vm).imm(0)) == Some(op),
        family_bits(op),
    ensures
        op_step(op, *final(vm), *old(vm), r),
{
    match op {
        Op::Mov => {
                if !vm.words_ok(1) {
                    return StepEnd::Fault(op);
                }
                Operations::mov(vm);
                StepEnd::Continued
        },
        Op::LoadU64Immediate => {
                if !vm.words_ok(2) {
                    return StepEnd::Fault(op);
                }
                Operations::load_u64_immediate(vm);
                StepEnd::Continued
        },
        Op::Swap => {
                if !vm.words_ok(1) {
                    return StepEnd::Fault(op);
                }
                Operations::swap(vm);
                StepEnd::Continued
        },
        Op::AndU64 => {
                if !vm.words_ok(1) {
                    return StepEnd::Fault(op);
                }
                Operations::and_u64(vm);
                StepEnd::Continued
        },
        Op::AndU64Immediate => {
                if !vm.words_ok(2) {
                    return StepEnd::Fault(op);
                }
                Operations::and_u64_immediate(vm);
                StepEnd::Continued
        },
        Op::OrU64 => {
                if !vm.words_ok(1) {
                    return StepEnd::Fault(op);
                }
                Operations::or_u64(vm);
                StepEnd::Continued
        },
        Op::OrU64Immediate => {
                if !vm.words_ok(2) {
                    return StepEnd::Fault(op);
                }
                Operations::or_u64_immediate(vm);
                StepEnd::Continued
        },
        Op::XorU64 => {
                if !vm.words_ok(1) {
                    return StepEnd::Fault(op);
                }
                Operations::xor_u64(vm);
                StepEnd::Continued
        },
        Op::XorU64Immediate => {
                if !vm.words_ok(2) {
                    return StepEnd::Fault(op);
                }
                Operations::xor_u64_immediate(vm);
                StepEnd::Continued
        },
        Op::NotU64 => {
                if !vm.words_ok(1) {
                    return StepEnd::Fault(op);
                }
                Operations::not_u64(vm);
                StepEnd::Continued
        },
        Op::ShlU64 => {
                if !vm.words_ok(1) {
                    return StepEnd::Fault(op);
                }
                let b = vm.operand_bytes(1);
                if !((vm.st.r[b[1] as usize] as u32) < 64) {
                    return StepEnd::Fault(op);
                }
                Operations::shl_u64(vm);
                StepEnd::Continued
        },
        Op::ShlU64Immediate => {
                if !vm.words_ok(2) {
                    return StepEnd::Fault(op);
                }
                if !((vm.word(2) as u32) < 64) {
                    return StepEnd::Fault(op);
                }
                Operations::shl_u64_immediate(vm);
                StepEnd::Continued
        },
        Op::ShlI64 => {
                if !vm.words_ok(1) {
                    return StepEnd::Fault(op);
                }
                let b = vm.operand_bytes(1);
                if !((vm.st.r[b[1] as usize] as u32) < 64) {
                    return StepEnd::Fault(op);
                }
                Operations::shl_i64(vm);
                StepEnd::Continued
        },
        Op::ShlI64Immediate => {
                if !vm.words_ok(2) {
                    return StepEnd::Fault(op);
                }
                if !((vm.word(2) as u32) < 64) {
                    return StepEnd::Fault(op);
                }
                Operations::shl_i64_immediate(vm);
                StepEnd::Continued
        },
        Op::ShrU64 => {
                if !vm.words_ok(1) {
                    return StepEnd::Fault(op);
                }
                let b = vm.operand_bytes(1);
                if !((vm.st.r[b[1] as usize] as u32) < 64) {
                    return StepEnd::Fault(op);
                }
                Operations::shr_u64(vm);
                StepEnd::Continued
        },
        Op::ShrU64Immediate => {
                if !vm.words_ok(2) {
                    return StepEnd::Fault(op);
                }
                if !((vm.word(2) as u32) < 64) {
                    return StepEnd::Fault(op);
                }
                Operations::shr_u64_immediate(vm);
                StepEnd::Continued
        },
        Op::ShrI64 => {
                if !vm.words_ok(1) {
                    return StepEnd::Fault(op);
                }
                let b = vm.operand_bytes(1);
                if !((vm.st.r[b[1] as usize] as u32) < 64) {
                    return StepEnd::Fault(op);
                }
                Operations::shr_i64(vm);
                StepEnd::Continued
        },
        Op::ShrI64Immediate => {
                if !vm.words_ok(2) {
                    return StepEnd::Fault(op);
                }
                if !((vm.word(2) as u32) < 64) {
                    return StepEnd::Fault(op);
                }
                Operations::shr_i64_immediate(vm);
                StepEnd::Continued
        },
        Op::RolU64 => {
                if !vm.words_ok(1) {
                    return StepEnd::Fault(op);
                }
                Operations::rol_u64(vm);
                StepEnd::Continued
        },
        Op::RolU64Immediate => {
                if !vm.words_ok(2) {
                    return StepEnd::Fault(op);
                }
                Operations::rol_u64_immediate(vm);
                StepEnd::Continued
        },
        Op::RorU64 => {
                if !vm.words_ok(1) {
                    return StepEnd::Fault(op);
                }
                Operations::ror_u64(vm);
                StepEnd::Continued
        },
        Op::RorU64Immediate => {
                if !vm.words_ok(2) {
                    return StepEnd::Fault(op);
                }
                Operations::ror_u64_immediate(vm);
                StepEnd::Continued
        },
        Op::CountOnesU64 => {
                if !vm.words_ok(1) {
                    return StepEnd::Fault(op);
                }
                Operations::count_ones_u64(vm);
                StepEnd::Continued
        },
        Op::CountZerosU64 => {
                if !vm.words_ok(1) {
                    return StepEnd::Fault(op);
                }
                Operations::count_zeros_u64(vm);
                StepEnd::Continued
        },
        Op::TrailingZerosU64 => {
                if !vm.words_ok(1) {
                    return StepEnd::Fault(op);
                }
                Operations::trailing_zeros_u64(vm);
                StepEnd::Continued
        },
        _ => vstd::pervasive::unreached(),
    }
}

/// The opcodes of `step_int`.
pub open spec fn family_int(op: Op) -> bool {
    match op {
        Op::AddU64 | Op::AddU64Immediate | Op::AddI64 | Op::AddI64Immediate | Op::SubU64 | Op::SubU64Immediate | Op::SubI64 | Op::SubI64Immediate | Op::MulU64 | Op::MulU64Immediate | Op::MulI64 | Op::MulI64Immediate | Op::DivU64 | Op::DivU64Immediate | Op::DivI64 | Op::DivI64Immediate | Op::Abs | Op::ModI64 | Op::NegI64 => true,
        _ => false,
    }
}

/// Integer arithmetic: the operand word names the registers (with an immediate after it where the opcode has one).
fn step_int<R: Reactor>(vm: &mut VM<R>, op: Op) -> (r: StepEnd)
    requires
        old(vm).wf(),
        old(vm).has_words(0),
        Op::spec_from_index(old(vm).imm(0)) == Some(op),
        family_int(op),
    ensures
        op_step(op, *final(vm), *old(vm), r),
{
    match op {
        Op::AddU64 => {
                if !vm.words_ok(1) {
                    return StepEnd::Fault(op);
                }
                let ol = vm.next_operand();
                Operations::add_u64(vm, ol[0] as u64, ol[1] as u64);
                StepEnd::Continued
        },
        Op::AddU64Immediate => {
                if !vm.words_ok(2) {
                    return StepEnd::Fault(op);
                }
                let ol = vm.next_operand();
                let iv = vm.next_operand_imm();
                Operations::add_u64_immediate(vm, ol[0] as u64, iv);
                StepEnd::Continued
        },
        Op::AddI64 => {
                if !vm.words_ok(1) {
                    return StepEnd::Fault(op);
                }
                let ol = vm.next_operand();
                Operations::add_i64(vm, ol[0] as u64, ol[1] as u64);
                StepEnd::Continued
        },
        Op::AddI64Immediate => {
                if !vm.words_ok(2) {
                    return StepEnd::Fault(op);
                }
                let ol = vm.next_operand();
                let iv = vm.next_operand_imm();
                Operations::add_i64_immediate(vm, ol[0] as u64, iv);
                StepEnd::Continued
        },
        Op::SubU64 => {
                if !vm.words_ok(1) {
                    return StepEnd::Fault(op);
                }
                let ol = vm.next_operand();
                Operations::sub_u64(vm, ol[0] as u64, ol[1] as u64);
                StepEnd::Continued
        },
        Op::SubU64Immediate => {
                if !vm.words_ok(2) {
                    return StepEnd::Fault(op);
                }
                let ol = vm.next_operand();
                let iv = vm.next_operand_imm();
                Operations::sub_u64_immediate(vm, ol[0] as u64, iv);
                StepEnd::Continued
        },
        Op::SubI64 => {
                if !vm.words_ok(1) {
                    return StepEnd::Fault(op);
                }
                let ol = vm.next_operand();
                Operations::sub_i64(vm, ol[0] as u64, ol[1] as u64);
                StepEnd::Continued
        },
        Op::SubI64Immediate => {
                if !vm.words_ok(2) {
                    return StepEnd::Fault(op);
                }
                let ol = vm.next_operand();
                let iv = vm.next_operand_imm();
                Operations::sub_i64_immediate(vm, ol[0] as u64, iv);
                StepEnd::Continued
        },
        Op::MulU64 => {
                if !vm.words_ok(1) {
                    return StepEnd::Fault(op);
                }
                let ol = vm.next_operand();
                Operations::mul_u64(vm, ol[0] as u64, ol[1] as u64);
                StepEnd::Continued
        },
        Op::MulU64Immediate => {
                if !vm.words_ok(2) {
                    return StepEnd::Fault(op);
                }
                let ol = vm.next_operand();
                let iv = vm.next_operand_imm();
                Operations::mul_u64_immediate(vm, ol[0] as u64, iv);
                StepEnd::Continued
        },
        Op::MulI64 => {
                if !vm.words_ok(1) {
                    return StepEnd::Fault(op);
                }
                let ol = vm.next_operand();
                Operations::mul_i64(vm, ol[0] as u64, ol[1] as u64);
                StepEnd::Continued
        },
        Op::MulI64Immediate => {
                if !vm.words_ok(2) {
                    return StepEnd::Fault(op);
                }
                let ol = vm.next_operand();
                let iv = vm.next_operand_imm();
                Operations::mul_i64_immediate(vm, ol[0] as u64, iv);
                StepEnd::Continued
        },
        Op::DivU64 => {
                if !vm.words_ok(1) {
                    return StepEnd::Fault(op);
                }
                let b = vm.operand_bytes(1);
                if !(vm.st.r[b[1] as usize] != 0) {
                    return StepEnd::Fault(op);
                }
                let ol = vm.next_operand();
                Operations::div_u64(vm, ol[0] as u64, ol[1] as u64);
                StepEnd::Continued
        },
        Op::DivU64Immediate => {
                if !vm.words_ok(2) {
                    return StepEnd::Fault(op);
                }
                if !(vm.word(2) != 0) {
                    return StepEnd::Fault(op);
                }
                let ol = vm.next_operand();
                let iv = vm.next_operand_imm();
                Operations::div_u64_immediate(vm, ol[0] as u64, iv);
                StepEnd::Continued
        },
        Op::DivI64 => {
                if !vm.words_ok(1) {
                    return StepEnd::Fault(op);
                }
                let b = vm.operand_bytes(1);
                if !(vm.st.r[b[1] as usize] != 0) {
                    return StepEnd::Fault(op);
                }
                if !(!(vm.st.r[b[0] as usize] == 0x8000_0000_0000_0000u64 && vm.st.r[b[1] as usize] == 0xFFFF_FFFF_FFFF_FFFFu64)) {
                    return StepEnd::Fault(op);
                }
                let ol = vm.next_operand();
                Operations::div_i64(vm, ol[0] as u64, ol[1] as u64);
                StepEnd::Continued
        },
        Op::DivI64Immediate => {
                if !vm.words_ok(2) {
                    return StepEnd::Fault(op);
                }
                let b = vm.operand_bytes(1);
                if !(vm.word(2) != 0) {
                    return StepEnd::Fault(op);
                }
                if !(!(vm.st.r[b[0] as usize] == 0x8000_0000_0000_0000u64 && vm.word(2) == 0xFFFF_FFFF_FFFF_FFFFu64)) {
                    return StepEnd::Fault(op);
                }
                let ol = vm.next_operand();
                let iv = vm.next_operand_imm();
                Operations::div_i64_immediate(vm, ol[0] as u64, iv);
                StepEnd::Continued
        },
        Op::Abs => {
                if !vm.words_ok(1) {
                    return StepEnd::Fault(op);
                }
                let ol = vm.next_operand();
                Operations::abs(vm, ol[0] as u64, ol[1] as u64);
                StepEnd::Continued
        },
        Op::ModI64 => {
                if !vm.words_ok(1) {
                    return StepEnd::Fault(op);
                }
                let b = vm.operand_bytes(1);
                if !(vm.st.r[b[1] as usize] != 0) {
                    return StepEnd::Fault(op);
                }
                let ol = vm.next_operand();
                Operations::mod_i64(vm, ol[0] as u64, ol[1] as u64);
                StepEnd::Continued
        },
        Op::NegI64 => {
                if !vm.words_ok(1) {
                    return StepEnd::Fault(op);
                }
                let ol = vm.next_operand();
                Operations::neg_i64(vm, ol[0] as u64, ol[1] as u64);
                StepEnd::Continued
        },
        _ => vstd::pervasive::unreached(),
    }
}

/// The opcodes of `step_mem`.
pub open spec fn family_mem(op: Op) -> bool {
    match op {
        Op::LoadU64 | Op::LoadU32 | Op::LoadU16 | Op::LoadU8 | Op::StoreU64 | Op::StoreU32 | Op::StoreU16 | Op::StoreU8 | Op::AtomicLoadU64 | Op::AtomicStoreU64 | Op::AtomicAddU64 | Op::AtomicSubU64 | Op::AtomicLoadU32 | Op::AtomicStoreU32 | Op::AtomicAddU32 | Op::AtomicSubU32 | Op::AtomicLoadU16 | Op::AtomicStoreU16 | Op::AtomicAddU16 | Op::AtomicSubU16 | Op::AtomicLoadU8 | Op::AtomicStoreU8 | Op::AtomicAddU8 | Op::AtomicSubU8 | Op::AtomicLoadI8 | Op::AtomicLoadI16 | Op::AtomicLoadI32 | Op::AtomicLoadI64 | Op::AtomicStoreI8 | Op::AtomicStoreI16 | Op::AtomicStoreI32 | Op::AtomicStoreI64 | Op::AtomicAddI8 | Op::AtomicAddI16 | Op::AtomicAddI32 | Op::AtomicAddI64 | Op::AtomicSubI8 | Op::AtomicSubI16 | Op::AtomicSubI32 | Op::AtomicSubI64 | Op::LoadI8 | Op::LoadI16 | Op::LoadI32 | Op::LoadI64 | Op::StoreI8 | Op::StoreI16 | Op::StoreI32 | Op::StoreI64 => true,
        _ => false,
    }
}

/// Loads, stores and atomic operations on the heaps.
fn step_mem<R: Reactor>(vm: &mut VM<R>, op: Op) -> (r: StepEnd)
    requires
        old(vm).wf(),
        old(vm).has_words(0),
        Op::spec_from_index(old(vm).imm(0)) == Some(op),
        family_mem(op),
    ensures
        op_step(op, *final(vm), *old(vm), r),
{
    match op {
        Op::LoadU64 => {
                if !vm.words_ok(2) {
                    return StepEnd::Fault(op);
                }
                let b = vm.operand_bytes(1);
                if !(vm.spot_ok_exec(b[0], b[1], vm.word(2), 8)) {
                    return StepEnd::Fault(op);
                }
                Operations::load_u64(vm);
                StepEnd::Continued
        },
        Op::LoadU32 => {
                if !vm.words_ok(2) {
                    return StepEnd::Fault(op);
                }
                let b = vm.operand_bytes(1);
                if !(vm.spot_ok_exec(b[0], b[1], vm.word(2), 4)) {
                    return StepEnd::Fault(op);
                }
                Operations::load_u32(vm);
                StepEnd::Continued
        },
        Op::LoadU16 => {
                if !vm.words_ok(2) {
                    return StepEnd::Fault(op);
                }
                let b = vm.operand_bytes(1);
                if !(vm.spot_ok_exec(b[0], b[1], vm.word(2), 2)) {
                    return StepEnd::Fault(op);
                }
                Operations::load_u16(vm);
                StepEnd::Continued
        },
        Op::LoadU8 => {
                if !vm.words_ok(2) {
                    return StepEnd::Fault(op);
                }
                let b = vm.operand_bytes(1);
                if !(vm.spot_ok_exec(b[0], b[1], vm.word(2), 1)) {
                    return StepEnd::Fault(op);
                }
                Operations::load_u8(vm);
                StepEnd::Continued
        },
        Op::StoreU64 => {
                if !vm.words_ok(2) {
                    return StepEnd::Fault(op);
                }
                let b = vm.operand_bytes(1);
                if !(vm.spot_ok_exec(b[0], b[1], vm.word(2), 8)) {
                    return StepEnd::Fault(op);
                }
                Operations::store_u64(vm);
                StepEnd::Continued
        },
        Op::StoreU32 => {
                if !vm.words_ok(2) {
                    return StepEnd::Fault(op);
                }
                let b = vm.operand_bytes(1);
                if !(vm.spot_ok_exec(b[0], b[1], vm.word(2), 4)) {
                    return StepEnd::Fault(op);
                }
                Operations::store_u32(vm);
                StepEnd::Continued
        },
        Op::StoreU16 => {
                if !vm.words_ok(2) {
                    return StepEnd::Fault(op);
                }
                let b = vm.operand_bytes(1);
                if !(vm.spot_ok_exec(b[0], b[1], vm.word(2), 2)) {
                    return StepEnd::Fault(op);
                }
                Operations::store_u16(vm);
                StepEnd::Continued
        },
        Op::StoreU8 => {
                if !vm.words_ok(2) {
                    return StepEnd::Fault(op);
                }
                let b = vm.operand_bytes(1);
                if !(vm.spot_ok_exec(b[0], b[1], vm.word(2), 1)) {
                    return StepEnd::Fault(op);
                }
                Operations::store_u8(vm);
                StepEnd::Continued
        },
        Op::AtomicLoadU64 => {
                if !vm.words_ok(2) {
                    return StepEnd::Fault(op);
                }
                let b = vm.operand_bytes(1);
                if !(vm.spot_ok_exec(b[0], b[1], vm.word(2), 8)) {
                    return StepEnd::Fault(op);
                }
                Operations::atomic_load_u64(vm);
                StepEnd::Continued
        },
        Op::AtomicStoreU64 => {
                if !vm.words_ok(2) {
                    return StepEnd::Fault(op);
                }
                let b = vm.operand_bytes(1);
                if !(vm.spot_ok_exec(b[0], b[1], vm.word(2), 8)) {
                    return StepEnd::Fault(op);
                }
                Operations::atomic_store_u64(vm);
                StepEnd::Continued
        },
        Op::AtomicAddU64 => {
                if !vm.words_ok(2) {
                    return StepEnd::Fault(op);
                }
                let b = vm.operand_bytes(1);
                if !(vm.spot_ok_exec(b[1], b[2], vm.word(2), 8)) {
                    return StepEnd::Fault(op);
                }
                Operations::atomic_add_u64(vm);
                StepEnd::Continued
        },
        Op::AtomicSubU64 => {
                if !vm.words_ok(2) {
                    return StepEnd::Fault(op);
                }
                let b = vm.operand_bytes(1);
                if !(vm.spot_ok_exec(b[1], b[2], vm.word(2), 8)) {
                    return StepEnd::Fault(op);
                }
                Operations::atomic_sub_u64(vm);
                StepEnd::Continued
        },
        Op::AtomicLoadU32 => {
                if !vm.words_ok(2) {
                    return StepEnd::Fault(op);
                }
                let b = vm.operand_bytes(1);
                if !(vm.spot_ok_exec(b[0], b[1], vm.word(2), 4)) {
                    return StepEnd::Fault(op);
                }
                Operations::atomic_load_u32(vm);
                StepEnd::Continued
        },
        Op::AtomicStoreU32 => {
                if !vm.words_ok(2) {
                    return StepEnd::Fault(op);
                }
                let b = vm.operand_bytes(1);
                if !(vm.spot_ok_exec(b[0], b[1], vm.word(2), 4)) {
                    return StepEnd::Fault(op);
                }
                Operations::atomic_store_u32(vm);
                StepEnd::Continued
        },
        Op::AtomicAddU32 => {
                if !vm.words_ok(2) {
                    return StepEnd::Fault(op);
                }
                let b = vm.operand_bytes(1);
                if !(vm.spot_ok_exec(b[1], b[2], vm.word(2), 4)) {
                    return StepEnd::Fault(op);
                }
                Operations::atomic_add_u32(vm);
                StepEnd::Continued
        },
        Op::AtomicSubU32 => {
                if !vm.words_ok(2) {
                    return StepEnd::Fault(op);
                }
                let b = vm.operand_bytes(1);
                if !(vm.spot_ok_exec(b[1], b[2], vm.word(2), 4)) {
                    return StepEnd::Fault(op);
                }
                Operations::atomic_sub_u32(vm);
                StepEnd::Continued
        },
        Op::AtomicLoadU16 => {
                if !vm.words_ok(2) {
                    return StepEnd::Fault(op);
                }
                let b = vm.operand_bytes(1);
                if !(vm.spot_ok_exec(b[0], b[1], vm.word(2), 2)) {
                    return StepEnd::Fault(op);
                }
                Operations::atomic_load_u16(vm);
                StepEnd::Continued
        },
        Op::AtomicStoreU16 => {
                if !vm.words_ok(2) {
                    return StepEnd::Fault(op);
                }
                let b = vm.operand_bytes(1);
                if !(vm.spot_ok_exec(b[0], b[1], vm.word(2), 2)) {
                    return StepEnd::Fault(op);
                }
                Operations::atomic_store_u16(vm);
                StepEnd::Continued
        },
        Op::AtomicAddU16 => {
                if !vm.words_ok(2) {
                    return StepEnd::Fault(op);
                }
                let b = vm.operand_bytes(1);
                if !(vm.spot_ok_exec(b[1], b[2], vm.word(2), 2)) {
                    return StepEnd::Fault(op);
                }
                Operations::atomic_add_u16(vm);
                StepEnd::Continued
        },
        Op::AtomicSubU16 => {
                if !vm.words_ok(2) {
                    return StepEnd::Fault(op);
                }
                let b = vm.operand_bytes(1);
                if !(vm.spot_ok_exec(b[1], b[2], vm.word(2), 2)) {
                    return StepEnd::Fault(op);
                }
                Operations::atomic_sub_u16(vm);
                StepEnd::Continued
        },
        Op::AtomicLoadU8 => {
                if !vm.words_ok(2) {
                    return StepEnd::Fault(op);
                }
                let b = vm.operand_bytes(1);
                if !(vm.spot_ok_exec(b[0], b[1], vm.word(2), 1)) {
                    return StepEnd::Fault(op);
                }
                Operations::atomic_load_u8(vm);
                StepEnd::Continued
        },
        Op::AtomicStoreU8 => {
                if !vm.words_ok(2) {
                    return StepEnd::Fault(op);
                }
                let b = vm.operand_bytes(1);
                if !(vm.spot_ok_exec(b[0], b[1], vm.word(2), 1)) {
                    return StepEnd::Fault(op);
                }
                Operations::atomic_store_u8(vm);
                StepEnd::Continued
        },
        Op::AtomicAddU8 => {
                if !vm.words_ok(2) {
                    return StepEnd::Fault(op);
                }
                let b = vm.operand_bytes(1);
                if !(vm.spot_ok_exec(b[1], b[2], vm.word(2), 1)) {
                    return StepEnd::Fault(op);
                }
                Operations::atomic_add_u8(vm);
                StepEnd::Continued
        },
        Op::AtomicSubU8 => {
                if !vm.words_ok(2) {
                    return StepEnd::Fault(op);
                }
                let b = vm.operand_bytes(1);
                if !(vm.spot_ok_exec(b[1], b[2], vm.word(2), 1)) {
                    return StepEnd::Fault(op);
                }
                Operations::atomic_sub_u8(vm);
                StepEnd::Continued
        },
        Op::AtomicLoadI8 => {
                if !vm.words_ok(2) {
                    return StepEnd::Fault(op);
                }
                let b = vm.operand_bytes(1);
                if !(vm.spot_ok_exec(b[0], b[1], vm.word(2), 1)) {
                    return StepEnd::Fault(op);
                }
                Operations::atomic_load_i8(vm);
                StepEnd::Continued
        },
        Op::AtomicLoadI16 => {
                if !vm.words_ok(2) {
                    return StepEnd::Fault(op);
                }
                let b = vm.operand_bytes(1);
                if !(vm.spot_ok_exec(b[0], b[1], vm.word(2), 2)) {
                    return StepEnd::Fault(op);
                }
                Operations::atomic_load_i16(vm);
                StepEnd::Continued
        },
        Op::AtomicLoadI32 => {
                if !vm.words_ok(2) {
                    return StepEnd::Fault(op);
                }
                let b = vm.operand_bytes(1);
                if !(vm.spot_ok_exec(b[0], b[1], vm.word(2), 4)) {
                    return StepEnd::Fault(op);
                }
                Operations::atomic_load_i32(vm);
                StepEnd::Continued
        },
        Op::AtomicLoadI64 => {
                if !vm.words_ok(2) {
                    return StepEnd::Fault(op);
                }
                let b = vm.operand_bytes(1);
                if !(vm.spot_ok_exec(b[0], b[1], vm.word(2), 8)) {
                    return StepEnd::Fault(op);
                }
                Operations::atomic_load_i64(vm);
                StepEnd::Continued
        },
        Op::AtomicStoreI8 => {
                if !vm.words_ok(2) {
                    return StepEnd::Fault(op);
                }
                let b = vm.operand_bytes(1);
                if !(vm.spot_ok_exec(b[0], b[1], vm.word(2), 1)) {
                    return StepEnd::Fault(op);
                }
                Operations::atomic_store_i8(vm);
                StepEnd::Continued
        },
        Op::AtomicStoreI16 => {
                if !vm.words_ok(2) {
                    return StepEnd::Fault(op);
                }
                let b = vm.operand_bytes(1);
                if !(vm.spot_ok_exec(b[0], b[1], vm.word(2), 2)) {
                    return StepEnd::Fault(op);
                }
                Operations::atomic_store_i16(vm);
                StepEnd::Continued
        },
        Op::AtomicStoreI32 => {
                if !vm.words_ok(2) {
                    return StepEnd::Fault(op);
                }
                let b = vm.operand_bytes(1);
                if !(vm.spot_ok_exec(b[0], b[1], vm.word(2), 4)) {
                    return StepEnd::Fault(op);
                }
                Operations::atomic_store_i32(vm);
                StepEnd::Continued
        },
        Op::AtomicStoreI64 => {
                if !vm.words_ok(2) {
                    return StepEnd::Fault(op);
                }
                let b = vm.operand_bytes(1);
                if !(vm.spot_ok_exec(b[0], b[1], vm.word(2), 8)) {
                    return StepEnd::Fault(op);
                }
                Operations::atomic_store_i64(vm);
                StepEnd::Continued
        },
        Op::AtomicAddI8 => {
                if !vm.words_ok(2) {
                    return StepEnd::Fault(op);
                }
                let b = vm.operand_bytes(1);
                if !(vm.spot_ok_exec(b[1], b[2], vm.word(2), 1)) {
                    return StepEnd::Fault(op);
                }
                Operations::atomic_add_i8(vm);
                StepEnd::Continued
        },
        Op::AtomicAddI16 => {
                if !vm.words_ok(2) {
                    return StepEnd::Fault(op);
                }
                let b = vm.operand_bytes(1);
                if !(vm.spot_ok_exec(b[1], b[2], vm.word(2), 2)) {
                    return StepEnd::Fault(op);
                }
                Operations::atomic_add_i16(vm);
                StepEnd::Continued
        },
        Op::AtomicAddI32 => {
                if !vm.words_ok(2) {
                    return StepEnd::Fault(op);
                }
                let b = vm.operand_bytes(1);
                if !(vm.spot_ok_exec(b[1], b[2], vm.word(2), 4)) {
                    return StepEnd::Fault(op);
                }
                Operations::atomic_add_i32(vm);
                StepEnd::Continued
        },
        Op::AtomicAddI64 => {
                if !vm.words_ok(2) {
                    return StepEnd::Fault(op);
                }
                let b = vm.operand_bytes(1);
                if !(vm.spot_ok_exec(b[1], b[2], vm.word(2), 8)) {
                    return StepEnd::Fault(op);
                }
                Operations::atomic_add_i64(vm);
                StepEnd::Continued
        },
        Op::AtomicSubI8 => {
                if !vm.words_ok(2) {
                    return StepEnd::Fault(op);
                }
                let b = vm.operand_bytes(1);
                if !(vm.spot_ok_exec(b[1], b[2], vm.word(2), 1)) {
                    return StepEnd::Fault(op);
                }
                Operations::atomic_sub_i8(vm);
                StepEnd::Continued
        },
        Op::AtomicSubI16 => {
                if !vm.words_ok(2) {
                    return StepEnd::Fault(op);
                }
                let b = vm.operand_bytes(1);
                if !(vm.spot_ok_exec(b[1], b[2], vm.word(2), 2)) {
                    return StepEnd::Fault(op);
                }
                Operations::atomic_sub_i16(vm);
                StepEnd::Continued
        },
        Op::AtomicSubI32 => {
                if !vm.words_ok(2) {
                    return StepEnd::Fault(op);
                }
                let b = vm.operand_bytes(1);
                if !(vm.spot_ok_exec(b[1], b[2], vm.word(2), 4)) {
                    return StepEnd::Fault(op);
                }
                Operations::atomic_sub_i32(vm);
                StepEnd::Continued
        },
        Op::AtomicSubI64 => {
                if !vm.words_ok(2) {
                    return StepEnd::Fault(op);
                }
                let b = vm.operand_bytes(1);
                if !(vm.spot_ok_exec(b[1], b[2], vm.word(2), 8)) {
                    return StepEnd::Fault(op);
                }
                Operations::atomic_sub_i64(vm);
                StepEnd::Continued
        },
        Op::LoadI8 => {
                if !vm.words_ok(2) {
                    return StepEnd::Fault(op);
                }
                let b = vm.operand_bytes(1);
                if !(vm.spot_ok_exec(b[0], b[1], vm.word(2), 1)) {
                    return StepEnd::Fault(op);
                }
                Operations::load_i8(vm);
                StepEnd::Continued
        },
        Op::LoadI16 => {
                if !vm.words_ok(2) {
                    return StepEnd::Fault(op);
                }
                let b = vm.operand_bytes(1);
                if !(vm.spot_ok_exec(b[0], b[1], vm.word(2), 2)) {
                    return StepEnd::Fault(op);
                }
                Operations::load_i16(vm);
                StepEnd::Continued
        },
        Op::LoadI32 => {
                if !vm.words_ok(2) {
                    return StepEnd::Fault(op);
                }
                let b = vm.operand_bytes(1);
                if !(vm.spot_ok_exec(b[0], b[1], vm.word(2), 4)) {
                    return StepEnd::Fault(op);
                }
                Operations::load_i32(vm);
                StepEnd::Continued
        },
        Op::LoadI64 => {
                if !vm.words_ok(2) {
                    return StepEnd::Fault(op);
                }
                let b = vm.operand_bytes(1);
                if !(vm.spot_ok_exec(b[0], b[1], vm.word(2), 8)) {
                    return StepEnd::Fault(op);
                }
                Operations::load_i64(vm);
                StepEnd::Continued
        },
        Op::StoreI8 => {
                if !vm.words_ok(2) {
                    return StepEnd::Fault(op);
                }
                let b = vm.operand_bytes(1);
                if !(vm.spot_ok_exec(b[0], b[1], vm.word(2), 1)) {
                    return StepEnd::Fault(op);
                }
                Operations::store_i8(vm);
                StepEnd::Continued
        },
        Op::StoreI16 => {
                if !vm.words_ok(2) {
                    return StepEnd::Fault(op);
                }
                let b = vm.operand_bytes(1);
                if !(vm.spot_ok_exec(b[0], b[1], vm.word(2), 2)) {
                    return StepEnd::Fault(op);
                }
                Operations::store_i16(vm);
                StepEnd::Continued
        },
        Op::StoreI32 => {
                if !vm.words_ok(2) {
                    return StepEnd::Fault(op);
                }
                let b = vm.operand_bytes(1);
                if !(vm.spot_ok_exec(b[0], b[1], vm.word(2), 4)) {
                    return StepEnd::Fault(op);
                }
                Operations::store_i32(vm);
                StepEnd::Continued
        },
        Op::StoreI64 => {
                if !vm.words_ok(2) {
                    return StepEnd::Fault(op);
                }
                let b = vm.operand_bytes(1);
                if !(vm.spot_ok_exec(b[0], b[1], vm.word(2), 8)) {
                    return StepEnd::Fault(op);
                }
                Operations::store_i64(vm);
                StepEnd::Continued
        },
        _ => vstd::pervasive::unreached(),
    }
}

/// Runs the instruction at pc (see `step_spec`): nothing where the pause
/// flag is set or the word names no opcode; else what its handler does
/// where the instruction meets the handler's requirements, and `Fault`
/// with nothing changed where it does not.
pub fn step<R: Reactor>(vm: &mut VM<R>) -> (r: StepEnd)
    requires
        old(vm).wf(),
        old(vm).has_words(0),
    ensures
        step_spec(*final(vm), *old(vm), r),
{
    if vm.st.state_flag & PAUSE != 0 {
        return StepEnd::Paused;
    }
    let op = match vm.function_table[vm.st.now_call_index].instructions[vm.st.pc].as_fn() {
        Some(op) => op,
        None => return StepEnd::BadOpcode,
    };
    match op {
        Op::Ret | Op::Call | Op::Jump | Op::EqJump | Op::NeqJump | Op::LtU64Jump | Op::LteU64Jump | Op::LtI64Jump | Op::LteI64Jump | Op::GtU64Jump | Op::GteU64Jump | Op::GtI64Jump | Op::GteI64Jump | Op::Exit | Op::Alloc | Op::Realloc | Op::Dealloc | Op::CallThread | Op::SetIo | Op::WaitIo | Op::GetAnIo => step_ctl(vm, op),
        Op::GetDecode | Op::GetDecoded | Op::PrintU64 | Op::U64ToF64 | Op::I64ToF64 | Op::AddF64 | Op::AddF64Immediate | Op::SubF64 | Op::SubF64Immediate | Op::MulF64 | Op::MulF64Immediate | Op::DivF64 | Op::DivF64Immediate | Op::AbsF64 | Op::NegF64 | Op::ToI64 | Op::MemoryCopy => step_misc(vm, op),
        Op::Mov | Op::LoadU64Immediate | Op::Swap | Op::AndU64 | Op::AndU64Immediate | Op::OrU64 | Op::OrU64Immediate | Op::XorU64 | Op::XorU64Immediate | Op::NotU64 | Op::ShlU64 | Op::ShlU64Immediate | Op::ShlI64 | Op::ShlI64Immediate | Op::ShrU64 | Op::ShrU64Immediate | Op::ShrI64 | Op::ShrI64Immediate | Op::RolU64 | Op::RolU64Immediate | Op::RorU64 | Op::RorU64Immediate | Op::CountOnesU64 | Op::CountZerosU64 | Op::TrailingZerosU64 => step_bits(vm, op),
        Op::AddU64 | Op::AddU64Immediate | Op::AddI64 | Op::AddI64Immediate | Op::SubU64 | Op::SubU64Immediate | Op::SubI64 | Op::SubI64Immediate | Op::MulU64 | Op::MulU64Immediate | Op::MulI64 | Op::MulI64Immediate | Op::DivU64 | Op::DivU64Immediate | Op::DivI64 | Op::DivI64Immediate | Op::Abs | Op::ModI64 | Op::NegI64 => step_int(vm, op),
        Op::LoadU64 | Op::LoadU32 | Op::LoadU16 | Op::LoadU8 | Op::StoreU64 | Op::StoreU32 | Op::StoreU16 | Op::StoreU8 | Op::AtomicLoadU64 | Op::AtomicStoreU64 | Op::AtomicAddU64 | Op::AtomicSubU64 | Op::AtomicLoadU32 | Op::AtomicStoreU32 | Op::AtomicAddU32 | Op::AtomicSubU32 | Op::AtomicLoadU16 | Op::AtomicStoreU16 | Op::AtomicAddU16 | Op::AtomicSubU16 | Op::AtomicLoadU8 | Op::AtomicStoreU8 | Op::AtomicAddU8 | Op::AtomicSubU8 | Op::AtomicLoadI8 | Op::AtomicLoadI16 | Op::AtomicLoadI32 | Op::AtomicLoadI64 | Op::AtomicStoreI8 | Op::AtomicStoreI16 | Op::AtomicStoreI32 | Op::AtomicStoreI64 | Op::AtomicAddI8 | Op::AtomicAddI16 | Op::AtomicAddI32 | Op::AtomicAddI64 | Op::AtomicSubI8 | Op::AtomicSubI16 | Op::AtomicSubI32 | Op::AtomicSubI64 | Op::LoadI8 | Op::LoadI16 | Op::LoadI32 | Op::LoadI64 | Op::StoreI8 | Op::StoreI16 | Op::StoreI32 | Op::StoreI64 => step_mem(vm, op),
    }
}

/// A run from `states[0]`: each state the step of the one before it, ended
/// as `ends` says; every step but the last continued.
pub open spec fn run_trace<R: Reactor>(states: Seq<VM<R>>, ends: Seq<StepEnd>) -> bool {
    &&& states.len() == ends.len() + 1
    &&& forall|i: int| #![trigger ends[i]] 0 <= i < ends.len() ==> step_spec(states[i + 1], states[i], ends[i])
    &&& forall|i: int| #![trigger ends[i]] 0 <= i < ends.len() - 1 ==> ends[i] == StepEnd::Continued
}

/// How a run with `fuel` steps at most that went through `states` and
/// `ends` stops with `e`: off its code after steps that all continued; with
/// the fuel spent and every step continued; or at the first step that did
/// not continue.
pub open spec fn run_result<R: Reactor>(states: Seq<VM<R>>, ends: Seq<StepEnd>, e: StepEnd, fuel: nat) -> bool {
    &&& run_trace(states, ends)
    &&& if e == StepEnd::OffCode {
        &&& ends.len() > 0 ==> ends.last() == StepEnd::Continued
        &&& !(states.last().wf() && states.last().has_words(0))
    } else if e == StepEnd::Continued {
        &&& ends.len() > 0 ==> ends.last() == StepEnd::Continued
        &&& ends.len() == fuel
    } else {
        ends.len() > 0 && ends.last() == e
    }
}

/// Steps (see `step`) until a step does not continue or `fuel` steps have
/// run, checking before each step that the VM is on its code. Returns how it
/// stopped (`Continued` where the fuel ran out) and how many steps ran.
pub fn run<R: Reactor>(vm: &mut VM<R>, fuel: usize) -> (r: (StepEnd, usize))
    ensures
        r.1 <= fuel,
        exists|states: Seq<VM<R>>, ends: Seq<StepEnd>|
            #[trigger] run_result(states, ends, r.0, fuel as nat) && states[0] == *old(vm) && states.last()
                == *final(vm) && ends.len() == r.1,
{
    let mut n: usize = 0;
    let mut out = StepEnd::Continued;
    let ghost mut states: Seq<VM<R>> = seq![*vm];
    let ghost mut ends: Seq<StepEnd> = seq![];
    loop
        invariant_except_break
            forall|i: int| #![trigger ends[i]] 0 <= i < ends.len() ==> ends[i] == StepEnd::Continued,
        invariant
            n <= fuel,
            run_trace(states, ends),
            states[0] == *old(vm),
            states.last() == *vm,
            ends.len() == n,
        ensures
            run_result(states, ends, out, fuel as nat),
        decreases fuel - n,
    {
        if n == fuel {
            out = StepEnd::Continued;
            break;
        }
        if !(vm.st.r.len() == REGISTER_NUM && vm.st.now_call_index < vm.function_table.len() && vm.words_ok(0)) {
            out = StepEnd::OffCode;
            break;
        }
        let e = step(vm);
        proof {
            let s0 = states;
            let e0 = ends;
            states = states.push(*vm);
            ends = ends.push(e);
            assert forall|i: int| #![trigger ends[i]] 0 <= i < ends.len() implies step_spec(
                states[i + 1],
                states[i],
                ends[i],
            ) by {
                if i < e0.len() {
                    assert(ends[i] == e0[i]);
                    assert(states[i] == s0[i]);
                    assert(states[i + 1] == s0[i + 1]);
                }
            }
            assert forall|i: int| #![trigger ends[i]] 0 <= i < ends.len() - 1 implies ends[i] == StepEnd::Continued by {
                assert(ends[i] == e0[i]);
            }
        }
        n = n + 1;
        if let StepEnd::Continued = e {
        } else {
            out = e;
            break;
        }
    }
    let res = (out, n);
    proof {
        assert(res.0 == out);
        assert(run_result(states, ends, res.0, fuel as nat) && states[0] == *old(vm) && states.last() == *vm
            && ends.len() == res.1);
    }
    res
}

/// `RET` undoes `CALL`: where a callee leaves the call stack as `CALL` left
/// it, returning puts back the caller's function and call stack and goes on
/// at the instruction after the three-word `CALL`.
pub proof fn law_ret_after_call<R: Reactor>(s: VM<R>, mid: VM<R>, back: VM<R>, new: VM<R>)
    requires
        pre_call(s),
        post_call(mid, s),
        back.st.call_stack@ == mid.st.call_stack@,
        pre_ret(back),
        post_ret(new, back),
    ensures
        new.st.now_call_index == s.st.now_call_index,
        new.st.call_stack@ == s.st.call_stack@,
        new.st.pc == s.st.pc + 3,
{
    let cs = mid.st.call_stack@;
    assert(cs.len() == s.st.call_stack@.len() + 2);
    assert(cs[cs.len() - 2] == (s.st.pc + 2) as usize);
    assert(cs.drop_last().drop_last() =~= s.st.call_stack@);
}

} // verus!
