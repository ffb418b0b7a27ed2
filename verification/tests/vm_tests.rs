use std::sync::Arc;

use mikan_script::vm::code_manager::CodeManager;
use mikan_script::vm::function::Function;
use mikan_script::vm::instruction::{Instruction, Op};
use mikan_script::vm::io::{FuId, IoEngine, IoOp, IoResult, Reactor};
use mikan_script::vm::memory::{DefaultMemoryManager, VPtr};
use mikan_script::vm::numeric::parse_numeric;
use mikan_script::vm::ops::{Operations, PAUSE, VM};
use mikan_script::vm::step::{run, step, StepEnd};
use mikan_script::vm::pre_decoder::{parse_packed_operand, Arg, PreDecoder};

struct InstantReactor;

impl Reactor for InstantReactor {
    // The trait's two spec items, which the verifier reads and which
    // nothing calls at run time.
    fn handed(&self, _fu_id: FuId, _op: IoOp) -> bool {
        true
    }

    fn asked_to_wait(&self, _timeout_ms: i64, _max_events: usize) -> bool {
        true
    }

    fn submit(&self, _fu_id: FuId, op: &IoOp) -> Result<Option<IoResult>, std::io::Error> {
        match op {
            IoOp::Sleep { .. } => Ok(None),
            IoOp::TimeNow => Ok(Some(IoResult::TimeNow { low: 5, high: 6, status: 0 })),
            _ => Ok(Some(IoResult::StreamIo { len: 3, status: 0 })),
        }
    }

    fn wait(&self, _timeout_ms: i64, max_events: usize, out: &mut Vec<(FuId, IoResult)>) -> Result<(), std::io::Error> {
        if max_events > 0 {
            out.push((1, IoResult::SleepDone { status: 0 }));
        }
        Ok(())
    }

    fn cancel(&self, _fu_id: FuId) -> Result<(), std::io::Error> {
        Ok(())
    }
}

fn word(bytes: &[u8]) -> u64 {
    let mut w = 0u64;
    for (i, b) in bytes.iter().enumerate() {
        w |= (*b as u64) << (8 * i);
    }
    w
}

fn vm_with(words: Vec<u64>) -> VM<InstantReactor> {
    let mut vm = VM::new(DefaultMemoryManager::with_capacity(0), IoEngine::new(Arc::new(InstantReactor)));
    vm.function_table.push(Function::new(words.into_iter().map(|code| Instruction { code }).collect()));
    vm
}

fn chars(s: &str) -> Vec<char> {
    s.chars().collect()
}

#[test]
fn numeric_forms() {
    assert_eq!(parse_numeric(&chars("42")), Ok(42));
    assert_eq!(parse_numeric(&chars("0x1F")), Ok(31));
    assert_eq!(parse_numeric(&chars("0b101")), Ok(5));
    assert_eq!(parse_numeric(&chars("1_000")), Ok(1000));
    assert_eq!(parse_numeric(&chars("-1")), Ok(u64::MAX));
    assert!(parse_numeric(&chars("abc")).is_err());
}

#[test]
fn vptr_round_trip() {
    let p = VPtr::from_heep_id(7);
    assert_eq!(p.heep_id(), 7);
    assert_eq!(p.offset(), 0);
    assert_eq!(VPtr(p.0 + 12).offset(), 12);
}

#[test]
fn memory_write_then_read() {
    let mut m = DefaultMemoryManager::with_capacity(4);
    let p = m.alloc_heep(8, 0);
    m.write(VPtr(p.0 + 2), &[1, 2, 3]);
    assert_eq!(m.read(p, 6), vec![0, 0, 1, 2, 3, 0]);
    m.dealloc_heep(p, 0);
    let q = m.alloc_heep(4, 0);
    assert_eq!(q, p);
}

#[test]
fn integer_ops_wrap() {
    let mut vm = vm_with(vec![0]);
    vm.st.r[1] = u64::MAX;
    vm.st.r[2] = 2;
    Operations::add_u64(&mut vm, 1, 2);
    assert_eq!(vm.st.r[1], 1);
    assert_eq!(vm.st.pc, 1);
    Operations::sub_u64_immediate(&mut vm, 1, 3);
    assert_eq!(vm.st.r[1], u64::MAX - 1);
    vm.st.r[3] = (-7i64) as u64;
    vm.st.r[4] = 2;
    Operations::div_i64(&mut vm, 3, 4);
    assert_eq!(vm.st.r[3] as i64, -3);
    vm.st.r[5] = (-7i64) as u64;
    Operations::mod_i64(&mut vm, 5, 4);
    assert_eq!(vm.st.r[5] as i64, -1);
    vm.st.r[6] = (-9i64) as u64;
    Operations::abs(&mut vm, 7, 6);
    assert_eq!(vm.st.r[7], 9);
    Operations::neg_i64(&mut vm, 8, 7);
    assert_eq!(vm.st.r[8] as i64, -9);
}

#[test]
fn bit_ops_read_operand_words() {
    // and_u64 r1 r2 ; rol_u64_immediate r1, 4 ; count_ones r3 r1
    let mut vm = vm_with(vec![0, word(&[1, 2]), 0, word(&[1]), 4, 0, word(&[3, 1])]);
    vm.st.r[1] = 0xF0F0;
    vm.st.r[2] = 0xFF00;
    Operations::and_u64(&mut vm);
    assert_eq!(vm.st.r[1], 0xF000);
    assert_eq!(vm.st.pc, 2);
    Operations::rol_u64_immediate(&mut vm);
    assert_eq!(vm.st.r[1], 0xF_0000);
    assert_eq!(vm.st.pc, 5);
    Operations::count_ones_u64(&mut vm);
    assert_eq!(vm.st.r[3], 4);
}

#[test]
fn conditional_jump_goes_or_falls_through() {
    let mut vm = vm_with(vec![0, word(&[1, 2, 3]), 10, 0, word(&[1, 2, 3]), 10]);
    vm.st.r[1] = 100;
    vm.st.r[2] = 5;
    vm.st.r[3] = 5;
    Operations::eq_jump(&mut vm);
    assert_eq!(vm.st.pc, 110);
    vm.st.pc = 3;
    vm.st.r[3] = 6;
    Operations::eq_jump(&mut vm);
    assert_eq!(vm.st.pc, 6);
}

#[test]
fn call_and_ret() {
    let mut vm = vm_with(vec![0, 1, 7]);
    vm.function_table.push(Function::new(vec![Instruction { code: 0 }; 8]));
    Operations::call(&mut vm);
    assert_eq!(vm.st.now_call_index, 1);
    assert_eq!(vm.st.pc, 7);
    Operations::ret(&mut vm);
    assert_eq!(vm.st.now_call_index, 0);
    assert_eq!(vm.st.pc, 3);
}

#[test]
fn store_then_load_round_trips() {
    // store_u32 [heap r1, addr r2, src r3] +1 ; load_u32 [heap r1, addr r2, res r4] +1 ; load_i8 [r1, r2, r5] +1
    let mut vm = vm_with(vec![0, word(&[1, 2, 3]), 1, 0, word(&[1, 2, 4]), 1, 0, word(&[1, 2, 5]), 1]);
    let p = vm.mem.alloc_heep(16, 0);
    vm.st.r[1] = p.0;
    vm.st.r[2] = 2;
    vm.st.r[3] = 0x1234_56F8;
    Operations::store_u32(&mut vm);
    Operations::load_u32(&mut vm);
    assert_eq!(vm.st.r[4], 0x1234_56F8);
    Operations::load_i8(&mut vm);
    assert_eq!(vm.st.r[5] as i64, -8);
}

#[test]
fn atomic_add_returns_the_old_value() {
    let mut vm = vm_with(vec![0, word(&[6, 1, 2, 3]), 0]);
    let p = vm.mem.alloc_heep(8, 0);
    vm.st.r[1] = p.0;
    vm.st.r[2] = 0;
    vm.st.r[3] = 300;
    Operations::atomic_add_u8(&mut vm);
    assert_eq!(vm.st.r[6], 0);
    assert_eq!(vm.mem.read(p, 1), vec![44]);
}

#[test]
fn set_io_then_get_an_io() {
    // set_io [fu r1, order 11 (time now)] ; get_an_io [fu r2, kind r3, c1 r4, c2 r5]
    let mut vm = vm_with(vec![0, word(&[1, 11]), 0, word(&[2, 3, 4, 5])]);
    Operations::set_io(&mut vm).expect("submitted");
    assert_eq!(vm.st.r[1], 1);
    Operations::get_an_io(&mut vm);
    assert_eq!(vm.st.r[2], 1);
    assert_eq!(vm.st.r[3], 4);
    assert_eq!(vm.st.r[4], 5);
    assert_eq!(vm.st.r[5], 6);
}

#[test]
fn get_an_io_without_events_sets_zero() {
    let mut vm = vm_with(vec![0, word(&[2, 3, 4, 5])]);
    vm.st.r[2] = 9;
    Operations::get_an_io(&mut vm);
    assert_eq!(vm.st.r[2], 0);
}

#[test]
fn allocate_writes_the_pointer() {
    let mut vm = vm_with(vec![0, word(&[1, 2]), 4]);
    vm.st.r[1] = 4;
    Operations::allocate(&mut vm);
    assert_eq!(vm.st.r[2], VPtr::from_heep_id(0).0);
    assert_eq!(vm.mem.data[0].raw.bytes.len(), 8);
}

#[test]
fn engine_waits_for_an_event() {
    let mut e = IoEngine::new(Arc::new(InstantReactor));
    let id = e.submit_op(IoOp::Sleep { ms: 1 }).expect("ok");
    assert_eq!(id, 1);
    let ev = e.wait_a_event(-1).expect("ok");
    assert_eq!(ev, Some((1, IoResult::SleepDone { status: 0 })));
}

#[test]
fn code_manager_tables_every_kept_function_on_each_call() {
    let mut cm = CodeManager::new("root".to_string());
    cm.set_functions(vec![Function::new(vec![Instruction { code: 1 }])]);
    assert_eq!(cm.get_decoded().len(), 1);
    cm.set_functions(vec![Function::new(vec![Instruction { code: 2 }])]);
    let t = cm.get_decoded();
    assert_eq!(t.len(), 3);
    assert_eq!(t[2].instructions[0].code, 2);
    assert_eq!(cm.owned_functions.len(), 2);
    assert!(cm.functions.is_empty());
}

#[test]
fn pre_decoder_encodes_a_load_immediate() {
    let fs = PreDecoder::new()
        .decode("MAIN\n    LOAD_U64_IMMEDIATE r0 123 ; a comment\n    EXIT r0\n")
        .expect("decodes");
    assert_eq!(fs.len(), 1);
    assert_eq!(fs[0].instructions[0].code, 21);
    assert_eq!(fs[0].instructions[1].code, 0);
    assert_eq!(fs[0].instructions[2].code, 123);
}

#[test]
fn pre_decoder_requires_main() {
    let err = PreDecoder::new().decode("FUNC\n    RET\n").unwrap_err();
    assert_eq!(err.to_string(), "MAIN function is required");
}

#[test]
fn pre_decoder_names_an_unknown_opcode() {
    let err = PreDecoder::new().decode("MAIN\n    FOO r1\n").unwrap_err();
    assert_eq!(err.to_string(), "unknown opcode 'FOO' at line 2");
}

#[test]
fn swap_twice_restores() {
    let mut vm = vm_with(vec![0, word(&[1, 2]), 0, word(&[1, 2])]);
    vm.st.r[1] = 10;
    vm.st.r[2] = 20;
    Operations::swap(&mut vm);
    assert_eq!((vm.st.r[1], vm.st.r[2]), (20, 10));
    Operations::swap(&mut vm);
    assert_eq!((vm.st.r[1], vm.st.r[2]), (10, 20));
}

#[test]
fn add_then_sub_immediate_restores() {
    let mut vm = vm_with(vec![0]);
    vm.st.r[1] = 5;
    Operations::add_u64_immediate(&mut vm, 1, u64::MAX - 1);
    assert_eq!(vm.st.r[1], 3);
    Operations::sub_u64_immediate(&mut vm, 1, u64::MAX - 1);
    assert_eq!(vm.st.r[1], 5);
}

#[test]
fn division_and_remainder_agree() {
    for (x, d) in [(7i64, 2i64), (-7, 2), (7, -2), (-7, -2), (i64::MIN, 3)] {
        let mut vm = vm_with(vec![0]);
        vm.st.r[1] = x as u64;
        vm.st.r[2] = d as u64;
        vm.st.r[3] = x as u64;
        Operations::div_i64(&mut vm, 1, 2);
        Operations::mod_i64(&mut vm, 3, 2);
        let q = vm.st.r[1] as i64;
        let r = vm.st.r[3] as i64;
        assert_eq!(q, x / d);
        assert_eq!(r, x % d);
        assert_eq!(q.wrapping_mul(d).wrapping_add(r), x);
    }
}

#[test]
fn signed_shift_right_fills_with_the_sign() {
    let mut vm = vm_with(vec![0, word(&[1]), 4]);
    vm.st.r[1] = (-64i64) as u64;
    Operations::shr_i64_immediate(&mut vm);
    assert_eq!(vm.st.r[1] as i64, -4);
}

#[test]
fn wait_io_collects_known_events() {
    // set_io [fu r1, order 3 (sleep), ms r0] ; wait_io [timeout r5, max r6, num r7] ; get_an_io [r2 r3 r4 r8]
    let mut vm = vm_with(vec![0, word(&[1, 3, 0]), 0, word(&[5, 6, 7]), 0, word(&[2, 3, 4, 8])]);
    vm.st.r[5] = u64::MAX;
    vm.st.r[6] = 8;
    Operations::set_io(&mut vm).expect("submitted");
    Operations::wait_io(&mut vm).expect("waited");
    assert_eq!(vm.st.r[7], 1);
    Operations::get_an_io(&mut vm);
    assert_eq!(vm.st.r[2], 1);
    assert_eq!(vm.st.r[3], 3);
}

#[test]
fn completions_are_taken_in_queue_order() {
    // two set_io (time now) into r1 and r2, then two get_an_io into r3..r6 and r7..r10
    let mut vm = vm_with(vec![
        0,
        word(&[1, 11]),
        0,
        word(&[2, 11]),
        0,
        word(&[3, 4, 5, 6]),
        0,
        word(&[7, 8, 9, 10]),
    ]);
    Operations::set_io(&mut vm).expect("first");
    Operations::set_io(&mut vm).expect("second");
    assert_eq!((vm.st.r[1], vm.st.r[2]), (1, 2));
    Operations::get_an_io(&mut vm);
    Operations::get_an_io(&mut vm);
    assert_eq!(vm.st.r[3], 1);
    assert_eq!(vm.st.r[7], 2);
}

#[test]
fn immediates_are_64_bit_integers() {
    assert_eq!(parse_numeric(&chars("0o17")), Ok(15));
    assert_eq!(parse_numeric(&chars("-0x8000_0000_0000_0000")), Ok(0x8000_0000_0000_0000));
    assert!(parse_numeric(&chars("0x")).is_err());
    assert!(parse_numeric(&chars("-18446744073709551616")).is_err());
    assert!(parse_numeric(&chars("-9223372036854775809")).is_err());
    assert!(parse_numeric(&chars("18446744073709551616")).is_err());
}

#[test]
fn numeric_first_token_is_one_immediate() {
    let tokens = vec![chars("7"), chars("r2")];
    let mut cursor = 0usize;
    let r = parse_packed_operand(&chars("MOV"), &tokens, &mut cursor, 2, 1);
    assert!(matches!(r, Ok(Arg::Value(7))));
    assert_eq!(cursor, 1);
    let tokens = vec![chars("r1"), chars("r2")];
    let mut cursor = 0usize;
    let r = parse_packed_operand(&chars("MOV"), &tokens, &mut cursor, 2, 1);
    assert!(matches!(r, Ok(Arg::Value(0x0201))));
    assert_eq!(cursor, 2);
}

#[test]
fn dealloc_twice_releases_once() {
    let mut m = DefaultMemoryManager::with_capacity(0);
    let p = m.alloc_heep(16, 0);
    m.dealloc_heep(p, 0);
    m.dealloc_heep(p, 0);
    assert_eq!(m.reuse_list, vec![p.heep_id()]);
    let a = m.alloc_heep(8, 0);
    let b = m.alloc_heep(8, 0);
    assert_ne!(a.heep_id(), b.heep_id());
}

#[test]
fn exit_takes_its_code_from_the_named_register() {
    let mut vm = vm_with(vec![0, word(&[5])]);
    vm.st.r[5] = 42;
    let code = Operations::exit(&mut vm);
    assert_eq!(code, 42);
    assert_eq!(vm.st.r[0], 42);
    assert_eq!(vm.st.pc, 0);
    assert_eq!(vm.st.state_flag & PAUSE, PAUSE);
}

#[test]
fn documented_opcodes_decode() {
    let fs = PreDecoder::new()
        .decode("MAIN\n    SET_IO r1 r2 r3 r4 r5 r6 r7\n    WAIT_IO r1 r2 r3\n    GET_AN_IO r1 r2 r3 r4\n    LOAD_I8 r1 r2 r3 8\n    STORE_I64 r1 r2 r3 8\n    MEMORY_COPY r1 r2 r3\n    EXIT r0\n")
        .expect("decodes");
    let code: Vec<u64> = fs[0].instructions.iter().map(|i| i.code).collect();
    assert_eq!(code[0], Op::SetIo.index());
    assert_eq!(code[1], word(&[1, 2, 3, 4, 5, 6, 7]));
    assert_eq!(code[2], Op::WaitIo.index());
    assert_eq!(code[4], Op::GetAnIo.index());
    assert_eq!(code[6], Op::LoadI8.index());
    assert_eq!(code[7], word(&[1, 2, 3]));
    assert_eq!(code[8], 8);
    assert_eq!(code[9], Op::StoreI64.index());
    assert_eq!(code[12], Op::MemoryCopy.index());
}

#[test]
fn call_thread_names_a_function() {
    let fs = PreDecoder::new().decode("MAIN\n    CALL_THREAD r1 r2 WORKER\n    EXIT r0\nWORKER\n    RET\n").expect("decodes");
    assert_eq!(fs[0].instructions[0].code, Op::CallThread.index());
    assert_eq!(fs[0].instructions[2].code, 1);
    let mut vm = vm_with(fs[0].instructions.iter().map(|i| i.code).collect());
    Operations::call_thread(&mut vm);
    assert_eq!(vm.st.r[2], u64::MAX);
    assert_eq!(vm.st.pc, 3);
}

#[test]
fn run_steps_a_decoded_program_to_its_exit() {
    let fs = PreDecoder::new()
        .decode("MAIN\n    LOAD_U64_IMMEDIATE r1 5\n    ADD_U64_IMMEDIATE r1 3\n    MOV r2 r1\n    EXIT r2\n")
        .expect("decodes");
    let mut vm = vm_with(fs[0].instructions.iter().map(|i| i.code).collect());
    let (end, steps) = run(&mut vm, 100);
    assert!(matches!(end, StepEnd::Exited(8)));
    assert_eq!(steps, 4);
    assert_eq!(vm.st.r[0], 8);
    let again = step(&mut vm);
    assert!(matches!(again, StepEnd::Paused));
}

#[test]
fn step_faults_on_a_zero_divisor_and_leaves_the_vm() {
    let mut vm = vm_with(vec![Op::DivU64Immediate.index(), word(&[1]), 0]);
    vm.st.r[1] = 9;
    let end = step(&mut vm);
    assert!(matches!(end, StepEnd::Fault(Op::DivU64Immediate)));
    assert_eq!(vm.st.pc, 0);
    assert_eq!(vm.st.r[1], 9);
}

#[test]
fn step_hands_floats_and_prints_to_the_caller() {
    let mut vm = vm_with(vec![Op::AddF64.index(), word(&[1, 2])]);
    assert!(matches!(step(&mut vm), StepEnd::Float(Op::AddF64)));
    assert_eq!(vm.st.pc, 0);
    let mut vm = vm_with(vec![Op::PrintU64.index(), word(&[3]), Op::Ret.index()]);
    vm.st.r[3] = 77;
    assert!(matches!(step(&mut vm), StepEnd::Print(77)));
    assert_eq!(vm.st.pc, 2);
    let mut vm = vm_with(vec![999]);
    assert!(matches!(step(&mut vm), StepEnd::BadOpcode));
}

#[test]
fn run_stops_when_the_fuel_runs_out() {
    let fs = PreDecoder::new().decode("MAIN\nLOOP:\n    ADD_U64_IMMEDIATE r1 1\n    JUMP r255 LOOP\n    EXIT r0\n").expect("decodes");
    let mut vm = vm_with(fs[0].instructions.iter().map(|i| i.code).collect());
    vm.st.r[255] = 0;
    let (end, steps) = run(&mut vm, 10);
    assert!(matches!(end, StepEnd::Continued));
    assert_eq!(steps, 10);
    assert_eq!(vm.st.r[1], 5);
}

#[test]
fn comment_and_blank_lines_do_not_change_decoding() {
    let a = PreDecoder::new().decode("MAIN\n    LOAD_U64_IMMEDIATE r1 5\n    EXIT r1\n").expect("decodes");
    let b = PreDecoder::new()
        .decode("; header\nMAIN\n\n    ; note\n    LOAD_U64_IMMEDIATE r1 5\n   \n    EXIT r1\n")
        .expect("decodes");
    let ca: Vec<u64> = a[0].instructions.iter().map(|i| i.code).collect();
    let cb: Vec<u64> = b[0].instructions.iter().map(|i| i.code).collect();
    assert_eq!(ca, cb);
}

struct FailingReactor;

impl Reactor for FailingReactor {
    // The trait's two spec items, which the verifier reads and which
    // nothing calls at run time.
    fn handed(&self, _fu_id: FuId, _op: IoOp) -> bool {
        true
    }

    fn asked_to_wait(&self, _timeout_ms: i64, _max_events: usize) -> bool {
        true
    }

    fn submit(&self, _fu_id: FuId, _op: &IoOp) -> Result<Option<IoResult>, std::io::Error> {
        Ok(Some(IoResult::Error { kind: 3, raw_os_error: 5, retryable: true }))
    }

    fn wait(&self, _timeout_ms: i64, _max_events: usize, _out: &mut Vec<(FuId, IoResult)>) -> Result<(), std::io::Error> {
        Ok(())
    }

    fn cancel(&self, _fu_id: FuId) -> Result<(), std::io::Error> {
        Ok(())
    }
}

#[test]
fn get_an_io_reports_an_error_completion() {
    let mut vm = VM::new(DefaultMemoryManager::with_capacity(0), IoEngine::new(Arc::new(FailingReactor)));
    vm.function_table.push(Function::new(
        vec![0, word(&[1, 11]), 0, word(&[2, 3, 4, 5])].into_iter().map(|code| Instruction { code }).collect(),
    ));
    Operations::set_io(&mut vm).expect("submitted");
    Operations::get_an_io(&mut vm);
    assert_eq!(vm.st.r[2], 1);
    assert_eq!(vm.st.r[3] as i64, -3);
    assert_eq!(vm.st.r[4], 1);
}

#[test]
fn wait_io_counts_no_more_than_its_maximum() {
    let mut vm = vm_with(vec![0, word(&[1, 3, 0]), 0, word(&[5, 6, 7])]);
    vm.st.r[5] = 0;
    vm.st.r[6] = 0;
    vm.st.r[7] = 99;
    Operations::set_io(&mut vm).expect("submitted");
    Operations::wait_io(&mut vm).expect("waited");
    assert_eq!(vm.st.r[7], 0);
}
