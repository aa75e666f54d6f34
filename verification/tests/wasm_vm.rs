use flux::bytecode::{encode, Op};
use flux::wasm_vm::Vm;
use flux::word::{ArithOp, CompareOp, Reply, Request};

/// Answers the machine's numeric requests with binary64 arithmetic.
fn answer(q: Request) -> Reply {
    let f = f64::from_bits;
    match q {
        Request::Nothing => Reply::Nothing,
        Request::Arith(op, a, b) => {
            let (a, b) = (f(a), f(b));
            let v = match op {
                ArithOp::Add => a + b,
                ArithOp::Sub => a - b,
                ArithOp::Mul => a * b,
                ArithOp::Div => a / b,
            };
            Reply::Word(v.to_bits())
        }
        Request::Compare(op, a, b) => {
            let (a, b) = (f(a), f(b));
            Reply::Flag(match op {
                CompareOp::Lt => a < b,
                CompareOp::Gt => a > b,
                CompareOp::Eq => a == b,
                CompareOp::Le => a <= b,
                CompareOp::Ge => a >= b,
                CompareOp::Ne => a != b,
            })
        }
        Request::Truth(x) => Reply::Flag(f(x) != 0.0),
        Request::Truths(a, b) => Reply::Flags(f(a) != 0.0, f(b) != 0.0),
        Request::IndexToWord(n) => Reply::Word((n as f64).to_bits()),
        Request::WordToIndex(w) => Reply::Index(f(w) as usize),
        Request::WordToByte(w) => Reply::Byte(f(w) as u8),
    }
}

fn drive(vm: &mut Vm) {
    while !vm.is_stopped() {
        assert!(!vm.counter_full());
        let q = vm.request();
        vm.step(answer(q));
    }
}

fn run(vm: &mut Vm, inputs: &[f64]) {
    let words: Vec<u64> = inputs.iter().map(|x| x.to_bits()).collect();
    vm.prepare_run(&words);
    drive(vm);
}

fn ins(op: Op, arg0: u16, arg1: u16, imm: f64) -> Vec<u8> {
    encode(op, arg0, arg1, imm.to_bits())
}

fn value(vm: &Vm, i: usize) -> f64 {
    f64::from_bits(vm.stack[i])
}

#[test]
fn test_const_add() {
    let mut vm = Vm::new();
    let mut bc = Vec::new();
    bc.extend(ins(Op::Const, 0, 0, 3.0));
    bc.extend(ins(Op::Const, 0, 0, 4.0));
    bc.extend(ins(Op::Add, 0, 0, 0.0));
    bc.extend(ins(Op::Halt, 0, 0, 0.0));
    vm.load_bytecode(&bc);
    run(&mut vm, &[]);
    assert_eq!(vm.stack.len(), 1);
    assert!((value(&vm, 0) - 7.0).abs() < 1e-9);
}

#[test]
fn test_load_store_lt() {
    let mut vm = Vm::new();
    let mut bc = Vec::new();
    bc.extend(ins(Op::Load, 0, 0, 0.0));
    bc.extend(ins(Op::Const, 0, 0, 100.0));
    bc.extend(ins(Op::Lt, 0, 0, 0.0));
    bc.extend(ins(Op::Halt, 0, 0, 0.0));
    vm.load_bytecode(&bc);
    run(&mut vm, &[50.0]);
    assert_eq!(vm.stack.len(), 1);
    assert_eq!(value(&vm, 0), 1.0);
}

#[test]
fn test_and_or() {
    let mut vm = Vm::new();
    let mut bc = Vec::new();
    bc.extend(ins(Op::Const, 0, 0, 1.0));
    bc.extend(ins(Op::Const, 0, 0, 0.0));
    bc.extend(ins(Op::And, 0, 0, 0.0));
    bc.extend(ins(Op::Const, 0, 0, 1.0));
    bc.extend(ins(Op::Or, 0, 0, 0.0));
    bc.extend(ins(Op::Halt, 0, 0, 0.0));
    vm.load_bytecode(&bc);
    run(&mut vm, &[]);
    assert_eq!(vm.stack.len(), 2);
    assert_eq!(value(&vm, 0), 0.0);
    assert_eq!(value(&vm, 1), 1.0);
}

#[test]
fn test_jmp_jz() {
    let mut vm = Vm::new();
    let mut bc = Vec::new();
    bc.extend(ins(Op::Const, 0, 0, 0.0));
    bc.extend(ins(Op::Jz, 3, 0, 0.0));
    bc.extend(ins(Op::Const, 0, 0, 99.0));
    bc.extend(ins(Op::Halt, 0, 0, 0.0));
    bc.extend(ins(Op::Const, 0, 0, 42.0));
    bc.extend(ins(Op::Halt, 0, 0, 0.0));
    vm.load_bytecode(&bc);
    run(&mut vm, &[]);
    assert_eq!(vm.stack.len(), 1);
    assert_eq!(value(&vm, 0), 42.0);
}

#[test]
fn test_check_assert_violations() {
    let mut vm = Vm::new();
    let mut bc = Vec::new();
    bc.extend(ins(Op::Const, 0, 0, 0.0));
    bc.extend(ins(Op::Check, 0, 0, 0.0));
    bc.extend(ins(Op::Const, 0, 0, 0.0));
    bc.extend(ins(Op::Assert, 0, 0, 0.0));
    bc.extend(ins(Op::Halt, 0, 0, 0.0));
    vm.load_bytecode(&bc);
    run(&mut vm, &[]);
    assert_eq!(vm.checks, 2);
    assert_eq!(vm.violations, 2);
    assert!(vm.halted);
}

#[test]
fn test_pack8_unpack() {
    let mut vm = Vm::new();
    let mut bc = Vec::new();
    for _ in 0..8 {
        bc.extend(ins(Op::Const, 0, 0, 1.0));
    }
    bc.extend(ins(Op::Pack8, 0, 0, 0.0));
    bc.extend(ins(Op::Unpack, 0, 0, 0.0));
    bc.extend(ins(Op::Halt, 0, 0, 0.0));
    vm.load_bytecode(&bc);
    run(&mut vm, &[]);
    assert_eq!(vm.stack.len(), 9);
}

#[test]
fn pack8_packs_bit_zero_from_the_top() {
    let mut vm = Vm::new();
    let mut bc = Vec::new();
    // pushed first (deepest) is bit 7, pushed last (top) is bit 0
    for v in [1.0, 0.0, 0.0, 0.0, 0.0, 0.0, 1.0, 0.0] {
        bc.extend(ins(Op::Const, 0, 0, v));
    }
    bc.extend(ins(Op::Pack8, 0, 0, 0.0));
    vm.load_bytecode(&bc);
    run(&mut vm, &[]);
    assert_eq!(vm.stack.len(), 1);
    assert_eq!(value(&vm, 0), 130.0);
}

#[test]
fn unpack_pushes_bits_low_first_over_its_operand() {
    let mut vm = Vm::new();
    let mut bc = Vec::new();
    bc.extend(ins(Op::Const, 0, 0, 5.0));
    bc.extend(ins(Op::Unpack, 0, 0, 0.0));
    vm.load_bytecode(&bc);
    run(&mut vm, &[]);
    let got: Vec<f64> = (0..vm.stack.len()).map(|i| value(&vm, i)).collect();
    assert_eq!(got, vec![5.0, 1.0, 0.0, 1.0, 0.0, 0.0, 0.0, 0.0, 0.0]);
}

#[test]
fn pack8_on_a_short_stack_reads_zeros() {
    let mut vm = Vm::new();
    let mut bc = Vec::new();
    bc.extend(ins(Op::Const, 0, 0, 2.0));
    bc.extend(ins(Op::Pack8, 0, 0, 0.0));
    vm.load_bytecode(&bc);
    run(&mut vm, &[]);
    assert_eq!(vm.stack.len(), 1);
    assert_eq!(value(&vm, 0), 1.0);
}

#[test]
fn store_grows_the_locals_and_load_reads_them() {
    let mut vm = Vm::new();
    let mut bc = Vec::new();
    bc.extend(ins(Op::Const, 0, 0, 6.5));
    bc.extend(ins(Op::Store, 5, 0, 0.0));
    bc.extend(ins(Op::Load, 5, 0, 0.0));
    bc.extend(ins(Op::Load, 3, 0, 0.0));
    bc.extend(ins(Op::Load, 0, 0, 0.0));
    vm.load_bytecode(&bc);
    run(&mut vm, &[9.0]);
    let got: Vec<f64> = (0..vm.stack.len()).map(|i| value(&vm, i)).collect();
    assert_eq!(got, vec![6.5, 0.0, 9.0]);
}

#[test]
fn empty_stack_pops_zero() {
    let mut vm = Vm::new();
    let mut bc = Vec::new();
    bc.extend(ins(Op::Sub, 0, 0, 0.0));
    bc.extend(ins(Op::Check, 0, 0, 0.0));
    vm.load_bytecode(&bc);
    run(&mut vm, &[]);
    assert_eq!(vm.stack.len(), 0);
    assert_eq!(vm.checks, 1);
    assert_eq!(vm.violations, 1);
    assert!(!vm.halted);
}

#[test]
fn arithmetic_and_comparisons() {
    let mut vm = Vm::new();
    let mut bc = Vec::new();
    bc.extend(ins(Op::Const, 0, 0, 9.0));
    bc.extend(ins(Op::Const, 0, 0, 3.0));
    bc.extend(ins(Op::Div, 0, 0, 0.0)); // 3
    bc.extend(ins(Op::Const, 0, 0, 2.0));
    bc.extend(ins(Op::Mul, 0, 0, 0.0)); // 6
    bc.extend(ins(Op::Const, 0, 0, 6.0));
    bc.extend(ins(Op::Ge, 0, 0, 0.0)); // 1
    bc.extend(ins(Op::Not, 0, 0, 0.0)); // 0
    bc.extend(ins(Op::Const, 0, 0, 0.0));
    bc.extend(ins(Op::Eq, 0, 0, 0.0)); // 1
    vm.load_bytecode(&bc);
    run(&mut vm, &[]);
    assert_eq!(vm.stack.len(), 1);
    assert_eq!(value(&vm, 0), 1.0);
}

#[test]
fn call_and_ret_return_after_the_call() {
    let mut vm = Vm::new();
    let mut bc = Vec::new();
    bc.extend(ins(Op::Call, 3, 0, 0.0)); // 0: push 1, go to 3
    bc.extend(ins(Op::Const, 0, 0, 7.0)); // 1
    bc.extend(ins(Op::Halt, 0, 0, 0.0)); // 2
    bc.extend(ins(Op::Const, 0, 0, 5.0)); // 3
    bc.extend(ins(Op::Store, 0, 0, 0.0)); // 4: keep 5 aside
    bc.extend(ins(Op::Ret, 0, 0, 0.0)); // 5: back to 1
    vm.load_bytecode(&bc);
    run(&mut vm, &[]);
    assert!(vm.halted);
    assert_eq!(vm.stack.len(), 1);
    assert_eq!(value(&vm, 0), 7.0);
}

#[test]
fn jnz_jumps_on_nonzero_only() {
    let mut vm = Vm::new();
    let mut bc = Vec::new();
    bc.extend(ins(Op::Const, 0, 0, 0.0)); // 0
    bc.extend(ins(Op::Jnz, 3, 0, 0.0)); // 1: not taken
    bc.extend(ins(Op::Const, 0, 0, -2.5)); // 2
    bc.extend(ins(Op::Jnz, 5, 0, 0.0)); // 3: taken, to 5
    bc.extend(ins(Op::Const, 0, 0, 99.0)); // 4
    bc.extend(ins(Op::Const, 0, 0, 8.0)); // 5
    vm.load_bytecode(&bc);
    run(&mut vm, &[]);
    assert_eq!(vm.stack.len(), 1);
    assert_eq!(value(&vm, 0), 8.0);
}

#[test]
fn budget_limits_the_instructions_started() {
    let mut vm = Vm::new();
    let mut bc = Vec::new();
    bc.extend(ins(Op::Jmp, 1, 0, 0.0)); // 0: to 1
    bc.extend(ins(Op::Const, 0, 0, 1.0)); // 1
    bc.extend(ins(Op::Jmp, 1, 0, 0.0)); // 2: back to 1
    vm.load_bytecode(&bc);
    vm.prepare_run(&[]);
    vm.set_budget(7);
    drive(&mut vm);
    // Jmp, then three rounds of Const and Jmp
    assert_eq!(vm.stack.len(), 3);
    assert!(!vm.halted);
    assert!(vm.is_stopped());
    vm.set_budget(2);
    drive(&mut vm);
    assert_eq!(vm.stack.len(), 4);
}

#[test]
fn a_run_without_halt_stops_after_its_cycle_limit() {
    let mut vm = Vm::new();
    let mut bc = Vec::new();
    bc.extend(ins(Op::Const, 0, 0, 1.0)); // 0
    bc.extend(ins(Op::Check, 0, 0, 0.0)); // 1
    bc.extend(ins(Op::Jmp, 1, 0, 0.0)); // 2: to 1, forever
    vm.load_bytecode(&bc);
    run(&mut vm, &[]);
    assert!(!vm.halted);
    assert!(vm.is_stopped());
    // 100_000 instructions: the constant, then Check and Jmp in turn
    assert_eq!(vm.checks, 50_000);
    assert_eq!(vm.violations, 49_999);
}

#[test]
fn a_jump_past_the_code_ends_the_run() {
    let mut vm = Vm::new();
    let mut bc = Vec::new();
    bc.extend(ins(Op::Const, 0, 0, 1.0));
    bc.extend(ins(Op::Jmp, u16::MAX, 0, 0.0));
    bc.extend(ins(Op::Const, 0, 0, 2.0));
    vm.load_bytecode(&bc);
    run(&mut vm, &[]);
    assert!(!vm.halted);
    assert!(vm.is_stopped());
    assert_eq!(vm.stack.len(), 1);
}

#[test]
fn unknown_opcode_reads_as_nop_and_trailing_bytes_are_ignored() {
    let mut vm = Vm::new();
    let mut bc = Vec::new();
    bc.extend(ins(Op::Const, 0, 0, 4.0));
    let mut odd = ins(Op::Halt, 0, 0, 0.0);
    odd[0] = 0x7F;
    bc.extend(odd);
    bc.extend(ins(Op::Const, 0, 0, 2.0));
    bc.extend(vec![0x18u8; 12]);
    vm.load_bytecode(&bc);
    run(&mut vm, &[]);
    assert!(!vm.halted);
    assert_eq!(vm.stack.len(), 2);
}

#[test]
fn assert_of_nonzero_only_counts() {
    let mut vm = Vm::new();
    let mut bc = Vec::new();
    bc.extend(ins(Op::Const, 0, 0, 3.0));
    bc.extend(ins(Op::Assert, 0, 0, 0.0));
    bc.extend(ins(Op::Const, 0, 0, 0.0));
    bc.extend(ins(Op::Assert, 0, 0, 0.0));
    bc.extend(ins(Op::Const, 0, 0, 1.0));
    vm.load_bytecode(&bc);
    run(&mut vm, &[]);
    assert_eq!(vm.checks, 2);
    assert_eq!(vm.violations, 1);
    assert!(vm.halted);
    assert_eq!(vm.stack.len(), 0);
}

#[test]
fn a_new_run_resets_the_machine() {
    let mut vm = Vm::new();
    let mut bc = Vec::new();
    bc.extend(ins(Op::Load, 0, 0, 0.0));
    bc.extend(ins(Op::Assert, 0, 0, 0.0));
    vm.load_bytecode(&bc);
    run(&mut vm, &[0.0]);
    assert!(vm.halted);
    assert_eq!(vm.violations, 1);
    run(&mut vm, &[1.0]);
    assert!(!vm.halted);
    assert_eq!(vm.checks, 1);
    assert_eq!(vm.violations, 0);
}

#[test]
fn a_stopped_machine_ignores_steps() {
    let mut vm = Vm::new();
    vm.load_bytecode(&ins(Op::Const, 0, 0, 1.0));
    run(&mut vm, &[]);
    assert!(vm.is_stopped());
    assert_eq!(vm.request(), Request::Nothing);
    vm.step(Reply::Word(5));
    vm.step(Reply::Flag(true));
    assert_eq!(vm.stack.len(), 1);
    assert_eq!(value(&vm, 0), 1.0);
}

#[test]
fn a_reply_of_the_wrong_kind_reads_as_zero() {
    let mut vm = Vm::new();
    let mut bc = Vec::new();
    bc.extend(ins(Op::Const, 0, 0, 2.0));
    bc.extend(ins(Op::Const, 0, 0, 3.0));
    bc.extend(ins(Op::Add, 0, 0, 0.0));
    bc.extend(ins(Op::Const, 0, 0, 1.0));
    bc.extend(ins(Op::Check, 0, 0, 0.0));
    vm.load_bytecode(&bc);
    vm.prepare_run(&[]);
    vm.step(Reply::Nothing);
    vm.step(Reply::Nothing);
    assert_eq!(vm.request(), Request::Arith(ArithOp::Add, 2.0f64.to_bits(), 3.0f64.to_bits()));
    vm.step(Reply::Flag(true));
    assert_eq!(vm.stack, vec![0u64]);
    vm.step(Reply::Nothing);
    assert_eq!(vm.request(), Request::Truth(1.0f64.to_bits()));
    vm.step(Reply::Word(1));
    assert_eq!((vm.checks, vm.violations), (1, 1));
}

#[test]
fn budget_a_then_b_ends_like_budget_a_plus_b() {
    let mut bc = Vec::new();
    bc.extend(ins(Op::Const, 0, 0, 0.0)); // 0
    bc.extend(ins(Op::Check, 0, 0, 0.0)); // 1
    bc.extend(ins(Op::Const, 0, 0, 1.0)); // 2
    bc.extend(ins(Op::Pack8, 0, 0, 0.0)); // 3
    bc.extend(ins(Op::Jmp, 0, 0, 0.0)); // 4: to 0
    for (a, b) in [(3usize, 4usize), (1, 10), (0, 7), (5, 0), (9, 9)] {
        let mut v1 = Vm::new();
        v1.load_bytecode(&bc);
        v1.prepare_run(&[]);
        v1.set_budget(a);
        drive(&mut v1);
        v1.set_budget(b);
        drive(&mut v1);
        let mut v2 = Vm::new();
        v2.load_bytecode(&bc);
        v2.prepare_run(&[]);
        v2.set_budget(a + b);
        drive(&mut v2);
        assert_eq!(v1.stack, v2.stack);
        assert_eq!((v1.checks, v1.violations, v1.halted), (v2.checks, v2.violations, v2.halted));
        assert!(v1.checks as usize <= a + b);
    }
}

#[test]
fn a_run_forgets_what_came_before() {
    let mut bc = Vec::new();
    bc.extend(ins(Op::Load, 1, 0, 0.0));
    bc.extend(ins(Op::Check, 0, 0, 0.0));
    let mut v1 = Vm::new();
    v1.load_bytecode(&bc);
    run(&mut v1, &[5.0, 0.0, 3.0]);
    run(&mut v1, &[2.0, 7.0]);
    let mut v2 = Vm::new();
    v2.load_bytecode(&bc);
    run(&mut v2, &[2.0, 7.0]);
    assert_eq!(v1.stack, v2.stack);
    assert_eq!((v1.checks, v1.violations, v1.halted), (v2.checks, v2.violations, v2.halted));
    assert_eq!((v1.checks, v1.violations), (1, 0));
}

#[test]
fn jnz_goes_to_instruction_arg0() {
    let mut vm = Vm::new();
    let mut bc = Vec::new();
    bc.extend(ins(Op::Const, 0, 0, 1.0)); // 0
    bc.extend(ins(Op::Jnz, 3, 0, 0.0)); // 1: taken, to 3
    bc.extend(ins(Op::Const, 0, 0, 99.0)); // 2
    bc.extend(ins(Op::Const, 0, 0, 42.0)); // 3
    bc.extend(ins(Op::Halt, 0, 0, 0.0)); // 4
    vm.load_bytecode(&bc);
    vm.prepare_run(&[]);
    vm.set_budget(100);
    drive(&mut vm);
    assert_eq!(vm.stack, vec![42.0f64.to_bits()]);
    assert!(vm.halted);
}

#[test]
fn jmp_goes_to_instruction_arg0() {
    let mut vm = Vm::new();
    let mut bc = Vec::new();
    bc.extend(ins(Op::Const, 0, 0, 1.0)); // 0
    bc.extend(ins(Op::Jmp, 0, 0, 0.0)); // 1: back to 0
    vm.load_bytecode(&bc);
    vm.prepare_run(&[]);
    vm.set_budget(5);
    drive(&mut vm);
    assert_eq!(vm.stack, vec![1.0f64.to_bits(); 3]);
    assert!(!vm.halted);
}

#[test]
fn getters_read_the_state() {
    let mut vm = Vm::new();
    let mut bc = Vec::new();
    bc.extend(ins(Op::Const, 0, 0, 0.0));
    bc.extend(ins(Op::Assert, 0, 0, 0.0));
    vm.load_bytecode(&bc);
    run(&mut vm, &[]);
    assert_eq!((vm.checks(), vm.violations(), vm.halted()), (1, 1, true));
    assert!(vm.stack().is_empty());
}
