use flux::service_vm::BytecodeVm;
use flux::word::{ArithOp, CompareOp, Reply, Request};

/// Answers the interpreter's numeric requests with binary64 arithmetic.
fn answer(q: Request) -> Reply {
    let f = f64::from_bits;
    match q {
        Request::Nothing => Reply::Nothing,
        Request::Arith(op, a, b) => {
            let (a, b) = (f(a), f(b));
            let v = match op {
                ArithOp::Add => a + b,
                ArithOp::Sub => a - b,
                ArithOp::Mul => a * b,
                ArithOp::Div => a / b,
            };
            Reply::Word(v.to_bits())
        }
        Request::Compare(op, a, b) => {
            let (a, b) = (f(a), f(b));
            Reply::Flag(match op {
                CompareOp::Lt => a < b,
                CompareOp::Gt => a > b,
                CompareOp::Eq => a == b,
                CompareOp::Le => a <= b,
                CompareOp::Ge => a >= b,
                CompareOp::Ne => a != b,
            })
        }
        Request::Truth(x) => Reply::Flag(f(x) != 0.0),
        Request::Truths(a, b) => Reply::Flags(f(a) != 0.0, f(b) != 0.0),
        Request::IndexToWord(n) => Reply::Word((n as f64).to_bits()),
        Request::WordToIndex(w) => Reply::Index(f(w) as usize),
        Request::WordToByte(w) => Reply::Byte(f(w) as u8),
    }
}

fn run(vm: &mut BytecodeVm, inputs: &[f64]) -> (u64, u64, bool) {
    let words: Vec<u64> = inputs.iter().map(|x| x.to_bits()).collect();
    vm.start(&words);
    while !vm.is_finished() {
        let q = vm.request();
        vm.step(answer(q));
    }
    vm.outcome()
}

fn konst(v: f64) -> Vec<u8> {
    let mut out = vec![0x03];
    out.extend_from_slice(&[0u8; 11]);
    out.extend_from_slice(&v.to_be_bytes()[..4]);
    out
}

fn value(vm: &BytecodeVm, i: usize) -> f64 {
    f64::from_bits(vm.stack[i])
}

#[test]
fn test_vm_const_add() {
    let mut vm = BytecodeVm::new();
    vm.load(&[
        0x03, 0x00, 0x00, 0x00, 0x00, 0x00, 0x00, 0x00, 0x00, 0x00, 0x00, 0x00, 0x40, 0x08, 0x00, 0x00,
        0x03, 0x00, 0x00, 0x00, 0x00, 0x00, 0x00, 0x00, 0x00, 0x00, 0x00, 0x00, 0x40, 0x10, 0x00, 0x00,
        0x04, 0x18,
    ]);
    run(&mut vm, &[]);
    assert_eq!(vm.stack.len(), 1);
    assert!((value(&vm, 0) - 7.0).abs() < 1e-9);
}

#[test]
fn test_vm_lt() {
    let mut vm = BytecodeVm::new();
    vm.load(&[
        0x01, 0x00,
        0x03, 0x00, 0x00, 0x00, 0x00, 0x00, 0x00, 0x00, 0x00, 0x00, 0x00, 0x00, 0x40, 0x5E, 0x00, 0x00,
        0x0B, 0x18,
    ]);
    let (checks, violations, _) = run(&mut vm, &[50.0]);
    assert_eq!(value(&vm, 0), 1.0);
    assert_eq!(checks, 0);
    assert_eq!(violations, 0);
}

#[test]
fn test_vm_check_violation() {
    let mut vm = BytecodeVm::new();
    vm.load(&[
        0x01, 0x00,
        0x03, 0x00, 0x00, 0x00, 0x00, 0x00, 0x00, 0x00, 0x00, 0x00, 0x00, 0x00, 0x40, 0x5E, 0x00, 0x00,
        0x0B, 0x16, 0x18,
    ]);
    let (checks, violations, halted) = run(&mut vm, &[150.0]);
    assert_eq!(checks, 1);
    assert_eq!(violations, 1);
    assert!(!halted);
}

#[test]
fn test_vm_and() {
    let mut vm = BytecodeVm::new();
    vm.load(&[
        0x03, 0x00, 0x00, 0x00, 0x00, 0x00, 0x00, 0x00, 0x00, 0x00, 0x00, 0x00, 0x3F, 0xF0, 0x00, 0x00,
        0x03, 0x00, 0x00, 0x00, 0x00, 0x00, 0x00, 0x00, 0x00, 0x00, 0x00, 0x00, 0x00, 0x00, 0x00, 0x00,
        0x08, 0x18,
    ]);
    run(&mut vm, &[]);
    assert_eq!(vm.stack.len(), 1);
    assert_eq!(value(&vm, 0), 0.0);
}

#[test]
fn constants_give_their_upper_half() {
    let mut vm = BytecodeVm::new();
    let mut code = vec![0x03];
    code.extend_from_slice(&[0xFFu8; 11]);
    code.extend_from_slice(&[0x40, 0x09, 0x21, 0xFB]);
    vm.load(&code);
    run(&mut vm, &[]);
    assert_eq!(vm.stack, vec![0x4009_21FB_0000_0000u64]);
}

#[test]
fn end_stops_the_run_without_a_halt() {
    let mut vm = BytecodeVm::new();
    let mut code = konst(3.0);
    code.extend(konst(4.0));
    code.extend([0x04, 0x18]);
    code.extend(konst(9.0));
    vm.load(&code);
    let (checks, violations, halted) = run(&mut vm, &[]);
    assert_eq!(vm.stack.len(), 1);
    assert_eq!(value(&vm, 0), 7.0);
    assert_eq!((checks, violations, halted), (0, 0, false));
}

#[test]
fn load_compare_and_check() {
    let mut vm = BytecodeVm::new();
    let mut code = vec![0x01, 0x00];
    code.extend(konst(120.0));
    code.extend([0x0B, 0x16]);
    vm.load(&code);
    assert_eq!(run(&mut vm, &[50.0]), (1, 0, false));
    assert_eq!(run(&mut vm, &[150.0]), (1, 1, false));
    assert_eq!(vm.stack.len(), 0);
}

#[test]
fn failed_assert_halts_the_run() {
    let mut vm = BytecodeVm::new();
    let mut code = konst(0.0);
    code.push(0x17);
    code.extend(konst(5.0));
    vm.load(&code);
    assert_eq!(run(&mut vm, &[]), (1, 1, true));
    assert_eq!(vm.stack.len(), 0);
}

#[test]
fn store_grows_locals() {
    let mut vm = BytecodeVm::new();
    let mut code = konst(2.5);
    code.extend([0x02, 0x04, 0x01, 0x04, 0x01, 0x02, 0x01, 0x09]);
    vm.load(&code);
    run(&mut vm, &[]);
    let got: Vec<f64> = (0..vm.stack.len()).map(|i| value(&vm, i)).collect();
    assert_eq!(got, vec![2.5, 0.0, 0.0]);
}

#[test]
fn a_constant_cut_short_pushes_nothing() {
    let mut vm = BytecodeVm::new();
    // 0x03 with only fourteen bytes after it: they are then run as opcodes
    let mut code = vec![0x03];
    code.extend_from_slice(&[0u8; 13]);
    code.push(0x18);
    vm.load(&code);
    assert_eq!(run(&mut vm, &[]), (0, 0, false));
    assert_eq!(vm.stack.len(), 0);
}

#[test]
fn an_index_byte_past_the_end_reads_as_zero() {
    let mut vm = BytecodeVm::new();
    vm.load(&[0x01]);
    run(&mut vm, &[4.5]);
    assert_eq!(vm.stack.len(), 1);
    assert_eq!(value(&vm, 0), 4.5);
}

#[test]
fn unknown_bytes_do_nothing() {
    let mut vm = BytecodeVm::new();
    let mut code = vec![0x11, 0x12, 0x40, 0xFF];
    code.extend(konst(1.0));
    code.extend([0x0A, 0x16]);
    vm.load(&code);
    assert_eq!(run(&mut vm, &[]), (1, 1, false));
}

#[test]
fn logic_or_and_not() {
    let mut vm = BytecodeVm::new();
    let mut code = konst(0.0);
    code.extend(konst(-1.0));
    code.push(0x09); // 1
    code.push(0x0A); // 0
    code.extend(konst(8.0));
    code.push(0x09); // 1
    vm.load(&code);
    run(&mut vm, &[]);
    assert_eq!(vm.stack.len(), 1);
    assert_eq!(value(&vm, 0), 1.0);
}

#[test]
fn a_run_depends_only_on_code_and_inputs_and_stays_small() {
    let mut code = konst(0.0);
    code.extend([0x17, 0x01, 0x00, 0x16]);
    let mut v1 = BytecodeVm::new();
    v1.load(&code);
    run(&mut v1, &[]);
    let r1 = run(&mut v1, &[1.0]);
    let mut v2 = BytecodeVm::new();
    v2.load(&code);
    let r2 = run(&mut v2, &[1.0]);
    assert_eq!(r1, r2);
    assert_eq!(v1.stack, v2.stack);
    assert_eq!(r1, (1, 1, true));
    assert!(v1.stack.len() <= code.len());
}
