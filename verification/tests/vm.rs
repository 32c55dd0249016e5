use ggbc::byteorder::ByteOrder;
use ggbc::ir::{ArgRange, Destination, Handlers, Ir, Location, Pointer, Routine, Source8, Source16, Statement};
use ggbc::vm::{Fault, FaultKind, Opts, Status, VM};

fn program(routines: Vec<Vec<Statement>>, const_: Vec<u8>, byteorder: ByteOrder) -> Ir {
    Ir {
        routines: routines.into_iter().map(|statements| Routine { statements }).collect(),
        const_,
        handlers: Handlers { main: 0 },
        byteorder,
    }
}

fn static_dest(addr: u16) -> Destination {
    Destination::Pointer { base: Pointer::Static(addr), offset: None }
}

fn run_to_halt(vm: &mut VM, max_cycles: usize) -> usize {
    let mut cycles = 0;
    while vm.running() {
        assert!(cycles < max_cycles, "the machine should have halted by now");
        vm.update();
        cycles += 1;
    }
    cycles
}

#[test]
fn byteorder_split_and_join() {
    assert_eq!((0x34, 0x12), ByteOrder::LittleEndian.split_u16(0x1234));
    assert_eq!((0x12, 0x34), ByteOrder::BigEndian.split_u16(0x1234));
    assert_eq!(0x1234, ByteOrder::LittleEndian.join_u16(0x34, 0x12));
    assert_eq!(0x1234, ByteOrder::BigEndian.join_u16(0x12, 0x34));
}

#[test]
fn static_and_const_spaces_are_disjoint() {
    // Write 0xAB through `Static` address 0x10, then read `Const` at the
    // same address: the read must not observe the write.
    let ir = program(
        vec![vec![
            Statement::Ld { source: Source8::Literal(0xAB), destination: static_dest(0x10) },
            Statement::Ld {
                source: Source8::Pointer { base: Pointer::Const(0x10), offset: None },
                destination: static_dest(0x20),
            },
            Statement::Stop,
        ]],
        vec![0x11; 0x20],
        ByteOrder::LittleEndian,
    );
    let mut vm = VM::new(ir, Opts {});
    run_to_halt(&mut vm, 10);
    assert_eq!(Status::Stopped, vm.status());
    assert_eq!(0xAB, vm.memory().static_[0x10]);
    assert_eq!(0x11, vm.memory().static_[0x20]);
}

#[test]
fn call_then_ret_resumes_after_the_call() {
    let ir = program(
        vec![
            vec![
                Statement::Call { routine: 1, range: ArgRange { start: 0, end: 2 } },
                Statement::Stop,
            ],
            vec![Statement::Nop, Statement::Ret],
        ],
        vec![],
        ByteOrder::LittleEndian,
    );
    let mut vm = VM::new(ir, Opts {});
    assert_eq!(0, vm.pc());
    vm.update();
    // Inside the callee: the fresh program counter was incremented to one.
    assert_eq!(1, vm.pc());
    vm.update();
    // Back in the caller, at the statement after the call.
    assert_eq!(1, vm.pc());
    assert!(vm.running());
    vm.update();
    assert_eq!(Status::Stopped, vm.status());
}

#[test]
fn call_copies_the_argument_range_into_the_new_frame() {
    let stack = |addr: u16| Destination::Pointer { base: Pointer::Stack(addr), offset: None };
    let ir = program(
        vec![
            vec![
                Statement::Ld { source: Source8::Literal(0xAA), destination: stack(0) },
                Statement::Ld { source: Source8::Literal(0xBB), destination: stack(1) },
                Statement::Ld { source: Source8::Literal(0xCC), destination: stack(2) },
                Statement::Call { routine: 1, range: ArgRange { start: 1, end: 3 } },
                Statement::Stop,
            ],
            vec![
                Statement::Nop,
                Statement::Ld {
                    source: Source8::Pointer { base: Pointer::Stack(0), offset: None },
                    destination: Destination::Pointer { base: Pointer::Return(0), offset: None },
                },
                Statement::Ld {
                    source: Source8::Pointer { base: Pointer::Stack(1), offset: None },
                    destination: Destination::Pointer { base: Pointer::Return(1), offset: None },
                },
                Statement::Ld {
                    source: Source8::Pointer { base: Pointer::Stack(2), offset: None },
                    destination: Destination::Pointer { base: Pointer::Return(2), offset: None },
                },
                Statement::Ret,
            ],
        ],
        vec![],
        ByteOrder::LittleEndian,
    );
    let mut vm = VM::new(ir, Opts {});
    run_to_halt(&mut vm, 20);
    // Bytes [1, 3) of the caller's frame arrived at the start of the
    // callee's frame; the rest of the new frame was zeroed.
    assert_eq!(0xBB, vm.memory().return_[0]);
    assert_eq!(0xCC, vm.memory().return_[1]);
    assert_eq!(0x00, vm.memory().return_[2]);
}

#[test]
fn add_wraps_instead_of_faulting() {
    let ir = program(
        vec![vec![
            Statement::Add {
                left: Source8::Literal(0xFF),
                right: Source8::Literal(0x01),
                destination: static_dest(0),
            },
            Statement::Stop,
        ]],
        vec![],
        ByteOrder::LittleEndian,
    );
    let mut vm = VM::new(ir, Opts {});
    run_to_halt(&mut vm, 10);
    assert_eq!(Status::Stopped, vm.status());
    assert_eq!(0x00, vm.memory().static_[0]);
}

#[test]
fn counting_loop_runs_to_completion() {
    // Load 42 into a static cell, then increment it once per tick of a
    // five-tick register counter, and stop.
    let cell = 0u16;
    let counter = 0usize;
    let ir = program(
        vec![vec![
            Statement::Ld { source: Source8::Literal(42), destination: static_dest(cell) },
            Statement::Ld {
                source: Source8::Literal(5),
                destination: Destination::Register(counter),
            },
            Statement::JmpCmpNot {
                location: Location::Relative(3),
                source: Source8::Register(counter),
            },
            Statement::Inc {
                source: Source8::Pointer { base: Pointer::Static(cell), offset: None },
                destination: static_dest(cell),
            },
            Statement::Dec {
                source: Source8::Register(counter),
                destination: Destination::Register(counter),
            },
            Statement::Jmp { location: Location::Relative(-4) },
            Statement::Stop,
        ]],
        vec![],
        ByteOrder::LittleEndian,
    );
    let mut vm = VM::new(ir, Opts {});
    let cycles = run_to_halt(&mut vm, 100);
    // Two setup statements, four statements per loop iteration, the final
    // test-and-jump, and the stop.
    assert_eq!(2 + 4 * 5 + 2, cycles);
    assert_eq!(Status::Stopped, vm.status());
    assert_eq!(47, vm.memory().static_[0]);
}

#[test]
fn run_yields_the_static_memory() {
    let ir = program(
        vec![vec![
            Statement::Ld { source: Source8::Literal(7), destination: static_dest(3) },
            Statement::Stop,
        ]],
        vec![],
        ByteOrder::LittleEndian,
    );
    let memory = VM::new(ir, Opts {}).run();
    assert_eq!(7, memory.static_[3]);
}

#[test]
fn sixteen_bit_store_follows_the_byte_order() {
    let store = vec![vec![
        Statement::LdW { source: Source16::Literal(0x1234), destination: static_dest(0x40) },
        Statement::Stop,
    ]];
    let little = VM::new(
        program(store.clone(), vec![], ByteOrder::LittleEndian),
        Opts {},
    ).run();
    assert_eq!(0x34, little.static_[0x40]);
    assert_eq!(0x12, little.static_[0x41]);
    let big = VM::new(program(store, vec![], ByteOrder::BigEndian), Opts {}).run();
    assert_eq!(0x12, big.static_[0x40]);
    assert_eq!(0x34, big.static_[0x41]);
}

#[test]
fn indexed_addressing_adds_the_offset_source() {
    let ir = program(
        vec![vec![
            Statement::Ld {
                source: Source8::Literal(0x5A),
                destination: Destination::Pointer {
                    base: Pointer::Static(0x10),
                    offset: Some(Box::new(Source8::Literal(4))),
                },
            },
            Statement::Stop,
        ]],
        vec![],
        ByteOrder::LittleEndian,
    );
    let memory = VM::new(ir, Opts {}).run();
    assert_eq!(0x5A, memory.static_[0x14]);
}

#[test]
fn division_by_zero_faults() {
    let ir = program(
        vec![vec![Statement::Div {
            left: Source8::Literal(1),
            right: Source8::Literal(0),
            destination: static_dest(0),
        }]],
        vec![],
        ByteOrder::LittleEndian,
    );
    let mut vm = VM::new(ir, Opts {});
    vm.update();
    assert_eq!(
        Status::Faulted(Fault { kind: FaultKind::DivisionByZero, routine: 0, pc: 0 }),
        vm.status()
    );
    // A faulted machine does not move.
    vm.update();
    assert_eq!(
        Status::Faulted(Fault { kind: FaultKind::DivisionByZero, routine: 0, pc: 0 }),
        vm.status()
    );
}

#[test]
fn writing_to_the_constant_pool_faults() {
    let ir = program(
        vec![vec![Statement::Ld {
            source: Source8::Literal(1),
            destination: Destination::Pointer { base: Pointer::Const(5), offset: None },
        }]],
        vec![0; 16],
        ByteOrder::LittleEndian,
    );
    let mut vm = VM::new(ir, Opts {});
    vm.update();
    assert_eq!(
        Status::Faulted(Fault { kind: FaultKind::ConstWrite(5), routine: 0, pc: 0 }),
        vm.status()
    );
}

#[test]
fn ret_without_a_call_faults_as_underflow() {
    let ir = program(vec![vec![Statement::Ret]], vec![], ByteOrder::LittleEndian);
    let mut vm = VM::new(ir, Opts {});
    vm.update();
    assert_eq!(
        Status::Faulted(Fault { kind: FaultKind::StackUnderflow, routine: 0, pc: 0 }),
        vm.status()
    );
}

#[test]
fn widened_multiplication_is_unsupported() {
    let ir = program(
        vec![vec![Statement::MulW {
            left: Source16::Literal(2),
            right: Source16::Literal(3),
            destination: static_dest(0),
        }]],
        vec![],
        ByteOrder::LittleEndian,
    );
    let mut vm = VM::new(ir, Opts {});
    vm.update();
    assert_eq!(
        Status::Faulted(Fault { kind: FaultKind::Unsupported, routine: 0, pc: 0 }),
        vm.status()
    );
}

#[test]
fn calling_a_missing_routine_faults_at_the_next_fetch() {
    let ir = program(
        vec![vec![Statement::Call { routine: 7, range: ArgRange { start: 0, end: 0 } }]],
        vec![],
        ByteOrder::LittleEndian,
    );
    let mut vm = VM::new(ir, Opts {});
    vm.update();
    assert!(vm.running());
    vm.update();
    assert_eq!(
        Status::Faulted(Fault { kind: FaultKind::RoutineOutOfBounds(7), routine: 7, pc: 1 }),
        vm.status()
    );
}

#[test]
fn register_index_beyond_the_bank_faults() {
    let ir = program(
        vec![vec![Statement::Ld {
            source: Source8::Literal(1),
            destination: Destination::Register(64),
        }]],
        vec![],
        ByteOrder::LittleEndian,
    );
    let mut vm = VM::new(ir, Opts {});
    vm.update();
    assert_eq!(
        Status::Faulted(Fault { kind: FaultKind::RegisterOutOfBounds(64), routine: 0, pc: 0 }),
        vm.status()
    );
}

#[test]
fn jumping_before_the_routine_start_faults() {
    let ir = program(
        vec![vec![Statement::Jmp { location: Location::Relative(-1) }]],
        vec![],
        ByteOrder::LittleEndian,
    );
    let mut vm = VM::new(ir, Opts {});
    vm.update();
    assert_eq!(
        Status::Faulted(Fault { kind: FaultKind::JumpOutOfRange, routine: 0, pc: 0 }),
        vm.status()
    );
}

#[test]
fn comparisons_write_one_or_zero() {
    let ir = program(
        vec![vec![
            Statement::Less {
                left: Source8::Literal(3),
                right: Source8::Literal(9),
                destination: static_dest(0),
            },
            Statement::Greater {
                left: Source8::Literal(3),
                right: Source8::Literal(9),
                destination: static_dest(1),
            },
            Statement::Eq {
                left: Source8::Literal(4),
                right: Source8::Literal(4),
                destination: static_dest(2),
            },
            Statement::Stop,
        ]],
        vec![],
        ByteOrder::LittleEndian,
    );
    let memory = VM::new(ir, Opts {}).run();
    assert_eq!(1, memory.static_[0]);
    assert_eq!(0, memory.static_[1]);
    assert_eq!(1, memory.static_[2]);
}

#[test]
fn reading_past_the_constant_pool_faults() {
    let ir = program(
        vec![vec![Statement::Ld {
            source: Source8::Pointer { base: Pointer::Const(8), offset: None },
            destination: static_dest(0),
        }]],
        vec![0; 4],
        ByteOrder::LittleEndian,
    );
    let mut vm = VM::new(ir, Opts {});
    vm.update();
    assert_eq!(
        Status::Faulted(Fault { kind: FaultKind::AddressOutOfBounds(8), routine: 0, pc: 0 }),
        vm.status()
    );
}

#[test]
fn running_off_the_end_of_a_routine_faults() {
    let ir = program(
        vec![vec![Statement::Nop]],
        vec![],
        ByteOrder::LittleEndian,
    );
    let mut vm = VM::new(ir, Opts {});
    vm.update();
    assert!(vm.running());
    vm.update();
    assert_eq!(
        Status::Faulted(Fault { kind: FaultKind::PcOutOfBounds(1), routine: 0, pc: 1 }),
        vm.status()
    );
}

#[test]
fn multiplication_overflow_faults() {
    let ir = program(
        vec![vec![Statement::Mul {
            left: Source8::Literal(16),
            right: Source8::Literal(16),
            destination: static_dest(0),
        }]],
        vec![],
        ByteOrder::LittleEndian,
    );
    let mut vm = VM::new(ir, Opts {});
    vm.update();
    assert_eq!(
        Status::Faulted(Fault { kind: FaultKind::Overflow, routine: 0, pc: 0 }),
        vm.status()
    );
}

#[test]
fn a_call_range_beyond_the_frame_faults() {
    let ir = program(
        vec![
            vec![Statement::Call { routine: 1, range: ArgRange { start: 0, end: 0x101 } }],
            vec![Statement::Nop, Statement::Ret],
        ],
        vec![],
        ByteOrder::LittleEndian,
    );
    let mut vm = VM::new(ir, Opts {});
    vm.update();
    assert_eq!(
        Status::Faulted(Fault { kind: FaultKind::BadArgRange, routine: 0, pc: 0 }),
        vm.status()
    );
}

#[test]
fn sixteen_bit_add_wraps() {
    let ir = program(
        vec![vec![
            Statement::AddW {
                left: Source16::Literal(0xFFFF),
                right: Source16::Literal(0x0001),
                destination: static_dest(0),
            },
            Statement::Stop,
        ]],
        vec![],
        ByteOrder::LittleEndian,
    );
    let memory = VM::new(ir, Opts {}).run();
    assert_eq!(0, memory.static_[0]);
    assert_eq!(0, memory.static_[1]);
}

#[test]
fn eight_bit_alu_operations_produce_exact_results() {
    let op8 = |stmt: Statement| {
        let memory = VM::new(
            program(vec![vec![stmt, Statement::Stop]], vec![], ByteOrder::LittleEndian),
            Opts {},
        )
        .run();
        memory.static_[0]
    };
    let lit = Source8::Literal;
    assert_eq!(
        0b1000,
        op8(Statement::And { left: lit(0b1100), right: lit(0b1010), destination: static_dest(0) })
    );
    assert_eq!(
        0b1110,
        op8(Statement::Or { left: lit(0b1100), right: lit(0b1010), destination: static_dest(0) })
    );
    assert_eq!(
        0b0110,
        op8(Statement::Xor { left: lit(0b1100), right: lit(0b1010), destination: static_dest(0) })
    );
    assert_eq!(
        42,
        op8(Statement::Mul { left: lit(6), right: lit(7), destination: static_dest(0) })
    );
    assert_eq!(
        6,
        op8(Statement::Div { left: lit(45), right: lit(7), destination: static_dest(0) })
    );
    assert_eq!(
        3,
        op8(Statement::Rem { left: lit(45), right: lit(7), destination: static_dest(0) })
    );
    assert_eq!(
        0b101000,
        op8(Statement::LeftShift { left: lit(0b101), right: lit(3), destination: static_dest(0) })
    );
    assert_eq!(
        0b101,
        op8(Statement::RightShift { left: lit(0b101000), right: lit(3), destination: static_dest(0) })
    );
    assert_eq!(
        9,
        op8(Statement::Sub { left: lit(14), right: lit(5), destination: static_dest(0) })
    );
}
