//! The virtual machine: a fetch-execute interpreter over the intermediate
//! representation.
//!
//! The machine owns two fixed 64KB byte arrays (the static space, shared by
//! `Absolute` and `Static` pointers, and the return space), a call stack of
//! bounded-size stack frames, parallel stacks of program counters and routine
//! indices giving each active call its own instruction pointer, and two
//! register banks (8-bit and 16-bit).
//!
//! Every runtime fault — writing to the constant pool, division or remainder
//! by zero, an out-of-range memory, frame or register address, a stack
//! underflow on `Ret`, a routine or program-counter lookup beyond its table —
//! moves the machine into a terminal faulted state carrying the fault kind
//! and the routine and program counter it arose at; the host decides what to
//! do with it. No statement leaves the stopped or faulted state.
//!
//! The whole machine is modelled by the ghost [`State`], and [`step`] gives
//! the meaning of one fetch-execute cycle; [`VM::update`] is proved to
//! realize exactly that function.

use vstd::pervasive::VecAdditionalExecFns;
use vstd::prelude::*;

use crate::byteorder::{combined, first_byte, second_byte, ByteOrder};
use crate::ir::{ArgRange, Destination, Ir, Location, Pointer, Source8, Source16, Statement};

verus! {

/// Bytes of the static and of the return memory space.
pub const MEM_SIZE: usize = 0x10000;

/// Bytes of one stack frame.
pub const FRAME_SIZE: usize = 0x100;

/// Slots of each register bank.
pub const REG_COUNT: usize = 64;

/// What went wrong during a fetch-execute cycle.
#[derive(Clone, Copy, PartialEq, Eq, Structural, Debug)]
pub enum FaultKind {
    /// Write through a constant-space pointer; the pool is read-only. Carries
    /// the effective offset.
    ConstWrite(u32),
    /// Effective address beyond its space, frame or constant pool.
    AddressOutOfBounds(u32),
    /// Register index beyond the bank's capacity.
    RegisterOutOfBounds(usize),
    /// Routine index beyond the routine table.
    RoutineOutOfBounds(usize),
    /// Program counter beyond the current routine's statements.
    PcOutOfBounds(usize),
    /// Relative jump target outside the machine's program-counter range.
    JumpOutOfRange,
    /// Division or remainder by zero.
    DivisionByZero,
    /// A multiplication product beyond the operand width, or a shift by the
    /// operand width or more.
    Overflow,
    /// `Ret` with no active call to return from.
    StackUnderflow,
    /// A statement the machine does not implement (the widened
    /// multiplication, division, remainder and shift forms).
    Unsupported,
    /// `Call` with an argument range that is not a subrange of a frame.
    BadArgRange,
}

/// A runtime fault: its kind and where it arose.
#[derive(Clone, Copy, PartialEq, Eq, Structural, Debug)]
pub struct Fault {
    pub kind: FaultKind,
    /// Routine the machine was executing.
    pub routine: usize,
    /// Program counter of the faulting statement.
    pub pc: usize,
}

/// Execution state of the machine. `Stopped` and `Faulted` are terminal.
#[derive(Clone, Copy, PartialEq, Eq, Structural, Debug)]
pub enum Status {
    Running,
    Stopped,
    Faulted(Fault),
}

/// Options of the virtual machine.
pub struct Opts {}

impl Default for Opts {
    fn default() -> (r: Self) {
        Opts {}
    }
}

/// The two durable memory spaces, yielded to the caller when a run ends.
pub struct Memory {
    /// Static memory space, targeted by `Absolute` and `Static` pointers.
    pub static_: Vec<u8>,
    /// Return memory space: durable across frame pops, so a callee writes its
    /// result here before `Ret`.
    pub return_: Vec<u8>,
}

/// The mathematical model of the whole machine.
#[verifier::ext_equal]
pub ghost struct State {
    pub status: Status,
    /// Byte-order policy for every 16-bit memory access.
    pub byteorder: ByteOrder,
    /// Statements of each routine of the loaded intermediate representation.
    pub routines: Seq<Seq<Statement>>,
    /// The constant pool (ROM).
    pub consts: Seq<u8>,
    /// Index of the entry routine.
    pub main: int,
    /// One routine index per active call; the entry routine when empty.
    pub routine_stack: Seq<int>,
    /// One program counter per activation; never empty.
    pub pc_stack: Seq<int>,
    pub static_mem: Seq<u8>,
    pub return_mem: Seq<u8>,
    /// One frame per activation; never empty.
    pub frames: Seq<Seq<u8>>,
    pub reg8: Seq<u8>,
    pub reg16: Seq<u16>,
}

/// Structural soundness of a machine state: the three stacks keep consistent
/// depths, every byte array has its fixed size, and every stored program
/// counter and routine index is representable on the host.
pub open spec fn wf_state(s: State) -> bool {
    &&& s.pc_stack.len() == s.routine_stack.len() + 1
    &&& s.frames.len() == s.pc_stack.len()
    &&& s.static_mem.len() == MEM_SIZE
    &&& s.return_mem.len() == MEM_SIZE
    &&& s.reg8.len() == REG_COUNT
    &&& s.reg16.len() == REG_COUNT
    &&& forall|i: int| 0 <= i < s.frames.len() ==> (#[trigger] s.frames[i]).len() == FRAME_SIZE
    &&& forall|i: int| 0 <= i < s.pc_stack.len() ==> 0 <= #[trigger] s.pc_stack[i] <= usize::MAX
    &&& forall|i: int| 0 <= i < s.pc_stack.len() - 1 ==> #[trigger] s.pc_stack[i] < usize::MAX
    &&& forall|i: int|
        0 <= i < s.routine_stack.len() ==> 0 <= #[trigger] s.routine_stack[i] <= usize::MAX
    &&& 0 <= s.main <= usize::MAX
}

/// The routine the machine is executing: the top of the routine stack, or
/// the entry routine when no call is active.
pub open spec fn cur_routine(s: State) -> int {
    if s.routine_stack.len() > 0 {
        s.routine_stack.last()
    } else {
        s.main
    }
}

/// The active program counter: the top of the program-counter stack.
pub open spec fn cur_pc(s: State) -> int {
    s.pc_stack.last()
}

/// The active stack frame: the top of the frame stack.
pub open spec fn cur_frame(s: State) -> Seq<u8> {
    s.frames.last()
}

/// The numeric address a pointer carries, whatever its space.
pub open spec fn base_addr(base: Pointer) -> int {
    match base {
        Pointer::Absolute(a) => a as int,
        Pointer::Static(a) => a as int,
        Pointer::Const(a) => a as int,
        Pointer::Return(a) => a as int,
        Pointer::Stack(a) => a as int,
    }
}

/// Value of the optional indexing sub-operand of a pointer expression; zero
/// when absent.
pub open spec fn spec_offset(s: State, offset: Option<Box<Source8>>) -> Result<u8, FaultKind>
    decreases offset,
{
    match offset {
        Option::None => Ok(0u8),
        Option::Some(o) => spec_read8(s, *o),
    }
}

/// One byte read through a pointer at its effective address.
pub open spec fn spec_read8_at(s: State, base: Pointer, off: u8) -> Result<u8, FaultKind> {
    let ea = base_addr(base) + off;
    match base {
        Pointer::Absolute(_) => if ea < MEM_SIZE {
            Ok(s.static_mem[ea])
        } else {
            Err(FaultKind::AddressOutOfBounds(ea as u32))
        },
        Pointer::Static(_) => if ea < MEM_SIZE {
            Ok(s.static_mem[ea])
        } else {
            Err(FaultKind::AddressOutOfBounds(ea as u32))
        },
        Pointer::Return(_) => if ea < MEM_SIZE {
            Ok(s.return_mem[ea])
        } else {
            Err(FaultKind::AddressOutOfBounds(ea as u32))
        },
        Pointer::Const(_) => if ea < s.consts.len() {
            Ok(s.consts[ea])
        } else {
            Err(FaultKind::AddressOutOfBounds(ea as u32))
        },
        Pointer::Stack(_) => if ea < FRAME_SIZE {
            Ok(cur_frame(s)[ea])
        } else {
            Err(FaultKind::AddressOutOfBounds(ea as u32))
        },
    }
}

/// Value of an 8-bit source: a literal verbatim, a register bank slot, or a
/// byte of the addressed space.
pub open spec fn spec_read8(s: State, src: Source8) -> Result<u8, FaultKind>
    decreases src,
{
    match src {
        Source8::Literal(v) => Ok(v),
        Source8::Register(r) => if r < REG_COUNT {
            Ok(s.reg8[r as int])
        } else {
            Err(FaultKind::RegisterOutOfBounds(r))
        },
        Source8::Pointer { base, offset } => match spec_offset(s, offset) {
            Ok(off) => spec_read8_at(s, base, off),
            Err(k) => Err(k),
        },
    }
}

/// Two bytes read through a pointer and combined under the byte-order
/// policy.
pub open spec fn spec_read16_at(s: State, base: Pointer, off: u8) -> Result<u16, FaultKind> {
    let ea = base_addr(base) + off;
    match base {
        Pointer::Absolute(_) => if ea + 1 < MEM_SIZE {
            Ok(combined(s.byteorder, s.static_mem[ea], s.static_mem[ea + 1]))
        } else {
            Err(FaultKind::AddressOutOfBounds(ea as u32))
        },
        Pointer::Static(_) => if ea + 1 < MEM_SIZE {
            Ok(combined(s.byteorder, s.static_mem[ea], s.static_mem[ea + 1]))
        } else {
            Err(FaultKind::AddressOutOfBounds(ea as u32))
        },
        Pointer::Return(_) => if ea + 1 < MEM_SIZE {
            Ok(combined(s.byteorder, s.return_mem[ea], s.return_mem[ea + 1]))
        } else {
            Err(FaultKind::AddressOutOfBounds(ea as u32))
        },
        Pointer::Const(_) => if ea + 1 < s.consts.len() {
            Ok(combined(s.byteorder, s.consts[ea], s.consts[ea + 1]))
        } else {
            Err(FaultKind::AddressOutOfBounds(ea as u32))
        },
        Pointer::Stack(_) => if ea + 1 < FRAME_SIZE {
            Ok(combined(s.byteorder, cur_frame(s)[ea], cur_frame(s)[ea + 1]))
        } else {
            Err(FaultKind::AddressOutOfBounds(ea as u32))
        },
    }
}

/// Value of a 16-bit source.
pub open spec fn spec_read16(s: State, src: Source16) -> Result<u16, FaultKind> {
    match src {
        Source16::Literal(v) => Ok(v),
        Source16::Register(r) => if r < REG_COUNT {
            Ok(s.reg16[r as int])
        } else {
            Err(FaultKind::RegisterOutOfBounds(r))
        },
        Source16::Pointer { base, offset } => match spec_offset(s, offset) {
            Ok(off) => spec_read16_at(s, base, off),
            Err(k) => Err(k),
        },
    }
}

/// The state after one byte is written to a destination. Writing through a
/// constant-space pointer is a fault whatever the address.
pub open spec fn spec_write8(s: State, dst: Destination, val: u8) -> Result<State, FaultKind> {
    match dst {
        Destination::Register(r) => if r < REG_COUNT {
            Ok(State { reg8: s.reg8.update(r as int, val), ..s })
        } else {
            Err(FaultKind::RegisterOutOfBounds(r))
        },
        Destination::Pointer { base, offset } => match spec_offset(s, offset) {
            Err(k) => Err(k),
            Ok(off) => {
                let ea = base_addr(base) + off;
                match base {
                    Pointer::Absolute(_) => if ea < MEM_SIZE {
                        Ok(State { static_mem: s.static_mem.update(ea, val), ..s })
                    } else {
                        Err(FaultKind::AddressOutOfBounds(ea as u32))
                    },
                    Pointer::Static(_) => if ea < MEM_SIZE {
                        Ok(State { static_mem: s.static_mem.update(ea, val), ..s })
                    } else {
                        Err(FaultKind::AddressOutOfBounds(ea as u32))
                    },
                    Pointer::Return(_) => if ea < MEM_SIZE {
                        Ok(State { return_mem: s.return_mem.update(ea, val), ..s })
                    } else {
                        Err(FaultKind::AddressOutOfBounds(ea as u32))
                    },
                    Pointer::Const(_) => Err(FaultKind::ConstWrite(ea as u32)),
                    Pointer::Stack(_) => if ea < FRAME_SIZE {
                        Ok(
                            State {
                                frames: s.frames.update(
                                    s.frames.len() - 1,
                                    cur_frame(s).update(ea, val),
                                ),
                                ..s
                            },
                        )
                    } else {
                        Err(FaultKind::AddressOutOfBounds(ea as u32))
                    },
                }
            },
        },
    }
}

/// The state after a 16-bit value is written to a destination: its two bytes
/// under the byte-order policy to consecutive addresses, or the matching
/// 16-bit register slot.
pub open spec fn spec_write16(s: State, dst: Destination, val: u16) -> Result<State, FaultKind> {
    match dst {
        Destination::Register(r) => if r < REG_COUNT {
            Ok(State { reg16: s.reg16.update(r as int, val), ..s })
        } else {
            Err(FaultKind::RegisterOutOfBounds(r))
        },
        Destination::Pointer { base, offset } => match spec_offset(s, offset) {
            Err(k) => Err(k),
            Ok(off) => {
                let ea = base_addr(base) + off;
                let b0 = first_byte(s.byteorder, val);
                let b1 = second_byte(s.byteorder, val);
                match base {
                    Pointer::Absolute(_) => if ea + 1 < MEM_SIZE {
                        Ok(
                            State {
                                static_mem: s.static_mem.update(ea, b0).update(ea + 1, b1),
                                ..s
                            },
                        )
                    } else {
                        Err(FaultKind::AddressOutOfBounds(ea as u32))
                    },
                    Pointer::Static(_) => if ea + 1 < MEM_SIZE {
                        Ok(
                            State {
                                static_mem: s.static_mem.update(ea, b0).update(ea + 1, b1),
                                ..s
                            },
                        )
                    } else {
                        Err(FaultKind::AddressOutOfBounds(ea as u32))
                    },
                    Pointer::Return(_) => if ea + 1 < MEM_SIZE {
                        Ok(
                            State {
                                return_mem: s.return_mem.update(ea, b0).update(ea + 1, b1),
                                ..s
                            },
                        )
                    } else {
                        Err(FaultKind::AddressOutOfBounds(ea as u32))
                    },
                    Pointer::Const(_) => Err(FaultKind::ConstWrite(ea as u32)),
                    Pointer::Stack(_) => if ea + 1 < FRAME_SIZE {
                        Ok(
                            State {
                                frames: s.frames.update(
                                    s.frames.len() - 1,
                                    cur_frame(s).update(ea, b0).update(ea + 1, b1),
                                ),
                                ..s
                            },
                        )
                    } else {
                        Err(FaultKind::AddressOutOfBounds(ea as u32))
                    },
                }
            },
        },
    }
}

/// Both operands of an 8-bit binary statement, read left first.
pub open spec fn spec_bin8(s: State, left: Source8, right: Source8) -> Result<
    (u8, u8),
    FaultKind,
> {
    match spec_read8(s, left) {
        Err(k) => Err(k),
        Ok(a) => match spec_read8(s, right) {
            Err(k) => Err(k),
            Ok(b) => Ok((a, b)),
        },
    }
}

/// Both operands of a 16-bit binary statement, read left first.
pub open spec fn spec_bin16(s: State, left: Source16, right: Source16) -> Result<
    (u16, u16),
    FaultKind,
> {
    match spec_read16(s, left) {
        Err(k) => Err(k),
        Ok(a) => match spec_read16(s, right) {
            Err(k) => Err(k),
            Ok(b) => Ok((a, b)),
        },
    }
}

/// An 8-bit move: the source read once, then written.
pub open spec fn spec_ld8(s: State, src: Source8, dst: Destination) -> Result<State, FaultKind> {
    match spec_read8(s, src) {
        Ok(v) => spec_write8(s, dst, v),
        Err(k) => Err(k),
    }
}

/// A 16-bit move: the source read once, then written.
pub open spec fn spec_ld16(s: State, src: Source16, dst: Destination) -> Result<State, FaultKind> {
    match spec_read16(s, src) {
        Ok(v) => spec_write16(s, dst, v),
        Err(k) => Err(k),
    }
}

/// A relative jump: the offset added to the active program counter. A target
/// outside the host's program-counter range is a fault.
pub open spec fn spec_jump(s: State, loc: Location) -> Result<State, FaultKind> {
    match loc {
        Location::Relative(rel) => {
            let t = cur_pc(s) + rel;
            if t < 0 || t >= usize::MAX {
                Err(FaultKind::JumpOutOfRange)
            } else {
                Ok(State { pc_stack: s.pc_stack.update(s.pc_stack.len() - 1, t), ..s })
            }
        },
    }
}

/// The callee frame a `Call` builds: bytes `[range.start, range.end)` of the
/// caller's frame copied to its start, zero elsewhere.
pub open spec fn callee_frame(caller: Seq<u8>, range: ArgRange) -> Seq<u8> {
    Seq::new(
        FRAME_SIZE as nat,
        |i: int|
            if i < range.end - range.start {
                caller[range.start + i]
            } else {
                0u8
            },
    )
}

/// A `Call`: pushes the target routine, a fresh program counter and the new
/// frame. The target routine index is checked at the next fetch, not here.
pub open spec fn spec_call(s: State, routine: usize, range: ArgRange) -> Result<
    State,
    FaultKind,
> {
    if range.start > range.end || range.end > FRAME_SIZE {
        Err(FaultKind::BadArgRange)
    } else {
        Ok(
            State {
                routine_stack: s.routine_stack.push(routine as int),
                pc_stack: s.pc_stack.push(0),
                frames: s.frames.push(callee_frame(cur_frame(s), range)),
                ..s
            },
        )
    }
}

/// A `Ret`: pops the routine, program-counter and frame stacks, resuming the
/// caller. With no active call it is a stack underflow.
pub open spec fn spec_ret(s: State) -> Result<State, FaultKind> {
    if s.routine_stack.len() == 0 {
        Err(FaultKind::StackUnderflow)
    } else {
        Ok(
            State {
                routine_stack: s.routine_stack.drop_last(),
                pc_stack: s.pc_stack.drop_last(),
                frames: s.frames.drop_last(),
                ..s
            },
        )
    }
}

/// The effect of one statement on the machine state, before the program
/// counter advances: the new state, or the fault it raises.
pub open spec fn apply_statement(s: State, stmt: Statement) -> Result<State, FaultKind> {
    match stmt {
        Statement::Nop => Ok(s),
        Statement::Stop => Ok(State { status: Status::Stopped, ..s }),
        Statement::Ld { source, destination } => spec_ld8(s, source, destination),
        Statement::LdW { source, destination } => spec_ld16(s, source, destination),
        Statement::Inc { source, destination } => match spec_read8(s, source) {
            Ok(v) => spec_write8(s, destination, vstd::wrapping::u8_specs::wrapping_add(v, 1)),
            Err(k) => Err(k),
        },
        Statement::Dec { source, destination } => match spec_read8(s, source) {
            Ok(v) => spec_write8(s, destination, vstd::wrapping::u8_specs::wrapping_sub(v, 1)),
            Err(k) => Err(k),
        },
        Statement::IncW { source, destination } => match spec_read16(s, source) {
            Ok(v) => spec_write16(s, destination, vstd::wrapping::u16_specs::wrapping_add(v, 1)),
            Err(k) => Err(k),
        },
        Statement::DecW { source, destination } => match spec_read16(s, source) {
            Ok(v) => spec_write16(s, destination, vstd::wrapping::u16_specs::wrapping_sub(v, 1)),
            Err(k) => Err(k),
        },
        Statement::Add { left, right, destination } => match spec_bin8(s, left, right) {
            Ok(ab) => spec_write8(
                s,
                destination,
                vstd::wrapping::u8_specs::wrapping_add(ab.0, ab.1),
            ),
            Err(k) => Err(k),
        },
        Statement::Sub { left, right, destination } => match spec_bin8(s, left, right) {
            Ok(ab) => spec_write8(
                s,
                destination,
                vstd::wrapping::u8_specs::wrapping_sub(ab.0, ab.1),
            ),
            Err(k) => Err(k),
        },
        Statement::And { left, right, destination } => match spec_bin8(s, left, right) {
            Ok(ab) => spec_write8(s, destination, ab.0 & ab.1),
            Err(k) => Err(k),
        },
        Statement::Or { left, right, destination } => match spec_bin8(s, left, right) {
            Ok(ab) => spec_write8(s, destination, ab.0 | ab.1),
            Err(k) => Err(k),
        },
        Statement::Xor { left, right, destination } => match spec_bin8(s, left, right) {
            Ok(ab) => spec_write8(s, destination, ab.0 ^ ab.1),
            Err(k) => Err(k),
        },
        Statement::Mul { left, right, destination } => match spec_bin8(s, left, right) {
            Ok(ab) => if ab.0 * ab.1 > 255 {
                Err(FaultKind::Overflow)
            } else {
                spec_write8(s, destination, (ab.0 * ab.1) as u8)
            },
            Err(k) => Err(k),
        },
        Statement::Div { left, right, destination } => match spec_bin8(s, left, right) {
            Ok(ab) => if ab.1 == 0 {
                Err(FaultKind::DivisionByZero)
            } else {
                spec_write8(s, destination, ab.0 / ab.1)
            },
            Err(k) => Err(k),
        },
        Statement::Rem { left, right, destination } => match spec_bin8(s, left, right) {
            Ok(ab) => if ab.1 == 0 {
                Err(FaultKind::DivisionByZero)
            } else {
                spec_write8(s, destination, ab.0 % ab.1)
            },
            Err(k) => Err(k),
        },
        Statement::LeftShift { left, right, destination } => match spec_bin8(s, left, right) {
            Ok(ab) => if ab.1 >= 8 {
                Err(FaultKind::Overflow)
            } else {
                spec_write8(s, destination, ab.0 << ab.1)
            },
            Err(k) => Err(k),
        },
        Statement::RightShift { left, right, destination } => match spec_bin8(s, left, right) {
            Ok(ab) => if ab.1 >= 8 {
                Err(FaultKind::Overflow)
            } else {
                spec_write8(s, destination, ab.0 >> ab.1)
            },
            Err(k) => Err(k),
        },
        Statement::Eq { left, right, destination } => match spec_bin8(s, left, right) {
            Ok(ab) => spec_write8(
                s,
                destination,
                if ab.0 == ab.1 {
                    1u8
                } else {
                    0u8
                },
            ),
            Err(k) => Err(k),
        },
        Statement::NotEq { left, right, destination } => match spec_bin8(s, left, right) {
            Ok(ab) => spec_write8(
                s,
                destination,
                if ab.0 != ab.1 {
                    1u8
                } else {
                    0u8
                },
            ),
            Err(k) => Err(k),
        },
        Statement::Greater { left, right, destination } => match spec_bin8(s, left, right) {
            Ok(ab) => spec_write8(
                s,
                destination,
                if ab.0 > ab.1 {
                    1u8
                } else {
                    0u8
                },
            ),
            Err(k) => Err(k),
        },
        Statement::GreaterEq { left, right, destination } => match spec_bin8(s, left, right) {
            Ok(ab) => spec_write8(
                s,
                destination,
                if ab.0 >= ab.1 {
                    1u8
                } else {
                    0u8
                },
            ),
            Err(k) => Err(k),
        },
        Statement::Less { left, right, destination } => match spec_bin8(s, left, right) {
            Ok(ab) => spec_write8(
                s,
                destination,
                if ab.0 < ab.1 {
                    1u8
                } else {
                    0u8
                },
            ),
            Err(k) => Err(k),
        },
        Statement::LessEq { left, right, destination } => match spec_bin8(s, left, right) {
            Ok(ab) => spec_write8(
                s,
                destination,
                if ab.0 <= ab.1 {
                    1u8
                } else {
                    0u8
                },
            ),
            Err(k) => Err(k),
        },
        Statement::AddW { left, right, destination } => match spec_bin16(s, left, right) {
            Ok(ab) => spec_write16(
                s,
                destination,
                vstd::wrapping::u16_specs::wrapping_add(ab.0, ab.1),
            ),
            Err(k) => Err(k),
        },
        Statement::SubW { left, right, destination } => match spec_bin16(s, left, right) {
            Ok(ab) => spec_write16(
                s,
                destination,
                vstd::wrapping::u16_specs::wrapping_sub(ab.0, ab.1),
            ),
            Err(k) => Err(k),
        },
        Statement::AndW { left, right, destination } => match spec_bin16(s, left, right) {
            Ok(ab) => spec_write16(s, destination, ab.0 & ab.1),
            Err(k) => Err(k),
        },
        Statement::OrW { left, right, destination } => match spec_bin16(s, left, right) {
            Ok(ab) => spec_write16(s, destination, ab.0 | ab.1),
            Err(k) => Err(k),
        },
        Statement::XorW { left, right, destination } => match spec_bin16(s, left, right) {
            Ok(ab) => spec_write16(s, destination, ab.0 ^ ab.1),
            Err(k) => Err(k),
        },
        Statement::MulW { left: _, right: _, destination: _ } => Err(FaultKind::Unsupported),
        Statement::DivW { left: _, right: _, destination: _ } => Err(FaultKind::Unsupported),
        Statement::RemW { left: _, right: _, destination: _ } => Err(FaultKind::Unsupported),
        Statement::LeftShiftW { left: _, right: _, destination: _ } => Err(FaultKind::Unsupported),
        Statement::RightShiftW { left: _, right: _, destination: _ } => Err(
            FaultKind::Unsupported,
        ),
        Statement::Jmp { location } => spec_jump(s, location),
        Statement::JmpCmp { location, source } => match spec_read8(s, source) {
            Ok(v) => if v != 0 {
                spec_jump(s, location)
            } else {
                Ok(s)
            },
            Err(k) => Err(k),
        },
        Statement::JmpCmpNot { location, source } => match spec_read8(s, source) {
            Ok(v) => if v == 0 {
                spec_jump(s, location)
            } else {
                Ok(s)
            },
            Err(k) => Err(k),
        },
        Statement::Call { routine, range } => spec_call(s, routine, range),
        Statement::Ret => spec_ret(s),
    }
}

/// The state, unchanged but for its status: faulted with kind `k` at the
/// active routine and program counter.
pub open spec fn faulted(s: State, k: FaultKind) -> State {
    State {
        status: Status::Faulted(
            (Fault { kind: k, routine: cur_routine(s) as usize, pc: cur_pc(s) as usize }),
        ),
        ..s
    }
}

/// The state with the active program counter advanced by one.
pub open spec fn bump_pc(s: State) -> State {
    State { pc_stack: s.pc_stack.update(s.pc_stack.len() - 1, cur_pc(s) + 1), ..s }
}

/// Whether the active routine index and program counter denote a statement.
pub open spec fn fetch_ok(s: State) -> bool {
    &&& 0 <= cur_routine(s) < s.routines.len()
    &&& 0 <= cur_pc(s) < s.routines[cur_routine(s)].len()
}

/// The statement the machine is about to execute.
pub open spec fn fetched(s: State) -> Statement {
    s.routines[cur_routine(s)][cur_pc(s)]
}

/// One fetch-execute cycle. A machine that is not running does not move. A
/// fetch outside the routine table or the routine's statements faults;
/// otherwise the fetched statement is applied and, on success, the active
/// program counter advances by one (also after `Stop`, after a `Call` — so a
/// callee begins at statement one — and after `Ret`, which thereby resumes
/// the caller after its call statement). A statement that faults leaves every
/// other part of the state as it was, with the program counter still naming
/// the faulting statement.
#[verifier::opaque]
pub open spec fn step(s: State) -> State {
    if !(s.status is Running) {
        s
    } else if !(0 <= cur_routine(s) < s.routines.len()) {
        faulted(s, FaultKind::RoutineOutOfBounds(cur_routine(s) as usize))
    } else if !(0 <= cur_pc(s) < s.routines[cur_routine(s)].len()) {
        faulted(s, FaultKind::PcOutOfBounds(cur_pc(s) as usize))
    } else {
        match apply_statement(s, fetched(s)) {
            Ok(s2) => bump_pc(s2),
            Err(k) => faulted(s, k),
        }
    }
}

/// The state after `n` fetch-execute cycles.
pub open spec fn steps(s: State, n: nat) -> State
    decreases n,
{
    if n == 0 {
        s
    } else {
        step(steps(s, (n - 1) as nat))
    }
}

/// The initial machine state over an intermediate representation: running,
/// program counter zero, no active call, one default (zeroed) stack frame,
/// zeroed memory spaces and register banks.
pub open spec fn initial_state(ir: Ir) -> State {
    State {
        status: Status::Running,
        byteorder: ir.byteorder,
        routines: Seq::new(ir.routines@.len(), |i: int| ir.routines@[i].statements@),
        consts: ir.const_@,
        main: ir.handlers.main as int,
        routine_stack: Seq::empty(),
        pc_stack: seq![0int],
        static_mem: Seq::new(MEM_SIZE as nat, |i: int| 0u8),
        return_mem: Seq::new(MEM_SIZE as nat, |i: int| 0u8),
        frames: seq![Seq::new(FRAME_SIZE as nat, |i: int| 0u8)],
        reg8: Seq::new(REG_COUNT as nat, |i: int| 0u8),
        reg16: Seq::new(REG_COUNT as nat, |i: int| 0u16),
    }
}

/// How the post-state and result of an executable helper relate to what the
/// model says the statement does: on success the machine is exactly the
/// model's new state; on a fault the helper reports the kind and leaves the
/// machine as it was.
pub open spec fn step_result(
    pre: State,
    post: State,
    applied: Result<State, FaultKind>,
    r: Result<(), FaultKind>,
) -> bool {
    match applied {
        Ok(s2) => r is Ok && post == s2,
        Err(k) => r == Err::<(), FaultKind>(k) && post == pre,
    }
}

/// The fetch-execute interpreter. Owns all machine state; nothing is shared
/// across instances.
pub struct VM {
    opts: Opts,
    status: Status,
    ir: Ir,
    routine: Vec<usize>,
    pc: Vec<usize>,
    memory: Memory,
    stack: Vec<Vec<u8>>,
    reg8: Vec<u8>,
    reg16: Vec<u16>,
}

impl View for VM {
    type V = State;

    closed spec fn view(&self) -> State {
        State {
            status: self.status,
            byteorder: self.ir.byteorder,
            routines: Seq::new(self.ir.routines@.len(), |i: int| self.ir.routines@[i].statements@),
            consts: self.ir.const_@,
            main: self.ir.handlers.main as int,
            routine_stack: Seq::new(self.routine@.len(), |i: int| self.routine@[i] as int),
            pc_stack: Seq::new(self.pc@.len(), |i: int| self.pc@[i] as int),
            static_mem: self.memory.static_@,
            return_mem: self.memory.return_@,
            frames: Seq::new(self.stack@.len(), |i: int| self.stack@[i]@),
            reg8: self.reg8@,
            reg16: self.reg16@,
        }
    }
}

/// A vector of `n` zero 16-bit words.
fn zero_words(n: usize) -> (v: Vec<u16>)
    ensures
        v@ == Seq::new(n as nat, |i: int| 0u16),
{
    let mut v: Vec<u16> = Vec::new();
    let mut i: usize = 0;
    while i < n
        invariant
            i <= n,
            v@.len() == i,
            forall|j: int| 0 <= j < i ==> v@[j] == 0u16,
        decreases n - i,
    {
        v.push(0);
        i = i + 1;
    }
    proof {
        assert(v@ =~= Seq::new(n as nat, |i: int| 0u16));
    }
    v
}

/// A vector of `n` zero bytes.
fn zero_bytes(n: usize) -> (v: Vec<u8>)
    ensures
        v@ == Seq::new(n as nat, |i: int| 0u8),
{
    let mut v: Vec<u8> = Vec::new();
    let mut i: usize = 0;
    while i < n
        invariant
            i <= n,
            v@.len() == i,
            forall|j: int| 0 <= j < i ==> v@[j] == 0u8,
        decreases n - i,
    {
        v.push(0);
        i = i + 1;
    }
    proof {
        assert(v@ =~= Seq::new(n as nat, |i: int| 0u8));
    }
    v
}

impl VM {
    /// Structural soundness of the machine; established by [`VM::new`] and
    /// preserved by every cycle.
    pub open spec fn wf(&self) -> bool {
        wf_state(self@)
    }

    /// Create a new virtual machine to run the given intermediate
    /// representation: running, at the start of the entry routine, with one
    /// default stack frame and zeroed memory.
    pub fn new(ir: Ir, opts: Opts) -> (vm: VM)
        ensures
            vm.wf(),
            vm@ == initial_state(ir),
    {
        let mut pc: Vec<usize> = Vec::new();
        pc.push(0);
        let mut stack: Vec<Vec<u8>> = Vec::new();
        stack.push(zero_bytes(FRAME_SIZE));
        let vm = VM {
            opts,
            status: Status::Running,
            ir,
            routine: Vec::new(),
            pc,
            memory: Memory { static_: zero_bytes(MEM_SIZE), return_: zero_bytes(MEM_SIZE) },
            stack,
            reg8: zero_bytes(REG_COUNT),
            reg16: zero_words(REG_COUNT),
        };
        proof {
            assert(vm@ =~= initial_state(vm.ir));
        }
        vm
    }

    /// The active program counter.
    pub fn pc(&self) -> (r: usize)
        requires
            self.wf(),
        ensures
            r == cur_pc(self@),
    {
        self.pc[self.pc.len() - 1]
    }

    /// The machine's memory spaces, for host-driven inspection.
    pub fn memory(&self) -> (m: &Memory)
        ensures
            m.static_@ == self@.static_mem,
            m.return_@ == self@.return_mem,
    {
        &self.memory
    }

    /// The machine's execution status.
    pub fn status(&self) -> (r: Status)
        ensures
            r == self@.status,
    {
        self.status
    }

    /// Whether the machine is still running (neither stopped nor faulted).
    pub fn running(&self) -> (r: bool)
        ensures
            r == (self@.status is Running),
    {
        match self.status {
            Status::Running => true,
            _ => false,
        }
    }

    /// One fetch-execute cycle, exactly as the model's [`step`] says.
    pub fn update(&mut self)
        requires
            old(self).wf(),
        ensures
            final(self).wf(),
            final(self)@ == step(old(self)@),
    {
        match self.status {
            Status::Running => {},
            _ => {
                proof {
                    reveal(step);
                }
                return ;
            },
        }
        let r = if self.routine.len() > 0 {
            self.routine[self.routine.len() - 1]
        } else {
            self.ir.handlers.main
        };
        let pc = self.pc[self.pc.len() - 1];
        if r >= self.ir.routines.len() {
            self.status = Status::Faulted(
                Fault { kind: FaultKind::RoutineOutOfBounds(r), routine: r, pc },
            );
            proof {
                reveal(step);
                assert(self@ =~= step(old(self)@));
            }
            return ;
        }
        if pc >= self.ir.routines[r].statements.len() {
            self.status = Status::Faulted(
                Fault { kind: FaultKind::PcOutOfBounds(pc), routine: r, pc },
            );
            proof {
                reveal(step);
                assert(self@ =~= step(old(self)@));
            }
            return ;
        }
        let statement = self.ir.routines[r].statements[pc].clone();
        proof {
            reveal(step);
            lemma_apply_statement_wf(self@, statement);
        }
        match self.execute(&statement) {
            Ok(_) => {
                let top = self.pc.len() - 1;
                let t = self.pc[top];
                self.pc.set(top, t + 1);
                proof {
                    reveal(step);
                    assert(self@ =~= bump_pc(apply_statement(old(self)@, statement)->Ok_0));
                }
            },
            Err(k) => {
                self.status = Status::Faulted(Fault { kind: k, routine: r, pc });
                proof {
                    reveal(step);
                    assert(self@ =~= faulted(old(self)@, k));
                }
            },
        }
    }

    /// Runs fetch-execute cycles until the machine stops or faults, then
    /// yields the memory spaces: after some number of cycles of the model the
    /// machine is halted with exactly these bytes. The loaded program must
    /// halt (stop or fault) after some number of cycles; a host that cannot
    /// show that steps the machine itself with [`VM::update`].
    #[verifier::rlimit(100)]
    pub fn run(self) -> (m: Memory)
        requires
            self.wf(),
            exists|n: nat| !((#[trigger] steps(self@, n)).status is Running),
        ensures
            exists|n: nat|
                {
                    let fin = #[trigger] steps(self@, n);
                    &&& !(fin.status is Running)
                    &&& m.static_@ == fin.static_mem
                    &&& m.return_@ == fin.return_mem
                },
    {
        let ghost s0 = self@;
        let ghost fuel = choose|n: nat| !((#[trigger] steps(s0, n)).status is Running);
        let ghost mut n: nat = 0;
        let mut vm = self;
        while vm.running()
            invariant
                vm.wf(),
                vm@ == steps(s0, n),
                n <= fuel,
                !(steps(s0, fuel).status is Running),
            decreases fuel - n,
        {
            vm.update();
            proof {
                n = n + 1;
                assert(steps(s0, n) == step(steps(s0, (n - 1) as nat)));
            }
        }
        proof {
            assert(!(steps(s0, n).status is Running) && vm.memory.static_@ == steps(s0, n).static_mem
                && vm.memory.return_@ == steps(s0, n).return_mem);
        }
        vm.memory
    }

    /// Reads an 8-bit source.
    fn read(&self, source: &Source8) -> (r: Result<u8, FaultKind>)
        requires
            self.wf(),
        ensures
            r == spec_read8(self@, *source),
        decreases *source,
    {
        match source {
            Source8::Literal(v) => Ok(*v),
            Source8::Register(reg) => {
                if *reg < REG_COUNT {
                    Ok(self.reg8[*reg])
                } else {
                    Err(FaultKind::RegisterOutOfBounds(*reg))
                }
            },
            Source8::Pointer { base, offset } => {
                let off: u8 = match offset {
                    Option::None => 0,
                    Option::Some(o) => {
                        match self.read(&**o) {
                            Ok(v) => v,
                            Err(k) => {
                                return Err(k);
                            },
                        }
                    },
                };
                self.read_at(base, off)
            },
        }
    }

    /// Reads one byte at a pointer's effective address.
    fn read_at(&self, base: &Pointer, off: u8) -> (r: Result<u8, FaultKind>)
        requires
            self.wf(),
        ensures
            r == spec_read8_at(self@, *base, off),
    {
        match base {
            Pointer::Absolute(addr) => {
                let ea = *addr as u32 + off as u32;
                if (ea as usize) < MEM_SIZE {
                    Ok(self.memory.static_[ea as usize])
                } else {
                    Err(FaultKind::AddressOutOfBounds(ea))
                }
            },
            Pointer::Static(addr) => {
                let ea = *addr as u32 + off as u32;
                if (ea as usize) < MEM_SIZE {
                    Ok(self.memory.static_[ea as usize])
                } else {
                    Err(FaultKind::AddressOutOfBounds(ea))
                }
            },
            Pointer::Return(addr) => {
                let ea = *addr as u32 + off as u32;
                if (ea as usize) < MEM_SIZE {
                    Ok(self.memory.return_[ea as usize])
                } else {
                    Err(FaultKind::AddressOutOfBounds(ea))
                }
            },
            Pointer::Const(addr) => {
                let ea = *addr as u32 + off as u32;
                if (ea as usize) < self.ir.const_.len() {
                    Ok(self.ir.const_[ea as usize])
                } else {
                    Err(FaultKind::AddressOutOfBounds(ea))
                }
            },
            Pointer::Stack(addr) => {
                let ea = *addr as u32 + off as u32;
                if (ea as usize) < FRAME_SIZE {
                    Ok(self.stack[self.stack.len() - 1][ea as usize])
                } else {
                    Err(FaultKind::AddressOutOfBounds(ea))
                }
            },
        }
    }

    /// Reads a 16-bit source.
    fn read_u16(&self, source: &Source16) -> (r: Result<u16, FaultKind>)
        requires
            self.wf(),
        ensures
            r == spec_read16(self@, *source),
    {
        match source {
            Source16::Literal(v) => Ok(*v),
            Source16::Register(reg) => {
                if *reg < REG_COUNT {
                    Ok(self.reg16[*reg])
                } else {
                    Err(FaultKind::RegisterOutOfBounds(*reg))
                }
            },
            Source16::Pointer { base, offset } => {
                let off: u8 = match offset {
                    Option::None => 0,
                    Option::Some(o) => {
                        match self.read(&**o) {
                            Ok(v) => v,
                            Err(k) => {
                                return Err(k);
                            },
                        }
                    },
                };
                self.read_u16_at(base, off)
            },
        }
    }

    /// Reads two consecutive bytes at a pointer's effective address and
    /// combines them under the byte-order policy.
    fn read_u16_at(&self, base: &Pointer, off: u8) -> (r: Result<u16, FaultKind>)
        requires
            self.wf(),
        ensures
            r == spec_read16_at(self@, *base, off),
    {
        match base {
            Pointer::Absolute(addr) => {
                let ea = *addr as u32 + off as u32;
                if (ea as usize) + 1 < MEM_SIZE {
                    let b0 = self.memory.static_[ea as usize];
                    let b1 = self.memory.static_[ea as usize + 1];
                    Ok(self.ir.byteorder.join_u16(b0, b1))
                } else {
                    Err(FaultKind::AddressOutOfBounds(ea))
                }
            },
            Pointer::Static(addr) => {
                let ea = *addr as u32 + off as u32;
                if (ea as usize) + 1 < MEM_SIZE {
                    let b0 = self.memory.static_[ea as usize];
                    let b1 = self.memory.static_[ea as usize + 1];
                    Ok(self.ir.byteorder.join_u16(b0, b1))
                } else {
                    Err(FaultKind::AddressOutOfBounds(ea))
                }
            },
            Pointer::Return(addr) => {
                let ea = *addr as u32 + off as u32;
                if (ea as usize) + 1 < MEM_SIZE {
                    let b0 = self.memory.return_[ea as usize];
                    let b1 = self.memory.return_[ea as usize + 1];
                    Ok(self.ir.byteorder.join_u16(b0, b1))
                } else {
                    Err(FaultKind::AddressOutOfBounds(ea))
                }
            },
            Pointer::Const(addr) => {
                let ea = *addr as u32 + off as u32;
                if (ea as usize) + 1 < self.ir.const_.len() {
                    let b0 = self.ir.const_[ea as usize];
                    let b1 = self.ir.const_[ea as usize + 1];
                    Ok(self.ir.byteorder.join_u16(b0, b1))
                } else {
                    Err(FaultKind::AddressOutOfBounds(ea))
                }
            },
            Pointer::Stack(addr) => {
                let ea = *addr as u32 + off as u32;
                if (ea as usize) + 1 < FRAME_SIZE {
                    let b0 = self.stack[self.stack.len() - 1][ea as usize];
                    let b1 = self.stack[self.stack.len() - 1][ea as usize + 1];
                    Ok(self.ir.byteorder.join_u16(b0, b1))
                } else {
                    Err(FaultKind::AddressOutOfBounds(ea))
                }
            },
        }
    }

    /// Writes one byte to a destination.
    fn store8(&mut self, value: u8, destination: &Destination) -> (r: Result<(), FaultKind>)
        requires
            old(self).wf(),
        ensures
            final(self).wf(),
            step_result(
                old(self)@,
                final(self)@,
                spec_write8(old(self)@, *destination, value),
                r,
            ),
    {
        proof {
            lemma_write8_wf(old(self)@);
        }
        match destination {
            Destination::Register(reg) => {
                if *reg < REG_COUNT {
                    self.reg8.set(*reg, value);
                    proof {
                        assert(self@ =~= spec_write8(old(self)@, *destination, value)->Ok_0);
                    }
                    Ok(())
                } else {
                    Err(FaultKind::RegisterOutOfBounds(*reg))
                }
            },
            Destination::Pointer { base, offset } => {
                let off: u8 = match offset {
                    Option::None => 0,
                    Option::Some(o) => {
                        match self.read(&**o) {
                            Ok(v) => v,
                            Err(k) => {
                                return Err(k);
                            },
                        }
                    },
                };
                match base {
                    Pointer::Absolute(addr) => {
                        let ea = *addr as u32 + off as u32;
                        if (ea as usize) < MEM_SIZE {
                            self.memory.static_.set(ea as usize, value);
                            proof {
                                assert(self@ =~= spec_write8(
                                    old(self)@,
                                    *destination,
                                    value,
                                )->Ok_0);
                            }
                            Ok(())
                        } else {
                            Err(FaultKind::AddressOutOfBounds(ea))
                        }
                    },
                    Pointer::Static(addr) => {
                        let ea = *addr as u32 + off as u32;
                        if (ea as usize) < MEM_SIZE {
                            self.memory.static_.set(ea as usize, value);
                            proof {
                                assert(self@ =~= spec_write8(
                                    old(self)@,
                                    *destination,
                                    value,
                                )->Ok_0);
                            }
                            Ok(())
                        } else {
                            Err(FaultKind::AddressOutOfBounds(ea))
                        }
                    },
                    Pointer::Return(addr) => {
                        let ea = *addr as u32 + off as u32;
                        if (ea as usize) < MEM_SIZE {
                            self.memory.return_.set(ea as usize, value);
                            proof {
                                assert(self@ =~= spec_write8(
                                    old(self)@,
                                    *destination,
                                    value,
                                )->Ok_0);
                            }
                            Ok(())
                        } else {
                            Err(FaultKind::AddressOutOfBounds(ea))
                        }
                    },
                    Pointer::Const(addr) => Err(
                        FaultKind::ConstWrite(*addr as u32 + off as u32),
                    ),
                    Pointer::Stack(addr) => {
                        let ea = *addr as u32 + off as u32;
                        if (ea as usize) < FRAME_SIZE {
                            let mut frame = self.stack.pop().unwrap();
                            frame.set(ea as usize, value);
                            self.stack.push(frame);
                            proof {
                                assert(self@.frames =~= old(self)@.frames.update(
                                    old(self)@.frames.len() - 1,
                                    cur_frame(old(self)@).update(ea as int, value),
                                ));
                                assert(self@ =~= spec_write8(
                                    old(self)@,
                                    *destination,
                                    value,
                                )->Ok_0);
                            }
                            Ok(())
                        } else {
                            Err(FaultKind::AddressOutOfBounds(ea))
                        }
                    },
                }
            },
        }
    }

    /// Writes a 16-bit value to a destination: its two bytes under the
    /// byte-order policy, or the matching 16-bit register slot.
    fn store16(&mut self, value: u16, destination: &Destination) -> (r: Result<(), FaultKind>)
        requires
            old(self).wf(),
        ensures
            final(self).wf(),
            step_result(
                old(self)@,
                final(self)@,
                spec_write16(old(self)@, *destination, value),
                r,
            ),
    {
        proof {
            lemma_write16_wf(old(self)@);
        }
        match destination {
            Destination::Register(reg) => {
                if *reg < REG_COUNT {
                    self.reg16.set(*reg, value);
                    proof {
                        assert(self@ =~= spec_write16(old(self)@, *destination, value)->Ok_0);
                    }
                    Ok(())
                } else {
                    Err(FaultKind::RegisterOutOfBounds(*reg))
                }
            },
            Destination::Pointer { base, offset } => {
                let off: u8 = match offset {
                    Option::None => 0,
                    Option::Some(o) => {
                        match self.read(&**o) {
                            Ok(v) => v,
                            Err(k) => {
                                return Err(k);
                            },
                        }
                    },
                };
                let pair = self.ir.byteorder.split_u16(value);
                match base {
                    Pointer::Absolute(addr) => {
                        let ea = *addr as u32 + off as u32;
                        if (ea as usize) + 1 < MEM_SIZE {
                            self.memory.static_.set(ea as usize, pair.0);
                            self.memory.static_.set(ea as usize + 1, pair.1);
                            proof {
                                assert(self@ =~= spec_write16(
                                    old(self)@,
                                    *destination,
                                    value,
                                )->Ok_0);
                            }
                            Ok(())
                        } else {
                            Err(FaultKind::AddressOutOfBounds(ea))
                        }
                    },
                    Pointer::Static(addr) => {
                        let ea = *addr as u32 + off as u32;
                        if (ea as usize) + 1 < MEM_SIZE {
                            self.memory.static_.set(ea as usize, pair.0);
                            self.memory.static_.set(ea as usize + 1, pair.1);
                            proof {
                                assert(self@ =~= spec_write16(
                                    old(self)@,
                                    *destination,
                                    value,
                                )->Ok_0);
                            }
                            Ok(())
                        } else {
                            Err(FaultKind::AddressOutOfBounds(ea))
                        }
                    },
                    Pointer::Return(addr) => {
                        let ea = *addr as u32 + off as u32;
                        if (ea as usize) + 1 < MEM_SIZE {
                            self.memory.return_.set(ea as usize, pair.0);
                            self.memory.return_.set(ea as usize + 1, pair.1);
                            proof {
                                assert(self@ =~= spec_write16(
                                    old(self)@,
                                    *destination,
                                    value,
                                )->Ok_0);
                            }
                            Ok(())
                        } else {
                            Err(FaultKind::AddressOutOfBounds(ea))
                        }
                    },
                    Pointer::Const(addr) => Err(
                        FaultKind::ConstWrite(*addr as u32 + off as u32),
                    ),
                    Pointer::Stack(addr) => {
                        let ea = *addr as u32 + off as u32;
                        if (ea as usize) + 1 < FRAME_SIZE {
                            let mut frame = self.stack.pop().unwrap();
                            frame.set(ea as usize, pair.0);
                            frame.set(ea as usize + 1, pair.1);
                            self.stack.push(frame);
                            proof {
                                assert(self@.frames =~= old(self)@.frames.update(
                                    old(self)@.frames.len() - 1,
                                    cur_frame(old(self)@).update(
                                        ea as int,
                                        first_byte(old(self)@.byteorder, value),
                                    ).update(
                                        ea as int + 1,
                                        second_byte(old(self)@.byteorder, value),
                                    ),
                                ));
                                assert(self@ =~= spec_write16(
                                    old(self)@,
                                    *destination,
                                    value,
                                )->Ok_0);
                            }
                            Ok(())
                        } else {
                            Err(FaultKind::AddressOutOfBounds(ea))
                        }
                    },
                }
            },
        }
    }

    /// An 8-bit move: the source read once, then written.
    fn ld(&mut self, source: &Source8, destination: &Destination) -> (r: Result<(), FaultKind>)
        requires
            old(self).wf(),
        ensures
            final(self).wf(),
            step_result(
                old(self)@,
                final(self)@,
                spec_ld8(old(self)@, *source, *destination),
                r,
            ),
    {
        let data = match self.read(source) {
            Ok(v) => v,
            Err(k) => {
                return Err(k);
            },
        };
        self.store8(data, destination)
    }

    /// A 16-bit move: the source read once, then written.
    fn ld16(&mut self, source: &Source16, destination: &Destination) -> (r: Result<
        (),
        FaultKind,
    >)
        requires
            old(self).wf(),
        ensures
            final(self).wf(),
            step_result(
                old(self)@,
                final(self)@,
                spec_ld16(old(self)@, *source, *destination),
                r,
            ),
    {
        let data = match self.read_u16(source) {
            Ok(v) => v,
            Err(k) => {
                return Err(k);
            },
        };
        self.store16(data, destination)
    }
}

/// Law of space disjointness: the address spaces are separate byte arrays.
/// Writing a literal through an 8-bit `Ld` into a `Static` address succeeds
/// and never changes what a `Const` read of the same address observes, nor
/// the constant pool, the return space, any stack frame or any register.
pub proof fn lemma_spaces_disjoint(s: State, addr: u16, v: u8)
    requires
        wf_state(s),
    ensures
        ({
            let w = spec_ld8(
                s,
                Source8::Literal(v),
                (Destination::Pointer { base: Pointer::Static(addr), offset: Option::None }),
            );
            let probe = (Source8::Pointer { base: Pointer::Const(addr), offset: Option::None });
            &&& w is Ok
            &&& spec_read8(w->Ok_0, probe) == spec_read8(s, probe)
            &&& w->Ok_0.consts == s.consts
            &&& w->Ok_0.return_mem == s.return_mem
            &&& w->Ok_0.frames == s.frames
            &&& w->Ok_0.reg8 == s.reg8
            &&& w->Ok_0.reg16 == s.reg16
        }),
{
}

/// Law of the call protocol: a `Call` followed immediately by the callee's
/// `Ret` restores the program counter to the statement after the call, with
/// no observable change to the caller's frame (inside or outside the copied
/// range), the memory spaces, the registers or the stacks. The callee's
/// `Ret` stands at statement index one, because the cycle's increment after
/// the `Call` moves the fresh program counter from zero to one.
pub proof fn lemma_call_ret_roundtrip(s: State, routine: usize, range: ArgRange)
    requires
        wf_state(s),
        s.status is Running,
        fetch_ok(s),
        fetched(s) == (Statement::Call { routine, range }),
        range.start <= range.end,
        range.end <= FRAME_SIZE,
        routine < s.routines.len(),
        s.routines[routine as int].len() >= 2,
        s.routines[routine as int][1] == Statement::Ret,
    ensures
        ({
            let s2 = step(step(s));
            &&& s2.status is Running
            &&& s2.pc_stack =~= s.pc_stack.update(s.pc_stack.len() - 1, cur_pc(s) + 1)
            &&& s2.routine_stack == s.routine_stack
            &&& s2.frames == s.frames
            &&& s2.static_mem == s.static_mem
            &&& s2.return_mem == s.return_mem
            &&& s2.reg8 == s.reg8
            &&& s2.reg16 == s.reg16
            &&& s2.consts == s.consts
        }),
{
    reveal(step);
    let s1 = step(s);
    let sc = spec_call(s, routine, range)->Ok_0;
    assert(s1 == bump_pc(sc));
    assert(s1.pc_stack =~= s.pc_stack.push(1));
    assert(cur_routine(s1) == routine as int);
    assert(cur_pc(s1) == 1);
    assert(fetched(s1) == Statement::Ret);
    let sr = spec_ret(s1)->Ok_0;
    assert(sr.pc_stack =~= s.pc_stack);
    assert(sr.routine_stack =~= s.routine_stack);
    assert(sr.frames =~= s.frames);
    let s2 = step(step(s));
    assert(s2 == bump_pc(sr));
    assert(s2.pc_stack =~= s.pc_stack.update(s.pc_stack.len() - 1, cur_pc(s) + 1));
}

/// `spec_write8` touches nothing but the one written cell: lengths, the
/// stacks and the untouched spaces of a well-formed state carry over.
proof fn lemma_write8_wf(s: State)
    requires
        wf_state(s),
    ensures
        forall|d: Destination, v: u8|
            match #[trigger] spec_write8(s, d, v) {
                Ok(s2) => wf_state(s2) && s2.pc_stack == s.pc_stack && s2.routine_stack
                    == s.routine_stack,
                Err(_) => true,
            },
{
    assert forall|d: Destination, v: u8|
        match #[trigger] spec_write8(s, d, v) {
            Ok(s2) => wf_state(s2) && s2.pc_stack == s.pc_stack && s2.routine_stack
                == s.routine_stack,
            Err(_) => true,
        } by {
        match spec_write8(s, d, v) {
            Ok(s2) => {
                assert(forall|i: int|
                    0 <= i < s2.frames.len() ==> (#[trigger] s2.frames[i]).len() == FRAME_SIZE);
            },
            Err(_) => {},
        }
    }
}

/// `spec_write16` analogue of [`lemma_write8_wf`].
proof fn lemma_write16_wf(s: State)
    requires
        wf_state(s),
    ensures
        forall|d: Destination, v: u16|
            match #[trigger] spec_write16(s, d, v) {
                Ok(s2) => wf_state(s2) && s2.pc_stack == s.pc_stack && s2.routine_stack
                    == s.routine_stack,
                Err(_) => true,
            },
{
    assert forall|d: Destination, v: u16|
        match #[trigger] spec_write16(s, d, v) {
            Ok(s2) => wf_state(s2) && s2.pc_stack == s.pc_stack && s2.routine_stack
                == s.routine_stack,
            Err(_) => true,
        } by {
        match spec_write16(s, d, v) {
            Ok(s2) => {
                assert(forall|i: int|
                    0 <= i < s2.frames.len() ==> (#[trigger] s2.frames[i]).len() == FRAME_SIZE);
            },
            Err(_) => {},
        }
    }
}

/// Applying any statement to a well-formed running state with a
/// representable program counter yields, on success, a well-formed state
/// whose active program counter is still representable — so the cycle's
/// increment cannot overflow.
proof fn lemma_apply_statement_wf(s: State, stmt: Statement)
    requires
        wf_state(s),
        0 <= cur_pc(s) < usize::MAX,
    ensures
        match apply_statement(s, stmt) {
            Ok(s2) => wf_state(s2) && s2.pc_stack.len() == s.pc_stack.len() + (
            if stmt is Call {
                1int
            } else if stmt is Ret {
                -1int
            } else {
                0int
            }) && 0 <= cur_pc(s2) < usize::MAX,
            Err(_) => true,
        },
{
    lemma_write8_wf(s);
    lemma_write16_wf(s);
    match stmt {
        Statement::Call { routine, range } => {
            match spec_call(s, routine, range) {
                Ok(s2) => {
                    assert(forall|i: int|
                        0 <= i < s2.frames.len() ==> (#[trigger] s2.frames[i]).len()
                            == FRAME_SIZE);
                    assert(forall|i: int|
                        0 <= i < s2.pc_stack.len() ==> 0 <= #[trigger] s2.pc_stack[i]
                            <= usize::MAX);
                    assert(forall|i: int|
                        0 <= i < s2.pc_stack.len() - 1 ==> #[trigger] s2.pc_stack[i]
                            < usize::MAX);
                    assert(forall|i: int|
                        0 <= i < s2.routine_stack.len() ==> 0 <= #[trigger] s2.routine_stack[i]
                            <= usize::MAX);
                },
                Err(_) => {},
            }
        },
        Statement::Ret => {
            match spec_ret(s) {
                Ok(s2) => {
                    assert(forall|i: int|
                        0 <= i < s2.frames.len() ==> (#[trigger] s2.frames[i]).len()
                            == FRAME_SIZE);
                },
                Err(_) => {},
            }
        },
        _ => {},
    }
}

impl VM {
    /// 8-bit bitwise and.
    fn and(&mut self, left: &Source8, right: &Source8, destination: &Destination) -> (r: Result<
        (),
        FaultKind,
    >)
        requires
            old(self).wf(),
        ensures
            final(self).wf(),
            step_result(
                old(self)@,
                final(self)@,
                apply_statement(
                    old(self)@,
                    (Statement::And { left: *left, right: *right, destination: *destination }),
                ),
                r,
            ),
    {
        let a = match self.read(left) {
            Ok(v) => v,
            Err(k) => {
                return Err(k);
            },
        };
        let b = match self.read(right) {
            Ok(v) => v,
            Err(k) => {
                return Err(k);
            },
        };
        self.ld(&Source8::Literal(a & b), destination)
    }

    /// 8-bit bitwise or.
    fn or(&mut self, left: &Source8, right: &Source8, destination: &Destination) -> (r: Result<
        (),
        FaultKind,
    >)
        requires
            old(self).wf(),
        ensures
            final(self).wf(),
            step_result(
                old(self)@,
                final(self)@,
                apply_statement(
                    old(self)@,
                    (Statement::Or { left: *left, right: *right, destination: *destination }),
                ),
                r,
            ),
    {
        let a = match self.read(left) {
            Ok(v) => v,
            Err(k) => {
                return Err(k);
            },
        };
        let b = match self.read(right) {
            Ok(v) => v,
            Err(k) => {
                return Err(k);
            },
        };
        self.ld(&Source8::Literal(a | b), destination)
    }

    /// 8-bit bitwise exclusive or.
    fn xor(&mut self, left: &Source8, right: &Source8, destination: &Destination) -> (r: Result<
        (),
        FaultKind,
    >)
        requires
            old(self).wf(),
        ensures
            final(self).wf(),
            step_result(
                old(self)@,
                final(self)@,
                apply_statement(
                    old(self)@,
                    (Statement::Xor { left: *left, right: *right, destination: *destination }),
                ),
                r,
            ),
    {
        let a = match self.read(left) {
            Ok(v) => v,
            Err(k) => {
                return Err(k);
            },
        };
        let b = match self.read(right) {
            Ok(v) => v,
            Err(k) => {
                return Err(k);
            },
        };
        self.ld(&Source8::Literal(a ^ b), destination)
    }

    /// 8-bit multiplication; a product beyond the width is a fault.
    fn mul(&mut self, left: &Source8, right: &Source8, destination: &Destination) -> (r: Result<
        (),
        FaultKind,
    >)
        requires
            old(self).wf(),
        ensures
            final(self).wf(),
            step_result(
                old(self)@,
                final(self)@,
                apply_statement(
                    old(self)@,
                    (Statement::Mul { left: *left, right: *right, destination: *destination }),
                ),
                r,
            ),
    {
        let a = match self.read(left) {
            Ok(v) => v,
            Err(k) => {
                return Err(k);
            },
        };
        let b = match self.read(right) {
            Ok(v) => v,
            Err(k) => {
                return Err(k);
            },
        };
        proof {
            assert(a * b <= 255 * 255) by (nonlinear_arith)
                requires
                    a <= 255,
                    b <= 255,
            ;
        }
        let product = a as u16 * b as u16;
        if product > 255 {
            return Err(FaultKind::Overflow);
        }
        self.ld(&Source8::Literal(product as u8), destination)
    }

    /// 8-bit division; division by zero is a fault.
    fn div(&mut self, left: &Source8, right: &Source8, destination: &Destination) -> (r: Result<
        (),
        FaultKind,
    >)
        requires
            old(self).wf(),
        ensures
            final(self).wf(),
            step_result(
                old(self)@,
                final(self)@,
                apply_statement(
                    old(self)@,
                    (Statement::Div { left: *left, right: *right, destination: *destination }),
                ),
                r,
            ),
    {
        let a = match self.read(left) {
            Ok(v) => v,
            Err(k) => {
                return Err(k);
            },
        };
        let b = match self.read(right) {
            Ok(v) => v,
            Err(k) => {
                return Err(k);
            },
        };
        if b == 0 {
            return Err(FaultKind::DivisionByZero);
        }
        self.ld(&Source8::Literal(a / b), destination)
    }

    /// 8-bit remainder; remainder by zero is a fault.
    fn rem(&mut self, left: &Source8, right: &Source8, destination: &Destination) -> (r: Result<
        (),
        FaultKind,
    >)
        requires
            old(self).wf(),
        ensures
            final(self).wf(),
            step_result(
                old(self)@,
                final(self)@,
                apply_statement(
                    old(self)@,
                    (Statement::Rem { left: *left, right: *right, destination: *destination }),
                ),
                r,
            ),
    {
        let a = match self.read(left) {
            Ok(v) => v,
            Err(k) => {
                return Err(k);
            },
        };
        let b = match self.read(right) {
            Ok(v) => v,
            Err(k) => {
                return Err(k);
            },
        };
        if b == 0 {
            return Err(FaultKind::DivisionByZero);
        }
        self.ld(&Source8::Literal(a % b), destination)
    }

    /// 8-bit left shift; a shift amount of 8 or more is a fault.
    fn left_shift(
        &mut self,
        left: &Source8,
        right: &Source8,
        destination: &Destination,
    ) -> (r: Result<(), FaultKind>)
        requires
            old(self).wf(),
        ensures
            final(self).wf(),
            step_result(
                old(self)@,
                final(self)@,
                apply_statement(
                    old(self)@,
                    (Statement::LeftShift {
                        left: *left,
                        right: *right,
                        destination: *destination,
                    }),
                ),
                r,
            ),
    {
        let a = match self.read(left) {
            Ok(v) => v,
            Err(k) => {
                return Err(k);
            },
        };
        let b = match self.read(right) {
            Ok(v) => v,
            Err(k) => {
                return Err(k);
            },
        };
        if b >= 8 {
            return Err(FaultKind::Overflow);
        }
        self.ld(&Source8::Literal(a << b), destination)
    }

    /// 8-bit right shift; a shift amount of 8 or more is a fault.
    fn right_shift(
        &mut self,
        left: &Source8,
        right: &Source8,
        destination: &Destination,
    ) -> (r: Result<(), FaultKind>)
        requires
            old(self).wf(),
        ensures
            final(self).wf(),
            step_result(
                old(self)@,
                final(self)@,
                apply_statement(
                    old(self)@,
                    (Statement::RightShift {
                        left: *left,
                        right: *right,
                        destination: *destination,
                    }),
                ),
                r,
            ),
    {
        let a = match self.read(left) {
            Ok(v) => v,
            Err(k) => {
                return Err(k);
            },
        };
        let b = match self.read(right) {
            Ok(v) => v,
            Err(k) => {
                return Err(k);
            },
        };
        if b >= 8 {
            return Err(FaultKind::Overflow);
        }
        self.ld(&Source8::Literal(a >> b), destination)
    }

    /// Writes 1 when the operands are equal, else 0.
    fn eq(&mut self, left: &Source8, right: &Source8, destination: &Destination) -> (r: Result<
        (),
        FaultKind,
    >)
        requires
            old(self).wf(),
        ensures
            final(self).wf(),
            step_result(
                old(self)@,
                final(self)@,
                apply_statement(
                    old(self)@,
                    (Statement::Eq { left: *left, right: *right, destination: *destination }),
                ),
                r,
            ),
    {
        let a = match self.read(left) {
            Ok(v) => v,
            Err(k) => {
                return Err(k);
            },
        };
        let b = match self.read(right) {
            Ok(v) => v,
            Err(k) => {
                return Err(k);
            },
        };
        self.ld(
            &Source8::Literal(
                if a == b {
                    1
                } else {
                    0
                },
            ),
            destination,
        )
    }

    /// Writes 1 when the operands differ, else 0.
    fn not_eq(&mut self, left: &Source8, right: &Source8, destination: &Destination) -> (r: Result<
        (),
        FaultKind,
    >)
        requires
            old(self).wf(),
        ensures
            final(self).wf(),
            step_result(
                old(self)@,
                final(self)@,
                apply_statement(
                    old(self)@,
                    (Statement::NotEq { left: *left, right: *right, destination: *destination }),
                ),
                r,
            ),
    {
        let a = match self.read(left) {
            Ok(v) => v,
            Err(k) => {
                return Err(k);
            },
        };
        let b = match self.read(right) {
            Ok(v) => v,
            Err(k) => {
                return Err(k);
            },
        };
        self.ld(
            &Source8::Literal(
                if a != b {
                    1
                } else {
                    0
                },
            ),
            destination,
        )
    }

    /// Writes 1 when `left > right`, else 0.
    fn greater(&mut self, left: &Source8, right: &Source8, destination: &Destination) -> (r:
        Result<(), FaultKind>)
        requires
            old(self).wf(),
        ensures
            final(self).wf(),
            step_result(
                old(self)@,
                final(self)@,
                apply_statement(
                    old(self)@,
                    (Statement::Greater { left: *left, right: *right, destination: *destination }),
                ),
                r,
            ),
    {
        let a = match self.read(left) {
            Ok(v) => v,
            Err(k) => {
                return Err(k);
            },
        };
        let b = match self.read(right) {
            Ok(v) => v,
            Err(k) => {
                return Err(k);
            },
        };
        self.ld(
            &Source8::Literal(
                if a > b {
                    1
                } else {
                    0
                },
            ),
            destination,
        )
    }

    /// Writes 1 when `left >= right`, else 0.
    fn greater_eq(&mut self, left: &Source8, right: &Source8, destination: &Destination) -> (r:
        Result<(), FaultKind>)
        requires
            old(self).wf(),
        ensures
            final(self).wf(),
            step_result(
                old(self)@,
                final(self)@,
                apply_statement(
                    old(self)@,
                    (Statement::GreaterEq {
                        left: *left,
                        right: *right,
                        destination: *destination,
                    }),
                ),
                r,
            ),
    {
        let a = match self.read(left) {
            Ok(v) => v,
            Err(k) => {
                return Err(k);
            },
        };
        let b = match self.read(right) {
            Ok(v) => v,
            Err(k) => {
                return Err(k);
            },
        };
        self.ld(
            &Source8::Literal(
                if a >= b {
                    1
                } else {
                    0
                },
            ),
            destination,
        )
    }

    /// Writes 1 when `left < right`, else 0.
    fn less(&mut self, left: &Source8, right: &Source8, destination: &Destination) -> (r: Result<
        (),
        FaultKind,
    >)
        requires
            old(self).wf(),
        ensures
            final(self).wf(),
            step_result(
                old(self)@,
                final(self)@,
                apply_statement(
                    old(self)@,
                    (Statement::Less { left: *left, right: *right, destination: *destination }),
                ),
                r,
            ),
    {
        let a = match self.read(left) {
            Ok(v) => v,
            Err(k) => {
                return Err(k);
            },
        };
        let b = match self.read(right) {
            Ok(v) => v,
            Err(k) => {
                return Err(k);
            },
        };
        self.ld(
            &Source8::Literal(
                if a < b {
                    1
                } else {
                    0
                },
            ),
            destination,
        )
    }

    /// Writes 1 when `left <= right`, else 0.
    fn less_eq(&mut self, left: &Source8, right: &Source8, destination: &Destination) -> (r:
        Result<(), FaultKind>)
        requires
            old(self).wf(),
        ensures
            final(self).wf(),
            step_result(
                old(self)@,
                final(self)@,
                apply_statement(
                    old(self)@,
                    (Statement::LessEq { left: *left, right: *right, destination: *destination }),
                ),
                r,
            ),
    {
        let a = match self.read(left) {
            Ok(v) => v,
            Err(k) => {
                return Err(k);
            },
        };
        let b = match self.read(right) {
            Ok(v) => v,
            Err(k) => {
                return Err(k);
            },
        };
        self.ld(
            &Source8::Literal(
                if a <= b {
                    1
                } else {
                    0
                },
            ),
            destination,
        )
    }

    /// 8-bit wrapping addition.
    fn add(&mut self, left: &Source8, right: &Source8, destination: &Destination) -> (r: Result<
        (),
        FaultKind,
    >)
        requires
            old(self).wf(),
        ensures
            final(self).wf(),
            step_result(
                old(self)@,
                final(self)@,
                apply_statement(
                    old(self)@,
                    (Statement::Add { left: *left, right: *right, destination: *destination }),
                ),
                r,
            ),
    {
        let a = match self.read(left) {
            Ok(v) => v,
            Err(k) => {
                return Err(k);
            },
        };
        let b = match self.read(right) {
            Ok(v) => v,
            Err(k) => {
                return Err(k);
            },
        };
        self.ld(&Source8::Literal(a.wrapping_add(b)), destination)
    }

    /// 8-bit wrapping subtraction.
    fn sub(&mut self, left: &Source8, right: &Source8, destination: &Destination) -> (r: Result<
        (),
        FaultKind,
    >)
        requires
            old(self).wf(),
        ensures
            final(self).wf(),
            step_result(
                old(self)@,
                final(self)@,
                apply_statement(
                    old(self)@,
                    (Statement::Sub { left: *left, right: *right, destination: *destination }),
                ),
                r,
            ),
    {
        let a = match self.read(left) {
            Ok(v) => v,
            Err(k) => {
                return Err(k);
            },
        };
        let b = match self.read(right) {
            Ok(v) => v,
            Err(k) => {
                return Err(k);
            },
        };
        self.ld(&Source8::Literal(a.wrapping_sub(b)), destination)
    }

    /// 16-bit bitwise and.
    fn and16(&mut self, left: &Source16, right: &Source16, destination: &Destination) -> (r:
        Result<(), FaultKind>)
        requires
            old(self).wf(),
        ensures
            final(self).wf(),
            step_result(
                old(self)@,
                final(self)@,
                apply_statement(
                    old(self)@,
                    (Statement::AndW { left: *left, right: *right, destination: *destination }),
                ),
                r,
            ),
    {
        let a = match self.read_u16(left) {
            Ok(v) => v,
            Err(k) => {
                return Err(k);
            },
        };
        let b = match self.read_u16(right) {
            Ok(v) => v,
            Err(k) => {
                return Err(k);
            },
        };
        self.ld16(&Source16::Literal(a & b), destination)
    }

    /// 16-bit bitwise or.
    fn or16(&mut self, left: &Source16, right: &Source16, destination: &Destination) -> (r: Result<
        (),
        FaultKind,
    >)
        requires
            old(self).wf(),
        ensures
            final(self).wf(),
            step_result(
                old(self)@,
                final(self)@,
                apply_statement(
                    old(self)@,
                    (Statement::OrW { left: *left, right: *right, destination: *destination }),
                ),
                r,
            ),
    {
        let a = match self.read_u16(left) {
            Ok(v) => v,
            Err(k) => {
                return Err(k);
            },
        };
        let b = match self.read_u16(right) {
            Ok(v) => v,
            Err(k) => {
                return Err(k);
            },
        };
        self.ld16(&Source16::Literal(a | b), destination)
    }

    /// 16-bit bitwise exclusive or.
    fn xor16(&mut self, left: &Source16, right: &Source16, destination: &Destination) -> (r:
        Result<(), FaultKind>)
        requires
            old(self).wf(),
        ensures
            final(self).wf(),
            step_result(
                old(self)@,
                final(self)@,
                apply_statement(
                    old(self)@,
                    (Statement::XorW { left: *left, right: *right, destination: *destination }),
                ),
                r,
            ),
    {
        let a = match self.read_u16(left) {
            Ok(v) => v,
            Err(k) => {
                return Err(k);
            },
        };
        let b = match self.read_u16(right) {
            Ok(v) => v,
            Err(k) => {
                return Err(k);
            },
        };
        self.ld16(&Source16::Literal(a ^ b), destination)
    }

    /// 16-bit wrapping addition.
    fn add16(&mut self, left: &Source16, right: &Source16, destination: &Destination) -> (r:
        Result<(), FaultKind>)
        requires
            old(self).wf(),
        ensures
            final(self).wf(),
            step_result(
                old(self)@,
                final(self)@,
                apply_statement(
                    old(self)@,
                    (Statement::AddW { left: *left, right: *right, destination: *destination }),
                ),
                r,
            ),
    {
        let a = match self.read_u16(left) {
            Ok(v) => v,
            Err(k) => {
                return Err(k);
            },
        };
        let b = match self.read_u16(right) {
            Ok(v) => v,
            Err(k) => {
                return Err(k);
            },
        };
        self.ld16(&Source16::Literal(a.wrapping_add(b)), destination)
    }

    /// 16-bit wrapping subtraction.
    fn sub16(&mut self, left: &Source16, right: &Source16, destination: &Destination) -> (r:
        Result<(), FaultKind>)
        requires
            old(self).wf(),
        ensures
            final(self).wf(),
            step_result(
                old(self)@,
                final(self)@,
                apply_statement(
                    old(self)@,
                    (Statement::SubW { left: *left, right: *right, destination: *destination }),
                ),
                r,
            ),
    {
        let a = match self.read_u16(left) {
            Ok(v) => v,
            Err(k) => {
                return Err(k);
            },
        };
        let b = match self.read_u16(right) {
            Ok(v) => v,
            Err(k) => {
                return Err(k);
            },
        };
        self.ld16(&Source16::Literal(a.wrapping_sub(b)), destination)
    }

    /// 8-bit wrapping increment.
    fn inc(&mut self, source: &Source8, destination: &Destination) -> (r: Result<(), FaultKind>)
        requires
            old(self).wf(),
        ensures
            final(self).wf(),
            step_result(
                old(self)@,
                final(self)@,
                apply_statement(
                    old(self)@,
                    (Statement::Inc { source: *source, destination: *destination }),
                ),
                r,
            ),
    {
        let data = match self.read(source) {
            Ok(v) => v,
            Err(k) => {
                return Err(k);
            },
        };
        self.ld(&Source8::Literal(data.wrapping_add(1)), destination)
    }

    /// 8-bit wrapping decrement.
    fn dec(&mut self, source: &Source8, destination: &Destination) -> (r: Result<(), FaultKind>)
        requires
            old(self).wf(),
        ensures
            final(self).wf(),
            step_result(
                old(self)@,
                final(self)@,
                apply_statement(
                    old(self)@,
                    (Statement::Dec { source: *source, destination: *destination }),
                ),
                r,
            ),
    {
        let data = match self.read(source) {
            Ok(v) => v,
            Err(k) => {
                return Err(k);
            },
        };
        self.ld(&Source8::Literal(data.wrapping_sub(1)), destination)
    }

    /// 16-bit wrapping increment.
    fn inc16(&mut self, source: &Source16, destination: &Destination) -> (r: Result<(), FaultKind>)
        requires
            old(self).wf(),
        ensures
            final(self).wf(),
            step_result(
                old(self)@,
                final(self)@,
                apply_statement(
                    old(self)@,
                    (Statement::IncW { source: *source, destination: *destination }),
                ),
                r,
            ),
    {
        let data = match self.read_u16(source) {
            Ok(v) => v,
            Err(k) => {
                return Err(k);
            },
        };
        self.ld16(&Source16::Literal(data.wrapping_add(1)), destination)
    }

    /// 16-bit wrapping decrement.
    fn dec16(&mut self, source: &Source16, destination: &Destination) -> (r: Result<(), FaultKind>)
        requires
            old(self).wf(),
        ensures
            final(self).wf(),
            step_result(
                old(self)@,
                final(self)@,
                apply_statement(
                    old(self)@,
                    (Statement::DecW { source: *source, destination: *destination }),
                ),
                r,
            ),
    {
        let data = match self.read_u16(source) {
            Ok(v) => v,
            Err(k) => {
                return Err(k);
            },
        };
        self.ld16(&Source16::Literal(data.wrapping_sub(1)), destination)
    }

    /// Applies a relative jump to the active program counter.
    fn jmp(&mut self, location: &Location) -> (r: Result<(), FaultKind>)
        requires
            old(self).wf(),
        ensures
            final(self).wf(),
            step_result(old(self)@, final(self)@, spec_jump(old(self)@, *location), r),
    {
        match location {
            Location::Relative(rel) => {
                let top = self.pc.len() - 1;
                let pc = self.pc[top];
                if *rel >= 0 {
                    let d = *rel as usize;
                    if pc < usize::MAX - d {
                        self.pc.set(top, pc + d);
                        proof {
                            assert(self@ =~= spec_jump(old(self)@, *location)->Ok_0);
                        }
                        Ok(())
                    } else {
                        Err(FaultKind::JumpOutOfRange)
                    }
                } else {
                    let d = (-(*rel as i16)) as usize;
                    if pc >= d {
                        self.pc.set(top, pc - d);
                        proof {
                            assert(self@ =~= spec_jump(old(self)@, *location)->Ok_0);
                        }
                        Ok(())
                    } else {
                        Err(FaultKind::JumpOutOfRange)
                    }
                }
            },
        }
    }

    /// Jumps when the tested source is nonzero.
    fn cmp(&mut self, source: &Source8, location: &Location) -> (r: Result<(), FaultKind>)
        requires
            old(self).wf(),
        ensures
            final(self).wf(),
            step_result(
                old(self)@,
                final(self)@,
                apply_statement(
                    old(self)@,
                    (Statement::JmpCmp { location: *location, source: *source }),
                ),
                r,
            ),
    {
        let v = match self.read(source) {
            Ok(v) => v,
            Err(k) => {
                return Err(k);
            },
        };
        if v != 0 {
            self.jmp(location)
        } else {
            Ok(())
        }
    }

    /// Jumps when the tested source is zero.
    fn cmp_not(&mut self, source: &Source8, location: &Location) -> (r: Result<(), FaultKind>)
        requires
            old(self).wf(),
        ensures
            final(self).wf(),
            step_result(
                old(self)@,
                final(self)@,
                apply_statement(
                    old(self)@,
                    (Statement::JmpCmpNot { location: *location, source: *source }),
                ),
                r,
            ),
    {
        let v = match self.read(source) {
            Ok(v) => v,
            Err(k) => {
                return Err(k);
            },
        };
        if v == 0 {
            self.jmp(location)
        } else {
            Ok(())
        }
    }

    /// Pushes the target routine index and a fresh program counter, and
    /// builds the callee frame by copying the argument byte range from the
    /// caller's frame. The routine index is checked at the next fetch.
    fn call(&mut self, routine: usize, range: &ArgRange) -> (r: Result<(), FaultKind>)
        requires
            old(self).wf(),
            cur_pc(old(self)@) < usize::MAX,
        ensures
            final(self).wf(),
            step_result(old(self)@, final(self)@, spec_call(old(self)@, routine, *range), r),
    {
        proof {
            lemma_apply_statement_wf(old(self)@, (Statement::Call { routine, range: *range }));
        }
        if range.start > range.end || (range.end as usize) > FRAME_SIZE {
            return Err(FaultKind::BadArgRange);
        }
        let top = self.stack.len() - 1;
        let count = (range.end - range.start) as usize;
        let mut new_frame = zero_bytes(FRAME_SIZE);
        let mut i: usize = 0;
        while i < count
            invariant
                *self == *old(self),
                old(self).wf(),
                i <= count,
                count == range.end - range.start,
                range.end <= FRAME_SIZE,
                top == self@.frames.len() - 1,
                self@.frames[top as int].len() == FRAME_SIZE,
                new_frame@.len() == FRAME_SIZE,
                forall|j: int|
                    0 <= j < i ==> new_frame@[j] == cur_frame(old(self)@)[range.start + j],
                forall|j: int| i <= j < FRAME_SIZE ==> new_frame@[j] == 0u8,
            decreases count - i,
        {
            let b = self.stack[top][range.start as usize + i];
            new_frame.set(i, b);
            i = i + 1;
        }
        self.routine.push(routine);
        self.pc.push(0);
        self.stack.push(new_frame);
        proof {
            assert(new_frame@ =~= callee_frame(cur_frame(old(self)@), *range));
            assert(self@ =~= spec_call(old(self)@, routine, *range)->Ok_0);
        }
        Ok(())
    }

    /// Pops the routine, program-counter and frame stacks; with no active
    /// call this is a stack underflow.
    fn ret(&mut self) -> (r: Result<(), FaultKind>)
        requires
            old(self).wf(),
        ensures
            final(self).wf(),
            step_result(old(self)@, final(self)@, spec_ret(old(self)@), r),
    {
        if self.routine.len() == 0 {
            return Err(FaultKind::StackUnderflow);
        }
        let _ = self.routine.pop();
        let _ = self.pc.pop();
        let _ = self.stack.pop();
        proof {
            assert(self@ =~= spec_ret(old(self)@)->Ok_0);
        }
        Ok(())
    }

    /// Dispatches one statement to its semantics; the program counter is not
    /// touched here.
    fn execute(&mut self, statement: &Statement) -> (r: Result<(), FaultKind>)
        requires
            old(self).wf(),
            cur_pc(old(self)@) < usize::MAX,
        ensures
            final(self).wf(),
            step_result(
                old(self)@,
                final(self)@,
                apply_statement(old(self)@, *statement),
                r,
            ),
    {
        match statement {
            Statement::Nop => Ok(()),
            Statement::Stop => {
                self.status = Status::Stopped;
                proof {
                    assert(self@ =~= apply_statement(old(self)@, *statement)->Ok_0);
                }
                Ok(())
            },
            Statement::Ld { source, destination } => self.ld(source, destination),
            Statement::LdW { source, destination } => self.ld16(source, destination),
            Statement::Inc { source, destination } => self.inc(source, destination),
            Statement::Dec { source, destination } => self.dec(source, destination),
            Statement::IncW { source, destination } => self.inc16(source, destination),
            Statement::DecW { source, destination } => self.dec16(source, destination),
            Statement::Add { left, right, destination } => self.add(left, right, destination),
            Statement::Sub { left, right, destination } => self.sub(left, right, destination),
            Statement::And { left, right, destination } => self.and(left, right, destination),
            Statement::Or { left, right, destination } => self.or(left, right, destination),
            Statement::Xor { left, right, destination } => self.xor(left, right, destination),
            Statement::Mul { left, right, destination } => self.mul(left, right, destination),
            Statement::Div { left, right, destination } => self.div(left, right, destination),
            Statement::Rem { left, right, destination } => self.rem(left, right, destination),
            Statement::LeftShift { left, right, destination } => self.left_shift(
                left,
                right,
                destination,
            ),
            Statement::RightShift { left, right, destination } => self.right_shift(
                left,
                right,
                destination,
            ),
            Statement::Eq { left, right, destination } => self.eq(left, right, destination),
            Statement::NotEq { left, right, destination } => self.not_eq(left, right, destination),
            Statement::Greater { left, right, destination } => self.greater(
                left,
                right,
                destination,
            ),
            Statement::GreaterEq { left, right, destination } => self.greater_eq(
                left,
                right,
                destination,
            ),
            Statement::Less { left, right, destination } => self.less(left, right, destination),
            Statement::LessEq { left, right, destination } => self.less_eq(
                left,
                right,
                destination,
            ),
            Statement::AddW { left, right, destination } => self.add16(left, right, destination),
            Statement::SubW { left, right, destination } => self.sub16(left, right, destination),
            Statement::AndW { left, right, destination } => self.and16(left, right, destination),
            Statement::OrW { left, right, destination } => self.or16(left, right, destination),
            Statement::XorW { left, right, destination } => self.xor16(left, right, destination),
            Statement::MulW { left: _, right: _, destination: _ } => Err(FaultKind::Unsupported),
            Statement::DivW { left: _, right: _, destination: _ } => Err(FaultKind::Unsupported),
            Statement::RemW { left: _, right: _, destination: _ } => Err(FaultKind::Unsupported),
            Statement::LeftShiftW { left: _, right: _, destination: _ } => Err(
                FaultKind::Unsupported,
            ),
            Statement::RightShiftW { left: _, right: _, destination: _ } => Err(
                FaultKind::Unsupported,
            ),
            Statement::Jmp { location } => self.jmp(location),
            Statement::JmpCmp { location, source } => self.cmp(source, location),
            Statement::JmpCmpNot { location, source } => self.cmp_not(source, location),
            Statement::Call { routine, range } => self.call(*routine, range),
            Statement::Ret => self.ret(),
        }
    }
}

} // verus!
