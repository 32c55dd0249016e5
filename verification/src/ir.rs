//! Intermediate representation: routines, statements, and the operand
//! addressing model.
//!
//! An [`Ir`] owns an ordered collection of routines (each an ordered sequence
//! of statements), a constant byte pool (read-only at run time), a handler
//! table naming the entry routine, and the byte-order policy used for every
//! 16-bit memory access.
//!
//! Statements reference operands through a uniform source/destination model
//! parameterized by operand width: a source is a typed pointer expression, a
//! register reference, or an immediate literal; a destination is the same
//! without literals. Pointer expressions carry an optional 8-bit sub-operand
//! whose value is added to the base address, indexing into arrays and
//! structs.

use vstd::prelude::*;

use crate::byteorder::ByteOrder;

verus! {

/// A base address into one of the five runtime address spaces.
///
/// `Absolute` and `Static` are two allocation-time tags mapping to the one
/// static runtime space: the distinction (user-fixed versus compiler-chosen
/// address) exists only at allocation time.
#[derive(Clone, Copy, PartialEq, Eq, Structural, Debug)]
pub enum Pointer {
    /// User-fixed address into the static space.
    Absolute(u16),
    /// Compiler-assigned address into the static space.
    Static(u16),
    /// Address into the read-only constant pool; writes are a fault.
    Const(u16),
    /// Address into the return space, durable across frame pops.
    Return(u16),
    /// Address relative to the currently active stack frame.
    Stack(u16),
}

/// An 8-bit operand to read: a pointer expression, a register of the 8-bit
/// bank, or an immediate literal.
#[derive(PartialEq, Eq, Debug)]
pub enum Source8 {
    /// Byte at `base` plus the value of the indexing sub-operand, if any.
    Pointer { base: Pointer, offset: Option<Box<Source8>> },
    /// Value of the 8-bit register bank at this index.
    Register(usize),
    /// The literal itself.
    Literal(u8),
}

/// A 16-bit operand to read: a pointer expression, a register of the 16-bit
/// bank, or an immediate literal. The indexing sub-operand stays 8-bit.
#[derive(PartialEq, Eq, Debug)]
pub enum Source16 {
    /// Two bytes starting at `base` plus the indexing sub-operand, if any,
    /// combined under the byte-order policy.
    Pointer { base: Pointer, offset: Option<Box<Source8>> },
    /// Value of the 16-bit register bank at this index.
    Register(usize),
    /// The literal itself.
    Literal(u16),
}

/// A place to write: a pointer expression or a register. Destinations never
/// admit literals.
#[derive(PartialEq, Eq, Debug)]
pub enum Destination {
    /// Byte (or two bytes, at 16-bit width) at `base` plus the indexing
    /// sub-operand, if any.
    Pointer { base: Pointer, offset: Option<Box<Source8>> },
    /// Register of the bank matching the operand width.
    Register(usize),
}

/// A jump target.
#[derive(Clone, Copy, PartialEq, Eq, Structural, Debug)]
pub enum Location {
    /// Signed offset added to the current program counter.
    Relative(i8),
}

/// The byte range `[start, end)` of the caller's stack frame copied into the
/// start of the callee's frame by a `Call`.
#[derive(Clone, Copy, PartialEq, Eq, Structural, Debug)]
pub struct ArgRange {
    pub start: u16,
    pub end: u16,
}

/// One instruction of the virtual machine.
#[derive(PartialEq, Eq, Debug)]
pub enum Statement {
    /// No effect.
    Nop,
    /// Ends execution: the one transition to the stopped state.
    Stop,
    /// 8-bit copy from source to destination.
    Ld { source: Source8, destination: Destination },
    /// 16-bit copy from source to destination.
    LdW { source: Source16, destination: Destination },
    /// 8-bit wrapping increment.
    Inc { source: Source8, destination: Destination },
    /// 8-bit wrapping decrement.
    Dec { source: Source8, destination: Destination },
    /// 16-bit wrapping increment.
    IncW { source: Source16, destination: Destination },
    /// 16-bit wrapping decrement.
    DecW { source: Source16, destination: Destination },
    /// 8-bit wrapping addition.
    Add { left: Source8, right: Source8, destination: Destination },
    /// 8-bit wrapping subtraction.
    Sub { left: Source8, right: Source8, destination: Destination },
    /// 8-bit bitwise and.
    And { left: Source8, right: Source8, destination: Destination },
    /// 8-bit bitwise or.
    Or { left: Source8, right: Source8, destination: Destination },
    /// 8-bit bitwise exclusive or.
    Xor { left: Source8, right: Source8, destination: Destination },
    /// 8-bit multiplication; not wrapping, overflow is a fault.
    Mul { left: Source8, right: Source8, destination: Destination },
    /// 8-bit division; division by zero is a fault.
    Div { left: Source8, right: Source8, destination: Destination },
    /// 8-bit remainder; remainder by zero is a fault.
    Rem { left: Source8, right: Source8, destination: Destination },
    /// 8-bit left shift; a shift amount of 8 or more is a fault.
    LeftShift { left: Source8, right: Source8, destination: Destination },
    /// 8-bit right shift; a shift amount of 8 or more is a fault.
    RightShift { left: Source8, right: Source8, destination: Destination },
    /// Writes 1 when the operands are equal, else 0.
    Eq { left: Source8, right: Source8, destination: Destination },
    /// Writes 1 when the operands differ, else 0.
    NotEq { left: Source8, right: Source8, destination: Destination },
    /// Writes 1 when `left > right`, else 0.
    Greater { left: Source8, right: Source8, destination: Destination },
    /// Writes 1 when `left >= right`, else 0.
    GreaterEq { left: Source8, right: Source8, destination: Destination },
    /// Writes 1 when `left < right`, else 0.
    Less { left: Source8, right: Source8, destination: Destination },
    /// Writes 1 when `left <= right`, else 0.
    LessEq { left: Source8, right: Source8, destination: Destination },
    /// 16-bit wrapping addition.
    AddW { left: Source16, right: Source16, destination: Destination },
    /// 16-bit wrapping subtraction.
    SubW { left: Source16, right: Source16, destination: Destination },
    /// 16-bit bitwise and.
    AndW { left: Source16, right: Source16, destination: Destination },
    /// 16-bit bitwise or.
    OrW { left: Source16, right: Source16, destination: Destination },
    /// 16-bit bitwise exclusive or.
    XorW { left: Source16, right: Source16, destination: Destination },
    /// 16-bit multiplication; unimplemented, executing it is a fault.
    MulW { left: Source16, right: Source16, destination: Destination },
    /// 16-bit division; unimplemented, executing it is a fault.
    DivW { left: Source16, right: Source16, destination: Destination },
    /// 16-bit remainder; unimplemented, executing it is a fault.
    RemW { left: Source16, right: Source16, destination: Destination },
    /// 16-bit left shift; unimplemented, executing it is a fault.
    LeftShiftW { left: Source16, right: Source16, destination: Destination },
    /// 16-bit right shift; unimplemented, executing it is a fault.
    RightShiftW { left: Source16, right: Source16, destination: Destination },
    /// Unconditional relative jump.
    Jmp { location: Location },
    /// Jumps when the tested 8-bit source is nonzero.
    JmpCmp { location: Location, source: Source8 },
    /// Jumps when the tested 8-bit source is zero.
    JmpCmpNot { location: Location, source: Source8 },
    /// Pushes the target routine and a fresh program counter, and builds a
    /// new stack frame from a byte range of the caller's frame.
    Call { routine: usize, range: ArgRange },
    /// Pops the routine, program-counter and frame stacks, resuming the
    /// caller after its call statement.
    Ret,
}

/// A named unit of call and return: an ordered sequence of statements.
pub struct Routine {
    pub statements: Vec<Statement>,
}

/// Handler table: names the distinguished routines of an [`Ir`].
#[derive(Clone, Copy, PartialEq, Eq, Structural, Debug)]
pub struct Handlers {
    /// Index of the entry routine.
    pub main: usize,
}

/// A completed intermediate representation, ready to execute.
pub struct Ir {
    /// The routine table; `Call` statements and the handler table index it.
    pub routines: Vec<Routine>,
    /// The constant pool: read-only bytes (ROM).
    pub const_: Vec<u8>,
    /// Names the entry routine.
    pub handlers: Handlers,
    /// Byte-order policy for every 16-bit memory access.
    pub byteorder: ByteOrder,
}

impl Clone for Source8 {
    /// An exact structural copy.
    fn clone(&self) -> (r: Self)
        ensures
            r == *self,
        decreases self,
    {
        match self {
            Source8::Pointer { base, offset } => Source8::Pointer {
                base: *base,
                offset: (match offset {
                    Some(o) => Some(Box::new((&**o).clone())),
                    None => None,
                }),
            },
            Source8::Register(index) => Source8::Register(*index),
            Source8::Literal(value) => Source8::Literal(*value),
        }
    }
}

impl Clone for Source16 {
    /// An exact structural copy.
    fn clone(&self) -> (r: Self)
        ensures
            r == *self,
    {
        match self {
            Source16::Pointer { base, offset } => Source16::Pointer {
                base: *base,
                offset: (match offset {
                    Some(o) => Some(Box::new((&**o).clone())),
                    None => None,
                }),
            },
            Source16::Register(index) => Source16::Register(*index),
            Source16::Literal(value) => Source16::Literal(*value),
        }
    }
}

impl Clone for Destination {
    /// An exact structural copy.
    fn clone(&self) -> (r: Self)
        ensures
            r == *self,
    {
        match self {
            Destination::Pointer { base, offset } => Destination::Pointer {
                base: *base,
                offset: (match offset {
                    Some(o) => Some(Box::new((&**o).clone())),
                    None => None,
                }),
            },
            Destination::Register(index) => Destination::Register(*index),
        }
    }
}

impl Clone for Statement {
    /// An exact structural copy.
    fn clone(&self) -> (r: Self)
        ensures
            r == *self,
    {
        match self {
            Statement::Nop => Statement::Nop,
            Statement::Stop => Statement::Stop,
            Statement::Ld { source, destination } => Statement::Ld {
                source: source.clone(),
                destination: destination.clone(),
            },
            Statement::LdW { source, destination } => Statement::LdW {
                source: source.clone(),
                destination: destination.clone(),
            },
            Statement::Inc { source, destination } => Statement::Inc {
                source: source.clone(),
                destination: destination.clone(),
            },
            Statement::Dec { source, destination } => Statement::Dec {
                source: source.clone(),
                destination: destination.clone(),
            },
            Statement::IncW { source, destination } => Statement::IncW {
                source: source.clone(),
                destination: destination.clone(),
            },
            Statement::DecW { source, destination } => Statement::DecW {
                source: source.clone(),
                destination: destination.clone(),
            },
            Statement::Add { left, right, destination } => Statement::Add {
                left: left.clone(),
                right: right.clone(),
                destination: destination.clone(),
            },
            Statement::Sub { left, right, destination } => Statement::Sub {
                left: left.clone(),
                right: right.clone(),
                destination: destination.clone(),
            },
            Statement::And { left, right, destination } => Statement::And {
                left: left.clone(),
                right: right.clone(),
                destination: destination.clone(),
            },
            Statement::Or { left, right, destination } => Statement::Or {
                left: left.clone(),
                right: right.clone(),
                destination: destination.clone(),
            },
            Statement::Xor { left, right, destination } => Statement::Xor {
                left: left.clone(),
                right: right.clone(),
                destination: destination.clone(),
            },
            Statement::Mul { left, right, destination } => Statement::Mul {
                left: left.clone(),
                right: right.clone(),
                destination: destination.clone(),
            },
            Statement::Div { left, right, destination } => Statement::Div {
                left: left.clone(),
                right: right.clone(),
                destination: destination.clone(),
            },
            Statement::Rem { left, right, destination } => Statement::Rem {
                left: left.clone(),
                right: right.clone(),
                destination: destination.clone(),
            },
            Statement::LeftShift { left, right, destination } => Statement::LeftShift {
                left: left.clone(),
                right: right.clone(),
                destination: destination.clone(),
            },
            Statement::RightShift { left, right, destination } => Statement::RightShift {
                left: left.clone(),
                right: right.clone(),
                destination: destination.clone(),
            },
            Statement::Eq { left, right, destination } => Statement::Eq {
                left: left.clone(),
                right: right.clone(),
                destination: destination.clone(),
            },
            Statement::NotEq { left, right, destination } => Statement::NotEq {
                left: left.clone(),
                right: right.clone(),
                destination: destination.clone(),
            },
            Statement::Greater { left, right, destination } => Statement::Greater {
                left: left.clone(),
                right: right.clone(),
                destination: destination.clone(),
            },
            Statement::GreaterEq { left, right, destination } => Statement::GreaterEq {
                left: left.clone(),
                right: right.clone(),
                destination: destination.clone(),
            },
            Statement::Less { left, right, destination } => Statement::Less {
                left: left.clone(),
                right: right.clone(),
                destination: destination.clone(),
            },
            Statement::LessEq { left, right, destination } => Statement::LessEq {
                left: left.clone(),
                right: right.clone(),
                destination: destination.clone(),
            },
            Statement::AddW { left, right, destination } => Statement::AddW {
                left: left.clone(),
                right: right.clone(),
                destination: destination.clone(),
            },
            Statement::SubW { left, right, destination } => Statement::SubW {
                left: left.clone(),
                right: right.clone(),
                destination: destination.clone(),
            },
            Statement::AndW { left, right, destination } => Statement::AndW {
                left: left.clone(),
                right: right.clone(),
                destination: destination.clone(),
            },
            Statement::OrW { left, right, destination } => Statement::OrW {
                left: left.clone(),
                right: right.clone(),
                destination: destination.clone(),
            },
            Statement::XorW { left, right, destination } => Statement::XorW {
                left: left.clone(),
                right: right.clone(),
                destination: destination.clone(),
            },
            Statement::MulW { left, right, destination } => Statement::MulW {
                left: left.clone(),
                right: right.clone(),
                destination: destination.clone(),
            },
            Statement::DivW { left, right, destination } => Statement::DivW {
                left: left.clone(),
                right: right.clone(),
                destination: destination.clone(),
            },
            Statement::RemW { left, right, destination } => Statement::RemW {
                left: left.clone(),
                right: right.clone(),
                destination: destination.clone(),
            },
            Statement::LeftShiftW { left, right, destination } => Statement::LeftShiftW {
                left: left.clone(),
                right: right.clone(),
                destination: destination.clone(),
            },
            Statement::RightShiftW { left, right, destination } => Statement::RightShiftW {
                left: left.clone(),
                right: right.clone(),
                destination: destination.clone(),
            },
            Statement::Jmp { location } => Statement::Jmp { location: *location },
            Statement::JmpCmp { location, source } => Statement::JmpCmp {
                location: *location,
                source: source.clone(),
            },
            Statement::JmpCmpNot { location, source } => Statement::JmpCmpNot {
                location: *location,
                source: source.clone(),
            },
            Statement::Call { routine, range } => Statement::Call {
                routine: *routine,
                range: *range,
            },
            Statement::Ret => Statement::Ret,
        }
    }
}

} // verus!
