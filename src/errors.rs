//! Error kinds of memory, builtins and the virtual machine.
use crate::felt::Felt;
use crate::relocatable::{MaybeRelocatable, Relocatable};
use vstd::prelude::*;

verus! {

#[derive(Debug, PartialEq)]
pub enum MemoryError {
    UnallocatedSegment(usize, usize),
    AddressNotRelocatable,
    NumOutOfBounds,
    FoundNonInt,
    InconsistentMemory(MaybeRelocatable, MaybeRelocatable, MaybeRelocatable),
    EffectiveSizesNotCalled,
    Relocation,
    WriteArg,
    AddressInTemporarySegment(isize),
    AddressNotInTemporarySegment(isize),
    TemporarySegmentInRelocation(isize),
    NonZeroOffset(usize),
    DuplicatedRelocation(isize),
    MissingAccessedAddresses,
    MissingSegmentUsedSizes,
    SegmentNotFinalized(usize),
    InvalidMemoryValue(Relocatable, MaybeRelocatable),
    GetRangeMemoryGap,
    ErrorCalculatingMemoryUnits,
    InsufficientAllocatedCells,
    MissingMemoryCells(&'static str),
    MissingMemoryCellsWithOffsets(&'static str, Vec<usize>),
    InitializingVerifyingKey(Vec<u8>),
    InvalidSignature,
    SignatureNotFound,
    ErrorParsingPubKey(String),
    ErrorRetrievingMessage(String),
    ErrorVerifyingSignature,
}

#[derive(Debug, PartialEq)]
pub enum RunnerError {
    IntegerBiggerThanPowerOfTwo(MaybeRelocatable, u32, Felt),
    InvalidStopPointer(String),
    FinalStack,
    MemoryError(MemoryError),
}

/// An error, if any, is no error-message wrapper.
pub open spec fn unwrapped<T>(r: Result<T, VirtualMachineError>) -> bool {
    r is Err ==> !(r->Err_0 is ErrorMessageAttribute)
}

#[derive(Debug, PartialEq)]
pub enum VirtualMachineError {
    InvalidInstructionEncoding,
    InvalidDstReg(u64),
    InvalidOp0Reg(u64),
    InvalidOp1Reg(u64),
    InvalidRes(u64),
    InvalidPcUpdate(u64),
    InvalidApUpdate(u64),
    InvalidOpcode(u64),
    NonZeroHighBit,
    NoImm,
    PureValue,
    ImmShouldBe1,
    UnknownOp0,
    CantSubOffset(usize, usize),
    OffsetOverflow(usize, usize),
    DiffIndexSub,
    OffsetExceeded(Felt),
    FailedToComputeOperands,
    NoDst,
    UnconstrainedResAdd,
    UnconstrainedResJump,
    UnconstrainedResJumpRel,
    UnconstrainedResAssertEq,
    DiffAssertValues(Felt, Felt),
    CantWriteReturnPc(MaybeRelocatable, MaybeRelocatable),
    CantWriteReturnFp(MaybeRelocatable, MaybeRelocatable),
    BigintToUsizeFail,
    ExpectedInteger(Relocatable),
    ExpectedRelocatable(Relocatable),
    NoneInMemoryRange,
    ExpectedIntAtRange(Option<MaybeRelocatable>),
    KeccakMaxSize(Felt, Felt),
    InvalidKeccakInputLength(Felt),
    InvalidWordSize(Felt),
    NoRangeCheckBuiltin,
    NoSignatureBuiltin,
    NoScopeError,
    StepCounterOverflow,
    FailedToGetIds,
    InconsistentAutoDeduction(String, MaybeRelocatable, Option<MaybeRelocatable>),
    MemoryError(MemoryError),
    RunnerError(RunnerError),
    ErrorMessageAttribute(String, Box<VirtualMachineError>),
}

} // verus!
