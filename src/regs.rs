//! Registers of a sample: which ones the unwinder starts from, per
//! architecture, and reading the copied stack.
use vstd::prelude::*;
use crate::rss::{read_u64, uint_at, Endianness};

verus! {

/// The user registers of a sample, by perf register number.
#[derive(Clone, Debug)]
pub struct SampleRegs {
    pub values: Vec<Option<u64>>,
}

impl SampleRegs {
    pub open spec fn spec_get(&self, reg: u64) -> Option<u64> {
        if reg < self.values@.len() { self.values@[reg as int] } else { None }
    }

    /// The value of register `reg`, if the sample has it.
    pub fn get(&self, reg: u64) -> (r: Option<u64>)
        ensures
            r == self.spec_get(reg),
    {
        if reg < self.values.len() as u64 { self.values[reg as usize] } else { None }
    }
}

pub const PERF_REG_X86_BP: u64 = 6;
pub const PERF_REG_X86_SP: u64 = 7;
pub const PERF_REG_X86_IP: u64 = 8;
pub const PERF_REG_ARM64_X29: u64 = 29;
pub const PERF_REG_ARM64_LR: u64 = 30;
pub const PERF_REG_ARM64_SP: u64 = 31;
pub const PERF_REG_ARM64_PC: u64 = 32;

/// The registers that x86-64 unwinding starts from.
#[derive(Clone, Copy, Debug, PartialEq, Eq, Structural)]
pub struct UnwindRegsX86_64 {
    pub ip: u64,
    pub sp: u64,
    pub bp: u64,
}

/// The registers that aarch64 unwinding starts from.
#[derive(Clone, Copy, Debug, PartialEq, Eq, Structural)]
pub struct UnwindRegsAarch64 {
    pub lr: u64,
    pub sp: u64,
    pub fp: u64,
}

/// Per-architecture choice of registers.
pub trait ConvertRegs {
    type UnwindRegs;

    spec fn spec_convert_regs(regs: &SampleRegs) -> Option<(u64, u64, Self::UnwindRegs)>;

    spec fn spec_regs_mask() -> u64;

    /// The program counter, the stack pointer, and the unwinder's starting
    /// registers; none if the sample lacks one of them.
    fn convert_regs(regs: &SampleRegs) -> (r: Option<(u64, u64, Self::UnwindRegs)>)
        ensures
            r == Self::spec_convert_regs(regs);

    /// The registers to record, one bit per register number.
    fn regs_mask() -> (r: u64)
        ensures
            r == Self::spec_regs_mask();
}

pub struct ConvertRegsX86_64;

pub struct ConvertRegsAarch64;

impl ConvertRegs for ConvertRegsX86_64 {
    type UnwindRegs = UnwindRegsX86_64;

    open spec fn spec_convert_regs(regs: &SampleRegs) -> Option<(u64, u64, UnwindRegsX86_64)> {
        match (regs.spec_get(PERF_REG_X86_IP), regs.spec_get(PERF_REG_X86_SP), regs.spec_get(PERF_REG_X86_BP)) {
            (Some(ip), Some(sp), Some(bp)) => Some((ip, sp, UnwindRegsX86_64 { ip, sp, bp })),
            _ => None,
        }
    }

    open spec fn spec_regs_mask() -> u64 {
        (1u64 << 8u64) | (1u64 << 7u64) | (1u64 << 6u64)
    }

    fn convert_regs(regs: &SampleRegs) -> (r: Option<(u64, u64, UnwindRegsX86_64)>) {
        match (regs.get(PERF_REG_X86_IP), regs.get(PERF_REG_X86_SP), regs.get(PERF_REG_X86_BP)) {
            (Some(ip), Some(sp), Some(bp)) => Some((ip, sp, UnwindRegsX86_64 { ip, sp, bp })),
            _ => None,
        }
    }

    fn regs_mask() -> (r: u64) {
        (1u64 << 8u64) | (1u64 << 7u64) | (1u64 << 6u64)
    }
}

impl ConvertRegs for ConvertRegsAarch64 {
    type UnwindRegs = UnwindRegsAarch64;

    open spec fn spec_convert_regs(regs: &SampleRegs) -> Option<(u64, u64, UnwindRegsAarch64)> {
        match (
            regs.spec_get(PERF_REG_ARM64_PC),
            regs.spec_get(PERF_REG_ARM64_LR),
            regs.spec_get(PERF_REG_ARM64_SP),
            regs.spec_get(PERF_REG_ARM64_X29),
        ) {
            (Some(pc), Some(lr), Some(sp), Some(fp)) => Some((pc, sp, UnwindRegsAarch64 { lr, sp, fp })),
            _ => None,
        }
    }

    open spec fn spec_regs_mask() -> u64 {
        (1u64 << 32u64) | (1u64 << 30u64) | (1u64 << 31u64) | (1u64 << 29u64)
    }

    fn convert_regs(regs: &SampleRegs) -> (r: Option<(u64, u64, UnwindRegsAarch64)>) {
        match (
            regs.get(PERF_REG_ARM64_PC),
            regs.get(PERF_REG_ARM64_LR),
            regs.get(PERF_REG_ARM64_SP),
            regs.get(PERF_REG_ARM64_X29),
        ) {
            (Some(pc), Some(lr), Some(sp), Some(fp)) => Some((pc, sp, UnwindRegsAarch64 { lr, sp, fp })),
            _ => None,
        }
    }

    fn regs_mask() -> (r: u64) {
        (1u64 << 32u64) | (1u64 << 30u64) | (1u64 << 31u64) | (1u64 << 29u64)
    }
}

/// The word that the unwinder reads at `addr`, from the stack bytes copied
/// from `sp` upwards: the little-endian word at index `(addr - sp) / 8`.
pub open spec fn spec_read_stack(stack: Seq<u8>, sp: u64, addr: u64) -> Option<u64> {
    if addr < sp {
        None
    } else {
        let i = (addr - sp) / 8;
        if i * 8 + 8 <= stack.len() {
            Some(uint_at(stack, i * 8, 8, Endianness::LittleEndian) as u64)
        } else {
            None
        }
    }
}

/// Reads the word at `addr` of the copied stack (see `spec_read_stack`).
pub fn read_stack_word(stack: &[u8], sp: u64, addr: u64) -> (r: Option<u64>)
    ensures
        r == spec_read_stack(stack@, sp, addr),
{
    let n = stack.len();
    if addr < sp {
        return None;
    }
    let index = (addr - sp) / 8;
    let words = (n / 8) as u64;
    proof {
        let ii = index as int;
        let nn = n as int;
        assert(ii < nn / 8 <==> ii * 8 + 8 <= nn) by (nonlinear_arith)
            requires 0 <= ii, 0 <= nn;
    }
    if index < words {
        let i = index as usize;
        proof {
            assert(i * 8 + 8 <= n) by (nonlinear_arith)
                requires i < n / 8, 0 <= i;
        }
        Some(read_u64(stack, i * 8, Endianness::LittleEndian))
    } else {
        None
    }
}

} // verus!
