//! The layout of a vDSO injection: what goes where in the region allocated
//! in the target, and how the `mmap` result is read. The ptrace and memory
//! traffic itself is done by the caller.

use vstd::prelude::*;
use crate::intercept::control::TimeControl;

verus! {

/// Configuration for a vDSO injection.
#[derive(Debug, Clone)]
pub struct InjectionConfig {
    /// Target process ID.
    pub pid: u32,
    /// Time manipulation settings.
    pub time_control: TimeControl,
}

/// Where the parts of an injection live in the region allocated in the
/// target: payload code first, then the control block, the saved original
/// bytes and an 8-byte base-time slot.
#[derive(Debug, Clone, Copy, PartialEq, Eq, Structural)]
pub struct InjectionLayout {
    /// Bytes to allocate.
    pub total_size: usize,
    /// Address of the shared control block.
    pub shm_addr: u64,
    /// Address of the saved original function bytes.
    pub saved_bytes_addr: u64,
    /// Address of the base real-time snapshot.
    pub base_time_addr: u64,
}

/// Lays out an injection region at `alloc_addr` for a payload of
/// `payload_size` bytes and a trampoline of `tramp_size` bytes.
pub fn injection_layout(alloc_addr: u64, payload_size: usize, tramp_size: usize) -> (l: InjectionLayout)
    requires
        payload_size + TimeControl::SIZE + tramp_size + 8 <= usize::MAX,
        alloc_addr + payload_size + TimeControl::SIZE + tramp_size <= u64::MAX,
    ensures
        l.total_size == payload_size + TimeControl::SIZE + tramp_size + 8,
        l.shm_addr == alloc_addr + payload_size,
        l.saved_bytes_addr == alloc_addr + payload_size + TimeControl::SIZE,
        l.base_time_addr == alloc_addr + payload_size + TimeControl::SIZE + tramp_size,
{
    let total_size = payload_size + TimeControl::SIZE + tramp_size + 8;
    let shm_addr = alloc_addr + payload_size as u64;
    let saved_bytes_addr = shm_addr + TimeControl::SIZE as u64;
    let base_time_addr = saved_bytes_addr + tramp_size as u64;
    InjectionLayout { total_size, shm_addr, saved_bytes_addr, base_time_addr }
}

/// Reads the value an injected `mmap` left in the result register: an
/// address, or (for the top 4095 values) a negated errno, returned as the
/// error code.
pub fn mmap_outcome(raw: u64) -> (r: Result<u64, i64>)
    ensures
        raw <= 0xFFFF_FFFF_FFFF_F000 ==> r == Ok::<u64, i64>(raw),
        raw > 0xFFFF_FFFF_FFFF_F000 ==> r == Err::<u64, i64>((0x1_0000_0000_0000_0000 - raw) as i64),
{
    if raw > 0xFFFF_FFFF_FFFF_F000 {
        let code = (0xFFFF_FFFF_FFFF_FFFFu64 - raw) + 1;
        Err(code as i64)
    } else {
        Ok(raw)
    }
}

} // verus!
