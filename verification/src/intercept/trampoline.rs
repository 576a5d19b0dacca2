//! Machine code for the vDSO patch: the jump written over the start of
//! `__vdso_clock_gettime`, and the x86_64 payload it jumps to.

use vstd::prelude::*;
use vstd::bytes::{spec_u32_to_le_bytes, spec_u64_to_le_bytes, u32_to_le_bytes, u64_to_le_bytes};

verus! {

/// Size of the x86_64 absolute jump (`MOV RAX, addr; JMP RAX`).
pub const X86_64_TRAMPOLINE_SIZE: usize = 12;

/// Size of the AArch64 absolute branch (`LDR X16, [PC+8]; BR X16; addr`).
pub const AARCH64_TRAMPOLINE_SIZE: usize = 16;

/// The architectures a trampoline can be generated for.
#[derive(Debug, Clone, Copy, PartialEq, Eq, Structural)]
pub enum TargetArch {
    X86_64,
    Aarch64,
    /// Any other architecture: no trampoline exists for it.
    Other,
}

impl TargetArch {
    /// The architecture named by `std::env::consts::ARCH`-style text.
    pub fn from_name(name: &str) -> (a: TargetArch)
        ensures
            name@ == "x86_64"@ ==> a == TargetArch::X86_64,
            name@ == "aarch64"@ ==> a == TargetArch::Aarch64,
            name@ != "x86_64"@ && name@ != "aarch64"@ ==> a == TargetArch::Other,
    {
        let cs = crate::text::chars_of(name);
        proof {
            reveal_strlit("x86_64");
            reveal_strlit("aarch64");
        }
        if cs.len() == 6 && cs[0] == 'x' && cs[1] == '8' && cs[2] == '6' && cs[3] == '_' && cs[4]
            == '6' && cs[5] == '4' {
            assert(name@ =~= "x86_64"@);
            TargetArch::X86_64
        } else if cs.len() == 7 && cs[0] == 'a' && cs[1] == 'a' && cs[2] == 'r' && cs[3] == 'c'
            && cs[4] == 'h' && cs[5] == '6' && cs[6] == '4' {
            assert(name@ =~= "aarch64"@);
            TargetArch::Aarch64
        } else {
            assert(name@ != "x86_64"@ && name@ != "aarch64"@ ) by {
                if name@ == "x86_64"@ {
                    assert(cs@ =~= seq!['x', '8', '6', '_', '6', '4']);
                }
                if name@ == "aarch64"@ {
                    assert(cs@ =~= seq!['a', 'a', 'r', 'c', 'h', '6', '4']);
                }
            }
            TargetArch::Other
        }
    }
}

/// Why no trampoline could be generated.
#[derive(Debug, Clone, Copy, PartialEq, Eq, Structural)]
pub enum TrampolineError {
    /// The architecture has no vDSO trampoline.
    UnsupportedArchitecture,
}

impl TrampolineError {
    /// The error's message.
    pub fn message(&self) -> (s: String)
        ensures
            s@ == "unsupported architecture for vDSO trampoline"@,
    {
        String::from_str("unsupported architecture for vDSO trampoline")
    }
}

/// The x86_64 jump to `target`: `48 B8 <addr> FF E0`.
pub open spec fn x86_64_trampoline_bytes(target: u64) -> Seq<u8> {
    seq![0x48u8, 0xB8u8] + spec_u64_to_le_bytes(target) + seq![0xFFu8, 0xE0u8]
}

/// The AArch64 branch to `target`: `LDR X16, [PC+8]`, `BR X16`, then the address.
pub open spec fn aarch64_trampoline_bytes(target: u64) -> Seq<u8> {
    spec_u32_to_le_bytes(0x5800_0058u32) + spec_u32_to_le_bytes(0xD61F_0200u32)
        + spec_u64_to_le_bytes(target)
}

/// Generates the x86_64 absolute jump (`MOV RAX, target; JMP RAX`).
pub fn generate_x86_64_trampoline(target_addr: u64) -> (t: [u8; X86_64_TRAMPOLINE_SIZE])
    ensures
        t@ == x86_64_trampoline_bytes(target_addr),
{
    let a = u64_to_le_bytes(target_addr);
    proof {
        vstd::bytes::lemma_auto_spec_u64_to_from_le_bytes();
    }
    let t: [u8; X86_64_TRAMPOLINE_SIZE] = [
        0x48, 0xB8, a[0], a[1], a[2], a[3], a[4], a[5], a[6], a[7], 0xFF, 0xE0,
    ];
    assert(t@ =~= x86_64_trampoline_bytes(target_addr));
    t
}

/// Generates the AArch64 absolute branch (`LDR X16, [PC+8]; BR X16; target`).
pub fn generate_aarch64_trampoline(target_addr: u64) -> (t: [u8; AARCH64_TRAMPOLINE_SIZE])
    ensures
        t@ == aarch64_trampoline_bytes(target_addr),
{
    let l = u32_to_le_bytes(0x5800_0058u32);
    let b = u32_to_le_bytes(0xD61F_0200u32);
    let a = u64_to_le_bytes(target_addr);
    proof {
        vstd::bytes::lemma_auto_spec_u64_to_from_le_bytes();
        vstd::bytes::lemma_auto_spec_u32_to_from_le_bytes();
    }
    let t: [u8; AARCH64_TRAMPOLINE_SIZE] = [
        l[0], l[1], l[2], l[3], b[0], b[1], b[2], b[3], a[0], a[1], a[2], a[3], a[4], a[5], a[6],
        a[7],
    ];
    assert(t@ =~= aarch64_trampoline_bytes(target_addr));
    t
}

/// Generates the trampoline for `arch`; there is none for other architectures.
pub fn generate_trampoline(arch: TargetArch, target_addr: u64) -> (r: Result<Vec<u8>, TrampolineError>)
    ensures
        arch == TargetArch::X86_64 ==> (r matches Ok(v) && v@ == x86_64_trampoline_bytes(
            target_addr,
        )),
        arch == TargetArch::Aarch64 ==> (r matches Ok(v) && v@ == aarch64_trampoline_bytes(
            target_addr,
        )),
        arch == TargetArch::Other ==> r == Err::<Vec<u8>, TrampolineError>(
            TrampolineError::UnsupportedArchitecture,
        ),
{
    match arch {
        TargetArch::X86_64 => {
            let t = generate_x86_64_trampoline(target_addr);
            Ok(bytes_to_vec(&t))
        },
        TargetArch::Aarch64 => {
            let t = generate_aarch64_trampoline(target_addr);
            Ok(bytes_to_vec(&t))
        },
        TargetArch::Other => Err(TrampolineError::UnsupportedArchitecture),
    }
}

/// The trampoline size for `arch`, 0 where there is none.
pub fn trampoline_size(arch: TargetArch) -> (n: usize)
    ensures
        arch == TargetArch::X86_64 ==> n == X86_64_TRAMPOLINE_SIZE,
        arch == TargetArch::Aarch64 ==> n == AARCH64_TRAMPOLINE_SIZE,
        arch == TargetArch::Other ==> n == 0,
{
    match arch {
        TargetArch::X86_64 => X86_64_TRAMPOLINE_SIZE,
        TargetArch::Aarch64 => AARCH64_TRAMPOLINE_SIZE,
        TargetArch::Other => 0,
    }
}

/// A vector holding the bytes of `b`.
fn bytes_to_vec(b: &[u8]) -> (v: Vec<u8>)
    ensures
        v@ == b@,
{
    let mut v: Vec<u8> = Vec::new();
    push_bytes(&mut v, b);
    v
}

/// Appends the bytes of `b`.
fn push_bytes(v: &mut Vec<u8>, b: &[u8])
    ensures
        final(v)@ == old(v)@ + b@,
{
    let mut i: usize = 0;
    while i < b.len()
        invariant
            i <= b@.len(),
            v@ == old(v)@ + b@.take(i as int),
        decreases b@.len() - i,
    {
        v.push(b[i]);
        assert(b@.take(i + 1) =~= b@.take(i as int).push(b@[i as int]));
        i = i + 1;
    }
    assert(b@.take(b@.len() as int) =~= b@);
}

/// Function prologue: save `rbp`, `r12`, `r13`, `rbx`, reserve 16 bytes,
/// keep the arguments in `r12`/`r13`; then `mov rbx, imm64` opcode.
pub open spec fn payload_head() -> Seq<u8> {
    seq![
        0x55u8, 0x48u8, 0x89u8, 0xE5u8, 0x41u8, 0x54u8, 0x41u8, 0x55u8, 0x53u8, 0x48u8, 0x83u8,
        0xECu8, 0x10u8, 0x49u8, 0x89u8, 0xFCu8, 0x49u8, 0x89u8, 0xF5u8, 0x48u8, 0xBBu8,
    ]
}

/// `mov eax, [rbx + 24]; test eax, eax; jnz +23`, then the disabled path's
/// argument restore and `mov rax, imm64` opcode.
pub open spec fn payload_check() -> Seq<u8> {
    seq![
        0x8Bu8, 0x43u8, 0x18u8, 0x85u8, 0xC0u8, 0x0Fu8, 0x85u8, 0x17u8, 0x00u8, 0x00u8, 0x00u8,
        0x4Cu8, 0x89u8, 0xE7u8, 0x4Cu8, 0x89u8, 0xEEu8, 0x48u8, 0xB8u8,
    ]
}

/// `call rax; jmp +80` (to the epilogue), then the enabled path's argument
/// restore and `mov rax, imm64` opcode.
pub open spec fn payload_disabled_tail() -> Seq<u8> {
    seq![
        0xFFu8, 0xD0u8, 0xE9u8, 0x50u8, 0x00u8, 0x00u8, 0x00u8, 0x4Cu8, 0x89u8, 0xE7u8, 0x4Cu8,
        0x89u8, 0xEEu8, 0x48u8, 0xB8u8,
    ]
}

/// `call rax; mov rbx, rax`, then the `mov rcx, imm64` opcode.
pub open spec fn payload_call_original() -> Seq<u8> {
    seq![0xFFu8, 0xD0u8, 0x48u8, 0x89u8, 0xC3u8, 0x48u8, 0xB9u8]
}

/// Add the offsets to `tp->tv_sec` and `tp->tv_nsec`, load `tv_nsec`, then
/// the `mov rdx, imm64` opcode.
pub open spec fn payload_add_offset() -> Seq<u8> {
    seq![
        0x48u8, 0x8Bu8, 0x01u8, 0x49u8, 0x01u8, 0x45u8, 0x00u8, 0x48u8, 0x8Bu8, 0x41u8, 0x08u8,
        0x49u8, 0x01u8, 0x45u8, 0x08u8, 0x49u8, 0x8Bu8, 0x45u8, 0x08u8, 0x48u8, 0xBAu8,
    ]
}

/// `cmp rax, rdx; jl +12`, carry one second, restore the return value, then
/// the epilogue: `add rsp, 16`, pop the saved registers and `ret`.
pub open spec fn payload_tail() -> Seq<u8> {
    seq![
        0x48u8, 0x39u8, 0xD0u8, 0x7Cu8, 0x0Cu8, 0x48u8, 0x29u8, 0xD0u8, 0x49u8, 0x89u8, 0x45u8,
        0x08u8, 0x49u8, 0x83u8, 0x45u8, 0x00u8, 0x01u8, 0x48u8, 0x89u8, 0xD8u8, 0x48u8, 0x83u8,
        0xC4u8, 0x10u8, 0x5Bu8, 0x41u8, 0x5Du8, 0x41u8, 0x5Cu8, 0x5Du8, 0xC3u8,
    ]
}

/// The x86_64 payload that stands in for `clock_gettime`: it calls the
/// original code through `original_bytes_addr`, and when the control block at
/// `shm_addr` is enabled adds its offset to the returned `timespec`, carrying
/// whole seconds out of the nanoseconds.
pub open spec fn x86_64_payload_bytes(shm_addr: u64, original_bytes_addr: u64) -> Seq<u8> {
    payload_head() + spec_u64_to_le_bytes(shm_addr) + payload_check() + spec_u64_to_le_bytes(
        original_bytes_addr,
    ) + payload_disabled_tail() + spec_u64_to_le_bytes(original_bytes_addr)
        + payload_call_original() + spec_u64_to_le_bytes(shm_addr) + payload_add_offset()
        + spec_u64_to_le_bytes(1_000_000_000u64) + payload_tail()
}

/// Generates the x86_64 payload (154 bytes). The continuation and base-time
/// addresses are accepted for the payload's calling convention but not used.
pub fn generate_x86_64_payload(
    shm_addr: u64,
    original_bytes_addr: u64,
    _original_fn_continue_addr: u64,
    _base_time_addr: u64,
) -> (p: Vec<u8>)
    ensures
        p@ == x86_64_payload_bytes(shm_addr, original_bytes_addr),
        p@.len() == 154,
{
    let head: [u8; 21] = [
        0x55, 0x48, 0x89, 0xE5, 0x41, 0x54, 0x41, 0x55, 0x53, 0x48, 0x83, 0xEC, 0x10, 0x49, 0x89,
        0xFC, 0x49, 0x89, 0xF5, 0x48, 0xBB,
    ];
    let check: [u8; 19] = [
        0x8B, 0x43, 0x18, 0x85, 0xC0, 0x0F, 0x85, 0x17, 0x00, 0x00, 0x00, 0x4C, 0x89, 0xE7, 0x4C,
        0x89, 0xEE, 0x48, 0xB8,
    ];
    let disabled_tail: [u8; 15] = [
        0xFF, 0xD0, 0xE9, 0x50, 0x00, 0x00, 0x00, 0x4C, 0x89, 0xE7, 0x4C, 0x89, 0xEE, 0x48, 0xB8,
    ];
    let call_original: [u8; 7] = [0xFF, 0xD0, 0x48, 0x89, 0xC3, 0x48, 0xB9];
    let add_offset: [u8; 21] = [
        0x48, 0x8B, 0x01, 0x49, 0x01, 0x45, 0x00, 0x48, 0x8B, 0x41, 0x08, 0x49, 0x01, 0x45, 0x08,
        0x49, 0x8B, 0x45, 0x08, 0x48, 0xBA,
    ];
    let tail: [u8; 31] = [
        0x48, 0x39, 0xD0, 0x7C, 0x0C, 0x48, 0x29, 0xD0, 0x49, 0x89, 0x45, 0x08, 0x49, 0x83, 0x45,
        0x00, 0x01, 0x48, 0x89, 0xD8, 0x48, 0x83, 0xC4, 0x10, 0x5B, 0x41, 0x5D, 0x41, 0x5C, 0x5D,
        0xC3,
    ];
    assert(head@ =~= payload_head());
    assert(check@ =~= payload_check());
    assert(disabled_tail@ =~= payload_disabled_tail());
    assert(call_original@ =~= payload_call_original());
    assert(add_offset@ =~= payload_add_offset());
    assert(tail@ =~= payload_tail());
    let shm = u64_to_le_bytes(shm_addr);
    let orig = u64_to_le_bytes(original_bytes_addr);
    let billion = u64_to_le_bytes(1_000_000_000u64);
    proof {
        vstd::bytes::lemma_auto_spec_u64_to_from_le_bytes();
    }
    let mut p: Vec<u8> = Vec::new();
    push_bytes(&mut p, &head);
    push_bytes(&mut p, shm.as_slice());
    push_bytes(&mut p, &check);
    push_bytes(&mut p, orig.as_slice());
    push_bytes(&mut p, &disabled_tail);
    push_bytes(&mut p, orig.as_slice());
    push_bytes(&mut p, &call_original);
    push_bytes(&mut p, shm.as_slice());
    push_bytes(&mut p, &add_offset);
    push_bytes(&mut p, billion.as_slice());
    push_bytes(&mut p, &tail);
    assert(p@ =~= x86_64_payload_bytes(shm_addr, original_bytes_addr));
    p
}

} // verus!
