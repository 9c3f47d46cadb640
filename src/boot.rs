//! The reset sequence of each core, as the ordered list of steps that the
//! entry routine performs.
use vstd::prelude::*;
use crate::clock::{CTIMER0_TCR, TCR_HOLD_IN_RESET};
use crate::mailbox::NVIC_ISER;
use crate::RegisterWrite;
use crate::vectors::CoreRole;

verus! {

/// Clock-enable set register for the SRAM banks and the mailbox.
pub const SYSCON_AHBCLKCTRLSET0: usize = 0x4000_0220;

/// Clock-enable set register for the timer.
pub const SYSCON_AHBCLKCTRLSET1: usize = 0x4000_0224;

/// Slave core control register.
pub const SYSCON_CPUCTRL: usize = 0x4000_0800;

/// Slave boot (entry) address register.
pub const SYSCON_CPBOOT: usize = 0x4000_0804;

/// Slave initial stack pointer register.
pub const SYSCON_CPSTACK: usize = 0x4000_0808;

/// Vector table base register of the running core.
pub const SCB_VTOR: usize = 0xE000_ED08;

/// Coprocessor access control register of the running core.
pub const SCB_CPACR: usize = 0xE000_ED88;

/// Where the slave's vector table starts; its first two words are the
/// slave's initial stack pointer and entry address.
pub const SLAVE_VECTORS: u32 = 0x0002_0000;

/// Clocks for SRAM1, SRAM2 and the mailbox.
pub const SHARED_AND_MAILBOX_CLOCKS: u32 = 0x0400_0018;

/// Clock for the timer.
pub const CTIMER0_CLOCK: u32 = 0x0400_0000;

/// Slave control: clock enabled, core held in reset.
pub const CPUCTRL_HOLD: u32 = 0xc0c4_806d;

/// Slave control: clock enabled, core released from reset.
pub const CPUCTRL_RELEASE: u32 = 0xc0c4_804d;

/// Full access for the two floating-point coprocessors.
pub const CPACR_FPU_FULL_ACCESS: u32 = 0x00f0_0000;

/// One step of a core's reset sequence.
#[derive(Clone, Copy, Debug, PartialEq, Eq, Structural)]
pub enum BootStep {
    /// A volatile store.
    Write(RegisterWrite),
    /// A volatile read-modify-write that sets `mask` in the register.
    SetBits { addr: usize, mask: u32 },
    /// A full barrier: no memory access moves across it.
    Fence,
    /// Copy the shared region's initial values from the program image.
    InitShared,
    /// Zero the core's uninitialized-data region.
    ZeroBss,
    /// Copy the core's initialized-data region from the program image.
    InitData,
    /// Transfer control to the user entry point; never returns.
    EnterMain,
}

/// The store that releases the slave core from reset.
pub open spec fn release_slave() -> BootStep {
    BootStep::Write(RegisterWrite { addr: SYSCON_CPUCTRL, value: CPUCTRL_RELEASE })
}

/// The store that clocks the slave core while holding it in reset.
pub open spec fn hold_slave() -> BootStep {
    BootStep::Write(RegisterWrite { addr: SYSCON_CPUCTRL, value: CPUCTRL_HOLD })
}

/// Steps that both cores run last, in order, before user code.
pub open spec fn common_tail(role: CoreRole) -> Seq<BootStep> {
    seq![
        BootStep::Write(RegisterWrite { addr: NVIC_ISER, value: 0x8000_0000 }),
        BootStep::ZeroBss,
        BootStep::InitData,
        BootStep::Fence,
    ] + if role == CoreRole::Master {
        seq![
            BootStep::SetBits { addr: SCB_CPACR, mask: CPACR_FPU_FULL_ACCESS },
            BootStep::EnterMain,
        ]
    } else {
        seq![BootStep::EnterMain]
    }
}

/// The master's own part: clocks, timer held in reset, shared memory
/// initialized between two barriers, then the slave's stack and entry, and
/// the slave released by two separate stores.
pub open spec fn master_head(slave_stack: u32, slave_entry: u32) -> Seq<BootStep> {
    seq![
        BootStep::Write(RegisterWrite { addr: SYSCON_AHBCLKCTRLSET0, value: SHARED_AND_MAILBOX_CLOCKS }),
        BootStep::Write(RegisterWrite { addr: SYSCON_AHBCLKCTRLSET1, value: CTIMER0_CLOCK }),
        BootStep::Write(RegisterWrite { addr: CTIMER0_TCR, value: TCR_HOLD_IN_RESET }),
        BootStep::Fence,
        BootStep::InitShared,
        BootStep::Fence,
        BootStep::Write(RegisterWrite { addr: SYSCON_CPSTACK, value: slave_stack }),
        BootStep::Write(RegisterWrite { addr: SYSCON_CPBOOT, value: slave_entry }),
        hold_slave(),
        release_slave(),
    ]
}

/// The slave's own part: point the vector table base at its real table.
pub open spec fn slave_head() -> Seq<BootStep> {
    seq![BootStep::Write(RegisterWrite { addr: SCB_VTOR, value: SLAVE_VECTORS })]
}

/// The whole reset sequence of `role`'s core.
pub open spec fn boot_sequence(role: CoreRole, slave_stack: u32, slave_entry: u32) -> Seq<BootStep> {
    if role == CoreRole::Master {
        master_head(slave_stack, slave_entry) + common_tail(role)
    } else {
        slave_head() + common_tail(role)
    }
}

/// Step `k` of `role`'s reset sequence, or `None` past its end. Needs no
/// allocation, so the reset handler can run it before memory is set up.
pub fn boot_step(role: CoreRole, slave_stack: u32, slave_entry: u32, k: usize) -> (r: Option<BootStep>)
    ensures
        k < boot_sequence(role, slave_stack, slave_entry).len() ==> r == Some(
            boot_sequence(role, slave_stack, slave_entry)[k as int],
        ),
        k >= boot_sequence(role, slave_stack, slave_entry).len() ==> r is None,
{
    let master = role == CoreRole::Master;
    let head: usize = if master { 10 } else { 1 };
    let st = if k < head {
        if master {
            match k {
                0 => BootStep::Write(RegisterWrite { addr: SYSCON_AHBCLKCTRLSET0, value: SHARED_AND_MAILBOX_CLOCKS }),
                1 => BootStep::Write(RegisterWrite { addr: SYSCON_AHBCLKCTRLSET1, value: CTIMER0_CLOCK }),
                2 => BootStep::Write(RegisterWrite { addr: CTIMER0_TCR, value: TCR_HOLD_IN_RESET }),
                3 => BootStep::Fence,
                4 => BootStep::InitShared,
                5 => BootStep::Fence,
                6 => BootStep::Write(RegisterWrite { addr: SYSCON_CPSTACK, value: slave_stack }),
                7 => BootStep::Write(RegisterWrite { addr: SYSCON_CPBOOT, value: slave_entry }),
                8 => BootStep::Write(RegisterWrite { addr: SYSCON_CPUCTRL, value: CPUCTRL_HOLD }),
                _ => BootStep::Write(RegisterWrite { addr: SYSCON_CPUCTRL, value: CPUCTRL_RELEASE }),
            }
        } else {
            BootStep::Write(RegisterWrite { addr: SCB_VTOR, value: SLAVE_VECTORS })
        }
    } else {
        let j = k - head;
        if j == 0 {
            BootStep::Write(crate::mailbox::unmask_mailbox())
        } else if j == 1 {
            BootStep::ZeroBss
        } else if j == 2 {
            BootStep::InitData
        } else if j == 3 {
            BootStep::Fence
        } else if j == 4 && master {
            BootStep::SetBits { addr: SCB_CPACR, mask: CPACR_FPU_FULL_ACCESS }
        } else if (j == 4 && !master) || (j == 5 && master) {
            BootStep::EnterMain
        } else {
            return None;
        }
    };
    assert(1u32 << 31u8 == 0x8000_0000) by (bit_vector);
    Some(st)
}

/// The reset sequence of `role`'s core. `slave_stack` and `slave_entry` are
/// the first two words of the slave's vector table; the slave ignores them.
pub fn start(role: CoreRole, slave_stack: u32, slave_entry: u32) -> (r: Vec<BootStep>)
    ensures
        r@ == boot_sequence(role, slave_stack, slave_entry),
{
    let ghost s = boot_sequence(role, slave_stack, slave_entry);
    let mut v: Vec<BootStep> = Vec::new();
    let mut k: usize = 0;
    loop
        invariant
            s == boot_sequence(role, slave_stack, slave_entry),
            k <= s.len(),
            v@ == s.subrange(0, k as int),
        decreases s.len() - k,
    {
        match boot_step(role, slave_stack, slave_entry, k) {
            Some(st) => {
                v.push(st);
                k = k + 1;
            },
            None => {
                assert(v@ =~= s);
                return v;
            },
        }
    }
}

/// `k` is the first step of `s` that releases the slave.
pub open spec fn first_release(s: Seq<BootStep>, k: int) -> bool {
    &&& 0 <= k < s.len()
    &&& s[k] == release_slave()
    &&& forall|m: int| 0 <= m < k ==> s[m] != release_slave()
}

/// Whether the slave, once released by `s`, can only observe initialized
/// shared memory: `s` releases it, initializes shared memory before that,
/// and a full barrier separates every such initialization from the release.
/// Without the barrier the copy may be reordered past the release store.
pub open spec fn shared_ready_at_release(s: Seq<BootStep>) -> bool {
    exists|k: int| #[trigger] first_release(s, k) && inits_fenced_before(s, k)
}

/// Shared memory is initialized before step `k`, and a barrier lies between
/// every initialization of it in `s` and step `k`.
pub open spec fn inits_fenced_before(s: Seq<BootStep>, k: int) -> bool {
    &&& exists|i: int| 0 <= i < k && s[i] == BootStep::InitShared
    &&& forall|i: int|
        0 <= i < s.len() && s[i] == BootStep::InitShared ==> exists|j: int|
            i < j < k && s[j] == BootStep::Fence
}

/// Check a reset sequence against the barrier discipline of
/// `shared_ready_at_release`.
pub fn check_release_order(plan: &Vec<BootStep>) -> (r: bool)
    ensures
        r == shared_ready_at_release(plan@),
{
    let ghost s = plan@;
    let release = BootStep::Write(RegisterWrite { addr: SYSCON_CPUCTRL, value: CPUCTRL_RELEASE });
    let n = plan.len();
    let mut seen_init = false;
    let mut unfenced = false;
    let mut i: usize = 0;
    while i < n
        invariant
            n == plan@.len(),
            s == plan@,
            release == release_slave(),
            i <= n,
            forall|m: int| 0 <= m < i ==> plan@[m] != release_slave(),
            seen_init <==> exists|m: int| 0 <= m < i && plan@[m] == BootStep::InitShared,
            !unfenced ==> forall|m: int|
                0 <= m < i && plan@[m] == BootStep::InitShared ==> exists|j: int|
                    m < j < i && plan@[j] == BootStep::Fence,
            unfenced ==> exists|m: int|
                0 <= m < i && plan@[m] == BootStep::InitShared && forall|j: int|
                    m < j < i ==> plan@[j] != BootStep::Fence,
        decreases n - i,
    {
        let step = plan[i];
        if step == release {
            assert(first_release(s, i as int));
            if !seen_init || unfenced {
                proof {
                    if shared_ready_at_release(s) {
                        let k = choose|k: int| #[trigger] first_release(s, k) && inits_fenced_before(s, k);
                        assert(k == i);
                        if unfenced {
                            let m = choose|m: int|
                                0 <= m < i && plan@[m] == BootStep::InitShared && forall|j: int|
                                    m < j < i ==> plan@[j] != BootStep::Fence;
                            assert(exists|j: int| m < j < k && s[j] == BootStep::Fence);
                        }
                    }
                }
                return false;
            }
            let mut m: usize = i + 1;
            while m < n
                invariant
                    n == plan@.len(),
                    s == plan@,
                    i < m <= n,
                    first_release(s, i as int),
                    exists|a: int| 0 <= a < i && plan@[a] == BootStep::InitShared,
                    forall|a: int|
                        0 <= a < i && plan@[a] == BootStep::InitShared ==> exists|j: int|
                            a < j < i && plan@[j] == BootStep::Fence,
                    forall|a: int| i < a < m ==> plan@[a] != BootStep::InitShared,
                decreases n - m,
            {
                if plan[m] == BootStep::InitShared {
                    proof {
                        if shared_ready_at_release(s) {
                            let k = choose|k: int| #[trigger] first_release(s, k) && inits_fenced_before(s, k);
                            assert(k == i);
                            assert(s[m as int] == BootStep::InitShared);
                        }
                    }
                    return false;
                }
                m = m + 1;
            }
            proof {
                assert forall|a: int|
                    0 <= a < s.len() && s[a] == BootStep::InitShared implies exists|j: int|
                    a < j < i && s[j] == BootStep::Fence by {
                    if a > i {
                        assert(plan@[a] != BootStep::InitShared);
                    }
                }
                assert(first_release(s, i as int));
            }
            return true;
        }
        if step == BootStep::InitShared {
            seen_init = true;
            unfenced = true;
            assert(plan@[i as int] == BootStep::InitShared);
        } else if step == BootStep::Fence {
            unfenced = false;
            assert forall|m: int|
                0 <= m < i + 1 && plan@[m] == BootStep::InitShared implies exists|j: int|
                m < j < i + 1 && plan@[j] == BootStep::Fence by {
                assert(plan@[i as int] == BootStep::Fence);
            }
        } else if unfenced {
            let ghost m = choose|m: int|
                0 <= m < i && plan@[m] == BootStep::InitShared && forall|j: int|
                    m < j < i ==> plan@[j] != BootStep::Fence;
            assert(forall|j: int| m < j < i + 1 ==> plan@[j] != BootStep::Fence);
        }
        i = i + 1;
    }
    proof {
        if shared_ready_at_release(s) {
            let k = choose|k: int| #[trigger] first_release(s, k) && inits_fenced_before(s, k);
            assert(s[k] == release_slave());
        }
    }
    false
}

/// The master initializes shared memory behind a barrier before it releases
/// the slave, and only the master initializes it: the slave's sequence never
/// touches the shared region and never releases a core.
pub proof fn lemma_shared_ready_before_slave_runs(slave_stack: u32, slave_entry: u32)
    ensures
        shared_ready_at_release(boot_sequence(CoreRole::Master, slave_stack, slave_entry)),
        forall|i: int|
            0 <= i < boot_sequence(CoreRole::Slave, slave_stack, slave_entry).len() ==> {
                let st = #[trigger] boot_sequence(CoreRole::Slave, slave_stack, slave_entry)[i];
                st != BootStep::InitShared && st != release_slave()
            },
{
    let s = boot_sequence(CoreRole::Master, slave_stack, slave_entry);
    let t = boot_sequence(CoreRole::Slave, slave_stack, slave_entry);
    assert(s[4] == BootStep::InitShared);
    assert(s[5] == BootStep::Fence);
    assert forall|m: int| 0 <= m < 9 implies s[m] != release_slave() by {}
    assert(first_release(s, 9));
    assert forall|i: int| 0 <= i < s.len() && s[i] == BootStep::InitShared implies exists|j: int|
        i < j < 9 && s[j] == BootStep::Fence by {
        assert(i == 4);
        assert(s[5] == BootStep::Fence);
    }
    assert forall|i: int| 0 <= i < t.len() implies t[i] != BootStep::InitShared && t[i]
        != release_slave() by {}
}

/// A weak memory model for what the other core sees of a step list: `vis[i]`
/// is when step `i` becomes visible to it. Steps may become visible in any
/// order, except that a full barrier makes every step before it visible
/// before any step after it.
pub open spec fn valid_schedule(s: Seq<BootStep>, vis: Seq<int>) -> bool {
    &&& vis.len() == s.len()
    &&& forall|i: int, f: int, j: int|
        #![trigger s[f], vis[i], vis[j]]
        0 <= i < f < j < s.len() && s[f] == BootStep::Fence ==> vis[i] < vis[j]
}

/// Under schedule `vis`, the slave, which starts once release store `k` is
/// visible, finds shared memory initialized on its first read: it was
/// initialized, and every initialization became visible before the release.
pub open spec fn slave_reads_initialized(s: Seq<BootStep>, vis: Seq<int>, k: int) -> bool {
    &&& exists|i: int| 0 <= i < s.len() && s[i] == BootStep::InitShared
    &&& forall|i: int| 0 <= i < s.len() && s[i] == BootStep::InitShared ==> vis[i] < vis[k]
}

/// A barrier between each initialization and the release is enough: under
/// every schedule the slave's first read sees the initialized values.
pub proof fn lemma_fenced_init_visible(s: Seq<BootStep>, vis: Seq<int>, k: int)
    requires
        first_release(s, k),
        inits_fenced_before(s, k),
        valid_schedule(s, vis),
    ensures
        slave_reads_initialized(s, vis, k),
{
    assert forall|i: int| 0 <= i < s.len() && s[i] == BootStep::InitShared implies vis[i] < vis[k] by {
        let f = choose|f: int| i < f < k && s[f] == BootStep::Fence;
        assert(vis[i] < vis[k]);
    }
}

/// And it is needed: where a barrier is missing, some schedule lets the
/// slave read shared memory before its initialization is visible.
pub proof fn lemma_missing_fence_observable(s: Seq<BootStep>, k: int)
    requires
        first_release(s, k),
        !inits_fenced_before(s, k),
    ensures
        exists|vis: Seq<int>| valid_schedule(s, vis) && !slave_reads_initialized(s, vis, k),
{
    let id = Seq::new(s.len(), |x: int| x);
    if exists|i: int| 0 <= i < k && s[i] == BootStep::InitShared {
        let i = choose|i: int|
            0 <= i < s.len() && s[i] == BootStep::InitShared && !exists|j: int|
                i < j < k && s[j] == BootStep::Fence;
        if i < k {
            let vis = id.update(i, k);
            assert forall|a: int, f: int, b: int|
                #![trigger s[f], vis[a], vis[b]]
                0 <= a < f < b < s.len() && s[f] == BootStep::Fence implies vis[a] < vis[b] by {
                if a == i {
                    assert(!(i < f < k));
                    assert(f != k);
                }
                if b == i {
                    assert(f < k);
                }
            }
            assert(valid_schedule(s, vis));
            assert(!slave_reads_initialized(s, vis, k));
        } else {
            assert(i != k);
            assert(valid_schedule(s, id));
            assert(!slave_reads_initialized(s, id, k));
        }
    } else {
        assert(valid_schedule(s, id));
        if exists|i: int| 0 <= i < s.len() && s[i] == BootStep::InitShared {
            let i = choose|i: int| 0 <= i < s.len() && s[i] == BootStep::InitShared;
            assert(i > k);
            assert(!slave_reads_initialized(s, id, k));
        }
        assert(!slave_reads_initialized(s, id, k));
    }
}

/// The master's reset sequence is safe under every schedule: the slave's
/// first read of shared memory sees the values the master copied in.
pub proof fn lemma_slave_sees_initialized_shared(slave_stack: u32, slave_entry: u32, vis: Seq<int>)
    requires
        valid_schedule(boot_sequence(CoreRole::Master, slave_stack, slave_entry), vis),
    ensures
        first_release(boot_sequence(CoreRole::Master, slave_stack, slave_entry), 9),
        slave_reads_initialized(boot_sequence(CoreRole::Master, slave_stack, slave_entry), vis, 9),
{
    let s = boot_sequence(CoreRole::Master, slave_stack, slave_entry);
    lemma_shared_ready_before_slave_runs(slave_stack, slave_entry);
    assert forall|m: int| 0 <= m < 9 implies s[m] != release_slave() by {}
    let k = choose|k: int| #[trigger] first_release(s, k) && inits_fenced_before(s, k);
    assert(k == 9);
    lemma_fenced_init_visible(s, vis, 9);
}

} // verus!
