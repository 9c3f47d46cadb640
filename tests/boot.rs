use lpc541xx::boot::{
    boot_step, check_release_order, start, BootStep, CPACR_FPU_FULL_ACCESS, CPUCTRL_HOLD, CPUCTRL_RELEASE,
    SCB_CPACR, SCB_VTOR, SLAVE_VECTORS, SYSCON_CPBOOT, SYSCON_CPSTACK, SYSCON_CPUCTRL,
};
use lpc541xx::vectors::CoreRole;
use lpc541xx::RegisterWrite;

fn write(addr: usize, value: u32) -> BootStep {
    BootStep::Write(RegisterWrite { addr, value })
}

#[test]
fn master_sequence_order() {
    let p = start(CoreRole::Master, 0x2000_8000, 0x0002_0101);
    assert_eq!(p.len(), 16);
    assert_eq!(p[2], write(0x4000_8004, 0b10));
    assert_eq!(p[3], BootStep::Fence);
    assert_eq!(p[4], BootStep::InitShared);
    assert_eq!(p[5], BootStep::Fence);
    assert_eq!(p[6], write(SYSCON_CPSTACK, 0x2000_8000));
    assert_eq!(p[7], write(SYSCON_CPBOOT, 0x0002_0101));
    assert_eq!(p[8], write(SYSCON_CPUCTRL, CPUCTRL_HOLD));
    assert_eq!(p[9], write(SYSCON_CPUCTRL, CPUCTRL_RELEASE));
    assert_eq!(p[10], write(0xE000_E100, 1 << 31));
    assert_eq!(p[11], BootStep::ZeroBss);
    assert_eq!(p[12], BootStep::InitData);
    assert_eq!(p[13], BootStep::Fence);
    assert_eq!(p[14], BootStep::SetBits { addr: SCB_CPACR, mask: CPACR_FPU_FULL_ACCESS });
    assert_eq!(CPACR_FPU_FULL_ACCESS, (0b0101 << 20) | (0b1010 << 20));
    assert_eq!(p[15], BootStep::EnterMain);
}

#[test]
fn slave_sequence_order() {
    let p = start(CoreRole::Slave, 1, 2);
    assert_eq!(
        p,
        vec![
            write(SCB_VTOR, SLAVE_VECTORS),
            write(0xE000_E100, 1 << 31),
            BootStep::ZeroBss,
            BootStep::InitData,
            BootStep::Fence,
            BootStep::EnterMain,
        ]
    );
    assert!(!p.contains(&BootStep::InitShared));
}

#[test]
fn slave_observes_initialized_shared_memory() {
    let p = start(CoreRole::Master, 0x2000_8000, 0x0002_0101);
    assert!(check_release_order(&p));
}

#[test]
fn missing_fence_is_detected() {
    let mut p = start(CoreRole::Master, 0x2000_8000, 0x0002_0101);
    assert_eq!(p.remove(5), BootStep::Fence);
    assert!(!check_release_order(&p));
}

#[test]
fn late_shared_init_is_detected() {
    let mut p = start(CoreRole::Master, 0x2000_8000, 0x0002_0101);
    p.push(BootStep::InitShared);
    assert!(!check_release_order(&p));
    let mut q = start(CoreRole::Master, 0x2000_8000, 0x0002_0101);
    q.remove(4);
    assert!(!check_release_order(&q));
}

#[test]
fn sequence_without_release_is_not_ready() {
    let p = start(CoreRole::Slave, 0, 0);
    assert!(!check_release_order(&p));
}

#[test]
fn boot_step_walks_the_sequence() {
    for role in [CoreRole::Master, CoreRole::Slave] {
        let p = start(role, 0x2000_8000, 0x0002_0101);
        for (k, st) in p.iter().enumerate() {
            assert_eq!(boot_step(role, 0x2000_8000, 0x0002_0101, k), Some(*st));
        }
        assert_eq!(boot_step(role, 0x2000_8000, 0x0002_0101, p.len()), None);
        assert_eq!(boot_step(role, 0x2000_8000, 0x0002_0101, 1000), None);
    }
}
