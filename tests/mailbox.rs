use lpc541xx::mailbox::{
    forward, pending_register, release_lock, unmask_mailbox, xpend, Mailbox, MAILBOX_IRQ0,
    MAILBOX_IRQ0CLR, MAILBOX_IRQ0SET, MAILBOX_IRQ1, MAILBOX_IRQ1CLR, MAILBOX_IRQ1SET,
    MAILBOX_MUTEX, NVIC_ISER, NVIC_ISPR,
};
use lpc541xx::vectors::CoreRole;

#[test]
fn xpend_targets_other_cores_set_register() {
    let w = xpend(0, 2);
    assert_eq!(w.addr, MAILBOX_IRQ1SET);
    assert_eq!(w.value, 1 << 2);
    let w = xpend(1, 31);
    assert_eq!(w.addr, MAILBOX_IRQ0SET);
    assert_eq!(w.value, 0x8000_0000);
}

#[test]
fn forwarding_keeps_concurrently_set_bit() {
    let mut mb = Mailbox::new();
    mb.write(xpend(0, 2));
    mb.write(xpend(0, 5));
    let mask = mb.read(pending_register(CoreRole::Master));
    assert_eq!(mask, (1 << 2) | (1 << 5));
    // the other core rings again after the handler's single read
    mb.write(xpend(0, 9));
    let f = forward(CoreRole::Master, mask);
    let mut ispr: u32 = 0;
    assert_eq!(f.set_pending.addr, NVIC_ISPR);
    ispr |= f.set_pending.value;
    mb.write(f.clear);
    assert_eq!(f.clear.addr, MAILBOX_IRQ1CLR);
    assert_eq!(ispr, (1 << 2) | (1 << 5));
    assert_eq!(mb.irq1, 1 << 9);
    assert_eq!(mb.irq0, 0);
}

#[test]
fn slave_forwards_from_its_own_registers() {
    let mut mb = Mailbox::new();
    mb.write(xpend(1, 7));
    assert_eq!(pending_register(CoreRole::Slave), MAILBOX_IRQ0);
    let mask = mb.read(MAILBOX_IRQ0);
    assert_eq!(mask, 1 << 7);
    let f = forward(CoreRole::Slave, mask);
    assert_eq!(f.clear.addr, MAILBOX_IRQ0CLR);
    assert_eq!(f.set_pending.value, 1 << 7);
    mb.write(f.clear);
    assert_eq!(mb.irq0, 0);
    assert_eq!(mb.read(MAILBOX_IRQ1), 0);
}

#[test]
fn notifications_coalesce() {
    let mut mb = Mailbox::new();
    mb.write(xpend(0, 3));
    mb.write(xpend(0, 3));
    mb.write(xpend(0, 4));
    assert_eq!(mb.read(MAILBOX_IRQ1), 0b11000);
}

#[test]
fn mailbox_unmask_is_bit_31() {
    let w = unmask_mailbox();
    assert_eq!(w.addr, NVIC_ISER);
    assert_eq!(w.value, 1 << 31);
}

#[test]
fn lock_read_claims_and_write_releases() {
    let mut mb = Mailbox::new();
    assert_ne!(mb.read_lock(), 0);
    assert_eq!(mb.read_lock(), 0);
    assert_eq!(mb.read_lock(), 0);
    let r = release_lock();
    assert_eq!(r.addr, MAILBOX_MUTEX);
    mb.write(r);
    assert!(mb.lock_free);
    assert_ne!(mb.read_lock(), 0);
    assert!(!mb.lock_free);
}
