//! Cross-core doorbell: each core pends interrupts of the other through a
//! pair of mailbox registers, and the receiver forwards them to its own
//! interrupt controller.
use vstd::prelude::*;
use crate::vectors::CoreRole;
use crate::RegisterWrite;

verus! {

pub const MAILBOX_BASE: usize = 0x4008_B000;

/// Pending mask of the slave core (read by the slave).
pub const MAILBOX_IRQ0: usize = 0x4008_B000;

/// Sets bits of the slave's pending mask (written by the master).
pub const MAILBOX_IRQ0SET: usize = 0x4008_B004;

/// Clears bits of the slave's pending mask (written by the slave).
pub const MAILBOX_IRQ0CLR: usize = 0x4008_B008;

/// Pending mask of the master core (read by the master).
pub const MAILBOX_IRQ1: usize = 0x4008_B010;

/// Sets bits of the master's pending mask (written by the slave).
pub const MAILBOX_IRQ1SET: usize = 0x4008_B014;

/// Clears bits of the master's pending mask (written by the master).
pub const MAILBOX_IRQ1CLR: usize = 0x4008_B018;

/// The hardware lock register shared by both cores.
pub const MAILBOX_MUTEX: usize = 0x4008_B0F8;

/// Interrupt controller: set-pending register of the local core.
pub const NVIC_ISPR: usize = 0xE000_E200;

/// Interrupt controller: set-enable register of the local core.
pub const NVIC_ISER: usize = 0xE000_E100;

/// The mailbox interrupt's number on both cores.
pub const MAILBOX_IRQ_NR: u8 = 31;

/// The role of the core with id `core` (0 is the master, 1 the slave).
pub open spec fn role_of(core: int) -> CoreRole {
    if core == 0 { CoreRole::Master } else { CoreRole::Slave }
}

/// The register that sets bits in `target`'s pending mask.
pub open spec fn set_register(target: CoreRole) -> usize {
    if target == CoreRole::Master { MAILBOX_IRQ1SET } else { MAILBOX_IRQ0SET }
}

/// The register that `role`'s core reads its pending mask from.
pub open spec fn status_register(role: CoreRole) -> usize {
    if role == CoreRole::Master { MAILBOX_IRQ1 } else { MAILBOX_IRQ0 }
}

/// The register that `role`'s core clears its pending mask through.
pub open spec fn clear_register(role: CoreRole) -> usize {
    if role == CoreRole::Master { MAILBOX_IRQ1CLR } else { MAILBOX_IRQ0CLR }
}

/// Pend interrupt `nr` on core `core`: the store that sets bit `nr` of its
/// pending mask.
pub fn xpend(core: u8, nr: u8) -> (r: RegisterWrite)
    requires
        core < 2,
        nr < 32,
    ensures
        r.addr == set_register(role_of(core as int)),
        r.value == 1u32 << nr,
{
    let value: u32 = 1u32 << nr;
    if core == 0 {
        RegisterWrite { addr: MAILBOX_IRQ1SET, value }
    } else {
        RegisterWrite { addr: MAILBOX_IRQ0SET, value }
    }
}

/// The register that `role`'s mailbox interrupt handler reads, once.
pub fn pending_register(role: CoreRole) -> (r: usize)
    ensures
        r == status_register(role),
{
    match role {
        CoreRole::Master => MAILBOX_IRQ1,
        CoreRole::Slave => MAILBOX_IRQ0,
    }
}

/// The two stores of the mailbox interrupt handler, in order.
#[derive(Clone, Copy, Debug, PartialEq, Eq, Structural)]
pub struct Forwarding {
    /// Pends the forwarded interrupts in the local interrupt controller.
    pub set_pending: RegisterWrite,
    /// Then clears exactly those bits from the mailbox.
    pub clear: RegisterWrite,
}

/// Forward the pending `mask`, read once from `pending_register(role)`: the
/// same mask is pended locally and then cleared from the mailbox, so bits
/// that the sender sets after the read stay pending for the next round.
pub fn forward(role: CoreRole, mask: u32) -> (r: Forwarding)
    ensures
        r.set_pending == (RegisterWrite { addr: NVIC_ISPR, value: mask }),
        r.clear == (RegisterWrite { addr: clear_register(role), value: mask }),
{
    let clear = match role {
        CoreRole::Master => MAILBOX_IRQ1CLR,
        CoreRole::Slave => MAILBOX_IRQ0CLR,
    };
    Forwarding {
        set_pending: RegisterWrite { addr: NVIC_ISPR, value: mask },
        clear: RegisterWrite { addr: clear, value: mask },
    }
}

/// The store that unmasks the mailbox interrupt in the local controller.
pub fn unmask_mailbox() -> (r: RegisterWrite)
    ensures
        r == (RegisterWrite { addr: NVIC_ISER, value: 1u32 << MAILBOX_IRQ_NR }),
{
    RegisterWrite { addr: NVIC_ISER, value: 1u32 << MAILBOX_IRQ_NR }
}

/// A model of the mailbox block: the two pending masks and the lock, with
/// the hardware's effect of each store and load.
#[derive(Clone, Copy, Debug, PartialEq, Eq, Structural)]
pub struct Mailbox {
    /// Pending mask of the slave core.
    pub irq0: u32,
    /// Pending mask of the master core.
    pub irq1: u32,
    /// Whether the lock register is free.
    pub lock_free: bool,
}

impl Mailbox {
    /// The block after reset: nothing pending, the lock free.
    pub fn new() -> (r: Mailbox)
        ensures
            r == (Mailbox { irq0: 0, irq1: 0, lock_free: true }),
    {
        Mailbox { irq0: 0, irq1: 0, lock_free: true }
    }

    /// Load from `addr`; only the pending masks are modelled, other
    /// addresses read as zero.
    pub fn read(&self, addr: usize) -> (r: u32)
        ensures
            r == (if addr == MAILBOX_IRQ0 {
                self.irq0
            } else if addr == MAILBOX_IRQ1 {
                self.irq1
            } else {
                0u32
            }),
    {
        if addr == MAILBOX_IRQ0 {
            self.irq0
        } else if addr == MAILBOX_IRQ1 {
            self.irq1
        } else {
            0
        }
    }

    /// Store `w`: a set register ORs its value into the mask, a clear
    /// register removes its bits, the lock register frees the lock on a
    /// non-zero value; other addresses leave the block unchanged.
    pub fn write(&mut self, w: RegisterWrite)
        ensures
            final(self).irq0 == (if w.addr == MAILBOX_IRQ0SET {
                old(self).irq0 | w.value
            } else if w.addr == MAILBOX_IRQ0CLR {
                old(self).irq0 & !w.value
            } else {
                old(self).irq0
            }),
            final(self).irq1 == (if w.addr == MAILBOX_IRQ1SET {
                old(self).irq1 | w.value
            } else if w.addr == MAILBOX_IRQ1CLR {
                old(self).irq1 & !w.value
            } else {
                old(self).irq1
            }),
            final(self).lock_free == (if w.addr == MAILBOX_MUTEX {
                w.value != 0
            } else {
                old(self).lock_free
            }),
    {
        if w.addr == MAILBOX_IRQ0SET {
            self.irq0 = self.irq0 | w.value;
        } else if w.addr == MAILBOX_IRQ0CLR {
            self.irq0 = self.irq0 & !w.value;
        } else if w.addr == MAILBOX_IRQ1SET {
            self.irq1 = self.irq1 | w.value;
        } else if w.addr == MAILBOX_IRQ1CLR {
            self.irq1 = self.irq1 & !w.value;
        } else if w.addr == MAILBOX_MUTEX {
            self.lock_free = w.value != 0;
        }
    }

    /// Load the lock register. A load that finds the lock free returns a
    /// non-zero value and claims the lock in the same access; while the lock
    /// is held it returns zero and changes nothing.
    pub fn read_lock(&mut self) -> (r: u32)
        ensures
            (r != 0) == old(self).lock_free,
            final(self).lock_free == false,
            final(self).irq0 == old(self).irq0,
            final(self).irq1 == old(self).irq1,
    {
        if self.lock_free {
            self.lock_free = false;
            1
        } else {
            0
        }
    }
}

/// The store that releases the lock: any non-zero value frees it.
pub fn release_lock() -> (r: RegisterWrite)
    ensures
        r.addr == MAILBOX_MUTEX,
        r.value != 0,
{
    RegisterWrite { addr: MAILBOX_MUTEX, value: 1 }
}

/// Forwarding a mask read once loses no concurrent doorbell: of a pending
/// mask `seen` plus bits `late` set after the read, clearing `seen` leaves
/// every late bit that was not already seen, and nothing that was seen.
pub proof fn lemma_forward_keeps_late_bits(seen: u32, late: u32)
    ensures
        (seen | late) & !seen == late & !seen,
        ((seen | late) & !seen) & seen == 0,
{
    assert((seen | late) & !seen == late & !seen) by (bit_vector);
    assert(((seen | late) & !seen) & seen == 0) by (bit_vector);
}

} // verus!
