//! Exception and interrupt numbering, and the per-core vector table.
use vstd::prelude::*;

verus! {

/// Which of the two cores a piece of firmware runs on.
#[derive(Clone, Copy, Debug, PartialEq, Eq, Structural)]
pub enum CoreRole {
    /// The full-featured core, which brings up shared memory and the other core.
    Master,
    /// The reduced core, released from reset by the master.
    Slave,
}

/// Priority bits that the core's interrupt controller implements.
pub fn nvic_prio_bits(role: CoreRole) -> (r: u8)
    ensures
        r == (if role == CoreRole::Master { 3u8 } else { 2u8 }),
{
    match role {
        CoreRole::Master => 3,
        CoreRole::Slave => 2,
    }
}

/// Device interrupts. The last six exist on the master core only.
#[allow(non_camel_case_types)]
#[derive(Clone, Copy, Debug, PartialEq, Eq, Structural)]
pub enum Interrupt {
    WDT,
    DMA,
    GINT0,
    GINT1,
    PIN_INT0,
    PIN_INT1,
    PIN_INT2,
    PIN_INT3,
    UTICK,
    MRT,
    CTIMER0,
    CTIMER1,
    SCT0,
    CTIMER3,
    Flexcomm0,
    Flexcomm1,
    Flexcomm2,
    Flexcomm3,
    Flexcomm4,
    Flexcomm5,
    Flexcomm6,
    Flexcomm7,
    ADC0_SEQA,
    ADC0_SEQB,
    ADC0_THCMP,
    DMIC,
    HWVAD,
    USB_WAKEUP,
    USB,
    RTC,
    MAILBOX,
    PIN_INT4,
    PIN_INT5,
    PIN_INT6,
    PIN_INT7,
    CTIMER2,
    CTIMER4,
}

impl Interrupt {
    /// The interrupt's number in the device's interrupt space.
    pub open spec fn number(self) -> nat {
        match self {
            Interrupt::WDT => 0,
            Interrupt::DMA => 1,
            Interrupt::GINT0 => 2,
            Interrupt::GINT1 => 3,
            Interrupt::PIN_INT0 => 4,
            Interrupt::PIN_INT1 => 5,
            Interrupt::PIN_INT2 => 6,
            Interrupt::PIN_INT3 => 7,
            Interrupt::UTICK => 8,
            Interrupt::MRT => 9,
            Interrupt::CTIMER0 => 10,
            Interrupt::CTIMER1 => 11,
            Interrupt::SCT0 => 12,
            Interrupt::CTIMER3 => 13,
            Interrupt::Flexcomm0 => 14,
            Interrupt::Flexcomm1 => 15,
            Interrupt::Flexcomm2 => 16,
            Interrupt::Flexcomm3 => 17,
            Interrupt::Flexcomm4 => 18,
            Interrupt::Flexcomm5 => 19,
            Interrupt::Flexcomm6 => 20,
            Interrupt::Flexcomm7 => 21,
            Interrupt::ADC0_SEQA => 22,
            Interrupt::ADC0_SEQB => 23,
            Interrupt::ADC0_THCMP => 24,
            Interrupt::DMIC => 25,
            Interrupt::HWVAD => 26,
            Interrupt::USB_WAKEUP => 27,
            Interrupt::USB => 28,
            Interrupt::RTC => 29,
            Interrupt::MAILBOX => 31,
            Interrupt::PIN_INT4 => 32,
            Interrupt::PIN_INT5 => 33,
            Interrupt::PIN_INT6 => 34,
            Interrupt::PIN_INT7 => 35,
            Interrupt::CTIMER2 => 36,
            Interrupt::CTIMER4 => 37,
        }
    }

    /// Whether the interrupt is wired only to the master core.
    pub open spec fn master_only(self) -> bool {
        self.number() >= 32
    }

    /// Whether `role`'s core has this interrupt.
    pub open spec fn exists_on(self, role: CoreRole) -> bool {
        role == CoreRole::Master || !self.master_only()
    }

    pub fn nr(&self) -> (r: u8)
        ensures
            r == self.number(),
    {
        match self {
            Interrupt::WDT => 0,
            Interrupt::DMA => 1,
            Interrupt::GINT0 => 2,
            Interrupt::GINT1 => 3,
            Interrupt::PIN_INT0 => 4,
            Interrupt::PIN_INT1 => 5,
            Interrupt::PIN_INT2 => 6,
            Interrupt::PIN_INT3 => 7,
            Interrupt::UTICK => 8,
            Interrupt::MRT => 9,
            Interrupt::CTIMER0 => 10,
            Interrupt::CTIMER1 => 11,
            Interrupt::SCT0 => 12,
            Interrupt::CTIMER3 => 13,
            Interrupt::Flexcomm0 => 14,
            Interrupt::Flexcomm1 => 15,
            Interrupt::Flexcomm2 => 16,
            Interrupt::Flexcomm3 => 17,
            Interrupt::Flexcomm4 => 18,
            Interrupt::Flexcomm5 => 19,
            Interrupt::Flexcomm6 => 20,
            Interrupt::Flexcomm7 => 21,
            Interrupt::ADC0_SEQA => 22,
            Interrupt::ADC0_SEQB => 23,
            Interrupt::ADC0_THCMP => 24,
            Interrupt::DMIC => 25,
            Interrupt::HWVAD => 26,
            Interrupt::USB_WAKEUP => 27,
            Interrupt::USB => 28,
            Interrupt::RTC => 29,
            Interrupt::MAILBOX => 31,
            Interrupt::PIN_INT4 => 32,
            Interrupt::PIN_INT5 => 33,
            Interrupt::PIN_INT6 => 34,
            Interrupt::PIN_INT7 => 35,
            Interrupt::CTIMER2 => 36,
            Interrupt::CTIMER4 => 37,
        }
    }

    /// Whether `role`'s core has this interrupt.
    pub fn is_on(&self, role: CoreRole) -> (r: bool)
        ensures
            r == self.exists_on(role),
    {
        match role {
            CoreRole::Master => true,
            CoreRole::Slave => self.nr() < 32,
        }
    }

    /// The interrupt with number `n`, if the device has one.
    pub fn from_nr(n: u8) -> (r: Option<Interrupt>)
        ensures
            r matches Some(x) ==> x.number() == n,
            r is None ==> forall|x: Interrupt| x.number() != n,
    {
        match n {
            0 => Some(Interrupt::WDT),
            1 => Some(Interrupt::DMA),
            2 => Some(Interrupt::GINT0),
            3 => Some(Interrupt::GINT1),
            4 => Some(Interrupt::PIN_INT0),
            5 => Some(Interrupt::PIN_INT1),
            6 => Some(Interrupt::PIN_INT2),
            7 => Some(Interrupt::PIN_INT3),
            8 => Some(Interrupt::UTICK),
            9 => Some(Interrupt::MRT),
            10 => Some(Interrupt::CTIMER0),
            11 => Some(Interrupt::CTIMER1),
            12 => Some(Interrupt::SCT0),
            13 => Some(Interrupt::CTIMER3),
            14 => Some(Interrupt::Flexcomm0),
            15 => Some(Interrupt::Flexcomm1),
            16 => Some(Interrupt::Flexcomm2),
            17 => Some(Interrupt::Flexcomm3),
            18 => Some(Interrupt::Flexcomm4),
            19 => Some(Interrupt::Flexcomm5),
            20 => Some(Interrupt::Flexcomm6),
            21 => Some(Interrupt::Flexcomm7),
            22 => Some(Interrupt::ADC0_SEQA),
            23 => Some(Interrupt::ADC0_SEQB),
            24 => Some(Interrupt::ADC0_THCMP),
            25 => Some(Interrupt::DMIC),
            26 => Some(Interrupt::HWVAD),
            27 => Some(Interrupt::USB_WAKEUP),
            28 => Some(Interrupt::USB),
            29 => Some(Interrupt::RTC),
            31 => Some(Interrupt::MAILBOX),
            32 => Some(Interrupt::PIN_INT4),
            33 => Some(Interrupt::PIN_INT5),
            34 => Some(Interrupt::PIN_INT6),
            35 => Some(Interrupt::PIN_INT7),
            36 => Some(Interrupt::CTIMER2),
            37 => Some(Interrupt::CTIMER4),
            _ => None,
        }
    }
}

/// No two interrupts share a number.
pub proof fn lemma_number_injective(x: Interrupt, y: Interrupt)
    requires
        x.number() == y.number(),
    ensures
        x == y,
{
}

/// Core exceptions that have a handler slot.
#[derive(Clone, Copy, Debug, PartialEq, Eq, Structural)]
pub enum Exception {
    NMI,
    HardFault,
    MemoryManagement,
    BusFault,
    UsageFault,
    SVCall,
    DebugMonitor,
    PendSV,
    SysTick,
}

/// One entry of a vector table.
#[derive(Clone, Copy, Debug, PartialEq, Eq, Structural)]
pub enum Slot {
    /// No handler: the entry is an all-zero word.
    Empty,
    Exception(Exception),
    Interrupt(Interrupt),
}

/// Entries before the first device interrupt.
pub const EXCEPTION_SLOTS: usize = 14;

/// Entry that carries the boot checksum instead of a handler. It is the eighth
/// word of the table section, which opens with the initial stack pointer and
/// the reset address.
pub const CHECKSUM_SLOT: usize = 5;

/// Number of entries in `role`'s table.
pub open spec fn table_len(role: CoreRole) -> nat {
    if role == CoreRole::Master { 52 } else { 46 }
}

/// What exception entry `i` holds on `role`'s core. The fault handlers exist
/// on the master only.
pub open spec fn exception_at(role: CoreRole, i: int) -> Slot {
    let fault = |e: Exception|
        if role == CoreRole::Master { Slot::Exception(e) } else { Slot::Empty };
    if i == 0 {
        Slot::Exception(Exception::NMI)
    } else if i == 1 {
        Slot::Exception(Exception::HardFault)
    } else if i == 2 {
        fault(Exception::MemoryManagement)
    } else if i == 3 {
        fault(Exception::BusFault)
    } else if i == 4 {
        fault(Exception::UsageFault)
    } else if i == 9 {
        Slot::Exception(Exception::SVCall)
    } else if i == 10 {
        Slot::Exception(Exception::DebugMonitor)
    } else if i == 12 {
        Slot::Exception(Exception::PendSV)
    } else if i == 13 {
        Slot::Exception(Exception::SysTick)
    } else {
        Slot::Empty
    }
}

/// Whether `s` may stand at device entry `n`: the handler of the interrupt
/// numbered `n` on `role`'s core, or empty where there is none.
pub open spec fn fits_interrupt_slot(role: CoreRole, n: int, s: Slot) -> bool {
    match s {
        Slot::Interrupt(x) => x.number() == n && x.exists_on(role),
        Slot::Empty => forall|x: Interrupt| x.exists_on(role) ==> x.number() != n,
        Slot::Exception(_) => false,
    }
}

/// Entry `i` of the exception part of `role`'s table.
pub fn exception_slot(role: CoreRole, i: usize) -> (r: Slot)
    requires
        i < EXCEPTION_SLOTS,
    ensures
        r == exception_at(role, i as int),
{
    let master = role == CoreRole::Master;
    match i {
        0 => Slot::Exception(Exception::NMI),
        1 => Slot::Exception(Exception::HardFault),
        2 => if master { Slot::Exception(Exception::MemoryManagement) } else { Slot::Empty },
        3 => if master { Slot::Exception(Exception::BusFault) } else { Slot::Empty },
        4 => if master { Slot::Exception(Exception::UsageFault) } else { Slot::Empty },
        9 => Slot::Exception(Exception::SVCall),
        10 => Slot::Exception(Exception::DebugMonitor),
        12 => Slot::Exception(Exception::PendSV),
        13 => Slot::Exception(Exception::SysTick),
        _ => Slot::Empty,
    }
}

/// Device entry `n` of `role`'s table.
pub fn interrupt_slot(role: CoreRole, n: u8) -> (r: Slot)
    ensures
        fits_interrupt_slot(role, n as int, r),
{
    match Interrupt::from_nr(n) {
        Some(x) => {
            if x.is_on(role) {
                Slot::Interrupt(x)
            } else {
                proof {
                    assert forall|y: Interrupt| y.exists_on(role) implies y.number() != n by {
                        if y.number() == n {
                            lemma_number_injective(x, y);
                        }
                    }
                }
                Slot::Empty
            }
        },
        None => Slot::Empty,
    }
}

/// The vector table of `role`'s core: every entry present, unused ones empty,
/// so that each handler sits at its fixed offset.
pub fn vectors(role: CoreRole) -> (r: Vec<Slot>)
    ensures
        r@.len() == table_len(role),
        r@[CHECKSUM_SLOT as int] == Slot::Empty,
        forall|i: int| 0 <= i < EXCEPTION_SLOTS ==> r@[i] == exception_at(role, i),
        forall|i: int|
            EXCEPTION_SLOTS <= i < r@.len() ==> fits_interrupt_slot(
                role,
                i - EXCEPTION_SLOTS,
                #[trigger] r@[i],
            ),
        forall|x: Interrupt|
            x.exists_on(role) ==> r@[EXCEPTION_SLOTS + x.number()] == Slot::Interrupt(x),
{
    let len: usize = if role == CoreRole::Master { 52 } else { 46 };
    let mut v: Vec<Slot> = Vec::new();
    let mut i: usize = 0;
    while i < EXCEPTION_SLOTS
        invariant
            i <= EXCEPTION_SLOTS,
            v@.len() == i,
            forall|j: int| 0 <= j < i ==> v@[j] == exception_at(role, j),
        decreases EXCEPTION_SLOTS - i,
    {
        v.push(exception_slot(role, i));
        i = i + 1;
    }
    while i < len
        invariant
            EXCEPTION_SLOTS <= i <= len,
            len == table_len(role),
            v@.len() == i,
            forall|j: int| 0 <= j < EXCEPTION_SLOTS ==> v@[j] == exception_at(role, j),
            forall|j: int|
                EXCEPTION_SLOTS <= j < i ==> fits_interrupt_slot(
                    role,
                    j - EXCEPTION_SLOTS,
                    #[trigger] v@[j],
                ),
        decreases len - i,
    {
        v.push(interrupt_slot(role, (i - EXCEPTION_SLOTS) as u8));
        i = i + 1;
    }
    proof {
        assert(v@[CHECKSUM_SLOT as int] == exception_at(role, CHECKSUM_SLOT as int));
        assert forall|x: Interrupt| x.exists_on(role) implies v@[EXCEPTION_SLOTS + x.number()]
            == Slot::Interrupt(x) by {
            let k = EXCEPTION_SLOTS + x.number();
            assert(fits_interrupt_slot(role, k - EXCEPTION_SLOTS, v@[k]));
            if let Slot::Interrupt(y) = v@[k] {
                lemma_number_injective(x, y);
            }
        }
    }
    v
}

} // verus!
