use lpc541xx::vectors::{
    nvic_prio_bits, vectors, CoreRole, Exception, Interrupt, Slot, CHECKSUM_SLOT,
    EXCEPTION_SLOTS,
};

#[test]
fn table_lengths() {
    assert_eq!(vectors(CoreRole::Master).len(), 52);
    assert_eq!(vectors(CoreRole::Slave).len(), 46);
}

#[test]
fn checksum_slot_and_reserved_entries_are_empty() {
    for role in [CoreRole::Master, CoreRole::Slave] {
        let v = vectors(role);
        assert_eq!(v[CHECKSUM_SLOT], Slot::Empty);
        for i in [6, 7, 8, 11] {
            assert_eq!(v[i], Slot::Empty);
        }
        // device interrupt 30 is reserved
        assert_eq!(v[EXCEPTION_SLOTS + 30], Slot::Empty);
        assert_eq!(v[EXCEPTION_SLOTS + 31], Slot::Interrupt(Interrupt::MAILBOX));
    }
}

#[test]
fn master_table_layout() {
    let v = vectors(CoreRole::Master);
    assert_eq!(v[0], Slot::Exception(Exception::NMI));
    assert_eq!(v[2], Slot::Exception(Exception::MemoryManagement));
    assert_eq!(v[4], Slot::Exception(Exception::UsageFault));
    assert_eq!(v[9], Slot::Exception(Exception::SVCall));
    assert_eq!(v[13], Slot::Exception(Exception::SysTick));
    assert_eq!(v[14], Slot::Interrupt(Interrupt::WDT));
    assert_eq!(v[24], Slot::Interrupt(Interrupt::CTIMER0));
    assert_eq!(v[51], Slot::Interrupt(Interrupt::CTIMER4));
}

#[test]
fn slave_has_no_fault_handlers() {
    let v = vectors(CoreRole::Slave);
    assert_eq!(v[1], Slot::Exception(Exception::HardFault));
    assert_eq!(v[2], Slot::Empty);
    assert_eq!(v[3], Slot::Empty);
    assert_eq!(v[4], Slot::Empty);
    assert_eq!(v[43], Slot::Interrupt(Interrupt::RTC));
}

#[test]
fn every_slot_matches_its_number() {
    for role in [CoreRole::Master, CoreRole::Slave] {
        let v = vectors(role);
        for (i, s) in v.iter().enumerate() {
            if let Slot::Interrupt(x) = s {
                assert_eq!(x.nr() as usize + EXCEPTION_SLOTS, i);
            }
        }
    }
}

#[test]
fn interrupt_numbers() {
    assert_eq!(Interrupt::WDT.nr(), 0);
    assert_eq!(Interrupt::RTC.nr(), 29);
    assert_eq!(Interrupt::MAILBOX.nr(), 31);
    assert_eq!(Interrupt::PIN_INT4.nr(), 32);
    assert_eq!(Interrupt::CTIMER4.nr(), 37);
    assert_eq!(Interrupt::from_nr(30), None);
    assert_eq!(Interrupt::from_nr(38), None);
    assert_eq!(Interrupt::from_nr(13), Some(Interrupt::CTIMER3));
    assert!(!Interrupt::CTIMER2.is_on(CoreRole::Slave));
    assert!(Interrupt::CTIMER2.is_on(CoreRole::Master));
}

#[test]
fn priority_bits() {
    assert_eq!(nvic_prio_bits(CoreRole::Master), 3);
    assert_eq!(nvic_prio_bits(CoreRole::Slave), 2);
}
