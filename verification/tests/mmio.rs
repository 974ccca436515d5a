use gba_save::mmio::{Cycles, DmaControl, WaitstateControl};

#[test]
fn set_backup_waitstate_4() {
    let mut waitstate = WaitstateControl(0);
    waitstate.set_backup_waitstate(Cycles::_4);

    assert_eq!(waitstate.0, 0);
}

#[test]
fn set_backup_waitstate_3() {
    let mut waitstate = WaitstateControl(0);
    waitstate.set_backup_waitstate(Cycles::_3);

    assert_eq!(waitstate.0, 1);
}

#[test]
fn set_backup_waitstate_2() {
    let mut waitstate = WaitstateControl(0);
    waitstate.set_backup_waitstate(Cycles::_2);

    assert_eq!(waitstate.0, 2);
}

#[test]
fn set_backup_waitstate_8() {
    let mut waitstate = WaitstateControl(0);
    waitstate.set_backup_waitstate(Cycles::_8);

    assert_eq!(waitstate.0, 3);
}

#[test]
fn set_backup_waitstate_with_preexisting_value() {
    let mut waitstate = WaitstateControl(3);
    waitstate.set_backup_waitstate(Cycles::_4);

    assert_eq!(waitstate.0, 0);
}

#[test]
fn set_eeprom_waitstate_4() {
    let mut waitstate = WaitstateControl(0);
    waitstate.set_eeprom_waitstate(Cycles::_4);

    assert_eq!(waitstate.0, 0);
}

#[test]
fn set_eeprom_waitstate_3() {
    let mut waitstate = WaitstateControl(0);
    waitstate.set_eeprom_waitstate(Cycles::_3);

    assert_eq!(waitstate.0, 0x100);
}

#[test]
fn set_eeprom_waitstate_2() {
    let mut waitstate = WaitstateControl(0);
    waitstate.set_eeprom_waitstate(Cycles::_2);

    assert_eq!(waitstate.0, 0x200);
}

#[test]
fn set_eeprom_waitstate_8() {
    let mut waitstate = WaitstateControl(0);
    waitstate.set_eeprom_waitstate(Cycles::_8);

    assert_eq!(waitstate.0, 0x300);
}

#[test]
fn set_eeprom_waitstate_with_preexisting_value() {
    let mut waitstate = WaitstateControl(0xffff);
    waitstate.set_eeprom_waitstate(Cycles::_4);

    assert_eq!(waitstate.0, 0xfcff);
}

#[test]
fn set_backup_waitstate_keeps_the_other_bits() {
    let mut waitstate = WaitstateControl(0xfffc);
    waitstate.set_backup_waitstate(Cycles::_2);

    assert_eq!(waitstate.0, 0xfffe);
}

#[test]
fn cycles_bits() {
    assert_eq!(Cycles::_4.bits(), 0);
    assert_eq!(Cycles::_3.bits(), 1);
    assert_eq!(Cycles::_2.bits(), 2);
    assert_eq!(Cycles::_8.bits(), 3);
}

#[test]
fn dma_control_enable() {
    assert_eq!(DmaControl::new().0, 0);
    assert!(!DmaControl::new().enabled());
    assert_eq!(DmaControl::new().enable().0, 0x8000);
    assert!(DmaControl::new().enable().enabled());
    assert_eq!(DmaControl(0x7fff).enable().0, 0xffff);
    assert!(!DmaControl(0x7fff).enabled());
}
