use gba_save::flash::command::{
    begin_send_command, erase_chip, erase_sector, send_command, switch_bank, verify_byte, wait,
    Bank, Command,
};
use gba_save::flash::simulator::SimulatedStage;
use gba_save::flash::{
    translate_range_to_sectors, Device, Error, FlashHardware, OutOfBounds, SimulatedFlash, Size,
};
use gba_save::range::{Bound, Index};

#[test]
fn command_codes() {
    assert_eq!(Command::EraseChip.code(), 0x10);
    assert_eq!(Command::EraseSector.code(), 0x30);
    assert_eq!(Command::Erase.code(), 0x80);
    assert_eq!(Command::EnterIDMode.code(), 0x90);
    assert_eq!(Command::Write.code(), 0xa0);
    assert_eq!(Command::SwitchBank.code(), 0xb0);
    assert_eq!(Command::TerminateMode.code(), 0xf0);
    assert_eq!(Bank::_0.number(), 0);
    assert_eq!(Bank::_1.number(), 1);
}

#[test]
fn a_command_comes_after_the_unlock_sequence() {
    let mut chip = SimulatedFlash::new(Device::MX29L512);
    begin_send_command(&mut chip);
    assert_eq!(chip.stage, SimulatedStage::Unlocked);

    let mut chip = SimulatedFlash::new(Device::MX29L512);
    chip.write_byte(0x5555, 0xaa);
    assert_eq!(chip.stage, SimulatedStage::Enabled);
    chip.write_byte(0x2aaa, 0x55);
    assert_eq!(chip.stage, SimulatedStage::Unlocked);
    chip.write_byte(0x5555, 0x90);
    assert_eq!(chip.stage, SimulatedStage::Idle);
    assert!(chip.identifying);
    assert_eq!(chip.read_byte(0), 0xc2);
    assert_eq!(chip.read_byte(1), 0x1c);

    send_command(&mut chip, Command::TerminateMode);
    assert!(!chip.identifying);
    assert_eq!(chip.read_byte(0), 0xff);
}

#[test]
fn a_write_out_of_turn_ends_the_unlock_sequence() {
    let mut chip = SimulatedFlash::new(Device::MX29L512);
    chip.write_byte(0x5555, 0xaa);
    chip.write_byte(0x2aaa, 0x56);
    assert_eq!(chip.stage, SimulatedStage::Idle);
    chip.write_byte(0x5555, 0xa0);
    chip.write_byte(0, 0);
    assert_eq!(chip.cells[0], 0xff);
}

#[test]
fn send_command_write_makes_the_next_write_program() {
    let mut chip = SimulatedFlash::new(Device::MX29L512);
    send_command(&mut chip, Command::Write);
    assert_eq!(chip.stage, SimulatedStage::Program);
    chip.write_byte(77, 0x3c);
    assert_eq!(chip.cells[77], 0x3c);
    assert_eq!(chip.busy, 1);
    assert_eq!(chip.read_byte(77), 0xbc);
    assert_eq!(chip.read_byte(77), 0x3c);

    let mut chip = SimulatedFlash::new(Device::AT29LV512);
    send_command(&mut chip, Command::Write);
    assert_eq!(chip.stage, SimulatedStage::Page(128));
}

#[test]
fn a_page_is_not_loaded_while_interrupts_may_occur() {
    let mut chip = SimulatedFlash::new(Device::AT29LV512);
    send_command(&mut chip, Command::Write);
    chip.write_byte(0, 1);
    assert_eq!(chip.stage, SimulatedStage::Idle);
    assert_eq!(chip.cells[0], 0xff);
}

#[test]
fn switch_bank_selects_the_bank() {
    let mut chip = SimulatedFlash::new(Device::MX29L010);
    chip.cells[0] = 1;
    chip.cells[0x10000] = 2;
    switch_bank(&mut chip, Bank::_1);
    assert_eq!(chip.bank, 1);
    assert_eq!(chip.bank_selections, 1);
    assert_eq!(chip.read_byte(0), 2);
    switch_bank(&mut chip, Bank::_0);
    assert_eq!(chip.bank, 0);
    assert_eq!(chip.bank_selections, 2);
    assert_eq!(chip.read_byte(0), 1);
}

#[test]
fn verify_byte_reads_until_the_byte_is_there() {
    let mut chip = SimulatedFlash::new(Device::MX29L512);
    chip.cells[5] = 0x42;
    chip.pending = 0x42;
    chip.busy = 1000;
    assert_eq!(verify_byte(&mut chip, 5, 0x42, 1), Ok(()));
    assert_eq!(chip.busy, 0);

    chip.busy = 1001;
    assert_eq!(verify_byte(&mut chip, 5, 0x42, 1), Err(Error::OperationTimedOut));
    assert_eq!(chip.busy, 0);

    chip.busy = 5000;
    assert_eq!(verify_byte(&mut chip, 5, 0x42, 1), Err(Error::OperationTimedOut));
    assert_eq!(chip.busy, 3999);

    chip.busy = 0;
    assert_eq!(verify_byte(&mut chip, 5, 0x43, 0), Err(Error::OperationTimedOut));
    assert_eq!(verify_byte(&mut chip, 5, 0x42, 0), Ok(()));
}

#[test]
fn verify_byte_takes_the_status_for_the_byte_where_they_are_the_same() {
    let mut chip = SimulatedFlash::new(Device::MX29L512);
    chip.pending = 0x42;
    chip.busy = 1000;
    assert_eq!(verify_byte(&mut chip, 5, 0xc2, 1), Ok(()));
    assert_eq!(chip.busy, 999);
}

#[test]
fn erase_sector_erases_the_sector_of_the_bank() {
    let mut chip = SimulatedFlash::new(Device::MX29L010);
    for cell in chip.cells.iter_mut() {
        *cell = 0;
    }
    switch_bank(&mut chip, Bank::_1);
    assert_eq!(erase_sector(&mut chip, 15), Ok(()));
    assert_eq!(chip.cells[0x1f000 - 1], 0);
    assert_eq!(chip.cells[0x1f000..0x20000], [0xff; 0x1000]);
    assert_eq!(chip.cells[0xf000..0x10000], [0; 0x1000]);
    assert!(!chip.erase_armed);
}

#[test]
fn erase_chip_erases_both_banks() {
    let mut chip = SimulatedFlash::new(Device::LE26FV10N1TS);
    for cell in chip.cells.iter_mut() {
        *cell = 0;
    }
    assert_eq!(erase_chip(&mut chip), Ok(()));
    assert!(chip.cells.iter().all(|&cell| cell == 0xff));
    assert_eq!(chip.cells.len(), 0x20000);
}

#[test]
fn wait_returns() {
    wait(0);
    wait(20);
}

#[test]
fn translate_range_to_sectors_gives_the_first_and_the_one_after_the_last() {
    let at = |value: usize| Index::<31>::new(value).unwrap();
    assert_eq!(
        translate_range_to_sectors::<31>(Bound::Unbounded, Bound::Unbounded),
        0..32
    );
    assert_eq!(
        translate_range_to_sectors::<31>(Bound::Included(at(3)), Bound::Included(at(17))),
        3..18
    );
    assert_eq!(
        translate_range_to_sectors::<31>(Bound::Excluded(at(3)), Bound::Excluded(at(17))),
        4..17
    );
    assert_eq!(
        translate_range_to_sectors::<31>(Bound::Excluded(at(31)), Bound::Unbounded),
        32..32
    );
}

#[test]
fn check_bounds_compares_with_the_size() {
    assert_eq!(Size::_64KB.check_bounds(0, 65536), Ok(()));
    assert_eq!(Size::_64KB.check_bounds(65536, 0), Ok(()));
    assert_eq!(
        Size::_64KB.check_bounds(1, 65536),
        Err(OutOfBounds(Size::_64KB))
    );
    assert_eq!(Size::_128KB.check_bounds(65536, 65536), Ok(()));
    assert_eq!(
        Size::_128KB.check_bounds(131072, 1),
        Err(OutOfBounds(Size::_128KB))
    );
    assert_eq!(
        Size::_128KB.check_bounds(usize::MAX, usize::MAX),
        Err(OutOfBounds(Size::_128KB))
    );
}

#[test]
fn device_size() {
    assert_eq!(Device::MX29L010.size(), Size::_128KB);
    assert_eq!(Device::LE26FV10N1TS.size(), Size::_128KB);
    assert_eq!(Device::MN63F805MNP.size(), Size::_64KB);
    assert_eq!(Device::MX29L512.size(), Size::_64KB);
    assert_eq!(Device::AT29LV512.size(), Size::_64KB);
    assert_eq!(Device::LE39FW512.size(), Size::_64KB);
}

#[test]
fn the_chip_of_sanyo_has_to_be_told_twice_to_end_naming_itself() {
    let mut chip = SimulatedFlash::new(Device::LE26FV10N1TS);
    send_command(&mut chip, Command::EnterIDMode);
    assert_eq!(chip.read_byte(0), 0x62);
    assert_eq!(chip.read_byte(1), 0x13);
    send_command(&mut chip, Command::TerminateMode);
    assert!(chip.identifying);
    assert_eq!(chip.read_byte(0), 0x62);
    send_command(&mut chip, Command::TerminateMode);
    assert!(!chip.identifying);
    assert_eq!(chip.read_byte(0), 0xff);

    let mut chip = SimulatedFlash::new(Device::MX29L010);
    send_command(&mut chip, Command::EnterIDMode);
    send_command(&mut chip, Command::TerminateMode);
    assert!(!chip.identifying);
}
