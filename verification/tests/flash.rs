use gba_save::flash::{
    Device, Error, Flash, Flash128K, Flash64K, Flash64KAtmel, FlashHardware, SimulatedFlash, Size,
    UnknownDeviceId,
};
use gba_save::range::{Bound, Index};

fn at<const MAX: usize>(value: usize) -> Index<MAX> {
    Index::new(value).unwrap()
}

fn flash_64k(flash: Flash<SimulatedFlash>) -> Flash64K<SimulatedFlash> {
    match flash {
        Flash::Flash64K(flash_64k) => flash_64k,
        _ => panic!("assertion failed, expected Flash::Flash64K(..)"),
    }
}

fn flash_64k_atmel(flash: Flash<SimulatedFlash>) -> Flash64KAtmel<SimulatedFlash> {
    match flash {
        Flash::Flash64KAtmel(flash_64k_atmel) => flash_64k_atmel,
        _ => panic!("assertion failed, expected Flash::Flash64KAtmel(..)"),
    }
}

fn flash_128k(flash: Flash<SimulatedFlash>) -> Flash128K<SimulatedFlash> {
    match flash {
        Flash::Flash128K(flash_128k) => flash_128k,
        _ => panic!("assertion failed, expected Flash::Flash128K(..)"),
    }
}

fn detect(device: Device) -> Flash<SimulatedFlash> {
    match Flash::new(SimulatedFlash::new(device)) {
        Ok(flash) => flash,
        Err(unknown) => panic!("assertion failed, expected Ok(..), got Err({:?})", unknown),
    }
}

fn pattern(i: usize) -> [u8; 4] {
    [
        0u8.wrapping_add(i as u8),
        1u8.wrapping_add(i as u8),
        2u8.wrapping_add(i as u8),
        3u8.wrapping_add(i as u8),
    ]
}

#[test]
fn new_64k() {
    flash_64k(detect(Device::MX29L512));
    flash_64k(detect(Device::MN63F805MNP));
    flash_64k(detect(Device::LE39FW512));
}

#[test]
fn empty_range_read_64k() {
    let mut flash = flash_64k(detect(Device::MX29L512));
    let mut buffer = [1, 2, 3, 4];

    assert_eq!(
        flash
            .reader(Bound::Included(at(0)), Bound::Excluded(at(0)))
            .read(&mut buffer),
        0
    );
    assert_eq!(buffer, [1, 2, 3, 4]);
}

#[test]
fn empty_range_write_64k() {
    let mut flash = flash_64k(detect(Device::MX29L512));

    assert_eq!(
        flash
            .writer(Bound::Included(at(0)), Bound::Excluded(at(0)))
            .write(&[1, 2, 3, 4]),
        Err(Error::EndOfWriter)
    );
}

#[test]
fn full_range_64k() {
    let mut flash = detect(Device::MX29L512);
    assert_eq!(flash.reset(), Ok(()));
    let mut flash_64k = flash_64k(flash);
    let mut writer = flash_64k.writer(Bound::Unbounded, Bound::Unbounded);

    for i in 0..16384 {
        assert_eq!(writer.write(&pattern(i)), Ok(4));
    }

    let mut reader = flash_64k.reader(Bound::Unbounded, Bound::Unbounded);
    let mut buf = [0, 0, 0, 0];

    for i in 0..16384 {
        assert_eq!(reader.read(&mut buf), 4);
        assert_eq!(buf, pattern(i));
    }
}

#[test]
fn partial_range_64k() {
    let mut flash = detect(Device::MX29L512);
    assert_eq!(flash.reset(), Ok(()));
    let mut flash_64k = flash_64k(flash);
    let mut writer = flash_64k.writer(Bound::Included(at(42)), Bound::Excluded(at(100)));

    assert_eq!(writer.write(&[b'a'; 100]), Ok(58));

    let mut reader = flash_64k.reader(Bound::Included(at(51)), Bound::Excluded(at(60)));
    let mut buf = [0; 20];

    assert_eq!(reader.read(&mut buf), 9);
    assert_eq!(
        buf,
        [
            b'a', b'a', b'a', b'a', b'a', b'a', b'a', b'a', b'a', 0, 0, 0, 0, 0, 0, 0, 0, 0, 0,
            0
        ]
    );
}

#[test]
fn erase_one_sector_64k() {
    let mut flash = detect(Device::MX29L512);
    assert_eq!(flash.reset(), Ok(()));
    let mut flash_64k = flash_64k(flash);
    // Write some data to it.
    let mut writer = flash_64k.writer(Bound::Unbounded, Bound::Excluded(at(13)));
    assert_eq!(writer.write(b"hello, world!"), Ok(13));

    assert_eq!(
        flash_64k.erase_sectors(Bound::Included(at(0)), Bound::Excluded(at(1))),
        Ok(())
    );

    let mut reader = flash_64k.reader(Bound::Included(at(0)), Bound::Excluded(at(13)));
    let mut buf = [0; 13];

    assert_eq!(reader.read(&mut buf), 13);
    assert_eq!(buf, [0xff; 13]);
}

#[test]
fn erase_all_sectors_64k() {
    let mut flash = detect(Device::MX29L512);
    assert_eq!(flash.reset(), Ok(()));
    let mut flash_64k = flash_64k(flash);
    // Write some data to it.
    let mut writer = flash_64k.writer(Bound::Unbounded, Bound::Unbounded);
    for i in 0..16384 {
        assert_eq!(writer.write(&pattern(i)), Ok(4));
    }

    assert_eq!(
        flash_64k.erase_sectors(Bound::Unbounded, Bound::Unbounded),
        Ok(())
    );

    let mut reader = flash_64k.reader(Bound::Unbounded, Bound::Unbounded);
    let mut buf = [0; 4];

    for _ in 0..16384 {
        assert_eq!(reader.read(&mut buf), 4);
        assert_eq!(buf, [0xff; 4]);
    }
}

#[test]
fn new_64k_atmel() {
    flash_64k_atmel(detect(Device::AT29LV512));
}

#[test]
fn empty_range_read_64k_atmel() {
    let mut flash = flash_64k_atmel(detect(Device::AT29LV512));
    let mut buffer = [1, 2, 3, 4];

    assert_eq!(
        flash
            .reader(Bound::Included(at(0)), Bound::Excluded(at(0)))
            .read(&mut buffer),
        0
    );
    assert_eq!(buffer, [1, 2, 3, 4]);
}

#[test]
fn empty_range_write_64k_atmel() {
    let mut flash = flash_64k_atmel(detect(Device::AT29LV512));

    assert_eq!(
        flash
            .writer(Bound::Included(at(0)), Bound::Excluded(at(0)))
            .write(&[1, 2, 3, 4]),
        Err(Error::EndOfWriter)
    );
}

#[test]
fn full_range_64k_atmel() {
    let mut flash = detect(Device::AT29LV512);
    assert_eq!(flash.reset(), Ok(()));
    let mut flash_64k_atmel = flash_64k_atmel(flash);
    let mut writer = flash_64k_atmel.writer(Bound::Unbounded, Bound::Unbounded);

    for i in 0..16384 {
        assert_eq!(writer.write(&pattern(i)), Ok(4));
    }
    assert_eq!(writer.flush(), Ok(()));

    let mut reader = flash_64k_atmel.reader(Bound::Unbounded, Bound::Unbounded);
    let mut buf = [0, 0, 0, 0];

    for i in 0..16384 {
        assert_eq!(reader.read(&mut buf), 4);
        assert_eq!(buf, pattern(i), "i: {}", i);
    }
}

#[test]
fn partial_range_64k_atmel() {
    let mut flash = detect(Device::AT29LV512);
    assert_eq!(flash.reset(), Ok(()));
    let mut flash_64k_atmel = flash_64k_atmel(flash);
    let mut writer = flash_64k_atmel.writer(Bound::Included(at(42)), Bound::Excluded(at(130)));

    assert_eq!(writer.write(&[b'a'; 100]), Ok(88));
    assert_eq!(writer.flush(), Ok(()));

    let mut reader = flash_64k_atmel.reader(Bound::Included(at(121)), Bound::Excluded(at(130)));
    let mut buf = [0; 20];

    assert_eq!(reader.read(&mut buf), 9);
    assert_eq!(
        buf,
        [
            b'a', b'a', b'a', b'a', b'a', b'a', b'a', b'a', b'a', 0, 0, 0, 0, 0, 0, 0, 0, 0, 0,
            0
        ]
    );
}

#[test]
fn new_128k() {
    flash_128k(detect(Device::MX29L010));
    flash_128k(detect(Device::LE26FV10N1TS));
}

#[test]
fn empty_range_read_128k() {
    let mut flash = flash_128k(detect(Device::MX29L010));
    let mut buffer = [1, 2, 3, 4];

    assert_eq!(
        flash
            .reader(Bound::Included(at(0)), Bound::Excluded(at(0)))
            .read(&mut buffer),
        0
    );
    assert_eq!(buffer, [1, 2, 3, 4]);
}

#[test]
fn empty_range_write_128k() {
    let mut flash = flash_128k(detect(Device::MX29L010));

    assert_eq!(
        flash
            .writer(Bound::Included(at(0)), Bound::Excluded(at(0)))
            .write(&[1, 2, 3, 4]),
        Err(Error::EndOfWriter)
    );
}

#[test]
fn full_range_128k() {
    let mut flash = detect(Device::MX29L010);
    assert_eq!(flash.reset(), Ok(()));
    let mut flash_128k = flash_128k(flash);
    let mut writer = flash_128k.writer(Bound::Unbounded, Bound::Unbounded);

    for i in 0..32768 {
        assert_eq!(writer.write(&pattern(i)), Ok(4));
    }

    let mut reader = flash_128k.reader(Bound::Unbounded, Bound::Unbounded);
    let mut buf = [0, 0, 0, 0];

    for i in 0..32768 {
        assert_eq!(reader.read(&mut buf), 4);
        assert_eq!(buf, pattern(i));
    }
}

#[test]
fn partial_range_128k() {
    let mut flash = detect(Device::MX29L010);
    assert_eq!(flash.reset(), Ok(()));
    let mut flash_128k = flash_128k(flash);
    let mut writer = flash_128k.writer(Bound::Included(at(42)), Bound::Excluded(at(100)));

    assert_eq!(writer.write(&[b'a'; 100]), Ok(58));

    let mut reader = flash_128k.reader(Bound::Included(at(51)), Bound::Excluded(at(60)));
    let mut buf = [0; 20];

    assert_eq!(reader.read(&mut buf), 9);
    assert_eq!(
        buf,
        [
            b'a', b'a', b'a', b'a', b'a', b'a', b'a', b'a', b'a', 0, 0, 0, 0, 0, 0, 0, 0, 0, 0,
            0
        ]
    );
}

#[test]
fn erase_one_sector_128k() {
    let mut flash = detect(Device::MX29L010);
    assert_eq!(flash.reset(), Ok(()));
    let mut flash_128k = flash_128k(flash);
    // Write some data to it.
    let mut writer = flash_128k.writer(Bound::Unbounded, Bound::Excluded(at(13)));
    assert_eq!(writer.write(b"hello, world!"), Ok(13));

    assert_eq!(
        flash_128k.erase_sectors(Bound::Included(at(0)), Bound::Excluded(at(1))),
        Ok(())
    );

    let mut reader = flash_128k.reader(Bound::Included(at(0)), Bound::Excluded(at(13)));
    let mut buf = [0; 13];

    assert_eq!(reader.read(&mut buf), 13);
    assert_eq!(buf, [0xff; 13]);
}

#[test]
fn erase_all_sectors_128k() {
    let mut flash = detect(Device::MX29L010);
    assert_eq!(flash.reset(), Ok(()));
    let mut flash_128k = flash_128k(flash);
    // Write some data to it.
    let mut writer = flash_128k.writer(Bound::Unbounded, Bound::Unbounded);
    for i in 0..32768 {
        assert_eq!(writer.write(&pattern(i)), Ok(4));
    }

    assert_eq!(
        flash_128k.erase_sectors(Bound::Unbounded, Bound::Unbounded),
        Ok(())
    );

    let mut reader = flash_128k.reader(Bound::Unbounded, Bound::Unbounded);
    let mut buf = [0; 4];

    for _ in 0..32768 {
        assert_eq!(reader.read(&mut buf), 4);
        assert_eq!(buf, [0xff; 4]);
    }
}

#[test]
fn new_unknown() {
    match Flash::new(SimulatedFlash::absent()) {
        Ok(_) => panic!("assertion failed, expected Err(..)"),
        Err(unknown) => assert_eq!(unknown, UnknownDeviceId(0xffff)),
    }
}

#[test]
fn reset() {
    let mut flash = detect(Device::LE39FW512);

    assert_eq!(flash.reset(), Ok(()));
}

#[test]
fn new_reports_the_id_that_no_device_has() {
    match Flash::new(SimulatedFlash::with_id(0x1234)) {
        Ok(_) => panic!("assertion failed, expected Err(..)"),
        Err(unknown) => assert_eq!(unknown, UnknownDeviceId(0x1234)),
    }
}

#[test]
fn new_sets_the_backup_wait_cycles_and_leaves_the_chip_at_rest() {
    let mut chip = SimulatedFlash::new(Device::LE26FV10N1TS);
    chip.waitstate_control = 0xfff0;
    let flash = flash_128k(match Flash::new(chip) {
        Ok(flash) => flash,
        Err(_) => panic!("assertion failed, expected Ok(..)"),
    });

    assert_eq!(flash.hardware.waitstate_control, 0xfff3);
    assert!(!flash.hardware.identifying);
    assert!(!flash.hardware.erase_armed);
    assert_eq!(flash.hardware.bank_selections, 0);
}

#[test]
fn size_follows_the_variant() {
    assert_eq!(detect(Device::MX29L010).size(), Size::_128KB);
    assert_eq!(detect(Device::LE26FV10N1TS).size(), Size::_128KB);
    assert_eq!(detect(Device::MN63F805MNP).size(), Size::_64KB);
    assert_eq!(detect(Device::MX29L512).size(), Size::_64KB);
    assert_eq!(detect(Device::AT29LV512).size(), Size::_64KB);
    assert_eq!(detect(Device::LE39FW512).size(), Size::_64KB);
    assert_eq!(Size::_64KB.bytes(), 65536);
    assert_eq!(Size::_128KB.bytes(), 131072);
}

#[test]
fn write_across_the_banks_switches_once() {
    let mut flash_128k = flash_128k(detect(Device::MX29L010));
    let mut writer = flash_128k.writer(Bound::Included(at(65534)), Bound::Excluded(at(65538)));
    let before = writer.hardware.bank_selections;

    assert_eq!(writer.write(&[1, 2, 3, 4]), Ok(4));
    assert_eq!(writer.hardware.bank_selections, before + 1);
    assert_eq!(writer.hardware.bank, 1);

    let mut reader = flash_128k.reader(Bound::Included(at(65534)), Bound::Excluded(at(65538)));
    let before = reader.hardware.bank_selections;
    let mut buf = [0; 4];

    assert_eq!(reader.read(&mut buf), 4);
    assert_eq!(buf, [1, 2, 3, 4]);
    assert_eq!(reader.hardware.bank_selections, before + 1);

    assert_eq!(flash_128k.hardware.cells[65534..65538], [1, 2, 3, 4]);
}

#[test]
fn atmel_write_keeps_the_bytes_of_the_page_before_it() {
    let mut chip = SimulatedFlash::new(Device::AT29LV512);
    for i in 0..256 {
        chip.cells[i] = i as u8;
    }
    let mut flash = flash_64k_atmel(match Flash::new(chip) {
        Ok(flash) => flash,
        Err(_) => panic!("assertion failed, expected Ok(..)"),
    });
    let data: Vec<u8> = (0..100).map(|i| 200u8.wrapping_add(i)).collect();
    let mut writer = flash.writer(Bound::Included(at(42)), Bound::Excluded(at(142)));

    assert_eq!(writer.write(&data), Ok(100));
    assert_eq!(writer.flush(), Ok(()));
    assert!(writer.hardware.interrupts_enabled);

    let mut reader = flash.reader(Bound::Unbounded, Bound::Excluded(at(256)));
    let mut buf = [0; 256];
    assert_eq!(reader.read(&mut buf), 256);
    for i in 0..256 {
        if (42..142).contains(&i) {
            assert_eq!(buf[i], data[i - 42], "i: {}", i);
        } else {
            assert_eq!(buf[i], i as u8, "i: {}", i);
        }
    }
}

#[test]
fn atmel_holds_a_page_back_until_it_is_flushed() {
    let mut flash = flash_64k_atmel(detect(Device::AT29LV512));
    let mut writer = flash.writer(Bound::Included(at(128)), Bound::Excluded(at(256)));

    assert_eq!(writer.write(&[7; 100]), Ok(100));
    assert!(!writer.flushed);
    assert_eq!(writer.hardware.cells[128..228], [0xff; 100]);
    assert_eq!(writer.flush(), Ok(()));
    assert!(writer.flushed);
    assert_eq!(writer.hardware.cells[128..228], [7; 100]);
    assert_eq!(writer.hardware.cells[228..256], [0xff; 28]);
    assert_eq!(writer.write(&[9; 100]), Ok(28));
    assert!(writer.flushed);
    assert_eq!(writer.hardware.cells[228..256], [9; 28]);
    assert_eq!(writer.write(&[9; 100]), Err(Error::EndOfWriter));
}

#[test]
fn writing_a_cell_twice_times_out() {
    let mut flash = flash_64k(detect(Device::MX29L512));
    let mut writer = flash.writer(Bound::Included(at(10)), Bound::Excluded(at(20)));
    assert_eq!(writer.write(&[0x0f, 0xf0]), Ok(2));

    let mut writer = flash.writer(Bound::Included(at(9)), Bound::Excluded(at(20)));
    assert_eq!(writer.write(&[0x11, 0x0e, 0x0f]), Err(Error::OperationTimedOut));
    assert_eq!(writer.address, 9);
    assert_eq!(writer.len, 11);
    assert_eq!(flash.hardware.cells[9..13], [0x11, 0x0e, 0x00, 0xff]);
}

#[test]
fn erase_across_the_banks() {
    let mut flash = flash_128k(detect(Device::LE26FV10N1TS));
    let mut writer = flash.writer(Bound::Unbounded, Bound::Unbounded);
    for i in 0..32768 {
        assert_eq!(writer.write(&pattern(i)), Ok(4));
    }
    let before = flash.hardware.bank_selections;

    assert_eq!(
        flash.erase_sectors(Bound::Included(at(15)), Bound::Included(at(16))),
        Ok(())
    );
    assert_eq!(flash.hardware.bank_selections, before + 2);

    assert_eq!(flash.hardware.cells[0xf000 - 1], 0x02);
    assert_eq!(flash.hardware.cells[0xf000..0x11000], [0xff; 0x2000]);
    assert_eq!(flash.hardware.cells[0x11000], 0x00);
}

#[test]
fn an_absent_chip_reads_as_erased() {
    let mut chip = SimulatedFlash::absent();
    chip.write_byte(0x5555, 0xaa);
    chip.write_byte(0x2aaa, 0x55);
    chip.write_byte(0x5555, 0xa0);
    chip.write_byte(0, 0x12);

    assert_eq!(chip.read_byte(0), 0xff);
}

fn slow(device: Device, program_latency: usize, erase_latency: usize) -> Flash<SimulatedFlash> {
    let mut chip = SimulatedFlash::new(device);
    chip.program_latency = program_latency;
    chip.erase_latency = erase_latency;
    match Flash::new(chip) {
        Ok(flash) => flash,
        Err(unknown) => panic!("assertion failed, expected Ok(..), got Err({:?})", unknown),
    }
}

#[test]
fn a_chip_that_is_done_at_the_last_read_is_in_time() {
    let mut flash = slow(Device::MX29L512, 20000, 20000);
    assert_eq!(flash.reset(), Ok(()));
    let mut flash = flash_64k(flash);
    assert_eq!(
        flash.erase_sectors(Bound::Included(at(3)), Bound::Included(at(4))),
        Ok(())
    );
    let mut writer = flash.writer(Bound::Unbounded, Bound::Unbounded);
    assert_eq!(writer.write(&[1, 2, 3]), Ok(3));
    assert_eq!(flash.hardware.busy, 0);
    assert_eq!(flash.hardware.cells[0..4], [1, 2, 3, 0xff]);
}

#[test]
fn a_chip_that_is_too_slow_to_program_times_out_at_the_first_byte() {
    let mut flash = flash_64k(slow(Device::MX29L512, 20001, 1));
    let mut writer = flash.writer(Bound::Included(at(7)), Bound::Unbounded);

    assert_eq!(writer.write(&[1, 2, 3]), Err(Error::OperationTimedOut));
    assert_eq!(writer.address, 7);
    assert_eq!(flash.hardware.busy, 0);
    assert_eq!(flash.hardware.cells[7..10], [1, 0xff, 0xff]);

    let mut flash = flash_128k(slow(Device::MX29L010, 30000, 1));
    let mut writer = flash.writer(Bound::Included(at(65536)), Bound::Unbounded);

    assert_eq!(writer.write(&[1, 2, 3]), Err(Error::OperationTimedOut));
    assert_eq!(flash.hardware.busy, 9999);
    assert_eq!(flash.hardware.cells[65536..65539], [1, 0xff, 0xff]);
}

#[test]
fn a_chip_that_is_too_slow_to_erase_times_out_at_the_first_sector() {
    let mut chip = SimulatedFlash::new(Device::LE39FW512);
    for cell in chip.cells.iter_mut() {
        *cell = 0;
    }
    chip.erase_latency = 20001;
    let mut flash = flash_64k(match Flash::new(chip) {
        Ok(flash) => flash,
        Err(_) => panic!("assertion failed, expected Ok(..)"),
    });

    assert_eq!(
        flash.erase_sectors(Bound::Included(at(2)), Bound::Unbounded),
        Err(Error::OperationTimedOut)
    );
    assert_eq!(flash.hardware.cells[0x2000 - 1], 0);
    assert_eq!(flash.hardware.cells[0x2000..0x3000], [0xff; 0x1000]);
    assert_eq!(flash.hardware.cells[0x3000], 0);

    let mut flash = slow(Device::LE26FV10N1TS, 1, 50000);
    assert_eq!(flash.reset(), Err(Error::OperationTimedOut));
    let mut flash = flash_128k(flash);
    assert_eq!(flash.hardware.busy, 29999);
    flash.hardware.busy = 0;
    assert_eq!(
        flash.erase_sectors(Bound::Included(at(0)), Bound::Excluded(at(0))),
        Ok(())
    );
}

#[test]
fn a_busy_chip_is_read_as_its_status() {
    let mut chip = SimulatedFlash::new(Device::MX29L512);
    chip.cells[0] = 0x12;
    chip.cells[1] = 0x34;
    chip.cells[2] = 0x56;
    chip.pending = 0x0f;
    chip.busy = 2;
    let mut flash = flash_64k(Flash::Flash64K(Flash64K { hardware: chip }));
    let mut reader = flash.reader(Bound::Unbounded, Bound::Unbounded);
    let mut buf = [0; 3];

    assert_eq!(reader.read(&mut buf), 3);
    assert_eq!(buf, [0x8f, 0x8f, 0x56]);
    assert_eq!(flash.hardware.busy, 0);
}

#[test]
fn an_atmel_chip_that_is_too_slow_times_out_at_the_first_page() {
    let mut flash = flash_64k_atmel(slow(Device::AT29LV512, 20001, 1));
    let mut writer = flash.writer(Bound::Included(at(100)), Bound::Unbounded);

    assert_eq!(writer.write(&[5; 27]), Ok(27));
    assert_eq!(writer.write(&[6; 300]), Err(Error::OperationTimedOut));
    assert_eq!(writer.address, 128);
    assert_eq!(writer.len, 65536 - 128);
    assert!(writer.flushed);
    assert_eq!(writer.unflushed(), 0);
    assert_eq!(flash.hardware.cells[99..129], {
        let mut expected = [5; 30];
        expected[0] = 0xff;
        expected[28] = 6;
        expected[29] = 0xff;
        expected
    });

    let mut flash = flash_64k_atmel(slow(Device::AT29LV512, 20001, 1));
    let mut writer = flash.writer(Bound::Included(at(100)), Bound::Unbounded);
    assert_eq!(writer.write(&[5; 27]), Ok(27));
    assert_eq!(writer.unflushed(), 127);
    assert_eq!(writer.close(), Err(Error::OperationTimedOut));
}

#[test]
fn a_page_that_is_not_what_was_written_fails_to_verify() {
    let mut chip = SimulatedFlash::new(Device::AT29LV512);
    for i in 0..128 {
        chip.cells[256 + i] = i as u8;
    }
    let mut page = [0; 128];
    for i in 0..128 {
        page[i] = i as u8;
    }
    assert_eq!(
        gba_save::flash::command::verify_bytes(&mut chip, 256, &page, 20),
        Ok(())
    );
    page[5] = 0xee;
    assert_eq!(
        gba_save::flash::command::verify_bytes(&mut chip, 256, &page, 20),
        Err(Error::WriteFailure)
    );
    page[127] = 0xee;
    assert_eq!(
        gba_save::flash::command::verify_bytes(&mut chip, 256, &page, 20),
        Err(Error::OperationTimedOut)
    );
}

#[test]
fn close_writes_what_is_held_back() {
    let mut flash = flash_64k_atmel(detect(Device::AT29LV512));
    let mut writer = flash.writer(Bound::Included(at(1000)), Bound::Unbounded);
    assert_eq!(writer.write(b"held back"), Ok(9));
    assert_eq!(writer.unflushed(), 1009 % 128);
    assert_eq!(writer.close(), Ok(()));
    assert_eq!(&flash.hardware.cells[1000..1009], b"held back");
    assert_eq!(flash.hardware.cells[999], 0xff);
    assert_eq!(flash.hardware.cells[1009], 0xff);
}

#[test]
fn erase_of_the_sector_of_bytes_that_were_written() {
    let mut flash = flash_64k(detect(Device::MN63F805MNP));
    let mut writer = flash.writer(Bound::Included(at(0x4ffe)), Bound::Excluded(at(0x5002)));
    assert_eq!(writer.write(&[1, 2, 3, 4]), Ok(4));

    assert_eq!(
        flash.erase_sectors(Bound::Included(at(5)), Bound::Included(at(5))),
        Ok(())
    );

    let mut reader = flash.reader(Bound::Included(at(0x4ffe)), Bound::Excluded(at(0x5002)));
    let mut buf = [0; 4];
    assert_eq!(reader.read(&mut buf), 4);
    assert_eq!(buf, [1, 2, 0xff, 0xff]);
}

fn worn(device: Device, mask: u8) -> Flash<SimulatedFlash> {
    let mut chip = SimulatedFlash::new(device);
    chip.wear(mask);
    match Flash::new(chip) {
        Ok(flash) => flash,
        Err(unknown) => panic!("assertion failed, expected Ok(..), got Err({:?})", unknown),
    }
}

#[test]
fn a_worn_chip_does_not_erase() {
    let mut flash = worn(Device::MX29L512, 0xbf);
    assert_eq!(flash.reset(), Err(Error::OperationTimedOut));
    let mut flash = flash_64k(flash);
    assert_eq!(flash.hardware.cells[0..3], [0xbf; 3]);
    assert_eq!(flash.hardware.busy, 0);
    assert_eq!(
        flash.erase_sectors(Bound::Unbounded, Bound::Unbounded),
        Err(Error::OperationTimedOut)
    );

    // What the cells can hold is programmed all the same.
    let mut writer = flash.writer(Bound::Unbounded, Bound::Unbounded);
    assert_eq!(writer.write(&[0x3f, 0x80]), Ok(2));
    assert_eq!(writer.write(&[0x40]), Err(Error::OperationTimedOut));
    assert_eq!(flash.hardware.cells[0..4], [0x3f, 0x80, 0x00, 0xbf]);
}

#[test]
fn a_worn_atmel_chip_fails_to_verify_what_it_cannot_hold() {
    let mut flash = flash_64k_atmel(worn(Device::AT29LV512, 0xfe));
    let mut writer = flash.writer(Bound::Included(at(120)), Bound::Unbounded);

    // A page that the chip can hold, and one of which it cannot hold a byte.
    let mut data = [0x10; 300];
    data[200] = 0x11;
    assert_eq!(writer.write(&data[..100]), Ok(100));
    assert_eq!(writer.write(&data[100..]), Err(Error::WriteFailure));
    assert_eq!(writer.address, 384);
    assert_eq!(writer.len, 65536 - 384);
    assert!(writer.flushed);
    assert_eq!(flash.hardware.busy, 0);
    assert_eq!(flash.hardware.cells[119..121], [0xfe, 0x10]);
    assert_eq!(flash.hardware.cells[256..385], {
        let mut expected = [0x10; 129];
        expected[128] = 0xfe;
        expected
    });
}

#[test]
fn a_worn_atmel_chip_times_out_on_the_last_byte_of_a_page() {
    let mut flash = flash_64k_atmel(worn(Device::AT29LV512, 0xfe));
    let mut writer = flash.writer(Bound::Unbounded, Bound::Unbounded);

    let mut page = [0x10; 128];
    page[127] = 0x01;
    assert_eq!(writer.write(&page), Err(Error::OperationTimedOut));
    assert_eq!(writer.address, 128);
    assert_eq!(flash.hardware.cells[126..129], [0x10, 0x00, 0xfe]);

    let mut writer = flash.writer(Bound::Included(at(128)), Bound::Unbounded);
    assert_eq!(writer.write(&[0x03; 5]), Ok(5));
    assert_eq!(writer.flush(), Err(Error::WriteFailure));
    assert_eq!(flash.hardware.cells[128..134], [2, 2, 2, 2, 2, 0xfe]);
}
