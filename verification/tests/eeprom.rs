use gba_save::eeprom::{Eeprom512B, Eeprom8K, EepromHardware, Error, SimulatedEeprom};
use gba_save::range::{Bound, Index};

fn at<const MAX: usize>(value: usize) -> Index<MAX> {
    Index::new(value).unwrap()
}

fn pattern(i: usize) -> [u8; 4] {
    [
        0u8.wrapping_add(i as u8),
        1u8.wrapping_add(i as u8),
        2u8.wrapping_add(i as u8),
        3u8.wrapping_add(i as u8),
    ]
}

fn slow(mut chip: SimulatedEeprom, polls: usize) -> SimulatedEeprom {
    chip.write_latency = polls;
    chip
}

fn empty_range_read_512b(chip: SimulatedEeprom) {
    let mut eeprom = Eeprom512B::new(chip);
    let mut buf = [1, 2, 3, 4];

    assert_eq!(
        eeprom
            .reader(Bound::Included(at(0)), Bound::Excluded(at(0)))
            .read(&mut buf),
        0
    );
    assert_eq!(buf, [1, 2, 3, 4]);
}

fn empty_range_write_512b(chip: SimulatedEeprom) {
    let mut eeprom = Eeprom512B::new(chip);
    assert_eq!(
        eeprom
            .writer(Bound::Included(at(0)), Bound::Excluded(at(0)))
            .write(&[0]),
        Err(Error::EndOfWriter)
    );
}

fn full_range_512b(chip: SimulatedEeprom) {
    let mut eeprom = Eeprom512B::new(chip);
    let mut writer = eeprom.writer(Bound::Unbounded, Bound::Unbounded);

    for i in 0..128 {
        assert_eq!(writer.write(&pattern(i)), Ok(4));
    }
    assert_eq!(writer.flush(), Ok(()));

    let mut reader = eeprom.reader(Bound::Unbounded, Bound::Unbounded);
    let mut buf = [0; 4];

    for i in 0..128 {
        assert_eq!(reader.read(&mut buf), 4);
        assert_eq!(buf, pattern(i), "i = {i}");
    }
}

fn partial_range_512b(chip: SimulatedEeprom) {
    let mut eeprom = Eeprom512B::new(chip);
    let mut writer = eeprom.writer(Bound::Included(at(42)), Bound::Excluded(at(100)));

    assert_eq!(writer.write(&[b'a'; 100]), Ok(58));
    assert_eq!(writer.flush(), Ok(()));

    let mut reader = eeprom.reader(Bound::Included(at(51)), Bound::Excluded(at(60)));
    let mut buf = [0; 20];

    assert_eq!(reader.read(&mut buf), 9);
    assert_eq!(
        buf,
        [
            b'a', b'a', b'a', b'a', b'a', b'a', b'a', b'a', b'a', 0, 0, 0, 0, 0, 0, 0, 0, 0, 0,
            0
        ]
    );
}

fn offset_512b(chip: SimulatedEeprom) {
    let mut eeprom = Eeprom512B::new(chip);
    let mut writer = eeprom.writer(Bound::Included(at(4)), Bound::Excluded(at(7)));

    assert_eq!(writer.write(b"abc"), Ok(3));
    assert_eq!(writer.flush(), Ok(()));

    let mut reader = eeprom.reader(Bound::Included(at(4)), Bound::Excluded(at(7)));
    let mut buf = [0; 3];

    assert_eq!(reader.read(&mut buf), 3);
    assert_eq!(&buf, b"abc");
}

fn timed_out_512b(chip: SimulatedEeprom) {
    let mut eeprom = Eeprom512B::new(chip);
    let mut writer = eeprom.writer(Bound::Unbounded, Bound::Unbounded);

    assert_eq!(
        writer.write(b"hello, world!"),
        Err(Error::OperationTimedOut)
    );
}

fn empty_range_read_8k(chip: SimulatedEeprom) {
    let mut eeprom = Eeprom8K::new(chip);
    let mut buf = [1, 2, 3, 4];

    assert_eq!(
        eeprom
            .reader(Bound::Included(at(0)), Bound::Excluded(at(0)))
            .read(&mut buf),
        0
    );
    assert_eq!(buf, [1, 2, 3, 4]);
}

fn empty_range_write_8k(chip: SimulatedEeprom) {
    let mut eeprom = Eeprom8K::new(chip);
    assert_eq!(
        eeprom
            .writer(Bound::Included(at(0)), Bound::Excluded(at(0)))
            .write(&[0]),
        Err(Error::EndOfWriter)
    );
}

fn full_range_8k(chip: SimulatedEeprom) {
    let mut eeprom = Eeprom8K::new(chip);
    let mut writer = eeprom.writer(Bound::Unbounded, Bound::Unbounded);

    for i in 0..2048 {
        assert_eq!(writer.write(&pattern(i)), Ok(4), "i = {i}");
    }
    assert_eq!(writer.flush(), Ok(()));

    let mut reader = eeprom.reader(Bound::Unbounded, Bound::Unbounded);
    let mut buf = [0; 4];

    for i in 0..2048 {
        assert_eq!(reader.read(&mut buf), 4);
        assert_eq!(buf, pattern(i), "i = {i}");
    }
}

fn partial_range_8k(chip: SimulatedEeprom) {
    let mut eeprom = Eeprom8K::new(chip);
    let mut writer = eeprom.writer(Bound::Included(at(42)), Bound::Excluded(at(100)));

    assert_eq!(writer.write(&[b'a'; 100]), Ok(58));
    assert_eq!(writer.flush(), Ok(()));

    let mut reader = eeprom.reader(Bound::Included(at(51)), Bound::Excluded(at(60)));
    let mut buf = [0; 20];

    assert_eq!(reader.read(&mut buf), 9);
    assert_eq!(
        buf,
        [
            b'a', b'a', b'a', b'a', b'a', b'a', b'a', b'a', b'a', 0, 0, 0, 0, 0, 0, 0, 0, 0, 0,
            0
        ]
    );
}

fn offset_8k(chip: SimulatedEeprom) {
    let mut eeprom = Eeprom8K::new(chip);
    let mut writer = eeprom.writer(Bound::Included(at(4)), Bound::Excluded(at(7)));

    assert_eq!(writer.write(b"abc"), Ok(3));
    assert_eq!(writer.flush(), Ok(()));

    let mut reader = eeprom.reader(Bound::Included(at(4)), Bound::Excluded(at(7)));
    let mut buf = [0; 3];

    assert_eq!(reader.read(&mut buf), 3);
    assert_eq!(&buf, b"abc");
}

fn timed_out_8k(chip: SimulatedEeprom) {
    let mut eeprom = Eeprom8K::new(chip);
    let mut writer = eeprom.writer(Bound::Unbounded, Bound::Unbounded);

    assert_eq!(
        writer.write(b"hello, world!"),
        Err(Error::OperationTimedOut)
    );
}

#[test]
fn eeprom_empty_range_read_512b() {
    empty_range_read_512b(SimulatedEeprom::new_512b());
}

#[test]
fn eeprom_empty_range_write_512b() {
    empty_range_write_512b(SimulatedEeprom::new_512b());
}

#[test]
fn eeprom_full_range_512b() {
    full_range_512b(SimulatedEeprom::new_512b());
}

#[test]
fn eeprom_partial_range_512b() {
    partial_range_512b(SimulatedEeprom::new_512b());
}

#[test]
fn eeprom_offset_512b() {
    offset_512b(SimulatedEeprom::new_512b());
}

#[test]
fn eeprom_timed_out_512b() {
    timed_out_512b(slow(SimulatedEeprom::new_512b(), 10000));
}

#[test]
fn eeprom_empty_range_read_8k() {
    empty_range_read_8k(SimulatedEeprom::new_8k());
}

#[test]
fn eeprom_empty_range_write_8k() {
    empty_range_write_8k(SimulatedEeprom::new_8k());
}

#[test]
fn eeprom_full_range_8k() {
    full_range_8k(SimulatedEeprom::new_8k());
}

#[test]
fn eeprom_partial_range_8k() {
    partial_range_8k(SimulatedEeprom::new_8k());
}

#[test]
fn eeprom_offset_8k() {
    offset_8k(SimulatedEeprom::new_8k());
}

#[test]
fn eeprom_timed_out_8k() {
    timed_out_8k(slow(SimulatedEeprom::new_8k(), 10000));
}

// The same on a chip that takes as long as it may, and on one that never gets ready.

#[test]
fn mod_empty_range_read_512b() {
    empty_range_read_512b(slow(SimulatedEeprom::new_512b(), 9999));
}

#[test]
fn mod_empty_range_write_512b() {
    empty_range_write_512b(slow(SimulatedEeprom::new_512b(), 9999));
}

#[test]
fn mod_full_range_512b() {
    full_range_512b(slow(SimulatedEeprom::new_512b(), 9999));
}

#[test]
fn mod_partial_range_512b() {
    partial_range_512b(slow(SimulatedEeprom::new_512b(), 9999));
}

#[test]
fn mod_offset_512b() {
    offset_512b(slow(SimulatedEeprom::new_512b(), 9999));
}

#[test]
fn mod_timed_out_512b() {
    timed_out_512b(slow(SimulatedEeprom::new_512b(), usize::MAX));
}

#[test]
fn mod_empty_range_read_8k() {
    empty_range_read_8k(slow(SimulatedEeprom::new_8k(), 9999));
}

#[test]
fn mod_empty_range_write_8k() {
    empty_range_write_8k(slow(SimulatedEeprom::new_8k(), 9999));
}

#[test]
fn mod_full_range_8k() {
    full_range_8k(slow(SimulatedEeprom::new_8k(), 100));
}

#[test]
fn mod_partial_range_8k() {
    partial_range_8k(slow(SimulatedEeprom::new_8k(), 9999));
}

#[test]
fn mod_offset_8k() {
    offset_8k(slow(SimulatedEeprom::new_8k(), 9999));
}

#[test]
fn mod_timed_out_8k() {
    timed_out_8k(slow(SimulatedEeprom::new_8k(), usize::MAX));
}

#[test]
fn write_within_a_sector_keeps_the_rest_of_it() {
    let mut chip = SimulatedEeprom::new_512b();
    for i in 0..16 {
        chip.contents[i] = 0x10 + i as u8;
    }
    let mut eeprom = Eeprom512B::new(chip);
    let mut writer = eeprom.writer(Bound::Included(at(4)), Bound::Excluded(at(7)));

    assert_eq!(writer.write(b"abc"), Ok(3));
    assert!(writer.writer.dirty);
    assert_eq!(writer.writer.hardware.contents[4..7], [0x14, 0x15, 0x16]);
    assert_eq!(writer.flush(), Ok(()));
    assert!(!writer.writer.dirty);

    let mut reader = eeprom.reader(Bound::Unbounded, Bound::Excluded(at(16)));
    let mut buf = [0; 16];
    assert_eq!(reader.read(&mut buf), 16);
    assert_eq!(
        buf,
        [
            0x10, 0x11, 0x12, 0x13, b'a', b'b', b'c', 0x17, 0x18, 0x19, 0x1a, 0x1b, 0x1c, 0x1d,
            0x1e, 0x1f
        ]
    );
}

#[test]
fn write_across_sectors_from_within_one() {
    let mut chip = SimulatedEeprom::new_8k();
    for i in 0..32 {
        chip.contents[8000 + i] = i as u8;
    }
    let mut eeprom = Eeprom8K::new(chip);
    let mut writer = eeprom.writer(Bound::Included(at(8005)), Bound::Included(at(8020)));

    assert_eq!(writer.write(&[0xaa; 20]), Ok(16));
    assert_eq!(writer.write(&[0xaa; 20]), Err(Error::EndOfWriter));
    assert_eq!(writer.flush(), Ok(()));

    for i in 0..32 {
        let expected = if (5..21).contains(&i) { 0xaa } else { i as u8 };
        assert_eq!(eeprom.hardware.contents[8000 + i], expected, "i = {i}");
    }
}

#[test]
fn write_leaves_interrupts_as_they_were_and_sets_the_wait_cycles() {
    let mut chip = SimulatedEeprom::new_512b();
    chip.waitstate_control = 0x4017;
    let mut eeprom = Eeprom512B::new(chip);
    let mut writer = eeprom.writer(Bound::Unbounded, Bound::Unbounded);
    assert_eq!(writer.write(&[1; 8]), Ok(8));
    assert!(eeprom.hardware.interrupts_enabled);
    assert_eq!(eeprom.hardware.waitstate_control, 0x4317);

    let mut chip = SimulatedEeprom::new_512b();
    chip.interrupts_enabled = false;
    let mut eeprom = Eeprom512B::new(chip);
    let mut buf = [0; 8];
    assert_eq!(
        eeprom
            .reader(Bound::Unbounded, Bound::Unbounded)
            .read(&mut buf),
        8
    );
    assert!(!eeprom.hardware.interrupts_enabled);
    assert_eq!(eeprom.hardware.waitstate_control, 0x0300);
}

#[test]
fn timed_out_write_stops_at_the_end_of_the_first_sector() {
    let mut eeprom = Eeprom512B::new(slow(SimulatedEeprom::new_512b(), 10000));
    let mut writer = eeprom.writer(Bound::Included(at(3)), Bound::Unbounded);

    assert_eq!(writer.write(&[7; 4]), Ok(4));
    assert_eq!(writer.write(&[7; 20]), Err(Error::OperationTimedOut));
    assert_eq!(writer.writer.address, 8);
    assert_eq!(writer.writer.len, 504);
    assert_eq!(writer.writer.hardware.busy, 0);
    assert_eq!(
        eeprom.hardware.contents[0..9],
        [0xff, 0xff, 0xff, 7, 7, 7, 7, 7, 0xff]
    );
}

#[test]
fn flush_times_out_on_a_chip_that_stays_busy() {
    let mut eeprom = Eeprom512B::new(slow(SimulatedEeprom::new_512b(), 20000));
    let mut writer = eeprom.writer(Bound::Unbounded, Bound::Unbounded);

    assert_eq!(writer.write(&[7; 4]), Ok(4));
    assert_eq!(writer.flush(), Err(Error::OperationTimedOut));
    assert_eq!(writer.writer.hardware.busy, 10000);
    assert_eq!(writer.flush(), Ok(()));
}

#[test]
fn flush_without_anything_held_back_does_nothing() {
    let mut eeprom = Eeprom512B::new(slow(SimulatedEeprom::new_512b(), usize::MAX));
    let mut writer = eeprom.writer(Bound::Included(at(3)), Bound::Unbounded);

    assert_eq!(writer.flush(), Ok(()));
    assert_eq!(writer.writer.hardware.busy, 0);
}

#[test]
fn write_to_a_chip_of_the_other_size_fails() {
    let mut eeprom = Eeprom8K::new(SimulatedEeprom::new_512b());
    let mut writer = eeprom.writer(Bound::Unbounded, Bound::Unbounded);

    assert_eq!(writer.write(b"hello, world!"), Err(Error::WriteFailure));
}

#[test]
fn requests_are_spelt_bit_by_bit() {
    let mut chip = SimulatedEeprom::new_512b();
    chip.interrupts_enabled = false;
    // A request to write 0x0123456789abcdef to sector 0b101001.
    let mut request = vec![1, 0, 1, 0, 1, 0, 0, 1];
    for byte in [0x01u8, 0x23, 0x45, 0x67, 0x89, 0xab, 0xcd, 0xef] {
        for bit in (0..8).rev() {
            request.push(((byte >> bit) & 1) as u16);
        }
    }
    request.push(0);
    chip.transmit(&request);
    assert_eq!(
        chip.contents[41 * 8..42 * 8],
        [0x01, 0x23, 0x45, 0x67, 0x89, 0xab, 0xcd, 0xef]
    );
    assert_eq!(chip.status() & 1, 0);
    assert_eq!(chip.status() & 1, 1);

    // A request to read it.
    chip.transmit(&[1, 1, 1, 0, 1, 0, 0, 1, 0]);
    let received = chip.receive();
    assert_eq!(received[4..12], [0, 0, 0, 0, 0, 0, 0, 1]);
    assert_eq!(received[60..68], [1, 1, 1, 0, 1, 1, 1, 1]);
}

#[test]
fn a_burst_that_may_be_interrupted_is_lost() {
    let mut chip = SimulatedEeprom::new_512b();
    let mut request = vec![1u16, 0, 0, 0, 0, 0, 0, 0];
    request.extend([0u16; 65]);
    chip.transmit(&request);
    assert_eq!(chip.contents[0..8], [0xff; 8]);
}

fn worn(mut chip: SimulatedEeprom, mask: u8) -> SimulatedEeprom {
    chip.wear(mask);
    chip
}

#[test]
fn a_worn_chip_fails_to_verify_what_it_cannot_hold() {
    let mut eeprom = Eeprom512B::new(worn(SimulatedEeprom::new_512b(), 0x7f));
    assert_eq!(eeprom.hardware.contents[0..4], [0x7f; 4]);
    let mut writer = eeprom.writer(Bound::Included(at(2)), Bound::Unbounded);

    // Two sectors that the chip can hold, and one that it cannot.
    let mut data = [0x11; 30];
    data[20] = 0x80;
    assert_eq!(writer.write(&data), Err(Error::WriteFailure));
    assert_eq!(writer.writer.address, 24);
    assert_eq!(writer.writer.len, 512 - 24);
    assert!(!writer.writer.dirty);
    assert_eq!(writer.writer.hardware.busy, 0);
    assert_eq!(writer.writer.hardware.selected, 2);

    let mut expected = [0x11; 26];
    expected[0] = 0x7f;
    expected[1] = 0x7f;
    expected[22] = 0x00;
    expected[24] = 0x7f;
    expected[25] = 0x7f;
    assert_eq!(eeprom.hardware.contents[0..26], expected);
}

#[test]
fn a_worn_chip_takes_what_it_can_hold() {
    let mut eeprom = Eeprom8K::new(worn(SimulatedEeprom::new_8k(), 0x0f));
    let mut writer = eeprom.writer(Bound::Included(at(100)), Bound::Excluded(at(120)));

    assert_eq!(writer.write(&[0x0a; 50]), Ok(20));
    assert_eq!(writer.flush(), Ok(()));
    assert_eq!(eeprom.hardware.contents[99..121], {
        let mut expected = [0x0a; 22];
        expected[0] = 0x0f;
        expected[21] = 0x0f;
        expected
    });
}

#[test]
fn flush_fails_on_a_worn_chip() {
    let mut eeprom = Eeprom512B::new(worn(SimulatedEeprom::new_512b(), 0xfe));
    let mut writer = eeprom.writer(Bound::Included(at(9)), Bound::Unbounded);

    assert_eq!(writer.write(&[0x03, 0x02]), Ok(2));
    assert_eq!(writer.unflushed(), 3);
    assert_eq!(writer.flush(), Err(Error::WriteFailure));
    assert_eq!(writer.unflushed(), 0);
    assert_eq!(
        eeprom.hardware.contents[8..16],
        [0xfe, 0x02, 0x02, 0xfe, 0xfe, 0xfe, 0xfe, 0xfe]
    );

    let mut eeprom = Eeprom512B::new(worn(SimulatedEeprom::new_512b(), 0xfe));
    let mut writer = eeprom.writer(Bound::Included(at(9)), Bound::Unbounded);
    assert_eq!(writer.write(&[0x03, 0x02]), Ok(2));
    assert_eq!(writer.close(), Err(Error::WriteFailure));
}

#[test]
fn a_chip_that_is_slow_and_worn_times_out() {
    let mut eeprom = Eeprom512B::new(slow(worn(SimulatedEeprom::new_512b(), 0x00), 10000));
    let mut writer = eeprom.writer(Bound::Unbounded, Bound::Unbounded);

    assert_eq!(writer.write(&[1; 8]), Err(Error::OperationTimedOut));
    assert_eq!(eeprom.hardware.contents[0..9], [0; 9]);
}
