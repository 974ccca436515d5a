use gba_save::range::{Bound, Index};
use gba_save::sram::{Error, SimulatedSram, Sram};

fn at(value: usize) -> Index<32767> {
    Index::new(value).unwrap()
}

#[test]
fn sram_empty_range_read() {
    let mut sram = Sram::new(SimulatedSram::new());
    let mut reader = sram.reader(Bound::Included(at(0)), Bound::Excluded(at(0)));

    let mut buf = [1, 2, 3, 4];
    assert_eq!(reader.read(&mut buf), 0);
    assert_eq!(buf, [1, 2, 3, 4]);
}

#[test]
fn sram_empty_range_write() {
    let mut sram = Sram::new(SimulatedSram::new());
    let mut writer = sram.writer(Bound::Included(at(0)), Bound::Excluded(at(0)));

    assert_eq!(writer.write(&[0]), Err(Error::EndOfWriter));
}

#[test]
fn sram_full_range() {
    let mut sram = Sram::new(SimulatedSram::new());
    let mut writer = sram.writer(Bound::Unbounded, Bound::Unbounded);

    for i in 0..8192 {
        assert_eq!(
            writer.write(&[
                0u8.wrapping_add(i as u8),
                1u8.wrapping_add(i as u8),
                2u8.wrapping_add(i as u8),
                3u8.wrapping_add(i as u8)
            ]),
            Ok(4)
        );
    }

    let mut reader = sram.reader(Bound::Unbounded, Bound::Unbounded);
    let mut buf = [0, 0, 0, 0];

    for i in 0..8192 {
        assert_eq!(reader.read(&mut buf), 4);
        assert_eq!(
            buf,
            [
                0u8.wrapping_add(i as u8),
                1u8.wrapping_add(i as u8),
                2u8.wrapping_add(i as u8),
                3u8.wrapping_add(i as u8)
            ]
        );
    }
}

#[test]
fn sram_partial_range() {
    let mut sram = Sram::new(SimulatedSram::new());
    let mut writer = sram.writer(Bound::Included(at(42)), Bound::Excluded(at(100)));

    assert_eq!(writer.write(&[b'a'; 100]), Ok(58));

    let mut reader = sram.reader(Bound::Included(at(51)), Bound::Excluded(at(60)));
    let mut buf = [0; 20];

    assert_eq!(reader.read(&mut buf), 9);
    assert_eq!(
        buf,
        [
            b'a', b'a', b'a', b'a', b'a', b'a', b'a', b'a', b'a', 0, 0, 0, 0, 0, 0, 0, 0, 0, 0,
            0
        ]
    );
}

#[test]
fn sram_write_failure() {
    let mut sram = Sram::new(SimulatedSram::absent());
    let mut writer = sram.writer(Bound::Unbounded, Bound::Unbounded);

    assert_eq!(writer.write(b"hello, world!"), Err(Error::WriteFailure));
}

// The same with ranges that are given by their last index.

#[test]
fn mod_empty_range_read() {
    let mut sram = Sram::new(SimulatedSram::new());
    let mut reader = sram.reader(Bound::Excluded(at(0)), Bound::Included(at(0)));

    let mut buf = [1, 2, 3, 4];
    assert_eq!(reader.read(&mut buf), 0);
    assert_eq!(buf, [1, 2, 3, 4]);
}

#[test]
fn mod_empty_range_write() {
    let mut sram = Sram::new(SimulatedSram::new());
    let mut writer = sram.writer(Bound::Excluded(at(0)), Bound::Included(at(0)));

    assert_eq!(writer.write(&[0]), Err(Error::EndOfWriter));
}

#[test]
fn mod_full_range() {
    let mut sram = Sram::new(SimulatedSram::new());
    let mut writer = sram.writer(Bound::Included(at(0)), Bound::Included(at(32767)));

    for i in 0..8192 {
        assert_eq!(
            writer.write(&[
                0u8.wrapping_add(i as u8),
                1u8.wrapping_add(i as u8),
                2u8.wrapping_add(i as u8),
                3u8.wrapping_add(i as u8)
            ]),
            Ok(4)
        );
    }
    assert_eq!(writer.write(&[0]), Err(Error::EndOfWriter));

    let mut reader = sram.reader(Bound::Included(at(0)), Bound::Included(at(32767)));
    let mut buf = [0, 0, 0, 0];

    for i in 0..8192 {
        assert_eq!(reader.read(&mut buf), 4);
        assert_eq!(
            buf,
            [
                0u8.wrapping_add(i as u8),
                1u8.wrapping_add(i as u8),
                2u8.wrapping_add(i as u8),
                3u8.wrapping_add(i as u8)
            ]
        );
    }
    assert_eq!(reader.read(&mut buf), 0);
}

#[test]
fn mod_partial_range() {
    let mut sram = Sram::new(SimulatedSram::new());
    let mut writer = sram.writer(Bound::Excluded(at(41)), Bound::Included(at(99)));

    assert_eq!(writer.write(&[b'a'; 100]), Ok(58));

    let mut reader = sram.reader(Bound::Excluded(at(50)), Bound::Included(at(59)));
    let mut buf = [0; 20];

    assert_eq!(reader.read(&mut buf), 9);
    assert_eq!(
        buf,
        [
            b'a', b'a', b'a', b'a', b'a', b'a', b'a', b'a', b'a', 0, 0, 0, 0, 0, 0, 0, 0, 0, 0,
            0
        ]
    );
}

#[test]
fn mod_write_failure() {
    let mut sram = Sram::new(SimulatedSram::absent());
    let mut writer = sram.writer(Bound::Included(at(32000)), Bound::Unbounded);

    assert_eq!(writer.write(b"hello, world!"), Err(Error::WriteFailure));
    assert_eq!(writer.address, 32000);
    assert_eq!(writer.len, 768);
}

#[test]
fn new_sets_the_backup_wait_cycles() {
    let mut chip = SimulatedSram::new();
    chip.waitstate_control = 0x4314;
    let sram = Sram::new(chip);

    assert_eq!(sram.hardware.waitstate_control, 0x4317);
}

#[test]
fn write_leaves_the_other_cells_alone() {
    let mut chip = SimulatedSram::new();
    for i in 0..32 {
        chip.cells[i] = i as u8;
    }
    let mut sram = Sram::new(chip);
    let mut writer = sram.writer(Bound::Included(at(5)), Bound::Excluded(at(9)));

    assert_eq!(writer.write(&[0xaa; 3]), Ok(3));
    assert_eq!(writer.write(&[0xbb; 3]), Ok(1));
    assert_eq!(writer.flush(), Ok(()));
    assert_eq!(writer.write(&[0xcc; 3]), Err(Error::EndOfWriter));

    assert_eq!(
        sram.hardware.cells[0..12],
        [0, 1, 2, 3, 4, 0xaa, 0xaa, 0xaa, 0xbb, 9, 10, 11]
    );
}

#[test]
fn write_of_nothing_to_a_range_with_room_is_ok() {
    let mut sram = Sram::new(SimulatedSram::new());
    let mut writer = sram.writer(Bound::Unbounded, Bound::Unbounded);

    assert_eq!(writer.write(&[]), Ok(0));
}

#[test]
fn write_of_what_an_absent_chip_reads_as_succeeds() {
    let mut sram = Sram::new(SimulatedSram::absent());
    let mut writer = sram.writer(Bound::Unbounded, Bound::Unbounded);

    assert_eq!(writer.write(&[0xff, 0xff, 0x00]), Err(Error::WriteFailure));
    assert_eq!(writer.write(&[0xff, 0xff]), Ok(2));
}

#[test]
fn two_writes_are_read_back_as_one() {
    let mut sram = Sram::new(SimulatedSram::new());
    let mut writer = sram.writer(Bound::Unbounded, Bound::Excluded(at(16)));

    assert_eq!(writer.write(b"hello, world!"), Ok(13));
    assert_eq!(writer.write(b"123"), Ok(3));

    let mut reader = sram.reader(Bound::Unbounded, Bound::Excluded(at(16)));
    let mut buffer = [0; 16];
    assert_eq!(reader.read(&mut buffer), 16);
    assert_eq!(&buffer, b"hello, world!123");
}
