use crate::contents::overwritten;
use crate::eeprom::bits::bit_of;
use crate::eeprom::bits::bits_value;
use crate::eeprom::bits::bytes_at;
use crate::eeprom::bits::decode_byte;
use crate::eeprom::bits::encode_byte;
use crate::eeprom::bits::lemma_bits_value_agree;
use crate::eeprom::bits::lemma_bytes_agree;
use crate::eeprom::hardware::lemma_keeps_kept;
use crate::eeprom::hardware::lemma_keeps_overwritten;
use crate::eeprom::hardware::lemma_slowed_twice;
use crate::eeprom::hardware::lemma_transmit_keeps_wf;
use crate::eeprom::hardware::spec_capacity;
use crate::eeprom::hardware::EepromChip;
use crate::eeprom::hardware::EepromHardware;
use crate::eeprom::hardware::EepromState;
use crate::eeprom::hardware::ADDRESS_LEN_512B;
use crate::eeprom::hardware::ADDRESS_LEN_8KB;
use crate::eeprom::hardware::RECEIVE_LEN;
use crate::eeprom::hardware::SECTOR_SIZE;
use crate::eeprom::lemma_sector_bits;
use crate::eeprom::populate_address;
use crate::eeprom::read_bits;
use crate::eeprom::request_read;
use crate::eeprom::sector_bits;
use crate::eeprom::Error;
use vstd::prelude::*;

verus! {

/// The number of times that the chip is asked whether it is ready before a write is given up.
pub const READY_POLLS: usize = 10000;

/// The eight bytes that the request to write `bits` holds, where a request has `address_len`
/// address bits.
pub open spec fn staged(bits: Seq<u16>, address_len: usize) -> Seq<u8> {
    bytes_at(bits, 2 + address_len, SECTOR_SIZE as nat)
}

/// Whether `bits` is a request to write with `address_len` address bits.
pub open spec fn is_request(bits: Seq<u16>, address_len: usize) -> bool {
    &&& bits.len() == address_len + 67
    &&& bits[0] & 1 == 1
    &&& bits[1] & 1 == 0
}

/// The chip with `contents` for what it holds, after it was asked up to `READY_POLLS` times
/// whether it is ready. If it became ready in time, `sector` was also selected, to be read back.
pub open spec fn settled(chip: EepromChip, contents: Seq<u8>, sector: int) -> EepromChip {
    EepromChip {
        contents,
        busy: if chip.write_latency < READY_POLLS {
            0
        } else {
            (chip.write_latency - READY_POLLS) as nat
        },
        selected: if chip.write_latency < READY_POLLS {
            sector
        } else {
            chip.selected
        },
        ..chip
    }
}

/// The chip after a request to write `data` to `sector` was sent and the chip was asked up to
/// `READY_POLLS` times whether it is ready: what the chip keeps of the sector is stored.
pub open spec fn flushed_chip(chip: EepromChip, sector: int, data: Seq<u8>) -> EepromChip {
    settled(chip, overwritten(chip.contents, sector * SECTOR_SIZE, chip.keeps(data)), sector)
}

/// The last address up to `address` at which a sector starts.
pub open spec fn boundary(address: int) -> int {
    address - address % (SECTOR_SIZE as int)
}

/// The state of the hardware after a writer has taken on `data` from `address` on, where
/// `target` is what the chip was to hold before, and every sector that was completed was
/// written in time: the chip holds the bytes of `data` that lie before the last sector that
/// was begun and not completed. Where no sector was completed, nothing has happened.
pub open spec fn after_writing(
    before: EepromState,
    target: Seq<u8>,
    address: int,
    data: Seq<u8>,
) -> EepromState {
    let end = boundary(address + data.len());
    if end <= address {
        before
    } else {
        before.slowed().with_chip(
            EepromChip {
                contents: overwritten(target, address, data.take(end - address)),
                busy: 0,
                selected: end / (SECTOR_SIZE as int) - 1,
                ..before.chip
            },
        )
    }
}

/// The number of bytes of `buf` that a writer with `len` bytes left takes on in one call.
pub open spec fn accepted(len: usize, buf: Seq<u8>) -> nat {
    if buf.len() <= len {
        buf.len()
    } else {
        len as nat
    }
}

/// What it comes to when the sector `data` is sent to `chip` to be written: the operation
/// times out if the chip is not ready in time, and fails if the chip is, but does not keep the
/// sector as it is.
pub open spec fn flush_result(chip: EepromChip, data: Seq<u8>) -> Result<(), Error> {
    if chip.write_latency >= READY_POLLS {
        Err(Error::OperationTimedOut)
    } else if chip.kept(data) {
        Ok(())
    } else {
        Err(Error::WriteFailure)
    }
}

/// The sector of `contents` in which `address` lies.
pub open spec fn sector_of(contents: Seq<u8>, address: int) -> Seq<u8> {
    contents.subrange(boundary(address), boundary(address) + SECTOR_SIZE)
}

/// Copies the words from `from` on of what was received into `bits` from `to` on, `count`
/// words in all.
fn copy_bits(bits: &mut [u16], to: usize, received: &[u16; 68], from: usize, count: usize)
    requires
        to + count <= old(bits)@.len(),
        from + count <= RECEIVE_LEN,
    ensures
        final(bits)@.len() == old(bits)@.len(),
        final(bits)@.subrange(to as int, to + count) == received@.subrange(
            from as int,
            from + count,
        ),
        forall|i: int|
            0 <= i < old(bits)@.len() && !(to <= i < to + count) ==> final(bits)@[i] == old(bits)@[i],
{
    let size = bits.len();
    let mut i: usize = 0;
    while i < count
        invariant
            i <= count,
            to + count <= size,
            size == bits@.len(),
            from + count <= RECEIVE_LEN,
            bits@.len() == old(bits)@.len(),
            bits@.subrange(to as int, to + i) =~= received@.subrange(from as int, from + i),
            forall|j: int|
                0 <= j < bits@.len() && !(to <= j < to + i) ==> bits@[j] == old(bits)@[j],
        decreases count - i,
    {
        let ghost previous = bits@;
        bits[to + i] = received[from + i];
        assert forall|j: int| 0 <= j < i + 1 implies #[trigger] bits@.subrange(
            to as int,
            to + i + 1,
        )[j] == received@.subrange(from as int, from + i + 1)[j] by {
            if j < i {
                assert(previous.subrange(to as int, to + i)[j] == received@.subrange(
                    from as int,
                    from + i,
                )[j]);
            }
        }
        i += 1;
    }
}

/// Whether the eight bytes that `bits` holds from `at` on are those that `received` holds
/// behind its first four words.
fn same_sector(bits: &[u16], at: usize, received: &[u16; 68]) -> (same: bool)
    requires
        at + 64 <= bits@.len(),
    ensures
        same == (bytes_at(bits@, at as int, SECTOR_SIZE as nat) == bytes_at(
            received@,
            4,
            SECTOR_SIZE as nat,
        )),
{
    let size = bits.len();
    let mut same = true;
    let mut k: usize = 0;
    assert(bytes_at(bits@, at as int, 0) =~= bytes_at(received@, 4, 0));
    while k < SECTOR_SIZE
        invariant
            k <= SECTOR_SIZE,
            at + 64 <= size,
            size == bits@.len(),
            same == (bytes_at(bits@, at as int, k as nat) == bytes_at(received@, 4, k as nat)),
        decreases SECTOR_SIZE - k,
    {
        let written = decode_byte(bits, at + 8 * k);
        let read = decode_byte(received.as_slice(), 4 + 8 * k);
        proof {
            let first = bytes_at(bits@, at as int, k as nat);
            let second = bytes_at(received@, 4, k as nat);
            let first_next = bytes_at(bits@, at as int, (k + 1) as nat);
            let second_next = bytes_at(received@, 4, (k + 1) as nat);
            assert(first_next =~= first.push(written));
            assert(second_next =~= second.push(read));
            if first == second && written == read {
                assert(first_next == second_next);
            } else if first != second {
                assert(first_next.take(k as int) =~= first);
                assert(second_next.take(k as int) =~= second);
            } else {
                assert(first_next[k as int] != second_next[k as int]);
            }
        }
        if written != read {
            same = false;
        }
        k += 1;
    }
    same
}

/// A request of which one byte was spelt anew holds that byte where it held another, and is
/// otherwise as it was.
proof fn lemma_byte_staged(
    previous: Seq<u16>,
    bits: Seq<u16>,
    address_len: usize,
    offset: int,
    byte: u8,
)
    requires
        previous.len() == address_len + 67,
        bits.len() == previous.len(),
        0 <= offset < SECTOR_SIZE,
        bytes_at(bits, 2 + address_len, SECTOR_SIZE as nat)[offset] == byte,
        forall|i: int|
            0 <= i < bits.len() && !(2 + address_len + 8 * offset <= i < 2 + address_len + 8
                * offset + 8) ==> bits[i] == previous[i],
    ensures
        staged(bits, address_len) == staged(previous, address_len).update(offset, byte),
        bits_value(bits, 2, address_len as nat) == bits_value(previous, 2, address_len as nat),
        bits[0] == previous[0],
        bits[1] == previous[1],
{
    assert forall|j: int| 0 <= j < address_len implies #[trigger] bit_of(bits, 2, j) == bit_of(
        previous,
        2,
        j,
    ) by {}
    lemma_bits_value_agree(bits, 2, previous, 2, address_len as nat);
    assert forall|b: int| 0 <= b < 8 implies #[trigger] staged(bits, address_len)[b] == staged(
        previous,
        address_len,
    ).update(offset, byte)[b] by {
        if b != offset {
            assert forall|j: int| 0 <= j < 8 implies #[trigger] bit_of(
                bits,
                2 + address_len + 8 * b,
                j,
            ) == bit_of(previous, 2 + address_len + 8 * b, j) by {}
            lemma_bits_value_agree(
                bits,
                2 + address_len + 8 * b,
                previous,
                2 + address_len + 8 * b,
                8,
            );
        }
    }
    assert(staged(bits, address_len) =~= staged(previous, address_len).update(offset, byte));
}

/// Where a sector is to hold the bytes `image` up to the byte `offset`, and then `byte`, it
/// is to hold after that what it was to hold before, with `byte` behind it.
proof fn lemma_byte_target(
    contents: Seq<u8>,
    base: int,
    image: Seq<u8>,
    offset: int,
    byte: u8,
)
    requires
        image.len() == SECTOR_SIZE,
        0 <= offset < SECTOR_SIZE,
        0 <= base,
        base + SECTOR_SIZE <= contents.len(),
    ensures
        overwritten(contents, base, image.update(offset, byte).take(offset + 1)) == overwritten(
            overwritten(contents, base, image.take(offset)),
            base + offset,
            seq![byte],
        ),
{
    assert(overwritten(contents, base, image.update(offset, byte).take(offset + 1)) =~= overwritten(
        overwritten(contents, base, image.take(offset)),
        base + offset,
        seq![byte],
    ));
}

/// A writer on an EEPROM device whose requests have a given number of address bits. The
/// request that it fills is kept by whoever owns the writer.
pub struct Writer<'a, H: EepromHardware> {
    /// The hardware, borrowed from the device for as long as this writer lives.
    pub hardware: &'a mut H,
    /// The address of the next byte to write.
    pub address: usize,
    /// The number of bytes that are left of the range.
    pub len: usize,
    /// Whether bytes were taken on that the chip does not hold yet.
    pub dirty: bool,
}

impl<'a, H: EepromHardware> Writer<'a, H> {
    /// The state of the hardware that this writer writes to.
    pub open spec fn state(&self) -> EepromState {
        self.hardware@
    }

    /// How far into its sector the next byte lies.
    pub open spec fn offset(&self) -> int {
        self.address as int % SECTOR_SIZE as int
    }

    /// The address at which the sector of the next byte starts.
    pub open spec fn base(&self) -> int {
        self.address - self.offset()
    }

    /// The chip is one whose requests have `address_len` address bits, and `bits` is a request
    /// to write to it.
    pub open spec fn fits(&self, bits: Seq<u16>, address_len: usize) -> bool {
        &&& self.hardware@.chip.wf()
        &&& self.hardware@.chip.address_bits == address_len
        &&& is_request(bits, address_len)
    }

    /// The range lies within the chip, and `bits` is a request to write the sector of the next
    /// byte. Bytes are held back only while the next byte lies within a sector. Where none are
    /// held back, the request holds what the chip holds of the sector before the next byte.
    pub open spec fn wf(&self, bits: Seq<u16>, address_len: usize) -> bool {
        &&& self.fits(bits, address_len)
        &&& self.address + self.len <= spec_capacity(address_len)
        &&& self.address < spec_capacity(address_len) ==> bits_value(bits, 2, address_len as nat)
            == self.address / SECTOR_SIZE
        &&& self.dirty ==> self.offset() != 0
        &&& !self.dirty ==> staged(bits, address_len).take(self.offset())
            == self.hardware@.chip.contents.subrange(self.base(), self.address as int)
    }

    /// What the chip holds once the bytes that are held back are written.
    pub open spec fn target(&self, bits: Seq<u16>, address_len: usize) -> Seq<u8> {
        if self.dirty {
            overwritten(
                self.hardware@.chip.contents,
                self.base(),
                staged(bits, address_len).take(self.offset()),
            )
        } else {
            self.hardware@.chip.contents
        }
    }

    /// Whether this writer with its request `bits` can be what a call of `write` with `buf`
    /// that returned `result` has made of the writer `before` with its request `before_bits`.
    ///
    /// With `Ok`, the bytes are taken on: what the chip is to hold is what it was to hold with
    /// those bytes from the address of `before` on, and the chip holds as much of it as lies in
    /// the sectors that were completed, each of which was written in time and read back as it
    /// was sent. With `EndOfWriter`, the range was exhausted and nothing has changed. With
    /// `OperationTimedOut`, a sector was completed and the chip was not ready in time after it
    /// was sent: the writer is at the end of the first such sector. With `WriteFailure`, the
    /// chip was ready in time, and a sector that was completed did not read back as it was
    /// sent: the writer is at the end of the first such sector, and the sectors before it are
    /// as they were to be. In either case the chip holds of the sector what it keeps of it.
    pub open spec fn wrote(
        &self,
        bits: Seq<u16>,
        before: Self,
        before_bits: Seq<u16>,
        buf: Seq<u8>,
        address_len: usize,
        result: Result<usize, Error>,
    ) -> bool {
        let chip = before.hardware@.chip;
        let target = before.target(before_bits, address_len);
        let intended = overwritten(
            target,
            before.address as int,
            buf.take(self.address - before.address),
        );
        &&& self.fits(bits, address_len)
        &&& match result {
            Ok(count) => {
                &&& before.len > 0
                &&& count == accepted(before.len, buf)
                &&& self.wf(bits, address_len)
                &&& self.address == before.address + count
                &&& self.len == before.len - count
                &&& self.dirty == if count == 0 {
                    before.dirty
                } else {
                    self.offset() != 0
                }
                &&& self.target(bits, address_len) == intended
                &&& self.hardware@ == after_writing(
                    before.hardware@,
                    target,
                    before.address as int,
                    buf.take(count as int),
                )
                &&& before.offset() + count >= SECTOR_SIZE ==> chip.write_latency < READY_POLLS
            },
            Err(Error::EndOfWriter) => {
                &&& before.len == 0
                &&& *self == before
                &&& bits == before_bits
            },
            Err(Error::OperationTimedOut) => {
                &&& before.len > 0
                &&& before.offset() + accepted(before.len, buf) >= SECTOR_SIZE
                &&& chip.write_latency >= READY_POLLS
                &&& self.address == before.base() + SECTOR_SIZE
                &&& self.len == before.len - (SECTOR_SIZE - before.offset())
                &&& !self.dirty
                &&& self.hardware@ == before.hardware@.slowed().with_chip(
                    settled(chip, chip.keeps(intended), before.address as int / SECTOR_SIZE as int),
                )
            },
            Err(Error::WriteFailure) => {
                &&& before.len > 0
                &&& chip.write_latency < READY_POLLS
                &&& before.address < self.address <= before.address + accepted(before.len, buf)
                &&& self.offset() == 0
                &&& self.len == before.len - (self.address - before.address)
                &&& !self.dirty
                &&& !chip.kept(sector_of(intended, self.address - 1))
                &&& intended.take(self.address - SECTOR_SIZE) == chip.keeps(intended).take(
                    self.address - SECTOR_SIZE,
                )
                &&& self.hardware@ == before.hardware@.slowed().with_chip(
                    settled(chip, chip.keeps(intended), (self.address - 1) / SECTOR_SIZE as int),
                )
            },
        }
    }

    /// Whether this writer with its request `bits` can be what a call of `flush` that returned
    /// `result` has made of the writer `before` with its request `before_bits`.
    ///
    /// Where bytes were held back, the sector was sent, and the chip holds what it keeps of
    /// what it was to hold; the result is `OperationTimedOut` if the chip was not ready in
    /// time, `WriteFailure` if it was and the sector did not read back as it was sent, and `Ok`
    /// else. Where none were, nothing has changed and the result is `Ok`.
    pub open spec fn flushed(
        &self,
        bits: Seq<u16>,
        before: Self,
        before_bits: Seq<u16>,
        address_len: usize,
        result: Result<(), Error>,
    ) -> bool {
        let target = before.target(before_bits, address_len);
        let sector = before.address as int / SECTOR_SIZE as int;
        &&& self.fits(bits, address_len)
        &&& self.address == before.address
        &&& self.len == before.len
        &&& !self.dirty
        &&& result is Ok ==> self.wf(bits, address_len) && self.target(bits, address_len) == target
        &&& if before.dirty {
            &&& result == flush_result(
                before.hardware@.chip,
                sector_of(target, before.address as int),
            )
            &&& self.hardware@ == before.hardware@.slowed().with_chip(
                settled(
                    before.hardware@.chip.with_selected(sector),
                    before.hardware@.chip.keeps(target),
                    sector,
                ),
            )
        } else {
            &&& result is Ok
            &&& self.hardware@ == before.hardware@
            &&& bits == before_bits
        }
    }

    /// Returns the number of bytes that are held back.
    pub fn unflushed(&self) -> (count: usize)
        ensures
            count == if self.dirty {
                self.offset()
            } else {
                0
            },
    {
        if self.dirty {
            self.address % SECTOR_SIZE
        } else {
            0
        }
    }

    /// Creates a writer over the `len` bytes that start at `address`, and makes `bits` a request
    /// to write the sector of `address`. Where `address` lies within a sector, the sector is
    /// read into the request, so that the bytes of it before `address` are kept when it is
    /// written.
    pub fn new_unchecked(
        hardware: &'a mut H,
        address: usize,
        len: usize,
        bits: &mut [u16],
        address_len: usize,
    ) -> (writer: Self)
        requires
            old(hardware)@.chip.wf(),
            old(hardware)@.chip.address_bits == address_len,
            address + len <= spec_capacity(address_len),
            old(bits)@.len() == address_len + 67,
        ensures
            writer.wf(final(bits)@, address_len),
            writer.address == address,
            writer.len == len,
            !writer.dirty,
            writer.target(final(bits)@, address_len) == old(hardware)@.chip.contents,
            writer.hardware@ == if address % SECTOR_SIZE == 0 {
                old(hardware)@
            } else {
                old(hardware)@.slowed().with_chip(
                    old(hardware)@.chip.with_selected((address / SECTOR_SIZE) as int),
                )
            },
            *final(writer.hardware) == *final(hardware),
    {
        // Read in any previous bits if we are not starting at an 8-byte boundary.
        if address % SECTOR_SIZE != 0 {
            let mut read_request = [0u16;68];
            request_read(hardware, &mut read_request, address, address_len);
            let received = read_bits(hardware);
            copy_bits(bits, 2 + address_len, &received, 4, 64);
            proof {
                lemma_slowed_twice(old(hardware)@);
                assert forall|j: int| 0 <= j < 64 implies #[trigger] bit_of(
                    bits@,
                    2 + address_len,
                    j,
                ) == bit_of(received@, 4, j) by {
                    assert(bits@.subrange(2 + address_len, 2 + address_len + 64)[j]
                        == received@.subrange(4, 68)[j]);
                }
                lemma_bytes_agree(bits@, 2 + address_len, received@, 4, 8);
            }
        }
        let ghost read = bits@;
        bits[0] = 1;
        bits[1] = 0;
        populate_address(bits, address, address_len);
        let writer = Self { hardware, address, len, dirty: false };
        proof {
            assert(1u16 & 1 == 1 && 0u16 & 1 == 0) by (bit_vector);
            assert forall|j: int| 0 <= j < 64 implies #[trigger] bit_of(
                bits@,
                2 + address_len,
                j,
            ) == bit_of(read, 2 + address_len, j) by {}
            lemma_bytes_agree(bits@, 2 + address_len, read, 2 + address_len, 8);
            if address < spec_capacity(address_len) {
                lemma_sector_bits(address, address_len);
            }
            let chip = writer.hardware@.chip;
            assert(staged(bits@, address_len).take(writer.offset()) =~= chip.contents.subrange(
                writer.base(),
                address as int,
            )) by {
                if address % SECTOR_SIZE != 0 {
                    assert(chip.sector(chip.selected) == staged(bits@, address_len));
                }
            }
        }
        writer
    }

    /// Takes on the bytes of `buf`, as many as the range still has room for, and returns how
    /// many. Whenever a sector is complete, it is written to the chip and read back; the bytes
    /// of a sector that is not complete are held back until `flush` is called.
    ///
    /// When the range is exhausted, nothing is taken and the error is `EndOfWriter`. When the
    /// chip is not ready in time after a sector was sent to it, the error is
    /// `OperationTimedOut`: the writer is then at the end of that sector, the first that was
    /// completed, and the bytes behind it are not taken.
    pub fn write(&mut self, buf: &[u8], bits: &mut [u16], address_len: usize) -> (result: Result<
        usize,
        Error,
    >)
        requires
            old(self).wf(old(bits)@, address_len),
        ensures
            *final(final(self).hardware) == *final(old(self).hardware),
            final(self).wrote(final(bits)@, *old(self), old(bits)@, buf@, address_len, result),
    {
        if self.len == 0 {
            return Err(Error::EndOfWriter);
        }
        let write_limit = if buf.len() <= self.len {
            buf.len()
        } else {
            self.len
        };
        let ghost before = self.hardware@;
        let ghost start = self.address as int;
        let ghost goal = self.target(bits@, address_len);
        let mut write_count: usize = 0;
        assert(overwritten(goal, start, buf@.take(0)) =~= goal);
        while write_count < write_limit
            invariant
                write_count <= write_limit,
                write_limit == accepted(old(self).len, buf@),
                old(self).len > 0,
                old(self).wf(old(bits)@, address_len),
                before == old(self).hardware@,
                start == old(self).address,
                goal == old(self).target(old(bits)@, address_len),
                goal.len() == before.chip.contents.len(),
                *final(self.hardware) == *final(old(self).hardware),
                self.address == start + write_count,
                self.len == old(self).len - write_count,
                self.wf(bits@, address_len),
                self.dirty == if write_count == 0 {
                    old(self).dirty
                } else {
                    self.offset() != 0
                },
                self.target(bits@, address_len) == overwritten(
                    goal,
                    start,
                    buf@.take(write_count as int),
                ),
                self.hardware@ == after_writing(before, goal, start, buf@.take(write_count as int)),
                old(self).offset() + write_count >= SECTOR_SIZE ==> before.chip.write_latency
                    < READY_POLLS,
            decreases write_limit - write_count,
        {
            let ghost k = write_count as int;
            let ghost at = self.address as int;
            let ghost was = self.target(bits@, address_len);
            let ghost held = self.hardware@.chip;
            let pushed = self.push(buf[write_count], bits, address_len);
            write_count += 1;
            proof {
                let next = overwritten(goal, start, buf@.take(k + 1));
                assert(overwritten(was, at, seq![buf@[k]]) =~= next);
                lemma_slowed_twice(before);
                if at % 8 == 7 {
                    assert(boundary(start + k + 1) == at + 1);
                    assert(buf@.take(k + 1).take(at + 1 - start) =~= buf@.take(k + 1));
                    if old(self).offset() + k >= SECTOR_SIZE {
                    } else {
                        assert(k + 1 == SECTOR_SIZE - old(self).offset());
                        assert(boundary(start + k) <= start);
                    }
                } else {
                    assert(boundary(start + k + 1) == boundary(start + k));
                    let end = boundary(start + k);
                    if end > start {
                        assert(buf@.take(k + 1).take(end - start) =~= buf@.take(k).take(end - start));
                    }
                }
            }
            match pushed {
                Ok(()) => {},
                Err(error) => {
                    proof {
                        let intended = overwritten(goal, start, buf@.take(k + 1));
                        if before.chip.write_latency < READY_POLLS {
                            assert forall|j: int| 0 <= j < at + 1 - SECTOR_SIZE implies intended.take(
                                at + 1 - SECTOR_SIZE,
                            )[j] == #[trigger] before.chip.keeps(intended).take(
                                at + 1 - SECTOR_SIZE,
                            )[j] by {
                                assert(intended[j] == was[j]);
                                assert(was[j] == held.contents[j]);
                                assert(held.keeps(held.contents)[j] == held.contents[j]);
                            }
                            assert(intended.take(at + 1 - SECTOR_SIZE) =~= before.chip.keeps(
                                intended,
                            ).take(at + 1 - SECTOR_SIZE));
                        }
                    }
                    return Err(error);
                },
            }
        }
        Ok(write_count)
    }

    /// Takes on `byte`, and writes the sector that is being filled to the chip if this is the
    /// last byte of it.
    fn push(&mut self, byte: u8, bits: &mut [u16], address_len: usize) -> (result: Result<
        (),
        Error,
    >)
        requires
            old(self).wf(old(bits)@, address_len),
            old(self).len > 0,
        ensures
            *final(final(self).hardware) == *final(old(self).hardware),
            final(self).fits(final(bits)@, address_len),
            final(self).address == old(self).address + 1,
            final(self).len == old(self).len - 1,
            final(self).dirty == (final(self).offset() != 0),
            ({
                let chip = old(self).hardware@.chip;
                let next = overwritten(
                    old(self).target(old(bits)@, address_len),
                    old(self).address as int,
                    seq![byte],
                );
                &&& result is Ok ==> final(self).wf(final(bits)@, address_len)
                &&& result is Ok ==> final(self).target(final(bits)@, address_len) == next
                &&& if old(self).offset() == SECTOR_SIZE - 1 {
                    &&& result == flush_result(chip, sector_of(next, old(self).address as int))
                    &&& final(self).hardware@ == old(self).hardware@.slowed().with_chip(
                        settled(
                            chip,
                            chip.keeps(next),
                            old(self).address as int / SECTOR_SIZE as int,
                        ),
                    )
                } else {
                    &&& result is Ok
                    &&& final(self).hardware@ == old(self).hardware@
                }
            }),
    {
        let ghost base = self.base();
        let ghost contents = self.hardware@.chip.contents;
        let ghost chip = self.hardware@.chip;
        let ghost next = overwritten(
            self.target(bits@, address_len),
            self.address as int,
            seq![byte],
        );
        self.stage(byte, bits, address_len);
        if self.address % SECTOR_SIZE == 0 {
            let ghost image = staged(bits@, address_len);
            proof {
                assert(image.take(8) =~= image);
                assert(sector_of(next, self.address - 1) =~= image);
                lemma_keeps_overwritten(chip, contents, base, image);
                lemma_keeps_kept(chip, image);
            }
            let flushed = self.flush_unchecked(bits, address_len);
            proof {
                if self.address < spec_capacity(address_len) {
                    lemma_sector_bits(self.address, address_len);
                }
                assert(staged(bits@, address_len).take(0)
                    =~= self.hardware@.chip.contents.subrange(
                    self.address as int,
                    self.address as int,
                ));
            }
            flushed
        } else {
            Ok(())
        }
    }

    /// Puts `byte` into its place in the request `bits`, and goes on to the next byte.
    fn stage(&mut self, byte: u8, bits: &mut [u16], address_len: usize)
        requires
            old(self).wf(old(bits)@, address_len),
            old(self).len > 0,
        ensures
            *final(final(self).hardware) == *final(old(self).hardware),
            final(self).hardware@ == old(self).hardware@,
            final(self).fits(final(bits)@, address_len),
            final(self).address == old(self).address + 1,
            final(self).len == old(self).len - 1,
            final(self).dirty,
            bits_value(final(bits)@, 2, address_len as nat) == old(self).address / SECTOR_SIZE,
            overwritten(
                old(self).hardware@.chip.contents,
                old(self).base(),
                staged(final(bits)@, address_len).take(old(self).offset() + 1),
            ) == overwritten(
                old(self).target(old(bits)@, address_len),
                old(self).address as int,
                seq![byte],
            ),
    {
        // Write the data to the internal buffer.
        let ghost previous = *self;
        let ghost previous_bits = bits@;
        let ghost goal = self.target(bits@, address_len);
        let ghost contents = self.hardware@.chip.contents;
        let ghost base = self.base();
        let ghost old_image = staged(bits@, address_len);
        let offset = self.address % SECTOR_SIZE;
        proof {
            assert(goal == overwritten(contents, base, old_image.take(offset as int))) by {
                if !previous.dirty {
                    assert(overwritten(contents, base, old_image.take(offset as int)) =~= contents);
                }
            }
        }
        encode_byte(bits, 2 + address_len + offset * 8, byte);
        self.address = self.address + 1;
        self.len = self.len - 1;
        self.dirty = true;
        proof {
            lemma_byte_staged(previous_bits, bits@, address_len, offset as int, byte);
            lemma_byte_target(contents, base, old_image, offset as int, byte);
        }
    }

    /// Writes the sector that is being filled to the chip, unless nothing is held back. The
    /// bytes of the sector that were never written are read from the chip first, so that they
    /// are kept.
    ///
    /// When the chip is not ready in time after the sector was sent to it, the error is
    /// `OperationTimedOut`.
    pub fn flush(&mut self, bits: &mut [u16], address_len: usize) -> (result: Result<(), Error>)
        requires
            old(self).wf(old(bits)@, address_len),
        ensures
            *final(final(self).hardware) == *final(old(self).hardware),
            final(self).flushed(final(bits)@, *old(self), old(bits)@, address_len, result),
    {
        // Check whether we actually have any data to write.
        let offset = self.address % SECTOR_SIZE;
        if offset == 0 || !self.dirty {
            return Ok(());
        }
        let ghost before = self.hardware@;
        let ghost goal = self.target(bits@, address_len);
        let ghost leading = staged(bits@, address_len).take(offset as int);
        let ghost first_bits = bits@;

        // Since a flush will only be executed here if the address is not aligned, we will have
        // trailing data that must be preserved.
        //
        // We resolve this by reading any trailing data.
        let mut read_request = [0u16;68];
        request_read(self.hardware, &mut read_request, self.address, address_len);
        let received = read_bits(self.hardware);

        // Copy bits over.
        copy_bits(
            bits,
            2 + address_len + 8 * offset,
            &received,
            4 + 8 * offset,
            (SECTOR_SIZE - offset) * 8,
        );
        proof {
            let sector = self.address as int / 8;
            let image = staged(bits@, address_len);
            lemma_slowed_twice(before);
            assert(1u16 & 1 == 1 && 0u16 & 1 == 0) by (bit_vector);
            assert forall|j: int| 0 <= j < address_len implies #[trigger] bit_of(bits@, 2, j)
                == bit_of(first_bits, 2, j) by {}
            lemma_bits_value_agree(bits@, 2, first_bits, 2, address_len as nat);
            assert forall|b: int| 0 <= b < 8 implies #[trigger] image[b] == (if b < offset {
                leading[b]
            } else {
                before.chip.contents[sector * 8 + b]
            }) by {
                if b < offset {
                    assert forall|j: int| 0 <= j < 8 implies #[trigger] bit_of(
                        bits@,
                        2 + address_len + 8 * b,
                        j,
                    ) == bit_of(first_bits, 2 + address_len + 8 * b, j) by {}
                    lemma_bits_value_agree(
                        bits@,
                        2 + address_len + 8 * b,
                        first_bits,
                        2 + address_len + 8 * b,
                        8,
                    );
                } else {
                    assert forall|j: int| 0 <= j < 8 implies #[trigger] bit_of(
                        bits@,
                        2 + address_len + 8 * b,
                        j,
                    ) == bit_of(received@, 4 + 8 * b, j) by {
                        let from = 8 * b + j - 8 * offset;
                        assert(bits@.subrange(
                            2 + address_len + 8 * offset,
                            2 + address_len + 8 * offset + (SECTOR_SIZE - offset) * 8,
                        )[from] == received@.subrange(
                            4 + 8 * offset,
                            4 + 8 * offset + (SECTOR_SIZE - offset) * 8,
                        )[from]);
                    }
                    lemma_bits_value_agree(
                        bits@,
                        2 + address_len + 8 * b,
                        received@,
                        4 + 8 * b,
                        8,
                    );
                    assert(bytes_at(received@, 4, 8)[b] == before.chip.sector(sector)[b]);
                }
            }
            assert(overwritten(before.chip.contents, sector * 8, image) =~= goal);
        }

        proof {
            let image = staged(bits@, address_len);
            assert(sector_of(goal, self.address as int) =~= image);
            lemma_keeps_kept(before.chip, image);
            lemma_keeps_overwritten(
                before.chip,
                before.chip.contents,
                self.address as int / 8 * 8,
                image,
            );
        }
        let result = self.flush_unchecked(bits, address_len);
        proof {
            lemma_sector_bits(self.address, address_len);
            if result is Ok {
                assert(staged(bits@, address_len).take(offset as int)
                    =~= self.hardware@.chip.contents.subrange(self.base(), self.address as int));
            }
        }
        result
    }

    /// Sends the request `bits`, waits until the chip is ready, reads the sector back and
    /// compares it with what was sent. In the end `bits` is made a request for the sector of
    /// the next byte.
    ///
    /// This flushes without checking the current address and populating extra data: data might
    /// be overwritten in memory if the internal buffer isn't completely aligned.
    fn flush_unchecked(&mut self, bits: &mut [u16], address_len: usize) -> (result: Result<
        (),
        Error,
    >)
        requires
            old(self).fits(old(bits)@, address_len),
            bits_value(old(bits)@, 2, address_len as nat) < old(self).hardware@.chip.sectors(),
        ensures
            *final(final(self).hardware) == *final(old(self).hardware),
            final(self).address == old(self).address,
            final(self).len == old(self).len,
            !final(self).dirty,
            final(self).hardware@ == old(self).hardware@.slowed().with_chip(
                flushed_chip(
                    old(self).hardware@.chip,
                    bits_value(old(bits)@, 2, address_len as nat) as int,
                    staged(old(bits)@, address_len),
                ),
            ),
            result == flush_result(old(self).hardware@.chip, staged(old(bits)@, address_len)),
            final(self).fits(final(bits)@, address_len),
            staged(final(bits)@, address_len) == staged(old(bits)@, address_len),
            bits_value(final(bits)@, 2, address_len as nat) == sector_bits(
                final(self).address,
                address_len,
            ),
    {
        let ghost before = self.hardware@;
        let ghost sector = bits_value(bits@, 2, address_len as nat) as int;
        let ghost data = staged(bits@, address_len);
        proof {
            vstd::arithmetic::div_mod::lemma_small_mod(sector as nat, before.chip.sectors() as nat);
        }
        crate::eeprom::write(self.hardware, bits);
        self.dirty = false;
        let ghost sent = self.hardware@;
        proof {
            lemma_transmit_keeps_wf(before.chip, old(bits)@);
            lemma_keeps_kept(before.chip, data);
            assert(sent.chip.contents.len() == before.chip.contents.len());
            assert(sent.chip.sector(sector) =~= before.chip.keeps(data));
        }

        // Wait for the write to succeed.
        let mut ready = false;
        let mut polls: usize = 0;
        while !ready && polls < READY_POLLS
            invariant
                polls <= READY_POLLS,
                sent.chip.wf(),
                sent.chip.busy == sent.chip.write_latency,
                sent.chip.busy >= polls,
                ready ==> sent.chip.busy == polls && polls < READY_POLLS,
                self.hardware@ == sent.with_chip(
                    sent.chip.polled_times(
                        if ready {
                            (polls + 1) as nat
                        } else {
                            polls as nat
                        },
                    ),
                ),
                *final(self.hardware) == *final(old(self).hardware),
                self.address == old(self).address,
                self.len == old(self).len,
                !self.dirty,
                bits@ == old(bits)@,
            decreases
                    READY_POLLS - polls + if ready {
                        0int
                    } else {
                        1int
                    },
        {
            let word = self.hardware.status();
            if word & 1 > 0 {
                assert(word & 1 == 1) by (bit_vector)
                    requires
                        word & 1 > 0,
                ;
                ready = true;
            } else {
                assert(word & 1 != 1) by (bit_vector)
                    requires
                        !(word & 1 > 0),
                ;
                polls += 1;
            }
        }
        let mut result = if ready {
            Ok(())
        } else {
            Err(Error::OperationTimedOut)
        };
        if result.is_ok() {
            // Verify the write.
            let mut new_bits = [0u16;68];
            new_bits[0] = 1;
            new_bits[1] = 1;
            // Copy over the address that was written.
            let mut i: usize = 0;
            while i < address_len
                invariant
                    i <= address_len,
                    address_len + 67 == bits@.len(),
                    address_len == ADDRESS_LEN_512B || address_len == ADDRESS_LEN_8KB,
                    new_bits@[0] == 1,
                    new_bits@[1] == 1,
                    forall|j: int|
                        0 <= j < i ==> #[trigger] bit_of(new_bits@, 2, j) == bit_of(bits@, 2, j),
                decreases address_len - i,
            {
                let ghost previous = new_bits@;
                new_bits[2 + i] = bits[2 + i];
                assert forall|j: int| 0 <= j < i + 1 implies #[trigger] bit_of(new_bits@, 2, j)
                    == bit_of(bits@, 2, j) by {
                    if j < i {
                        assert(bit_of(previous, 2, j) == bit_of(bits@, 2, j));
                    }
                }
                i += 1;
            }
            let request = &new_bits[0..(address_len + 3)];
            proof {
                assert forall|j: int| 0 <= j < address_len implies #[trigger] bit_of(request@, 2, j)
                    == bit_of(bits@, 2, j) by {
                    assert(bit_of(new_bits@, 2, j) == bit_of(bits@, 2, j));
                }
                lemma_bits_value_agree(request@, 2, bits@, 2, address_len as nat);
                assert(1u16 & 1 == 1) by (bit_vector);
                assert(request@[0] == 1 && request@[1] == 1);
                assert(self.hardware@.chip.is_read_request(request@));
                lemma_slowed_twice(before);
            }
            crate::eeprom::write(self.hardware, request);
            let received = read_bits(self.hardware);
            if !same_sector(bits, 2 + address_len, &received) {
                result = Err(Error::WriteFailure);
            }
        }
        // Populate the new address before completing.

        let ghost sent_bits = bits@;
        populate_address(bits, self.address, address_len);
        proof {
            assert forall|j: int| 0 <= j < 64 implies #[trigger] bit_of(
                bits@,
                2 + address_len,
                j,
            ) == bit_of(sent_bits, 2 + address_len, j) by {}
            lemma_bytes_agree(bits@, 2 + address_len, sent_bits, 2 + address_len, 8);
        }
        result
    }
}

/// A writer on a 512B EEPROM device.
///
/// This type allows writing data on the range specified upon creation.
pub struct Writer512B<'a, H: EepromHardware> {
    /// The writer that does the work.
    pub writer: Writer<'a, H>,
    /// The request to write that is being filled.
    pub bits: [u16; 73],
}

impl<'a, H: EepromHardware> Writer512B<'a, H> {
    /// The range lies within the chip, which has 512 bytes, and the request is one to write
    /// the sector of the next byte.
    pub open spec fn wf(&self) -> bool {
        self.writer.wf(self.bits@, ADDRESS_LEN_512B)
    }

    /// What the chip holds once the bytes that are held back are written.
    pub open spec fn target(&self) -> Seq<u8> {
        self.writer.target(self.bits@, ADDRESS_LEN_512B)
    }

    /// Creates a writer over the `len` bytes that start at `address`. Where `address` lies
    /// within a sector, the sector is read, so that the bytes of it before `address` are kept
    /// when it is written.
    pub fn new_unchecked(hardware: &'a mut H, address: usize, len: usize) -> (writer: Self)
        requires
            old(hardware)@.chip.wf(),
            old(hardware)@.chip.address_bits == ADDRESS_LEN_512B,
            address + len <= spec_capacity(ADDRESS_LEN_512B),
        ensures
            writer.wf(),
            writer.writer.address == address,
            writer.writer.len == len,
            !writer.writer.dirty,
            writer.target() == old(hardware)@.chip.contents,
            writer.writer.hardware@ == if address % SECTOR_SIZE == 0 {
                old(hardware)@
            } else {
                old(hardware)@.slowed().with_chip(
                    old(hardware)@.chip.with_selected((address / SECTOR_SIZE) as int),
                )
            },
            *final(writer.writer.hardware) == *final(hardware),
    {
        let mut bits = [0u16;73];
        let writer = Writer::new_unchecked(hardware, address, len, &mut bits, ADDRESS_LEN_512B);
        Self { writer, bits }
    }

    /// Returns the number of bytes that are held back.
    pub fn unflushed(&self) -> (count: usize)
        ensures
            count == if self.writer.dirty {
                self.writer.offset()
            } else {
                0
            },
    {
        self.writer.unflushed()
    }

    /// Writes what is held back to the chip, as `flush` does, and gives the hardware back to
    /// the device.
    ///
    /// When the chip is not ready in time after the sector was sent to it, the error is
    /// `OperationTimedOut`. When it is, and the sector does not read back as it was sent, the
    /// error is `WriteFailure`.
    pub fn close(self) -> (result: Result<(), Error>)
        requires
            self.wf(),
        ensures
            self.writer.dirty ==> result == flush_result(
                old(self.writer.hardware)@.chip,
                sector_of(self.target(), self.writer.address as int),
            ),
            !self.writer.dirty ==> result is Ok,
            final(self.writer.hardware)@ == if self.writer.dirty {
                old(self.writer.hardware)@.slowed().with_chip(
                    settled(
                        old(self.writer.hardware)@.chip.with_selected(
                            self.writer.address as int / SECTOR_SIZE as int,
                        ),
                        old(self.writer.hardware)@.chip.keeps(self.target()),
                        self.writer.address as int / SECTOR_SIZE as int,
                    ),
                )
            } else {
                old(self.writer.hardware)@
            },
    {
        let mut writer = self;
        writer.flush()
    }

    /// Takes on the bytes of `buf`, as many as the range still has room for, and returns how
    /// many. Whenever a sector is complete, it is written to the chip and read back; the bytes
    /// of a sector that is not complete are held back until `flush` is called.
    ///
    /// When the range is exhausted, nothing is taken and the error is `EndOfWriter`. When the
    /// chip is not ready in time after a sector was sent to it, the error is
    /// `OperationTimedOut`.
    pub fn write(&mut self, buf: &[u8]) -> (result: Result<usize, Error>)
        requires
            old(self).wf(),
        ensures
            *final(final(self).writer.hardware) == *final(old(self).writer.hardware),
            final(self).writer.wrote(
                final(self).bits@,
                old(self).writer,
                old(self).bits@,
                buf@,
                ADDRESS_LEN_512B,
                result,
            ),
    {
        self.writer.write(buf, &mut self.bits, ADDRESS_LEN_512B)
    }

    /// Writes the sector that is being filled to the chip, unless nothing is held back. The
    /// bytes of the sector that were never written are read from the chip first, so that they
    /// are kept.
    ///
    /// When the chip is not ready in time after the sector was sent to it, the error is
    /// `OperationTimedOut`.
    pub fn flush(&mut self) -> (result: Result<(), Error>)
        requires
            old(self).wf(),
        ensures
            *final(final(self).writer.hardware) == *final(old(self).writer.hardware),
            final(self).writer.flushed(
                final(self).bits@,
                old(self).writer,
                old(self).bits@,
                ADDRESS_LEN_512B,
                result,
            ),
    {
        self.writer.flush(&mut self.bits, ADDRESS_LEN_512B)
    }
}

/// A writer on an 8KiB EEPROM device.
///
/// This type allows writing data on the range specified upon creation.
pub struct Writer8K<'a, H: EepromHardware> {
    /// The writer that does the work.
    pub writer: Writer<'a, H>,
    /// The request to write that is being filled.
    pub bits: [u16; 81],
}

impl<'a, H: EepromHardware> Writer8K<'a, H> {
    /// The range lies within the chip, which has 8KiB, and the request is one to write the
    /// sector of the next byte.
    pub open spec fn wf(&self) -> bool {
        self.writer.wf(self.bits@, ADDRESS_LEN_8KB)
    }

    /// What the chip holds once the bytes that are held back are written.
    pub open spec fn target(&self) -> Seq<u8> {
        self.writer.target(self.bits@, ADDRESS_LEN_8KB)
    }

    /// Creates a writer over the `len` bytes that start at `address`. Where `address` lies
    /// within a sector, the sector is read, so that the bytes of it before `address` are kept
    /// when it is written.
    pub fn new_unchecked(hardware: &'a mut H, address: usize, len: usize) -> (writer: Self)
        requires
            old(hardware)@.chip.wf(),
            old(hardware)@.chip.address_bits == ADDRESS_LEN_8KB,
            address + len <= spec_capacity(ADDRESS_LEN_8KB),
        ensures
            writer.wf(),
            writer.writer.address == address,
            writer.writer.len == len,
            !writer.writer.dirty,
            writer.target() == old(hardware)@.chip.contents,
            writer.writer.hardware@ == if address % SECTOR_SIZE == 0 {
                old(hardware)@
            } else {
                old(hardware)@.slowed().with_chip(
                    old(hardware)@.chip.with_selected((address / SECTOR_SIZE) as int),
                )
            },
            *final(writer.writer.hardware) == *final(hardware),
    {
        let mut bits = [0u16;81];
        let writer = Writer::new_unchecked(hardware, address, len, &mut bits, ADDRESS_LEN_8KB);
        Self { writer, bits }
    }

    /// Returns the number of bytes that are held back.
    pub fn unflushed(&self) -> (count: usize)
        ensures
            count == if self.writer.dirty {
                self.writer.offset()
            } else {
                0
            },
    {
        self.writer.unflushed()
    }

    /// Writes what is held back to the chip, as `flush` does, and gives the hardware back to
    /// the device.
    ///
    /// When the chip is not ready in time after the sector was sent to it, the error is
    /// `OperationTimedOut`. When it is, and the sector does not read back as it was sent, the
    /// error is `WriteFailure`.
    pub fn close(self) -> (result: Result<(), Error>)
        requires
            self.wf(),
        ensures
            self.writer.dirty ==> result == flush_result(
                old(self.writer.hardware)@.chip,
                sector_of(self.target(), self.writer.address as int),
            ),
            !self.writer.dirty ==> result is Ok,
            final(self.writer.hardware)@ == if self.writer.dirty {
                old(self.writer.hardware)@.slowed().with_chip(
                    settled(
                        old(self.writer.hardware)@.chip.with_selected(
                            self.writer.address as int / SECTOR_SIZE as int,
                        ),
                        old(self.writer.hardware)@.chip.keeps(self.target()),
                        self.writer.address as int / SECTOR_SIZE as int,
                    ),
                )
            } else {
                old(self.writer.hardware)@
            },
    {
        let mut writer = self;
        writer.flush()
    }

    /// Takes on the bytes of `buf`, as many as the range still has room for, and returns how
    /// many. Whenever a sector is complete, it is written to the chip and read back; the bytes
    /// of a sector that is not complete are held back until `flush` is called.
    ///
    /// When the range is exhausted, nothing is taken and the error is `EndOfWriter`. When the
    /// chip is not ready in time after a sector was sent to it, the error is
    /// `OperationTimedOut`.
    pub fn write(&mut self, buf: &[u8]) -> (result: Result<usize, Error>)
        requires
            old(self).wf(),
        ensures
            *final(final(self).writer.hardware) == *final(old(self).writer.hardware),
            final(self).writer.wrote(
                final(self).bits@,
                old(self).writer,
                old(self).bits@,
                buf@,
                ADDRESS_LEN_8KB,
                result,
            ),
    {
        self.writer.write(buf, &mut self.bits, ADDRESS_LEN_8KB)
    }

    /// Writes the sector that is being filled to the chip, unless nothing is held back. The
    /// bytes of the sector that were never written are read from the chip first, so that they
    /// are kept.
    ///
    /// When the chip is not ready in time after the sector was sent to it, the error is
    /// `OperationTimedOut`.
    pub fn flush(&mut self) -> (result: Result<(), Error>)
        requires
            old(self).wf(),
        ensures
            *final(final(self).writer.hardware) == *final(old(self).writer.hardware),
            final(self).writer.flushed(
                final(self).bits@,
                old(self).writer,
                old(self).bits@,
                ADDRESS_LEN_8KB,
                result,
            ),
    {
        self.writer.flush(&mut self.bits, ADDRESS_LEN_8KB)
    }
}

} // verus!
