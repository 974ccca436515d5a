//! EEPROM backup memory.
//!
//! The GBA has two variants of EEPROM backup:
//! - 512B
//! - 8KiB
//!
//! The methods for writing to and reading from these variants differs, so you should be deliberate
//! about which one you use.

pub mod bits;
pub mod error;
pub mod hardware;
pub mod laws;
pub mod reader;
pub mod simulator;
pub mod writer;

pub use error::Error;
pub use hardware::EepromChip;
pub use hardware::EepromHardware;
pub use hardware::EepromState;
pub use reader::Reader512B;
pub use reader::Reader8K;
pub use simulator::SimulatedEeprom;
pub use writer::Writer512B;
pub use writer::Writer8K;

use crate::mmio::Cycles;
use crate::range::translate_range_to_buffer;
use crate::range::Bound;
use bits::bit_of;
use bits::bits_value;
use bits::bytes_at;
use bits::decode_byte;
use bits::lemma_bits_value_agree;
use hardware::spec_capacity;
use hardware::RECEIVE_LEN;
use hardware::SECTOR_SIZE;
use vstd::prelude::*;

verus! {

// Interacting with EEPROM works essentially in "sectors" of 8 bytes. Therefore, when writing and
// reading data, we need to offset based on the actual address we want to access and ensure we
// don't overwrite other data with 0s accidentally.
/// Sends `bits` to the chip. Interrupts are off while the burst is under way, and are as they
/// were afterwards. The wait cycles of the EEPROM window are set to eight.
pub fn write<H: EepromHardware>(hardware: &mut H, bits: &[u16])
    requires
        old(hardware)@.chip.wf(),
        bits@.len() <= u16::MAX,
    ensures
        final(hardware)@ == old(hardware)@.slowed().with_chip(
            old(hardware)@.chip.after_transmit(bits@),
        ),
{
    // Disable interrupts.
    let previous_ime = hardware.interrupts_enabled();
    hardware.set_interrupts_enabled(false);

    // Write bits using DMA3.
    let mut waitcnt = hardware.waitstate_control();
    waitcnt.set_eeprom_waitstate(Cycles::_8);
    hardware.set_waitstate_control(waitcnt);

    hardware.transmit(bits);

    // Re-enable interrupts.
    hardware.set_interrupts_enabled(previous_ime);
}

/// Receives what the chip sends back after a request to read. Interrupts are off while the
/// burst is under way, and are as they were afterwards. The wait cycles of the EEPROM window
/// are set to eight.
pub fn read_bits<H: EepromHardware>(hardware: &mut H) -> (bits: [u16; 68])
    requires
        old(hardware)@.chip.wf(),
    ensures
        final(hardware)@ == old(hardware)@.slowed(),
        old(hardware)@.chip.sends(bits@),
{
    // Disable interrupts.
    let previous_ime = hardware.interrupts_enabled();
    hardware.set_interrupts_enabled(false);

    let mut waitcnt = hardware.waitstate_control();
    waitcnt.set_eeprom_waitstate(Cycles::_8);
    hardware.set_waitstate_control(waitcnt);

    // Read bits using DMA3.
    let bits = hardware.receive();

    // Re-enable interrupts.
    hardware.set_interrupts_enabled(previous_ime);
    bits
}

/// The number of bytes that are read from a sector into the `room` bytes that are left to fill,
/// where the first byte to read is the byte `offset` of the sector.
pub open spec fn taken(offset: int, room: int) -> int {
    if room < SECTOR_SIZE - offset {
        room
    } else {
        SECTOR_SIZE - offset
    }
}

/// Receives the sector that is selected, and puts its bytes from the byte `offset` on into
/// `output_buffer` from `from` up to `to`, as many as there is room for. Returns how many.
pub fn read<H: EepromHardware>(
    hardware: &mut H,
    output_buffer: &mut [u8],
    from: usize,
    to: usize,
    offset: usize,
) -> (count: usize)
    requires
        old(hardware)@.chip.wf(),
        from <= to <= old(output_buffer)@.len(),
        offset < SECTOR_SIZE,
    ensures
        final(hardware)@ == old(hardware)@.slowed(),
        count == taken(offset as int, to - from),
        final(output_buffer)@ == old(output_buffer)@.take(from as int) + old(
            hardware,
        )@.chip.sector(old(hardware)@.chip.selected).subrange(offset as int, offset + count) + old(
            output_buffer,
        )@.skip(from + count),
{
    let bit_buffer = read_bits(hardware);
    let room = to - from;
    let count = if room < SECTOR_SIZE - offset {
        room
    } else {
        SECTOR_SIZE - offset
    };
    let ghost sector = old(hardware)@.chip.sector(old(hardware)@.chip.selected);

    // Now we write the bits to the output buffer.
    let mut i: usize = 0;
    while i < count
        invariant
            i <= count,
            offset + count <= SECTOR_SIZE,
            from + count <= to <= output_buffer@.len(),
            output_buffer@.len() == old(output_buffer)@.len(),
            bit_buffer@.len() == RECEIVE_LEN,
            bytes_at(bit_buffer@, 4, SECTOR_SIZE as nat) == sector,
            output_buffer@ =~= old(output_buffer)@.take(from as int) + sector.subrange(
                offset as int,
                offset + i,
            ) + old(output_buffer)@.skip(from + i),
        decreases count - i,
    {
        let byte = decode_byte(bit_buffer.as_slice(), 4 + 8 * (offset + i));
        assert(byte == bytes_at(bit_buffer@, 4, SECTOR_SIZE as nat)[offset + i]);
        output_buffer[from + i] = byte;
        i += 1;
    }
    count
}

/// The number that the address bits of a request for the sector of `address` spell: the
/// number of the sector, as far as `address_len` bits hold it.
pub open spec fn sector_bits(address: usize, address_len: usize) -> u64 {
    ((address / SECTOR_SIZE) as u64) & (((1u64 << (address_len as u64)) - 1) as u64)
}

/// Populate an address to a bit buffer to be manipulated on the EEPROM.
///
/// The address bits follow the two bits at the head of a request, the highest first. Note that
/// this only populates with an alignment of 8. Callers should make sure they account for the
/// alignment.
///
/// Pass in an appropriate `address_len` depending on the type of chip being interacted with. 8KiB
/// chips use a value of 14, and 512B chips use a value of 6.
pub fn populate_address(bit_buffer: &mut [u16], address: usize, address_len: usize)
    requires
        2 + address_len <= old(bit_buffer)@.len(),
        address_len <= 32,
    ensures
        final(bit_buffer)@.len() == old(bit_buffer)@.len(),
        bits_value(final(bit_buffer)@, 2, address_len as nat) == sector_bits(address, address_len),
        forall|i: int|
            0 <= i < old(bit_buffer)@.len() && !(2 <= i < 2 + address_len) ==> final(bit_buffer)@[i]
                == old(bit_buffer)@[i],
{
    let size = bit_buffer.len();
    let sector = (address / SECTOR_SIZE) as u64;
    let length = address_len as u64;
    let mut i: usize = 0;
    assert((sector >> length) & (((1u64 << 0u64) - 1) as u64) == 0) by (bit_vector);
    while i < address_len
        invariant
            i <= address_len <= 32,
            length == address_len,
            sector == (address / SECTOR_SIZE) as u64,
            2 + address_len <= size,
            size == bit_buffer@.len(),
            bit_buffer@.len() == old(bit_buffer)@.len(),
            bits_value(bit_buffer@, 2, i as nat) == (sector >> ((length - i) as u64)) & (((1u64 << (
            i as u64)) - 1) as u64),
            forall|j: int|
                0 <= j < bit_buffer@.len() && !(2 <= j < 2 + i) ==> bit_buffer@[j] == old(
                    bit_buffer,
                )@[j],
        decreases address_len - i,
    {
        let shift = (address_len - 1 - i) as u64;
        let bit = ((sector >> shift) & 1) as u16;
        let ghost previous = bit_buffer@;
        bit_buffer[2 + i] = bit;
        proof {
            let done = i as u64;
            assert forall|j: int| 0 <= j < i implies #[trigger] bit_of(previous, 2, j) == bit_of(
                bit_buffer@,
                2,
                j,
            ) by {}
            lemma_bits_value_agree(previous, 2, bit_buffer@, 2, i as nat);
            assert(bit & 1 == bit && bit == (sector >> shift) & 1 && 2 * ((sector >> ((shift
                + 1) as u64)) & (((1u64 << done) - 1) as u64)) + ((sector >> shift) & 1) == (sector
                >> shift) & (((1u64 << ((done + 1) as u64)) - 1) as u64)) by (bit_vector)
                requires
                    bit == ((sector >> shift) & 1) as u16,
                    shift < 32,
                    done < 32,
            ;
        }
        i += 1;
    }
    assert(sector >> 0u64 == sector) by (bit_vector);
}

/// The address bits of a request for a sector of the chip spell the number of the sector.
pub proof fn lemma_sector_bits(address: usize, address_len: usize)
    requires
        address_len == hardware::ADDRESS_LEN_512B || address_len == hardware::ADDRESS_LEN_8KB,
        address < hardware::spec_capacity(address_len),
    ensures
        sector_bits(address, address_len) == address / SECTOR_SIZE,
{
    let sector = (address / SECTOR_SIZE) as u64;
    if address_len == hardware::ADDRESS_LEN_512B {
        assert(sector & (((1u64 << 6u64) - 1) as u64) == sector) by (bit_vector)
            requires
                sector < 64,
        ;
    } else {
        assert(sector & (((1u64 << 14u64) - 1) as u64) == sector) by (bit_vector)
            requires
                sector < 1024,
        ;
    }
}

/// Makes `bits` begin with a request to read the sector of `address`, sends the request, and
/// so selects that sector.
pub fn request_read<H: EepromHardware>(
    hardware: &mut H,
    bits: &mut [u16; 68],
    address: usize,
    address_len: usize,
)
    requires
        old(hardware)@.chip.wf(),
        old(hardware)@.chip.address_bits == address_len,
        address < hardware::spec_capacity(address_len),
    ensures
        final(hardware)@ == old(hardware)@.slowed().with_chip(
            old(hardware)@.chip.with_selected((address / SECTOR_SIZE) as int),
        ),
        forall|i: int| 3 + address_len <= i < RECEIVE_LEN ==> final(bits)@[i] == old(bits)@[i],
{
    bits[0] = 1;
    bits[1] = 1;
    populate_address(bits, address, address_len);
    let ghost populated = bits@;
    bits[address_len + 2] = 0;

    // Send to EEPROM
    let request = &bits[0..(address_len + 3)];
    proof {
        let chip = hardware@.chip;
        lemma_sector_bits(address, address_len);
        assert forall|j: int| 0 <= j < address_len implies #[trigger] bit_of(request@, 2, j)
            == bit_of(populated, 2, j) by {}
        lemma_bits_value_agree(request@, 2, populated, 2, address_len as nat);
        assert(1u16 & 1 == 1) by (bit_vector);
        assert(request@[0] == 1 && request@[1] == 1);
        assert(chip.is_read_request(request@));
        assert(bits_value(request@, 2, address_len as nat) == address / SECTOR_SIZE);
        assert(chip.sectors() == spec_capacity(address_len) / SECTOR_SIZE);
        vstd::arithmetic::div_mod::lemma_small_mod(
            (address / SECTOR_SIZE) as nat,
            chip.sectors() as nat,
        );
    }
    write(hardware, request);
}

/// An EEPROM device with 512B of storage.
pub struct Eeprom512B<H: EepromHardware> {
    /// The hardware that this device is driven through.
    pub hardware: H,
}

impl<H: EepromHardware> Eeprom512B<H> {
    /// The chip has 512 bytes.
    pub open spec fn wf(&self) -> bool {
        &&& self.hardware@.chip.wf()
        &&& self.hardware@.chip.address_bits == hardware::ADDRESS_LEN_512B
    }

    /// Creates an accessor to the EEPROM 512B backup memory.
    pub fn new(hardware: H) -> (eeprom: Self)
        ensures
            eeprom.hardware == hardware,
    {
        Self { hardware }
    }

    /// Returns a reader over the range from `start` to `end`.
    pub fn reader<'a>(&'a mut self, start: Bound<511>, end: Bound<511>) -> (reader: Reader512B<
        'a,
        H,
    >)
        requires
            start.first() <= end.limit(),
        ensures
            reader.reader.address == start.first(),
            reader.reader.len == end.limit() - start.first(),
            reader.reader.address + reader.reader.len <= 512,
            old(self).wf() ==> reader.reader.wf(hardware::ADDRESS_LEN_512B),
            *reader.reader.hardware == old(self).hardware,
            *final(reader.reader.hardware) == final(self).hardware,
    {
        let (address, len) = translate_range_to_buffer(start, end, 0);
        Reader512B::new_unchecked(&mut self.hardware, address, len)
    }

    /// Returns a writer over the range from `start` to `end`. Where the range starts within a
    /// sector, the sector is read.
    pub fn writer<'a>(&'a mut self, start: Bound<511>, end: Bound<511>) -> (writer: Writer512B<
        'a,
        H,
    >)
        requires
            old(self).wf(),
            start.first() <= end.limit(),
        ensures
            writer.wf(),
            writer.writer.address == start.first(),
            writer.writer.len == end.limit() - start.first(),
            !writer.writer.dirty,
            writer.target() == old(self).hardware@.chip.contents,
            writer.writer.hardware@ == if start.first() % 8 == 0 {
                old(self).hardware@
            } else {
                old(self).hardware@.slowed().with_chip(
                    old(self).hardware@.chip.with_selected(start.first() / 8),
                )
            },
            *final(writer.writer.hardware) == final(self).hardware,
    {
        let (address, len) = translate_range_to_buffer(start, end, 0);
        Writer512B::new_unchecked(&mut self.hardware, address, len)
    }
}

/// An EEPROM device with 8KiB of storage.
pub struct Eeprom8K<H: EepromHardware> {
    /// The hardware that this device is driven through.
    pub hardware: H,
}

impl<H: EepromHardware> Eeprom8K<H> {
    /// The chip has 8KiB.
    pub open spec fn wf(&self) -> bool {
        &&& self.hardware@.chip.wf()
        &&& self.hardware@.chip.address_bits == hardware::ADDRESS_LEN_8KB
    }

    /// Creates an accessor to the EEPROM 8KiB backup memory.
    pub fn new(hardware: H) -> (eeprom: Self)
        ensures
            eeprom.hardware == hardware,
    {
        Self { hardware }
    }

    /// Returns a reader over the range from `start` to `end`.
    pub fn reader<'a>(&'a mut self, start: Bound<8191>, end: Bound<8191>) -> (reader: Reader8K<
        'a,
        H,
    >)
        requires
            start.first() <= end.limit(),
        ensures
            reader.reader.address == start.first(),
            reader.reader.len == end.limit() - start.first(),
            reader.reader.address + reader.reader.len <= 8192,
            old(self).wf() ==> reader.reader.wf(hardware::ADDRESS_LEN_8KB),
            *reader.reader.hardware == old(self).hardware,
            *final(reader.reader.hardware) == final(self).hardware,
    {
        let (address, len) = translate_range_to_buffer(start, end, 0);
        Reader8K::new_unchecked(&mut self.hardware, address, len)
    }

    /// Returns a writer over the range from `start` to `end`. Where the range starts within a
    /// sector, the sector is read.
    pub fn writer<'a>(&'a mut self, start: Bound<8191>, end: Bound<8191>) -> (writer: Writer8K<
        'a,
        H,
    >)
        requires
            old(self).wf(),
            start.first() <= end.limit(),
        ensures
            writer.wf(),
            writer.writer.address == start.first(),
            writer.writer.len == end.limit() - start.first(),
            !writer.writer.dirty,
            writer.target() == old(self).hardware@.chip.contents,
            writer.writer.hardware@ == if start.first() % 8 == 0 {
                old(self).hardware@
            } else {
                old(self).hardware@.slowed().with_chip(
                    old(self).hardware@.chip.with_selected(start.first() / 8),
                )
            },
            *final(writer.writer.hardware) == final(self).hardware,
    {
        let (address, len) = translate_range_to_buffer(start, end, 0);
        Writer8K::new_unchecked(&mut self.hardware, address, len)
    }
}

} // verus!
