//! The EEPROM chip as the driver sees it.
//!
//! An EEPROM chip is spoken to over a serial bus, in bursts of words of which each carries one
//! bit. A burst that is sent to the chip is a request: to read a sector of eight bytes, or to
//! write one. What the chip sends back after a request to read is the sector. After a request to
//! write the chip is busy for a while, and says so to whoever asks for its status. Time is
//! counted in such questions. A chip that is busy takes requests all the same.
//!
//! A chip may be worn: some bit of each of its bytes may be stuck at zero. Such a chip stores
//! of a byte that it is sent only the bits that it can hold.

use crate::contents::overwritten;
use crate::eeprom::bits::bits_value;
use crate::eeprom::bits::bytes_at;
use crate::mmio::WaitstateControl;
use vstd::prelude::*;

verus! {

/// The number of address bits of a request to a chip of 512 bytes.
pub const ADDRESS_LEN_512B: usize = 6;

/// The number of address bits of a request to a chip of 8KiB.
pub const ADDRESS_LEN_8KB: usize = 14;

/// The number of bytes of a sector.
pub const SECTOR_SIZE: usize = 8;

/// The number of words that the chip sends back after a request to read: four that mean
/// nothing, and the 64 bits of the sector.
pub const RECEIVE_LEN: usize = 68;

/// The number of bytes of a chip whose requests have `address_len` address bits.
pub open spec fn spec_capacity(address_len: usize) -> usize {
    if address_len == ADDRESS_LEN_512B {
        512
    } else {
        8192
    }
}

/// Returns the number of bytes of a chip whose requests have `address_len` address bits.
#[verifier::when_used_as_spec(spec_capacity)]
pub fn capacity(address_len: usize) -> (bytes: usize)
    ensures
        bytes == spec_capacity(address_len),
{
    if address_len == ADDRESS_LEN_512B {
        512
    } else {
        8192
    }
}

/// The state of an EEPROM chip.
pub struct EepromChip {
    /// The number of address bits of a request.
    pub address_bits: nat,
    /// The bytes that the chip holds.
    pub contents: Seq<u8>,
    /// The sector that the chip sends back when it is received from.
    pub selected: int,
    /// How many more times the chip answers that it is busy.
    pub busy: nat,
    /// How many times the chip answers that it is busy after a request to write.
    pub write_latency: nat,
    /// The bits that a byte of the chip can hold. A chip that is sound can hold all eight.
    pub mask: u8,
}

impl EepromChip {
    /// The number of sectors.
    pub open spec fn sectors(self) -> int {
        self.contents.len() as int / SECTOR_SIZE as int
    }

    /// What the chip keeps of `data`, byte by byte: the bits that it can hold.
    pub open spec fn keeps(self, data: Seq<u8>) -> Seq<u8> {
        Seq::new(data.len(), |i: int| data[i] & self.mask)
    }

    /// Whether the chip keeps `data` as it is, as a sound chip keeps everything.
    pub open spec fn kept(self, data: Seq<u8>) -> bool {
        self.mask == 0xff || self.keeps(data) == data
    }

    /// The chip has 512 bytes and six address bits or 8KiB and fourteen, the sector that it
    /// sends back is one that it has, and it holds nothing that it cannot hold.
    pub open spec fn wf(self) -> bool {
        &&& self.address_bits == ADDRESS_LEN_512B || self.address_bits == ADDRESS_LEN_8KB
        &&& self.contents.len() == spec_capacity(self.address_bits as usize)
        &&& 0 <= self.selected < self.sectors()
        &&& self.kept(self.contents)
    }

    /// Whether `bits` is a request to read: two bits set, the address, and one more bit.
    pub open spec fn is_read_request(self, bits: Seq<u16>) -> bool {
        &&& bits.len() == self.address_bits + 3
        &&& bits[0] & 1 == 1
        &&& bits[1] & 1 == 1
    }

    /// Whether `bits` is a request to write: a bit set and a bit clear, the address, the 64
    /// bits of a sector, and one more bit.
    pub open spec fn is_write_request(self, bits: Seq<u16>) -> bool {
        &&& bits.len() == self.address_bits + 67
        &&& bits[0] & 1 == 1
        &&& bits[1] & 1 == 0
    }

    /// The sector that the request `bits` names. Address bits beyond those that the chip needs
    /// to tell its sectors apart do not count.
    pub open spec fn addressed(self, bits: Seq<u16>) -> int {
        bits_value(bits, 2, self.address_bits) as int % self.sectors()
    }

    /// The bytes of the sector that the request to write `bits` brings.
    pub open spec fn brought(self, bits: Seq<u16>) -> Seq<u8> {
        bytes_at(bits, 2 + self.address_bits as int, SECTOR_SIZE as nat)
    }

    /// The bytes of the sector `sector`.
    pub open spec fn sector(self, sector: int) -> Seq<u8> {
        self.contents.subrange(sector * SECTOR_SIZE, sector * SECTOR_SIZE + SECTOR_SIZE)
    }

    /// The chip with `sector` selected.
    pub open spec fn with_selected(self, sector: int) -> EepromChip {
        EepromChip { selected: sector, ..self }
    }

    /// The chip after `bits` were sent to it. A request to read selects a sector. A request
    /// to write stores what the chip keeps of a sector, and keeps the chip busy. Anything else
    /// is ignored.
    pub open spec fn after_transmit(self, bits: Seq<u16>) -> EepromChip {
        if self.is_read_request(bits) {
            EepromChip { selected: self.addressed(bits), ..self }
        } else if self.is_write_request(bits) {
            EepromChip {
                contents: overwritten(
                    self.contents,
                    self.addressed(bits) * SECTOR_SIZE,
                    self.keeps(self.brought(bits)),
                ),
                busy: self.write_latency,
                ..self
            }
        } else {
            self
        }
    }

    /// Whether `bits` can be what the chip sends back: four words that mean nothing, and the
    /// sector that is selected.
    pub open spec fn sends(self, bits: Seq<u16>) -> bool {
        &&& bits.len() == RECEIVE_LEN
        &&& bytes_at(bits, 4, SECTOR_SIZE as nat) == self.sector(self.selected)
    }

    /// Whether the chip answers that it is ready.
    pub open spec fn ready(self) -> bool {
        self.busy == 0
    }

    /// The chip after it was asked for its status.
    pub open spec fn polled(self) -> EepromChip {
        EepromChip {
            busy: if self.busy > 0 {
                (self.busy - 1) as nat
            } else {
                0
            },
            ..self
        }
    }

    /// The chip after it was asked for its status `polls` times.
    pub open spec fn polled_times(self, polls: nat) -> EepromChip {
        EepromChip {
            busy: if self.busy > polls {
                (self.busy - polls) as nat
            } else {
                0
            },
            ..self
        }
    }
}

/// The state of the machine as far as the EEPROM driver depends on it.
pub struct EepromState {
    /// The chip.
    pub chip: EepromChip,
    /// The value of the waitstate control register.
    pub waitstate_control: u16,
    /// Whether interrupts may occur.
    pub interrupts_enabled: bool,
}

impl EepromState {
    /// The state with `chip` for the chip.
    pub open spec fn with_chip(self, chip: EepromChip) -> EepromState {
        EepromState { chip, ..self }
    }

    /// The state after `value` was stored to the waitstate control register.
    pub open spec fn with_waitstate_control(self, value: u16) -> EepromState {
        EepromState { waitstate_control: value, ..self }
    }

    /// The state after interrupts were allowed or forbidden.
    pub open spec fn with_interrupts_enabled(self, enabled: bool) -> EepromState {
        EepromState { interrupts_enabled: enabled, ..self }
    }

    /// The state after `bits` were sent to the chip. A burst must not be interrupted: one that
    /// is sent while interrupts may occur does not reach the chip.
    pub open spec fn after_transmit(self, bits: Seq<u16>) -> EepromState {
        if self.interrupts_enabled {
            self
        } else {
            self.with_chip(self.chip.after_transmit(bits))
        }
    }

    /// The state with the wait cycles of the EEPROM window set to eight.
    pub open spec fn slowed(self) -> EepromState {
        self.with_waitstate_control((self.waitstate_control & 0xfcff) | (3u16 << 8))
    }
}

/// A chip keeps what it keeps: what it has stored once it stores again as it is. And what a
/// chip keeps as it is, it stores as it is.
pub proof fn lemma_keeps_kept(chip: EepromChip, data: Seq<u8>)
    ensures
        chip.keeps(chip.keeps(data)) == chip.keeps(data),
        chip.kept(data) <==> chip.keeps(data) == data,
{
    let mask = chip.mask;
    assert forall|i: int| 0 <= i < data.len() implies #[trigger] chip.keeps(chip.keeps(data))[i]
        == chip.keeps(data)[i] by {
        let byte = data[i];
        assert((byte & mask) & mask == byte & mask) by (bit_vector);
    }
    assert(chip.keeps(chip.keeps(data)) =~= chip.keeps(data));
    if mask == 0xff {
        assert forall|i: int| 0 <= i < data.len() implies #[trigger] chip.keeps(data)[i]
            == data[i] by {
            let byte = data[i];
            assert(byte & 0xff == byte) by (bit_vector);
        }
        assert(chip.keeps(data) =~= data);
    }
}

/// What a chip keeps of contents of which a part was overwritten: what it held before, which
/// it kept, and what it keeps of the part.
pub proof fn lemma_keeps_overwritten(chip: EepromChip, contents: Seq<u8>, index: int, data: Seq<u8>)
    requires
        chip.kept(contents),
        0 <= index,
        index + data.len() <= contents.len(),
    ensures
        chip.keeps(overwritten(contents, index, data)) == overwritten(
            contents,
            index,
            chip.keeps(data),
        ),
        chip.kept(overwritten(contents, index, chip.keeps(data))),
        chip.kept(data) ==> chip.kept(overwritten(contents, index, data)),
{
    lemma_keeps_kept(chip, contents);
    lemma_keeps_kept(chip, data);
    lemma_keeps_kept(chip, chip.keeps(data));
    lemma_keeps_kept(chip, overwritten(contents, index, chip.keeps(data)));
    assert forall|i: int| 0 <= i < contents.len() implies #[trigger] chip.keeps(
        overwritten(contents, index, data),
    )[i] == overwritten(contents, index, chip.keeps(data))[i] by {
        if !(index <= i < index + data.len()) {
            assert(chip.keeps(contents)[i] == contents[i]);
        }
    }
    assert(chip.keeps(overwritten(contents, index, data)) =~= overwritten(
        contents,
        index,
        chip.keeps(data),
    ));
    lemma_keeps_kept(chip, overwritten(contents, index, data));
    assert(chip.keeps(overwritten(contents, index, chip.keeps(data))) =~= overwritten(
        contents,
        index,
        chip.keeps(data),
    )) by {
        assert forall|i: int| 0 <= i < contents.len() implies #[trigger] chip.keeps(
            overwritten(contents, index, chip.keeps(data)),
        )[i] == overwritten(contents, index, chip.keeps(data))[i] by {
            if index <= i < index + data.len() {
                assert(chip.keeps(chip.keeps(data))[i - index] == chip.keeps(data)[i - index]);
            } else {
                assert(chip.keeps(contents)[i] == contents[i]);
            }
        }
    }
}

/// Whatever is sent to a chip that is well formed leaves it well formed.
pub proof fn lemma_transmit_keeps_wf(chip: EepromChip, bits: Seq<u16>)
    requires
        chip.wf(),
    ensures
        chip.after_transmit(bits).wf(),
{
    if chip.is_read_request(bits) {
    } else if chip.is_write_request(bits) {
        lemma_keeps_overwritten(
            chip,
            chip.contents,
            chip.addressed(bits) * SECTOR_SIZE,
            chip.brought(bits),
        );
    }
}

/// Setting the wait cycles of the EEPROM window to eight again changes nothing.
pub proof fn lemma_slowed_twice(state: EepromState)
    ensures
        state.slowed().slowed() == state.slowed(),
{
    let value = state.waitstate_control;
    assert((((value & 0xfcff) | (3u16 << 8)) & 0xfcff) | (3u16 << 8) == (value & 0xfcff) | (3u16
        << 8)) by (bit_vector);
}

/// Access to the EEPROM chip and to the registers that the EEPROM driver sets.
///
/// A value of this type stands for the chip, for the channel for direct memory access that
/// moves the bursts, for the EEPROM wait cycles of the waitstate register and for the interrupt
/// master enable flag, and for them alone: nothing else reads or writes them while the value
/// exists.
pub trait EepromHardware: Sized {
    /// The state of the hardware.
    spec fn view(&self) -> EepromState;

    /// Reads the waitstate control register.
    fn waitstate_control(&mut self) -> (value: WaitstateControl)
        ensures
            value.0 == old(self)@.waitstate_control,
            final(self)@ == old(self)@,
    ;

    /// Stores `value` to the waitstate control register.
    fn set_waitstate_control(&mut self, value: WaitstateControl)
        ensures
            final(self)@ == old(self)@.with_waitstate_control(value.0),
    ;

    /// Reads the interrupt master enable flag.
    fn interrupts_enabled(&mut self) -> (enabled: bool)
        ensures
            enabled == old(self)@.interrupts_enabled,
            final(self)@ == old(self)@,
    ;

    /// Stores `enabled` to the interrupt master enable flag.
    fn set_interrupts_enabled(&mut self, enabled: bool)
        ensures
            final(self)@ == old(self)@.with_interrupts_enabled(enabled),
    ;

    /// Sends `bits` to the chip in one burst, and returns when all are sent.
    fn transmit(&mut self, bits: &[u16])
        requires
            old(self)@.chip.wf(),
            bits@.len() <= u16::MAX,
        ensures
            final(self)@ == old(self)@.after_transmit(bits@),
    ;

    /// Receives from the chip in one burst what it sends back after a request to read.
    fn receive(&mut self) -> (bits: [u16; 68])
        requires
            old(self)@.chip.wf(),
        ensures
            final(self)@ == old(self)@,
            !old(self)@.interrupts_enabled ==> old(self)@.chip.sends(bits@),
    ;

    /// Reads the word at which the chip is reached. Its lowest bit says whether the chip is
    /// ready.
    fn status(&mut self) -> (word: u16)
        requires
            old(self)@.chip.wf(),
        ensures
            word & 1 == 1 <==> old(self)@.chip.ready(),
            final(self)@ == old(self)@.with_chip(old(self)@.chip.polled()),
    ;
}

} // verus!
