//! An EEPROM chip held in ordinary memory.

use crate::contents::overwritten;
use crate::eeprom::bits::bit_of;
use crate::eeprom::bits::bits_value;
use crate::eeprom::bits::bytes_at;
use crate::eeprom::bits::decode_byte;
use crate::eeprom::bits::encode_byte;
use crate::eeprom::bits::lemma_bits_value_agree;
use crate::eeprom::bits::two_to;
use crate::eeprom::hardware::lemma_keeps_kept;
use crate::eeprom::hardware::EepromChip;
use crate::eeprom::hardware::EepromHardware;
use crate::eeprom::hardware::EepromState;
use crate::eeprom::hardware::ADDRESS_LEN_512B;
use crate::eeprom::hardware::ADDRESS_LEN_8KB;
use crate::eeprom::hardware::SECTOR_SIZE;
use crate::mmio::WaitstateControl;
use vstd::prelude::*;

verus! {

/// An EEPROM chip held in ordinary memory, for use where there is no cartridge.
pub struct SimulatedEeprom {
    /// The number of address bits of a request.
    pub address_bits: usize,
    /// The bytes that the chip holds.
    pub contents: Vec<u8>,
    /// The sector that the chip sends back when it is received from.
    pub selected: usize,
    /// How many more times the chip answers that it is busy.
    pub busy: usize,
    /// How many times the chip answers that it is busy after a request to write.
    pub write_latency: usize,
    /// The bits that a byte of the chip can hold.
    pub mask: u8,
    /// The value of the waitstate control register.
    pub waitstate_control: u16,
    /// Whether interrupts may occur.
    pub interrupts_enabled: bool,
}

impl SimulatedEeprom {
    /// A chip of `size` bytes, each of which is `0xff`, that takes requests with `address_bits`
    /// address bits.
    fn filled(address_bits: usize, size: usize) -> (chip: Self)
        requires
            size >= SECTOR_SIZE,
        ensures
            chip.address_bits == address_bits,
            chip.contents@.len() == size,
            forall|i: int| 0 <= i < size ==> chip.contents@[i] == 0xff,
            chip.selected == 0,
            chip.busy == 0,
            chip.write_latency == 1,
            chip.mask == 0xff,
            chip.waitstate_control == 0,
            chip.interrupts_enabled,
    {
        let mut contents: Vec<u8> = Vec::new();
        while contents.len() < size
            invariant
                contents@.len() <= size,
                forall|i: int| 0 <= i < contents@.len() ==> contents@[i] == 0xff,
            decreases size - contents@.len(),
        {
            contents.push(0xff);
        }
        Self {
            address_bits,
            contents,
            selected: 0,
            busy: 0,
            write_latency: 1,
            mask: 0xff,
            waitstate_control: 0,
            interrupts_enabled: true,
        }
    }

    /// A sound chip of 512 bytes, each of which is `0xff`. It is busy for one poll after a
    /// request to write, and interrupts are allowed.
    pub fn new_512b() -> (chip: Self)
        ensures
            chip@.chip.wf(),
            chip@.chip.address_bits == ADDRESS_LEN_512B,
            forall|i: int| 0 <= i < 512 ==> chip@.chip.contents[i] == 0xff,
            chip@.chip.busy == 0,
            chip@.chip.write_latency == 1,
            chip@.chip.mask == 0xff,
            chip@.waitstate_control == 0,
            chip@.interrupts_enabled,
    {
        let chip = Self::filled(ADDRESS_LEN_512B, 512);
        proof {
            assert(0xffu8 & 0xff == 0xff) by (bit_vector);
            assert(chip@.chip.keeps(chip@.chip.contents) =~= chip@.chip.contents);
        }
        chip
    }

    /// A sound chip of 8KiB, each byte of which is `0xff`. It is busy for one poll after a
    /// request to write, and interrupts are allowed.
    pub fn new_8k() -> (chip: Self)
        ensures
            chip@.chip.wf(),
            chip@.chip.address_bits == ADDRESS_LEN_8KB,
            forall|i: int| 0 <= i < 8192 ==> chip@.chip.contents[i] == 0xff,
            chip@.chip.busy == 0,
            chip@.chip.write_latency == 1,
            chip@.chip.mask == 0xff,
            chip@.waitstate_control == 0,
            chip@.interrupts_enabled,
    {
        let chip = Self::filled(ADDRESS_LEN_8KB, 8192);
        proof {
            assert(0xffu8 & 0xff == 0xff) by (bit_vector);
            assert(chip@.chip.keeps(chip@.chip.contents) =~= chip@.chip.contents);
        }
        chip
    }

    /// Wears the chip: from now on its bytes hold only those of their bits that `mask` has
    /// set. What the chip holds loses the other bits.
    pub fn wear(&mut self, mask: u8)
        requires
            old(self)@.chip.wf(),
        ensures
            final(self)@.chip.wf(),
            final(self)@ == old(self)@.with_chip(
                EepromChip {
                    mask: old(self)@.chip.mask & mask,
                    contents: EepromChip { mask, ..old(self)@.chip }.keeps(old(self)@.chip.contents),
                    ..old(self)@.chip
                },
            ),
    {
        let size = self.contents.len();
        let mut i: usize = 0;
        let ghost worn = EepromChip { mask, ..self@.chip };
        while i < size
            invariant
                i <= size,
                size == self.contents@.len(),
                size == old(self).contents@.len(),
                self.address_bits == old(self).address_bits,
                self.selected == old(self).selected,
                self.busy == old(self).busy,
                self.write_latency == old(self).write_latency,
                self.mask == old(self).mask,
                self.waitstate_control == old(self).waitstate_control,
                self.interrupts_enabled == old(self).interrupts_enabled,
                forall|j: int| 0 <= j < i ==> self.contents@[j] == old(self).contents@[j] & mask,
                forall|j: int| i <= j < size ==> self.contents@[j] == old(self).contents@[j],
            decreases size - i,
        {
            let byte = self.contents[i];
            self.contents[i] = byte & mask;
            i += 1;
        }
        let previous = self.mask;
        self.mask = previous & mask;
        proof {
            lemma_keeps_kept(old(self)@.chip, old(self).contents@);
            assert(self.contents@ =~= worn.keeps(old(self).contents@));
            assert forall|j: int| 0 <= j < size implies #[trigger] self@.chip.keeps(
                self.contents@,
            )[j] == self.contents@[j] by {
                let byte = old(self).contents@[j];
                assert((byte & mask) & (previous & mask) == byte & mask) by (bit_vector)
                    requires
                        byte & previous == byte,
                ;
                assert(old(self)@.chip.keeps(old(self).contents@)[j] == old(self).contents@[j]);
            }
            assert(self@.chip.keeps(self.contents@) =~= self.contents@);
        }
    }

    /// Reads the number that the address bits of the request `bits` spell.
    fn address(&self, bits: &[u16]) -> (address: usize)
        requires
            self.address_bits <= 14,
            2 + self.address_bits <= bits@.len(),
        ensures
            address == bits_value(bits@, 2, self.address_bits as nat),
    {
        let mut value: usize = 0;
        let mut i: usize = 0;
        while i < self.address_bits
            invariant
                i <= self.address_bits <= 14,
                2 + self.address_bits <= bits@.len(),
                value == bits_value(bits@, 2, i as nat),
                value < two_to(i as nat),
                two_to(i as nat) <= 16384,
            decreases self.address_bits - i,
        {
            let word = bits[2 + i];
            let bit = word & 1;
            assert(bit == 0 || bit == 1) by (bit_vector)
                requires
                    bit == word & 1,
            ;
            assert(two_to((i + 1) as nat) <= 16384) by {
                reveal_with_fuel(two_to, 16);
            }
            value = value * 2 + bit as usize;
            i += 1;
        }
        value
    }

    /// Stores what the chip keeps of the sector that the request to write `bits` brings.
    fn store(&mut self, bits: &[u16], sector: usize)
        requires
            old(self)@.chip.wf(),
            bits@.len() == old(self).address_bits + 67,
            sector < old(self)@.chip.sectors(),
        ensures
            final(self)@ == old(self)@.with_chip(
                EepromChip {
                    contents: overwritten(
                        old(self)@.chip.contents,
                        sector * SECTOR_SIZE,
                        old(self)@.chip.keeps(old(self)@.chip.brought(bits@)),
                    ),
                    ..old(self)@.chip
                },
            ),
    {
        let ghost brought = self@.chip.keeps(self@.chip.brought(bits@));
        let mut k: usize = 0;
        assert(self.contents@ =~= overwritten(
            old(self)@.chip.contents,
            sector * SECTOR_SIZE,
            brought.take(0),
        ));
        while k < SECTOR_SIZE
            invariant
                k <= SECTOR_SIZE,
                old(self)@.chip.wf(),
                bits@.len() == self.address_bits + 67,
                sector < old(self)@.chip.sectors(),
                brought == old(self)@.chip.keeps(old(self)@.chip.brought(bits@)),
                self@ == old(self)@.with_chip(
                    EepromChip {
                        contents: overwritten(
                            old(self)@.chip.contents,
                            sector * SECTOR_SIZE,
                            brought.take(k as int),
                        ),
                        ..old(self)@.chip
                    },
                ),
            decreases SECTOR_SIZE - k,
        {
            let byte = decode_byte(bits, 2 + self.address_bits + 8 * k) & self.mask;
            assert(byte == brought[k as int]);
            self.contents[sector * SECTOR_SIZE + k] = byte;
            assert(self.contents@ =~= overwritten(
                old(self)@.chip.contents,
                sector * SECTOR_SIZE,
                brought.take(k + 1),
            ));
            k += 1;
        }
        assert(brought.take(SECTOR_SIZE as int) =~= brought);
    }
}

impl EepromHardware for SimulatedEeprom {
    open spec fn view(&self) -> EepromState {
        EepromState {
            chip: EepromChip {
                address_bits: self.address_bits as nat,
                contents: self.contents@,
                selected: self.selected as int,
                busy: self.busy as nat,
                write_latency: self.write_latency as nat,
                mask: self.mask,
            },
            waitstate_control: self.waitstate_control,
            interrupts_enabled: self.interrupts_enabled,
        }
    }

    fn waitstate_control(&mut self) -> (value: WaitstateControl) {
        WaitstateControl(self.waitstate_control)
    }

    fn set_waitstate_control(&mut self, value: WaitstateControl) {
        self.waitstate_control = value.0;
    }

    fn interrupts_enabled(&mut self) -> (enabled: bool) {
        self.interrupts_enabled
    }

    fn set_interrupts_enabled(&mut self, enabled: bool) {
        self.interrupts_enabled = enabled;
    }

    fn transmit(&mut self, bits: &[u16]) {
        if self.interrupts_enabled {
            return ;
        }
        let sectors = self.contents.len() / SECTOR_SIZE;
        if bits.len() == self.address_bits + 3 && bits[0] & 1 == 1 && bits[1] & 1 == 1 {
            self.selected = self.address(bits) % sectors;
        } else if bits.len() == self.address_bits + 67 && bits[0] & 1 == 1 && bits[1] & 1 == 0 {
            let sector = self.address(bits) % sectors;
            self.store(bits, sector);
            self.busy = self.write_latency;
        }
    }

    fn receive(&mut self) -> (bits: [u16; 68]) {
        let mut bits = [0u16;68];
        let mut k: usize = 0;
        let ghost sector = self@.chip.sector(self.selected as int);
        assert(bytes_at(bits@, 4, 0) =~= sector.take(0));
        while k < SECTOR_SIZE
            invariant
                k <= SECTOR_SIZE,
                self@.chip.wf(),
                self@ == old(self)@,
                sector == self@.chip.sector(self.selected as int),
                bytes_at(bits@, 4, k as nat) == sector.take(k as int),
            decreases SECTOR_SIZE - k,
        {
            let byte = self.contents[self.selected * SECTOR_SIZE + k];
            let ghost previous = bits@;
            encode_byte(&mut bits, 4 + 8 * k, byte);
            proof {
                assert forall|b: int| 0 <= b < k + 1 implies #[trigger] bytes_at(
                    bits@,
                    4,
                    (k + 1) as nat,
                )[b] == sector.take(k + 1)[b] by {
                    if b < k {
                        assert forall|j: int| 0 <= j < 8 implies #[trigger] bit_of(
                            bits@,
                            4 + 8 * b,
                            j,
                        ) == bit_of(previous, 4 + 8 * b, j) by {}
                        lemma_bits_value_agree(bits@, 4 + 8 * b, previous, 4 + 8 * b, 8);
                        assert(bytes_at(previous, 4, k as nat)[b] == sector.take(k as int)[b]);
                    }
                }
                assert(bytes_at(bits@, 4, (k + 1) as nat) =~= sector.take(k + 1));
            }
            k += 1;
        }
        assert(sector.take(SECTOR_SIZE as int) =~= sector);
        bits
    }

    fn status(&mut self) -> (word: u16) {
        let word: u16 = if self.busy == 0 {
            1
        } else {
            0
        };
        if self.busy > 0 {
            self.busy = self.busy - 1;
        }
        assert(1u16 & 1 == 1 && 0u16 & 1 != 1) by (bit_vector);
        word
    }
}

} // verus!
