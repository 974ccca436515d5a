//! The commands of a flash chip, and the steps that the drivers are made of.

use crate::flash::hardware::FlashChip;
use crate::flash::hardware::FlashHardware;
use crate::flash::hardware::lemma_write_keeps_wf;
use crate::flash::hardware::BANK_SIZE;
use crate::flash::hardware::COMMAND;
use crate::flash::hardware::COMMAND_ENABLE;
use crate::flash::hardware::ENABLE;
use crate::flash::hardware::ERASED;
use crate::flash::hardware::SECTOR_SIZE;
use crate::flash::hardware::UNLOCK;
use crate::flash::Error;
use vstd::prelude::*;

verus! {

/// The number of milliseconds that a chip is given to finish what it was told to do.
pub const TIMEOUT: u32 = 20;

/// A command of a flash chip.
#[derive(Clone, Copy, Debug, PartialEq, Eq, Structural)]
pub enum Command {
    /// Erases the whole chip. Follows `Erase`.
    EraseChip,
    /// Erases the sector that it is written to. Follows `Erase`.
    EraseSector,
    /// Has to come before a command that erases.
    Erase,
    /// Makes the chip answer reads of its first two bytes with its id.
    EnterIDMode,
    /// Makes the chip take what is written next for data.
    Write,
    /// Makes the chip take the byte that is written next for the number of a bank.
    SwitchBank,
    /// Ends what `EnterIDMode` began.
    TerminateMode,
}

impl Command {
    /// The byte that stands for this command.
    pub open spec fn spec_code(self) -> u8 {
        match self {
            Command::EraseChip => 0x10,
            Command::EraseSector => 0x30,
            Command::Erase => 0x80,
            Command::EnterIDMode => 0x90,
            Command::Write => 0xa0,
            Command::SwitchBank => 0xb0,
            Command::TerminateMode => 0xf0,
        }
    }

    /// Returns the byte that stands for this command.
    #[verifier::when_used_as_spec(spec_code)]
    pub fn code(self) -> (code: u8)
        ensures
            code == self.spec_code(),
    {
        match self {
            Command::EraseChip => 0x10,
            Command::EraseSector => 0x30,
            Command::Erase => 0x80,
            Command::EnterIDMode => 0x90,
            Command::Write => 0xa0,
            Command::SwitchBank => 0xb0,
            Command::TerminateMode => 0xf0,
        }
    }
}

/// One of the two banks of a chip of 128KiB.
#[derive(Clone, Copy, Debug, PartialEq, Eq, Structural)]
pub enum Bank {
    _0,
    _1,
}

impl Bank {
    /// The number of this bank.
    pub open spec fn spec_number(self) -> u8 {
        match self {
            Bank::_0 => 0,
            Bank::_1 => 1,
        }
    }

    /// Returns the number of this bank.
    #[verifier::when_used_as_spec(spec_number)]
    pub fn number(self) -> (number: u8)
        ensures
            number == self.spec_number(),
    {
        match self {
            Bank::_0 => 0,
            Bank::_1 => 1,
        }
    }
}

/// Sends the unlock sequence, which has to come before every command.
pub fn begin_send_command<H: FlashHardware>(hardware: &mut H)
    requires
        old(hardware)@.chip.wf(),
    ensures
        final(hardware)@ == old(hardware)@.unlocked(),
        final(hardware)@.chip.wf(),
{
    proof {
        let state = hardware@;
        lemma_write_keeps_wf(state.chip, COMMAND as int, UNLOCK, state.interrupts_enabled);
        lemma_write_keeps_wf(
            state.after_write(COMMAND as int, UNLOCK).chip,
            COMMAND_ENABLE as int,
            ENABLE,
            state.interrupts_enabled,
        );
    }
    hardware.write_byte(COMMAND, UNLOCK);
    hardware.write_byte(COMMAND_ENABLE, ENABLE);
}

/// Sends the unlock sequence and then `command`.
pub fn send_command<H: FlashHardware>(hardware: &mut H, command: Command)
    requires
        old(hardware)@.chip.wf(),
    ensures
        final(hardware)@ == old(hardware)@.commanded(command.spec_code()),
        final(hardware)@.chip.wf(),
{
    begin_send_command(hardware);
    proof {
        let state = hardware@;
        lemma_write_keeps_wf(
            state.chip,
            COMMAND as int,
            command.spec_code(),
            state.interrupts_enabled,
        );
    }
    hardware.write_byte(COMMAND, command.code());
}

/// Makes `bank` the bank that is addressed.
pub fn switch_bank<H: FlashHardware>(hardware: &mut H, bank: Bank)
    requires
        old(hardware)@.chip.wf(),
    ensures
        final(hardware)@ == old(hardware)@.commanded(Command::SwitchBank.spec_code()).after_write(
            0,
            bank.spec_number(),
        ),
        final(hardware)@.chip.wf(),
        old(hardware)@.chip.idle() && old(hardware)@.chip.banks() == 2 ==> final(hardware)@
            == old(hardware)@.with_chip(
            FlashChip {
                bank: bank.spec_number() as int,
                bank_switches: old(hardware)@.chip.bank_switches + 1,
                ..old(hardware)@.chip
            },
        ),
{
    send_command(hardware, Command::SwitchBank);
    proof {
        let state = hardware@;
        lemma_write_keeps_wf(state.chip, 0, bank.spec_number(), state.interrupts_enabled);
    }
    hardware.write_byte(0, bank.number());
}

/// Keeps the processor busy for one step of a wait.
///
/// Calls `core::hint::black_box`, which returns its argument and keeps the compiler from
/// removing the loop that waits. Nothing is claimed of it.
#[verifier::external_body]
fn spin() {
    core::hint::black_box(());
}

/// Waits for about `milliseconds` milliseconds: a thousand steps for each.
pub fn wait(milliseconds: u32) {
    let steps: u64 = milliseconds as u64 * 1000;
    let mut i: u64 = 0;
    while i < steps
        invariant
            i <= steps,
        decreases steps - i,
    {
        spin();
        i += 1;
    }
}

/// The number of reads after which a byte that does not read as it should is given up, where
/// the chip is given `milliseconds` milliseconds: a thousand for each.
pub open spec fn spec_limit(milliseconds: u32) -> nat {
    (milliseconds * 1000) as nat
}

/// The number of reads for which a chip is still busy after it was waited on for `TIMEOUT`
/// milliseconds, where it was busy for `latency` reads before.
pub open spec fn remaining(latency: nat) -> nat {
    if latency <= spec_limit(TIMEOUT) {
        0
    } else {
        (latency - spec_limit(TIMEOUT) - 1) as nat
    }
}

/// Whether the chip erases its cells in time: it is done before the driver gives up waiting,
/// and its cells then read as erased, as those of a sound chip do.
pub open spec fn erases(chip: FlashChip) -> bool {
    chip.erase_latency <= spec_limit(TIMEOUT) && chip.sound()
}

/// The cells of a sound chip read as erased once they are erased, and those of no other chip
/// do.
pub proof fn lemma_erased_reads(chip: FlashChip)
    ensures
        chip.keep(ERASED) == ERASED <==> chip.sound(),
{
    let mask = chip.mask;
    assert(0xffu8 & mask == 0xff <==> mask == 0xff) by (bit_vector);
}

/// The status of a chip is never the byte that the chip is storing.
pub proof fn lemma_status_differs(chip: FlashChip)
    ensures
        chip.status() != chip.pending,
{
    let pending = chip.pending;
    assert(pending ^ 0x80 != pending) by (bit_vector);
}

/// Reads the byte at `offset` until it is `byte`, for at most `milliseconds` milliseconds: a
/// thousand reads for each, and one more.
///
/// The error is `OperationTimedOut`.
pub fn verify_byte<H: FlashHardware>(
    hardware: &mut H,
    offset: usize,
    byte: u8,
    milliseconds: u32,
) -> (result: Result<(), Error>)
    requires
        old(hardware)@.chip.wf(),
        offset < BANK_SIZE,
    ensures
        final(hardware)@ == old(hardware)@.with_chip(
            old(hardware)@.chip.after_verify(offset as int, byte, spec_limit(milliseconds)),
        ),
        result is Ok <==> old(hardware)@.chip.verifies(offset as int, byte, spec_limit(milliseconds)),
        result is Err ==> result == Err::<(), Error>(Error::OperationTimedOut),
{
    let limit: u64 = milliseconds as u64 * 1000;
    let ghost before = hardware@;
    let mut i: u64 = 0;
    loop
        invariant
            i <= limit,
            limit == spec_limit(milliseconds),
            before == old(hardware)@,
            before.chip.wf(),
            hardware@ == before.after_reads(i as nat),
            offset < BANK_SIZE,
            i > 0 ==> !(before.chip.busy > 0 && before.chip.status() == byte),
            i > before.chip.busy ==> before.chip.settled_read(offset as int) != byte,
        decreases limit - i,
    {
        if hardware.read_byte(offset) == byte {
            return Ok(());
        }
        if i >= limit {
            return Err(Error::OperationTimedOut);
        }
        i += 1;
    }
}

/// Waits until the last of the bytes from `offset` on reads as the last of `bytes`, for at most
/// `milliseconds` milliseconds: a thousand reads for each, and one more. Then reads the bytes
/// from `offset` on and compares them with `bytes`.
///
/// The error is `OperationTimedOut` where the last byte does not read as it should in time, and
/// `WriteFailure` where it does and the bytes are not `bytes`.
pub fn verify_bytes<H: FlashHardware>(
    hardware: &mut H,
    offset: usize,
    bytes: &[u8],
    milliseconds: u32,
) -> (result: Result<(), Error>)
    requires
        old(hardware)@.chip.wf(),
        bytes@.len() > 0,
        offset + bytes@.len() <= BANK_SIZE,
    ensures
        ({
            let chip = old(hardware)@.chip;
            let last = offset + bytes@.len() - 1;
            let limit = spec_limit(milliseconds);
            let waited = chip.after_verify(last, bytes@.last(), limit);
            if !chip.verifies(last, bytes@.last(), limit) {
                &&& result == Err::<(), Error>(Error::OperationTimedOut)
                &&& final(hardware)@ == old(hardware)@.with_chip(waited)
            } else {
                &&& final(hardware)@ == old(hardware)@.with_chip(waited.after_reads(bytes@.len()))
                &&& result == if waited.bytes(offset as int, bytes@.len() as int) == bytes@ {
                    Ok::<(), Error>(())
                } else {
                    Err::<(), Error>(Error::WriteFailure)
                }
            }
        }),
{
    let size = bytes.len();
    match verify_byte(hardware, offset + size - 1, bytes[size - 1], milliseconds) {
        Ok(()) => {},
        Err(error) => {
            return Err(error);
        },
    }
    let ghost waited = hardware@;
    let mut verified = true;
    let mut j: usize = 0;
    assert(waited.chip.bytes(offset as int, 0) =~= bytes@.take(0));
    while j < size
        invariant
            j <= size,
            size == bytes@.len(),
            offset + size <= BANK_SIZE,
            waited.chip.wf(),
            hardware@ == waited.after_reads(j as nat),
            verified == (waited.chip.bytes(offset as int, j as int) == bytes@.take(j as int)),
        decreases size - j,
    {
        let value = hardware.read_byte(offset + j);
        proof {
            let seen = waited.chip.bytes(offset as int, j as int);
            let seen_next = waited.chip.bytes(offset as int, j + 1);
            assert(seen_next =~= seen.push(value));
            assert(bytes@.take(j + 1) =~= bytes@.take(j as int).push(bytes@[j as int]));
            if seen == bytes@.take(j as int) && value == bytes@[j as int] {
            } else if seen != bytes@.take(j as int) {
                assert(seen_next.take(j as int) =~= seen);
                assert(bytes@.take(j + 1).take(j as int) =~= bytes@.take(j as int));
            } else {
                assert(seen_next[j as int] != bytes@.take(j + 1)[j as int]);
            }
        }
        if value != bytes[j] {
            verified = false;
        }
        j += 1;
    }
    assert(bytes@.take(size as int) =~= bytes@);
    if verified {
        Ok(())
    } else {
        Err(Error::WriteFailure)
    }
}

/// Erases the sector `sector` of the bank that is addressed, and waits until its first byte
/// reads as erased.
///
/// The error is `OperationTimedOut`: the chip was busy for too long, or the byte does not read
/// as erased.
pub fn erase_sector<H: FlashHardware>(hardware: &mut H, sector: u8) -> (result: Result<(), Error>)
    requires
        old(hardware)@.chip.wf(),
        sector < 16,
    ensures
        ({
            let sent = old(hardware)@.commanded(Command::Erase.spec_code()).unlocked().after_write(
                sector * SECTOR_SIZE,
                Command::EraseSector.spec_code(),
            );
            &&& final(hardware)@ == sent.with_chip(
                sent.chip.after_verify(sector * SECTOR_SIZE, ERASED, spec_limit(TIMEOUT)),
            )
            &&& result is Ok <==> sent.chip.verifies(
                sector * SECTOR_SIZE,
                ERASED,
                spec_limit(TIMEOUT),
            )
        }),
        final(hardware)@.chip.wf(),
        result is Err ==> result == Err::<(), Error>(Error::OperationTimedOut),
        old(hardware)@.chip.idle() ==> {
            &&& result is Ok <==> erases(old(hardware)@.chip)
            &&& final(hardware)@ == old(hardware)@.with_chip(
                old(hardware)@.chip.with_erased(
                    old(hardware)@.chip.index(sector * SECTOR_SIZE),
                    SECTOR_SIZE as int,
                ).storing(ERASED, remaining(old(hardware)@.chip.erase_latency)),
            )
        },
{
    // Generic erase command.
    send_command(hardware, Command::Erase);

    // Specific erase command for sector.
    begin_send_command(hardware);
    let sector_command: usize = sector as usize * SECTOR_SIZE;
    proof {
        let state = hardware@;
        lemma_write_keeps_wf(
            state.chip,
            sector_command as int,
            Command::EraseSector.spec_code(),
            state.interrupts_enabled,
        );
    }
    hardware.write_byte(sector_command, Command::EraseSector.code());
    proof {
        lemma_status_differs(hardware@.chip);
        lemma_erased_reads(hardware@.chip);
    }

    verify_byte(hardware, sector_command, ERASED, TIMEOUT)
}

/// Erases the whole chip, and waits until its first byte reads as erased.
///
/// The error is `OperationTimedOut`: the chip was busy for too long, or the byte does not read
/// as erased.
pub fn erase_chip<H: FlashHardware>(hardware: &mut H) -> (result: Result<(), Error>)
    requires
        old(hardware)@.chip.idle(),
    ensures
        result is Ok <==> erases(old(hardware)@.chip),
        result is Err ==> result == Err::<(), Error>(Error::OperationTimedOut),
        final(hardware)@ == old(hardware)@.with_chip(
            old(hardware)@.chip.with_erased(0, old(hardware)@.chip.cells.len() as int).storing(
                ERASED,
                remaining(old(hardware)@.chip.erase_latency),
            ),
        ),
{
    send_command(hardware, Command::Erase);
    send_command(hardware, Command::EraseChip);
    proof {
        lemma_status_differs(hardware@.chip);
        lemma_erased_reads(hardware@.chip);
    }

    // Verify.
    verify_byte(hardware, 0, ERASED, TIMEOUT)
}

} // verus!
