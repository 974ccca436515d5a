use gba_save::mmio::WaitstateControl;
use gba_save::range::Bound;
use gba_save::sram::{Sram, SramHardware, SramState};

struct Plain {
    cells: Vec<u8>,
    waitstate_control: u16,
}

impl SramHardware for Plain {
    fn view(&self) -> SramState {
        unreachable!("the state of the hardware is never asked for when the program runs")
    }

    fn waitstate_control(&mut self) -> WaitstateControl {
        WaitstateControl(self.waitstate_control)
    }

    fn set_waitstate_control(&mut self, value: WaitstateControl) {
        self.waitstate_control = value.0;
    }

    fn read_byte(&mut self, offset: usize) -> u8 {
        self.cells[offset]
    }

    fn write_byte(&mut self, offset: usize, value: u8) {
        self.cells[offset] = value;
    }
}

#[test]
fn hardware_of_another_make() {
    let mut sram = Sram::new(Plain {
        cells: vec![0; 32768],
        waitstate_control: 0,
    });
    let mut writer = sram.writer(Bound::Unbounded, Bound::Unbounded);
    assert_eq!(writer.write(&[1, 2, 3]), Ok(3));
    assert_eq!(sram.hardware.cells[0..4], [1, 2, 3, 0]);
    assert_eq!(sram.hardware.waitstate_control, 3);
}
