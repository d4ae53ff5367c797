use ssd1327_i2c::bus::Transport;
use ssd1327_i2c::driver::DEFAULT_SLAVE_ADDRESS;
use ssd1327_i2c::framebuffer::GrayPixel;
use ssd1327_i2c::{Commands, I2CWrite, SSD1327I2C};

/// A bus that keeps what it is handed and fails the writes it is told to.
struct RecordingBus {
    written: Vec<(u8, Vec<u8>)>,
    failures: Vec<(usize, u16)>,
}

impl RecordingBus {
    fn new() -> Self {
        RecordingBus { written: Vec::new(), failures: Vec::new() }
    }

    fn failing(failures: &[(usize, u16)]) -> Self {
        RecordingBus { written: Vec::new(), failures: failures.to_vec() }
    }
}

impl I2CWrite for RecordingBus {
    type Error = u16;

    fn write(&mut self, address: u8, bytes: &[u8]) -> Result<(), u16> {
        let call = self.written.len();
        self.written.push((address, bytes.to_vec()));
        match self.failures.iter().find(|(at, _)| *at == call) {
            Some((_, code)) => Err(*code),
            None => Ok(()),
        }
    }
}

/// A bus that fails every write, with the number of the call as the error.
struct DeadBus {
    calls: usize,
}

impl I2CWrite for DeadBus {
    type Error = usize;

    fn write(&mut self, _address: u8, _bytes: &[u8]) -> Result<(), usize> {
        self.calls += 1;
        Err(self.calls)
    }
}

#[test]
fn transport_writes_to_its_address_and_hands_the_answer_back() {
    let mut transport = Transport::new(RecordingBus::failing(&[(1, 9)]), 0x3D);
    assert_eq!(transport.send(&[0x00, 0xAF]), Ok(()));
    assert_eq!(transport.send(&[0x40, 1, 2, 3, 4, 5, 6, 7, 8]), Err(9));
    assert_eq!(transport.send(&[]), Ok(()));
    assert_eq!(
        transport.release().written,
        vec![
            (0x3D, vec![0x00, 0xAF]),
            (0x3D, vec![0x40, 1, 2, 3, 4, 5, 6, 7, 8]),
            (0x3D, vec![]),
        ]
    );
}

#[test]
fn flush_carries_every_pixel_in_its_half_of_its_byte() {
    let mut driver = SSD1327I2C::with_wh(RecordingBus::new(), 32, 4);
    driver.set_pixel(21, 3, 0x6);
    driver.set_pixel(20, 3, 0xB);
    driver.flush().unwrap();
    let written = driver.release().written;
    let index = 21 / 2 + 3 * 16;
    let frame = &written[2 + index / 8].1;
    assert_eq!(frame[1 + index % 8], 0xB6);
    assert_eq!(frame[1 + index % 8] % 16, 0x6);
    assert_eq!(frame[1 + index % 8] / 16, 0xB);
}

#[test]
fn default_address_is_3c() {
    assert_eq!(DEFAULT_SLAVE_ADDRESS, 0x3C);
    let mut driver = SSD1327I2C::new(RecordingBus::new());
    driver.send_cmd(Commands::DisplayON).unwrap();
    let mut sized = SSD1327I2C::with_wh(RecordingBus::new(), 16, 2);
    sized.send_cmd(Commands::DisplayOFF).unwrap();
    assert_eq!(driver.release().written, vec![(0x3C, vec![0x00, 0xAF])]);
    assert_eq!(sized.release().written, vec![(0x3C, vec![0x00, 0xAE])]);
}

#[test]
fn custom_address_is_used_for_every_write() {
    let mut driver = SSD1327I2C::with_addr(RecordingBus::new(), 0x3D);
    driver.send_cmd(Commands::DisplayModeAllON).unwrap();
    driver.send_data(&[1, 2, 3, 4, 5, 6, 7, 8]).unwrap();
    driver.init();
    driver.flush().unwrap();
    let bus = driver.release();
    assert_eq!(bus.written.len(), 1 + 1 + 19 + 2 + 1024);
    assert!(bus.written.iter().all(|(address, _)| *address == 0x3D));
    let mut other = SSD1327I2C::with_addr_wh(RecordingBus::new(), 0x7A, 16, 1);
    other.flush().unwrap();
    assert!(other.release().written.iter().all(|(address, _)| *address == 0x7A));
}

#[test]
fn constructors_size_the_display() {
    assert_eq!(SSD1327I2C::new(RecordingBus::new()).size(), (128, 128));
    assert_eq!(SSD1327I2C::with_addr(RecordingBus::new(), 0x3D).size(), (128, 128));
    assert_eq!(SSD1327I2C::with_wh(RecordingBus::new(), 4, 2).size(), (4, 2));
    assert_eq!(SSD1327I2C::with_addr_wh(RecordingBus::new(), 0x3D, 64, 32).size(), (64, 32));
    let driver = SSD1327I2C::with_wh(RecordingBus::new(), 4, 2);
    assert_eq!(driver.framebuffer().as_bytes(), &[0u8, 0, 0, 0][..]);
    assert_eq!(SSD1327I2C::new(RecordingBus::new()).framebuffer().as_bytes().len(), 8192);
    assert!(driver.release().written.is_empty());
}

#[test]
fn send_cmd_writes_the_frame_without_its_padding() {
    let mut driver = SSD1327I2C::new(RecordingBus::new());
    driver.send_cmd(Commands::ContrastControl(0x42)).unwrap();
    driver.send_cmd(Commands::LinearLUT).unwrap();
    driver.send_cmd(Commands::RowAddress { start: 1, end: 2 }).unwrap();
    driver.send_cmd(Commands::CommandLock).unwrap();
    assert_eq!(
        driver.release().written,
        vec![
            (0x3C, vec![0x00, 0x81, 0x42]),
            (0x3C, vec![0x00, 0xB9]),
            (0x3C, vec![0x00, 0x75, 0x01, 0x02]),
            (0x3C, vec![0x00, 0xFD, 0x00, 0x16]),
        ]
    );
}

#[test]
fn send_cmd_hands_the_bus_error_back() {
    let mut driver = SSD1327I2C::new(RecordingBus::failing(&[(1, 503)]));
    assert_eq!(driver.send_cmd(Commands::DisplayON), Ok(()));
    assert_eq!(driver.send_cmd(Commands::DisplayOFF), Err(503));
    assert_eq!(driver.send_cmd(Commands::DisplayON), Ok(()));
    assert_eq!(driver.release().written.len(), 3);
}

#[test]
fn send_data_prefixes_eight_bytes_with_the_data_control_byte() {
    let mut driver = SSD1327I2C::new(RecordingBus::new());
    driver.send_data(&[0x11, 0x22, 0x33, 0x44, 0x55, 0x66, 0x77, 0x88]).unwrap();
    driver.send_data(&[1, 2, 3, 4, 5, 6, 7, 8, 9, 10]).unwrap();
    assert_eq!(
        driver.release().written,
        vec![
            (0x3C, vec![0x40, 0x11, 0x22, 0x33, 0x44, 0x55, 0x66, 0x77, 0x88]),
            (0x3C, vec![0x40, 1, 2, 3, 4, 5, 6, 7, 8]),
        ]
    );
}

#[test]
fn send_data_hands_the_bus_error_back() {
    let mut driver = SSD1327I2C::new(RecordingBus::failing(&[(0, 77)]));
    assert_eq!(driver.send_data(&[0; 8]), Err(77));
    assert_eq!(driver.send_data(&[0; 8]), Ok(()));
}

#[test]
fn init_sends_the_whole_script_in_order() {
    let mut driver = SSD1327I2C::new(RecordingBus::new());
    driver.init();
    let frames: Vec<Vec<u8>> = driver.release().written.into_iter().map(|(_, bytes)| bytes).collect();
    assert_eq!(
        frames,
        vec![
            vec![0x00, 0xFD, 0x00, 0x12],
            vec![0x00, 0xAE],
            vec![0x00, 0x15, 0x00, 0x3F],
            vec![0x00, 0x75, 0x00, 0x7F],
            vec![0x00, 0x81, 0x7F],
            vec![0x00, 0xA0, 0x51],
            vec![0x00, 0xA1, 0x00],
            vec![0x00, 0xA2, 0x00],
            vec![0x00, 0xA4],
            vec![0x00, 0xA8, 0x7E],
            vec![0x00, 0xB1, 0x51],
            vec![0x00, 0xB9],
            vec![0x00, 0xB3, 0x00],
            vec![0x00, 0xAB, 0x01],
            vec![0x00, 0xB6, 0x04],
            vec![0x00, 0xBE, 0x05],
            vec![0x00, 0xBC, 0x05],
            vec![0x00, 0xD5, 0x60],
            vec![0x00, 0xAF],
        ]
    );
}

#[test]
fn init_spans_the_windows_over_a_small_display() {
    let mut driver = SSD1327I2C::with_wh(RecordingBus::new(), 5, 3);
    driver.init();
    let written = driver.release().written;
    assert_eq!(written.len(), 19);
    assert_eq!(written[2], (0x3C, vec![0x00, 0x15, 0x00, 0x02]));
    assert_eq!(written[3], (0x3C, vec![0x00, 0x75, 0x00, 0x02]));
}

#[test]
fn init_goes_on_when_the_bus_fails() {
    let mut driver = SSD1327I2C::new(DeadBus { calls: 0 });
    driver.init();
    assert_eq!(driver.release().calls, 19);
    let mut partly = SSD1327I2C::new(RecordingBus::failing(&[(0, 1), (7, 2), (18, 3)]));
    partly.init();
    let written = partly.release().written;
    assert_eq!(written.len(), 19);
    assert_eq!(written[18], (0x3C, vec![0x00, 0xAF]));
}

#[test]
fn set_pixel_sends_nothing() {
    let mut driver = SSD1327I2C::new(RecordingBus::new());
    driver.set_pixel(0, 0, 0xF);
    driver.set_pixel(500, 500, 0xF);
    assert_eq!(driver.framebuffer().as_bytes()[0], 0xF0);
    assert!(driver.release().written.is_empty());
}

#[test]
fn flush_of_the_default_display_sends_eight_chunks_for_each_row() {
    let mut driver = SSD1327I2C::new(RecordingBus::new());
    for y in 0..128usize {
        for x in 0..128usize {
            driver.set_pixel(x, y, ((x / 2 + 3 * y) % 16) as u8);
        }
    }
    let buffer = driver.framebuffer().as_bytes().to_vec();
    assert_eq!(driver.flush(), Ok(()));
    let written = driver.release().written;
    assert_eq!(written.len(), 2 + 8 * 128);
    assert_eq!(written[0], (0x3C, vec![0x00, 0x15, 0x00, 0x3F]));
    assert_eq!(written[1], (0x3C, vec![0x00, 0x75, 0x00, 0x7F]));
    let data = &written[2..];
    assert_eq!(data.len(), 1024);
    assert_eq!(data.len() * 8, buffer.len());
    for row in 0..128usize {
        for stride in 0..8usize {
            let (address, bytes) = &data[row * 8 + stride];
            let start = stride * 8 + row * 64;
            assert_eq!(*address, 0x3C);
            assert_eq!(bytes.len(), 9);
            assert_eq!(bytes[0], 0x40);
            assert_eq!(&bytes[1..], &buffer[start..start + 8]);
        }
    }
    let payload: Vec<u8> = data.iter().flat_map(|(_, bytes)| bytes[1..].to_vec()).collect();
    assert_eq!(payload, buffer);
}

#[test]
fn first_data_chunk_starts_with_the_first_two_pixels() {
    let mut driver = SSD1327I2C::new(RecordingBus::new());
    driver.set_pixel(0, 0, 0xF);
    driver.set_pixel(1, 0, 0xA);
    driver.flush().unwrap();
    let written = driver.release().written;
    assert_eq!(written[2].1, vec![0x40, 0xFA, 0, 0, 0, 0, 0, 0, 0]);
    assert_eq!(written[2].1[1], 0xFA);
}

#[test]
fn small_display_keeps_pixel_3_1_in_the_low_nibble_of_byte_3() {
    let mut driver = SSD1327I2C::with_wh(RecordingBus::new(), 4, 2);
    assert_eq!(driver.framebuffer().as_bytes().len(), 4);
    driver.set_pixel(3, 1, 0x3);
    assert_eq!(driver.framebuffer().as_bytes(), &[0x00, 0x00, 0x00, 0x03][..]);
    assert!(!driver.framebuffer().has_whole_chunks());
}

#[test]
fn flush_sends_a_narrow_display_one_chunk_per_row() {
    let mut driver = SSD1327I2C::with_wh(RecordingBus::new(), 16, 3);
    driver.set_pixel(15, 0, 0x1);
    driver.set_pixel(0, 1, 0x2);
    driver.set_pixel(14, 2, 0x3);
    driver.flush().unwrap();
    assert_eq!(
        driver.release().written,
        vec![
            (0x3C, vec![0x00, 0x15, 0x00, 0x07]),
            (0x3C, vec![0x00, 0x75, 0x00, 0x02]),
            (0x3C, vec![0x40, 0, 0, 0, 0, 0, 0, 0, 0x01]),
            (0x3C, vec![0x40, 0x20, 0, 0, 0, 0, 0, 0, 0]),
            (0x3C, vec![0x40, 0, 0, 0, 0, 0, 0, 0, 0x30]),
        ]
    );
}

#[test]
fn flush_sends_an_odd_width_with_whole_rows() {
    let mut driver = SSD1327I2C::with_wh(RecordingBus::new(), 31, 2);
    driver.set_pixel(30, 1, 0x9);
    driver.flush().unwrap();
    let written = driver.release().written;
    assert_eq!(written.len(), 2 + 2 * 2);
    assert_eq!(written[0].1, vec![0x00, 0x15, 0x00, 0x0F]);
    assert_eq!(written[1].1, vec![0x00, 0x75, 0x00, 0x01]);
    assert_eq!(written[5].1, vec![0x40, 0, 0, 0, 0, 0, 0, 0, 0x90]);
}

#[test]
fn flush_keeps_the_buffer_and_can_be_repeated() {
    let mut driver = SSD1327I2C::with_wh(RecordingBus::new(), 16, 1);
    driver.set_pixel(0, 0, 0x7);
    driver.flush().unwrap();
    assert_eq!(driver.framebuffer().as_bytes()[0], 0x70);
    driver.set_pixel(1, 0, 0x8);
    driver.flush().unwrap();
    let written = driver.release().written;
    assert_eq!(written.len(), 6);
    assert_eq!(written[2].1, vec![0x40, 0x70, 0, 0, 0, 0, 0, 0, 0]);
    assert_eq!(written[5].1, vec![0x40, 0x78, 0, 0, 0, 0, 0, 0, 0]);
}

#[test]
fn flush_goes_on_after_a_failure_and_returns_the_latest() {
    let mut driver = SSD1327I2C::with_wh(RecordingBus::failing(&[(3, 11), (5, 22)]), 16, 6);
    assert_eq!(driver.flush(), Err(22));
    assert_eq!(driver.release().written.len(), 8);
    let mut early = SSD1327I2C::with_wh(RecordingBus::failing(&[(2, 5)]), 16, 6);
    assert_eq!(early.flush(), Err(5));
    assert_eq!(early.release().written.len(), 8);
    let mut dead = SSD1327I2C::with_wh(DeadBus { calls: 0 }, 16, 6);
    assert_eq!(dead.flush(), Err(8));
    assert_eq!(dead.release().calls, 8);
}

#[test]
fn flush_does_not_report_a_failed_window_command() {
    let mut driver = SSD1327I2C::with_wh(RecordingBus::failing(&[(0, 1), (1, 2)]), 16, 2);
    assert_eq!(driver.flush(), Ok(()));
    assert_eq!(driver.release().written.len(), 4);
}

#[test]
fn draw_iter_never_fails_and_sends_nothing() {
    let mut driver = SSD1327I2C::with_wh(DeadBus { calls: 0 }, 4, 2);
    let pixels = [
        GrayPixel { x: 0, y: 0, luma: 0x1 },
        GrayPixel { x: 4, y: 1, luma: 0xF },
        GrayPixel { x: 3, y: 1, luma: 0x2 },
        GrayPixel { x: 3, y: -1, luma: 0xF },
        GrayPixel { x: 0, y: 0, luma: 0x4 },
    ];
    assert_eq!(driver.draw_iter(&pixels), Ok(()));
    assert_eq!(driver.framebuffer().as_bytes(), &[0x40, 0x00, 0x00, 0x02][..]);
    assert_eq!(driver.release().calls, 0);
}
