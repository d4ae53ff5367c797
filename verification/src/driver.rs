//! The display controller: initialisation, commands, and the flush of the
//! packed buffer to the controller's display RAM.

use crate::bus::{
    last_error, lemma_last_error_push, lemma_sends_push, sends, I2CWrite, Transaction, Transport,
};
use crate::command::{Commands, DATA_CONTROL_BYTE};
use crate::framebuffer::{
    lemma_chunk_position, lemma_index_of, nibble, FrameView, Framebuffer, GrayPixel,
};
use vstd::prelude::*;

verus! {

/// Default slave address for SSD1327
pub const DEFAULT_SLAVE_ADDRESS: u8 = 0x3C;

/// The commands that bring the controller up, in the order they are sent,
/// for a display whose column window ends at `column_end` and whose row
/// window ends at `row_end`.
///
/// Four settings leave the controller's reset values on purpose, and belong
/// together: MUX ratio 0x7E (reset 0x7F), phase length 0x51 (reset 0x71),
/// COM deselect voltage 0x05 and pre-charge voltage 0x05.
pub open spec fn init_script(column_end: u8, row_end: u8) -> Seq<Commands> {
    seq![
        Commands::CommandUnlock,
        Commands::DisplayOFF,
        Commands::ColumnAddress { start: 0x00, end: column_end },
        Commands::RowAddress { start: 0x00, end: row_end },
        Commands::ContrastControl(0x7f),
        Commands::Remap(0x51),
        Commands::DisplayStartLine(0x00),
        Commands::DisplayOffset(0x00),
        Commands::DisplayModeNormal,
        Commands::MUXRatio(0x7e),
        Commands::PhaseLength(0x51),
        Commands::LinearLUT,
        Commands::FrontClockDividerOscFreq(0x00),
        Commands::SelectInternalVDD,
        Commands::SecondPreChargePeriod(0x04),
        Commands::VCOMH(0x05),
        Commands::PreChargeVoltage(0x05),
        Commands::FunctionSelectionB(0x60),
        Commands::DisplayON,
    ]
}

/// The frames that carry `script` over the bus, one per command.
pub open spec fn command_frames(script: Seq<Commands>) -> Seq<Seq<u8>> {
    script.map_values(|cmd: Commands| cmd.frame())
}

/// The frames that carry `frame`'s pixels over the bus: one for each run of
/// eight bytes of the buffer, from its start to its end.
pub open spec fn data_frames(frame: FrameView) -> Seq<Seq<u8>> {
    Seq::new(frame.bytes.len() / 8, |k: int| seq![DATA_CONTROL_BYTE] + frame.chunk(k))
}

/// The frames of one flush of `frame`: the two address windows, spanned
/// over the display, then the pixels.
pub open spec fn flush_frames(frame: FrameView) -> Seq<Seq<u8>> {
    command_frames(
        seq![
            Commands::ColumnAddress { start: 0x00, end: frame.column_end() },
            Commands::RowAddress { start: 0x00, end: frame.row_end() },
        ],
    ) + data_frames(frame)
}

/// Where every row is a whole number of 8-byte chunks, the data frames of a
/// flush number `(row_bytes / 8) * height`, each is the data control byte
/// followed by eight bytes, and together they carry every byte of the
/// buffer once, in order.
pub proof fn lemma_data_frames(frame: FrameView)
    requires
        frame.wf(),
        frame.row_bytes() % 8 == 0,
    ensures
        data_frames(frame).len() == (frame.row_bytes() / 8) * frame.height,
        8 * data_frames(frame).len() == frame.bytes.len(),
        forall|k: int|
            0 <= k < data_frames(frame).len() ==> {
                &&& (#[trigger] data_frames(frame)[k]).len() == 9
                &&& data_frames(frame)[k][0] == DATA_CONTROL_BYTE
            },
        forall|i: int|
            0 <= i < frame.bytes.len() ==> data_frames(frame)[i / 8][1 + i % 8] == #[trigger] frame.bytes[i],
{
    lemma_chunk_position(frame, 0, 0);
    assert forall|i: int| 0 <= i < frame.bytes.len() implies data_frames(frame)[i / 8][1 + i % 8]
        == #[trigger] frame.bytes[i] by {
        assert(0 <= i / 8 < frame.bytes.len() / 8);
        assert(frame.chunk(i / 8)[i % 8] == frame.bytes[8 * (i / 8) + i % 8]);
    }
}

/// Where every row is a whole number of 8-byte chunks, a flush carries
/// every pixel of the display: pixel `(x, y)` travels in the data frame of
/// the chunk that its byte lies in, in the half of the byte that its column
/// gives it.
pub proof fn lemma_flush_carries_pixel(frame: FrameView, x: int, y: int)
    requires
        frame.wf(),
        frame.row_bytes() % 8 == 0,
        frame.contains(x, y),
    ensures
        ({
            let index = frame.index_of(x, y);
            &&& 0 <= index / 8 < data_frames(frame).len()
            &&& nibble(data_frames(frame)[index / 8][1 + index % 8], x % 2 == 0) == frame.pixel(x, y)
        }),
{
    lemma_index_of(frame, x, y);
    lemma_data_frames(frame);
    let index = frame.index_of(x, y);
    assert(data_frames(frame)[index / 8][1 + index % 8] == frame.bytes[index]);
}

/// SSD1327 I2C driver container
pub struct SSD1327I2C<I2C: I2CWrite> {
    transport: Transport<I2C>,
    framebuffer: Framebuffer,
}

/// The driver as its implementation names it, whatever the bus.
#[allow(non_camel_case_types)]
type impl_ssd1327_i2c<I2C> = SSD1327I2C<I2C>;

impl<I2C: I2CWrite> impl_ssd1327_i2c<I2C> {
    /// The bus the driver writes to.
    pub closed spec fn bus(&self) -> I2C {
        self.transport.bus()
    }

    /// The address on the bus that the driver writes to.
    pub closed spec fn address(&self) -> u8 {
        self.transport.address()
    }

    /// The display's extent and the pixels waiting for the next flush.
    pub closed spec fn frame(&self) -> FrameView {
        self.framebuffer@
    }

    /// Every write the driver has made on its bus, oldest first.
    pub closed spec fn traffic(&self) -> Seq<Transaction<I2C::Error>> {
        self.transport.sent()
    }

    /// Create a new SSD1327I2C object with custom slave address, width and height
    #[must_use]
    pub fn with_addr_wh(i2c: I2C, slave_address: u8, width: u8, height: u8) -> (driver: Self)
        requires
            width >= 1,
            height >= 1,
        ensures
            driver.bus() == i2c,
            driver.address() == slave_address,
            driver.frame() == FrameView::blank(width as nat, height as nat),
            driver.traffic() == Seq::<Transaction<I2C::Error>>::empty(),
    {
        SSD1327I2C {
            transport: Transport::new(i2c, slave_address),
            framebuffer: Framebuffer::new(width, height),
        }
    }

    /// Create a new SSD1327I2C object with custom slave address, width 128 and height 128
    #[must_use]
    pub fn with_addr(i2c: I2C, slave_address: u8) -> (driver: Self)
        ensures
            driver.bus() == i2c,
            driver.address() == slave_address,
            driver.frame() == FrameView::blank(128, 128),
            driver.traffic() == Seq::<Transaction<I2C::Error>>::empty(),
    {
        Self::with_addr_wh(i2c, slave_address, 128, 128)
    }

    /// Create a new SSD1327I2C object with slave address 0x3C, and custom width and height
    #[must_use]
    pub fn with_wh(i2c: I2C, width: u8, height: u8) -> (driver: Self)
        requires
            width >= 1,
            height >= 1,
        ensures
            driver.bus() == i2c,
            driver.address() == DEFAULT_SLAVE_ADDRESS,
            driver.frame() == FrameView::blank(width as nat, height as nat),
            driver.traffic() == Seq::<Transaction<I2C::Error>>::empty(),
    {
        Self::with_addr_wh(i2c, DEFAULT_SLAVE_ADDRESS, width, height)
    }

    /// Create a new SSD1327I2C object with slave address 0x3C, width 128 and height 128
    #[must_use]
    pub fn new(i2c: I2C) -> (driver: Self)
        ensures
            driver.bus() == i2c,
            driver.address() == DEFAULT_SLAVE_ADDRESS,
            driver.frame() == FrameView::blank(128, 128),
            driver.traffic() == Seq::<Transaction<I2C::Error>>::empty(),
    {
        Self::with_addr_wh(i2c, DEFAULT_SLAVE_ADDRESS, 128, 128)
    }

    /// Sets pixel `(x, y)` of the buffer to the low four bits of `value`. A
    /// position off the display is ignored. Nothing is sent: the display
    /// shows the pixel after the next flush.
    pub fn set_pixel(&mut self, x: usize, y: usize, value: u8)
        ensures
            final(self).frame() == old(self).frame().set_pixel(x as int, y as int, value),
            !old(self).frame().contains(x as int, y as int) ==> final(self).frame() == old(
                self,
            ).frame(),
            final(self).bus() == old(self).bus(),
            final(self).address() == old(self).address(),
            final(self).traffic() == old(self).traffic(),
    {
        self.framebuffer.set_pixel(x, y, value);
    }

    /// Draws `pixels` into the buffer one after the other, dropping those
    /// that lie off the display. Nothing is sent, and the call never fails.
    pub fn draw_iter(&mut self, pixels: &[GrayPixel]) -> (result: Result<(), I2C::Error>)
        ensures
            result is Ok,
            final(self).frame() == old(self).frame().draw_all(pixels@),
            final(self).bus() == old(self).bus(),
            final(self).address() == old(self).address(),
            final(self).traffic() == old(self).traffic(),
    {
        self.framebuffer.draw_iter(pixels);
        Ok(())
    }

    /// The display's extent in pixels, width first.
    pub fn size(&self) -> (size: (u32, u32))
        ensures
            size.0 == self.frame().width,
            size.1 == self.frame().height,
    {
        self.framebuffer.size()
    }

    /// The buffer that the next flush sends.
    pub fn framebuffer(&self) -> (framebuffer: &Framebuffer)
        ensures
            framebuffer@ == self.frame(),
    {
        &self.framebuffer
    }

    /// Gives the bus back and drops the buffer.
    pub fn release(self) -> (i2c: I2C)
        ensures
            i2c == self.bus(),
    {
        self.transport.release()
    }

    /// Initialize the SSD1327: unlock it, switch the display off, span both
    /// address windows over the display, configure it and switch it on.
    /// Every command is sent whether or not the ones before it failed, and
    /// no failure is reported.
    pub fn init(&mut self)
        ensures
            sends(
                old(self).traffic(),
                final(self).traffic(),
                old(self).address(),
                command_frames(
                    init_script(old(self).frame().column_end(), old(self).frame().row_end()),
                ),
            ),
            final(self).address() == old(self).address(),
            final(self).frame() == old(self).frame(),
    {
        let column_end: u8 = self.framebuffer.column_end();
        let row_end: u8 = self.framebuffer.row_end();
        let script: [Commands; 19] = [
            Commands::CommandUnlock,
            Commands::DisplayOFF,
            Commands::ColumnAddress { start: 0x00, end: column_end },
            Commands::RowAddress { start: 0x00, end: row_end },
            Commands::ContrastControl(0x7f),
            Commands::Remap(0x51),
            Commands::DisplayStartLine(0x00),
            Commands::DisplayOffset(0x00),
            Commands::DisplayModeNormal,
            Commands::MUXRatio(0x7e),
            Commands::PhaseLength(0x51),
            Commands::LinearLUT,
            Commands::FrontClockDividerOscFreq(0x00),
            Commands::SelectInternalVDD,
            Commands::SecondPreChargePeriod(0x04),
            Commands::VCOMH(0x05),
            Commands::PreChargeVoltage(0x05),
            Commands::FunctionSelectionB(0x60),
            Commands::DisplayON,
        ];
        assert(script@ =~= init_script(column_end, row_end));
        assert(command_frames(script@.take(0)) =~= Seq::empty());
        let mut i: usize = 0;
        while i < 19
            invariant
                i <= 19,
                sends(
                    old(self).traffic(),
                    self.traffic(),
                    old(self).address(),
                    command_frames(script@.take(i as int)),
                ),
                self.address() == old(self).address(),
                self.frame() == old(self).frame(),
            decreases 19 - i,
        {
            let ghost before = self.traffic();
            let _ = self.send_cmd(script[i]);
            proof {
                let next = self.traffic().last();
                lemma_sends_push(
                    old(self).traffic(),
                    before,
                    old(self).address(),
                    command_frames(script@.take(i as int)),
                    next,
                );
                assert(command_frames(script@.take(i as int)).push(next.bytes) =~= command_frames(
                    script@.take(i + 1),
                ));
            }
            i += 1;
        }
        assert(script@.take(19) =~= script@);
    }

    /// Write command to the SSD1327: its frame goes out in one transaction,
    /// without the padding of the encoded buffer, and the answer of the bus
    /// is handed back as it is.
    pub fn send_cmd(&mut self, cmd: Commands) -> (result: Result<(), I2C::Error>)
        ensures
            final(self).traffic() == old(self).traffic().push(
                (Transaction { address: old(self).address(), bytes: cmd.frame(), result }),
            ),
            final(self).address() == old(self).address(),
            final(self).frame() == old(self).frame(),
    {
        let (data, len) = cmd.encode();
        self.send_bytes(vstd::slice::slice_subrange(data.as_slice(), 0, len))
    }

    /// Write bytes to the SSD1327
    #[inline]
    fn send_bytes(&mut self, bytes: &[u8]) -> (result: Result<(), I2C::Error>)
        ensures
            final(self).traffic() == old(self).traffic().push(
                (Transaction { address: old(self).address(), bytes: bytes@, result }),
            ),
            final(self).address() == old(self).address(),
            final(self).frame() == old(self).frame(),
    {
        self.transport.send(bytes)
    }

    /// Write 8 bytes of data to the SSD1327: the data control byte and the
    /// first eight bytes of `data` go out in one transaction, and the answer
    /// of the bus is handed back as it is.
    pub fn send_data(&mut self, data: &[u8]) -> (result: Result<(), I2C::Error>)
        requires
            data@.len() >= 8,
        ensures
            final(self).traffic() == old(self).traffic().push(
                (Transaction {
                    address: old(self).address(),
                    bytes: seq![DATA_CONTROL_BYTE] + data@.take(8),
                    result,
                }),
            ),
            final(self).address() == old(self).address(),
            final(self).frame() == old(self).frame(),
    {
        let bytes: [u8; 9] = [
            DATA_CONTROL_BYTE,
            data[0],
            data[1],
            data[2],
            data[3],
            data[4],
            data[5],
            data[6],
            data[7],
        ];
        assert(bytes@ =~= seq![DATA_CONTROL_BYTE] + data@.take(8));
        self.send_bytes(bytes.as_slice())
    }

    /// Write the 8 bytes of the buffer that start at `index` to the SSD1327
    #[inline]
    fn send_buffer_data(&mut self, index: usize) -> (result: Result<(), I2C::Error>)
        requires
            index + 8 <= old(self).frame().bytes.len(),
        ensures
            final(self).traffic() == old(self).traffic().push(
                (Transaction {
                    address: old(self).address(),
                    bytes: seq![DATA_CONTROL_BYTE] + old(self).frame().bytes.subrange(
                        index as int,
                        index + 8,
                    ),
                    result,
                }),
            ),
            final(self).address() == old(self).address(),
            final(self).frame() == old(self).frame(),
    {
        let buffer = self.framebuffer.as_bytes();
        let bytes: [u8; 9] = [
            DATA_CONTROL_BYTE,
            buffer[index],
            buffer[index + 1],
            buffer[index + 2],
            buffer[index + 3],
            buffer[index + 4],
            buffer[index + 5],
            buffer[index + 6],
            buffer[index + 7],
        ];
        assert(bytes@ =~= seq![DATA_CONTROL_BYTE] + buffer@.subrange(index as int, index + 8));
        self.send_bytes(bytes.as_slice())
    }

    /// Update the display with the current framebuffer.
    ///
    /// Both address windows are spanned over the display again, then the
    /// buffer goes out row by row, eight bytes to a transaction. A failed
    /// transaction does not stop the flush: the rest is still sent, and the
    /// latest failure among the data transactions is returned. Failures of
    /// the two window commands are not reported.
    ///
    /// Every row of the buffer must be a whole number of 8-byte chunks
    /// (see [`Framebuffer::has_whole_chunks`]): the last chunk of a shorter
    /// row would reach past the end of the buffer.
    pub fn flush(&mut self) -> (result: Result<(), I2C::Error>)
        requires
            old(self).frame().row_bytes() % 8 == 0,
        ensures
            sends(
                old(self).traffic(),
                final(self).traffic(),
                old(self).address(),
                flush_frames(old(self).frame()),
            ),
            result == last_error(final(self).traffic().skip(old(self).traffic().len() as int + 2)),
            final(self).address() == old(self).address(),
            final(self).frame() == old(self).frame(),
    {
        let column_end: u8 = self.framebuffer.column_end();
        let row_end: u8 = self.framebuffer.row_end();
        let ghost start = self.traffic();
        let ghost address = self.address();
        let ghost frame = self.frame();
        let ghost frames = flush_frames(frame);

        // Reset display address pointers
        let _ = self.send_cmd(Commands::ColumnAddress { start: 0x00, end: column_end });
        let ghost windowed = self.traffic();
        let _ = self.send_cmd(Commands::RowAddress { start: 0x00, end: row_end });
        proof {
            assert(start.take(start.len() as int) =~= start);
            assert(sends(start, start, address, frames.take(0)));
            lemma_sends_push(start, start, address, frames.take(0), windowed.last());
            assert(frames.take(0).push(frames[0]) =~= frames.take(1));
            lemma_sends_push(start, windowed, address, frames.take(1), self.traffic().last());
            assert(frames.take(1).push(frames[1]) =~= frames.take(2));
            assert(self.traffic().skip(start.len() as int + 2) =~= Seq::empty());
        }

        // Send buffer data
        let row_bytes: usize = column_end as usize + 1;
        let rows: usize = row_end as usize + 1;
        let ghost per_row = row_bytes as int / 8;
        let mut res: Result<(), I2C::Error> = Ok(());
        let mut y: usize = 0;
        while y < rows
            invariant
                y <= rows,
                frame.wf(),
                row_bytes == frame.row_bytes(),
                rows == frame.height,
                row_bytes % 8 == 0,
                per_row == row_bytes as int / 8,
                frames == flush_frames(frame),
                self.frame() == frame,
                self.address() == address,
                sends(start, self.traffic(), address, frames.take(2 + y * per_row)),
                res == last_error(self.traffic().skip(start.len() as int + 2)),
            decreases rows - y,
        {
            let mut x: usize = 0;
            while x < row_bytes
                invariant
                    y < rows,
                    x <= row_bytes,
                    x % 8 == 0,
                    frame.wf(),
                    row_bytes == frame.row_bytes(),
                    rows == frame.height,
                    row_bytes % 8 == 0,
                    per_row == row_bytes as int / 8,
                    frames == flush_frames(frame),
                    self.frame() == frame,
                    self.address() == address,
                    sends(start, self.traffic(), address, frames.take(2 + y * per_row + x / 8)),
                    res == last_error(self.traffic().skip(start.len() as int + 2)),
                decreases row_bytes - x,
            {
                let ghost k = y * per_row + x as int / 8;
                proof {
                    lemma_chunk_position(frame, y as int, x as int);
                    assert(0 <= y * row_bytes <= 255 * 128) by (nonlinear_arith)
                        requires
                            y <= 255,
                            row_bytes <= 128,
                    ;
                }
                let start_index: usize = x + y * row_bytes;
                let ghost before = self.traffic();
                let sent = self.send_buffer_data(start_index);
                proof {
                    let next = self.traffic().last();
                    lemma_sends_push(start, before, address, frames.take(2 + k), next);
                    assert(next.bytes == frames[2 + k]);
                    assert(frames.take(2 + k).push(frames[2 + k]) =~= frames.take(2 + k + 1));
                    assert(self.traffic().skip(start.len() as int + 2) =~= before.skip(start.len() as int + 2).push(
                        next,
                    ));
                    lemma_last_error_push(before.skip(start.len() as int + 2), next);
                }
                match sent {
                    Err(e) => {
                        res = Err(e);
                    },
                    Ok(()) => {},
                }
                x += 8;
            }
            proof {
                assert(x == row_bytes);
                assert(2 + y * per_row + x / 8 == 2 + (y + 1) * per_row) by (nonlinear_arith)
                    requires
                        x as int / 8 == per_row,
                ;
            }
            y += 1;
        }
        proof {
            lemma_chunk_position(frame, 0, 0);
            assert(frames.take(2 + rows * per_row) =~= frames);
        }
        res
    }
}

} // verus!
