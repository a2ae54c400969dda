//! Register-level protocol for a chain of MAX7219-driven 8x8 LED modules.
//!
//! Every operation on the chain is one shift of `device_count` (register,
//! data) byte pairs down the serial link. The functions here build those byte
//! frames; the process boundary that owns the serial port writes them out
//! unchanged.

use vstd::prelude::*;

verus! {

/// No-op register: a pair addressed at no device.
pub const REG_NOOP: u8 = 0x0;

/// BCD decode-mode register.
pub const REG_DECODE_MODE: u8 = 0x9;

/// Intensity (brightness) register.
pub const REG_INTENSITY: u8 = 0xA;

/// Scan-limit register: how many digit rows the chip drives.
pub const REG_SCAN_LIMIT: u8 = 0xB;

/// Shutdown register.
pub const REG_SHUTDOWN: u8 = 0xC;

/// Display-test register.
pub const REG_DISPLAY_TEST: u8 = 0xF;

/// The byte frame that addresses one device of `n`: the pair at `device`
/// carries `(register, data)`, every other pair is a no-op `(0, 0)`.
pub open spec fn write_frame(n: int, register: u8, data: u8, device: int) -> Seq<u8> {
    Seq::new(
        (2 * n) as nat,
        |i: int|
            if i / 2 == device {
                if i % 2 == 0 {
                    register
                } else {
                    data
                }
            } else {
                0u8
            },
    )
}

/// The byte frame that addresses every device of `n` with the same
/// `(register, data)` pair.
pub open spec fn write_all_frame(n: int, register: u8, data: u8) -> Seq<u8> {
    Seq::new(
        (2 * n) as nat,
        |i: int|
            if i % 2 == 0 {
                register
            } else {
                data
            },
    )
}

/// The numeric value of a row of cells packed most-significant-bit first: the
/// first cell lands in bit 7 of the byte, the last in bit 0.
pub open spec fn row_bits(s: Seq<bool>) -> int
    decreases s.len(),
{
    if s.len() == 0 {
        0
    } else {
        2 * row_bits(s.drop_last()) + if s.last() {
            1int
        } else {
            0int
        }
    }
}

/// Two to the power `n`.
pub open spec fn pow2(n: int) -> int
    decreases n,
{
    if n <= 0 {
        1
    } else {
        2 * pow2(n - 1)
    }
}

pub proof fn lemma_pow2_pos(n: int)
    ensures
        pow2(n) >= 1,
    decreases (if n <= 0 { 0int } else { n }),
{
    if n > 0 {
        lemma_pow2_pos(n - 1);
    }
}

pub proof fn lemma_pow2_monotone(a: int, b: int)
    requires
        a <= b,
    ensures
        pow2(a) <= pow2(b),
    decreases (if b <= 0 { 0int } else { b }),
{
    if a < b && b > 0 {
        lemma_pow2_monotone(a, b - 1);
        lemma_pow2_pos(b - 1);
    }
}

pub proof fn lemma_row_bits_bound(s: Seq<bool>)
    ensures
        0 <= row_bits(s) < pow2(s.len() as int),
    decreases s.len(),
{
    if s.len() > 0 {
        lemma_row_bits_bound(s.drop_last());
    }
}

/// Packing examples: a row with exactly the first and fourth cell lit packs
/// to `0b1001_0000`, an all-dark row to zero, an all-lit row to `0xFF`.
pub proof fn lemma_row_bits_examples(s: Seq<bool>)
    requires
        s.len() == 8,
    ensures
        (forall|i: int| 0 <= i < 8 ==> ((#[trigger] s[i]) <==> (i == 0 || i == 3)))
            ==> row_bits(s) == 0x90,
        (forall|i: int| 0 <= i < 8 ==> !(#[trigger] s[i])) ==> row_bits(s) == 0,
        (forall|i: int| 0 <= i < 8 ==> (#[trigger] s[i])) ==> row_bits(s) == 0xFF,
{
    let s7 = s.drop_last();
    let s6 = s7.drop_last();
    let s5 = s6.drop_last();
    let s4 = s5.drop_last();
    let s3 = s4.drop_last();
    let s2 = s3.drop_last();
    let s1 = s2.drop_last();
    let s0 = s1.drop_last();
    assert(s0.len() == 0);
    assert(row_bits(s) == 2 * row_bits(s7) + if s[7] { 1int } else { 0int });
    assert(row_bits(s7) == 2 * row_bits(s6) + if s[6] { 1int } else { 0int });
    assert(row_bits(s6) == 2 * row_bits(s5) + if s[5] { 1int } else { 0int });
    assert(row_bits(s5) == 2 * row_bits(s4) + if s[4] { 1int } else { 0int });
    assert(row_bits(s4) == 2 * row_bits(s3) + if s[3] { 1int } else { 0int });
    assert(row_bits(s3) == 2 * row_bits(s2) + if s[2] { 1int } else { 0int });
    assert(row_bits(s2) == 2 * row_bits(s1) + if s[1] { 1int } else { 0int });
    assert(row_bits(s1) == 2 * row_bits(s0) + if s[0] { 1int } else { 0int });
}

/// One chained display of `devices_horizontal x devices_vertical` 8x8 LED
/// modules. The module at grid position `(x, y)` sits at chain position
/// `x + y * devices_horizontal`.
pub struct Display {
    pub devices_horizontal: usize,
    pub devices_vertical: usize,
}

impl Display {
    /// The grid dimensions leave every byte frame and cell index within the
    /// machine's address range.
    pub open spec fn wf(&self) -> bool {
        self.devices_horizontal * self.devices_vertical * 64 <= usize::MAX
    }

    /// Number of chained devices.
    pub open spec fn device_count(&self) -> int {
        self.devices_horizontal * self.devices_vertical
    }

    pub open spec fn horizontal(&self) -> int {
        self.devices_horizontal as int
    }

    pub open spec fn vertical(&self) -> int {
        self.devices_vertical as int
    }

    /// A display of the given module grid dimensions.
    pub fn new(devices_horizontal: usize, devices_vertical: usize) -> (r: Display)
        requires
            devices_horizontal * devices_vertical * 64 <= usize::MAX,
        ensures
            r.wf(),
            r.horizontal() == devices_horizontal,
            r.vertical() == devices_vertical,
    {
        Display { devices_horizontal, devices_vertical }
    }

    /// The amount of devices connected to this display.
    pub fn get_devices(&self) -> (r: usize)
        requires
            self.wf(),
        ensures
            r == self.device_count(),
    {
        proof {
            assert(self.devices_horizontal * self.devices_vertical <= usize::MAX)
                by (nonlinear_arith)
                requires self.devices_horizontal * self.devices_vertical * 64 <= usize::MAX;
        }
        self.devices_horizontal * self.devices_vertical
    }

    /// The frame that writes `(register, data)` into every device of the
    /// chain.
    pub fn write_all(&self, register: u8, data: u8) -> (r: Vec<u8>)
        requires
            self.wf(),
        ensures
            r@ == write_all_frame(self.device_count(), register, data),
    {
        let n = self.get_devices();
        let mut frame: Vec<u8> = Vec::new();
        let mut d: usize = 0;
        while d < n
            invariant
                n == self.device_count(),
                d <= n,
                2 * n <= usize::MAX,
                frame@ == write_all_frame(d as int, register, data),
            decreases n - d,
        {
            frame.push(register);
            frame.push(data);
            proof {
                assert(frame@ =~= write_all_frame(d + 1, register, data));
            }
            d = d + 1;
        }
        frame
    }

    /// The frame that writes `(register, data)` into device `device` alone:
    /// every other device receives a no-op pair.
    pub fn write(&self, register: u8, data: u8, device: usize) -> (r: Vec<u8>)
        requires
            self.wf(),
        ensures
            r@ == write_frame(self.device_count(), register, data, device as int),
    {
        let n = self.get_devices();
        let mut frame: Vec<u8> = Vec::new();
        let mut d: usize = 0;
        while d < n
            invariant
                n == self.device_count(),
                d <= n,
                2 * n <= usize::MAX,
                frame@ == write_frame(d as int, register, data, device as int)
                    .take(2 * d as int),
            decreases n - d,
        {
            if d == device {
                frame.push(register);
                frame.push(data);
            } else {
                frame.push(REG_NOOP);
                frame.push(0);
            }
            proof {
                assert(frame@ =~= write_frame(d + 1, register, data, device as int));
                assert(frame@ =~= write_frame(self.device_count(), register, data,
                    device as int).take(2 * (d + 1)));
            }
            d = d + 1;
        }
        proof {
            assert(frame@ =~= write_frame(self.device_count(), register, data, device as int));
        }
        frame
    }

    /// The initialization sequence: intensity to its lowest working level,
    /// BCD decode off, test mode off, out of shutdown, scan limit at all
    /// eight digit rows.
    pub fn setup(&self) -> (r: Vec<Vec<u8>>)
        requires
            self.wf(),
        ensures
            r@.len() == 5,
            r@[0]@ == write_all_frame(self.device_count(), REG_INTENSITY, 1),
            r@[1]@ == write_all_frame(self.device_count(), REG_DECODE_MODE, 0),
            r@[2]@ == write_all_frame(self.device_count(), REG_DISPLAY_TEST, 0),
            r@[3]@ == write_all_frame(self.device_count(), REG_SHUTDOWN, 1),
            r@[4]@ == write_all_frame(self.device_count(), REG_SCAN_LIMIT, 7),
    {
        let mut frames: Vec<Vec<u8>> = Vec::new();
        frames.push(self.write_all(REG_INTENSITY, 1));
        frames.push(self.write_all(REG_DECODE_MODE, 0));
        frames.push(self.write_all(REG_DISPLAY_TEST, 0));
        frames.push(self.write_all(REG_SHUTDOWN, 1));
        frames.push(self.write_all(REG_SCAN_LIMIT, 7));
        frames
    }

    /// The frames that switch every LED off: digit registers 1 through 7
    /// zeroed on every device.
    pub fn clear(&self) -> (r: Vec<Vec<u8>>)
        requires
            self.wf(),
        ensures
            r@.len() == 7,
            forall|k: int| 0 <= k < 7
                ==> (#[trigger] r@[k])@
                    == write_all_frame(self.device_count(), (k + 1) as u8, 0),
    {
        let mut frames: Vec<Vec<u8>> = Vec::new();
        let mut row: u8 = 1;
        while row < 8
            invariant
                self.wf(),
                1 <= row <= 8,
                frames@.len() == row - 1,
                forall|k: int| 0 <= k < row - 1
                    ==> (#[trigger] frames@[k])@
                        == write_all_frame(self.device_count(), (k + 1) as u8, 0),
            decreases 8 - row,
        {
            frames.push(self.write_all(row, 0));
            row = row + 1;
        }
        frames
    }

    /// The frame that sets the whole display's intensity. Levels 1 through 16
    /// are the chip's defined range; anything else is a caller error.
    pub fn set_intensity(&self, intensity: u8) -> (r: Vec<u8>)
        requires
            self.wf(),
            1 <= intensity <= 16,
        ensures
            r@ == write_all_frame(self.device_count(), REG_INTENSITY, intensity),
    {
        self.write_all(REG_INTENSITY, intensity)
    }

    /// Pack eight cells of a row, starting at `start`, into one byte,
    /// most-significant-bit first.
    pub fn slice_to_row_data(slice: &Vec<bool>, start: usize) -> (r: u8)
        requires
            start + 8 <= slice.len(),
        ensures
            r == row_bits(slice@.subrange(start as int, start + 8)),
    {
        let ghost row = slice@.subrange(start as int, start + 8);
        let mut data: u8 = 0;
        let mut i: usize = 0;
        while i < 8
            invariant
                start + 8 <= slice.len(),
                i <= 8,
                row == slice@.subrange(start as int, start + 8),
                data == row_bits(row.take(i as int)),
            decreases 8 - i,
        {
            proof {
                lemma_row_bits_bound(row.take(i as int));
                assert(pow2(0) == 1);
                assert(pow2(1) == 2);
                assert(pow2(2) == 4);
                assert(pow2(3) == 8);
                assert(pow2(4) == 16);
                assert(pow2(5) == 32);
                assert(pow2(6) == 64);
                assert(pow2(7) == 128);
                lemma_pow2_monotone(i as int, 7);
                assert(row.take(i + 1).drop_last() =~= row.take(i as int));
                assert(row.take(i + 1).last() == row[i as int]);
            }
            let bit: u8 = if slice[start + i] {
                1
            } else {
                0
            };
            data = data * 2 + bit;
            i = i + 1;
        }
        proof {
            assert(row.take(8) =~= row);
        }
        data
    }


    /// Chain position of the frame for module `(dx, dy)`, row `row`, in the
    /// order `display` emits frames.
    pub open spec fn frame_pos(&self, dx: int, dy: int, row: int) -> int {
        (dx * self.vertical() + dy) * 8 + row
    }

    /// Row-major cell index where module `(dx, dy)`'s row `row` begins in the
    /// frame buffer.
    pub open spec fn row_start(&self, dx: int, dy: int, row: int) -> int {
        dx * 8 + dy * self.horizontal() * 64 + row * self.horizontal() * 8
    }

    /// The frame for module `(dx, dy)`, row `row` stands at its chain
    /// position in `frames` and addresses that module alone: the module's row
    /// of `slice`, packed most-significant-bit first, written to the digit
    /// register `8 - row`.
    pub open spec fn frame_ok(
        &self,
        frames: Seq<Vec<u8>>,
        slice: Seq<bool>,
        dx: int,
        dy: int,
        row: int,
    ) -> bool {
        frames[self.frame_pos(dx, dy, row)]@ == write_frame(
            self.device_count(),
            (8 - row) as u8,
            row_bits(
                slice.subrange(self.row_start(dx, dy, row), self.row_start(dx, dy, row) + 8),
            ) as u8,
            dx + dy * self.horizontal(),
        )
    }

    /// Fan a full frame buffer of `64 * device_count` cells out to one
    /// register-write frame per module row: each module row is packed
    /// most-significant-bit first and addressed to its module's chain
    /// position, with the digit register order reversed (buffer row 0 goes to
    /// digit register 8, row 7 to register 1).
    pub fn display(&self, slice: &Vec<bool>) -> (r: Vec<Vec<u8>>)
        requires
            self.wf(),
            slice@.len() == 64 * self.device_count(),
        ensures
            r@.len() == 8 * self.device_count(),
            forall|dx: int, dy: int, row: int|
                0 <= dx < self.horizontal() && 0 <= dy < self.vertical() && 0 <= row < 8
                    ==> #[trigger] self.frame_ok(r@, slice@, dx, dy, row),
    {
        let dh = self.devices_horizontal;
        let dv = self.devices_vertical;
        let mut frames: Vec<Vec<u8>> = Vec::new();
        let mut device_x: usize = 0;
        while device_x < dh
            invariant
                self.wf(),
                dh == self.horizontal(),
                dv == self.vertical(),
                slice@.len() == 64 * self.device_count(),
                device_x <= dh,
                frames@.len() == (device_x * dv) * 8,
                forall|dx: int, dy: int, r2: int|
                    0 <= dx < device_x && 0 <= dy < dv && 0 <= r2 < 8
                        ==> #[trigger] self.frame_ok(frames@, slice@, dx, dy, r2),
            decreases dh - device_x,
        {
            let mut device_y: usize = 0;
            while device_y < dv
                invariant
                    self.wf(),
                    dh == self.horizontal(),
                    dv == self.vertical(),
                    slice@.len() == 64 * self.device_count(),
                    device_x < dh,
                    device_y <= dv,
                    frames@.len() == (device_x * dv + device_y) * 8,
                    forall|dx: int, dy: int, r2: int|
                        0 <= dx < dh && 0 <= dy < dv && 0 <= r2 < 8
                            && (dx < device_x || (dx == device_x && dy < device_y))
                            ==> #[trigger] self.frame_ok(frames@, slice@, dx, dy, r2),
                decreases dv - device_y,
            {
                let mut row: usize = 0;
                while row < 8
                    invariant
                        self.wf(),
                        dh == self.horizontal(),
                        dv == self.vertical(),
                        slice@.len() == 64 * self.device_count(),
                        device_x < dh,
                        device_y < dv,
                        row <= 8,
                        frames@.len() == (device_x * dv + device_y) * 8 + row,
                        forall|dx: int, dy: int, r2: int|
                            0 <= dx < dh && 0 <= dy < dv && 0 <= r2 < 8
                                && (dx < device_x || (dx == device_x && dy < device_y)
                                    || (dx == device_x && dy == device_y && r2 < row))
                                ==> #[trigger] self.frame_ok(frames@, slice@, dx, dy, r2),
                    decreases 8 - row,
                {
                    proof {
                        assert(device_x * 8 + device_y * dh * 64 + row * dh * 8 + 8
                            <= (dh * dv) * 64) by (nonlinear_arith)
                            requires
                                0 <= device_x < dh,
                                0 <= device_y < dv,
                                0 <= row < 8;
                        assert((dh * dv) * 64 == dh * dv * 64) by (nonlinear_arith);
                        assert(64 * self.device_count() == dh * dv * 64) by (nonlinear_arith)
                            requires
                                dh == self.horizontal(),
                                dv == self.vertical(),
                                self.device_count() == self.horizontal() * self.vertical();
                    }
                    let index: usize = device_x * 8 + device_y * dh * 64 + row * dh * 8;
                    let row_data = Display::slice_to_row_data(slice, index);
                    proof {
                        lemma_row_bits_bound(slice@.subrange(index as int, index + 8));
                        assert(device_x + device_y * dh < dh * dv) by (nonlinear_arith)
                            requires 0 <= device_x < dh, 0 <= device_y < dv;
                        assert(dh * dv * 64 <= usize::MAX);
                        assert(dh * dv <= dh * dv * 64) by (nonlinear_arith);
                    }
                    let device: usize = device_x + device_y * dh;
                    let frame = self.write(8u8 - row as u8, row_data, device);
                    let ghost prev = frames@;
                    frames.push(frame);
                    proof {
                        assert(frames@.len() - 1 == self.frame_pos(
                            device_x as int, device_y as int, row as int));
                        assert(index as int == self.row_start(
                            device_x as int, device_y as int, row as int));
                        assert(row_data as int == row_bits(slice@.subrange(
                            index as int, index + 8)));
                        assert(row_data as u8 == row_bits(slice@.subrange(
                            index as int, index + 8)) as u8);
                        assert(self.frame_ok(frames@, slice@,
                            device_x as int, device_y as int, row as int));
                        assert forall|dx: int, dy: int, r2: int|
                            0 <= dx < dh && 0 <= dy < dv && 0 <= r2 < 8
                                && (dx < device_x || (dx == device_x && dy < device_y)
                                    || (dx == device_x && dy == device_y && r2 < row + 1))
                                implies #[trigger] self.frame_ok(frames@, slice@, dx, dy, r2)
                        by {
                            if dx == device_x && dy == device_y && r2 == row {
                            } else {
                                assert(self.frame_pos(dx, dy, r2) < prev.len())
                                    by (nonlinear_arith)
                                    requires
                                        0 <= dx < dh,
                                        0 <= dy < dv,
                                        0 <= r2 < 8,
                                        dx < device_x || (dx == device_x && dy < device_y)
                                            || (dx == device_x && dy == device_y && r2 < row),
                                        prev.len() == (device_x * dv + device_y) * 8 + row,
                                        self.frame_pos(dx, dy, r2)
                                            == (dx * dv + dy) * 8 + r2,
                                        dv == self.vertical();
                                assert(0 <= self.frame_pos(dx, dy, r2)) by (nonlinear_arith)
                                    requires
                                        0 <= dx,
                                        0 <= dy,
                                        0 <= r2,
                                        self.frame_pos(dx, dy, r2)
                                            == (dx * dv + dy) * 8 + r2,
                                        dv == self.vertical(),
                                        dv >= 0;
                                assert(self.frame_ok(prev, slice@, dx, dy, r2));
                                assert(frames@[self.frame_pos(dx, dy, r2)]
                                    == prev[self.frame_pos(dx, dy, r2)]);
                            }
                        }
                    }
                    row = row + 1;
                }
                device_y = device_y + 1;
            }
            proof {
                assert((device_x * dv + dv) * 8 == ((device_x + 1) * dv) * 8)
                    by (nonlinear_arith);
            }
            device_x = device_x + 1;
        }
        proof {
            assert((dh * dv) * 8 == 8 * self.device_count()) by (nonlinear_arith)
                requires
                    dh == self.horizontal(),
                    dv == self.vertical(),
                    self.device_count() == self.horizontal() * self.vertical();
        }
        frames
    }
}

} // verus!
