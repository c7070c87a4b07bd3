use vstd::prelude::*;
use super::color::Color;
use super::segment::Segment;

verus! {

// Single-wire addressable-LED protocol timing: nanosecond windows for the
// high and low phases of a transmitted one and zero, and the end-of-frame
// reset, all realized as whole ticks of the transmission clock.
pub const T0H_NS: u64 = 500;
pub const T1H_NS: u64 = 1_200;
pub const T0L_NS: u64 = 2_000;
pub const T1L_NS: u64 = 1_300;
pub const RESET_NS: u64 = 60_000;
pub const RESET_TAIL_NS: u64 = 1_000;

/// The transmission hardware counts pulse lengths in a 15-bit field.
pub const MAX_PULSE_TICKS: u64 = 32_767;

/// Signal level of one pulse.
#[derive(Clone, Copy, Debug, PartialEq, Eq, Structural)]
pub enum PinLevel {
    Low,
    High,
}

/// One timed level interval, measured in ticks of the transmission clock.
#[derive(Clone, Copy, Debug, PartialEq, Eq, Structural)]
pub struct Pulse {
    pub level: PinLevel,
    pub ticks: u16,
}

/// A two-phase pulse pattern: one protocol bit, or the frame terminator.
#[derive(Clone, Copy, Debug, PartialEq, Eq, Structural)]
pub struct PulsePair {
    pub first: Pulse,
    pub second: Pulse,
}

/// Encoding can only fail while the timing tables are computed, when a
/// protocol window does not fit the hardware's tick counter at the actual
/// clock rate.
#[derive(Clone, Copy, Debug, PartialEq, Eq, Structural)]
pub enum EncodingError {
    PulseOutOfRange,
}

/// How many clock ticks a nanosecond window spans at `hz` ticks per second,
/// rounded down.
pub open spec fn ticks_spec(ns: u64, hz: u64) -> int {
    (ns * hz) / 1_000_000_000
}

/// A whole window expressed in clock ticks, refused when it overruns the
/// hardware's tick counter.
fn ticks_from_nanos(ns: u64, hz: u64) -> (r: Result<u16, EncodingError>)
    requires
        ns <= 1_000_000,
    ensures
        ticks_spec(ns, hz) <= MAX_PULSE_TICKS ==> r == Ok::<u16, EncodingError>(
            ticks_spec(ns, hz) as u16,
        ),
        ticks_spec(ns, hz) > MAX_PULSE_TICKS ==> r == Err::<u16, EncodingError>(
            EncodingError::PulseOutOfRange,
        ),
{
    proof {
        assert(ns * hz <= 1_000_000 * 0xffff_ffff_ffff_ffffu128) by (nonlinear_arith)
            requires
                ns <= 1_000_000,
                hz <= 0xffff_ffff_ffff_ffffu128,
        ;
    }
    let wide: u128 = (ns as u128) * (hz as u128) / 1_000_000_000;
    if wide > MAX_PULSE_TICKS as u128 {
        Err(EncodingError::PulseOutOfRange)
    } else {
        Ok(wide as u16)
    }
}

/// The three memoized pulse patterns for one transmission clock rate.
#[derive(Clone, Copy, Debug, PartialEq, Eq, Structural)]
pub struct PulseTable {
    /// A transmitted one: long high, short low.
    pub one: PulsePair,
    /// A transmitted zero: short high, long low.
    pub zero: PulsePair,
    /// End of frame: a long low, padded by a final short low.
    pub reset: PulsePair,
    /// The clock rate the tick counts were computed against.
    pub clock_hz: u64,
}

/// The table the protocol prescribes for a given clock rate.
pub open spec fn table_spec(hz: u64) -> PulseTable {
    PulseTable {
        one: PulsePair {
            first: Pulse { level: PinLevel::High, ticks: ticks_spec(T1H_NS, hz) as u16 },
            second: Pulse { level: PinLevel::Low, ticks: ticks_spec(T1L_NS, hz) as u16 },
        },
        zero: PulsePair {
            first: Pulse { level: PinLevel::High, ticks: ticks_spec(T0H_NS, hz) as u16 },
            second: Pulse { level: PinLevel::Low, ticks: ticks_spec(T0L_NS, hz) as u16 },
        },
        reset: PulsePair {
            first: Pulse { level: PinLevel::Low, ticks: ticks_spec(RESET_NS, hz) as u16 },
            second: Pulse { level: PinLevel::Low, ticks: ticks_spec(RESET_TAIL_NS, hz) as u16 },
        },
        clock_hz: hz,
    }
}

/// Do all six protocol windows fit the tick counter at this clock rate?
pub open spec fn table_fits(hz: u64) -> bool {
    &&& ticks_spec(T0H_NS, hz) <= MAX_PULSE_TICKS
    &&& ticks_spec(T1H_NS, hz) <= MAX_PULSE_TICKS
    &&& ticks_spec(T0L_NS, hz) <= MAX_PULSE_TICKS
    &&& ticks_spec(T1L_NS, hz) <= MAX_PULSE_TICKS
    &&& ticks_spec(RESET_NS, hz) <= MAX_PULSE_TICKS
    &&& ticks_spec(RESET_TAIL_NS, hz) <= MAX_PULSE_TICKS
}

impl PulseTable {
    /// Compute the pulse patterns once for the transmission hardware's
    /// actual clock rate. Fails exactly when a window overruns the tick
    /// counter; such a failure is a hard initialization error.
    pub fn from_clock(clock_hz: u64) -> (r: Result<PulseTable, EncodingError>)
        ensures
            table_fits(clock_hz) ==> r == Ok::<PulseTable, EncodingError>(table_spec(clock_hz)),
            !table_fits(clock_hz) ==> r == Err::<PulseTable, EncodingError>(
                EncodingError::PulseOutOfRange,
            ),
    {
        let t1h = match ticks_from_nanos(T1H_NS, clock_hz) {
            Ok(v) => v,
            Err(e) => {
                return Err(e);
            },
        };
        let t1l = match ticks_from_nanos(T1L_NS, clock_hz) {
            Ok(v) => v,
            Err(e) => {
                return Err(e);
            },
        };
        let t0h = match ticks_from_nanos(T0H_NS, clock_hz) {
            Ok(v) => v,
            Err(e) => {
                return Err(e);
            },
        };
        let t0l = match ticks_from_nanos(T0L_NS, clock_hz) {
            Ok(v) => v,
            Err(e) => {
                return Err(e);
            },
        };
        let res = match ticks_from_nanos(RESET_NS, clock_hz) {
            Ok(v) => v,
            Err(e) => {
                return Err(e);
            },
        };
        let res_tail = match ticks_from_nanos(RESET_TAIL_NS, clock_hz) {
            Ok(v) => v,
            Err(e) => {
                return Err(e);
            },
        };
        Ok(
            PulseTable {
                one: PulsePair {
                    first: Pulse { level: PinLevel::High, ticks: t1h },
                    second: Pulse { level: PinLevel::Low, ticks: t1l },
                },
                zero: PulsePair {
                    first: Pulse { level: PinLevel::High, ticks: t0h },
                    second: Pulse { level: PinLevel::Low, ticks: t0l },
                },
                reset: PulsePair {
                    first: Pulse { level: PinLevel::Low, ticks: res },
                    second: Pulse { level: PinLevel::Low, ticks: res_tail },
                },
                clock_hz,
            },
        )
    }
}

/// One-time initialization guard for a shared pulse table: the first write
/// wins and later writes are benign no-ops, so several controllers may race
/// to initialize the same table.
pub struct PulseTableCell {
    table: Option<PulseTable>,
}

impl PulseTableCell {
    /// What the cell holds.
    pub closed spec fn spec_get(&self) -> Option<PulseTable> {
        self.table
    }

    /// A cell nothing has written yet.
    pub fn empty() -> (c: Self)
        ensures
            c.spec_get() is None,
    {
        PulseTableCell { table: None }
    }

    /// First write wins: stores `t` only into an empty cell. The returned
    /// flag says whether this call was the winning write.
    pub fn set(&mut self, t: PulseTable) -> (won: bool)
        ensures
            old(self).spec_get() is None ==> final(self).spec_get() == Some(t) && won,
            old(self).spec_get() is Some ==> final(self).spec_get() == old(self).spec_get()
                && !won,
    {
        match self.table {
            None => {
                self.table = Some(t);
                true
            },
            Some(_) => false,
        }
    }

    /// The memoized table, if any write has happened.
    pub fn get(&self) -> (r: Option<PulseTable>)
        ensures
            r == self.spec_get(),
    {
        self.table
    }
}

/// Bit `k` (0 the least significant) of byte `v`.
pub open spec fn bit_of(v: u8, k: u8) -> bool {
    (v >> k) & 1 == 1
}

/// Bit `j` of a color's 24-bit wire image: the three channels in R, G, B
/// order, each sent most-significant bit first.
pub open spec fn color_bit(c: Color, j: int) -> bool {
    let v = if j / 8 == 0 {
        c.r
    } else if j / 8 == 1 {
        c.g
    } else {
        c.b
    };
    bit_of(v, (7 - j % 8) as u8)
}

/// The eight pulse pairs of one byte, most significant bit first.
pub open spec fn byte_pulses(v: u8, t: PulseTable) -> Seq<PulsePair> {
    Seq::new(8, |j: int| if bit_of(v, (7 - j) as u8) { t.one } else { t.zero })
}

/// The 24 pulse pairs of one color.
pub open spec fn color_pulses(c: Color, t: PulseTable) -> Seq<PulsePair> {
    Seq::new(24, |j: int| if color_bit(c, j) { t.one } else { t.zero })
}

/// A whole frame: 24 pulse pairs per LED in segment order, then the reset.
pub open spec fn frame_encodes(leds: Seq<Color>, t: PulseTable, frame: Seq<PulsePair>) -> bool {
    &&& frame.len() == 24 * leds.len() + 1
    &&& forall|i: int, j: int|
        0 <= i < leds.len() && 0 <= j < 24 ==> frame[24 * i + j] == (if #[trigger] color_bit(
            leds[i],
            j,
        ) {
            t.one
        } else {
            t.zero
        })
    &&& frame[24 * leds.len() as int] == t.reset
}

/// Append the eight pulse pairs of one byte, most significant bit first.
fn write_byte(frame: &mut Vec<PulsePair>, v: u8, table: &PulseTable)
    ensures
        final(frame)@ == old(frame)@ + byte_pulses(v, *table),
{
    let mut j: usize = 0;
    while j < 8
        invariant
            j <= 8,
            frame@ == old(frame)@ + byte_pulses(v, *table).take(j as int),
        decreases 8 - j,
    {
        let shift: u8 = 7 - (j as u8);
        let is_one: bool = (v >> shift) & 1 == 1;
        if is_one {
            frame.push(table.one);
        } else {
            frame.push(table.zero);
        }
        proof {
            assert(byte_pulses(v, *table).take(j + 1) =~= byte_pulses(v, *table).take(
                j as int,
            ).push(byte_pulses(v, *table)[j as int]));
            assert(frame@ =~= old(frame)@ + byte_pulses(v, *table).take(j + 1));
        }
        j = j + 1;
    }
    proof {
        assert(byte_pulses(v, *table).take(8) =~= byte_pulses(v, *table));
    }
}

/// Append the 24 pulse pairs of one color: R, G, B, each MSB first.
fn write_color(frame: &mut Vec<PulsePair>, color: Color, table: &PulseTable)
    ensures
        final(frame)@ == old(frame)@ + color_pulses(color, *table),
{
    write_byte(frame, color.r, table);
    write_byte(frame, color.g, table);
    write_byte(frame, color.b, table);
    proof {
        assert(color_pulses(color, *table) =~= byte_pulses(color.r, *table) + byte_pulses(
            color.g,
            *table,
        ) + byte_pulses(color.b, *table));
        assert(frame@ =~= old(frame)@ + color_pulses(color, *table));
    }
}

/// Serialize a segment's colors into the full pulse frame: 24 pulse pairs
/// per LED in segment order, closed by one reset pulse pair.
pub fn encode_frame(segment: &Segment, table: &PulseTable) -> (frame: Vec<PulsePair>)
    ensures
        frame_encodes(segment@, *table, frame@),
{
    let leds = segment.leds();
    let n: usize = leds.len();
    let mut frame: Vec<PulsePair> = Vec::new();
    let mut i: usize = 0;
    while i < n
        invariant
            i <= n,
            n == segment@.len(),
            leds@.len() == n,
            forall|m: int| 0 <= m < n ==> #[trigger] leds@[m]@ == segment@[m],
            frame@.len() == 24 * i,
            forall|m: int, j: int|
                0 <= m < i && 0 <= j < 24 ==> frame@[24 * m + j] == (if #[trigger] color_bit(
                    segment@[m],
                    j,
                ) {
                    table.one
                } else {
                    table.zero
                }),
        decreases n - i,
    {
        let ghost frame0 = frame@;
        let c = leds[i].color();
        write_color(&mut frame, c, table);
        proof {
            assert forall|m: int, j: int| 0 <= m < i + 1 && 0 <= j < 24 implies frame@[24 * m + j]
                == (if #[trigger] color_bit(segment@[m], j) {
                table.one
            } else {
                table.zero
            }) by {
                if m < i {
                    assert(24 * m + j < 24 * i);
                    assert(frame@[24 * m + j] == frame0[24 * m + j]);
                } else {
                    assert(frame@[24 * i + j] == color_pulses(c, *table)[j]);
                }
            }
        }
        i = i + 1;
    }
    frame.push(table.reset);
    frame
}

/// A frame of N black LEDs is exactly 24 x N zero patterns, then the reset.
pub proof fn lemma_encode_black(leds: Seq<Color>, t: PulseTable, frame: Seq<PulsePair>)
    requires
        frame_encodes(leds, t, frame),
        forall|i: int| 0 <= i < leds.len() ==> leds[i] == (Color { r: 0, g: 0, b: 0 }),
    ensures
        frame.len() == 24 * leds.len() + 1,
        forall|j: int| 0 <= j < 24 * leds.len() ==> frame[j] == t.zero,
        frame[24 * leds.len() as int] == t.reset,
{
    assert forall|j: int| 0 <= j < 24 * leds.len() implies frame[j] == t.zero by {
        vstd::arithmetic::div_mod::lemma_fundamental_div_mod(j, 24);
        let i = j / 24;
        let k = j % 24;
        assert(0 <= i < leds.len());
        let sh = (7 - k % 8) as u8;
        assert((0u8 >> sh) & 1 == 0) by (bit_vector);
        assert(!color_bit(leds[i], k));
    }
}

/// A frame of N white LEDs is exactly 24 x N one patterns, then the reset.
pub proof fn lemma_encode_white(leds: Seq<Color>, t: PulseTable, frame: Seq<PulsePair>)
    requires
        frame_encodes(leds, t, frame),
        forall|i: int| 0 <= i < leds.len() ==> leds[i] == (Color { r: 255, g: 255, b: 255 }),
    ensures
        frame.len() == 24 * leds.len() + 1,
        forall|j: int| 0 <= j < 24 * leds.len() ==> frame[j] == t.one,
        frame[24 * leds.len() as int] == t.reset,
{
    assert forall|j: int| 0 <= j < 24 * leds.len() implies frame[j] == t.one by {
        vstd::arithmetic::div_mod::lemma_fundamental_div_mod(j, 24);
        let i = j / 24;
        let k = j % 24;
        assert(0 <= i < leds.len());
        let sh = (7 - k % 8) as u8;
        assert(sh < 8);
        assert((255u8 >> sh) & 1 == 1) by (bit_vector)
            requires
                sh < 8,
        ;
        assert(color_bit(leds[i], k));
    }
}

} // verus!
