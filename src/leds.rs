//! Projection of a tilt reading onto a single LED of the 5×5 matrix.
use vstd::prelude::*;
use vstd::arithmetic::div_mod::{lemma_div_is_ordered, lemma_fundamental_div_mod_converse_div};
use crate::resolution::{BubbleResolution, InvalidResolution};

verus! {

/// The matrix is `LED_SIZE` × `LED_SIZE`.
pub const LED_SIZE: usize = 5;

/// One byte per LED, row by row: 1 is lit, 0 is dark.
pub type LEDState = [[u8; LED_SIZE]; LED_SIZE];

/// The LED at row `i`, column `j`.
pub open spec fn cell(g: LEDState, i: int, j: int) -> u8 {
    g@[i]@[j]
}

/// The grid lights the cell `spot` alone, or nothing where `spot` is `None`.
pub open spec fn shows(g: LEDState, spot: Option<(int, int)>) -> bool {
    forall|i: int, j: int|
        0 <= i < LED_SIZE && 0 <= j < LED_SIZE ==> #[trigger] cell(g, i, j) == (if spot == Some(
            (i, j),
        ) {
            1u8
        } else {
            0u8
        })
}

/// The positions of the lit LEDs.
pub open spec fn lit_cells(g: LEDState) -> Set<(int, int)> {
    Set::new(
        |p: (int, int)|
            0 <= p.0 < LED_SIZE && 0 <= p.1 < LED_SIZE && cell(g, p.0, p.1) != 0,
    )
}

/// `num / den` rounded to the nearest integer, an exact half away from zero.
pub open spec fn round_half_away(num: int, den: int) -> int
    recommends
        den > 0,
{
    if num >= 0 {
        (2 * num + den) / (2 * den)
    } else {
        -((2 * -num + den) / (2 * den))
    }
}

/// Pulls an index into the matrix: at most 0 gives 0, at least the last gives the last.
pub open spec fn clamp_index(v: int) -> int {
    if v <= 0 {
        0
    } else if v >= LED_SIZE - 1 {
        LED_SIZE - 1
    } else {
        v
    }
}

/// The LED index of the pixel coordinate `num / den`: rounded, then clamped.
pub open spec fn pixel_index(num: int, den: int) -> int {
    clamp_index(round_half_away(num, den))
}

/// The column lit for an x reading. The coordinate is `2 - x / divisor`, 2 being
/// the centre of the matrix; the x axis of the sensor points against the columns.
pub open spec fn column_of(x: int, m: BubbleResolution) -> int {
    pixel_index(2 * m.spec_divisor() - x, m.spec_divisor())
}

/// The row lit for a y reading: the coordinate is `y / divisor + 2`.
pub open spec fn row_of(y: int, m: BubbleResolution) -> int {
    pixel_index(y + 2 * m.spec_divisor(), m.spec_divisor())
}

/// The cell (row, column) the level lights, or `None` when the board faces down.
pub open spec fn bubble(x: int, y: int, z: int, m: BubbleResolution) -> Option<(int, int)> {
    if z > 0 {
        None
    } else {
        Some((row_of(y, m), column_of(x, m)))
    }
}

/// An exact half rounds away from zero: `k + 1/2` gives `k + 1` when `k >= 0`,
/// and `k` when `k < 0`.
pub proof fn lemma_half_rounds_away_from_zero(num: int, den: int, k: int)
    requires
        den > 0,
        2 * num == (2 * k + 1) * den,
    ensures
        round_half_away(num, den) == (if k >= 0 {
            k + 1
        } else {
            k
        }),
{
    if k >= 0 {
        assert(num >= 0) by (nonlinear_arith)
            requires
                2 * num == (2 * k + 1) * den,
                k >= 0,
                den > 0,
        ;
        assert(2 * num + den == (k + 1) * (2 * den) + 0) by (nonlinear_arith)
            requires
                2 * num == (2 * k + 1) * den,
        ;
        lemma_fundamental_div_mod_converse_div(2 * num + den, 2 * den, k + 1, 0);
    } else {
        assert(num < 0) by (nonlinear_arith)
            requires
                2 * num == (2 * k + 1) * den,
                k < 0,
                den > 0,
        ;
        assert(2 * -num + den == (-k) * (2 * den) + 0) by (nonlinear_arith)
            requires
                2 * num == (2 * k + 1) * den,
        ;
        lemma_fundamental_div_mod_converse_div(2 * -num + den, 2 * den, -k, 0);
    }
}

/// A coordinate `num / den` at or below 0 lights index 0; one at or beyond the
/// last index lights the last index.
pub proof fn lemma_clamp_edges(num: int, den: int)
    requires
        den > 0,
    ensures
        num <= 0 ==> pixel_index(num, den) == 0,
        num >= (LED_SIZE - 1) * den ==> pixel_index(num, den) == LED_SIZE - 1,
{
    if num == 0 {
        lemma_fundamental_div_mod_converse_div(den, 2 * den, 0, den);
    } else if num < 0 {
        lemma_div_is_ordered(0, 2 * -num + den, 2 * den);
        lemma_fundamental_div_mod_converse_div(0, 2 * den, 0, 0);
    }
    if num >= (LED_SIZE - 1) * den {
        lemma_div_is_ordered(8 * den, 2 * num + den, 2 * den);
        lemma_fundamental_div_mod_converse_div(8 * den, 2 * den, 4, 0);
    }
}

/// The LED index never decreases as the coordinate `num / den` grows.
pub proof fn lemma_pixel_index_monotone(n1: int, d1: int, n2: int, d2: int)
    requires
        d1 > 0,
        d2 > 0,
        n1 * d2 <= n2 * d1,
    ensures
        pixel_index(n1, d1) <= pixel_index(n2, d2),
{
    lemma_clamp_edges(n1, d1);
    lemma_clamp_edges(n2, d2);
    if n2 <= 0 {
        assert(n1 <= 0) by (nonlinear_arith)
            requires
                n1 * d2 <= n2 * d1,
                n2 <= 0,
                d1 > 0,
                d2 > 0,
        ;
    } else if n1 > 0 {
        let q1 = (2 * n1 + d1) / (2 * d1);
        let x2 = 2 * n2 + d2;
        assert(q1 * (2 * d1) <= 2 * n1 + d1) by (nonlinear_arith)
            requires
                q1 == (2 * n1 + d1) / (2 * d1),
                d1 > 0,
        ;
        assert(q1 * (2 * d2) <= x2) by (nonlinear_arith)
            requires
                q1 * (2 * d1) <= 2 * n1 + d1,
                n1 * d2 <= n2 * d1,
                x2 == 2 * n2 + d2,
                d1 > 0,
                d2 > 0,
        ;
        lemma_div_is_ordered(q1 * (2 * d2), x2, 2 * d2);
        lemma_fundamental_div_mod_converse_div(q1 * (2 * d2), 2 * d2, q1, 0);
    }
}

/// Fine resolution moves the bubble at least as far from the centre as coarse
/// resolution does, to the same side, for every reading.
pub proof fn lemma_fine_at_least_as_sensitive(x: int, y: int)
    ensures
        x >= 0 ==> column_of(x, BubbleResolution::Fine) <= column_of(x, BubbleResolution::Coarse)
            <= 2,
        x <= 0 ==> 2 <= column_of(x, BubbleResolution::Coarse) <= column_of(
            x,
            BubbleResolution::Fine,
        ),
        y >= 0 ==> 2 <= row_of(y, BubbleResolution::Coarse) <= row_of(y, BubbleResolution::Fine),
        y <= 0 ==> row_of(y, BubbleResolution::Fine) <= row_of(y, BubbleResolution::Coarse) <= 2,
{
    lemma_fundamental_div_mod_converse_div(5, 2, 2, 1);
    assert(pixel_index(2, 1) == 2);
    if x >= 0 {
        lemma_pixel_index_monotone(50 - x, 25, 500 - x, 250);
        lemma_pixel_index_monotone(500 - x, 250, 2, 1);
    } else {
        lemma_pixel_index_monotone(500 - x, 250, 50 - x, 25);
        lemma_pixel_index_monotone(2, 1, 500 - x, 250);
    }
    if y >= 0 {
        lemma_pixel_index_monotone(y + 500, 250, y + 50, 25);
        lemma_pixel_index_monotone(2, 1, y + 500, 250);
    } else {
        lemma_pixel_index_monotone(y + 50, 25, y + 500, 250);
        lemma_pixel_index_monotone(y + 500, 250, 2, 1);
    }
}

/// The LED matrix of the level and the resolution it projects with.
pub struct LEDs {
    state: LEDState,
    mode: BubbleResolution,
}

impl LEDs {
    /// The grid last computed.
    pub closed spec fn spec_state(&self) -> LEDState {
        self.state
    }

    /// The resolution in use.
    pub closed spec fn spec_mode(&self) -> BubbleResolution {
        self.mode
    }

    /// `num / den` rounded to the nearest integer; an exact half goes away from zero.
    pub fn round(num: i64, den: i64) -> (r: i64)
        requires
            den > 0,
        ensures
            r == round_half_away(num as int, den as int),
    {
        let mag: u64 = if num >= 0 {
            num as u64
        } else {
            (-(num + 1)) as u64 + 1
        };
        let d: u64 = den as u64;
        let q: u64 = mag / d;
        let rem: u64 = mag % d;
        proof {
            assert(mag as int == q * d + rem) by (nonlinear_arith)
                requires
                    q == mag as int / d as int,
                    rem == mag as int % d as int,
                    d > 0,
            ;
        }
        let up: bool = rem >= d - rem;
        proof {
            let k: int = if up {
                q + 1
            } else {
                q as int
            };
            let r2: int = if up {
                2 * rem + d - 2 * d
            } else {
                2 * rem + d
            };
            assert(2 * mag + d == k * (2 * d) + r2) by (nonlinear_arith)
                requires
                    mag as int == q * d + rem,
                    k == (if up {
                        q + 1
                    } else {
                        q as int
                    }),
                    r2 == (if up {
                        2 * rem + d - 2 * d
                    } else {
                        2 * rem + d
                    }),
            ;
            lemma_fundamental_div_mod_converse_div(2 * mag + d, 2 * d, k, r2);
            if up {
                assert(d >= 2);
                assert(q <= mag / 2) by (nonlinear_arith)
                    requires
                        mag as int == q * d + rem,
                        d >= 2,
                        rem >= 0,
                ;
            }
        }
        let n: u64 = if up {
            q + 1
        } else {
            q
        };
        if num >= 0 {
            n as i64
        } else if n == 0x8000_0000_0000_0000u64 {
            i64::MIN
        } else {
            -(n as i64)
        }
    }

    /// The LED index of the pixel coordinate `num / den`, rounded to the nearest
    /// integer and kept on the matrix.
    pub fn clamp(num: i64, den: i64) -> (r: usize)
        requires
            den > 0,
        ensures
            r == pixel_index(num as int, den as int),
            r < LED_SIZE,
    {
        let v: i64 = LEDs::round(num, den);
        if v <= 0 {
            0
        } else if v >= (LED_SIZE - 1) as i64 {
            LED_SIZE - 1
        } else {
            v as usize
        }
    }

    /// A dark matrix in coarse mode.
    pub fn new() -> (r: LEDs)
        ensures
            shows(r.spec_state(), None),
            r.spec_mode() == BubbleResolution::Coarse,
    {
        LEDs { state: [[0u8; LED_SIZE]; LED_SIZE], mode: BubbleResolution::Coarse }
    }

    /// Turns every LED off.
    pub fn clear(&mut self)
        ensures
            shows(final(self).spec_state(), None),
            final(self).spec_mode() == old(self).spec_mode(),
    {
        self.state = [[0u8; LED_SIZE]; LED_SIZE];
    }

    /// Selects the resolution that later updates project with.
    pub fn set_mode(&mut self, mode: BubbleResolution)
        ensures
            final(self).spec_mode() == mode,
            final(self).spec_state() == old(self).spec_state(),
    {
        self.mode = mode;
    }

    /// Projects a reading (milli-g) onto the matrix and returns the new grid:
    /// dark when the board faces down (`z > 0`), else the one LED of the bubble.
    pub fn update(&mut self, x: i32, y: i32, z: i32) -> (r: LEDState)
        ensures
            shows(r, bubble(x as int, y as int, z as int, old(self).spec_mode())),
            z > 0 ==> lit_cells(r) == Set::<(int, int)>::empty(),
            z <= 0 ==> 0 <= row_of(y as int, old(self).spec_mode()) < LED_SIZE,
            z <= 0 ==> 0 <= column_of(x as int, old(self).spec_mode()) < LED_SIZE,
            z <= 0 ==> lit_cells(r) == set![(row_of(y as int, old(self).spec_mode()), column_of(x as int, old(self).spec_mode()))],
            final(self).spec_state() == r,
            final(self).spec_mode() == old(self).spec_mode(),
    {
        self.clear();
        if z <= 0 {
            let divs: i64 = self.mode.divisor();
            let x_pix: i64 = 2 * divs - x as i64;
            let y_pix: i64 = y as i64 + 2 * divs;
            let row: usize = LEDs::clamp(y_pix, divs);
            let col: usize = LEDs::clamp(x_pix, divs);
            let ghost before = self.state;
            let mut line: [u8; LED_SIZE] = self.state[row];
            line[col] = 1;
            self.state[row] = line;
            assert forall|i: int, j: int| 0 <= i < LED_SIZE && 0 <= j < LED_SIZE implies #[trigger] cell(
                self.state,
                i,
                j,
            ) == (if i == row && j == col {
                1u8
            } else {
                0u8
            }) by {
                assert(cell(before, i, j) == 0u8);
            }
            assert(lit_cells(self.state) =~= set![(row as int, col as int)]);
        } else {
            assert(lit_cells(self.state) =~= Set::<(int, int)>::empty());
        }
        self.state
    }

    /// One pass of the render loop. `code` is the byte read from the shared
    /// resolution cell; `sample` is the fresh reading (x, y, z), if the sensor
    /// had one. Sets the decoded resolution and returns the grid to show, or
    /// `None` when there was no sample. A byte that is no resolution leaves
    /// the matrix as it was and is returned as the error.
    pub fn refresh(&mut self, code: u8, sample: Option<(i32, i32, i32)>) -> (r: Result<
        Option<LEDState>,
        InvalidResolution,
    >)
        ensures
            BubbleResolution::spec_decode(code) is Err ==> r == Err::<Option<LEDState>, InvalidResolution>(
                InvalidResolution { code },
            ) && *final(self) == *old(self),
            BubbleResolution::spec_decode(code) is Ok ==> final(self).spec_mode()
                == BubbleResolution::spec_decode(code)->Ok_0,
            BubbleResolution::spec_decode(code) is Ok && sample is None ==> r == Ok::<
                Option<LEDState>,
                InvalidResolution,
            >(None) && final(self).spec_state() == old(self).spec_state(),
            BubbleResolution::spec_decode(code) is Ok && sample is Some ==> (r matches Ok(Some(g))
                && g == final(self).spec_state() && shows(
                g,
                bubble(
                    sample->Some_0.0 as int,
                    sample->Some_0.1 as int,
                    sample->Some_0.2 as int,
                    final(self).spec_mode(),
                ),
            )),
    {
        match BubbleResolution::try_from(code) {
            Err(e) => Err(e),
            Ok(mode) => {
                self.set_mode(mode);
                match sample {
                    None => Ok(None),
                    Some((x, y, z)) => Ok(Some(self.update(x, y, z))),
                }
            },
        }
    }
}

} // verus!
