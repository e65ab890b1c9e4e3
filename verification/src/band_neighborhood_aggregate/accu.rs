//! Collects the bands of one tile and produces the first derivative along the bands.

use std::collections::VecDeque;

use vstd::prelude::*;

use crate::raster::{lemma_cell_in_bounds, PixelGrid, RasterTile2D};

verus! {

broadcast use vstd::std_specs::vecdeque::group_vec_dequeue_axioms;

/// The divisor of the difference quotient of an output band: neighbours on both sides are two
/// bands apart, the first and the last band only have one neighbour.
pub open spec fn divisor_of(band: int, num_bands: int) -> u32 {
    if band == 0 || band == num_bands - 1 {
        1
    } else {
        2
    }
}

/// The pixels of `out` are the difference quotients of the pixels of `prev` and `next`; a pixel
/// that has no value in one of them has none in `out`.
pub open spec fn is_quotient_grid<P, F: Fn(&P, &P, u32) -> P>(
    quotient: F,
    prev: PixelGrid<P>,
    next: PixelGrid<P>,
    divisor: u32,
    out: PixelGrid<P>,
) -> bool {
    &&& out.wf()
    &&& out.shape == prev.shape
    &&& forall|y: int, x: int|
        0 <= y < prev.shape.rows() && 0 <= x < prev.shape.columns()
            ==> is_quotient_pixel(
            quotient,
            prev.pixel(y, x),
            next.pixel(y, x),
            divisor,
            #[trigger] out.pixel(y, x),
        )
}

/// One pixel of a difference quotient.
pub open spec fn is_quotient_pixel<P, F: Fn(&P, &P, u32) -> P>(
    quotient: F,
    prev: Option<P>,
    next: Option<P>,
    divisor: u32,
    out: Option<P>,
) -> bool {
    match (prev, next) {
        (Some(p), Some(n)) => out is Some && call_ensures(quotient, (&p, &n, divisor), out->0),
        _ => out is None,
    }
}

/// `out` is the derivative of `prev` and `next` for the band `band`. Everything but the pixels and
/// the band is taken over from `prev`.
pub open spec fn is_derivative<P, M: Clone, F: Fn(&P, &P, u32) -> P>(
    quotient: F,
    prev: RasterTile2D<P, M>,
    next: RasterTile2D<P, M>,
    divisor: u32,
    band: int,
    out: RasterTile2D<P, M>,
) -> bool {
    &&& out.band == band
    &&& cloned(prev.meta, out.meta)
    &&& is_quotient_grid(quotient, prev.grid_array, next.grid_array, divisor, out.grid_array)
}

/// What an accumulator holds: the tiles that are still needed, the next band to produce and the
/// number of bands of a tile.
pub struct AccuView<P, M> {
    pub tiles: Seq<(u32, RasterTile2D<P, M>)>,
    pub output_band: int,
    pub num_bands: int,
}

impl<P, M> AccuView<P, M> {
    /// The place of the successor of the next band to produce.
    pub open spec fn successor(self) -> int {
        if self.output_band == 0 || self.output_band == self.num_bands - 1 {
            1
        } else {
            2
        }
    }

    /// The next band can be produced: there are bands left and its successor has arrived.
    pub open spec fn ready(self) -> bool {
        self.output_band < self.num_bands && self.successor() < self.tiles.len()
    }

    /// The accumulator after the next band was produced. The first tile is kept for the second
    /// band, whose predecessor it is.
    pub open spec fn advanced(self) -> Self {
        AccuView {
            tiles: if self.output_band == 0 {
                self.tiles
            } else {
                self.tiles.skip(1)
            },
            output_band: self.output_band + 1,
            num_bands: self.num_bands,
        }
    }

    /// The number that a tile gets that is added now.
    pub open spec fn next_number(self) -> int {
        if self.tiles.len() == 0 {
            0
        } else {
            self.tiles.last().0 + 1
        }
    }
}

/// Accumulates the bands of a tile and computes the first derivative.
pub struct FirstDerivativeAccu<P, M> {
    input_band_tiles: VecDeque<(u32, RasterTile2D<P, M>)>,
    output_band_idx: u32,
    num_bands: u32,
}

impl<P, M> View for FirstDerivativeAccu<P, M> {
    type V = AccuView<P, M>;

    closed spec fn view(&self) -> AccuView<P, M> {
        AccuView {
            tiles: self.input_band_tiles@,
            output_band: self.output_band_idx as int,
            num_bands: self.num_bands as int,
        }
    }
}

/// The grid of difference quotients of `prev` and `next`.
fn quotient_grid<P, F: Fn(&P, &P, u32) -> P>(
    quotient: &F,
    prev: &PixelGrid<P>,
    next: &PixelGrid<P>,
    divisor: u32,
) -> (out: PixelGrid<P>)
    requires
        prev.wf(),
        next.wf(),
        forall|p: &P, n: &P, d: u32| call_requires(*quotient, (p, n, d)),
    ensures
        is_quotient_grid(*quotient, *prev, *next, divisor, out),
{
    let rows: usize = prev.shape.shape_array[0];
    let columns: usize = prev.shape.shape_array[1];
    let mut data: Vec<Option<P>> = Vec::new();
    let mut y: usize = 0;
    assert(0 * columns == 0);
    while y < rows
        invariant
            y <= rows,
            rows == prev.shape.rows(),
            columns == prev.shape.columns(),
            prev.wf(),
            next.wf(),
            forall|p: &P, n: &P, d: u32| call_requires(*quotient, (p, n, d)),
            data@.len() == y * columns,
            forall|r: int, c: int|
                0 <= r < y && 0 <= c < columns ==> is_quotient_pixel(
                    *quotient,
                    prev.pixel(r, c),
                    next.pixel(r, c),
                    divisor,
                    #[trigger] data@[r * columns + c],
                ),
        decreases rows - y,
    {
        let mut x: usize = 0;
        while x < columns
            invariant
                x <= columns,
                y < rows,
                rows == prev.shape.rows(),
                columns == prev.shape.columns(),
                prev.wf(),
                next.wf(),
                forall|p: &P, n: &P, d: u32| call_requires(*quotient, (p, n, d)),
                data@.len() == y * columns + x,
                forall|r: int, c: int|
                    0 <= r < y && 0 <= c < columns || r == y && 0 <= c < x ==> is_quotient_pixel(
                        *quotient,
                        prev.pixel(r, c),
                        next.pixel(r, c),
                        divisor,
                        #[trigger] data@[r * columns + c],
                    ),
            decreases columns - x,
        {
            let value = match (prev.get_at_grid_index(y, x), next.get_at_grid_index(y, x)) {
                (Some(p), Some(n)) => Some(quotient(p, n, divisor)),
                _ => None,
            };
            let ghost before = data@;
            data.push(value);
            proof {
                assert forall|r: int, c: int|
                    0 <= r < y && 0 <= c < columns || r == y && 0 <= c < x
                        + 1 implies is_quotient_pixel(
                    *quotient,
                    prev.pixel(r, c),
                    next.pixel(r, c),
                    divisor,
                    #[trigger] data@[r * columns + c],
                ) by {
                    if r < y {
                        lemma_cell_in_bounds(r, c, y as int, columns as int);
                        assert(data@[r * columns + c] == before[r * columns + c]);
                    } else if c < x {
                        lemma_cell_in_bounds(r, c, rows as int, columns as int);
                        assert(data@[r * columns + c] == before[r * columns + c]);
                    }
                }
            }
            x += 1;
        }
        proof {
            assert((y + 1) * columns == y * columns + columns) by (nonlinear_arith);
        }
        y += 1;
    }
    PixelGrid { shape: prev.shape, data }
}

impl<P, M: Clone> FirstDerivativeAccu<P, M> {
    /// An empty accumulator for tiles with `num_bands` bands.
    pub fn new(num_bands: u32) -> (accu: Self)
        ensures
            accu@ == (AccuView::<P, M> {
                tiles: Seq::empty(),
                output_band: 0,
                num_bands: num_bands as int,
            }),
    {
        FirstDerivativeAccu { input_band_tiles: VecDeque::new(), output_band_idx: 0, num_bands }
    }

    /// Adds the next band of the current tile.
    pub fn add_tile(&mut self, tile: RasterTile2D<P, M>)
        requires
            old(self)@.next_number() <= u32::MAX,
        ensures
            final(self)@ == (AccuView {
                tiles: old(self)@.tiles.push((old(self)@.next_number() as u32, tile)),
                ..old(self)@
            }),
    {
        let len: usize = self.input_band_tiles.len();
        let next_idx: u32 = if len == 0 {
            0
        } else {
            self.input_band_tiles[len - 1].0 + 1
        };
        self.input_band_tiles.push_back((next_idx, tile));
    }

    /// Tries to produce the next band and gives `None` as long as more bands are needed. `quotient`
    /// computes one pixel from its predecessor, its successor and the divisor. Tiles that no later
    /// band needs are removed.
    pub fn next_band_tile<F: Fn(&P, &P, u32) -> P>(&mut self, quotient: F) -> (out: Option<
        RasterTile2D<P, M>,
    >)
        requires
            forall|p: &P, n: &P, d: u32| call_requires(quotient, (p, n, d)),
            forall|i: int|
                0 <= i < old(self)@.tiles.len() ==> (#[trigger] old(self)@.tiles[i]).1.grid_array.wf(),
        ensures
            out is Some <==> old(self)@.ready(),
            out matches Some(tile) ==> {
                let old_accu = old(self)@;
                &&& final(self)@ == old_accu.advanced()
                &&& is_derivative(
                    quotient,
                    old_accu.tiles[0].1,
                    old_accu.tiles[old_accu.successor()].1,
                    divisor_of(old_accu.output_band, old_accu.num_bands),
                    old_accu.output_band,
                    tile,
                )
            },
            out is None ==> final(self)@ == old(self)@,
    {
        if self.output_band_idx >= self.num_bands {
            return None;
        }
        let at_edge = self.output_band_idx == 0 || self.output_band_idx == self.num_bands - 1;
        let successor: usize = if at_edge {
            1
        } else {
            2
        };
        if self.input_band_tiles.len() <= successor {
            return None;
        }
        let divisor: u32 = if at_edge {
            1
        } else {
            2
        };
        assert(self@.tiles[0].1.grid_array.wf());
        assert(self@.tiles[self@.successor()].1.grid_array.wf());
        let prev = &self.input_band_tiles[0].1;
        let next = &self.input_band_tiles[successor].1;
        let out = RasterTile2D {
            band: self.output_band_idx,
            grid_array: quotient_grid(&quotient, &prev.grid_array, &next.grid_array, divisor),
            meta: prev.meta.clone(),
        };
        if self.output_band_idx != 0 {
            let _ = self.input_band_tiles.pop_front();
        }
        self.output_band_idx += 1;
        assert(self@.tiles =~= old(self)@.advanced().tiles);
        Some(out)
    }

    /// Forgets all tiles and starts over with the first band.
    pub fn reset(&mut self)
        ensures
            final(self)@ == (AccuView::<P, M> {
                tiles: Seq::empty(),
                output_band: 0,
                num_bands: old(self)@.num_bands,
            }),
    {
        self.input_band_tiles.clear();
        self.output_band_idx = 0;
    }
}

} // verus!
