//! What the accumulator and the stream do together: every band of every tile is emitted, once, in
//! order, and with the right neighbours.

use vstd::arithmetic::div_mod::{
    lemma_fundamental_div_mod, lemma_fundamental_div_mod_converse_mod, lemma_mod_bound,
    lemma_mod_multiples_vanish, lemma_small_mod,
};
use vstd::prelude::*;

use crate::band_neighborhood_aggregate::accu::{
    divisor_of, is_derivative, is_quotient_pixel, AccuView, FirstDerivativeAccu,
};
use crate::band_neighborhood_aggregate::stream::{
    action_view, empty_accu, event_view, state_view, Action, AggregateError, Event, State,
    StreamView,
};
use crate::raster::RasterTile2D;
use crate::util::clones::has_equal_clones;

verus! {

/// Computes an output band from its two neighbours, the divisor and the number of the band.
pub type Derive<P, M> = spec_fn(RasterTile2D<P, M>, RasterTile2D<P, M>, u32, int) -> RasterTile2D<
    P,
    M,
>;

/// The predecessor of a band within its tile; the first band stands in for its own.
pub open spec fn predecessor(band: int) -> int {
    if band == 0 {
        0
    } else {
        band - 1
    }
}

/// The successor of a band within its tile; the last band stands in for its own.
pub open spec fn successor(band: int, num_bands: int) -> int {
    if band == num_bands - 1 {
        band
    } else {
        band + 1
    }
}

/// An output band, computed from the neighbours among the bands of its tile.
pub open spec fn derivative_band<P, M>(
    bands: Seq<RasterTile2D<P, M>>,
    band: int,
    num_bands: int,
    derive: Derive<P, M>,
) -> RasterTile2D<P, M> {
    derive(
        bands[predecessor(band)],
        bands[successor(band, num_bands)],
        divisor_of(band, num_bands),
        band,
    )
}

/// How many bands can be produced once the first `consumed` bands of a tile have arrived: a band
/// has to wait for its successor.
pub open spec fn producible(consumed: int, num_bands: int) -> int {
    if consumed < 2 {
        0
    } else if consumed < num_bands {
        consumed - 1
    } else {
        num_bands
    }
}

/// The accumulator that has consumed `bands` and produced the first `produced` bands.
pub open spec fn accu_after<P, M>(
    bands: Seq<RasterTile2D<P, M>>,
    produced: int,
    num_bands: int,
) -> AccuView<P, M> {
    AccuView {
        tiles: Seq::new(bands.len(), |i: int| (i as u32, bands[i])).skip(predecessor(produced)),
        output_band: produced,
        num_bands,
    }
}

/// The accumulator with one more tile.
pub open spec fn with_tile<P, M>(accu: AccuView<P, M>, tile: RasterTile2D<P, M>) -> AccuView<P, M> {
    AccuView { tiles: accu.tiles.push((accu.next_number() as u32, tile)), ..accu }
}

/// A stream that waits for the next band of a tile of which it has consumed `bands`.
pub open spec fn waiting<P, M>(bands: Seq<RasterTile2D<P, M>>, num_bands: int) -> StreamView<P, M> {
    let produced = producible(bands.len() as int, num_bands);
    StreamView {
        input_band: bands.len() as int,
        output_band: produced,
        num_bands,
        state: State::ConsumeNext(accu_after(bands, produced, num_bands)),
    }
}

/// Something that the stream has returned, and how many items it had taken from its input by then.
pub struct Returned<P, M, E> {
    pub item: Result<RasterTile2D<P, M>, AggregateError<E>>,
    pub taken: int,
}

/// What an action returns.
pub open spec fn returned_by<P, M, E>(
    action: Action<AccuView<P, M>, RasterTile2D<P, M>, E>,
    taken: int,
) -> Seq<Returned<P, M, E>> {
    match action {
        Action::Ready(Some(item)) => seq![Returned { item, taken }],
        _ => Seq::empty(),
    }
}

/// Lets the worker produce bands until it needs more input. Gives what the stream returns and the
/// stream after that.
pub open spec fn drain<P, M, E>(
    stream: StreamView<P, M>,
    accu: AccuView<P, M>,
    taken: int,
    derive: Derive<P, M>,
) -> (Seq<Returned<P, M, E>>, StreamView<P, M>)
    decreases accu.num_bands - accu.output_band,
{
    if accu.ready() {
        let tile = derive(
            accu.tiles[0].1,
            accu.tiles[accu.successor()].1,
            divisor_of(accu.output_band, accu.num_bands),
            accu.output_band,
        );
        let event: Event<AccuView<P, M>, RasterTile2D<P, M>, E> = Event::NextBandTile(
            Ok((Some(tile), accu.advanced())),
        );
        let (paused, action) = stream.transition(event);
        let resumed = paused.transition::<E>(Event::Continue).0;
        let (later, after) = drain::<P, M, E>(resumed, accu.advanced(), taken, derive);
        (returned_by(action, taken) + later, after)
    } else {
        let event: Event<AccuView<P, M>, RasterTile2D<P, M>, E> = Event::NextBandTile(
            Ok((None, accu)),
        );
        let (after, action) = stream.transition(event);
        (returned_by(action, taken), after)
    }
}

/// Lets a stream that waits for input take tiles. Gives what it returns and the stream after that.
pub open spec fn consume<P, M, E>(
    stream: StreamView<P, M>,
    input: Seq<RasterTile2D<P, M>>,
    derive: Derive<P, M>,
) -> (Seq<Returned<P, M, E>>, StreamView<P, M>)
    decreases input.len(),
{
    if input.len() == 0 {
        (Seq::empty(), stream)
    } else {
        let (earlier, idle) = consume::<P, M, E>(stream, input.drop_last(), derive);
        let arrival: Event<AccuView<P, M>, RasterTile2D<P, M>, E> = Event::Input(
            Some(Ok(input.last())),
        );
        let (busy, action) = idle.transition(arrival);
        let accu = with_tile(action->RunAddTile_0, action->RunAddTile_1);
        let added: Event<AccuView<P, M>, RasterTile2D<P, M>, E> = Event::Accumulated(
            Ok((Ok(()), accu)),
        );
        let (later, after) = drain::<P, M, E>(
            busy.transition(added).0,
            accu,
            input.len() as int,
            derive,
        );
        (earlier + later, after)
    }
}

/// A stream that has not consumed anything.
pub open spec fn new_stream<P, M>(num_bands: int) -> StreamView<P, M> {
    StreamView {
        input_band: 0,
        output_band: 0,
        num_bands,
        state: State::Initial(empty_accu(num_bands)),
    }
}

/// A whole run of a new stream on an input that has tiles and then either ends or has an error.
/// Gives all that the stream returns until it is finished, and the finished stream.
pub open spec fn run<P, M, E>(
    num_bands: int,
    input: Seq<RasterTile2D<P, M>>,
    error: Option<E>,
    derive: Derive<P, M>,
) -> (Seq<Returned<P, M, E>>, StreamView<P, M>) {
    let started = new_stream::<P, M>(num_bands).transition::<E>(Event::Continue).0;
    let (first, idle) = drain::<P, M, E>(started, empty_accu(num_bands), 0, derive);
    let (tiles, waiting) = consume::<P, M, E>(idle, input, derive);
    let end: Event<AccuView<P, M>, RasterTile2D<P, M>, E> = Event::Input(
        match error {
            Some(error) => Some(Err(error)),
            None => None,
        },
    );
    let (finished, action) = waiting.transition(end);
    let taken: int = if error is Some {
        input.len() as int + 1
    } else {
        input.len() as int
    };
    (first + tiles + returned_by(action, taken), finished)
}

/// What a stream returns, without when it does so.
pub open spec fn items<P, M, E>(returned: Seq<Returned<P, M, E>>) -> Seq<
    Result<RasterTile2D<P, M>, AggregateError<E>>,
> {
    Seq::new(returned.len(), |i: int| returned[i].item)
}

/// How many bands can be produced from so many tiles of the input: all bands of complete tiles, and
/// what is producible of the last one.
pub open spec fn band_count(len: int, num_bands: int) -> int {
    len - len % num_bands + producible(len % num_bands, num_bands)
}

/// An output band, computed from the neighbours in its part of the input.
pub open spec fn output_band<P, M>(
    input: Seq<RasterTile2D<P, M>>,
    place: int,
    num_bands: int,
    derive: Derive<P, M>,
) -> RasterTile2D<P, M> {
    derivative_band(
        input.skip(place - place % num_bands),
        place % num_bands,
        num_bands,
        derive,
    )
}

/// How many tiles of the input are needed for an output band: all up to its successor.
pub open spec fn needed(place: int, num_bands: int) -> int {
    let band = place % num_bands;
    place - band + if band + 2 <= num_bands {
        band + 2
    } else {
        num_bands
    }
}

/// The output bands for an input, each as soon as it can be computed.
pub open spec fn output_bands<P, M, E>(
    input: Seq<RasterTile2D<P, M>>,
    num_bands: int,
    derive: Derive<P, M>,
) -> Seq<Returned<P, M, E>> {
    Seq::new(
        band_count(input.len() as int, num_bands) as nat,
        |place: int|
            Returned {
                item: Ok(output_band(input, place, num_bands, derive)),
                taken: needed(place, num_bands),
            },
    )
}

/// The accumulator can produce exactly the bands whose successors have arrived. It takes the right
/// neighbours, and afterwards it has produced one band more.
pub proof fn law_accu_produces_bands_in_order<P, M>(
    bands: Seq<RasterTile2D<P, M>>,
    produced: int,
    num_bands: int,
)
    requires
        2 <= num_bands <= u32::MAX,
        bands.len() <= num_bands,
        0 <= produced <= producible(bands.len() as int, num_bands),
    ensures
        ({
            let accu = accu_after(bands, produced, num_bands);
            &&& accu.ready() <==> produced < producible(bands.len() as int, num_bands)
            &&& accu.ready() ==> {
                &&& accu.tiles[0].1 == bands[predecessor(produced)]
                &&& accu.tiles[accu.successor()].1 == bands[successor(produced, num_bands)]
                &&& accu.advanced() == accu_after(bands, produced + 1, num_bands)
            }
        }),
{
    let accu = accu_after(bands, produced, num_bands);
    if accu.ready() {
        assert(accu.advanced().tiles =~= accu_after(bands, produced + 1, num_bands).tiles);
    }
}

/// A new tile is appended to those that the accumulator still holds.
proof fn lemma_with_tile<P, M>(
    bands: Seq<RasterTile2D<P, M>>,
    tile: RasterTile2D<P, M>,
    num_bands: int,
)
    requires
        2 <= num_bands <= u32::MAX,
        bands.len() < num_bands,
    ensures
        ({
            let produced = producible(bands.len() as int, num_bands);
            with_tile(accu_after(bands, produced, num_bands), tile) == accu_after(
                bands.push(tile),
                produced,
                num_bands,
            )
        }),
{
    let produced = producible(bands.len() as int, num_bands);
    let before = accu_after(bands, produced, num_bands);
    assert(before.next_number() == bands.len());
    assert(with_tile(before, tile).tiles =~= accu_after(
        bands.push(tile),
        produced,
        num_bands,
    ).tiles);
}

/// Draining produces all bands that are producible, and then the stream waits.
proof fn lemma_drain<P, M, E>(
    bands: Seq<RasterTile2D<P, M>>,
    produced: int,
    num_bands: int,
    taken: int,
    derive: Derive<P, M>,
)
    requires
        2 <= num_bands <= u32::MAX,
        0 < bands.len() <= num_bands,
        0 <= produced <= producible(bands.len() as int, num_bands),
    ensures
        ({
            let ready = producible(bands.len() as int, num_bands);
            let stream = StreamView {
                input_band: bands.len() as int,
                output_band: produced,
                num_bands,
                state: State::NextBandTile,
            };
            let (returned, after) = drain::<P, M, E>(
                stream,
                accu_after(bands, produced, num_bands),
                taken,
                derive,
            );
            &&& returned == Seq::new(
                (ready - produced) as nat,
                |i: int|
                    Returned::<P, M, E> {
                        item: Ok(derivative_band(bands, produced + i, num_bands, derive)),
                        taken,
                    },
            )
            &&& after == if bands.len() == num_bands {
                waiting(Seq::empty(), num_bands)
            } else {
                waiting(bands, num_bands)
            }
        }),
    decreases num_bands - produced,
{
    let ready = producible(bands.len() as int, num_bands);
    law_accu_produces_bands_in_order(bands, produced, num_bands);
    if produced < ready {
        lemma_drain::<P, M, E>(bands, produced + 1, num_bands, taken, derive);
        let expected = Seq::new(
            (ready - produced) as nat,
            |i: int|
                Returned::<P, M, E> {
                    item: Ok(derivative_band(bands, produced + i, num_bands, derive)),
                    taken,
                },
        );
        let later = Seq::new(
            (ready - produced - 1) as nat,
            |i: int|
                Returned::<P, M, E> {
                    item: Ok(derivative_band(bands, produced + 1 + i, num_bands, derive)),
                    taken,
                },
        );
        assert(seq![expected[0]] + later =~= expected);
    } else {
        assert(accu_after(Seq::<RasterTile2D<P, M>>::empty(), 0, num_bands).tiles =~= Seq::empty());
    }
}

/// Where a band of the tile after so many complete tiles is.
proof fn lemma_place(len: int, num_bands: int, band: int)
    requires
        0 <= len,
        0 < num_bands,
        0 <= band < num_bands,
    ensures
        0 <= len - len % num_bands <= len,
        (len - len % num_bands + band) % num_bands == band,
        (len - len % num_bands + num_bands) % num_bands == 0,
{
    let tiles = len / num_bands;
    lemma_fundamental_div_mod(len, num_bands);
    lemma_mod_bound(len, num_bands);
    assert(num_bands * tiles == tiles * num_bands) by (nonlinear_arith);
    assert((tiles + 1) * num_bands == tiles * num_bands + num_bands) by (nonlinear_arith);
    assert(0 <= num_bands * tiles) by (nonlinear_arith)
        requires
            0 <= tiles,
            0 < num_bands,
    ;
    lemma_fundamental_div_mod_converse_mod(
        len - len % num_bands + band,
        num_bands,
        tiles,
        band,
    );
    lemma_fundamental_div_mod_converse_mod(
        len - len % num_bands + num_bands,
        num_bands,
        tiles + 1,
        0,
    );
}

/// A tile that begins within complete tiles ends within them.
proof fn lemma_complete(place: int, len: int, num_bands: int)
    requires
        0 <= place < len - len % num_bands,
        0 < num_bands,
    ensures
        place - place % num_bands + num_bands <= len - len % num_bands,
        0 <= place - place % num_bands,
{
    lemma_fundamental_div_mod(len, num_bands);
    lemma_fundamental_div_mod(place, num_bands);
    lemma_mod_bound(place, num_bands);
    let tile = place / num_bands;
    let tiles = len / num_bands;
    assert(tile < tiles) by (nonlinear_arith)
        requires
            num_bands * tile <= place,
            place < num_bands * tiles,
            0 < num_bands,
    ;
    assert(num_bands * tile + num_bands <= num_bands * tiles) by (nonlinear_arith)
        requires
            tile < tiles,
            0 < num_bands,
    ;
    assert(0 <= num_bands * tile) by (nonlinear_arith)
        requires
            0 <= tile,
            0 < num_bands,
    ;
}

/// The places of bands that can be produced, and of their neighbours, are within the input.
proof fn lemma_neighbours_in_bounds(place: int, len: int, num_bands: int)
    requires
        2 <= num_bands,
        0 <= len,
        0 <= place < band_count(len, num_bands),
    ensures
        ({
            let first = place - place % num_bands;
            let band = place % num_bands;
            &&& 0 <= first
            &&& 0 <= band < num_bands
            &&& first + predecessor(band) < len
            &&& first + successor(band, num_bands) < len
            &&& place < len
        }),
{
    let start = len - len % num_bands;
    lemma_mod_bound(len, num_bands);
    lemma_mod_bound(place, num_bands);
    lemma_place(len, num_bands, 0);
    if place < start {
        lemma_complete(place, len, num_bands);
    } else {
        lemma_place(len, num_bands, place - start);
    }
}

/// A waiting stream returns the output bands of what it takes, and then it waits for the rest of the
/// tile that is not complete.
proof fn lemma_consume<P, M, E>(
    input: Seq<RasterTile2D<P, M>>,
    num_bands: int,
    derive: Derive<P, M>,
)
    requires
        2 <= num_bands <= u32::MAX,
    ensures
        consume::<P, M, E>(waiting(Seq::empty(), num_bands), input, derive) == (
            output_bands::<P, M, E>(input, num_bands, derive),
            waiting(input.skip(input.len() - input.len() as int % num_bands), num_bands),
        ),
    decreases input.len(),
{
    let len = input.len() as int;
    let all = output_bands::<P, M, E>(input, num_bands, derive);
    if len == 0 {
        lemma_small_mod(0, num_bands as nat);
        assert(all =~= Seq::empty());
        assert(input.skip(0) =~= Seq::empty());
    } else {
        let front = input.drop_last();
        let tile = input.last();
        let count = len - 1;
        let rest = count % num_bands;
        let start = count - rest;
        lemma_mod_bound(count, num_bands);
        lemma_place(count, num_bands, rest);
        lemma_consume::<P, M, E>(front, num_bands, derive);
        let bands = front.skip(start);
        let more = bands.push(tile);
        let produced = producible(rest, num_bands);
        lemma_with_tile(bands, tile, num_bands);
        lemma_drain::<P, M, E>(more, produced, num_bands, len, derive);
        assert(more =~= input.skip(start));
        if rest + 1 < num_bands {
            lemma_place(count, num_bands, rest + 1);
        } else {
            assert(input.skip(len) =~= Seq::empty());
        }
        let earlier = output_bands::<P, M, E>(front, num_bands, derive);
        let ready = producible(rest + 1, num_bands);
        let later = Seq::new(
            (ready - produced) as nat,
            |i: int|
                Returned::<P, M, E> {
                    item: Ok(derivative_band(more, produced + i, num_bands, derive)),
                    taken: len,
                },
        );
        assert forall|place: int| 0 <= place < all.len() implies #[trigger] all[place] == (earlier
            + later)[place] by {
            if place < earlier.len() {
                lemma_neighbours_in_bounds(place, count, num_bands);
                let first = place - place % num_bands;
                let band = place % num_bands;
                assert(front.skip(first)[predecessor(band)] == input.skip(first)[predecessor(
                    band,
                )]);
                assert(front.skip(first)[successor(band, num_bands)] == input.skip(
                    first,
                )[successor(band, num_bands)]);
            } else {
                lemma_place(count, num_bands, place - start);
            }
        }
        assert(all =~= earlier + later);
    }
}

/// What a whole run returns: all bands of complete tiles and what is producible of the last one, in
/// order, each once and as soon as its successor was taken. After that, it returns the error of the
/// input, or the error that the input has ended in the middle of a tile. It is finished then.
pub proof fn law_run_returns_every_band<P, M, E>(
    num_bands: int,
    input: Seq<RasterTile2D<P, M>>,
    error: Option<E>,
    derive: Derive<P, M>,
)
    requires
        2 <= num_bands <= u32::MAX,
    ensures
        ({
            let (returned, finished) = run::<P, M, E>(num_bands, input, error, derive);
            let len = input.len() as int;
            &&& returned == output_bands::<P, M, E>(input, num_bands, derive) + match error {
                Some(error) => seq![
                    Returned::<P, M, E> {
                        item: Err(AggregateError::Outside(error)),
                        taken: len + 1,
                    },
                ],
                None => if len % num_bands == 0 {
                    Seq::empty()
                } else {
                    seq![
                        Returned::<P, M, E> {
                            item: Err(AggregateError::UnexpectedEndOfStream),
                            taken: len,
                        },
                    ]
                },
            }
            &&& finished.state is Finished
        }),
{
    let len = input.len() as int;
    law_new_stream_waits::<P, M, E>(num_bands);
    lemma_consume::<P, M, E>(input, num_bands, derive);
    lemma_mod_bound(len, num_bands);
    lemma_place(len, num_bands, 0);
    let none = Seq::<Returned<P, M, E>>::empty();
    let bands = output_bands::<P, M, E>(input, num_bands, derive);
    assert(none + bands =~= bands);
}

/// No tile influences another one: complete tiles with something after them give what they give
/// alone, and then what comes after them gives alone.
pub proof fn law_tiles_do_not_touch<P, M, E>(
    num_bands: int,
    first: Seq<RasterTile2D<P, M>>,
    second: Seq<RasterTile2D<P, M>>,
    error: Option<E>,
    derive: Derive<P, M>,
)
    requires
        2 <= num_bands <= u32::MAX,
        first.len() as int % num_bands == 0,
    ensures
        items(run::<P, M, E>(num_bands, first + second, error, derive).0) == items(
            run::<P, M, E>(num_bands, first, None, derive).0,
        ) + items(run::<P, M, E>(num_bands, second, error, derive).0),
{
    let both = first + second;
    let len = first.len() as int;
    law_run_returns_every_band(num_bands, both, error, derive);
    law_run_returns_every_band::<P, M, E>(num_bands, first, None, derive);
    law_run_returns_every_band(num_bands, second, error, derive);
    let all = run::<P, M, E>(num_bands, both, error, derive).0;
    let one = run::<P, M, E>(num_bands, first, None, derive).0;
    let other = run::<P, M, E>(num_bands, second, error, derive).0;
    lemma_after_complete(len, second.len() as int, num_bands);
    assert forall|place: int| 0 <= place < all.len() implies #[trigger] items(all)[place] == (items(
        one,
    ) + items(other))[place] by {
        if place < len {
            lemma_neighbours_in_bounds(place, len, num_bands);
            let start = place - place % num_bands;
            let band = place % num_bands;
            assert(first.skip(start)[predecessor(band)] == both.skip(start)[predecessor(band)]);
            assert(first.skip(start)[successor(band, num_bands)] == both.skip(start)[successor(
                band,
                num_bands,
            )]);
        } else if place - len < band_count(second.len() as int, num_bands) {
            lemma_after_complete(len, place - len, num_bands);
            let start = (place - len) - (place - len) % num_bands;
            assert(both.skip(len + start) =~= second.skip(start)) by {
                lemma_neighbours_in_bounds(place - len, second.len() as int, num_bands);
            }
        }
    }
    assert(items(all) =~= items(one) + items(other));
}

/// After complete tiles, places are counted as if there were none.
proof fn lemma_after_complete(len: int, place: int, num_bands: int)
    requires
        0 < num_bands,
        len % num_bands == 0,
    ensures
        (len + place) % num_bands == place % num_bands,
{
    lemma_fundamental_div_mod(len, num_bands);
    lemma_mod_multiples_vanish(len / num_bands, place, num_bands);
}

/// For complete tiles the stream returns one band for each band that it takes. It has the number of
/// the band, it is the derivative of its neighbours in the same tile, and it keeps what else belongs
/// to its tile: the time and the position.
pub proof fn law_every_band_has_its_derivative<P, M: Clone, E, F: Fn(&P, &P, u32) -> P>(
    num_bands: int,
    input: Seq<RasterTile2D<P, M>>,
    derive: Derive<P, M>,
    quotient: F,
    place: int,
)
    requires
        2 <= num_bands <= u32::MAX,
        input.len() as int % num_bands == 0,
        computes(derive, quotient),
        is_tiled(input, num_bands),
        0 <= place < input.len(),
    ensures
        ({
            let returned = items(run::<P, M, E>(num_bands, input, None, derive).0);
            let first = place - place % num_bands;
            let band = place % num_bands;
            &&& returned.len() == input.len()
            &&& returned[place] matches Ok(tile) && {
                &&& tile.band == band
                &&& is_derivative(
                    quotient,
                    input[first + predecessor(band)],
                    input[first + successor(band, num_bands)],
                    divisor_of(band, num_bands),
                    band,
                    tile,
                )
                &&& cloned(input[place].meta, tile.meta)
                &&& has_equal_clones::<M>() ==> tile.meta == input[place].meta
            }
        }),
{
    law_run_returns_every_band::<P, M, E>(num_bands, input, None, derive);
    lemma_neighbours_in_bounds(place, input.len() as int, num_bands);
    let first = place - place % num_bands;
    let band = place % num_bands;
    let prev = input[first + predecessor(band)];
    let next = input[first + successor(band, num_bands)];
    assert(input.skip(first)[predecessor(band)] == prev);
    assert(input.skip(first)[successor(band, num_bands)] == next);
    lemma_place(place, num_bands, predecessor(band));
    assert(is_derivative(
        quotient,
        prev,
        next,
        divisor_of(band, num_bands),
        band,
        derive(prev, next, divisor_of(band, num_bands), band),
    ));
}

/// The bands are computed as the accumulator does it.
pub open spec fn computes<P, M: Clone, F: Fn(&P, &P, u32) -> P>(
    derive: Derive<P, M>,
    quotient: F,
) -> bool {
    forall|prev: RasterTile2D<P, M>, next: RasterTile2D<P, M>, divisor: u32, band: int|
        prev.grid_array.wf() && next.grid_array.wf() && 0 <= band <= u32::MAX ==> is_derivative(
            quotient,
            prev,
            next,
            divisor,
            band,
            #[trigger] derive(prev, next, divisor, band),
        )
}

/// What belongs to a tile belongs to all of its bands.
pub open spec fn is_tiled<P, M>(input: Seq<RasterTile2D<P, M>>, num_bands: int) -> bool {
    &&& forall|i: int| 0 <= i < input.len() ==> (#[trigger] input[i]).grid_array.wf()
    &&& forall|i: int, j: int|
        0 <= i < input.len() && 0 <= j < input.len() && i - i % num_bands == j - j % num_bands
            ==> (#[trigger] input[i]).meta == (#[trigger] input[j]).meta
}

/// A band is returned as soon as its successor is there, and not later: for a band of the tile after
/// `tiles` complete ones, all of them were taken and two bands more than its number, or the whole
/// tile if it has not that many.
pub proof fn law_bands_come_as_soon_as_possible<P, M, E>(
    num_bands: int,
    input: Seq<RasterTile2D<P, M>>,
    error: Option<E>,
    derive: Derive<P, M>,
    tiles: int,
    band: int,
)
    requires
        2 <= num_bands <= u32::MAX,
        0 <= tiles,
        0 <= band < num_bands,
        tiles * num_bands + num_bands <= input.len(),
    ensures
        ({
            let returned = run::<P, M, E>(num_bands, input, error, derive).0;
            let place = tiles * num_bands + band;
            &&& 0 <= place < returned.len()
            &&& returned[place].item == Ok::<RasterTile2D<P, M>, AggregateError<E>>(
                derivative_band(input.skip(tiles * num_bands), band, num_bands, derive),
            )
            &&& returned[place].taken == tiles * num_bands + if band + 2 <= num_bands {
                band + 2
            } else {
                num_bands
            }
        }),
{
    let len = input.len() as int;
    let place = tiles * num_bands + band;
    law_run_returns_every_band(num_bands, input, error, derive);
    assert(0 <= tiles * num_bands) by (nonlinear_arith)
        requires
            0 <= tiles,
            2 <= num_bands,
    ;
    lemma_fundamental_div_mod_converse_mod(place, num_bands, tiles, band);
    lemma_fundamental_div_mod(len, num_bands);
    lemma_mod_bound(len, num_bands);
    assert(tiles < len / num_bands) by (nonlinear_arith)
        requires
            tiles * num_bands + num_bands <= len,
            len == num_bands * (len / num_bands) + len % num_bands,
            len % num_bands < num_bands,
            0 < num_bands,
    ;
    assert(tiles * num_bands + num_bands <= num_bands * (len / num_bands)) by (nonlinear_arith)
        requires
            tiles < len / num_bands,
            0 < num_bands,
    ;
}

/// An error of the input is returned once, after what can be computed from the tiles in front of it,
/// and nothing is returned or taken after it.
pub proof fn law_errors_of_the_input_come_last<P, M, E>(
    num_bands: int,
    input: Seq<RasterTile2D<P, M>>,
    error: E,
    derive: Derive<P, M>,
)
    requires
        2 <= num_bands <= u32::MAX,
    ensures
        ({
            let (returned, finished) = run::<P, M, E>(num_bands, input, Some(error), derive);
            let nothing = Action::<AccuView<P, M>, RasterTile2D<P, M>, E>::Ready(None);
            &&& returned.len() > 0
            &&& returned.drop_last() == output_bands::<P, M, E>(input, num_bands, derive)
            &&& forall|i: int|
                0 <= i < returned.len() - 1 ==> (#[trigger] returned[i]).item is Ok
            &&& returned.last() == (Returned::<P, M, E> {
                item: Err(AggregateError::Outside(error)),
                taken: input.len() as int + 1,
            })
            &&& finished.transition::<E>(Event::Continue) == (finished, nothing)
        }),
{
    law_run_returns_every_band(num_bands, input, Some(error), derive);
    let (returned, finished) = run::<P, M, E>(num_bands, input, Some(error), derive);
    assert(returned.drop_last() =~= output_bands::<P, M, E>(input, num_bands, derive));
    law_finished_stays_finished::<P, M, E>(finished);
}

/// The input must not end in the middle of a tile: if it does, this is an error, and otherwise the
/// stream ends, too. It is finished either way.
pub proof fn law_input_ends_after_complete_tiles<P, M, E>(stream: StreamView<P, M>)
    ensures
        ({
            let (after, action) = stream.transition::<E>(Event::Input(None));
            &&& action == Action::<AccuView<P, M>, RasterTile2D<P, M>, E>::Ready(
                if 0 < stream.input_band < stream.num_bands {
                    Some(Err(AggregateError::UnexpectedEndOfStream))
                } else {
                    None
                },
            )
            &&& after.state is Finished
        }),
{
}

/// A new stream first finds out that it has nothing to produce and then waits for the first band.
pub proof fn law_new_stream_waits<P, M, E>(num_bands: int)
    requires
        2 <= num_bands,
    ensures
        ({
            let stream = new_stream::<P, M>(num_bands);
            let accu = empty_accu::<P, M>(num_bands);
            let nothing: Event<AccuView<P, M>, RasterTile2D<P, M>, E> = Event::NextBandTile(
                Ok((None, accu)),
            );
            let (busy, action) = stream.transition::<E>(Event::Continue);
            &&& action == Action::<AccuView<P, M>, RasterTile2D<P, M>, E>::RunNextBandTile(accu)
            &&& !accu.ready()
            &&& busy.transition(nothing) == (
                waiting::<P, M>(Seq::empty(), num_bands),
                Action::<AccuView<P, M>, RasterTile2D<P, M>, E>::PollInput,
            )
        }),
{
    assert(accu_after(Seq::<RasterTile2D<P, M>>::empty(), 0, num_bands).tiles =~= Seq::empty());
}

/// Once the stream has returned its end or an error, it stays finished and has nothing more to
/// return.
pub proof fn law_finished_stays_finished<P, M, E>(stream: StreamView<P, M>)
    requires
        stream.state is Finished,
    ensures
        stream.transition::<E>(Event::Continue) == (
            stream,
            Action::<AccuView<P, M>, RasterTile2D<P, M>, E>::Ready(None),
        ),
{
}

/// Whatever ends the stream leaves it finished: an error in any place and the end of the input.
pub proof fn law_errors_finish_the_stream<P, M, E>(
    stream: StreamView<P, M>,
    event: Event<AccuView<P, M>, RasterTile2D<P, M>, E>,
)
    requires
        stream.expects(event),
    ensures
        ({
            let (after, action) = stream.transition(event);
            action matches Action::Ready(item) && !(item matches Some(Ok(_))) ==> after.state is Finished
        }),
{
}

/// The divisor of a band is the distance of the two bands that it is computed from, however many
/// bands there are. These two are the band itself and those next to it, as far as the tile has them.
pub proof fn law_divisor_is_the_distance(band: int, num_bands: int)
    requires
        2 <= num_bands,
        0 <= band < num_bands,
    ensures
        divisor_of(band, num_bands) == successor(band, num_bands) - predecessor(band),
        forall|other: int|
            predecessor(band) <= other <= successor(band, num_bands) <==> 0 <= other < num_bands
                && -1 <= #[trigger] (other - band) <= 1,
{
}

/// An accumulator that holds consecutive bands from the lower neighbour on divides by the distance of
/// the two bands that it takes, which are next to the band that is due or this band itself. After that
/// it begins with the lower neighbour of the next band.
pub proof fn law_accu_divides_by_the_distance<P, M>(accu: AccuView<P, M>)
    requires
        2 <= accu.num_bands,
        0 <= accu.output_band < accu.num_bands,
        accu.ready(),
        forall|i: int|
            0 <= i < accu.tiles.len() ==> (#[trigger] accu.tiles[i]).0 as int == predecessor(
                accu.output_band,
            ) + i,
    ensures
        ({
            let low = accu.tiles[0].0 as int;
            let high = accu.tiles[accu.successor()].0 as int;
            &&& divisor_of(accu.output_band, accu.num_bands) == high - low
            &&& low == if accu.output_band == 0 {
                0
            } else {
                accu.output_band - 1
            }
            &&& high == if accu.output_band == accu.num_bands - 1 {
                accu.output_band
            } else {
                accu.output_band + 1
            }
            &&& accu.advanced().output_band == accu.output_band + 1
            &&& accu.advanced().tiles[0].0 == accu.output_band
            &&& forall|i: int|
                0 <= i < accu.advanced().tiles.len() ==> (#[trigger] accu.advanced().tiles[i]).0
                    == accu.output_band + i
        }),
{
    let after = accu.advanced();
    assert forall|i: int| 0 <= i < after.tiles.len() implies (#[trigger] after.tiles[i]).0
        == accu.output_band + i by {
        if accu.output_band > 0 {
            assert(after.tiles[i] == accu.tiles[i + 1]);
        }
    }
    assert(accu.tiles[accu.successor()].0 as int == predecessor(accu.output_band)
        + accu.successor());
    assert(accu.tiles[0].0 as int == predecessor(accu.output_band));
}

/// With an exact quotient, what the stream returns times the distance of the neighbours is the
/// difference of their values: between the bands on both sides of an inner band, and between a band
/// at an edge and the one next to it. A pixel has a value exactly if both neighbours have one. The
/// result has the number of the band, and everything else is that of the lower neighbour.
pub proof fn law_derivative_is_the_difference_quotient<M: Clone, E, F: Fn(&i64, &i64, u32) -> i64>(
    num_bands: int,
    input: Seq<RasterTile2D<i64, M>>,
    derive: Derive<i64, M>,
    quotient: F,
    place: int,
    y: int,
    x: int,
)
    requires
        2 <= num_bands <= u32::MAX,
        input.len() as int % num_bands == 0,
        computes(derive, quotient),
        is_tiled(input, num_bands),
        0 <= place < input.len(),
        0 <= y < input[place].grid_array.shape.rows(),
        0 <= x < input[place].grid_array.shape.columns(),
        forall|i: int, j: int|
            0 <= i < input.len() && 0 <= j < input.len() && i - i % num_bands == j - j % num_bands
                ==> (#[trigger] input[i]).grid_array.shape == (#[trigger] input[j]).grid_array.shape,
        forall|prev: i64, next: i64, divisor: u32, out: i64| #[trigger]
            call_ensures(quotient, (&prev, &next, divisor), out) ==> out * divisor == next - prev,
    ensures
        ({
            let returned = items(run::<i64, M, E>(num_bands, input, None, derive).0);
            let band = place % num_bands;
            let low = if band == 0 {
                place
            } else {
                place - 1
            };
            let high = if band == num_bands - 1 {
                place
            } else {
                place + 1
            };
            let prev = input[low].grid_array.pixel(y, x);
            let next = input[high].grid_array.pixel(y, x);
            &&& returned.len() == input.len()
            &&& returned[place] matches Ok(tile) && {
                let out = tile.grid_array.pixel(y, x);
                &&& tile.band == band
                &&& cloned(input[low].meta, tile.meta)
                &&& tile.grid_array.shape == input[place].grid_array.shape
                &&& out is Some <==> prev is Some && next is Some
                &&& prev is Some && next is Some ==> out->0 * (high - low) == next->0 - prev->0
            }
        }),
{
    law_every_band_has_its_derivative::<i64, M, E, F>(num_bands, input, derive, quotient, place);
    lemma_neighbours_in_bounds(place, input.len() as int, num_bands);
    let first = place - place % num_bands;
    let band = place % num_bands;
    lemma_place(place, num_bands, predecessor(band));
    lemma_place(place, num_bands, successor(band, num_bands));
    let low = first + predecessor(band);
    let high = first + successor(band, num_bands);
    assert(input[low].grid_array.shape == input[place].grid_array.shape);
    let returned = items(run::<i64, M, E>(num_bands, input, None, derive).0);
    let tile = returned[place]->Ok_0;
    assert(is_quotient_pixel(
        quotient,
        input[low].grid_array.pixel(y, x),
        input[high].grid_array.pixel(y, x),
        divisor_of(band, num_bands),
        tile.grid_array.pixel(y, x),
    ));
}

/// Whatever goes wrong outside is returned as it is, and it finishes the stream.
pub proof fn law_errors_are_returned<P, M, E>(
    stream: StreamView<P, M>,
    accu: AccuView<P, M>,
    error: E,
)
    ensures
        ({
            let returned = Action::<AccuView<P, M>, RasterTile2D<P, M>, E>::Ready(
                Some(Err(AggregateError::Outside(error))),
            );
            let finished = StreamView { state: State::Finished, ..stream };
            &&& stream.transition(Event::NextBandTile(Err(error))) == (finished, returned)
            &&& stream.transition(Event::Input(Some(Err(error)))) == (finished, returned)
            &&& stream.transition(Event::Accumulated(Ok((Err(error), accu)))) == (
                finished,
                returned,
            )
            &&& stream.transition(Event::Accumulated(Err(error))) == (finished, returned)
        }),
{
}

/// As long as nothing is ready, nothing changes: the stream is pending, and when it is polled again,
/// it polls what it has polled before. A stream that is in no valid state says so and is finished.
pub proof fn law_pending_streams_poll_again<P, M, E>(stream: StreamView<P, M>)
    ensures
        stream.transition::<E>(Event::Pending) == (
            stream,
            Action::<AccuView<P, M>, RasterTile2D<P, M>, E>::Pending,
        ),
        stream.state is NextBandTile ==> stream.transition::<E>(Event::Continue) == (
            stream,
            Action::<AccuView<P, M>, RasterTile2D<P, M>, E>::PollNextBandTile,
        ),
        stream.state is ConsumeNext ==> stream.transition::<E>(Event::Continue) == (
            stream,
            Action::<AccuView<P, M>, RasterTile2D<P, M>, E>::PollInput,
        ),
        stream.state is Accumulate ==> stream.transition::<E>(Event::Continue) == (
            stream,
            Action::<AccuView<P, M>, RasterTile2D<P, M>, E>::PollAddTile,
        ),
        stream.state is Invalid ==> stream.transition::<E>(Event::Continue) == (
            StreamView { state: State::Finished, ..stream },
            Action::<AccuView<P, M>, RasterTile2D<P, M>, E>::Ready(
                Some(Err(AggregateError::InvalidState)),
            ),
        ),
{
}

/// The tiles of an accumulator are numbered from zero on, without gaps.
pub proof fn law_tiles_are_numbered<P, M>(accu: AccuView<P, M>)
    ensures
        accu.tiles.len() == 0 ==> accu.next_number() == 0,
        accu.tiles.len() > 0 ==> accu.next_number() == accu.tiles[accu.tiles.len() - 1].0 + 1,
        empty_accu::<P, M>(accu.num_bands).tiles.len() == 0,
        empty_accu::<P, M>(accu.num_bands).output_band == 0,
        empty_accu::<P, M>(accu.num_bands).num_bands == accu.num_bands,
{
}

/// What is known of a state, of what has happened and of what is to be done says which of them it is.
pub proof fn law_nothing_is_mistaken<P, M, T, E>(
    state: State<FirstDerivativeAccu<P, M>>,
    event: Event<FirstDerivativeAccu<P, M>, T, E>,
    action: Action<FirstDerivativeAccu<P, M>, T, E>,
)
    ensures
        match state {
            State::Invalid => state_view(state) is Invalid,
            State::Initial(accu) => state_view(state) == State::Initial(accu@),
            State::NextBandTile => state_view(state) is NextBandTile,
            State::ConsumeNext(accu) => state_view(state) == State::ConsumeNext(accu@),
            State::Accumulate => state_view(state) is Accumulate,
            State::Finished => state_view(state) is Finished,
        },
        match event {
            Event::Continue => event_view(event) is Continue,
            Event::Pending => event_view(event) is Pending,
            Event::NextBandTile(Ok((tile, accu))) => event_view(event) == Event::<
                AccuView<P, M>,
                T,
                E,
            >::NextBandTile(Ok((tile, accu@))),
            Event::NextBandTile(Err(error)) => event_view(event) == Event::<
                AccuView<P, M>,
                T,
                E,
            >::NextBandTile(Err(error)),
            Event::Input(item) => event_view(event) == Event::<AccuView<P, M>, T, E>::Input(item),
            Event::Accumulated(Ok((result, accu))) => event_view(event) == Event::<
                AccuView<P, M>,
                T,
                E,
            >::Accumulated(Ok((result, accu@))),
            Event::Accumulated(Err(error)) => event_view(event) == Event::<
                AccuView<P, M>,
                T,
                E,
            >::Accumulated(Err(error)),
        },
        match action {
            Action::RunNextBandTile(accu) => action_view(action) == Action::<
                AccuView<P, M>,
                T,
                E,
            >::RunNextBandTile(accu@),
            Action::PollNextBandTile => action_view(action) is PollNextBandTile,
            Action::PollInput => action_view(action) is PollInput,
            Action::RunAddTile(accu, tile) => action_view(action) == Action::<
                AccuView<P, M>,
                T,
                E,
            >::RunAddTile(accu@, tile),
            Action::PollAddTile => action_view(action) is PollAddTile,
            Action::Pending => action_view(action) is Pending,
            Action::Ready(item) => action_view(action) == Action::<AccuView<P, M>, T, E>::Ready(
                item,
            ),
        },
{
}

} // verus!
