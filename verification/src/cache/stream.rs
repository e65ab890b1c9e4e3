//! The decisions of the stream that reads tiles from the cache.
//!
//! The tiles are decompressed by worker threads. The stream itself only starts and polls them; which
//! tile is next and when the stream ends is decided here.

use std::sync::Arc;

use vstd::prelude::*;

use tokio::task::JoinError;

use crate::cache::container::share;
use crate::cache::error::CacheError;
use crate::cache::tile::CompressedRasterTile2D;

verus! {

/// The tiles of a stream and the query that they are read for.
pub struct CacheTileStreamInner<T, M, Q> {
    data: Arc<Vec<CompressedRasterTile2D<T, M>>>,
    query: Q,
    idx: usize,
}

/// What a stream reads from: the tiles, the query and the place of the first tile to consider.
pub struct TilesView<T, M, Q> {
    pub tiles: Seq<CompressedRasterTile2D<T, M>>,
    pub query: Q,
    pub idx: int,
}

impl<T, M, Q> View for CacheTileStreamInner<T, M, Q> {
    type V = TilesView<T, M, Q>;

    closed spec fn view(&self) -> TilesView<T, M, Q> {
        TilesView { tiles: self.data@, query: self.query, idx: self.idx as int }
    }
}

impl<T, M, Q> TilesView<T, M, Q> {
    pub open spec fn wf(self) -> bool {
        0 <= self.idx <= self.tiles.len()
    }

    /// The tile is found to be within the bounds and the time of the query.
    pub open spec fn hit<F: Fn(&M, &Q) -> bool, G: Fn(&M, &Q) -> bool>(
        self,
        in_bounds: F,
        in_time: G,
        i: int,
    ) -> bool {
        &&& call_ensures(in_bounds, (&self.tiles[i].meta, &self.query), true)
        &&& call_ensures(in_time, (&self.tiles[i].meta, &self.query), true)
    }

    /// The tile is found to be outside of the bounds of the query, or else outside of its time.
    pub open spec fn miss<F: Fn(&M, &Q) -> bool, G: Fn(&M, &Q) -> bool>(
        self,
        in_bounds: F,
        in_time: G,
        i: int,
    ) -> bool {
        ||| call_ensures(in_bounds, (&self.tiles[i].meta, &self.query), false)
        ||| call_ensures(in_bounds, (&self.tiles[i].meta, &self.query), true) && call_ensures(
            in_time,
            (&self.tiles[i].meta, &self.query),
            false,
        )
    }

    /// `next` is the first tile to consider that is a hit, if there is one.
    pub open spec fn is_next<F: Fn(&M, &Q) -> bool, G: Fn(&M, &Q) -> bool>(
        self,
        in_bounds: F,
        in_time: G,
        next: Option<usize>,
    ) -> bool {
        match next {
            Some(next) => {
                &&& self.idx <= next < self.tiles.len()
                &&& self.hit(in_bounds, in_time, next as int)
                &&& forall|i: int| self.idx <= i < next ==> #[trigger] self.miss(in_bounds, in_time, i)
            },
            None => forall|i: int|
                self.idx <= i < self.tiles.len() ==> #[trigger] self.miss(in_bounds, in_time, i),
        }
    }

    /// All tiles have been considered.
    pub open spec fn terminated(self) -> bool {
        self.idx >= self.tiles.len()
    }
}

impl<T, M, Q> CacheTileStreamInner<T, M, Q> {
    pub fn new(data: Arc<Vec<CompressedRasterTile2D<T, M>>>, query: Q) -> (inner: Self)
        ensures
            inner@ == (TilesView { tiles: data@, query, idx: 0 }),
    {
        CacheTileStreamInner { data, query, idx: 0 }
    }

    /// The place of the first tile, from the current place on, that intersects the query. The
    /// current place stays until this tile has been read.
    pub fn next_idx<F: Fn(&M, &Q) -> bool, G: Fn(&M, &Q) -> bool>(
        &self,
        in_bounds: F,
        in_time: G,
    ) -> (next: Option<usize>)
        requires
            forall|meta: &M, query: &Q| call_requires(in_bounds, (meta, query)),
            forall|meta: &M, query: &Q| call_requires(in_time, (meta, query)),
        ensures
            self@.is_next(in_bounds, in_time, next),
    {
        let mut i: usize = self.idx;
        while i < self.data.len()
            invariant
                self@.idx <= i,
                forall|meta: &M, query: &Q| call_requires(in_bounds, (meta, query)),
                forall|meta: &M, query: &Q| call_requires(in_time, (meta, query)),
                forall|j: int| self@.idx <= j < i ==> #[trigger] self@.miss(in_bounds, in_time, j),
            decreases self.data.len() - i,
        {
            let meta = &self.data[i].meta;
            if in_bounds(meta, &self.query) && in_time(meta, &self.query) {
                return Some(i);
            }
            assert(self@.miss(in_bounds, in_time, i as int));
            i += 1;
        }
        None
    }

    /// Moves on to the tile after the one at `place`.
    fn move_past(&mut self, place: usize)
        requires
            place < old(self)@.tiles.len(),
        ensures
            final(self)@ == (TilesView { idx: place + 1, ..old(self)@ }),
    {
        assert(place < self.data.len());
        self.idx = place + 1;
    }

    pub fn data_arc(&self) -> (data: Arc<Vec<CompressedRasterTile2D<T, M>>>)
        ensures
            data@ == self@.tiles,
    {
        share(&self.data)
    }

    pub fn len(&self) -> (len: usize)
        ensures
            len == self@.tiles.len(),
    {
        self.data.len()
    }

    /// How many tiles there are from the current place on.
    pub fn remaining(&self) -> (count: usize)
        requires
            self@.wf(),
        ensures
            count == self@.tiles.len() - self@.idx,
    {
        self.len() - self.idx
    }

    pub fn terminated(&self) -> (terminated: bool)
        ensures
            terminated == self@.terminated(),
    {
        self.idx >= self.len()
    }
}

/// What to do when the stream is polled.
#[derive(Clone, Copy, Debug, PartialEq, Eq)]
pub enum TileStreamAction {
    /// Let a worker decompress the tile at this place, then poll the worker.
    StartDecompression(usize),
    /// Poll the worker that decompresses a tile.
    PollDecompression,
    /// The stream has ended.
    End,
}

/// Our own tile stream that "owns" the data (more precisely a reference to the data)
pub struct CacheTileStream<T, M, Q> {
    inner: CacheTileStreamInner<T, M, Q>,
    decompressing: Option<usize>,
}

/// What a stream knows: its tiles and the place of the one that a worker decompresses.
pub struct TileStreamView<T, M, Q> {
    pub inner: TilesView<T, M, Q>,
    pub decompressing: Option<usize>,
}

impl<T, M, Q> View for CacheTileStream<T, M, Q> {
    type V = TileStreamView<T, M, Q>;

    closed spec fn view(&self) -> TileStreamView<T, M, Q> {
        TileStreamView { inner: self.inner@, decompressing: self.decompressing }
    }
}

impl<T, M, Q> TileStreamView<T, M, Q> {
    /// The tile that is decompressed is one that was still to be considered.
    pub open spec fn wf(self) -> bool {
        &&& self.inner.wf()
        &&& self.decompressing matches Some(place) ==> self.inner.idx <= place
            < self.inner.tiles.len()
    }

    pub open spec fn terminated(self) -> bool {
        self.decompressing is None && self.inner.terminated()
    }

    /// The stream after a worker was started for the tile at `place`.
    pub open spec fn started(self, place: usize) -> Self {
        TileStreamView { decompressing: Some(place), ..self }
    }

    /// The stream after the tile that was decompressed has become an item. It goes on with the tile
    /// after it.
    pub open spec fn delivered(self) -> Self {
        TileStreamView {
            inner: TilesView { idx: self.decompressing->0 + 1, ..self.inner },
            decompressing: None,
        }
    }

    /// `action` is what to do, and `after` is the stream then: an unfinished decompression is
    /// polled, otherwise the next tile that intersects the query is decompressed.
    pub open spec fn is_poll<F: Fn(&M, &Q) -> bool, G: Fn(&M, &Q) -> bool>(
        self,
        in_bounds: F,
        in_time: G,
        action: TileStreamAction,
        after: Self,
    ) -> bool {
        match action {
            TileStreamAction::PollDecompression => self.decompressing is Some && after == self,
            TileStreamAction::StartDecompression(next) => {
                &&& self.decompressing is None
                &&& self.inner.is_next(in_bounds, in_time, Some(next))
                &&& after == self.started(next)
            },
            TileStreamAction::End => {
                &&& self.decompressing is None
                &&& self.inner.is_next(in_bounds, in_time, None)
                &&& after == self
            },
        }
    }
}

impl<T, M, Q> CacheTileStream<T, M, Q> {
    pub fn new(data: Arc<Vec<CompressedRasterTile2D<T, M>>>, query: Q) -> (stream: Self)
        ensures
            stream@ == (TileStreamView {
                inner: TilesView { tiles: data@, query, idx: 0 },
                decompressing: None,
            }),
            stream@.wf(),
    {
        CacheTileStream { inner: CacheTileStreamInner::new(data, query), decompressing: None }
    }

    pub fn element_count(&self) -> (count: usize)
        ensures
            count == self@.inner.tiles.len(),
    {
        self.inner.len()
    }

    /// The tiles, for the worker that decompresses one of them.
    pub fn data_arc(&self) -> (data: Arc<Vec<CompressedRasterTile2D<T, M>>>)
        ensures
            data@ == self@.inner.tiles,
    {
        self.inner.data_arc()
    }

    /// The stream has ended for good.
    pub fn is_terminated(&self) -> (terminated: bool)
        ensures
            terminated == self@.terminated(),
    {
        self.decompressing.is_none() && self.inner.terminated()
    }

    /// Decides what to do when the stream is polled.
    pub fn poll_next<F: Fn(&M, &Q) -> bool, G: Fn(&M, &Q) -> bool>(
        &mut self,
        in_bounds: F,
        in_time: G,
    ) -> (action: TileStreamAction)
        requires
            forall|meta: &M, query: &Q| call_requires(in_bounds, (meta, query)),
            forall|meta: &M, query: &Q| call_requires(in_time, (meta, query)),
        ensures
            old(self)@.is_poll(in_bounds, in_time, action, final(self)@),
            old(self)@.wf() ==> final(self)@.wf(),
    {
        if self.is_terminated() {
            return TileStreamAction::End;
        }
        if self.decompressing.is_some() {
            return TileStreamAction::PollDecompression;
        }
        match self.inner.next_idx(in_bounds, in_time) {
            Some(next) => {
                self.decompressing = Some(next);
                TileStreamAction::StartDecompression(next)
            },
            None => TileStreamAction::End,
        }
    }

    /// Takes what the worker has returned and gives the item of the stream, which goes on with the
    /// next tile.
    pub fn check_decompress_future_res<R>(
        &mut self,
        result: Result<Result<R, CacheError>, JoinError>,
    ) -> (item: Result<R, CacheError>)
        requires
            old(self)@.wf(),
            old(self)@.decompressing is Some,
        ensures
            final(self)@ == old(self)@.delivered(),
            final(self)@.wf(),
            item == match result {
                Ok(Ok(tile)) => Ok::<R, CacheError>(tile),
                Ok(Err(error)) => Err(error),
                Err(source) => Err(CacheError::CouldNotRunDecompressionTask { source }),
            },
    {
        match self.decompressing {
            Some(place) => {
                self.inner.move_past(place);
            },
            None => {},
        }
        self.decompressing = None;
        match result {
            Ok(Ok(tile)) => Ok(tile),
            Ok(Err(error)) => Err(error),
            Err(source) => Err(CacheError::CouldNotRunDecompressionTask { source }),
        }
    }

    /// There must be a cache hit to produce this stream. So there must be at least one tile inside
    /// the query.
    pub fn size_hint(&self) -> (hint: (usize, Option<usize>))
        requires
            self@.wf(),
        ensures
            self@.terminated() ==> hint == (0usize, Some(0usize)),
            !self@.terminated() ==> hint.0 == 1 && hint.1 is Some && hint.1->0
                == self@.inner.tiles.len() - self@.inner.idx,
    {
        if self.is_terminated() {
            return (0, Some(0));
        }
        (1, Some(self.inner.remaining()))
    }
}

/// A terminated stream has nothing to do but to end, whatever the query is.
pub proof fn law_terminated_stream_ends<T, M, Q, F: Fn(&M, &Q) -> bool, G: Fn(&M, &Q) -> bool>(
    stream: TileStreamView<T, M, Q>,
    in_bounds: F,
    in_time: G,
    action: TileStreamAction,
    after: TileStreamView<T, M, Q>,
)
    requires
        stream.terminated(),
        stream.is_poll(in_bounds, in_time, action, after),
    ensures
        action is End,
        after == stream,
{
}

/// A run of a stream that is polled until it ends: the tiles at these places are decompressed and
/// become items, one after the other, and then there is nothing more to do.
pub open spec fn is_run<T, M, Q, F: Fn(&M, &Q) -> bool, G: Fn(&M, &Q) -> bool>(
    stream: TileStreamView<T, M, Q>,
    in_bounds: F,
    in_time: G,
    places: Seq<usize>,
) -> bool
    decreases places.len(),
{
    if places.len() == 0 {
        stream.is_poll(in_bounds, in_time, TileStreamAction::End, stream)
    } else {
        let started = stream.started(places[0]);
        &&& stream.is_poll(
            in_bounds,
            in_time,
            TileStreamAction::StartDecompression(places[0]),
            started,
        )
        &&& is_run(started.delivered(), in_bounds, in_time, places.skip(1))
    }
}

/// A run gives every tile that intersects the query once and in order, and then the stream ends. It
/// gives no more tiles than there are from the current place on.
pub proof fn law_run_gives_every_hit_once<
    T,
    M,
    Q,
    F: Fn(&M, &Q) -> bool,
    G: Fn(&M, &Q) -> bool,
>(stream: TileStreamView<T, M, Q>, in_bounds: F, in_time: G, places: Seq<usize>)
    requires
        stream.wf(),
        is_run(stream, in_bounds, in_time, places),
    ensures
        forall|i: int|
            0 <= i < places.len() ==> stream.inner.idx <= #[trigger] places[i]
                < stream.inner.tiles.len() && stream.inner.hit(
                in_bounds,
                in_time,
                places[i] as int,
            ),
        forall|i: int, j: int|
            0 <= i < j < places.len() ==> #[trigger] places[i] < #[trigger] places[j],
        forall|place: usize|
            stream.inner.idx <= place < stream.inner.tiles.len() && !places.contains(place)
                ==> #[trigger] stream.inner.miss(in_bounds, in_time, place as int),
        places.len() <= stream.inner.tiles.len() - stream.inner.idx,
    decreases places.len(),
{
    if places.len() > 0 {
        let first = places[0];
        let rest = places.skip(1);
        let after = stream.started(first).delivered();
        law_run_gives_every_hit_once(after, in_bounds, in_time, rest);
        assert forall|i: int| 0 <= i < places.len() implies stream.inner.idx <= #[trigger] places[i]
            < stream.inner.tiles.len() && stream.inner.hit(in_bounds, in_time, places[i] as int) by {
            if i > 0 {
                assert(places[i] == rest[i - 1]);
                assert(after.inner.hit(in_bounds, in_time, rest[i - 1] as int));
            }
        }
        assert forall|i: int, j: int| 0 <= i < j < places.len() implies #[trigger] places[i]
            < #[trigger] places[j] by {
            assert(places[j] == rest[j - 1]);
            if i > 0 {
                assert(places[i] == rest[i - 1]);
            }
        }
        assert forall|place: usize|
            stream.inner.idx <= place < stream.inner.tiles.len() && !places.contains(
                place,
            ) implies #[trigger] stream.inner.miss(in_bounds, in_time, place as int) by {
            if place > first {
                assert(!rest.contains(place)) by {
                    if rest.contains(place) {
                        let i = choose|i: int| 0 <= i < rest.len() && rest[i] == place;
                        assert(places[i + 1] == place);
                    }
                }
                assert(after.inner.miss(in_bounds, in_time, place as int));
            } else if place == first {
                assert(places[0] == place);
            }
        }
    }
}

/// If a tile cannot be found to be both, inside and outside of the query, a run gives exactly the
/// tiles inside of it.
pub proof fn law_run_gives_exactly_the_hits<
    T,
    M,
    Q,
    F: Fn(&M, &Q) -> bool,
    G: Fn(&M, &Q) -> bool,
>(
    stream: TileStreamView<T, M, Q>,
    in_bounds: F,
    in_time: G,
    places: Seq<usize>,
    place: usize,
)
    requires
        stream.wf(),
        is_run(stream, in_bounds, in_time, places),
        stream.inner.idx <= place < stream.inner.tiles.len(),
        !(stream.inner.hit(in_bounds, in_time, place as int) && stream.inner.miss(
            in_bounds,
            in_time,
            place as int,
        )),
    ensures
        places.contains(place) <==> stream.inner.hit(in_bounds, in_time, place as int),
{
    law_run_gives_every_hit_once(stream, in_bounds, in_time, places);
    if places.contains(place) {
        let i = choose|i: int| 0 <= i < places.len() && places[i] == place;
        assert(stream.inner.hit(in_bounds, in_time, places[i] as int));
    } else {
        assert(stream.inner.miss(in_bounds, in_time, place as int));
    }
}

/// The upper bound of the size hint is one: a stream gives no more tiles than there are from the
/// current place on, and the one that is being decompressed is among them.
pub proof fn law_size_hint_is_an_upper_bound<
    T,
    M,
    Q,
    F: Fn(&M, &Q) -> bool,
    G: Fn(&M, &Q) -> bool,
>(stream: TileStreamView<T, M, Q>, in_bounds: F, in_time: G, places: Seq<usize>)
    requires
        stream.wf(),
        stream.decompressing is Some,
        is_run(stream.delivered(), in_bounds, in_time, places),
    ensures
        1 + places.len() <= stream.inner.tiles.len() - stream.inner.idx,
{
    law_run_gives_every_hit_once(stream.delivered(), in_bounds, in_time, places);
}

/// Where it is certain of each tile whether it is within the bounds and within the time of the query, a
/// run gives exactly the tiles that are within both, from the current place on and in their order.
pub proof fn law_run_gives_what_is_within_bounds_and_time<
    T,
    M,
    Q,
    F: Fn(&M, &Q) -> bool,
    G: Fn(&M, &Q) -> bool,
>(
    stream: TileStreamView<T, M, Q>,
    in_bounds: F,
    in_time: G,
    places: Seq<usize>,
    bounds: Seq<bool>,
    times: Seq<bool>,
    place: usize,
)
    requires
        stream.wf(),
        is_run(stream, in_bounds, in_time, places),
        bounds.len() == stream.inner.tiles.len(),
        times.len() == stream.inner.tiles.len(),
        forall|i: int, answer: bool|
            0 <= i < bounds.len() && #[trigger] call_ensures(
                in_bounds,
                (&stream.inner.tiles[i].meta, &stream.inner.query),
                answer,
            ) ==> answer == bounds[i],
        forall|i: int, answer: bool|
            0 <= i < times.len() && #[trigger] call_ensures(
                in_time,
                (&stream.inner.tiles[i].meta, &stream.inner.query),
                answer,
            ) ==> answer == times[i],
    ensures
        places.contains(place) <==> stream.inner.idx <= place < stream.inner.tiles.len()
            && bounds[place as int] && times[place as int],
        forall|i: int, j: int|
            0 <= i < j < places.len() ==> #[trigger] places[i] < #[trigger] places[j],
{
    law_run_gives_every_hit_once(stream, in_bounds, in_time, places);
    if places.contains(place) {
        let i = choose|i: int| 0 <= i < places.len() && places[i] == place;
        assert(stream.inner.hit(in_bounds, in_time, places[i] as int));
    } else if stream.inner.idx <= place < stream.inner.tiles.len() {
        assert(stream.inner.miss(in_bounds, in_time, place as int));
    }
}

/// As long as a tile is being decompressed, nothing else is started. Then the stream goes on behind this
/// tile, with the same tiles and the same query. It is terminated when it is behind the last tile and
/// nothing is being decompressed.
pub proof fn law_one_tile_at_a_time<T, M, Q, F: Fn(&M, &Q) -> bool, G: Fn(&M, &Q) -> bool>(
    stream: TileStreamView<T, M, Q>,
    in_bounds: F,
    in_time: G,
    action: TileStreamAction,
    after: TileStreamView<T, M, Q>,
)
    requires
        stream.wf(),
        stream.is_poll(in_bounds, in_time, action, after),
    ensures
        stream.decompressing is Some <==> action is PollDecompression,
        action is StartDecompression <==> after != stream,
        after.inner == stream.inner,
        action matches TileStreamAction::StartDecompression(place) ==> after.decompressing == Some(
            place,
        ) && stream.inner.idx <= place < stream.inner.tiles.len(),
        stream.decompressing matches Some(place) ==> {
            &&& stream.delivered().inner.idx == place + 1
            &&& stream.delivered().inner.tiles == stream.inner.tiles
            &&& stream.delivered().inner.query == stream.inner.query
            &&& stream.delivered().decompressing is None
        },
        stream.terminated() <==> stream.decompressing is None && stream.inner.idx
            == stream.inner.tiles.len(),
        stream.inner.terminated() <==> stream.inner.idx == stream.inner.tiles.len(),
{
}

} // verus!
