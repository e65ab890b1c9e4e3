//! The decisions of the stream that consumes the bands of tiles and emits the aggregated bands.
//!
//! The stream itself only polls its input and hands work to the blocking thread pool. What happens
//! next is decided here: each [`poll_next`](BandNeighborhoodAggregateStream::poll_next) takes what has
//! happened outside and tells what to do.

use vstd::prelude::*;

use crate::band_neighborhood_aggregate::accu::{AccuView, FirstDerivativeAccu};
use crate::raster::RasterTile2D;

verus! {

/// An error of the aggregated stream: either one from the outside (the input, the worker threads)
/// or one that must not happen.
#[derive(Debug)]
pub enum AggregateError<E> {
    Outside(E),
    UnexpectedEndOfStream,
    InvalidState,
}

impl<E> AggregateError<E> {
    /// What went wrong, for the errors that do not come from the outside.
    pub fn message(&self) -> (message: Option<&'static str>)
        ensures
            match self {
                AggregateError::Outside(_) => message is None,
                AggregateError::UnexpectedEndOfStream => message is Some && message->0@
                    == "Unexpected end of stream"@,
                AggregateError::InvalidState => message is Some && message->0@
                    == "Invalid state reached"@,
            },
    {
        match self {
            AggregateError::Outside(_) => None,
            AggregateError::UnexpectedEndOfStream => Some("Unexpected end of stream"),
            AggregateError::InvalidState => Some("Invalid state reached"),
        }
    }
}

/// Where the stream is. While a worker thread has the accumulator, it is not part of the state.
pub enum State<A> {
    Invalid,
    Initial(A),
    NextBandTile,
    ConsumeNext(A),
    Accumulate,
    Finished,
}

/// What has happened outside since the last decision.
pub enum Event<A, T, E> {
    /// Nothing: the stream is polled, or the work that was asked for has been started.
    Continue,
    /// What was polled is not ready yet.
    Pending,
    /// A worker has tried to produce the next band.
    NextBandTile(Result<(Option<T>, A), E>),
    /// The input was polled.
    Input(Option<Result<T, E>>),
    /// A worker has added a tile to the accumulator.
    Accumulated(Result<(Result<(), E>, A), E>),
}

/// What to do next.
pub enum Action<A, T, E> {
    /// Let a worker produce the next band from the accumulator, then continue.
    RunNextBandTile(A),
    /// Poll the worker that produces the next band.
    PollNextBandTile,
    /// Poll the input.
    PollInput,
    /// Let a worker add the tile to the accumulator, then continue.
    RunAddTile(A, T),
    /// Poll the worker that adds a tile.
    PollAddTile,
    /// Leave the poll, there is nothing to return yet.
    Pending,
    /// Return an item, or the end of the stream.
    Ready(Option<Result<T, AggregateError<E>>>),
}

/// A stream of the bands of tiles, without its input.
pub struct BandNeighborhoodAggregateStream<P, M> {
    current_input_band_idx: u32,
    current_output_band_idx: u32,
    num_bands: u32,
    state: State<FirstDerivativeAccu<P, M>>,
}

/// What a stream knows: how many bands of the current tile were consumed and produced.
pub struct StreamView<P, M> {
    pub input_band: int,
    pub output_band: int,
    pub num_bands: int,
    pub state: State<AccuView<P, M>>,
}

pub open spec fn state_view<P, M>(state: State<FirstDerivativeAccu<P, M>>) -> State<
    AccuView<P, M>,
> {
    match state {
        State::Invalid => State::Invalid,
        State::Initial(accu) => State::Initial(accu@),
        State::NextBandTile => State::NextBandTile,
        State::ConsumeNext(accu) => State::ConsumeNext(accu@),
        State::Accumulate => State::Accumulate,
        State::Finished => State::Finished,
    }
}

pub open spec fn event_view<P, M, T, E>(event: Event<FirstDerivativeAccu<P, M>, T, E>) -> Event<
    AccuView<P, M>,
    T,
    E,
> {
    match event {
        Event::Continue => Event::Continue,
        Event::Pending => Event::Pending,
        Event::NextBandTile(Ok((tile, accu))) => Event::NextBandTile(Ok((tile, accu@))),
        Event::NextBandTile(Err(error)) => Event::NextBandTile(Err(error)),
        Event::Input(item) => Event::Input(item),
        Event::Accumulated(Ok((result, accu))) => Event::Accumulated(Ok((result, accu@))),
        Event::Accumulated(Err(error)) => Event::Accumulated(Err(error)),
    }
}

pub open spec fn action_view<P, M, T, E>(action: Action<FirstDerivativeAccu<P, M>, T, E>) -> Action<
    AccuView<P, M>,
    T,
    E,
> {
    match action {
        Action::RunNextBandTile(accu) => Action::RunNextBandTile(accu@),
        Action::PollNextBandTile => Action::PollNextBandTile,
        Action::PollInput => Action::PollInput,
        Action::RunAddTile(accu, tile) => Action::RunAddTile(accu@, tile),
        Action::PollAddTile => Action::PollAddTile,
        Action::Pending => Action::Pending,
        Action::Ready(item) => Action::Ready(item),
    }
}

impl<P, M> View for BandNeighborhoodAggregateStream<P, M> {
    type V = StreamView<P, M>;

    closed spec fn view(&self) -> StreamView<P, M> {
        StreamView {
            input_band: self.current_input_band_idx as int,
            output_band: self.current_output_band_idx as int,
            num_bands: self.num_bands as int,
            state: state_view(self.state),
        }
    }
}

/// An accumulator without tiles.
pub open spec fn empty_accu<P, M>(num_bands: int) -> AccuView<P, M> {
    AccuView { tiles: Seq::empty(), output_band: 0, num_bands }
}

impl<P, M> StreamView<P, M> {
    /// The event answers what the stream has asked for in its state, and the band that it counts
    /// is one that can be counted.
    pub open spec fn expects<E>(
        self,
        event: Event<AccuView<P, M>, RasterTile2D<P, M>, E>,
    ) -> bool {
        match event {
            Event::Continue => true,
            Event::Pending => self.state is NextBandTile || self.state is ConsumeNext
                || self.state is Accumulate,
            Event::NextBandTile(result) => {
                &&& self.state is NextBandTile
                &&& result matches Ok((Some(_), _)) ==> self.output_band < u32::MAX
            },
            Event::Input(item) => {
                &&& self.state is ConsumeNext
                &&& item matches Some(Ok(_)) ==> self.input_band < u32::MAX
            },
            Event::Accumulated(_) => self.state is Accumulate,
        }
    }

    pub open spec fn at(self, state: State<AccuView<P, M>>) -> Self {
        StreamView { state, ..self }
    }

    /// The stream after an event, and what to do next.
    pub open spec fn transition<E>(
        self,
        event: Event<AccuView<P, M>, RasterTile2D<P, M>, E>,
    ) -> (Self, Action<AccuView<P, M>, RasterTile2D<P, M>, E>) {
        match event {
            Event::Continue => match self.state {
                State::Initial(accu) => (
                    self.at(State::NextBandTile),
                    Action::RunNextBandTile(accu),
                ),
                State::NextBandTile => (self, Action::PollNextBandTile),
                State::ConsumeNext(_) => (self, Action::PollInput),
                State::Accumulate => (self, Action::PollAddTile),
                State::Finished => (self, Action::Ready(None)),
                State::Invalid => (
                    self.at(State::Finished),
                    Action::Ready(Some(Err(AggregateError::InvalidState))),
                ),
            },
            Event::Pending => (self, Action::Pending),
            Event::NextBandTile(Ok((Some(tile), accu))) => (
                StreamView {
                    output_band: self.output_band + 1,
                    state: State::Initial(accu),
                    ..self
                },
                Action::Ready(Some(Ok(tile))),
            ),
            Event::NextBandTile(Ok((None, accu))) => if self.output_band >= self.num_bands {
                // the tile is complete, the next input is the first band of another tile
                (
                    StreamView {
                        input_band: 0,
                        output_band: 0,
                        num_bands: self.num_bands,
                        state: State::ConsumeNext(empty_accu(accu.num_bands)),
                    },
                    Action::PollInput,
                )
            } else {
                (self.at(State::ConsumeNext(accu)), Action::PollInput)
            },
            Event::Input(Some(Ok(tile))) => (
                StreamView {
                    input_band: self.input_band + 1,
                    state: State::Accumulate,
                    ..self
                },
                Action::RunAddTile(self.state->ConsumeNext_0, tile),
            ),
            Event::Input(None) => (
                self.at(State::Finished),
                Action::Ready(
                    // the input must not end in the middle of a tile
                    if 0 < self.input_band < self.num_bands {
                        Some(Err(AggregateError::UnexpectedEndOfStream))
                    } else {
                        None
                    },
                ),
            ),
            Event::Accumulated(Ok((Ok(()), accu))) => (
                self.at(State::NextBandTile),
                Action::RunNextBandTile(accu),
            ),
            Event::NextBandTile(Err(error))
            | Event::Input(Some(Err(error)))
            | Event::Accumulated(Ok((Err(error), _)))
            | Event::Accumulated(Err(error)) => (
                self.at(State::Finished),
                Action::Ready(Some(Err(AggregateError::Outside(error)))),
            ),
        }
    }
}

impl<P, M: Clone> BandNeighborhoodAggregateStream<P, M> {
    /// A stream that has not consumed anything.
    pub fn new(num_bands: u32) -> (stream: Self)
        ensures
            stream@ == (StreamView::<P, M> {
                input_band: 0,
                output_band: 0,
                num_bands: num_bands as int,
                state: State::Initial(empty_accu(num_bands as int)),
            }),
    {
        BandNeighborhoodAggregateStream {
            current_input_band_idx: 0,
            current_output_band_idx: 0,
            num_bands,
            state: State::Initial(FirstDerivativeAccu::new(num_bands)),
        }
    }

    /// Takes what has happened and decides what to do next.
    pub fn poll_next<E>(
        &mut self,
        event: Event<FirstDerivativeAccu<P, M>, RasterTile2D<P, M>, E>,
    ) -> (action: Action<FirstDerivativeAccu<P, M>, RasterTile2D<P, M>, E>)
        requires
            old(self)@.expects(event_view(event)),
        ensures
            (final(self)@, action_view(action)) == old(self)@.transition(event_view(event)),
    {
        let mut state = State::Invalid;
        core::mem::swap(&mut state, &mut self.state);
        match event {
            Event::Continue => match state {
                State::Initial(accu) => {
                    self.state = State::NextBandTile;
                    Action::RunNextBandTile(accu)
                },
                State::NextBandTile => {
                    self.state = State::NextBandTile;
                    Action::PollNextBandTile
                },
                State::ConsumeNext(accu) => {
                    self.state = State::ConsumeNext(accu);
                    Action::PollInput
                },
                State::Accumulate => {
                    self.state = State::Accumulate;
                    Action::PollAddTile
                },
                State::Finished => {
                    self.state = State::Finished;
                    Action::Ready(None)
                },
                State::Invalid => {
                    self.state = State::Finished;
                    Action::Ready(Some(Err(AggregateError::InvalidState)))
                },
            },
            Event::Pending => {
                self.state = state;
                Action::Pending
            },
            Event::NextBandTile(Ok((Some(tile), accu))) => {
                self.current_output_band_idx += 1;
                self.state = State::Initial(accu);
                Action::Ready(Some(Ok(tile)))
            },
            Event::NextBandTile(Ok((None, accu))) => {
                let mut accu = accu;
                if self.current_output_band_idx >= self.num_bands {
                    accu.reset();
                    self.current_input_band_idx = 0;
                    self.current_output_band_idx = 0;
                }
                self.state = State::ConsumeNext(accu);
                Action::PollInput
            },
            Event::NextBandTile(Err(error)) => {
                self.state = State::Finished;
                Action::Ready(Some(Err(AggregateError::Outside(error))))
            },
            Event::Input(Some(Ok(tile))) => match state {
                State::ConsumeNext(accu) => {
                    self.current_input_band_idx += 1;
                    self.state = State::Accumulate;
                    Action::RunAddTile(accu, tile)
                },
                _ => {
                    assert(false);
                    Action::Pending
                },
            },
            Event::Input(Some(Err(error))) => {
                self.state = State::Finished;
                Action::Ready(Some(Err(AggregateError::Outside(error))))
            },
            Event::Input(None) => {
                self.state = State::Finished;
                if self.current_input_band_idx > 0 && self.current_input_band_idx < self.num_bands {
                    Action::Ready(Some(Err(AggregateError::UnexpectedEndOfStream)))
                } else {
                    Action::Ready(None)
                }
            },
            Event::Accumulated(Ok((Ok(_), accu))) => {
                self.state = State::NextBandTile;
                Action::RunNextBandTile(accu)
            },
            Event::Accumulated(Ok((Err(error), _))) => {
                self.state = State::Finished;
                Action::Ready(Some(Err(AggregateError::Outside(error))))
            },
            Event::Accumulated(Err(error)) => {
                self.state = State::Finished;
                Action::Ready(Some(Err(AggregateError::Outside(error))))
            },
        }
    }
}

} // verus!
