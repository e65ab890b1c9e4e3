use geoengine::band_neighborhood_aggregate::accu::FirstDerivativeAccu;
use geoengine::band_neighborhood_aggregate::stream::{
    Action, AggregateError, BandNeighborhoodAggregateStream, Event,
};
use geoengine::band_neighborhood_aggregate::{
    BandNeighborhoodAggregateParams, InitializedBandNeighborhoodAggregate, NeighborHoodAggregate,
};
use geoengine::primitives::{SpatialReference, TimeInterval, EPSG_4326};
use geoengine::raster::{
    GridShape2D, PixelGrid, RasterDataType, RasterResultDescriptor, RasterTile2D,
};

/// The time and the position of a tile.
#[derive(Clone, Debug, PartialEq)]
struct Meta {
    time: TimeInterval,
    tile_position: [isize; 2],
}

type Tile = RasterTile2D<f64, Meta>;
type Accu = FirstDerivativeAccu<f64, Meta>;
type Stream = BandNeighborhoodAggregateStream<f64, Meta>;

fn quotient(prev: &f64, next: &f64, divisor: u32) -> f64 {
    (next - prev) / f64::from(divisor)
}

fn masked_tile(tile_position: [isize; 2], band: u32, values: Vec<Option<f64>>) -> Tile {
    RasterTile2D {
        band,
        grid_array: PixelGrid {
            shape: GridShape2D::new(2, 2),
            data: values,
        },
        meta: Meta {
            time: TimeInterval { start: 0, end: 5 },
            tile_position,
        },
    }
}

fn tile(tile_position: [isize; 2], band: u32, values: [f64; 4]) -> Tile {
    masked_tile(tile_position, band, values.iter().copied().map(Some).collect())
}

fn assert_tiles_equal(tile: &Tile, expected: &Tile) {
    assert_eq!(tile.band, expected.band);
    assert_eq!(tile.meta, expected.meta);
    assert_eq!(tile.grid_array.shape, expected.grid_array.shape);
    assert_eq!(tile.grid_array.data, expected.grid_array.data);
}

/// Does what the stream asks for, right away, and collects what it returns.
fn run(
    stream: &mut Stream,
    input: Vec<Result<Tile, String>>,
) -> Vec<Result<Tile, AggregateError<String>>> {
    let mut input = input.into_iter();
    let mut output = vec![];
    let mut event = Event::Continue;
    let mut produced: Option<(Option<Tile>, Accu)> = None;
    let mut accumulated: Option<Accu> = None;
    loop {
        event = match stream.poll_next(event) {
            Action::RunNextBandTile(mut accu) => {
                let tile = accu.next_band_tile(quotient);
                produced = Some((tile, accu));
                Event::Continue
            }
            Action::PollNextBandTile => Event::NextBandTile(Ok(produced.take().unwrap())),
            Action::PollInput => Event::Input(input.next()),
            Action::RunAddTile(mut accu, tile) => {
                accu.add_tile(tile);
                accumulated = Some(accu);
                Event::Continue
            }
            Action::PollAddTile => Event::Accumulated(Ok((Ok(()), accumulated.take().unwrap()))),
            Action::Pending => unreachable!(),
            Action::Ready(Some(item)) => {
                output.push(item);
                Event::Continue
            }
            Action::Ready(None) => return output,
        };
    }
}

#[test]
fn it_computes_first_derivative() {
    let mut data: Vec<Tile> = vec![
        tile([-1, 0], 0, [0., 1., 2., 3.]),
        tile([-1, 0], 1, [2., 3., 4., 5.]),
        tile([-1, 0], 2, [4., 5., 6., 7.]),
    ];

    let mut accu = Accu::new(3);

    accu.add_tile(data.remove(0));
    assert!(accu.next_band_tile(quotient).is_none());

    accu.add_tile(data.remove(0));
    assert_tiles_equal(
        &accu.next_band_tile(quotient).unwrap(),
        &tile([-1, 0], 0, [2., 2., 2., 2.]),
    );

    accu.add_tile(data.remove(0));
    assert_tiles_equal(
        &accu.next_band_tile(quotient).unwrap(),
        &tile([-1, 0], 1, [2., 2., 2., 2.]),
    );
    assert_tiles_equal(
        &accu.next_band_tile(quotient).unwrap(),
        &tile([-1, 0], 2, [2., 2., 2., 2.]),
    );

    assert!(accu.next_band_tile(quotient).is_none());
}

#[test]
fn it_computes_first_derivative_on_stream() {
    let data: Vec<Tile> = vec![
        tile([-1, 0], 0, [0., 1., 2., 3.]),
        tile([-1, 0], 1, [2., 3., 4., 5.]),
        tile([-1, 0], 2, [4., 5., 6., 7.]),
        tile([-1, 1], 0, [0., 1., 2., 3.]),
        tile([-1, 1], 1, [4., 5., 6., 7.]),
        tile([-1, 1], 2, [8., 9., 10., 11.]),
    ];

    let expected: Vec<Tile> = vec![
        tile([-1, 0], 0, [2., 2., 2., 2.]),
        tile([-1, 0], 1, [2., 2., 2., 2.]),
        tile([-1, 0], 2, [2., 2., 2., 2.]),
        tile([-1, 1], 0, [4., 4., 4., 4.]),
        tile([-1, 1], 1, [4., 4., 4., 4.]),
        tile([-1, 1], 2, [4., 4., 4., 4.]),
    ];

    let in_descriptor = RasterResultDescriptor {
        data_type: RasterDataType::U8,
        spatial_reference: SpatialReference::Epsg(EPSG_4326),
        time: None,
        bbox: None,
        resolution: None,
        band_count: 3,
    };
    let params = BandNeighborhoodAggregateParams {
        aggregate: NeighborHoodAggregate::FirstDerivative,
    };
    let operator = InitializedBandNeighborhoodAggregate::initialize(params, (), &in_descriptor);
    assert_eq!(operator.canonic_name(), &params);
    assert_eq!(
        operator.result_descriptor(),
        &RasterResultDescriptor {
            data_type: RasterDataType::F64,
            ..in_descriptor
        }
    );
    let processor = operator.query_processor(());
    assert_eq!(
        processor.raster_result_descriptor(),
        operator.result_descriptor()
    );

    let mut stream: Stream = processor.raster_stream();
    let result = run(&mut stream, data.into_iter().map(Ok).collect());

    assert_eq!(result.len(), expected.len());
    for (tile, expected) in result.iter().zip(&expected) {
        match tile {
            Ok(tile) => assert_tiles_equal(tile, expected),
            Err(_) => unreachable!(),
        }
    }
}

#[test]
fn inner_bands_are_divided_by_the_distance_of_their_neighbours() {
    let mut accu = Accu::new(4);
    for (band, value) in [0., 1., 4., 9.].into_iter().enumerate() {
        accu.add_tile(tile([0, 0], band as u32, [value; 4]));
    }
    for (band, expected) in [1., 2., 4., 5.].into_iter().enumerate() {
        assert_tiles_equal(
            &accu.next_band_tile(quotient).unwrap(),
            &tile([0, 0], band as u32, [expected; 4]),
        );
    }
    assert!(accu.next_band_tile(quotient).is_none());
}

#[test]
fn pixels_without_values_have_no_derivative() {
    let mut accu = Accu::new(2);
    accu.add_tile(masked_tile(
        [0, 0],
        0,
        vec![Some(1.), None, Some(3.), None],
    ));
    accu.add_tile(masked_tile(
        [0, 0],
        1,
        vec![Some(2.), Some(2.), None, None],
    ));
    assert_tiles_equal(
        &accu.next_band_tile(quotient).unwrap(),
        &masked_tile([0, 0], 0, vec![Some(1.), None, None, None]),
    );
}

#[test]
fn pixels_outside_of_a_smaller_successor_have_no_derivative() {
    let mut accu = Accu::new(2);
    accu.add_tile(tile([0, 0], 0, [1., 2., 3., 4.]));
    accu.add_tile(RasterTile2D {
        band: 1,
        grid_array: PixelGrid {
            shape: GridShape2D::new(1, 2),
            data: vec![Some(5.), Some(5.)],
        },
        meta: Meta {
            time: TimeInterval { start: 0, end: 5 },
            tile_position: [0, 0],
        },
    });
    assert_tiles_equal(
        &accu.next_band_tile(quotient).unwrap(),
        &masked_tile([0, 0], 0, vec![Some(4.), Some(3.), None, None]),
    );
}

#[test]
fn a_reset_accumulator_starts_over() {
    let mut accu = Accu::new(2);
    accu.add_tile(tile([0, 0], 0, [0.; 4]));
    accu.add_tile(tile([0, 0], 1, [1.; 4]));
    assert_eq!(accu.next_band_tile(quotient).unwrap().band, 0);
    accu.reset();
    assert!(accu.next_band_tile(quotient).is_none());
    accu.add_tile(tile([0, 0], 0, [1.; 4]));
    accu.add_tile(tile([0, 0], 1, [3.; 4]));
    assert_tiles_equal(
        &accu.next_band_tile(quotient).unwrap(),
        &tile([0, 0], 0, [2.; 4]),
    );
}

#[test]
fn a_single_band_has_no_derivative() {
    let mut stream = Stream::new(1);
    let result = run(&mut stream, vec![Ok(tile([0, 0], 0, [1.; 4]))]);
    assert!(result.is_empty());
}

#[test]
fn a_stream_must_not_end_within_a_tile() {
    let mut stream = Stream::new(3);
    let result = run(&mut stream, vec![Ok(tile([0, 0], 0, [1.; 4]))]);
    assert_eq!(result.len(), 1);
    match &result[0] {
        Err(error) => {
            assert!(matches!(error, AggregateError::UnexpectedEndOfStream));
            assert_eq!(error.message(), Some("Unexpected end of stream"));
        }
        Ok(_) => unreachable!(),
    }
    // and it stays finished
    assert!(matches!(
        stream.poll_next::<String>(Event::Continue),
        Action::Ready(None)
    ));
}

fn assert_unexpected_end(item: &Result<Tile, AggregateError<String>>) {
    match item {
        Err(error) => assert!(matches!(error, AggregateError::UnexpectedEndOfStream)),
        Ok(_) => unreachable!(),
    }
}

fn assert_band(item: &Result<Tile, AggregateError<String>>, expected: &Tile) {
    match item {
        Ok(tile) => assert_tiles_equal(tile, expected),
        Err(_) => unreachable!(),
    }
}

#[test]
fn a_stream_must_not_end_before_the_last_band_of_a_tile() {
    // two of three bands
    let mut stream = Stream::new(3);
    let result = run(
        &mut stream,
        vec![
            Ok(tile([-1, 0], 0, [0., 1., 2., 3.])),
            Ok(tile([-1, 0], 1, [2., 3., 4., 5.])),
        ],
    );
    assert_eq!(result.len(), 2);
    assert_band(&result[0], &tile([-1, 0], 0, [2., 2., 2., 2.]));
    assert_unexpected_end(&result[1]);
    for _ in 0..2 {
        assert!(matches!(
            stream.poll_next::<String>(Event::Continue),
            Action::Ready(None)
        ));
    }

    // one of two bands
    let mut stream = Stream::new(2);
    let result = run(&mut stream, vec![Ok(tile([0, 0], 0, [1.; 4]))]);
    assert_eq!(result.len(), 1);
    assert_unexpected_end(&result[0]);

    // one of two bands of a second tile
    let mut stream = Stream::new(2);
    let result = run(
        &mut stream,
        vec![
            Ok(tile([0, 0], 0, [1.; 4])),
            Ok(tile([0, 0], 1, [3.; 4])),
            Ok(tile([0, 1], 0, [1.; 4])),
        ],
    );
    assert_eq!(result.len(), 3);
    assert_band(&result[0], &tile([0, 0], 0, [2.; 4]));
    assert_band(&result[1], &tile([0, 0], 1, [2.; 4]));
    assert_unexpected_end(&result[2]);
}

#[test]
fn a_stream_ends_properly_after_complete_tiles() {
    assert!(run(&mut Stream::new(3), vec![]).is_empty());
    let result = run(
        &mut Stream::new(2),
        vec![Ok(tile([0, 0], 0, [1.; 4])), Ok(tile([0, 0], 1, [3.; 4]))],
    );
    assert_eq!(result.len(), 2);
    assert!(result.iter().all(Result::is_ok));
}

#[test]
fn bands_come_as_soon_as_their_successors() {
    let num_bands = 4;
    let mut stream = Stream::new(num_bands);
    let mut taken = 0;
    let mut taken_for_bands = vec![];
    let mut event: Event<Accu, Tile, String> = Event::Continue;
    let mut produced: Option<(Option<Tile>, Accu)> = None;
    let mut accumulated: Option<Accu> = None;
    loop {
        event = match stream.poll_next(event) {
            Action::RunNextBandTile(mut accu) => {
                let tile = accu.next_band_tile(quotient);
                produced = Some((tile, accu));
                Event::Continue
            }
            Action::PollNextBandTile => Event::NextBandTile(Ok(produced.take().unwrap())),
            Action::PollInput if taken < 2 * num_bands => {
                let input = tile([0, 0], taken % num_bands, [1.; 4]);
                taken += 1;
                Event::Input(Some(Ok(input)))
            }
            Action::PollInput => Event::Input(None),
            Action::RunAddTile(mut accu, tile) => {
                accu.add_tile(tile);
                accumulated = Some(accu);
                Event::Continue
            }
            Action::PollAddTile => Event::Accumulated(Ok((Ok(()), accumulated.take().unwrap()))),
            Action::Pending => unreachable!(),
            Action::Ready(Some(Ok(tile))) => {
                taken_for_bands.push((tile.band, taken));
                Event::Continue
            }
            Action::Ready(Some(Err(_))) => unreachable!(),
            Action::Ready(None) => break,
        };
    }
    assert_eq!(
        taken_for_bands,
        vec![
            (0, 2),
            (1, 3),
            (2, 4),
            (3, 4),
            (0, 6),
            (1, 7),
            (2, 8),
            (3, 8)
        ]
    );
}

#[test]
fn tiles_do_not_touch_each_other() {
    let first = || {
        vec![
            Ok(tile([0, 0], 0, [1.; 4])),
            Ok(tile([0, 0], 1, [4.; 4])),
        ]
    };
    let second = || {
        vec![
            Ok(tile([0, 1], 0, [2.; 4])),
            Ok(tile([0, 1], 1, [9.; 4])),
        ]
    };
    let both = run(
        &mut Stream::new(2),
        first().into_iter().chain(second()).collect(),
    );
    let mut alone = run(&mut Stream::new(2), first());
    alone.extend(run(&mut Stream::new(2), second()));
    assert_eq!(both.len(), alone.len());
    for (item, expected) in both.iter().zip(&alone) {
        match expected {
            Ok(expected) => assert_band(item, expected),
            Err(_) => unreachable!(),
        }
    }
}

#[test]
fn an_error_of_the_input_comes_after_what_can_be_computed() {
    let mut stream = Stream::new(3);
    let result = run(
        &mut stream,
        vec![
            Ok(tile([0, 0], 0, [1.; 4])),
            Ok(tile([0, 0], 1, [2.; 4])),
            Err("broken".to_string()),
            Ok(tile([0, 0], 2, [3.; 4])),
        ],
    );
    assert_eq!(result.len(), 2);
    assert_band(&result[0], &tile([0, 0], 0, [1.; 4]));
    match &result[1] {
        Err(AggregateError::Outside(error)) => assert_eq!(error, "broken"),
        _ => unreachable!(),
    }
}

#[test]
fn an_error_of_the_input_ends_the_stream() {
    let mut stream = Stream::new(3);
    let result = run(
        &mut stream,
        vec![Err("broken".to_string()), Ok(tile([0, 0], 0, [1.; 4]))],
    );
    assert_eq!(result.len(), 1);
    match &result[0] {
        Err(AggregateError::Outside(error)) => assert_eq!(error, "broken"),
        _ => unreachable!(),
    }
}

#[test]
fn a_failed_worker_ends_the_stream() {
    let mut stream = Stream::new(3);
    assert!(matches!(
        stream.poll_next::<String>(Event::Continue),
        Action::RunNextBandTile(_)
    ));
    match stream.poll_next(Event::NextBandTile(Err("cancelled".to_string()))) {
        Action::Ready(Some(Err(error))) => {
            assert!(matches!(error, AggregateError::Outside(_)));
            assert_eq!(error.message(), None);
        }
        _ => unreachable!(),
    }
    assert!(matches!(
        stream.poll_next::<String>(Event::Continue),
        Action::Ready(None)
    ));
}

#[test]
fn a_pending_stream_polls_again() {
    let mut stream = Stream::new(3);
    assert!(matches!(
        stream.poll_next::<String>(Event::Continue),
        Action::RunNextBandTile(_)
    ));
    assert!(matches!(
        stream.poll_next::<String>(Event::Continue),
        Action::PollNextBandTile
    ));
    assert!(matches!(
        stream.poll_next::<String>(Event::Pending),
        Action::Pending
    ));
    assert!(matches!(
        stream.poll_next::<String>(Event::Continue),
        Action::PollNextBandTile
    ));
}
