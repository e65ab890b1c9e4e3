//! Pixel-wise aggregates over the neighbouring bands of a raster.

use vstd::prelude::*;

use crate::band_neighborhood_aggregate::stream::{
    empty_accu, BandNeighborhoodAggregateStream, State, StreamView,
};
use crate::raster::{RasterDataType, RasterResultDescriptor};

pub mod accu;
pub mod laws;
pub mod stream;

verus! {

/// The parameters of the operator.
#[derive(Clone, Copy, Debug, PartialEq, Eq)]
pub struct BandNeighborhoodAggregateParams {
    pub aggregate: NeighborHoodAggregate,
}

/// How neighbouring bands are aggregated.
#[derive(Clone, Copy, Debug, PartialEq, Eq)]
pub enum NeighborHoodAggregate {
    FirstDerivative,
}

/// The operator after its source was initialized. `N` is its canonic name, and `S` is the source.
pub struct InitializedBandNeighborhoodAggregate<N, S> {
    pub name: N,
    pub result_descriptor: RasterResultDescriptor,
    pub source: S,
}

impl<N, S> InitializedBandNeighborhoodAggregate<N, S> {
    /// The operator on an initialized source. The values of the aggregates are floating point numbers, but
    /// anything else is as it is in the source.
    pub fn initialize(name: N, source: S, in_descriptor: &RasterResultDescriptor) -> (operator: Self)
        ensures
            operator.name == name,
            operator.source == source,
            operator.result_descriptor == (RasterResultDescriptor {
                data_type: RasterDataType::F64,
                ..*in_descriptor
            }),
    {
        InitializedBandNeighborhoodAggregate {
            name,
            result_descriptor: in_descriptor.with_data_type(RasterDataType::F64),
            source,
        }
    }

    pub fn result_descriptor(&self) -> (descriptor: &RasterResultDescriptor)
        ensures
            *descriptor == self.result_descriptor,
    {
        &self.result_descriptor
    }

    pub fn canonic_name(&self) -> (name: &N)
        ensures
            *name == self.name,
    {
        &self.name
    }

    /// The processor on the processor of the source.
    pub fn query_processor<Q>(&self, source: Q) -> (processor: BandNeighborhoodAggregateProcessor<Q>)
        ensures
            processor.source == source,
            processor.result_descriptor == self.result_descriptor,
    {
        BandNeighborhoodAggregateProcessor::new(source, self.result_descriptor)
    }
}

/// The processor of queries. `Q` is the processor of its source.
pub struct BandNeighborhoodAggregateProcessor<Q> {
    pub source: Q,
    pub result_descriptor: RasterResultDescriptor,
}

impl<Q> BandNeighborhoodAggregateProcessor<Q> {
    pub fn new(source: Q, result_descriptor: RasterResultDescriptor) -> (processor: Self)
        ensures
            processor.source == source,
            processor.result_descriptor == result_descriptor,
    {
        BandNeighborhoodAggregateProcessor { source, result_descriptor }
    }

    pub fn raster_result_descriptor(&self) -> (descriptor: &RasterResultDescriptor)
        ensures
            *descriptor == self.result_descriptor,
    {
        &self.result_descriptor
    }

    /// The stream that answers a query, for tiles with as many bands as the source has.
    pub fn raster_stream<P, M: Clone>(&self) -> (stream: BandNeighborhoodAggregateStream<P, M>)
        ensures
            stream@ == (StreamView {
                input_band: 0,
                output_band: 0,
                num_bands: self.result_descriptor.band_count as int,
                state: State::Initial(
                    empty_accu::<P, M>(self.result_descriptor.band_count as int),
                ),
            }),
    {
        BandNeighborhoodAggregateStream::new(self.result_descriptor.band_count)
    }
}

} // verus!
