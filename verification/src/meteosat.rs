//! The raster properties of Meteosat (MSG) rasters.

use vstd::prelude::*;

verus! {

/// The key of a raster property.
#[derive(Debug, PartialEq, Eq, Hash)]
pub struct RasterPropertiesKey {
    pub domain: Option<String>,
    pub key: String,
}

impl RasterPropertiesKey {
    /// The key has this name in the domain of the MSG rasters.
    pub open spec fn is_msg_key(&self, key: Seq<char>) -> bool {
        &&& self.domain is Some
        &&& self.domain->0@ == "msg"@
        &&& self.key@ == key
    }
}

fn msg_key(key: &str) -> (properties_key: RasterPropertiesKey)
    ensures
        properties_key.is_msg_key(key@),
{
    RasterPropertiesKey { domain: Some("msg".to_owned()), key: key.to_owned() }
}

/// The slope of the calibration.
pub fn slope_key() -> (key: RasterPropertiesKey)
    ensures
        key.is_msg_key("calibration_slope"@),
{
    msg_key("calibration_slope")
}

/// The offset of the calibration.
pub fn offset_key() -> (key: RasterPropertiesKey)
    ensures
        key.is_msg_key("calibration_offset"@),
{
    msg_key("calibration_offset")
}

/// The number of the channel.
pub fn channel_key() -> (key: RasterPropertiesKey)
    ensures
        key.is_msg_key("channel_number"@),
{
    msg_key("channel_number")
}

/// The number of the satellite.
pub fn satellite_key() -> (key: RasterPropertiesKey)
    ensures
        key.is_msg_key("satellite_number"@),
{
    msg_key("satellite_number")
}

/// The keys of MSG rasters are told apart by their names, and they are all in one domain.
pub proof fn law_msg_keys(key: RasterPropertiesKey, name: Seq<char>, other: Seq<char>)
    requires
        key.is_msg_key(name),
    ensures
        key.key@ == name,
        key.domain matches Some(domain) && domain@ == "msg"@,
        key.is_msg_key(other) <==> other == name,
{
}

} // verus!
