//! Queries to an EDR service.

use vstd::prelude::*;

use crate::primitives::{Coordinate2D, F64Bits, TimeInterval};
use crate::util::text::{replace_char, replaced};

verus! {

/// A region in space and time.
#[derive(Clone, Copy, Debug, PartialEq, Eq)]
pub struct EdrQuery {
    pub lower_left: Coordinate2D,
    pub upper_right: Coordinate2D,
    pub time_interval: TimeInterval,
}

/// The part of an address that selects a region. A plus sign would be read as a space.
pub open spec fn query_text(
    left: Seq<char>,
    lower: Seq<char>,
    right: Seq<char>,
    upper: Seq<char>,
    start: Seq<char>,
    end: Seq<char>,
) -> Seq<char> {
    "&bbox="@ + left + ","@ + lower + ","@ + right + ","@ + upper + "&datetime="@ + replaced(
        start,
        '+',
        "%2B"@,
    ) + "%2F"@ + replaced(end, '+', "%2B"@)
}

/// `text` is the part of an address that selects the region of the query, when numbers are written
/// by `number_text` and points in time by `datetime_text`.
pub open spec fn is_query_string<F: Fn(F64Bits) -> String, G: Fn(i64) -> String>(
    query: EdrQuery,
    number_text: F,
    datetime_text: G,
    text: Seq<char>,
) -> bool {
    exists|left: String, lower: String, right: String, upper: String, start: String, end: String|
        {
            &&& #[trigger] call_ensures(number_text, (query.lower_left.x,), left)
            &&& #[trigger] call_ensures(number_text, (query.lower_left.y,), lower)
            &&& #[trigger] call_ensures(number_text, (query.upper_right.x,), right)
            &&& #[trigger] call_ensures(number_text, (query.upper_right.y,), upper)
            &&& #[trigger] call_ensures(datetime_text, (query.time_interval.start,), start)
            &&& #[trigger] call_ensures(datetime_text, (query.time_interval.end,), end)
            &&& text == query_text(left@, lower@, right@, upper@, start@, end@)
        }
}

impl EdrQuery {
    /// The part of an address that selects the region.
    pub fn as_query_string<F: Fn(F64Bits) -> String, G: Fn(i64) -> String>(
        &self,
        number_text: &F,
        datetime_text: &G,
    ) -> (text: String)
        requires
            forall|number: F64Bits| call_requires(*number_text, (number,)),
            forall|time: i64| call_requires(*datetime_text, (time,)),
        ensures
            is_query_string(*self, *number_text, *datetime_text, text@),
    {
        let start = datetime_text(self.time_interval.start);
        let end = datetime_text(self.time_interval.end);
        let left = number_text(self.lower_left.x);
        let lower = number_text(self.lower_left.y);
        let right = number_text(self.upper_right.x);
        let upper = number_text(self.upper_right.y);
        let text = "&bbox=".to_owned().concat(left.as_str()).concat(",").concat(
            lower.as_str(),
        ).concat(",").concat(right.as_str()).concat(",").concat(upper.as_str()).concat(
            "&datetime=",
        ).concat(replace_char(start.as_str(), '+', "%2B").as_str()).concat("%2F").concat(
            replace_char(end.as_str(), '+', "%2B").as_str(),
        );
        assert(text@ == query_text(left@, lower@, right@, upper@, start@, end@));
        text
    }

    pub fn get_time_interval(&self) -> (interval: TimeInterval)
        ensures
            interval == self.time_interval,
    {
        self.time_interval
    }

    /// The same region at another time.
    pub fn with_time(&self, time: TimeInterval) -> (query: Self)
        ensures
            query == (EdrQuery { time_interval: time, ..*self }),
    {
        EdrQuery {
            lower_left: self.lower_left,
            upper_right: self.upper_right,
            time_interval: time,
        }
    }
}

} // verus!
