//! Market records that are not part of the ledger: funding rates, and the
//! names of the cached candle files.
use vstd::prelude::*;
use vstd::string::*;

use crate::amount::Amount;
use crate::model::Market;
use crate::time::Time;

verus! {

/// A swap instrument's funding rate as last reported.
#[derive(Clone, Debug)]
pub struct FundingRate {
    pub code: String,
    pub time: Time,
    pub rate: Amount,
    pub next_time: Time,
    pub min: Amount,
    pub max: Amount,
    pub update_time: Time,
}

impl FundingRate {
    /// A funding record for `code` with zero rates and every time at the
    /// epoch.
    pub fn new(code: String) -> (r: FundingRate)
        ensures
            r.code@ == code@,
            r.time.nanos == 0 && r.next_time.nanos == 0 && r.update_time.nanos == 0,
            r.rate.units == 0 && r.min.units == 0 && r.max.units == 0,
    {
        FundingRate {
            code,
            time: Time { nanos: 0 },
            rate: Amount { units: 0 },
            next_time: Time { nanos: 0 },
            min: Amount { units: 0 },
            max: Amount { units: 0 },
            update_time: Time { nanos: 0 },
        }
    }
}

/// An instrument code with each `/` and `:` replaced by `_`.
pub open spec fn file_stem(code: Seq<char>) -> Seq<char> {
    code.map_values(|c: char| if c == '/' || c == ':' { '_' } else { c })
}

/// The name of an instrument's cached candle file: its code made safe for
/// a file name, with the `.feather` extension.
pub fn data_file_name(code: &str) -> (r: String)
    ensures
        r@ == file_stem(code@) + ".feather"@,
{
    let n: usize = code.unicode_len();
    let mut out = String::new();
    let mut i: usize = 0;
    proof {
        reveal_strlit("_");
    }
    while i < n
        invariant
            n == code@.len(),
            i <= n,
            out@ == file_stem(code@.take(i as int)),
            "_"@ == seq!['_'],
        decreases n - i,
    {
        let c = code.get_char(i);
        if c == '/' || c == ':' {
            out.append("_");
        } else {
            out.append(code.substring_char(i, i + 1));
        }
        assert(code@.take(i + 1) == code@.take(i as int).push(c));
        assert(out@ =~= file_stem(code@.take(i + 1)));
        i = i + 1;
    }
    assert(code@.take(n as int) == code@);
    out.append(".feather");
    out
}

/// The directory, under the data directory, that holds the cached candles
/// of a market's instruments.
pub fn data_dir(market: Market) -> (r: &'static str)
    ensures
        r@ == (match market {
            Market::Spot => "spot"@,
            Market::Swap => "swap"@,
        }),
{
    match market {
        Market::Spot => "spot",
        Market::Swap => "swap",
    }
}

} // verus!
