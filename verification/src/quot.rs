use vstd::prelude::*;
use vstd::string::StrSliceExecFns;
use crate::text::{
    seq_contains, occurs_at, lowercase, uppercase, parsed_i64, str_contains, str_to_lowercase,
    str_to_uppercase, str_parse_i64, str_eq, chars_of, find_first,
};

verus! {

/// Seconds in a Binance kline interval code, or 0 for a code it does not know.
pub open spec fn interval_seconds(code: Seq<char>) -> i64 {
    if code == "1s"@ { 1 }
    else if code == "1m"@ { 60 }
    else if code == "3m"@ { 180 }
    else if code == "5m"@ { 300 }
    else if code == "15m"@ { 900 }
    else if code == "30m"@ { 1800 }
    else if code == "1h"@ { 3600 }
    else if code == "2h"@ { 7200 }
    else if code == "4h"@ { 14400 }
    else if code == "6h"@ { 21600 }
    else if code == "8h"@ { 28800 }
    else if code == "12h"@ { 43200 }
    else if code == "1d"@ { 86400 }
    else if code == "3d"@ { 259200 }
    else if code == "1w"@ { 604800 }
    else if code == "1M"@ { 2592000 }
    else { 0 }
}

/// The length in seconds of a Binance kline interval code; 0 when unknown.
pub fn parse_interval(interval: &str) -> (secs: i64)
    ensures
        secs == interval_seconds(interval@),
{
    if str_eq(interval, "1s") { 1 }
    else if str_eq(interval, "1m") { 60 }
    else if str_eq(interval, "3m") { 180 }
    else if str_eq(interval, "5m") { 300 }
    else if str_eq(interval, "15m") { 900 }
    else if str_eq(interval, "30m") { 1800 }
    else if str_eq(interval, "1h") { 3600 }
    else if str_eq(interval, "2h") { 7200 }
    else if str_eq(interval, "4h") { 14400 }
    else if str_eq(interval, "6h") { 21600 }
    else if str_eq(interval, "8h") { 28800 }
    else if str_eq(interval, "12h") { 43200 }
    else if str_eq(interval, "1d") { 86400 }
    else if str_eq(interval, "3d") { 259200 }
    else if str_eq(interval, "1w") { 604800 }
    else if str_eq(interval, "1M") { 2592000 }
    else { 0 }
}

/// What the feed does with one kline message.
#[derive(Debug, Clone, Copy, PartialEq, Eq, Structural)]
pub enum KlineAction {
    /// The kline is still open: ignore it.
    Skip,
    /// The interval code is unknown: warn and ignore it.
    UnknownInterval,
    /// Publish the kline with this interval in seconds.
    Publish { interval: i64 },
}

/// Only closed klines with a known interval are published.
pub fn binance_kline_action(is_closed: bool, interval: &str) -> (a: KlineAction)
    ensures
        !is_closed ==> a == KlineAction::Skip,
        is_closed && interval_seconds(interval@) == 0 ==> a == KlineAction::UnknownInterval,
        is_closed && interval_seconds(interval@) != 0 ==> a == (KlineAction::Publish {
            interval: interval_seconds(interval@),
        }),
{
    if !is_closed {
        return KlineAction::Skip;
    }
    let secs = parse_interval(interval);
    if secs == 0 { KlineAction::UnknownInterval } else { KlineAction::Publish { interval: secs } }
}

/// A message that does not parse as a kline frame but holds `"result":null` is the
/// acknowledgement of a subscription.
pub fn is_subscription_ack(text: &str) -> (b: bool)
    ensures
        b == seq_contains(text@, "\"result\":null"@),
{
    str_contains(text, "\"result\":null")
}

/// The Binance stream for a symbol, given its lowercase form: one-second klines of the
/// symbol itself when it already names USDT, else of the symbol against USDT.
pub fn binance_stream_for(code: &str, lowered: &str) -> (s: String)
    ensures
        seq_contains(lowered@, "usdt"@) ==> s@ == code@ + "@kline_1s"@,
        !seq_contains(lowered@, "usdt"@) ==> s@ == code@ + "usdt@kline_1s"@,
{
    let base = code.to_owned();
    if str_contains(lowered, "usdt") {
        base.concat("@kline_1s")
    } else {
        base.concat("usdt@kline_1s")
    }
}

/// The Binance stream name a subscription asks for, for one symbol.
pub fn binance_stream_name(code: &str) -> (s: String)
    ensures
        seq_contains(lowercase(code@), "usdt"@) ==> s@ == code@ + "@kline_1s"@,
        !seq_contains(lowercase(code@), "usdt"@) ==> s@ == code@ + "usdt@kline_1s"@,
{
    let lowered = str_to_lowercase(code);
    binance_stream_for(code, lowered.as_str())
}

/// The stream names of a Binance subscription, one per symbol, in order.
pub fn binance_subscribe_params(codes: &Vec<String>) -> (params: Vec<String>)
    ensures
        params.len() == codes.len(),
        forall|i: int| 0 <= i < codes.len() ==> {
            &&& seq_contains(lowercase(codes[i]@), "usdt"@) ==> params[i]@ == codes[i]@ + "@kline_1s"@
            &&& !seq_contains(lowercase(codes[i]@), "usdt"@) ==> params[i]@ == codes[i]@ + "usdt@kline_1s"@
        },
{
    let mut params: Vec<String> = Vec::new();
    let mut i: usize = 0;
    while i < codes.len()
        invariant
            0 <= i <= codes.len(),
            params.len() == i,
            forall|j: int| 0 <= j < i ==> {
                &&& seq_contains(lowercase(codes[j]@), "usdt"@) ==> params[j]@ == codes[j]@ + "@kline_1s"@
                &&& !seq_contains(lowercase(codes[j]@), "usdt"@) ==> params[j]@ == codes[j]@ + "usdt@kline_1s"@
            },
        decreases codes.len() - i,
    {
        let name = binance_stream_name(codes[i].as_str());
        params.push(name);
        i = i + 1;
    }
    params
}

/// The OKX instrument for a symbol, given its lowercase and uppercase forms: the
/// uppercase symbol when it already names USDT, else the uppercase symbol against USDT.
pub fn okx_inst_id_for(lowered: &str, upper: &str) -> (s: String)
    ensures
        seq_contains(lowered@, "usdt"@) ==> s@ == upper@,
        !seq_contains(lowered@, "usdt"@) ==> s@ == upper@ + "-USDT"@,
{
    let base = upper.to_owned();
    if str_contains(lowered, "usdt") {
        base
    } else {
        base.concat("-USDT")
    }
}

/// The OKX instrument a subscription asks for, for one symbol.
pub fn okx_inst_id(code: &str) -> (s: String)
    ensures
        seq_contains(lowercase(code@), "usdt"@) ==> s@ == uppercase(code@),
        !seq_contains(lowercase(code@), "usdt"@) ==> s@ == uppercase(code@) + "-USDT"@,
{
    let lowered = str_to_lowercase(code);
    let upper = str_to_uppercase(code);
    okx_inst_id_for(lowered.as_str(), upper.as_str())
}

/// The instruments of an OKX subscription, one per symbol, in order.
pub fn okx_subscribe_inst_ids(codes: &Vec<String>) -> (ids: Vec<String>)
    ensures
        ids.len() == codes.len(),
        forall|i: int| 0 <= i < codes.len() ==> {
            &&& seq_contains(lowercase(codes[i]@), "usdt"@) ==> ids[i]@ == uppercase(codes[i]@)
            &&& !seq_contains(lowercase(codes[i]@), "usdt"@) ==> ids[i]@ == uppercase(codes[i]@) + "-USDT"@
        },
{
    let mut ids: Vec<String> = Vec::new();
    let mut i: usize = 0;
    while i < codes.len()
        invariant
            0 <= i <= codes.len(),
            ids.len() == i,
            forall|j: int| 0 <= j < i ==> {
                &&& seq_contains(lowercase(codes[j]@), "usdt"@) ==> ids[j]@ == uppercase(codes[j]@)
                &&& !seq_contains(lowercase(codes[j]@), "usdt"@) ==> ids[j]@ == uppercase(codes[j]@) + "-USDT"@
            },
        decreases codes.len() - i,
    {
        let id = okx_inst_id(codes[i].as_str());
        ids.push(id);
        i = i + 1;
    }
    ids
}

/// The symbol an OKX instrument stands for: the text before the first `-USDT`,
/// or the whole instrument when it holds none.
pub fn okx_base_code<'a>(inst_id: &'a str) -> (code: &'a str)
    ensures
        !seq_contains(inst_id@, "-USDT"@) ==> code@ == inst_id@,
        seq_contains(inst_id@, "-USDT"@) ==> {
            &&& inst_id@.subrange(0, code@.len() as int) == code@
            &&& occurs_at(inst_id@, "-USDT"@, code@.len() as int)
            &&& forall|j: int| 0 <= j < code@.len() ==> !occurs_at(inst_id@, "-USDT"@, j)
        },
{
    let text = chars_of(inst_id);
    let pat = chars_of("-USDT");
    match find_first(&text, &pat) {
        Some(i) => {
            let code = inst_id.substring_char(0, i);
            proof {
                assert(seq_contains(inst_id@, "-USDT"@)) by {
                    assert(occurs_at(inst_id@, "-USDT"@, i as int));
                }
            }
            code
        },
        None => inst_id,
    }
}

/// The open time and interval of an OKX candle from the parses of its text fields;
/// a field that does not parse counts as 0.
pub fn okx_candle_times_from(ts: Option<i64>, interval: Option<i64>) -> (r: (u64, i64))
    ensures
        r.0 == (match ts { Some(v) => v as u64, None => 0u64 }),
        r.1 == (match interval { Some(v) => v, None => 0i64 }),
{
    let open_time_ms: i64 = match ts { Some(v) => v, None => 0 };
    let iv: i64 = match interval { Some(v) => v, None => 0 };
    (open_time_ms as u64, iv)
}

/// The open time (milliseconds) and interval of an OKX candle from its text fields.
pub fn okx_candle_times(ts: &str, interval: &str) -> (r: (u64, i64))
    ensures
        r.0 == (match parsed_i64(ts@) { Some(v) => v as u64, None => 0u64 }),
        r.1 == (match parsed_i64(interval@) { Some(v) => v, None => 0i64 }),
{
    okx_candle_times_from(str_parse_i64(ts), str_parse_i64(interval))
}

} // verus!
