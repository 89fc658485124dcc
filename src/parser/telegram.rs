//! The text telegram: a fixed sequence of whitespace-separated tokens.
use vstd::prelude::*;
use vstd::string::*;

use super::number::{
    date_fields, inf_word, infinity_word, is_digit, is_exp_mark, is_float, is_float_literal,
    is_mantissa, lower_code, nan_word, parse_date_fields, parse_time_fields, parse_u16, parse_u8,
    signed_body, spells, time_fields, unsigned_value,
};
use super::tokens::{is_ws, lemma_tokens_word, tokens, utf8_lead_byte, TokenIterator};
use crate::calendar::{timestamp_of, valid_date, wall_clock_timestamp};
use crate::error::{Error, Result};

verus! {

/// Number of tokens of a telegram.
pub const TELEGRAM_TOKENS: usize = 32;

/// Maximum amount of additional sensors.
pub const EXT_SENSOR_COUNT: usize = 7;

/// Data from the indoor console.
///
/// Fractional readings hold the decimal text the console sent, which is
/// always a literal that `f32::from_str` accepts.
#[derive(Clone, Debug, PartialEq)]
pub struct Ws6in1IndoorData {
    pub temperature: String,
    pub humidity: u8,
    pub baro_sea: u16,
    pub baro_absolute: u16,
}

/// Data from the main outdoor sensor.
///
/// Fractional readings hold the decimal text the console sent, which is
/// always a literal that `f32::from_str` accepts.
#[derive(Clone, Debug, PartialEq)]
pub struct Ws6in1OutdoorData {
    pub temperature: String,
    pub humidity: u8,
    pub rain_day: String,
    pub rain_actual: String,
    pub wind_actual: String,
    pub wind_gust: String,
    pub wind_dir: u16,
    pub uv_index: String,
    pub dew_point: String,
}

/// Data from an extra sensor.
#[derive(Clone, Debug, PartialEq)]
pub struct Ws6in1ExtData {
    pub temperature: String,
    pub humidity: u8,
}

/// Parsed weather data from a Ws6in1 compatible weather station.
#[derive(Clone, Debug, PartialEq)]
pub struct Ws6in1Data {
    /// Unix timestamp in local timezone and with 60 seconds resolution.
    pub local_timestamp: i64,
    /// Data measured by the indoor unit. This data is always available.
    pub indoor: Ws6in1IndoorData,
    /// Data measured by the outdoor unit. This data may be unavailable.
    pub outdoor: Option<Ws6in1OutdoorData>,
    /// Data measured by additional sensors.
    pub ext: [Option<Ws6in1ExtData>; 7],
}

pub open spec fn u8_value(t: Seq<char>) -> Option<nat> {
    unsigned_value(t, 255)
}

pub open spec fn u16_value(t: Seq<char>) -> Option<nat> {
    unsigned_value(t, 65535)
}

/// A date token that names a day of the calendar.
pub open spec fn is_date(t: Seq<char>) -> bool {
    date_fields(t) matches Some((y, m, d)) && valid_date(y, m, d)
}

/// The mandatory token at one-based position `p` reads as its type.
pub open spec fn mandatory_ok(toks: Seq<Seq<char>>, p: int) -> bool {
    let t = toks[p - 1];
    if p == 2 {
        is_date(t)
    } else if p == 3 {
        time_fields(t) is Some
    } else if p == 4 {
        is_float_literal(t)
    } else if p == 5 {
        u8_value(t) is Some
    } else {
        u16_value(t) is Some
    }
}

/// The error met at the mandatory token of position `p`, if any.
pub open spec fn mandatory_error(toks: Seq<Seq<char>>, p: int) -> Option<Error> {
    if toks.len() < p {
        Some(Error::UnexpectedEnd { tpos: toks.len() as usize })
    } else if !mandatory_ok(toks, p) {
        Some(Error::InvalidToken { tpos: p as usize })
    } else {
        None
    }
}

/// The error that parsing the tokens `toks` of a telegram gives, if any.
///
/// Mandatory tokens are the date (2), time (3), indoor temperature (4) and
/// humidity (5), and both barometric readings (14, 15); the others may be
/// any text.
pub open spec fn telegram_error(toks: Seq<Seq<char>>) -> Option<Error> {
    if mandatory_error(toks, 2) is Some {
        mandatory_error(toks, 2)
    } else if mandatory_error(toks, 3) is Some {
        mandatory_error(toks, 3)
    } else if mandatory_error(toks, 4) is Some {
        mandatory_error(toks, 4)
    } else if mandatory_error(toks, 5) is Some {
        mandatory_error(toks, 5)
    } else if mandatory_error(toks, 14) is Some {
        mandatory_error(toks, 14)
    } else if mandatory_error(toks, 15) is Some {
        mandatory_error(toks, 15)
    } else if toks.len() < TELEGRAM_TOKENS {
        Some(Error::UnexpectedEnd { tpos: toks.len() as usize })
    } else if toks.len() > TELEGRAM_TOKENS {
        Some(Error::GarbageEnd { char: utf8_lead_byte(toks[TELEGRAM_TOKENS as int][0]) })
    } else {
        None
    }
}

/// All nine outdoor readings are present.
pub open spec fn outdoor_present(toks: Seq<Seq<char>>) -> bool {
    &&& is_float_literal(toks[5])
    &&& u8_value(toks[6]) is Some
    &&& is_float_literal(toks[7])
    &&& is_float_literal(toks[8])
    &&& is_float_literal(toks[9])
    &&& is_float_literal(toks[10])
    &&& u16_value(toks[11]) is Some
    &&& is_float_literal(toks[15])
    &&& is_float_literal(toks[16])
}

pub open spec fn outdoor_matches(o: Ws6in1OutdoorData, toks: Seq<Seq<char>>) -> bool {
    &&& o.temperature@ == toks[5]
    &&& u8_value(toks[6]) == Some(o.humidity as nat)
    &&& o.rain_day@ == toks[7]
    &&& o.rain_actual@ == toks[8]
    &&& o.wind_actual@ == toks[9]
    &&& o.wind_gust@ == toks[10]
    &&& u16_value(toks[11]) == Some(o.wind_dir as nat)
    &&& o.uv_index@ == toks[15]
    &&& o.dew_point@ == toks[16]
}

/// Both readings of extra sensor `i` are present.
pub open spec fn ext_present(toks: Seq<Seq<char>>, i: int) -> bool {
    is_float_literal(toks[18 + 2 * i]) && u8_value(toks[19 + 2 * i]) is Some
}

pub open spec fn ext_matches(e: Ws6in1ExtData, toks: Seq<Seq<char>>, i: int) -> bool {
    e.temperature@ == toks[18 + 2 * i] && u8_value(toks[19 + 2 * i]) == Some(e.humidity as nat)
}

/// The slot of extra sensor `i` as the tokens give it.
pub open spec fn ext_slot_matches(slot: Option<Ws6in1ExtData>, toks: Seq<Seq<char>>, i: int) -> bool {
    if ext_present(toks, i) {
        slot matches Some(e) && ext_matches(e, toks, i)
    } else {
        slot is None
    }
}

/// The local timestamp that the date and time tokens give.
pub open spec fn telegram_timestamp(toks: Seq<Seq<char>>) -> int {
    let (y, m, d) = date_fields(toks[1]).unwrap();
    let (h, mi) = time_fields(toks[2]).unwrap();
    timestamp_of(y as i32, m as u8, d as u8, h as u8, mi as u8)
}

/// `d` is the record that the tokens `toks` of a telegram without error give.
pub open spec fn describes(d: Ws6in1Data, toks: Seq<Seq<char>>) -> bool {
    &&& d.local_timestamp == telegram_timestamp(toks)
    &&& d.indoor.temperature@ == toks[3]
    &&& u8_value(toks[4]) == Some(d.indoor.humidity as nat)
    &&& u16_value(toks[13]) == Some(d.indoor.baro_sea as nat)
    &&& u16_value(toks[14]) == Some(d.indoor.baro_absolute as nat)
    &&& if outdoor_present(toks) {
        d.outdoor matches Some(o) && outdoor_matches(o, toks)
    } else {
        d.outdoor is None
    }
    &&& forall|i: int| 0 <= i < EXT_SENSOR_COUNT ==> ext_slot_matches(#[trigger] d.ext@[i], toks, i)
}

/// The iterator has handed out the first tokens of `toks`.
pub open spec fn synced(iter: TokenIterator, toks: Seq<Seq<char>>) -> bool {
    iter.count() <= toks.len() && iter.remaining_tokens() == toks.skip(iter.count() as int)
}

/// The next token of `toks`.
fn take<'a>(iter: &mut TokenIterator<'a>, Ghost(toks): Ghost<Seq<Seq<char>>>) -> (r: Result<&'a str>)
    requires
        synced(*old(iter), toks),
    ensures
        synced(*final(iter), toks),
        old(iter).count() < toks.len() ==> {
            &&& r matches Ok(t) && t@ == toks[old(iter).count() as int]
            &&& final(iter).count() == old(iter).count() + 1
        },
        old(iter).count() >= toks.len() ==> r == Err::<&str, Error>(
            Error::UnexpectedEnd { tpos: toks.len() as usize },
        ),
{
    let r = iter.next();
    proof {
        let k = old(iter).count() as int;
        if k < toks.len() {
            assert(toks.skip(k)[0] == toks[k]);
            assert(toks.skip(k).drop_first() =~= toks.skip(k + 1));
        }
    }
    r
}

/// The next token as an optional fractional reading.
fn take_float(iter: &mut TokenIterator, Ghost(toks): Ghost<Seq<Seq<char>>>) -> (r: Result<
    Option<String>,
>)
    requires
        synced(*old(iter), toks),
    ensures
        synced(*final(iter), toks),
        old(iter).count() < toks.len() ==> {
            &&& r matches Ok(v) && if is_float_literal(toks[old(iter).count() as int]) {
                v matches Some(s) && s@ == toks[old(iter).count() as int]
            } else {
                v is None
            }
            &&& final(iter).count() == old(iter).count() + 1
        },
        old(iter).count() >= toks.len() ==> r == Err::<Option<String>, Error>(
            Error::UnexpectedEnd { tpos: toks.len() as usize },
        ),
{
    let t = match take(iter, Ghost(toks)) {
        Ok(t) => t,
        Err(e) => {
            return Err(e);
        },
    };
    if is_float(t) {
        Ok(Some(String::from_str(t)))
    } else {
        Ok(None)
    }
}

/// The next token as an optional `u8` reading.
fn take_u8(iter: &mut TokenIterator, Ghost(toks): Ghost<Seq<Seq<char>>>) -> (r: Result<Option<u8>>)
    requires
        synced(*old(iter), toks),
    ensures
        synced(*final(iter), toks),
        old(iter).count() < toks.len() ==> {
            &&& r matches Ok(v) && match v {
                Some(x) => u8_value(toks[old(iter).count() as int]) == Some(x as nat),
                None => u8_value(toks[old(iter).count() as int]) is None,
            }
            &&& final(iter).count() == old(iter).count() + 1
        },
        old(iter).count() >= toks.len() ==> r == Err::<Option<u8>, Error>(
            Error::UnexpectedEnd { tpos: toks.len() as usize },
        ),
{
    match take(iter, Ghost(toks)) {
        Ok(t) => Ok(parse_u8(t)),
        Err(e) => Err(e),
    }
}

/// The next token as an optional `u16` reading.
fn take_u16(iter: &mut TokenIterator, Ghost(toks): Ghost<Seq<Seq<char>>>) -> (r: Result<
    Option<u16>,
>)
    requires
        synced(*old(iter), toks),
    ensures
        synced(*final(iter), toks),
        old(iter).count() < toks.len() ==> {
            &&& r matches Ok(v) && match v {
                Some(x) => u16_value(toks[old(iter).count() as int]) == Some(x as nat),
                None => u16_value(toks[old(iter).count() as int]) is None,
            }
            &&& final(iter).count() == old(iter).count() + 1
        },
        old(iter).count() >= toks.len() ==> r == Err::<Option<u16>, Error>(
            Error::UnexpectedEnd { tpos: toks.len() as usize },
        ),
{
    match take(iter, Ghost(toks)) {
        Ok(t) => Ok(parse_u16(t)),
        Err(e) => Err(e),
    }
}

/// The next extra sensor slot.
fn take_ext(iter: &mut TokenIterator, Ghost(toks): Ghost<Seq<Seq<char>>>, Ghost(i): Ghost<int>) -> (r:
    Result<Option<Ws6in1ExtData>>)
    requires
        synced(*old(iter), toks),
        old(iter).count() == 18 + 2 * i,
        0 <= i < EXT_SENSOR_COUNT,
    ensures
        synced(*final(iter), toks),
        toks.len() >= 20 + 2 * i ==> {
            &&& r matches Ok(slot) && ext_slot_matches(slot, toks, i)
            &&& final(iter).count() == old(iter).count() + 2
        },
        toks.len() < 20 + 2 * i ==> r == Err::<Option<Ws6in1ExtData>, Error>(
            Error::UnexpectedEnd { tpos: toks.len() as usize },
        ),
{
    let temperature = match take_float(iter, Ghost(toks)) {
        Ok(t) => t,
        Err(e) => {
            return Err(e);
        },
    };
    let humidity = match take_u8(iter, Ghost(toks)) {
        Ok(h) => h,
        Err(e) => {
            return Err(e);
        },
    };
    match (temperature, humidity) {
        (Some(temperature), Some(humidity)) => Ok(Some(Ws6in1ExtData { temperature, humidity })),
        _ => Ok(None),
    }
}

impl Ws6in1Data {
    /// Maximum amount of additional sensors.
    pub const EXT_SENSOR_COUNT: usize = 7;

    /// Parses a telegram.
    ///
    /// The date and time combine into a timestamp with zero seconds, counted
    /// as if the console's wall clock showed UTC. Optional readings that do
    /// not read as their type are absent; the outdoor record is present only
    /// with all nine of its readings, each extra sensor only with both.
    #[verifier::rlimit(50)]
    pub fn parse(msg: &str) -> (r: Result<Ws6in1Data>)
        ensures
            match r {
                Ok(d) => telegram_error(tokens(msg@)) is None && describes(d, tokens(msg@)),
                Err(e) => telegram_error(tokens(msg@)) == Some(e),
            },
    {
        let ghost toks = tokens(msg@);
        let mut iter = TokenIterator::new(msg);
        assert(toks.skip(0) =~= toks);
        // history percentage
        if let Err(e) = take(&mut iter, Ghost(toks)) {
            return Err(e);
        }
        let t = match take(&mut iter, Ghost(toks)) {
            Ok(t) => t,
            Err(e) => {
                return Err(e);
            },
        };
        let (year, month, day) = match parse_date_fields(t) {
            Some(f) => f,
            None => {
                return Err(Error::InvalidToken { tpos: iter.pos() });
            },
        };
        let midnight = match wall_clock_timestamp(year, month, day, 0, 0) {
            Some(ts) => ts,
            None => {
                return Err(Error::InvalidToken { tpos: iter.pos() });
            },
        };
        assert(mandatory_error(toks, 2) is None);
        let t = match take(&mut iter, Ghost(toks)) {
            Ok(t) => t,
            Err(e) => {
                return Err(e);
            },
        };
        let (hour, minute) = match parse_time_fields(t) {
            Some(f) => f,
            None => {
                return Err(Error::InvalidToken { tpos: iter.pos() });
            },
        };
        assert(mandatory_error(toks, 3) is None);
        let local_timestamp = midnight + hour as i64 * 3600 + minute as i64 * 60;
        assert(local_timestamp == telegram_timestamp(toks));
        let temperature_in = match take_float(&mut iter, Ghost(toks)) {
            Ok(Some(v)) => v,
            Ok(None) => {
                return Err(Error::InvalidToken { tpos: iter.pos() });
            },
            Err(e) => {
                return Err(e);
            },
        };
        assert(mandatory_error(toks, 4) is None);
        let humidity_in = match take_u8(&mut iter, Ghost(toks)) {
            Ok(Some(v)) => v,
            Ok(None) => {
                return Err(Error::InvalidToken { tpos: iter.pos() });
            },
            Err(e) => {
                return Err(e);
            },
        };
        assert(mandatory_error(toks, 5) is None);
        let temperature = match take_float(&mut iter, Ghost(toks)) {
            Ok(v) => v,
            Err(e) => {
                return Err(e);
            },
        };
        let humidity = match take_u8(&mut iter, Ghost(toks)) {
            Ok(v) => v,
            Err(e) => {
                return Err(e);
            },
        };
        let rain_day = match take_float(&mut iter, Ghost(toks)) {
            Ok(v) => v,
            Err(e) => {
                return Err(e);
            },
        };
        let rain_actual = match take_float(&mut iter, Ghost(toks)) {
            Ok(v) => v,
            Err(e) => {
                return Err(e);
            },
        };
        let wind_actual = match take_float(&mut iter, Ghost(toks)) {
            Ok(v) => v,
            Err(e) => {
                return Err(e);
            },
        };
        let wind_gust = match take_float(&mut iter, Ghost(toks)) {
            Ok(v) => v,
            Err(e) => {
                return Err(e);
            },
        };
        let wind_dir = match take_u16(&mut iter, Ghost(toks)) {
            Ok(v) => v,
            Err(e) => {
                return Err(e);
            },
        };
        // wind octant
        if let Err(e) = take(&mut iter, Ghost(toks)) {
            return Err(e);
        }
        let baro_sea = match take_u16(&mut iter, Ghost(toks)) {
            Ok(Some(v)) => v,
            Ok(None) => {
                return Err(Error::InvalidToken { tpos: iter.pos() });
            },
            Err(e) => {
                return Err(e);
            },
        };
        assert(mandatory_error(toks, 14) is None);
        let baro_absolute = match take_u16(&mut iter, Ghost(toks)) {
            Ok(Some(v)) => v,
            Ok(None) => {
                return Err(Error::InvalidToken { tpos: iter.pos() });
            },
            Err(e) => {
                return Err(e);
            },
        };
        assert(mandatory_error(toks, 15) is None);
        let uv_index = match take_float(&mut iter, Ghost(toks)) {
            Ok(v) => v,
            Err(e) => {
                return Err(e);
            },
        };
        let dew_point = match take_float(&mut iter, Ghost(toks)) {
            Ok(v) => v,
            Err(e) => {
                return Err(e);
            },
        };
        // unknown
        if let Err(e) = take(&mut iter, Ghost(toks)) {
            return Err(e);
        }
        let indoor = Ws6in1IndoorData {
            temperature: temperature_in,
            humidity: humidity_in,
            baro_sea,
            baro_absolute,
        };
        let outdoor = if temperature.is_some() && humidity.is_some() && rain_day.is_some()
            && rain_actual.is_some() && wind_actual.is_some() && wind_gust.is_some()
            && wind_dir.is_some() && uv_index.is_some() && dew_point.is_some() {
            Some(
                Ws6in1OutdoorData {
                    temperature: temperature.unwrap(),
                    humidity: humidity.unwrap(),
                    rain_day: rain_day.unwrap(),
                    rain_actual: rain_actual.unwrap(),
                    wind_actual: wind_actual.unwrap(),
                    wind_gust: wind_gust.unwrap(),
                    wind_dir: wind_dir.unwrap(),
                    uv_index: uv_index.unwrap(),
                    dew_point: dew_point.unwrap(),
                },
            )
        } else {
            None
        };
        let e0 = match take_ext(&mut iter, Ghost(toks), Ghost(0)) {
            Ok(v) => v,
            Err(e) => {
                return Err(e);
            },
        };
        let e1 = match take_ext(&mut iter, Ghost(toks), Ghost(1)) {
            Ok(v) => v,
            Err(e) => {
                return Err(e);
            },
        };
        let e2 = match take_ext(&mut iter, Ghost(toks), Ghost(2)) {
            Ok(v) => v,
            Err(e) => {
                return Err(e);
            },
        };
        let e3 = match take_ext(&mut iter, Ghost(toks), Ghost(3)) {
            Ok(v) => v,
            Err(e) => {
                return Err(e);
            },
        };
        let e4 = match take_ext(&mut iter, Ghost(toks), Ghost(4)) {
            Ok(v) => v,
            Err(e) => {
                return Err(e);
            },
        };
        let e5 = match take_ext(&mut iter, Ghost(toks), Ghost(5)) {
            Ok(v) => v,
            Err(e) => {
                return Err(e);
            },
        };
        let e6 = match take_ext(&mut iter, Ghost(toks), Ghost(6)) {
            Ok(v) => v,
            Err(e) => {
                return Err(e);
            },
        };
        let ghost rest = iter.remaining_tokens();
        if let Err(e) = iter.end() {
            proof {
                assert(rest[0] == toks[TELEGRAM_TOKENS as int]);
            }
            return Err(e);
        }
        let ext = [e0, e1, e2, e3, e4, e5, e6];
        let d = Ws6in1Data { local_timestamp, indoor, outdoor, ext };
        proof {
            assert(toks.len() == TELEGRAM_TOKENS);
            assert forall|i: int| 0 <= i < EXT_SENSOR_COUNT implies ext_slot_matches(
                #[trigger] d.ext@[i],
                toks,
                i,
            ) by {
                if i == 0 {
                } else if i == 1 {
                } else if i == 2 {
                } else if i == 3 {
                } else if i == 4 {
                } else if i == 5 {
                } else {
                }
            }
        }
        Ok(d)
    }
}


/// The placeholders the console sends for a missing reading.
pub open spec fn is_sentinel(t: Seq<char>) -> bool {
    t == seq!['-', '-', '.', '-'] || t == seq!['-', '-']
}

/// Zero-based positions of tokens that may be any text.
pub open spec fn is_optional_position(i: int) -> bool {
    0 <= i < TELEGRAM_TOKENS && i != 1 && i != 2 && i != 3 && i != 4 && i != 13 && i != 14
}

/// Zero-based positions of the nine outdoor readings.
pub open spec fn is_outdoor_position(i: int) -> bool {
    5 <= i <= 11 || i == 15 || i == 16
}

/// A placeholder reads as no number of any type.
pub proof fn lemma_sentinel_absent(t: Seq<char>)
    requires
        is_sentinel(t),
    ensures
        !is_float_literal(t),
        u8_value(t) is None,
        u16_value(t) is None,
{
    let b = signed_body(t);
    assert(b[0] == '-');
    assert(!is_digit(b[0]));
    assert(!spells(b, inf_word()) && !spells(b, infinity_word()) && !spells(b, nan_word())) by {
        assert(lower_code(b[0]) == 45);
    }
    assert forall|k: int| 0 <= k < b.len() implies !is_exp_mark(#[trigger] b[k]) by {
        assert(b[k] == t[k + 1]);
    }
    assert(!is_mantissa(b));
    assert(!is_digit(t[0]));
}

/// A placeholder in place of an optional reading never makes a telegram
/// fail: the error, if any, is the same as with the token it replaces, and
/// the placeholder reads as an absent value.
pub proof fn lemma_sentinel_tolerance(toks: Seq<Seq<char>>, i: int, t: Seq<char>)
    requires
        is_optional_position(i),
        i < toks.len(),
        is_sentinel(t),
    ensures
        telegram_error(toks.update(i, t)) == telegram_error(toks),
        !is_float_literal(t),
        u8_value(t) is None,
        u16_value(t) is None,
{
    lemma_sentinel_absent(t);
    let u = toks.update(i, t);
    assert forall|k: int| 0 <= k < toks.len() && k != i implies #[trigger] u[k] == toks[k] by {}
    assert(u.len() == toks.len());
    assert(toks.len() > 1 ==> u[1] == toks[1]);
    assert(toks.len() > 2 ==> u[2] == toks[2]);
    assert(toks.len() > 3 ==> u[3] == toks[3]);
    assert(toks.len() > 4 ==> u[4] == toks[4]);
    assert(toks.len() > 13 ==> u[13] == toks[13]);
    assert(toks.len() > 14 ==> u[14] == toks[14]);
    assert(toks.len() > TELEGRAM_TOKENS ==> u[TELEGRAM_TOKENS as int] == toks[TELEGRAM_TOKENS as int]);
}

/// Two extra sensor slots hold the same readings.
pub open spec fn same_ext(a: Option<Ws6in1ExtData>, b: Option<Ws6in1ExtData>) -> bool {
    match (a, b) {
        (None, None) => true,
        (Some(x), Some(y)) => x.temperature@ == y.temperature@ && x.humidity == y.humidity,
        _ => false,
    }
}

/// Two outdoor records hold the same readings.
pub open spec fn same_outdoor(a: Option<Ws6in1OutdoorData>, b: Option<Ws6in1OutdoorData>) -> bool {
    match (a, b) {
        (None, None) => true,
        (Some(x), Some(y)) => {
            &&& x.temperature@ == y.temperature@
            &&& x.humidity == y.humidity
            &&& x.rain_day@ == y.rain_day@
            &&& x.rain_actual@ == y.rain_actual@
            &&& x.wind_actual@ == y.wind_actual@
            &&& x.wind_gust@ == y.wind_gust@
            &&& x.wind_dir == y.wind_dir
            &&& x.uv_index@ == y.uv_index@
            &&& x.dew_point@ == y.dew_point@
        },
        _ => false,
    }
}

/// A telegram `m` that differs from a telegram `m0` without error only by a
/// placeholder in place of one optional token also parses without error. Its
/// record `d` equals the record `d0` of `m0`, but that the reading the
/// placeholder replaces is absent: the whole outdoor record for an outdoor
/// reading, the slot of an extra sensor for one of its readings.
pub proof fn lemma_sentinel_in_text(
    m0: Seq<char>,
    m: Seq<char>,
    k: int,
    s: Seq<char>,
    d0: Ws6in1Data,
    d: Ws6in1Data,
)
    requires
        telegram_error(tokens(m0)) is None,
        describes(d0, tokens(m0)),
        is_optional_position(k),
        is_sentinel(s),
        tokens(m) == tokens(m0).update(k, s),
        describes(d, tokens(m)),
    ensures
        telegram_error(tokens(m)) is None,
        d.local_timestamp == d0.local_timestamp,
        d.indoor.temperature@ == d0.indoor.temperature@,
        d.indoor.humidity == d0.indoor.humidity,
        d.indoor.baro_sea == d0.indoor.baro_sea,
        d.indoor.baro_absolute == d0.indoor.baro_absolute,
        is_outdoor_position(k) ==> d.outdoor is None,
        !is_outdoor_position(k) ==> same_outdoor(d.outdoor, d0.outdoor),
        18 <= k ==> d.ext@[(k - 18) / 2] is None,
        forall|j: int|
            0 <= j < EXT_SENSOR_COUNT && (k < 18 || j != (k - 18) / 2) ==> same_ext(
                #[trigger] d.ext@[j],
                d0.ext@[j],
            ),
{
    let t0 = tokens(m0);
    let t = tokens(m);
    assert(mandatory_error(t0, 15) is None);
    assert(t0.len() == TELEGRAM_TOKENS);
    lemma_sentinel_tolerance(t0, k, s);
    assert forall|i: int| 0 <= i < t0.len() && i != k implies #[trigger] t[i] == t0[i] by {}
    assert(t[1] == t0[1] && t[2] == t0[2] && t[3] == t0[3] && t[4] == t0[4]);
    assert(t[13] == t0[13] && t[14] == t0[14]);
    assert(t[k] == s);
    if !is_outdoor_position(k) {
        assert(t[5] == t0[5] && t[6] == t0[6] && t[7] == t0[7] && t[8] == t0[8]);
        assert(t[9] == t0[9] && t[10] == t0[10] && t[11] == t0[11] && t[15] == t0[15]);
        assert(t[16] == t0[16]);
    }
    assert forall|j: int|
        0 <= j < EXT_SENSOR_COUNT && (k < 18 || j != (k - 18) / 2) implies same_ext(
        #[trigger] d.ext@[j],
        d0.ext@[j],
    ) by {
        assert(ext_slot_matches(d.ext@[j], t, j));
        assert(ext_slot_matches(d0.ext@[j], t0, j));
        assert(t[18 + 2 * j] == t0[18 + 2 * j] && t[19 + 2 * j] == t0[19 + 2 * j]);
    }
    if 18 <= k {
        let j = (k - 18) / 2;
        assert(ext_slot_matches(d.ext@[j], t, j));
    }
}

/// If one of the nine outdoor readings is a placeholder, the outdoor record
/// is absent.
pub proof fn lemma_outdoor_all_or_nothing(toks: Seq<Seq<char>>, i: int, d: Ws6in1Data)
    requires
        is_outdoor_position(i),
        i < toks.len(),
        is_sentinel(toks[i]),
        describes(d, toks),
    ensures
        d.outdoor is None,
{
    lemma_sentinel_absent(toks[i]);
}

/// A token after a telegram without error makes it fail with the first byte
/// of that token.
pub proof fn lemma_garbage_end_tokens(toks: Seq<Seq<char>>, extra: Seq<char>)
    requires
        telegram_error(toks) is None,
        extra.len() > 0,
    ensures
        telegram_error(toks.push(extra)) == Some(Error::GarbageEnd { char: utf8_lead_byte(extra[0]) }),
{
    let u = toks.push(extra);
    assert(mandatory_error(toks, 15) is None);
    assert(toks.len() >= 15);
    assert(toks.len() == TELEGRAM_TOKENS);
    assert(u[1] == toks[1] && u[2] == toks[2] && u[3] == toks[3] && u[4] == toks[4]);
    assert(u[13] == toks[13] && u[14] == toks[14]);
    assert(u[TELEGRAM_TOKENS as int] == extra);
}

/// A text that starts with a non-whitespace character has a token.
proof fn lemma_has_token(s: Seq<char>)
    requires
        s.len() > 0,
        !is_ws(s[0]),
    ensures
        tokens(s).len() > 0,
    decreases s.len(),
{
    if s.len() > 1 && !is_ws(s[1]) {
        lemma_has_token(s.drop_first());
    }
}

/// Appending whitespace and a word to a text appends the word to its tokens.
pub proof fn lemma_tokens_append_word(a: Seq<char>, sep: char, w: Seq<char>)
    requires
        is_ws(sep),
        w.len() > 0,
        forall|i: int| 0 <= i < w.len() ==> !is_ws(#[trigger] w[i]),
    ensures
        tokens(a + seq![sep] + w) == tokens(a).push(w),
    decreases a.len(),
{
    let s = a + seq![sep] + w;
    if a.len() == 0 {
        assert(s.drop_first() =~= w);
        lemma_tokens_word(w, w.len() as int);
        assert(w.take(w.len() as int) =~= w);
        assert(w.skip(w.len() as int) =~= Seq::<char>::empty());
        assert(tokens(a) =~= Seq::<Seq<char>>::empty());
        assert(seq![w] + Seq::<Seq<char>>::empty() =~= Seq::<Seq<char>>::empty().push(w));
    } else {
        let a1 = a.drop_first();
        assert(s.drop_first() =~= a1 + seq![sep] + w);
        lemma_tokens_append_word(a1, sep, w);
        let t1 = tokens(a1);
        if is_ws(a[0]) {
        } else if a.len() > 1 && !is_ws(a[1]) {
            lemma_has_token(a1);
            assert(s[1] == a[1]);
            assert(t1.push(w)[0] == t1[0]);
            assert(t1.push(w).drop_first() =~= t1.drop_first().push(w));
            assert(seq![seq![a[0]] + t1[0]] + t1.drop_first().push(w) =~= (seq![seq![a[0]] + t1[0]]
                + t1.drop_first()).push(w));
        } else {
            if a.len() == 1 {
                assert(s[1] == sep);
                assert(a1 =~= Seq::<char>::empty());
            } else {
                assert(s[1] == a[1]);
            }
            assert(seq![seq![a[0]]] + t1.push(w) =~= (seq![seq![a[0]]] + t1).push(w));
        }
    }
}

/// Appending a space and a token to a telegram that parses makes it fail
/// with the first byte of that token.
pub proof fn lemma_garbage_end(msg: Seq<char>, extra: Seq<char>)
    requires
        telegram_error(tokens(msg)) is None,
        extra.len() > 0,
        forall|i: int| 0 <= i < extra.len() ==> !is_ws(#[trigger] extra[i]),
    ensures
        telegram_error(tokens(msg + seq![' '] + extra)) == Some(
            Error::GarbageEnd { char: utf8_lead_byte(extra[0]) },
        ),
{
    lemma_tokens_append_word(msg, ' ', extra);
    lemma_garbage_end_tokens(tokens(msg), extra);
}

} // verus!
