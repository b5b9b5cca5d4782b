//! Typed weather records and the icon choice.
//!
//! The weather source answers with fixed-shape arrays: 48 hourly
//! temperatures and condition codes, and 4 daily records. Fetching and JSON
//! field extraction happen outside the library; the functions here turn the
//! extracted plain arrays into typed records, mapping any condition code
//! outside the known enumeration to a fallback variant instead of failing.
//! Temperatures are carried in tenths of a degree Celsius.

use crate::tz::CivilDate;
use vstd::prelude::*;

verus! {

/// Hourly records one forecast response carries.
pub const HOURLY_RECORDS: usize = 48;

/// Daily records one forecast response carries.
pub const DAILY_RECORDS: usize = 4;

/// WMO weather condition codes, plus a fallback for codes outside the
/// known enumeration.
#[derive(Debug, Clone, Copy, PartialEq, Eq, Structural)]
pub enum WeatherCode {
    Clear,
    MainlyClear,
    PartlyCloudy,
    Overcast,
    Fog,
    DepositingRimeFog,
    LightDrizzle,
    ModerateDrizzle,
    DenseDrizzle,
    LightFreezingDrizzle,
    DenseFreezingDrizzle,
    SlightRain,
    ModerateRain,
    HeavyRain,
    FreezingLightRain,
    FreezingHeavyRain,
    SlightSnow,
    ModerateSnow,
    HeavySnow,
    SnowGrains,
    SlightRainShower,
    ModerateRainShower,
    ViolentRainShower,
    SlightThunderstorm,
    SlightThunderstormSlightHail,
    SlightThunderstormHeavyHail,
    /// A code the enumeration does not know; rendered as a mild default
    /// rather than failing the decode.
    Unknown,
}

/// The condition a numeric code names.
pub open spec fn weather_code_spec(code: u8) -> WeatherCode {
    if code == 0 {
        WeatherCode::Clear
    } else if code == 1 {
        WeatherCode::MainlyClear
    } else if code == 2 {
        WeatherCode::PartlyCloudy
    } else if code == 3 {
        WeatherCode::Overcast
    } else if code == 45 {
        WeatherCode::Fog
    } else if code == 48 {
        WeatherCode::DepositingRimeFog
    } else if code == 51 {
        WeatherCode::LightDrizzle
    } else if code == 53 {
        WeatherCode::ModerateDrizzle
    } else if code == 55 {
        WeatherCode::DenseDrizzle
    } else if code == 56 {
        WeatherCode::LightFreezingDrizzle
    } else if code == 57 {
        WeatherCode::DenseFreezingDrizzle
    } else if code == 61 {
        WeatherCode::SlightRain
    } else if code == 63 {
        WeatherCode::ModerateRain
    } else if code == 65 {
        WeatherCode::HeavyRain
    } else if code == 66 {
        WeatherCode::FreezingLightRain
    } else if code == 67 {
        WeatherCode::FreezingHeavyRain
    } else if code == 71 {
        WeatherCode::SlightSnow
    } else if code == 73 {
        WeatherCode::ModerateSnow
    } else if code == 75 {
        WeatherCode::HeavySnow
    } else if code == 77 {
        WeatherCode::SnowGrains
    } else if code == 80 {
        WeatherCode::SlightRainShower
    } else if code == 81 {
        WeatherCode::ModerateRainShower
    } else if code == 82 {
        WeatherCode::ViolentRainShower
    } else if code == 95 {
        WeatherCode::SlightThunderstorm
    } else if code == 96 {
        WeatherCode::SlightThunderstormSlightHail
    } else if code == 99 {
        WeatherCode::SlightThunderstormHeavyHail
    } else {
        WeatherCode::Unknown
    }
}

/// The condition the numeric code `code` names; codes outside the known
/// enumeration map to [`WeatherCode::Unknown`].
pub fn weather_code_from(code: u8) -> (r: WeatherCode)
    ensures
        r == weather_code_spec(code),
{
    match code {
        0 => WeatherCode::Clear,
        1 => WeatherCode::MainlyClear,
        2 => WeatherCode::PartlyCloudy,
        3 => WeatherCode::Overcast,
        45 => WeatherCode::Fog,
        48 => WeatherCode::DepositingRimeFog,
        51 => WeatherCode::LightDrizzle,
        53 => WeatherCode::ModerateDrizzle,
        55 => WeatherCode::DenseDrizzle,
        56 => WeatherCode::LightFreezingDrizzle,
        57 => WeatherCode::DenseFreezingDrizzle,
        61 => WeatherCode::SlightRain,
        63 => WeatherCode::ModerateRain,
        65 => WeatherCode::HeavyRain,
        66 => WeatherCode::FreezingLightRain,
        67 => WeatherCode::FreezingHeavyRain,
        71 => WeatherCode::SlightSnow,
        73 => WeatherCode::ModerateSnow,
        75 => WeatherCode::HeavySnow,
        77 => WeatherCode::SnowGrains,
        80 => WeatherCode::SlightRainShower,
        81 => WeatherCode::ModerateRainShower,
        82 => WeatherCode::ViolentRainShower,
        95 => WeatherCode::SlightThunderstorm,
        96 => WeatherCode::SlightThunderstormSlightHail,
        99 => WeatherCode::SlightThunderstormHeavyHail,
        _ => WeatherCode::Unknown,
    }
}

/// One hour of forecast: the hour of day it belongs to, the temperature in
/// tenths of a degree Celsius, and the condition.
#[derive(Debug, Clone, Copy, PartialEq, Eq, Structural)]
pub struct HourlyForecast {
    pub hour: u8,
    pub temperature: i16,
    pub weather_code: WeatherCode,
}

/// One day of forecast: its date, the day's low and high in tenths of a
/// degree Celsius, and the condition.
#[derive(Debug, Clone, Copy, PartialEq, Eq, Structural)]
pub struct DailyForecast {
    pub date: CivilDate,
    pub min_temperature: i16,
    pub max_temperature: i16,
    pub weather_code: WeatherCode,
}

/// Typed hourly records from the response's plain arrays: record `i` gets
/// hour of day `i % 24`, its temperature, and its decoded condition.
pub fn hourly_forecast(temperatures: &Vec<i16>, codes: &Vec<u8>) -> (r: Vec<HourlyForecast>)
    requires
        temperatures@.len() == HOURLY_RECORDS,
        codes@.len() == HOURLY_RECORDS,
    ensures
        r@.len() == HOURLY_RECORDS,
        forall|i: int|
            0 <= i < HOURLY_RECORDS ==> (#[trigger] r@[i]) == (HourlyForecast {
                hour: (i % 24) as u8,
                temperature: temperatures@[i],
                weather_code: weather_code_spec(codes@[i]),
            }),
{
    let mut r: Vec<HourlyForecast> = Vec::new();
    let mut i: usize = 0;
    while i < HOURLY_RECORDS
        invariant
            i <= HOURLY_RECORDS,
            temperatures@.len() == HOURLY_RECORDS,
            codes@.len() == HOURLY_RECORDS,
            r@.len() == i,
            forall|k: int|
                0 <= k < i ==> (#[trigger] r@[k]) == (HourlyForecast {
                    hour: (k % 24) as u8,
                    temperature: temperatures@[k],
                    weather_code: weather_code_spec(codes@[k]),
                }),
        decreases HOURLY_RECORDS - i,
    {
        r.push(
            HourlyForecast {
                hour: (i % 24) as u8,
                temperature: temperatures[i],
                weather_code: weather_code_from(codes[i]),
            },
        );
        i = i + 1;
    }
    r
}

/// Typed daily records from the response's plain arrays, zipped pointwise.
pub fn daily_forecast(
    dates: &Vec<CivilDate>,
    min_temperatures: &Vec<i16>,
    max_temperatures: &Vec<i16>,
    codes: &Vec<u8>,
) -> (r: Vec<DailyForecast>)
    requires
        dates@.len() == DAILY_RECORDS,
        min_temperatures@.len() == DAILY_RECORDS,
        max_temperatures@.len() == DAILY_RECORDS,
        codes@.len() == DAILY_RECORDS,
    ensures
        r@.len() == DAILY_RECORDS,
        forall|i: int|
            0 <= i < DAILY_RECORDS ==> (#[trigger] r@[i]) == (DailyForecast {
                date: dates@[i],
                min_temperature: min_temperatures@[i],
                max_temperature: max_temperatures@[i],
                weather_code: weather_code_spec(codes@[i]),
            }),
{
    let mut r: Vec<DailyForecast> = Vec::new();
    let mut i: usize = 0;
    while i < DAILY_RECORDS
        invariant
            i <= DAILY_RECORDS,
            dates@.len() == DAILY_RECORDS,
            min_temperatures@.len() == DAILY_RECORDS,
            max_temperatures@.len() == DAILY_RECORDS,
            codes@.len() == DAILY_RECORDS,
            r@.len() == i,
            forall|k: int|
                0 <= k < i ==> (#[trigger] r@[k]) == (DailyForecast {
                    date: dates@[k],
                    min_temperature: min_temperatures@[k],
                    max_temperature: max_temperatures@[k],
                    weather_code: weather_code_spec(codes@[k]),
                }),
        decreases DAILY_RECORDS - i,
    {
        r.push(
            DailyForecast {
                date: dates[i],
                min_temperature: min_temperatures[i],
                max_temperature: max_temperatures[i],
                weather_code: weather_code_from(codes[i]),
            },
        );
        i = i + 1;
    }
    r
}

/// Hourly slots shown on the display.
pub const HOURLY_SHOWN: usize = 3;

/// Hours between two shown hourly slots.
pub const HOURLY_STRIDE: usize = 2;

/// How many records `select_hourly` picks: every second record from
/// `start` on, up to three of them.
pub open spec fn selected_hourly_len(len: int, start: int) -> int {
    let avail = if start >= len {
        0
    } else {
        (len - start + 1) / 2
    };
    if avail < 3 {
        avail
    } else {
        3
    }
}

/// The hourly records shown for a cycle that starts at hour-of-forecast
/// `start`: the record at `start` and every second one after it, up to
/// [`HOURLY_SHOWN`] of them.
pub fn select_hourly(forecast: &Vec<HourlyForecast>, start: usize) -> (r: Vec<HourlyForecast>)
    ensures
        r@.len() == selected_hourly_len(forecast@.len() as int, start as int),
        forall|k: int| 0 <= k < r@.len() ==> r@[k] == forecast@[start + 2 * k],
{
    let mut r: Vec<HourlyForecast> = Vec::new();
    let mut j: usize = start;
    while j < forecast.len() && r.len() < HOURLY_SHOWN
        invariant
            start <= j,
            r@.len() <= HOURLY_SHOWN,
            j == start + 2 * r@.len(),
            forall|k: int| 0 <= k < r@.len() ==> r@[k] == forecast@[start + 2 * k],
            r@.len() > 0 ==> j < forecast@.len(),
        decreases forecast@.len() - j,
    {
        r.push(forecast[j]);
        if forecast.len() - j <= HOURLY_STRIDE {
            proof {
                vstd::arithmetic::div_mod::lemma_hoist_over_denominator(
                    forecast@.len() - j + 1,
                    r@.len() - 1,
                    2,
                );
                assert(r@.len() == selected_hourly_len(forecast@.len() as int, start as int));
            }
            return r;
        }
        j = j + HOURLY_STRIDE;
    }
    proof {
        let len = forecast@.len() as int;
        let s = start as int;
        if r@.len() == 0 {
            assert(s >= len);
        } else {
            assert(r@.len() == HOURLY_SHOWN && j < len);
            assert(len - s + 1 >= 2 * HOURLY_SHOWN + 1);
            vstd::arithmetic::div_mod::lemma_div_is_ordered(
                2 * HOURLY_SHOWN + 1,
                len - s + 1,
                2,
            );
        }
        assert(r@.len() == selected_hourly_len(len, s));
    }
    r
}

/// The daily records shown: all but the first, which describes the day
/// already on the display's date region.
pub fn upcoming_daily(forecast: &Vec<DailyForecast>) -> (r: Vec<DailyForecast>)
    ensures
        r@.len() == (if forecast@.len() == 0 {
            0int
        } else {
            forecast@.len() - 1
        }),
        forall|k: int| 0 <= k < r@.len() ==> r@[k] == forecast@[k + 1],
{
    let mut r: Vec<DailyForecast> = Vec::new();
    let mut i: usize = 1;
    while i < forecast.len()
        invariant
            1 <= i,
            i <= forecast@.len() || i == 1,
            r@.len() == i - 1,
            forall|k: int| 0 <= k < r@.len() ==> r@[k] == forecast@[k + 1],
        decreases forecast@.len() - i,
    {
        r.push(forecast[i]);
        i = i + 1;
    }
    r
}

/// The icons the drawing layer can place in a weather region.
#[derive(Debug, Clone, Copy, PartialEq, Eq, Structural)]
pub enum Icon {
    Sun,
    CloudSun,
    Moon,
    CloudMoon,
    Cloud,
    CloudWind,
    Rain0,
    Rain1,
    Rain2,
}

/// Daytime hours for icon purposes.
pub open spec fn is_day(hour: u8) -> bool {
    8 <= hour <= 19
}

/// The icon shown for a condition at an hour of day: clear skies become sun
/// or moon by the hour, and conditions without an icon of their own fall
/// back to the sun.
pub open spec fn hourly_icon_spec(hour: u8, code: WeatherCode) -> Icon {
    match code {
        WeatherCode::Clear | WeatherCode::MainlyClear => if is_day(hour) {
            Icon::Sun
        } else {
            Icon::Moon
        },
        WeatherCode::PartlyCloudy => if is_day(hour) {
            Icon::CloudSun
        } else {
            Icon::CloudMoon
        },
        WeatherCode::Overcast => Icon::Cloud,
        WeatherCode::Fog => Icon::CloudWind,
        WeatherCode::SlightRain | WeatherCode::LightDrizzle | WeatherCode::ModerateDrizzle => (
        Icon::Rain0),
        WeatherCode::ModerateRain | WeatherCode::SlightRainShower => Icon::Rain1,
        WeatherCode::HeavyRain => Icon::Rain2,
        _ => Icon::Sun,
    }
}

/// The icon for a condition at an hour of day.
pub fn hourly_icon(hour: u8, weather_code: WeatherCode) -> (r: Icon)
    ensures
        r == hourly_icon_spec(hour, weather_code),
{
    let day = 8 <= hour && hour <= 19;
    match weather_code {
        WeatherCode::Clear | WeatherCode::MainlyClear => if day {
            Icon::Sun
        } else {
            Icon::Moon
        },
        WeatherCode::PartlyCloudy => if day {
            Icon::CloudSun
        } else {
            Icon::CloudMoon
        },
        WeatherCode::Overcast => Icon::Cloud,
        WeatherCode::Fog => Icon::CloudWind,
        WeatherCode::SlightRain | WeatherCode::LightDrizzle | WeatherCode::ModerateDrizzle => (
        Icon::Rain0),
        WeatherCode::ModerateRain | WeatherCode::SlightRainShower => Icon::Rain1,
        WeatherCode::HeavyRain => Icon::Rain2,
        _ => Icon::Sun,
    }
}

} // verus!
