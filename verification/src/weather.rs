//! The weather tool: Open-Meteo geocoding and forecast, turned into a short
//! report for the agent. Chinese place names that the geocoder resolves
//! badly are rewritten first, and Chinese queries prefer hits in China.
//! The HTTP calls and the rendering of measured values (floating point) are
//! the caller's part; it hands the values in as text.
use vstd::prelude::*;

use crate::split::{decimal, spec_decimal};
use crate::text::{
    ascii_lower, chars_of, contains_str, eq_str, extend_chars, extend_vec, owned, spec_all_ascii,
    spec_ascii_lower, spec_contains, spec_is_ascii_alphanumeric, spec_trim, string_of, to_lowercase,
    trim_vec, unicode_lowercase,
};

verus! {

/// What the tool tells the agent it does.
pub const WEATHER_DESCRIPTION: &'static str = "Get current weather conditions and up to 3-day forecast for any location worldwide using Open-Meteo. Supports city names (any language, Chinese included — e.g. 深圳, Shanghai), GPS coordinates ('22.54,114.06'). Units default to metric (°C, km/h, mm).";

/// The endpoint that resolves place names.
pub const GEO_URL: &'static str = "https://geocoding-api.open-meteo.com/v1/search";

/// The forecast endpoint.
pub const FORECAST_URL: &'static str = "https://api.open-meteo.com/v1/forecast";

/// Fetches weather via Open-Meteo: no API key, reliable CJK geocoding.
pub struct WeatherTool;

/// The geocoder query for a place: well-known Chinese names pinned to their
/// English form, anything else only trimmed.
pub open spec fn spec_rewrite(raw: Seq<char>) -> Seq<char> {
    let t = spec_trim(raw);
    if t == "深圳"@ || t == "深圳市"@ {
        "Shenzhen, Guangdong, China"@
    } else if t == "北京"@ || t == "北京市"@ {
        "Beijing, China"@
    } else if t == "上海"@ || t == "上海市"@ {
        "Shanghai, China"@
    } else if t == "广州"@ || t == "广州市"@ {
        "Guangzhou, Guangdong, China"@
    } else if t == "杭州"@ || t == "杭州市"@ {
        "Hangzhou, Zhejiang, China"@
    } else if t == "成都"@ || t == "成都市"@ {
        "Chengdu, Sichuan, China"@
    } else if t == "重庆"@ || t == "重庆市"@ {
        "Chongqing, China"@
    } else if t == "武汉"@ || t == "武汉市"@ {
        "Wuhan, Hubei, China"@
    } else if t == "西安"@ || t == "西安市"@ {
        "Xi'an, Shaanxi, China"@
    } else if t == "南京"@ || t == "南京市"@ {
        "Nanjing, Jiangsu, China"@
    } else if t == "苏州"@ || t == "苏州市"@ {
        "Suzhou, Jiangsu, China"@
    } else if t == "天津"@ || t == "天津市"@ {
        "Tianjin, China"@
    } else if t == "香港"@ {
        "Hong Kong"@
    } else if t == "澳门"@ || t == "澳門"@ {
        "Macau"@
    } else if t == "台北"@ || t == "臺北"@ {
        "Taipei, Taiwan"@
    } else {
        t
    }
}

/// Well-known Chinese place names mapped to the English query the geocoder
/// resolves without ambiguity.
pub fn rewrite_location_query(raw: &str) -> (r: String)
    ensures
        r@ == spec_rewrite(raw@),
{
    let t = trim_vec(&chars_of(raw));
    if eq_str(&t, "深圳") || eq_str(&t, "深圳市") {
        owned("Shenzhen, Guangdong, China")
    } else if eq_str(&t, "北京") || eq_str(&t, "北京市") {
        owned("Beijing, China")
    } else if eq_str(&t, "上海") || eq_str(&t, "上海市") {
        owned("Shanghai, China")
    } else if eq_str(&t, "广州") || eq_str(&t, "广州市") {
        owned("Guangzhou, Guangdong, China")
    } else if eq_str(&t, "杭州") || eq_str(&t, "杭州市") {
        owned("Hangzhou, Zhejiang, China")
    } else if eq_str(&t, "成都") || eq_str(&t, "成都市") {
        owned("Chengdu, Sichuan, China")
    } else if eq_str(&t, "重庆") || eq_str(&t, "重庆市") {
        owned("Chongqing, China")
    } else if eq_str(&t, "武汉") || eq_str(&t, "武汉市") {
        owned("Wuhan, Hubei, China")
    } else if eq_str(&t, "西安") || eq_str(&t, "西安市") {
        owned("Xi'an, Shaanxi, China")
    } else if eq_str(&t, "南京") || eq_str(&t, "南京市") {
        owned("Nanjing, Jiangsu, China")
    } else if eq_str(&t, "苏州") || eq_str(&t, "苏州市") {
        owned("Suzhou, Jiangsu, China")
    } else if eq_str(&t, "天津") || eq_str(&t, "天津市") {
        owned("Tianjin, China")
    } else if eq_str(&t, "香港") {
        owned("Hong Kong")
    } else if eq_str(&t, "澳门") || eq_str(&t, "澳門") {
        owned("Macau")
    } else if eq_str(&t, "台北") || eq_str(&t, "臺北") {
        owned("Taipei, Taiwan")
    } else {
        string_of(&t)
    }
}

/// The WMO weather code in words.
pub open spec fn code_label(code: i32) -> Seq<char> {
    if code == 0 {
        "Clear"@
    } else if code == 1 {
        "Mainly clear"@
    } else if code == 2 {
        "Partly cloudy"@
    } else if code == 3 {
        "Overcast"@
    } else if code == 45 || code == 48 {
        "Fog"@
    } else if code == 51 || code == 53 || code == 55 {
        "Drizzle"@
    } else if code == 56 || code == 57 {
        "Freezing drizzle"@
    } else if code == 61 || code == 63 || code == 65 {
        "Rain"@
    } else if code == 66 || code == 67 {
        "Freezing rain"@
    } else if code == 71 || code == 73 || code == 75 {
        "Snow"@
    } else if code == 77 {
        "Snow grains"@
    } else if code == 80 || code == 81 || code == 82 {
        "Rain showers"@
    } else if code == 85 || code == 86 {
        "Snow showers"@
    } else if code == 95 {
        "Thunderstorm"@
    } else if code == 96 || code == 99 {
        "Thunderstorm with hail"@
    } else {
        "Unknown"@
    }
}

impl Default for WeatherTool {
    fn default() -> (r: Self)
        ensures
            r == WeatherTool,
    {
        WeatherTool::new()
    }
}

/// The arguments of a call, checked: where, in which units, how many days.
#[derive(Debug)]
pub struct WeatherArgs {
    pub location: String,
    pub metric: bool,
    pub days: u8,
}

impl WeatherTool {
    pub fn new() -> (r: Self)
        ensures
            r == WeatherTool,
    {
        WeatherTool
    }

    /// The tool's name.
    pub fn name(&self) -> (r: &'static str)
        ensures
            r@ == "weather"@,
    {
        "weather"
    }

    /// What the tool tells the agent it does.
    pub fn description(&self) -> (r: &'static str)
        ensures
            r@ == WEATHER_DESCRIPTION@,
    {
        WEATHER_DESCRIPTION
    }

    pub fn weather_code_label(code: i32) -> (r: &'static str)
        ensures
            r@ == code_label(code),
    {
        match code {
            0 => "Clear",
            1 => "Mainly clear",
            2 => "Partly cloudy",
            3 => "Overcast",
            45 | 48 => "Fog",
            51 | 53 | 55 => "Drizzle",
            56 | 57 => "Freezing drizzle",
            61 | 63 | 65 => "Rain",
            66 | 67 => "Freezing rain",
            71 | 73 | 75 => "Snow",
            77 => "Snow grains",
            80 | 81 | 82 => "Rain showers",
            85 | 86 => "Snow showers",
            95 => "Thunderstorm",
            96 | 99 => "Thunderstorm with hail",
            _ => "Unknown",
        }
    }
}

// ───────────────────────── arguments and queries ─────────────────────────

/// The arguments of a call from the values the agent passed: a location
/// that is not blank (rewritten for the geocoder), metric units unless
/// `imperial` was asked for in any case, and at most three forecast days
/// (one by default).
pub open spec fn spec_weather_args(location: Option<Seq<char>>, units: Option<Seq<char>>, days: Option<
    u64,
>) -> Result<(Seq<char>, bool, u8), Seq<char>> {
    match location {
        Some(loc) if spec_trim(loc).len() > 0 => Ok(
            (
                spec_rewrite(loc),
                match units {
                    Some(u) => unicode_lowercase(u) != "imperial"@,
                    None => true,
                },
                match days {
                    Some(d) => if d < 3 { d as u8 } else { 3u8 },
                    None => 1u8,
                },
            ),
        ),
        _ => Err("Missing required parameter 'location'"@),
    }
}

pub open spec fn opt_str_view(o: Option<&str>) -> Option<Seq<char>> {
    match o {
        Some(s) => Some(s@),
        None => None,
    }
}

pub fn weather_args(location: Option<&str>, units: Option<&str>, days: Option<u64>) -> (r: Result<
    WeatherArgs,
    String,
>)
    ensures
        match spec_weather_args(opt_str_view(location), opt_str_view(units), days) {
            Ok((loc, metric, d)) => r matches Ok(a) && a.location@ == loc && a.metric == metric
                && a.days == d,
            Err(e) => r matches Err(m) && m@ == e,
        },
{
    let loc = match location {
        Some(l) => {
            let t = trim_vec(&chars_of(l));
            if t.len() == 0 {
                return Err(owned("Missing required parameter 'location'"));
            }
            rewrite_location_query(l)
        },
        None => {
            return Err(owned("Missing required parameter 'location'"));
        },
    };
    let metric = match units {
        Some(u) => {
            let lower = to_lowercase(u);
            !eq_str(&chars_of(lower.as_str()), "imperial")
        },
        None => true,
    };
    let d: u8 = match days {
        Some(n) => if n < 3 {
            n as u8
        } else {
            3
        },
        None => 1,
    };
    Ok(WeatherArgs { location: loc, metric, days: d })
}

/// A CJK unified ideograph.
pub open spec fn is_cjk(c: char) -> bool {
    '\u{4e00}' <= c && c <= '\u{9fff}'
}

/// A query that is about China: it names China, Shenzhen or Guangdong
/// (in any ASCII case) or holds a Chinese character.
pub open spec fn prefers_china(query: Seq<char>) -> bool {
    let q = spec_ascii_lower(query);
    ||| spec_contains(q, "china"@)
    ||| (exists|i: int| 0 <= i < query.len() && is_cjk(#[trigger] query[i]))
    ||| spec_contains(q, "shenzhen"@)
    ||| spec_contains(q, "guangdong"@)
}

/// A country that is China: `China` in any ASCII case, or `中国`.
pub open spec fn is_china(country: Option<String>) -> bool {
    match country {
        Some(c) => spec_ascii_lower(c@) == "china"@ || c@ == "中国"@,
        None => false,
    }
}

/// Which of the geocoder's hits to use: for a query about China the first
/// hit in China, if there is one; otherwise the first hit.
pub open spec fn spec_preferred_hit(query: Seq<char>, countries: Seq<Option<String>>) -> int {
    if prefers_china(query) && exists|i: int| 0 <= i < countries.len() && is_china(#[trigger] countries[i]) {
        choose|i: int|
            0 <= i < countries.len() && is_china(countries[i]) && forall|j: int|
                0 <= j < i ==> !is_china(#[trigger] countries[j])
    } else {
        0
    }
}

fn has_cjk(v: &Vec<char>) -> (r: bool)
    ensures
        r == exists|i: int| 0 <= i < v@.len() && is_cjk(#[trigger] v@[i]),
{
    let mut i: usize = 0;
    while i < v.len()
        invariant
            i <= v.len(),
            forall|j: int| 0 <= j < i ==> !is_cjk(#[trigger] v@[j]),
        decreases v.len() - i,
    {
        if '\u{4e00}' <= v[i] && v[i] <= '\u{9fff}' {
            return true;
        }
        i = i + 1;
    }
    false
}

/// The index of the hit to use, given the country of each hit (there is at
/// least one).
pub fn preferred_hit(query: &str, countries: &Vec<Option<String>>) -> (r: usize)
    requires
        countries.len() > 0,
    ensures
        r < countries.len(),
        r == spec_preferred_hit(query@, countries@),
{
    let q = chars_of(query);
    let lower = ascii_lower(&q);
    let prefer = contains_str(&lower, "china") || has_cjk(&q) || contains_str(&lower, "shenzhen")
        || contains_str(&lower, "guangdong");
    if !prefer {
        return 0;
    }
    let mut i: usize = 0;
    while i < countries.len()
        invariant
            i <= countries.len(),
            prefers_china(query@),
            forall|j: int| 0 <= j < i ==> !is_china(#[trigger] countries@[j]),
        decreases countries.len() - i,
    {
        let hit = match &countries[i] {
            Some(c) => {
                let cv = chars_of(c.as_str());
                eq_str(&ascii_lower(&cv), "china") || eq_str(&cv, "中国")
            },
            None => false,
        };
        if hit {
            proof {
                assert(is_china(countries@[i as int]));
                let k = choose|k: int|
                    0 <= k < countries@.len() && is_china(countries@[k]) && forall|j: int|
                        0 <= j < k ==> !is_china(#[trigger] countries@[j]);
                assert(k == i) by {
                    if k < i {
                        assert(!is_china(countries@[k]));
                    }
                    if k > i {
                        assert(!is_china(countries@[i as int]));
                    }
                }
            }
            return i;
        }
        i = i + 1;
    }
    0
}

/// A byte a URL carries as it is: an ASCII letter or digit, `-`, `.`, `_`
/// or `~`.
pub open spec fn is_unreserved_byte(b: u8) -> bool {
    ||| 0x61 <= b <= 0x7a
    ||| 0x41 <= b <= 0x5a
    ||| 0x30 <= b <= 0x39
    ||| b == 0x2d || b == 0x2e || b == 0x5f || b == 0x7e
}

/// An upper-case hexadecimal digit.
pub open spec fn hex_digit(d: nat) -> char {
    if d < 10 {
        (('0' as nat) + d) as char
    } else {
        (('A' as nat) + d - 10) as char
    }
}

/// The UTF-8 form of a character.
pub open spec fn utf8_bytes(c: char) -> Seq<u8> {
    let n = c as u32;
    if n < 0x80 {
        seq![n as u8]
    } else if n < 0x800 {
        seq![(0xC0 + n / 64) as u8, (0x80 + n % 64) as u8]
    } else if n < 0x10000 {
        seq![(0xE0 + n / 4096) as u8, (0x80 + (n / 64) % 64) as u8, (0x80 + n % 64) as u8]
    } else {
        seq![
            (0xF0 + n / 262144) as u8,
            (0x80 + (n / 4096) % 64) as u8,
            (0x80 + (n / 64) % 64) as u8,
            (0x80 + n % 64) as u8,
        ]
    }
}

/// Bytes percent-encoded: unreserved ones as their characters, every other
/// one as `%` and its two upper-case hex digits.
pub open spec fn percent_bytes(bs: Seq<u8>) -> Seq<char>
    decreases bs.len(),
{
    if bs.len() == 0 {
        Seq::empty()
    } else {
        let b = bs.last();
        percent_bytes(bs.drop_last()) + if is_unreserved_byte(b) {
            seq![(b as u32) as char]
        } else {
            seq!['%', hex_digit((b / 16) as nat), hex_digit((b % 16) as nat)]
        }
    }
}

/// Percent-encoding of a text: the bytes of its UTF-8 form, encoded one by one.
pub open spec fn spec_url_encode(s: Seq<char>) -> Seq<char>
    decreases s.len(),
{
    if s.len() == 0 {
        Seq::empty()
    } else {
        spec_url_encode(s.drop_last()) + percent_bytes(utf8_bytes(s.last()))
    }
}

/// `urlencoding::encode`: percent-encodes every byte of the text's UTF-8
/// form except ASCII letters, digits and `-` `.` `_` `~`, with upper-case
/// hex digits (`encode_into`, `enc.rs`).
#[verifier::external_body]
fn url_encode(s: &str) -> (r: String)
    ensures
        r@ == spec_url_encode(s@),
{
    urlencoding::encode(s).into_owned()
}

/// The geocoder request for a place name: up to five English-named hits.
pub fn geocode_url(query: &str) -> (r: String)
    ensures
        r@ == GEO_URL@ + "?name="@ + spec_url_encode(query@) + "&count=5&language=en&format=json"@,
{
    let mut v = chars_of(GEO_URL);
    extend_chars(&mut v, "?name=");
    let enc = url_encode(query);
    extend_chars(&mut v, enc.as_str());
    extend_chars(&mut v, "&count=5&language=en&format=json");
    string_of(&v)
}

/// The error when the geocoder found nothing.
pub fn unresolved_location_message(query: &str) -> (r: String)
    ensures
        r@ == "Could not resolve location '"@ + query@
            + "'. Try a city name (English or local), or GPS coordinates like '22.54,114.06'."@,
{
    let mut v = chars_of("Could not resolve location '");
    extend_chars(&mut v, query);
    extend_chars(&mut v, "'. Try a city name (English or local), or GPS coordinates like '22.54,114.06'.");
    string_of(&v)
}

/// The unit names of the forecast query: temperature, wind speed and
/// precipitation.
pub open spec fn query_units(metric: bool) -> (Seq<char>, Seq<char>, Seq<char>) {
    if metric {
        ("celsius"@, "kmh"@, "mm"@)
    } else {
        ("fahrenheit"@, "mph"@, "inch"@)
    }
}

/// The forecast query after the coordinates: the fields asked for, one to
/// three days, the units, and the hit's time zone (`auto` when it has
/// none).
pub open spec fn spec_forecast_query(days: u8, metric: bool, timezone: Option<Seq<char>>) -> Seq<char> {
    let n: nat = if days < 1 { 1 } else if days > 3 { 3 } else { days as nat };
    let tz = match timezone {
        Some(t) if t.len() > 0 => t,
        _ => "auto"@,
    };
    "&current=temperature_2m,relative_humidity_2m,apparent_temperature,weather_code,wind_speed_10m,wind_direction_10m,precipitation,cloud_cover,surface_pressure&daily=weather_code,temperature_2m_max,temperature_2m_min,precipitation_sum,sunrise,sunset,uv_index_max&hourly=temperature_2m,weather_code,precipitation_probability,wind_speed_10m&forecast_days="@ + spec_decimal(n) + "&temperature_unit="@ + query_units(metric).0
        + "&wind_speed_unit="@ + query_units(metric).1 + "&precipitation_unit="@ + query_units(
        metric,
    ).2 + "&timezone="@ + tz
}

pub fn forecast_query(days: u8, metric: bool, timezone: Option<&str>) -> (r: String)
    ensures
        r@ == spec_forecast_query(days, metric, opt_str_view(timezone)),
{
    let n: u8 = if days < 1 {
        1
    } else if days > 3 {
        3
    } else {
        days
    };
    let mut v = chars_of("&current=temperature_2m,relative_humidity_2m,apparent_temperature,weather_code,wind_speed_10m,wind_direction_10m,precipitation,cloud_cover,surface_pressure&daily=weather_code,temperature_2m_max,temperature_2m_min,precipitation_sum,sunrise,sunset,uv_index_max&hourly=temperature_2m,weather_code,precipitation_probability,wind_speed_10m&forecast_days=");
    let d = decimal(n as u64);
    extend_chars(&mut v, d.as_str());
    extend_chars(&mut v, "&temperature_unit=");
    extend_chars(&mut v, if metric { "celsius" } else { "fahrenheit" });
    extend_chars(&mut v, "&wind_speed_unit=");
    extend_chars(&mut v, if metric { "kmh" } else { "mph" });
    extend_chars(&mut v, "&precipitation_unit=");
    extend_chars(&mut v, if metric { "mm" } else { "inch" });
    extend_chars(&mut v, "&timezone=");
    let tz: &str = match timezone {
        Some(t) => if t.is_empty() { "auto" } else { t },
        None => "auto",
    };
    extend_chars(&mut v, tz);
    string_of(&v)
}

// ───────────────────────── the report ─────────────────────────

/// The place as shown: the name, then the region and the country where
/// they are known and not empty.
pub open spec fn spec_place_label(name: Seq<char>, admin1: Option<Seq<char>>, country: Option<Seq<char>>) -> Seq<char> {
    let a = match admin1 {
        Some(x) if x.len() > 0 => Some(x),
        _ => None,
    };
    let c = match country {
        Some(x) if x.len() > 0 => Some(x),
        _ => None,
    };
    match (a, c) {
        (Some(a), Some(c)) => name + ", "@ + a + ", "@ + c,
        (None, Some(c)) => name + ", "@ + c,
        (Some(a), None) => name + ", "@ + a,
        _ => name,
    }
}

pub open spec fn opt_string_view(o: Option<String>) -> Option<Seq<char>> {
    match o {
        Some(s) => Some(s@),
        None => None,
    }
}

/// Measured values as the caller rendered them (temperatures, humidity,
/// wind speed, cloud cover and pressure with no decimals, precipitation
/// with one), without their units.
#[derive(Debug)]
pub struct CurrentReading {
    pub time: Option<String>,
    pub temperature: Option<String>,
    pub apparent_temperature: Option<String>,
    pub relative_humidity: Option<String>,
    pub weather_code: Option<i32>,
    pub wind_speed: Option<String>,
    /// The compass point the wind comes from.
    pub wind_direction: Option<String>,
    pub precipitation: Option<String>,
    pub cloud_cover: Option<String>,
    pub surface_pressure: Option<String>,
}

/// One day of the forecast, rendered as for `CurrentReading`.
#[derive(Debug)]
pub struct DailyRow {
    pub date: String,
    pub high: Option<String>,
    pub low: Option<String>,
    pub weather_code: Option<i32>,
    pub precipitation: Option<String>,
    pub uv_index: Option<String>,
    pub sunrise: Option<String>,
    pub sunset: Option<String>,
}

/// One hour of the forecast, rendered as for `CurrentReading`.
#[derive(Debug)]
pub struct HourlyRow {
    pub time: String,
    pub temperature: Option<String>,
    pub weather_code: Option<i32>,
    pub precipitation_probability: Option<String>,
    pub wind_speed: Option<String>,
}

/// What the forecast service answered.
#[derive(Debug)]
pub struct ForecastText {
    pub current: Option<CurrentReading>,
    pub daily: Option<Vec<DailyRow>>,
    pub hourly: Option<Vec<HourlyRow>>,
}

/// The display units: temperature, wind speed and precipitation.
pub open spec fn report_units(metric: bool) -> (Seq<char>, Seq<char>, Seq<char>) {
    if metric {
        ("°C"@, "km/h"@, "mm"@)
    } else {
        ("°F"@, "mph"@, "in"@)
    }
}

/// A value followed by its unit, or a dash when there is none.
pub open spec fn with_unit(o: Option<String>, unit: Seq<char>) -> Seq<char> {
    match o {
        Some(s) => s@ + unit,
        None => "—"@,
    }
}

pub open spec fn or_dash(o: Option<String>) -> Seq<char> {
    match o {
        Some(s) => s@,
        None => "—"@,
    }
}

pub open spec fn code_or(o: Option<i32>, fallback: Seq<char>) -> Seq<char> {
    match o {
        Some(c) => code_label(c),
        None => fallback,
    }
}

pub open spec fn wind_text(c: CurrentReading, metric: bool) -> Seq<char> {
    let u = report_units(metric).1;
    match (c.wind_speed, c.wind_direction) {
        (Some(s), Some(d)) => s@ + " "@ + u + " "@ + d@,
        (Some(s), None) => s@ + " "@ + u,
        _ => "—"@,
    }
}

/// The current conditions block.
pub open spec fn current_text(place: Seq<char>, c: CurrentReading, metric: bool) -> Seq<char> {
    let (tu, wu, pu) = report_units(metric);
    "Weather for "@ + place + " (as of "@ + or_dash(c.time) + ")\n─────────────────────────────────────────\nConditions : "@ + code_or(
        c.weather_code,
        "Unknown"@,
    ) + "\nTemperature: "@ + with_unit(c.temperature, tu) + " (feels like "@ + with_unit(
        c.apparent_temperature,
        tu,
    ) + ")\nHumidity   : "@ + with_unit(c.relative_humidity, "%"@) + "\nWind       : "@ + wind_text(
        c,
        metric,
    ) + "\nPrecipitation: "@ + with_unit(c.precipitation, " "@ + pu) + "\nPressure   : "@
        + with_unit(c.surface_pressure, " hPa"@) + "\nCloud Cover: "@ + with_unit(c.cloud_cover, "%"@)
}

pub open spec fn daily_line(r: DailyRow, metric: bool) -> Seq<char> {
    let (tu, wu, pu) = report_units(metric);
    "\n  "@ + r.date@ + ": "@ + code_or(r.weather_code, "—"@) + " | High "@ + with_unit(r.high, tu)
        + " / Low "@ + with_unit(r.low, tu) + " | Rain "@ + with_unit(r.precipitation, pu) + " | UV "@
        + or_dash(r.uv_index) + " | Sunrise "@ + or_dash(r.sunrise) + " | Sunset "@ + or_dash(r.sunset)
}

pub open spec fn daily_lines(rows: Seq<DailyRow>, metric: bool) -> Seq<char>
    decreases rows.len(),
{
    if rows.len() == 0 {
        Seq::empty()
    } else {
        daily_lines(rows.drop_last(), metric) + daily_line(rows.last(), metric)
    }
}

pub open spec fn hourly_line(r: HourlyRow, metric: bool) -> Seq<char> {
    let (tu, wu, pu) = report_units(metric);
    "\n    "@ + r.time@ + ": "@ + with_unit(r.temperature, tu) + " — "@ + code_or(r.weather_code, "—"@)
        + " | Wind "@ + with_unit(r.wind_speed, " "@ + wu) + " | Rain chance "@ + with_unit(
        r.precipitation_probability,
        "%"@,
    )
}

/// The hours shown: every sixth of the first day's twenty-four.
pub open spec fn hourly_picks(rows: Seq<HourlyRow>) -> Seq<HourlyRow> {
    let take: int = if rows.len() < 24 { rows.len() as int } else { 24 };
    Seq::new(((take + 5) / 6) as nat, |k: int| rows[6 * k])
}

pub open spec fn hourly_lines(rows: Seq<HourlyRow>, metric: bool) -> Seq<char>
    decreases rows.len(),
{
    if rows.len() == 0 {
        Seq::empty()
    } else {
        hourly_lines(rows.drop_last(), metric) + hourly_line(rows.last(), metric)
    }
}

/// The report: the current conditions; unless only those were asked for,
/// up to `days` forecast days; and for one or two days, a few hours of the
/// first.
pub open spec fn spec_format_output(place: Seq<char>, data: ForecastText, metric: bool, days: u8) -> Seq<char> {
    match data.current {
        None => "No current conditions for "@ + place + "."@,
        Some(c) => {
            let head = current_text(place, c, metric);
            if days == 0 {
                head
            } else {
                let d = match data.daily {
                    Some(rows) => {
                        let n: int = if rows@.len() < days { rows@.len() as int } else { days as int };
                        "\n\nForecast\n────────"@ + daily_lines(rows@.subrange(0, n), metric)
                    },
                    None => Seq::empty(),
                };
                let h = if days <= 2 {
                    match data.hourly {
                        Some(rows) => "\n\nToday (selected hours)\n────────────────────"@ + hourly_lines(hourly_picks(rows@), metric),
                        None => Seq::empty(),
                    }
                } else {
                    Seq::empty()
                };
                head + d + h
            }
        },
    }
}

fn push_opt_unit(v: &mut Vec<char>, o: &Option<String>, unit: &str)
    ensures
        final(v)@ == old(v)@ + with_unit(*o, unit@),
{
    match o {
        Some(s) => {
            extend_chars(v, s.as_str());
            extend_chars(v, unit);
        },
        None => {
            extend_chars(v, "—");
        },
    }
    proof {
        if o is Some {
            assert(final(v)@ =~= old(v)@ + with_unit(*o, unit@));
        }
    }
}

fn push_opt(v: &mut Vec<char>, o: &Option<String>)
    ensures
        final(v)@ == old(v)@ + or_dash(*o),
{
    match o {
        Some(s) => extend_chars(v, s.as_str()),
        None => extend_chars(v, "—"),
    }
}

fn push_code(v: &mut Vec<char>, o: Option<i32>, fallback: &str)
    ensures
        final(v)@ == old(v)@ + code_or(o, fallback@),
{
    match o {
        Some(c) => extend_chars(v, WeatherTool::weather_code_label(c)),
        None => extend_chars(v, fallback),
    }
}

fn units_of(metric: bool) -> (r: (&'static str, &'static str, &'static str))
    ensures
        (r.0@, r.1@, r.2@) == report_units(metric),
{
    if metric {
        ("°C", "km/h", "mm")
    } else {
        ("°F", "mph", "in")
    }
}

fn push_wind(v: &mut Vec<char>, c: &CurrentReading, metric: bool)
    ensures
        final(v)@ == old(v)@ + wind_text(*c, metric),
{
    let (tu, wu, pu) = units_of(metric);
    match (&c.wind_speed, &c.wind_direction) {
        (Some(s), Some(d)) => {
            extend_chars(v, s.as_str());
            extend_chars(v, " ");
            extend_chars(v, wu);
            extend_chars(v, " ");
            extend_chars(v, d.as_str());
        },
        (Some(s), None) => {
            extend_chars(v, s.as_str());
            extend_chars(v, " ");
            extend_chars(v, wu);
        },
        _ => {
            extend_chars(v, "—");
        },
    }
    assert(v@ =~= old(v)@ + wind_text(*c, metric));
}

fn spaced(unit: &str) -> (r: String)
    ensures
        r@ == " "@ + unit@,
{
    let mut w = chars_of(" ");
    extend_chars(&mut w, unit);
    string_of(&w)
}

fn current_chars(place: &str, c: &CurrentReading, metric: bool) -> (w: Vec<char>)
    ensures
        w@ == current_text(place@, *c, metric),
{
    let (tu, wu, pu) = units_of(metric);
    let mut w = chars_of("Weather for ");
    extend_chars(&mut w, place);
    extend_chars(&mut w, " (as of ");
    push_opt(&mut w, &c.time);
    extend_chars(&mut w, ")\n─────────────────────────────────────────\nConditions : ");
    push_code(&mut w, c.weather_code, "Unknown");
    extend_chars(&mut w, "\nTemperature: ");
    push_opt_unit(&mut w, &c.temperature, tu);
    extend_chars(&mut w, " (feels like ");
    push_opt_unit(&mut w, &c.apparent_temperature, tu);
    extend_chars(&mut w, ")\nHumidity   : ");
    push_opt_unit(&mut w, &c.relative_humidity, "%");
    extend_chars(&mut w, "\nWind       : ");
    push_wind(&mut w, c, metric);
    extend_chars(&mut w, "\nPrecipitation: ");
    let pu_s = spaced(pu);
    push_opt_unit(&mut w, &c.precipitation, pu_s.as_str());
    extend_chars(&mut w, "\nPressure   : ");
    push_opt_unit(&mut w, &c.surface_pressure, " hPa");
    extend_chars(&mut w, "\nCloud Cover: ");
    push_opt_unit(&mut w, &c.cloud_cover, "%");
    w
}

fn daily_line_chars(r: &DailyRow, metric: bool) -> (w: Vec<char>)
    ensures
        w@ == daily_line(*r, metric),
{
    let (tu, wu, pu) = units_of(metric);
    let mut w = chars_of("\n  ");
    extend_chars(&mut w, r.date.as_str());
    extend_chars(&mut w, ": ");
    push_code(&mut w, r.weather_code, "—");
    extend_chars(&mut w, " | High ");
    push_opt_unit(&mut w, &r.high, tu);
    extend_chars(&mut w, " / Low ");
    push_opt_unit(&mut w, &r.low, tu);
    extend_chars(&mut w, " | Rain ");
    push_opt_unit(&mut w, &r.precipitation, pu);
    extend_chars(&mut w, " | UV ");
    push_opt(&mut w, &r.uv_index);
    extend_chars(&mut w, " | Sunrise ");
    push_opt(&mut w, &r.sunrise);
    extend_chars(&mut w, " | Sunset ");
    push_opt(&mut w, &r.sunset);
    w
}

fn hourly_line_chars(r: &HourlyRow, metric: bool) -> (w: Vec<char>)
    ensures
        w@ == hourly_line(*r, metric),
{
    let (tu, wu, pu) = units_of(metric);
    let mut w = chars_of("\n    ");
    extend_chars(&mut w, r.time.as_str());
    extend_chars(&mut w, ": ");
    push_opt_unit(&mut w, &r.temperature, tu);
    extend_chars(&mut w, " — ");
    push_code(&mut w, r.weather_code, "—");
    extend_chars(&mut w, " | Wind ");
    let wu_s = spaced(wu);
    push_opt_unit(&mut w, &r.wind_speed, wu_s.as_str());
    extend_chars(&mut w, " | Rain chance ");
    push_opt_unit(&mut w, &r.precipitation_probability, "%");
    w
}

impl WeatherTool {
    /// The place as shown in the report.
    pub fn place_label(name: &str, admin1: &Option<String>, country: &Option<String>) -> (r: String)
        ensures
            r@ == spec_place_label(name@, opt_string_view(*admin1), opt_string_view(*country)),
    {
        let a: Option<&String> = match admin1 {
            Some(x) => if x.as_str().is_empty() { None } else { Some(x) },
            None => None,
        };
        let c: Option<&String> = match country {
            Some(x) => if x.as_str().is_empty() { None } else { Some(x) },
            None => None,
        };
        let mut v = chars_of(name);
        match (a, c) {
            (Some(a), Some(c)) => {
                extend_chars(&mut v, ", ");
                extend_chars(&mut v, a.as_str());
                extend_chars(&mut v, ", ");
                extend_chars(&mut v, c.as_str());
            },
            (None, Some(c)) => {
                extend_chars(&mut v, ", ");
                extend_chars(&mut v, c.as_str());
            },
            (Some(a), None) => {
                extend_chars(&mut v, ", ");
                extend_chars(&mut v, a.as_str());
            },
            _ => {},
        }
        string_of(&v)
    }

    /// The report for `place` from the forecast `data`.
    #[verifier::rlimit(40)]
    #[verifier::spinoff_prover]
    pub fn format_output(place: &str, data: &ForecastText, metric: bool, days: u8) -> (r: String)
        ensures
            r@ == spec_format_output(place@, *data, metric, days),
    {
        let cur = match &data.current {
            Some(c) => c,
            None => {
                let mut v = chars_of("No current conditions for ");
                extend_chars(&mut v, place);
                extend_chars(&mut v, ".");
                return string_of(&v);
            },
        };
        let mut out = current_chars(place, cur, metric);
        if days == 0 {
            return string_of(&out);
        }
        let ghost head = out@;
        match &data.daily {
            Some(rows) => {
                extend_chars(&mut out, "\n\nForecast\n────────");
                let n: usize = if rows.len() < days as usize { rows.len() } else { days as usize };
                let ghost pre = out@;
                let mut i: usize = 0;
                while i < n
                    invariant
                        i <= n <= rows.len(),
                        out@ == pre + daily_lines(rows@.subrange(0, i as int), metric),
                    decreases n - i,
                {
                    proof {
                        assert(rows@.subrange(0, i + 1).drop_last() =~= rows@.subrange(0, i as int));
                    }
                    let line = daily_line_chars(&rows[i], metric);
                    extend_vec(&mut out, &line);
                    i = i + 1;
                    proof {
                        let s = rows@.subrange(0, i as int);
                        assert(s.last() == rows@[i - 1]);
                        assert(out@ =~= pre + daily_lines(s, metric));
                    }
                }
            },
            None => {},
        }
        let ghost mid = out@;
        if days <= 2 {
            match &data.hourly {
                Some(rows) => {
                    extend_chars(&mut out, "\n\nToday (selected hours)\n────────────────────");
                    let take: usize = if rows.len() < 24 { rows.len() } else { 24 };
                    let ghost picks = hourly_picks(rows@);
                    let ghost pre = out@;
                    let mut i: usize = 0;
                    let mut k: usize = 0;
                    while i < take
                        invariant
                            take == (if rows.len() < 24 { rows.len() } else { 24 }),
                            picks == hourly_picks(rows@),
                            i == 6 * k,
                            i <= take + 5,
                            k <= picks.len(),
                            k < picks.len() <==> i < take,
                            out@ == pre + hourly_lines(picks.subrange(0, k as int), metric),
                        decreases take + 5 - i,
                    {
                        proof {
                            assert(picks.subrange(0, k + 1).drop_last() =~= picks.subrange(0, k as int));
                            assert(picks[k as int] == rows@[i as int]);
                        }
                        let line = hourly_line_chars(&rows[i], metric);
                        extend_vec(&mut out, &line);
                        i = i + 6;
                        k = k + 1;
                        proof {
                            let s = picks.subrange(0, k as int);
                            assert(s.last() == picks[k - 1]);
                            assert(out@ =~= pre + hourly_lines(s, metric));
                        }
                    }
                    assert(picks.subrange(0, k as int) =~= picks);
                },
                None => {},
            }
        }
        proof {
            if data.daily is Some {
                let rows = data.daily->0;
                let n: int = if rows@.len() < days { rows@.len() as int } else { days as int };
                assert(mid =~= head + "\n\nForecast\n────────"@ + daily_lines(rows@.subrange(0, n), metric));
            } else {
                assert(mid =~= head);
            }
        }
        assert(out@ =~= spec_format_output(place@, *data, metric, days));
        string_of(&out)
    }
}

/// A query about China gets a hit in China whenever the geocoder found one.
pub proof fn law_china_preferred(query: Seq<char>, countries: Seq<Option<String>>)
    requires
        prefers_china(query),
        exists|i: int| 0 <= i < countries.len() && is_china(#[trigger] countries[i]),
    ensures
        0 <= spec_preferred_hit(query, countries) < countries.len(),
        is_china(countries[spec_preferred_hit(query, countries)]),
{
    let i = choose|i: int| 0 <= i < countries.len() && is_china(#[trigger] countries[i]);
    lemma_first_china(countries, i);
}

proof fn lemma_first_china(countries: Seq<Option<String>>, i: int)
    requires
        0 <= i < countries.len(),
        is_china(countries[i]),
    ensures
        exists|k: int|
            0 <= k < countries.len() && is_china(countries[k]) && forall|j: int|
                0 <= j < k ==> !is_china(#[trigger] countries[j]),
    decreases i,
{
    if exists|j: int| 0 <= j < i && is_china(#[trigger] countries[j]) {
        let j = choose|j: int| 0 <= j < i && is_china(#[trigger] countries[j]);
        lemma_first_china(countries, j);
    } else {
        assert(forall|j: int| 0 <= j < i ==> !is_china(#[trigger] countries[j]));
    }
}

/// Rain and snow are told apart by their WMO codes: "Rain" is the label of
/// codes 61, 63 and 65 and of no other, "Snow" of 71, 73 and 75 and of no
/// other; light or heavy, showers, grains and freezing kinds get labels of
/// their own.
#[verifier::spinoff_prover]
pub proof fn law_rain_and_snow_labels(code: i32)
    ensures
        code_label(code) == "Rain"@ <==> (code == 61 || code == 63 || code == 65),
        code_label(code) == "Snow"@ <==> (code == 71 || code == 73 || code == 75),
        code_label(code) == "Rain showers"@ <==> (code == 80 || code == 81 || code == 82),
        code_label(code) == "Snow showers"@ <==> (code == 85 || code == 86),
        code_label(code) == "Drizzle"@ <==> (code == 51 || code == 53 || code == 55),
        code_label(code) == "Clear"@ <==> code == 0,
{
    reveal_strlit("Clear");
    reveal_strlit("Mainly clear");
    reveal_strlit("Partly cloudy");
    reveal_strlit("Overcast");
    reveal_strlit("Fog");
    reveal_strlit("Drizzle");
    reveal_strlit("Freezing drizzle");
    reveal_strlit("Rain");
    reveal_strlit("Freezing rain");
    reveal_strlit("Snow");
    reveal_strlit("Snow grains");
    reveal_strlit("Rain showers");
    reveal_strlit("Snow showers");
    reveal_strlit("Thunderstorm");
    reveal_strlit("Thunderstorm with hail");
    reveal_strlit("Unknown");
    assert("Rain"@[0] != "Snow"@[0]);
    let l = code_label(code);
    if l == "Rain"@ || l == "Snow"@ {
        assert(l.len() == 4);
        if code == 61 || code == 63 || code == 65 {
            assert(l == "Rain"@);
        } else if code == 71 || code == 73 || code == 75 {
            assert(l == "Snow"@);
        } else {
            assert(false);
        }
    }
    assert("Rain showers"@[0] != "Snow showers"@[0]);
    assert("Thunderstorm"@[0] != "Rain showers"@[0] && "Thunderstorm"@[0] != "Snow showers"@[0]);
    assert("Mainly clear"@[0] != "Rain showers"@[0] && "Mainly clear"@[0] != "Snow showers"@[0]);
    assert("Drizzle"@[0] != "Unknown"@[0]);
    if l == "Drizzle"@ {
        assert(l.len() == 7);
        if !(code == 51 || code == 53 || code == 55) {
            assert(l == "Unknown"@);
        }
    }
    if l == "Rain showers"@ || l == "Snow showers"@ {
        assert(l.len() == 12);
        if code == 80 || code == 81 || code == 82 {
            assert(l == "Rain showers"@);
        } else if code == 85 || code == 86 {
            assert(l == "Snow showers"@);
        } else {
            assert(false);
        }
    }
}

} // verus!
