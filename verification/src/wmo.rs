//! WMO 4677 "present weather" code classification: a pure mapping from an
//! integer condition code to a human description and an icon category.

use vstd::prelude::*;

verus! {

/// The description the classifier assigns to a WMO 4677 code.
pub open spec fn spec_describe(code: u32) -> Seq<char> {
    match code {
        0u32 => "Cloud development not observed or not observable"@,
        1u32 => "Clouds generally dissolving or becoming less developed"@,
        2u32 => "State of sky on the whole unchanged"@,
        3u32 => "Clouds generally forming or developing"@,
        4u32 => "Visibility reduced by smoke (e.g. forest fires, industrial smoke, volcanic ash)"@,
        5u32 => "Haze"@,
        6u32 => "Widespread dust in suspension in the air, not raised by wind at or near the station"@,
        7u32 => "Dust or sand raised by wind at or near the station; no duststorm or sandstorm seen"@,
        8u32 => "Well-developed dust or sand whirls seen, but no duststorm or sandstorm"@,
        9u32 => "Duststorm or sandstorm within sight or at the station during the preceding hour"@,
        10u32 => "Mist"@,
        11u32 => "Patches of shallow fog or ice fog"@,
        12u32 => "More or less continuous shallow fog or ice fog"@,
        13u32 => "Lightning visible, no thunder heard"@,
        14u32 => "Precipitation within sight, not reaching the ground or sea surface"@,
        15u32 => "Precipitation within sight, reaching the ground or sea, but distant (> 5 km)"@,
        16u32 => "Precipitation within sight, reaching the ground or sea, near but not at the station"@,
        17u32 => "Thunderstorm, but no precipitation at the time of observation"@,
        18u32 => "Squalls at or within sight of the station during the preceding hour or at observation"@,
        19u32 => "Funnel cloud(s) (tornado or waterspout)"@,
        20u32 => "Drizzle (not freezing) or snow grains, not falling as showers"@,
        21u32 => "Rain (not freezing), not falling as showers"@,
        22u32 => "Snow, not falling as showers"@,
        23u32 => "Rain and snow or ice pellets, not falling as showers"@,
        24u32 => "Freezing drizzle or freezing rain, not falling as showers"@,
        25u32 => "Shower(s) of rain"@,
        26u32 => "Shower(s) of snow, or of rain and snow"@,
        27u32 => "Shower(s) of hail, or of rain and hail"@,
        28u32 => "Fog or ice fog"@,
        29u32 => "Thunderstorm (with or without precipitation)"@,
        30u32 => "Slight or moderate duststorm or sandstorm, decreasing during the preceding hour"@,
        31u32 => "Slight or moderate duststorm or sandstorm, no appreciable change in last hour"@,
        32u32 => "Slight or moderate duststorm or sandstorm, begun or increasing during last hour"@,
        33u32 => "Severe duststorm or sandstorm, decreasing during the preceding hour"@,
        34u32 => "Severe duststorm or sandstorm, no appreciable change in last hour"@,
        35u32 => "Severe duststorm or sandstorm, begun or increasing during last hour"@,
        36u32 => "Slight or moderate blowing snow, generally low (below eye level)"@,
        37u32 => "Heavy drifting snow, generally low (below eye level)"@,
        38u32 => "Slight or moderate blowing snow, generally high (above eye level)"@,
        39u32 => "Heavy blowing snow, generally high (above eye level)"@,
        40u32 => "Fog or ice fog at a distance, not at station in last hour; fog extends above observer"@,
        41u32 => "Fog or ice fog in patches"@,
        42u32 => "Fog or ice fog, sky visible, becoming thinner during last hour"@,
        43u32 => "Fog or ice fog, sky invisible, becoming thinner during last hour"@,
        44u32 => "Fog or ice fog, sky visible, no appreciable change during last hour"@,
        45u32 => "Fog or ice fog, sky invisible, no appreciable change during last hour"@,
        46u32 => "Fog or ice fog, sky visible, has begun or become thicker during last hour"@,
        47u32 => "Fog or ice fog, sky invisible, has begun or become thicker during last hour"@,
        48u32 => "Fog, depositing rime, sky visible"@,
        49u32 => "Fog, depositing rime, sky invisible"@,
        50u32 => "Drizzle, not freezing, intermittent, slight at time of observation"@,
        51u32 => "Drizzle, not freezing, continuous, slight at time of observation"@,
        52u32 => "Drizzle, not freezing, intermittent, moderate at time of observation"@,
        53u32 => "Drizzle, not freezing, continuous, moderate at time of observation"@,
        54u32 => "Drizzle, not freezing, intermittent, heavy (dense) at time of observation"@,
        55u32 => "Drizzle, not freezing, continuous, heavy (dense) at time of observation"@,
        56u32 => "Drizzle, freezing, slight"@,
        57u32 => "Drizzle, freezing, moderate or heavy (dense)"@,
        58u32 => "Drizzle and rain, slight"@,
        59u32 => "Drizzle and rain, moderate or heavy"@,
        60u32 => "Rain, not freezing, intermittent, slight at time of observation"@,
        61u32 => "Rain, not freezing, continuous, slight at time of observation"@,
        62u32 => "Rain, not freezing, intermittent, moderate at time of observation"@,
        63u32 => "Rain, not freezing, continuous, moderate at time of observation"@,
        64u32 => "Rain, not freezing, intermittent, heavy at time of observation"@,
        65u32 => "Rain, not freezing, continuous, heavy at time of observation"@,
        66u32 => "Rain, freezing, slight"@,
        67u32 => "Rain, freezing, moderate or heavy (dense)"@,
        68u32 => "Rain or drizzle and snow, slight"@,
        69u32 => "Rain or drizzle and snow, moderate or heavy"@,
        70u32 => "Intermittent fall of snowflakes, slight at time of observation"@,
        71u32 => "Continuous fall of snowflakes, slight at time of observation"@,
        72u32 => "Intermittent fall of snowflakes, moderate at time of observation"@,
        73u32 => "Continuous fall of snowflakes, moderate at time of observation"@,
        74u32 => "Intermittent fall of snowflakes, heavy at time of observation"@,
        75u32 => "Continuous fall of snowflakes, heavy at time of observation"@,
        76u32 => "Diamond dust (with or without fog)"@,
        77u32 => "Snow grains (with or without fog)"@,
        78u32 => "Isolated star-like snow crystals (with or without fog)"@,
        79u32 => "Ice pellets"@,
        80u32 => "Rain shower(s), slight"@,
        81u32 => "Rain shower(s), moderate or heavy"@,
        82u32 => "Rain shower(s), violent"@,
        83u32 => "Shower(s) of rain and snow mixed, slight"@,
        84u32 => "Shower(s) of rain and snow mixed, moderate or heavy"@,
        85u32 => "Snow shower(s), slight"@,
        86u32 => "Snow shower(s), moderate or heavy"@,
        87u32 => "Shower(s) of snow pellets or small hail, with or without rain or rain and snow, slight"@,
        88u32 => "Shower(s) of snow pellets or small hail, with or without rain or rain and snow, moderate or heavy"@,
        89u32 => "Shower(s) of hail, with or without rain or rain and snow, not associated with thunder, slight"@,
        90u32 => "Shower(s) of hail, with or without rain or rain and snow, not associated with thunder, moderate or heavy"@,
        91u32 => "Slight rain at time of observation; thunderstorm during preceding hour but not now"@,
        92u32 => "Moderate or heavy rain at time of observation; thunderstorm during preceding hour but not now"@,
        93u32 => "Slight snow, or rain and snow mixed, or hail at time of observation; thunderstorm during preceding hour but not now"@,
        94u32 => "Moderate or heavy snow, or rain and snow mixed, or hail at time of observation; thunderstorm during preceding hour but not now"@,
        95u32 => "Thunderstorm, slight or moderate, without hail but with rain and/or snow at time of observation"@,
        96u32 => "Thunderstorm, slight or moderate, with hail at time of observation"@,
        97u32 => "Thunderstorm, heavy, without hail but with rain and/or snow at time of observation"@,
        98u32 => "Thunderstorm combined with duststorm or sandstorm at time of observation"@,
        99u32 => "Thunderstorm, heavy, with hail at time of observation"@,
        _ => "Unknown WMO weather code"@,
    }
}

/// The icon the classifier assigns to a WMO 4677 code.
pub open spec fn spec_emoji(code: u32) -> Seq<char> {
    if code <= 3 {
        "\u{2601}\u{fe0f}"@
    } else if code == 45 || code == 48 {
        "\u{1f32b}\u{fe0f}"@
    } else if 51 <= code && code <= 55 {
        "\u{1f326}\u{fe0f}"@
    } else if 61 <= code && code <= 65 {
        "\u{1f327}\u{fe0f}"@
    } else if 71 <= code && code <= 75 {
        "\u{2744}\u{fe0f}"@
    } else if 80 <= code && code <= 82 {
        "\u{1f327}\u{fe0f}"@
    } else if 95 <= code && code <= 99 {
        "\u{26c8}\u{fe0f}"@
    } else {
        "?"@
    }
}

/// Return the WMO 4677 "present weather" description for a given code (00-99).
/// If the code is outside that range, returns "Unknown WMO weather code".
#[verifier::rlimit(40)]
pub fn describe(code: u32) -> (r: &'static str)
    ensures
        r@ == spec_describe(code),
{
    match code {
        0 => "Cloud development not observed or not observable",
        1 => "Clouds generally dissolving or becoming less developed",
        2 => "State of sky on the whole unchanged",
        3 => "Clouds generally forming or developing",
        4 => "Visibility reduced by smoke (e.g. forest fires, industrial smoke, volcanic ash)",
        5 => "Haze",
        6 => "Widespread dust in suspension in the air, not raised by wind at or near the station",
        7 => "Dust or sand raised by wind at or near the station; no duststorm or sandstorm seen",
        8 => "Well-developed dust or sand whirls seen, but no duststorm or sandstorm",
        9 => "Duststorm or sandstorm within sight or at the station during the preceding hour",
        10 => "Mist",
        11 => "Patches of shallow fog or ice fog",
        12 => "More or less continuous shallow fog or ice fog",
        13 => "Lightning visible, no thunder heard",
        14 => "Precipitation within sight, not reaching the ground or sea surface",
        15 => "Precipitation within sight, reaching the ground or sea, but distant (> 5 km)",
        16 => "Precipitation within sight, reaching the ground or sea, near but not at the station",
        17 => "Thunderstorm, but no precipitation at the time of observation",
        18 => "Squalls at or within sight of the station during the preceding hour or at observation",
        19 => "Funnel cloud(s) (tornado or waterspout)",
        20 => "Drizzle (not freezing) or snow grains, not falling as showers",
        21 => "Rain (not freezing), not falling as showers",
        22 => "Snow, not falling as showers",
        23 => "Rain and snow or ice pellets, not falling as showers",
        24 => "Freezing drizzle or freezing rain, not falling as showers",
        25 => "Shower(s) of rain",
        26 => "Shower(s) of snow, or of rain and snow",
        27 => "Shower(s) of hail, or of rain and hail",
        28 => "Fog or ice fog",
        29 => "Thunderstorm (with or without precipitation)",
        30 => "Slight or moderate duststorm or sandstorm, decreasing during the preceding hour",
        31 => "Slight or moderate duststorm or sandstorm, no appreciable change in last hour",
        32 => "Slight or moderate duststorm or sandstorm, begun or increasing during last hour",
        33 => "Severe duststorm or sandstorm, decreasing during the preceding hour",
        34 => "Severe duststorm or sandstorm, no appreciable change in last hour",
        35 => "Severe duststorm or sandstorm, begun or increasing during last hour",
        36 => "Slight or moderate blowing snow, generally low (below eye level)",
        37 => "Heavy drifting snow, generally low (below eye level)",
        38 => "Slight or moderate blowing snow, generally high (above eye level)",
        39 => "Heavy blowing snow, generally high (above eye level)",
        40 => "Fog or ice fog at a distance, not at station in last hour; fog extends above observer",
        41 => "Fog or ice fog in patches",
        42 => "Fog or ice fog, sky visible, becoming thinner during last hour",
        43 => "Fog or ice fog, sky invisible, becoming thinner during last hour",
        44 => "Fog or ice fog, sky visible, no appreciable change during last hour",
        45 => "Fog or ice fog, sky invisible, no appreciable change during last hour",
        46 => "Fog or ice fog, sky visible, has begun or become thicker during last hour",
        47 => "Fog or ice fog, sky invisible, has begun or become thicker during last hour",
        48 => "Fog, depositing rime, sky visible",
        49 => "Fog, depositing rime, sky invisible",
        50 => "Drizzle, not freezing, intermittent, slight at time of observation",
        51 => "Drizzle, not freezing, continuous, slight at time of observation",
        52 => "Drizzle, not freezing, intermittent, moderate at time of observation",
        53 => "Drizzle, not freezing, continuous, moderate at time of observation",
        54 => "Drizzle, not freezing, intermittent, heavy (dense) at time of observation",
        55 => "Drizzle, not freezing, continuous, heavy (dense) at time of observation",
        56 => "Drizzle, freezing, slight",
        57 => "Drizzle, freezing, moderate or heavy (dense)",
        58 => "Drizzle and rain, slight",
        59 => "Drizzle and rain, moderate or heavy",
        60 => "Rain, not freezing, intermittent, slight at time of observation",
        61 => "Rain, not freezing, continuous, slight at time of observation",
        62 => "Rain, not freezing, intermittent, moderate at time of observation",
        63 => "Rain, not freezing, continuous, moderate at time of observation",
        64 => "Rain, not freezing, intermittent, heavy at time of observation",
        65 => "Rain, not freezing, continuous, heavy at time of observation",
        66 => "Rain, freezing, slight",
        67 => "Rain, freezing, moderate or heavy (dense)",
        68 => "Rain or drizzle and snow, slight",
        69 => "Rain or drizzle and snow, moderate or heavy",
        70 => "Intermittent fall of snowflakes, slight at time of observation",
        71 => "Continuous fall of snowflakes, slight at time of observation",
        72 => "Intermittent fall of snowflakes, moderate at time of observation",
        73 => "Continuous fall of snowflakes, moderate at time of observation",
        74 => "Intermittent fall of snowflakes, heavy at time of observation",
        75 => "Continuous fall of snowflakes, heavy at time of observation",
        76 => "Diamond dust (with or without fog)",
        77 => "Snow grains (with or without fog)",
        78 => "Isolated star-like snow crystals (with or without fog)",
        79 => "Ice pellets",
        80 => "Rain shower(s), slight",
        81 => "Rain shower(s), moderate or heavy",
        82 => "Rain shower(s), violent",
        83 => "Shower(s) of rain and snow mixed, slight",
        84 => "Shower(s) of rain and snow mixed, moderate or heavy",
        85 => "Snow shower(s), slight",
        86 => "Snow shower(s), moderate or heavy",
        87 => "Shower(s) of snow pellets or small hail, with or without rain or rain and snow, slight",
        88 => "Shower(s) of snow pellets or small hail, with or without rain or rain and snow, moderate or heavy",
        89 => "Shower(s) of hail, with or without rain or rain and snow, not associated with thunder, slight",
        90 => "Shower(s) of hail, with or without rain or rain and snow, not associated with thunder, moderate or heavy",
        91 => "Slight rain at time of observation; thunderstorm during preceding hour but not now",
        92 => "Moderate or heavy rain at time of observation; thunderstorm during preceding hour but not now",
        93 => "Slight snow, or rain and snow mixed, or hail at time of observation; thunderstorm during preceding hour but not now",
        94 => "Moderate or heavy snow, or rain and snow mixed, or hail at time of observation; thunderstorm during preceding hour but not now",
        95 => "Thunderstorm, slight or moderate, without hail but with rain and/or snow at time of observation",
        96 => "Thunderstorm, slight or moderate, with hail at time of observation",
        97 => "Thunderstorm, heavy, without hail but with rain and/or snow at time of observation",
        98 => "Thunderstorm combined with duststorm or sandstorm at time of observation",
        99 => "Thunderstorm, heavy, with hail at time of observation",
        _ => "Unknown WMO weather code",
    }
}

/// Return the weather icon for a given WMO 4677 code, "?" for codes without one.
pub fn emoji(code: u32) -> (r: &'static str)
    ensures
        r@ == spec_emoji(code),
{
    match code {
        0..=3 => "\u{2601}\u{fe0f}",
        45 | 48 => "\u{1f32b}\u{fe0f}",
        51..=55 => "\u{1f326}\u{fe0f}",
        61..=65 => "\u{1f327}\u{fe0f}",
        71..=75 => "\u{2744}\u{fe0f}",
        80..=82 => "\u{1f327}\u{fe0f}",
        95..=99 => "\u{26c8}\u{fe0f}",
        _ => "?",
    }
}

} // verus!
