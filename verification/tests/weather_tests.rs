use home_dashboard::tz::CivilDate;
use home_dashboard::weather::{
    daily_forecast, hourly_forecast, hourly_icon, select_hourly, upcoming_daily,
    weather_code_from, Icon, WeatherCode,
};

#[test]
fn known_codes_decode_to_their_condition() {
    assert_eq!(weather_code_from(0), WeatherCode::Clear);
    assert_eq!(weather_code_from(2), WeatherCode::PartlyCloudy);
    assert_eq!(weather_code_from(45), WeatherCode::Fog);
    assert_eq!(weather_code_from(61), WeatherCode::SlightRain);
    assert_eq!(weather_code_from(75), WeatherCode::HeavySnow);
    assert_eq!(weather_code_from(99), WeatherCode::SlightThunderstormHeavyHail);
}

#[test]
fn unknown_codes_fall_back_instead_of_failing() {
    assert_eq!(weather_code_from(4), WeatherCode::Unknown);
    assert_eq!(weather_code_from(42), WeatherCode::Unknown);
    assert_eq!(weather_code_from(255), WeatherCode::Unknown);
}

#[test]
fn hourly_forecast_assigns_hours_of_day() {
    let temperatures: Vec<i16> = (0..48).map(|i| (i as i16) * 10).collect();
    let codes: Vec<u8> = vec![0; 48];
    let forecast = hourly_forecast(&temperatures, &codes);
    assert_eq!(forecast.len(), 48);
    assert_eq!(forecast[0].hour, 0);
    assert_eq!(forecast[23].hour, 23);
    assert_eq!(forecast[24].hour, 0);
    assert_eq!(forecast[47].hour, 23);
    assert_eq!(forecast[5].temperature, 50);
    assert_eq!(forecast[5].weather_code, WeatherCode::Clear);
}

#[test]
fn daily_forecast_zips_the_arrays() {
    let dates = vec![
        CivilDate { year: 2024, month: 1, day: 1 },
        CivilDate { year: 2024, month: 1, day: 2 },
        CivilDate { year: 2024, month: 1, day: 3 },
        CivilDate { year: 2024, month: 1, day: 4 },
    ];
    let mins = vec![-15, 0, 12, 30];
    let maxs = vec![25, 40, 52, 71];
    let codes = vec![0, 3, 63, 200];
    let forecast = daily_forecast(&dates, &mins, &maxs, &codes);
    assert_eq!(forecast.len(), 4);
    assert_eq!(forecast[0].date, CivilDate { year: 2024, month: 1, day: 1 });
    assert_eq!(forecast[0].min_temperature, -15);
    assert_eq!(forecast[0].max_temperature, 25);
    assert_eq!(forecast[1].weather_code, WeatherCode::Overcast);
    assert_eq!(forecast[2].weather_code, WeatherCode::ModerateRain);
    assert_eq!(forecast[3].weather_code, WeatherCode::Unknown);
}

#[test]
fn hourly_selection_takes_every_second_hour() {
    let temperatures: Vec<i16> = (0..48).map(|i| i as i16).collect();
    let codes: Vec<u8> = vec![0; 48];
    let forecast = hourly_forecast(&temperatures, &codes);
    let shown = select_hourly(&forecast, 9);
    assert_eq!(shown.len(), 3);
    assert_eq!(shown[0].temperature, 9);
    assert_eq!(shown[1].temperature, 11);
    assert_eq!(shown[2].temperature, 13);
    // Near the end of the forecast only what remains is shown.
    let tail = select_hourly(&forecast, 45);
    assert_eq!(tail.len(), 2);
    assert_eq!(tail[0].temperature, 45);
    assert_eq!(tail[1].temperature, 47);
    let past_end = select_hourly(&forecast, 48);
    assert_eq!(past_end.len(), 0);
}

#[test]
fn daily_selection_drops_today() {
    let dates: Vec<CivilDate> = (1..=4)
        .map(|d| CivilDate { year: 2024, month: 1, day: d })
        .collect();
    let forecast = daily_forecast(&dates, &vec![0; 4], &vec![0; 4], &vec![0; 4]);
    let shown = upcoming_daily(&forecast);
    assert_eq!(shown.len(), 3);
    assert_eq!(shown[0].date.day, 2);
    assert_eq!(shown[2].date.day, 4);
    assert_eq!(upcoming_daily(&Vec::new()).len(), 0);
}

#[test]
fn clear_sky_icon_follows_the_hour() {
    assert_eq!(hourly_icon(12, WeatherCode::Clear), Icon::Sun);
    assert_eq!(hourly_icon(8, WeatherCode::MainlyClear), Icon::Sun);
    assert_eq!(hourly_icon(19, WeatherCode::Clear), Icon::Sun);
    assert_eq!(hourly_icon(20, WeatherCode::Clear), Icon::Moon);
    assert_eq!(hourly_icon(7, WeatherCode::MainlyClear), Icon::Moon);
    assert_eq!(hourly_icon(0, WeatherCode::PartlyCloudy), Icon::CloudMoon);
    assert_eq!(hourly_icon(12, WeatherCode::PartlyCloudy), Icon::CloudSun);
}

#[test]
fn rain_icons_scale_with_intensity() {
    assert_eq!(hourly_icon(12, WeatherCode::LightDrizzle), Icon::Rain0);
    assert_eq!(hourly_icon(12, WeatherCode::SlightRain), Icon::Rain0);
    assert_eq!(hourly_icon(12, WeatherCode::ModerateRain), Icon::Rain1);
    assert_eq!(hourly_icon(12, WeatherCode::SlightRainShower), Icon::Rain1);
    assert_eq!(hourly_icon(12, WeatherCode::HeavyRain), Icon::Rain2);
    assert_eq!(hourly_icon(12, WeatherCode::Overcast), Icon::Cloud);
    assert_eq!(hourly_icon(12, WeatherCode::Fog), Icon::CloudWind);
}

#[test]
fn conditions_without_an_icon_fall_back_to_sun() {
    assert_eq!(hourly_icon(12, WeatherCode::HeavySnow), Icon::Sun);
    assert_eq!(hourly_icon(3, WeatherCode::Unknown), Icon::Sun);
}
