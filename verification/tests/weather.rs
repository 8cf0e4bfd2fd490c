use bony_build::weather::{
    preferred_hit, rewrite_location_query, weather_args, CurrentReading, DailyRow, ForecastText,
    HourlyRow, WeatherTool,
};

#[test]
fn name_is_weather() {
    assert_eq!(WeatherTool::new().name(), "weather");
}

#[test]
fn rewrite_maps_shenzhen() {
    assert!(rewrite_location_query("深圳").contains("Shenzhen"));
    assert_eq!(rewrite_location_query("London"), "London");
}

#[test]
fn weather_code_labels() {
    assert_eq!(WeatherTool::weather_code_label(0), "Clear");
    assert_eq!(WeatherTool::weather_code_label(2), "Partly cloudy");
}

#[test]
fn rewrite_trims_and_maps_city_suffix() {
    assert_eq!(rewrite_location_query("  北京市 "), "Beijing, China");
    assert_eq!(rewrite_location_query("澳門"), "Macau");
    assert_eq!(rewrite_location_query("  Paris  "), "Paris");
}

#[test]
fn weather_code_groups_and_unknown() {
    assert_eq!(WeatherTool::weather_code_label(48), "Fog");
    assert_eq!(WeatherTool::weather_code_label(99), "Thunderstorm with hail");
    assert_eq!(WeatherTool::weather_code_label(4), "Unknown");
}

#[test]
fn missing_location_is_an_error() {
    let err = weather_args(None, None, None).unwrap_err();
    assert!(err.contains("location"));
    let blank = weather_args(Some("   "), None, None).unwrap_err();
    assert_eq!(blank, "Missing required parameter 'location'");
}

#[test]
fn args_defaults_and_limits() {
    let a = weather_args(Some("深圳"), None, None).unwrap();
    assert_eq!(a.location, "Shenzhen, Guangdong, China");
    assert!(a.metric);
    assert_eq!(a.days, 1);
    let b = weather_args(Some("London"), Some("IMPERIAL"), Some(9)).unwrap();
    assert!(!b.metric);
    assert_eq!(b.days, 3);
}

#[test]
fn chinese_queries_prefer_hits_in_china() {
    let countries = vec![Some("Hong Kong".to_string()), None, Some("CHINA".to_string())];
    assert_eq!(preferred_hit("深圳", &countries), 2);
    assert_eq!(preferred_hit("Shenzhen", &countries), 2);
    assert_eq!(preferred_hit("London", &countries), 0);
    let none_in_china = vec![Some("Hong Kong".to_string())];
    assert_eq!(preferred_hit("深圳", &none_in_china), 0);
}

#[test]
fn place_label_skips_empty_parts() {
    assert_eq!(
        WeatherTool::place_label("Shenzhen", &Some("Guangdong".into()), &Some("China".into())),
        "Shenzhen, Guangdong, China"
    );
    assert_eq!(WeatherTool::place_label("X", &Some(String::new()), &Some("C".into())), "X, C");
    assert_eq!(WeatherTool::place_label("X", &None, &None), "X");
}

#[test]
fn forecast_query_clamps_days_and_picks_units() {
    let q = bony_build::weather::forecast_query(0, false, Some(""));
    assert!(q.contains("&forecast_days=1&"));
    assert!(q.contains("temperature_unit=fahrenheit"));
    assert!(q.contains("wind_speed_unit=mph"));
    assert!(q.ends_with("&timezone=auto"));
    let m = bony_build::weather::forecast_query(7, true, Some("Asia/Shanghai"));
    assert!(m.contains("&forecast_days=3&"));
    assert!(m.ends_with("&timezone=Asia/Shanghai"));
}

fn reading() -> CurrentReading {
    CurrentReading {
        time: Some("2024-05-01T12:00".into()),
        temperature: Some("25".into()),
        apparent_temperature: Some("27".into()),
        relative_humidity: Some("80".into()),
        weather_code: Some(2),
        wind_speed: Some("10".into()),
        wind_direction: Some("NE".into()),
        precipitation: Some("0.5".into()),
        cloud_cover: None,
        surface_pressure: Some("1008".into()),
    }
}

#[test]
fn report_current_only() {
    let data = ForecastText { current: Some(reading()), daily: None, hourly: None };
    let out = WeatherTool::format_output("Shenzhen, China", &data, true, 0);
    assert_eq!(
        out,
        "Weather for Shenzhen, China (as of 2024-05-01T12:00)\n\
         ─────────────────────────────────────────\n\
         Conditions : Partly cloudy\n\
         Temperature: 25°C (feels like 27°C)\n\
         Humidity   : 80%\n\
         Wind       : 10 km/h NE\n\
         Precipitation: 0.5 mm\n\
         Pressure   : 1008 hPa\n\
         Cloud Cover: —"
    );
}

#[test]
fn report_without_current_conditions() {
    let data = ForecastText { current: None, daily: None, hourly: None };
    assert_eq!(WeatherTool::format_output("X", &data, true, 1), "No current conditions for X.");
}

#[test]
fn report_days_and_selected_hours() {
    let day = |d: &str| DailyRow {
        date: d.into(),
        high: Some("30".into()),
        low: None,
        weather_code: Some(61),
        precipitation: Some("1.2".into()),
        uv_index: Some("7".into()),
        sunrise: Some("05:40".into()),
        sunset: None,
    };
    let hours: Vec<HourlyRow> = (0..30)
        .map(|i| HourlyRow {
            time: format!("h{i}"),
            temperature: Some("20".into()),
            weather_code: None,
            precipitation_probability: Some("5".into()),
            wind_speed: Some("3".into()),
        })
        .collect();
    let data = ForecastText {
        current: Some(reading()),
        daily: Some(vec![day("d1"), day("d2"), day("d3")]),
        hourly: Some(hours),
    };
    let out = WeatherTool::format_output("P", &data, false, 2);
    assert!(out.contains(
        "\n\nForecast\n────────\n  d1: Rain | High 30°F / Low — | Rain 1.2in | UV 7 | Sunrise 05:40 | Sunset —\n  d2:"
    ));
    assert!(!out.contains("d3:"));
    assert!(out.contains("\n\nToday (selected hours)\n────────────────────\n    h0: 20°F — — | Wind 3 mph | Rain chance 5%"));
    assert!(out.contains("h6:") && out.contains("h12:") && out.contains("h18:"));
    assert!(!out.contains("h24:") && !out.contains("h1:"));
    let three = WeatherTool::format_output("P", &data, true, 3);
    assert!(three.contains("d3:"));
    assert!(!three.contains("Today (selected hours)"));
}

#[test]
fn geocode_request_percent_encodes_the_name() {
    assert_eq!(
        bony_build::weather::geocode_url("New York"),
        "https://geocoding-api.open-meteo.com/v1/search?name=New%20York&count=5&language=en&format=json"
    );
    assert!(bony_build::weather::geocode_url("深圳").contains("?name=%E6%B7%B1%E5%9C%B3&"));
    let _ = WeatherTool::default();
}
