use rust_learn::practice::simple_weather::{
    condition_of_lowercase, get_user_input_choice, get_weather_condition, CityWeather, Weather, WeatherCondition, WeatherStation,
};

#[test]
fn weather_texts() {
    let w = Weather::new(21, 40, WeatherCondition::Rainy);
    assert_eq!(w.disply(), "temperature: 21°C humidity: 40%, weather condition: Rainy");
    let cw = CityWeather::new("Paris".to_string(), w);
    assert_eq!(cw.display(), "City:Paris temperature: 21°C humidity: 40%, weather condition: Rainy");
    assert_eq!(WeatherCondition::default().display(), "Sunny");
}

#[test]
fn weather_updates() {
    let mut w = Weather::default();
    w.update_temperature(30);
    w.update_humidity(80);
    w.update_condition(WeatherCondition::Snowy);
    assert_eq!(w, Weather::new(30, 80, WeatherCondition::Snowy));
    let mut cw = CityWeather::new("Oslo".to_string(), Weather::default());
    cw.update_weather(w);
    assert_eq!(cw.weather, w);
}

#[test]
fn station_add_find_list() {
    let mut s = WeatherStation::new();
    assert_eq!(s.list_cites(), "empty citys");
    assert!(s.find_city("Rome").is_none());
    s.add_city(CityWeather::new("Rome".to_string(), Weather::new(25, 50, WeatherCondition::Sunny)));
    s.add_city(CityWeather::new("Oslo".to_string(), Weather::new(2, 70, WeatherCondition::Snowy)));
    // a second report for Rome replaces the first
    s.add_city(CityWeather::new("Rome".to_string(), Weather::new(19, 60, WeatherCondition::Cloudy)));
    assert_eq!(s.cities.len(), 2);
    assert_eq!(s.find_city("Rome").unwrap().weather, Weather::new(19, 60, WeatherCondition::Cloudy));
    assert_eq!(
        s.list_cites(),
        "City:Rome temperature: 19°C humidity: 60%, weather condition: Cloudy\nCity:Oslo temperature: 2°C humidity: 70%, weather condition: Snowy"
    );
}

#[test]
fn weather_condition_answers() {
    assert_eq!(get_weather_condition(" Sunny\n"), Ok(WeatherCondition::Sunny));
    assert_eq!(get_weather_condition("RAINY"), Ok(WeatherCondition::Rainy));
    assert_eq!(
        get_weather_condition(" foggy \n"),
        Err("无效的天气条件: foggy. 请输入 sunny/cloudy/rainy/snowy".to_string())
    );
}

#[test]
fn menu_choice_answers() {
    assert_eq!(get_user_input_choice("2\n"), Ok(2));
    assert_eq!(get_user_input_choice("7\n"), Err("选项 7 超出范围 (0-3)".to_string()));
    assert_eq!(get_user_input_choice("x\n"), Err("无效数字: x\n".to_string()));
    assert_eq!(get_user_input_choice("256"), Err("无效数字: 256".to_string()));
}

#[test]
fn lowercase_condition_names() {
    assert_eq!(condition_of_lowercase("cloudy"), Some(WeatherCondition::Cloudy));
    assert_eq!(condition_of_lowercase("snowy"), Some(WeatherCondition::Snowy));
    assert_eq!(condition_of_lowercase("Snowy"), None);
    assert_eq!(condition_of_lowercase(" sunny"), None);
}
