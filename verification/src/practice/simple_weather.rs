//! A simple weather station: weather reports by city, which can be added,
//! updated, looked up and listed.
use vstd::prelude::*;
use vstd::string::*;
use crate::text::{decimal_text, join_lines, joined, lowercase, parsed_in, parse_u8, text_eq, to_lowercase, trim, trimmed, u128_text};

verus! {

/// The weather conditions a report can give.
#[derive(Debug, Clone, Copy, PartialEq, Eq, Structural)]
pub enum WeatherCondition {
    Sunny,
    Cloudy,
    Rainy,
    Snowy,
}

/// A weather report.
#[derive(Debug, Clone, Copy, PartialEq, Eq, Structural)]
pub struct Weather {
    pub temperature: u8,
    pub humidity: u8,
    pub condition: WeatherCondition,
}

/// The weather report of a city.
pub struct CityWeather {
    pub city: String,
    pub weather: Weather,
}

/// The reports of the station, at most one per city.
pub struct WeatherStation {
    pub cities: Vec<CityWeather>,
}

/// The name of a condition.
pub open spec fn condition_text(c: WeatherCondition) -> Seq<char> {
    match c {
        WeatherCondition::Sunny => "Sunny"@,
        WeatherCondition::Cloudy => "Cloudy"@,
        WeatherCondition::Rainy => "Rainy"@,
        WeatherCondition::Snowy => "Snowy"@,
    }
}

/// The text of a report.
pub open spec fn weather_text(w: Weather) -> Seq<char> {
    "temperature: "@ + decimal_text(w.temperature as int) + "°C humidity: "@ + decimal_text(w.humidity as int)
        + "%, weather condition: "@ + condition_text(w.condition)
}

/// The text of a city's report.
pub open spec fn city_text(city: Seq<char>, w: Weather) -> Seq<char> {
    "City:"@ + city + " "@ + weather_text(w)
}

/// The first position at or after `from` whose report is for `city`; -1
/// when there is none.
pub open spec fn city_index(s: Seq<CityWeather>, city: Seq<char>, from: int) -> int
    decreases s.len() - from,
{
    if from < 0 || from >= s.len() {
        -1
    } else if s[from].city@ == city {
        from
    } else {
        city_index(s, city, from + 1)
    }
}

/// No two reports are for the same city.
pub open spec fn distinct_cities(s: Seq<CityWeather>) -> bool {
    forall|i: int, j: int| 0 <= i < j < s.len() ==> s[i].city@ != s[j].city@
}

/// The reports after adding `cw`: it replaces the first report for its city,
/// or is appended when there is none.
pub open spec fn with_city(s: Seq<CityWeather>, cw: CityWeather) -> Seq<CityWeather> {
    let i = city_index(s, cw.city@, 0);
    if i >= 0 { s.update(i, cw) } else { s.push(cw) }
}

/// The condition that a text names: `sunny`, `cloudy`, `rainy`, `snowy`.
pub open spec fn condition_named(t: Seq<char>) -> Option<WeatherCondition> {
    if t == "sunny"@ {
        Some(WeatherCondition::Sunny)
    } else if t == "cloudy"@ {
        Some(WeatherCondition::Cloudy)
    } else if t == "rainy"@ {
        Some(WeatherCondition::Rainy)
    } else if t == "snowy"@ {
        Some(WeatherCondition::Snowy)
    } else {
        None
    }
}

impl WeatherCondition {
    /// The name of the condition.
    pub fn display(&self) -> (r: String)
        ensures
            r@ == condition_text(*self),
    {
        match self {
            WeatherCondition::Sunny => String::from_str("Sunny"),
            WeatherCondition::Cloudy => String::from_str("Cloudy"),
            WeatherCondition::Rainy => String::from_str("Rainy"),
            WeatherCondition::Snowy => String::from_str("Snowy"),
        }
    }
}

impl Default for WeatherCondition {
    fn default() -> (r: WeatherCondition)
        ensures
            r == WeatherCondition::Sunny,
    {
        WeatherCondition::Sunny
    }
}

impl Default for Weather {
    fn default() -> (r: Weather)
        ensures
            r == (Weather { temperature: 0, humidity: 0, condition: WeatherCondition::Sunny }),
    {
        Weather { temperature: 0, humidity: 0, condition: WeatherCondition::Sunny }
    }
}

impl Weather {
    /// A report with the given readings.
    pub fn new(temperature: u8, humidity: u8, condition: WeatherCondition) -> (r: Weather)
        ensures
            r == (Weather { temperature, humidity, condition }),
    {
        Self { temperature, humidity, condition }
    }

    /// Sets the temperature.
    pub fn update_temperature(&mut self, temperature: u8)
        ensures
            *final(self) == (Weather { temperature, ..*old(self) }),
    {
        self.temperature = temperature
    }

    /// Sets the humidity.
    pub fn update_humidity(&mut self, humidity: u8)
        ensures
            *final(self) == (Weather { humidity, ..*old(self) }),
    {
        self.humidity = humidity
    }

    /// Sets the condition.
    pub fn update_condition(&mut self, condition: WeatherCondition)
        ensures
            *final(self) == (Weather { condition, ..*old(self) }),
    {
        self.condition = condition
    }

    /// The text of the report.
    pub fn disply(&self) -> (r: String)
        ensures
            r@ == weather_text(*self),
    {
        let mut r = String::from_str("temperature: ");
        let t = u128_text(self.temperature as u128);
        r.append(t.as_str());
        r.append("°C humidity: ");
        let h = u128_text(self.humidity as u128);
        r.append(h.as_str());
        r.append("%, weather condition: ");
        let c = self.condition.display();
        r.append(c.as_str());
        r
    }
}

impl CityWeather {
    /// The report `weather` for `city`.
    pub fn new(city: String, weather: Weather) -> (r: CityWeather)
        ensures
            r.city == city,
            r.weather == weather,
    {
        Self { city, weather }
    }

    /// Replaces the report.
    pub fn update_weather(&mut self, weather: Weather)
        ensures
            final(self).weather == weather,
            final(self).city == old(self).city,
    {
        self.weather = weather
    }

    /// The text of the city's report.
    pub fn display(&self) -> (r: String)
        ensures
            r@ == city_text(self.city@, self.weather),
    {
        let mut r = String::from_str("City:");
        r.append(self.city.as_str());
        r.append(" ");
        let w = self.weather.disply();
        r.append(w.as_str());
        r
    }
}

impl WeatherStation {
    /// A station without reports.
    pub fn new() -> (r: WeatherStation)
        ensures
            r.cities@ == Seq::<CityWeather>::empty(),
    {
        WeatherStation { cities: Vec::with_capacity(10) }
    }

    /// The first position of a report for `city`, if any.
    fn position(&self, city: &str) -> (r: Option<usize>)
        ensures
            match r {
                Some(i) => i < self.cities@.len() && city_index(self.cities@, city@, 0) == i,
                None => city_index(self.cities@, city@, 0) == -1,
            },
    {
        let mut i: usize = 0;
        while i < self.cities.len()
            invariant
                i <= self.cities@.len(),
                city_index(self.cities@, city@, 0) == city_index(self.cities@, city@, i as int),
            decreases self.cities@.len() - i,
        {
            if text_eq(self.cities[i].city.as_str(), city) {
                return Some(i);
            }
            i += 1;
        }
        None
    }

    /// Adds a report, replacing the one for the same city if there is one.
    pub fn add_city(&mut self, cw: CityWeather)
        ensures
            final(self).cities@ == with_city(old(self).cities@, cw),
    {
        match self.position(cw.city.as_str()) {
            Some(index) => {
                self.cities.set(index, cw);
            },
            None => self.cities.push(cw),
        }
    }

    /// The report for `city`, if there is one.
    pub fn find_city(&self, city: &str) -> (r: Option<&CityWeather>)
        ensures
            ({
                let i = city_index(self.cities@, city@, 0);
                if i >= 0 { r == Some(&self.cities@[i]) } else { r is None }
            }),
    {
        match self.position(city) {
            Some(i) => Some(&self.cities[i]),
            None => None,
        }
    }

    /// The texts of all reports, one per line; `empty citys` when there are
    /// none.
    pub fn list_cites(&self) -> (r: String)
        ensures
            r@ == if self.cities@.len() == 0 {
                "empty citys"@
            } else {
                joined(self.cities@.map_values(|cw: CityWeather| city_text(cw.city@, cw.weather)), "\n"@)
            },
    {
        if self.cities.len() == 0 {
            return String::from_str("empty citys");
        }
        let mut lines: Vec<String> = Vec::new();
        let mut i: usize = 0;
        while i < self.cities.len()
            invariant
                i <= self.cities@.len(),
                lines@.map_values(|l: String| l@) =~= self.cities@.take(i as int).map_values(
                    |cw: CityWeather| city_text(cw.city@, cw.weather),
                ),
            decreases self.cities@.len() - i,
        {
            let ghost before = lines@.map_values(|l: String| l@);
            let line = self.cities[i].display();
            lines.push(line);
            assert(lines@.map_values(|l: String| l@) =~= before.push(city_text(self.cities@[i as int].city@, self.cities@[i as int].weather)));
            assert(self.cities@.take(i + 1) =~= self.cities@.take(i as int).push(self.cities@[i as int]));
            assert(self.cities@.take(i + 1).map_values(|cw: CityWeather| city_text(cw.city@, cw.weather)) =~= self.cities@.take(i as int).map_values(|cw: CityWeather| city_text(cw.city@, cw.weather)).push(city_text(self.cities@[i as int].city@, self.cities@[i as int].weather)));
            i += 1;
        }
        assert(self.cities@.take(self.cities@.len() as int) =~= self.cities@);
        join_lines(&lines, "\n")
    }
}

/// Reads a weather condition from an answer: the trimmed answer in lower
/// case must be `sunny`, `cloudy`, `rainy` or `snowy`.
pub fn get_weather_condition(input: &str) -> (r: Result<WeatherCondition, String>)
    ensures
        match condition_named(lowercase(trimmed(input@))) {
            Some(c) => r == Ok::<WeatherCondition, String>(c),
            None => r matches Err(e) && e@ == "无效的天气条件: "@ + trimmed(input@) + ". 请输入 sunny/cloudy/rainy/snowy"@,
        },
{
    let t = trim(input);
    let l = to_lowercase(t);
    match condition_of_lowercase(l.as_str()) {
        Some(c) => Ok(c),
        None => {
            let mut e = String::from_str("无效的天气条件: ");
            e.append(t);
            e.append(". 请输入 sunny/cloudy/rainy/snowy");
            Err(e)
        },
    }
}

/// The condition that a lower-cased name stands for: `sunny`, `cloudy`,
/// `rainy` or `snowy`; `None` for any other text.
pub fn condition_of_lowercase(l: &str) -> (r: Option<WeatherCondition>)
    ensures
        r == condition_named(l@),
{
    if text_eq(l, "sunny") {
        Some(WeatherCondition::Sunny)
    } else if text_eq(l, "cloudy") {
        Some(WeatherCondition::Cloudy)
    } else if text_eq(l, "rainy") {
        Some(WeatherCondition::Rainy)
    } else if text_eq(l, "snowy") {
        Some(WeatherCondition::Snowy)
    } else {
        None
    }
}

/// Reads a menu choice from an answer: the trimmed answer must be a `u8`
/// from 0 to 3.
pub fn get_user_input_choice(input: &str) -> (r: Result<u8, String>)
    ensures
        match parsed_in(trimmed(input@), false, 0, 255) {
            Some(n) => if n <= 3 {
                r == Ok::<u8, String>(n as u8)
            } else {
                r matches Err(e) && e@ == "选项 "@ + decimal_text(n) + " 超出范围 (0-3)"@
            },
            None => r matches Err(e) && e@ == "无效数字: "@ + input@,
        },
{
    match parse_u8(trim(input)) {
        Some(n) => {
            if n <= 3 {
                Ok(n)
            } else {
                let mut e = String::from_str("选项 ");
                let d = u128_text(n as u128);
                e.append(d.as_str());
                e.append(" 超出范围 (0-3)");
                Err(e)
            }
        },
        None => {
            let mut e = String::from_str("无效数字: ");
            e.append(input);
            Err(e)
        },
    }
}

/// Adding a report and then looking up its city gives that report back.
pub proof fn lemma_find_after_add(s: Seq<CityWeather>, cw: CityWeather)
    ensures
        city_index(with_city(s, cw), cw.city@, 0) >= 0,
        with_city(s, cw)[city_index(with_city(s, cw), cw.city@, 0)] == cw,
{
    let i = city_index(s, cw.city@, 0);
    lemma_city_index_facts(s, cw.city@, 0);
    if i >= 0 {
        lemma_city_index_update(s, cw, 0);
    } else {
        lemma_city_index_push(s, cw, 0);
    }
}

/// Adding a report keeps the reports one per city.
pub proof fn lemma_add_keeps_distinct(s: Seq<CityWeather>, cw: CityWeather)
    requires
        distinct_cities(s),
    ensures
        distinct_cities(with_city(s, cw)),
{
    lemma_city_index_facts(s, cw.city@, 0);
}

/// `city_index` finds the first position from `from` with the city, and -1
/// exactly when there is none.
proof fn lemma_city_index_facts(s: Seq<CityWeather>, city: Seq<char>, from: int)
    requires
        0 <= from,
    ensures
        city_index(s, city, from) == -1 || from <= city_index(s, city, from) < s.len(),
        city_index(s, city, from) >= 0 ==> s[city_index(s, city, from)].city@ == city,
        city_index(s, city, from) >= 0 ==> forall|j: int| from <= j < city_index(s, city, from) ==> s[j].city@ != city,
        city_index(s, city, from) == -1 ==> forall|j: int| from <= j < s.len() ==> s[j].city@ != city,
    decreases s.len() - from,
{
    if from < s.len() && s[from].city@ != city {
        lemma_city_index_facts(s, city, from + 1);
    }
}

proof fn lemma_city_index_update(s: Seq<CityWeather>, cw: CityWeather, from: int)
    requires
        0 <= from <= city_index(s, cw.city@, 0),
        city_index(s, cw.city@, from) == city_index(s, cw.city@, 0),
    ensures
        city_index(s.update(city_index(s, cw.city@, 0), cw), cw.city@, from) == city_index(s, cw.city@, 0),
    decreases s.len() - from,
{
    lemma_city_index_facts(s, cw.city@, from);
    let i = city_index(s, cw.city@, 0);
    if from < i {
        lemma_city_index_update(s, cw, from + 1);
    }
}

proof fn lemma_city_index_push(s: Seq<CityWeather>, cw: CityWeather, from: int)
    requires
        0 <= from <= s.len(),
        city_index(s, cw.city@, from) == -1,
    ensures
        city_index(s.push(cw), cw.city@, from) == s.len(),
    decreases s.len() - from,
{
    lemma_city_index_facts(s, cw.city@, from);
    if from < s.len() {
        lemma_city_index_push(s, cw, from + 1);
    }
}

} // verus!
