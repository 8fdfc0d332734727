//! Discovery descriptors: the retained JSON messages published once at
//! startup that tell the automation hub what sensors exist.
//!
//! Each payload is built as one exact byte string: the descriptor values
//! are fixed literals that carry no JSON metacharacters, so no escaping is
//! involved, and the fields appear in a fixed order.

use vstd::prelude::*;
use vstd::string::StringSliceAdditionalSpecFns;

use crate::bytes::{ascii_bytes, push_bytes, to_vec_bytes};
use crate::pipeline::{state_topic, Sample};

verus! {

/// The configuration topic a field's descriptor is published to.
pub open spec fn config_topic(suffix: Seq<u8>) -> Seq<u8> {
    ascii_bytes("homeassistant/sensor/ambientWeather/"@) + suffix + ascii_bytes("/config"@)
}

/// The shared device identity object, serialized once.
pub open spec fn device_json() -> Seq<u8> {
    "{\"identifiers\":\"ambw_mqtt\",\"manufacturer\":\"Ambient Weather\",\"model\":\"WS-2902\",\"name\":\"MQTT Weather Station\",\"via_device\":\"ambient_weather_mqtt\"}".spec_bytes()
}

/// One descriptor payload: name, unique id, optional device class, the
/// shared device object, state topic, unit, and state class.
pub open spec fn spec_config_payload(
    name: Seq<u8>,
    uid: Seq<u8>,
    dc: Option<Seq<u8>>,
    suffix: Seq<u8>,
    unit: Seq<u8>,
    sclass: Seq<u8>,
) -> Seq<u8> {
    "{\"name\":\"".spec_bytes() + name + "\",\"unique_id\":\"".spec_bytes() + uid + (match dc {
        Some(d) => "\",\"device_class\":\"".spec_bytes() + d,
        None => Seq::<u8>::empty(),
    }) + "\",\"device\":".spec_bytes() + device_json() + ",\"state_topic\":\"".spec_bytes()
        + state_topic(suffix) + "\",\"unit_of_measurement\":\"".spec_bytes() + unit
        + "\",\"state_class\":\"".spec_bytes() + sclass + "\"}".spec_bytes()
}

/// Copies a string literal's UTF-8 bytes into a vector.
fn utf8_lit(s: &str) -> (r: Vec<u8>)
    ensures
        r@ == s.spec_bytes(),
{
    to_vec_bytes(s.as_bytes())
}

/// Builds one retained descriptor message.
fn descriptor(
    suffix: &str,
    name: &str,
    uid: &str,
    dc: Option<&str>,
    unit: &str,
    sclass: &str,
) -> (r: Sample)
    requires
        vstd::string::is_ascii(suffix),
    ensures
        r.topic@ == config_topic(ascii_bytes(suffix@)),
        r.payload@ == spec_config_payload(
            name.spec_bytes(),
            uid.spec_bytes(),
            match dc {
                Some(d) => Some(d.spec_bytes()),
                None => None,
            },
            ascii_bytes(suffix@),
            unit.spec_bytes(),
            sclass.spec_bytes(),
        ),
        r.retained,
{
    proof {
        reveal_strlit("homeassistant/sensor/ambientWeather/");
        reveal_strlit("/config");
    }
    let mut topic = crate::bytes::lit("homeassistant/sensor/ambientWeather/");
    let sfx = crate::bytes::lit(suffix);
    push_bytes(&mut topic, sfx.as_slice());
    let tail = crate::bytes::lit("/config");
    push_bytes(&mut topic, tail.as_slice());
    proof {
        assert(topic@ =~= config_topic(ascii_bytes(suffix@)));
    }

    let mut payload = utf8_lit("{\"name\":\"");
    push_bytes(&mut payload, name.as_bytes());
    let p1 = utf8_lit("\",\"unique_id\":\"");
    push_bytes(&mut payload, p1.as_slice());
    push_bytes(&mut payload, uid.as_bytes());
    match dc {
        Some(d) => {
            let p2 = utf8_lit("\",\"device_class\":\"");
            push_bytes(&mut payload, p2.as_slice());
            push_bytes(&mut payload, d.as_bytes());
        },
        None => {},
    }
    let p3 = utf8_lit("\",\"device\":");
    push_bytes(&mut payload, p3.as_slice());
    let dev = utf8_lit(
        "{\"identifiers\":\"ambw_mqtt\",\"manufacturer\":\"Ambient Weather\",\"model\":\"WS-2902\",\"name\":\"MQTT Weather Station\",\"via_device\":\"ambient_weather_mqtt\"}",
    );
    push_bytes(&mut payload, dev.as_slice());
    let p4 = utf8_lit(",\"state_topic\":\"");
    push_bytes(&mut payload, p4.as_slice());
    let st = crate::pipeline::make_state_topic(sfx.as_slice());
    push_bytes(&mut payload, st.as_slice());
    let p5 = utf8_lit("\",\"unit_of_measurement\":\"");
    push_bytes(&mut payload, p5.as_slice());
    push_bytes(&mut payload, unit.as_bytes());
    let p6 = utf8_lit("\",\"state_class\":\"");
    push_bytes(&mut payload, p6.as_slice());
    push_bytes(&mut payload, sclass.as_bytes());
    let p7 = utf8_lit("\"}");
    push_bytes(&mut payload, p7.as_slice());
    proof {
        assert(payload@ =~= spec_config_payload(
            name.spec_bytes(),
            uid.spec_bytes(),
            match dc {
                Some(d) => Some(d.spec_bytes()),
                None => None,
            },
            ascii_bytes(suffix@),
            unit.spec_bytes(),
            sclass.spec_bytes(),
        ));
    }
    Sample { topic, payload, retained: true }
}

} // verus!

verus! {

/// The model of one descriptor message, from its literal fields.
pub open spec fn desc(
    suffix: &str,
    name: &str,
    uid: &str,
    dc: Option<&str>,
    unit: &str,
    sclass: &str,
) -> (Seq<u8>, Seq<u8>, bool) {
    (
        config_topic(ascii_bytes(suffix@)),
        spec_config_payload(
            name.spec_bytes(),
            uid.spec_bytes(),
            match dc {
                Some(d) => Some(d.spec_bytes()),
                None => None,
            },
            ascii_bytes(suffix@),
            unit.spec_bytes(),
            sclass.spec_bytes(),
        ),
        true,
    )
}

/// The full set of descriptors published at startup: one per station field
/// and one for the derived apparent temperature.
pub open spec fn spec_discovery() -> Seq<(Seq<u8>, Seq<u8>, bool)> {
    seq![
        desc("temperature", "Outside Temperature", "ambw_mqtt_outside_temp", Some("temperature"), "\u{b0}F", "measurement"),
        desc("feelsLike", "Outside Feels Like", "ambw_mqtt_outside_feels", Some("temperature"), "\u{b0}F", "measurement"),
        desc("humidity", "Outside Humidity", "ambw_mqtt_outside_hum", Some("humidity"), "%", "measurement"),
        desc("dewPoint", "Outside Dew Point", "ambw_mqtt_outside_dew", Some("temperature"), "\u{b0}F", "measurement"),
        desc("windChill", "Wind Chill", "ambw_mqtt_wind_chill", Some("temperature"), "\u{b0}F", "measurement"),
        desc("windDir", "Wind Dir", "ambw_mqtt_wind_dir", None, "\u{b0}", "measurement"),
        desc("windSpeed", "Wind Speed", "ambw_mqtt_wind_speed", Some("wind_speed"), "mph", "measurement"),
        desc("windGust", "Wind Gust", "ambw_mqtt_wind_gust", Some("wind_speed"), "mph", "measurement"),
        desc("rainHourly", "Hourly Rain Rate", "ambw_mqtt_hourly_rain", Some("precipitation_intensity"), "in/h", "measurement"),
        desc("rainDaily", "Daily Rain", "ambw_mqtt_daily_rain", Some("precipitation"), "in", "total_increasing"),
        desc("rainWeekly", "Weekly Rain", "ambw_mqtt_weekly_rain", Some("precipitation"), "in", "total_increasing"),
        desc("rainMonthly", "Monthly Rain", "ambw_mqtt_monthyl_rain", Some("precipitation"), "in", "total_increasing"),
        desc("rainLifetime", "Lifetime Rain", "ambw_mqtt_lifetime_rain", Some("precipitation"), "in", "total_increasing"),
        desc("solarRadiation", "Solar Radiation", "ambw_mqtt_solar_rad", Some("irradiance"), "W/m\u{b2}", "measurement"),
        desc("UV", "UV Index", "ambw_mqtt_uv", None, "Index", "measurement"),
        desc("kitchenTemperature", "Kitchen Temperature", "ambw_mqtt_indoor_temp", Some("temperature"), "\u{b0}F", "measurement"),
        desc("kitchenHumidity", "Kitchen Humidity", "ambw_mqtt_indoor_hum", Some("humidity"), "%", "measurement"),
        desc("pressure", "Outside Pressure", "ambw_mqtt_abs_press", Some("atmospheric_pressure"), "hPa", "measurement"),
        desc("relativePressure", "Outside Relative Pressure", "ambw_mqtt_rel_press", Some("atmospheric_pressure"), "hPa", "measurement"),
    ]
}


/// Builds one run of descriptors.
#[verifier::rlimit(100)]
fn discovery_part_a() -> (r: Vec<Sample>)
    ensures
        crate::pipeline::samples_view(r@) == seq![
            desc("temperature", "Outside Temperature", "ambw_mqtt_outside_temp", Some("temperature"), "\u{b0}F", "measurement"),
            desc("feelsLike", "Outside Feels Like", "ambw_mqtt_outside_feels", Some("temperature"), "\u{b0}F", "measurement"),
            desc("humidity", "Outside Humidity", "ambw_mqtt_outside_hum", Some("humidity"), "%", "measurement"),
        ],
{
    proof {
        reveal_strlit("temperature");
        reveal_strlit("feelsLike");
        reveal_strlit("humidity");
    }
    let mut r: Vec<Sample> = Vec::new();
    r.push(descriptor("temperature", "Outside Temperature", "ambw_mqtt_outside_temp", Some("temperature"), "\u{b0}F", "measurement"));
    r.push(descriptor("feelsLike", "Outside Feels Like", "ambw_mqtt_outside_feels", Some("temperature"), "\u{b0}F", "measurement"));
    r.push(descriptor("humidity", "Outside Humidity", "ambw_mqtt_outside_hum", Some("humidity"), "%", "measurement"));
    proof {
        assert(crate::pipeline::samples_view(r@) =~= seq![
            desc("temperature", "Outside Temperature", "ambw_mqtt_outside_temp", Some("temperature"), "\u{b0}F", "measurement"),
            desc("feelsLike", "Outside Feels Like", "ambw_mqtt_outside_feels", Some("temperature"), "\u{b0}F", "measurement"),
            desc("humidity", "Outside Humidity", "ambw_mqtt_outside_hum", Some("humidity"), "%", "measurement"),
        ]);
    }
    r
}

/// Builds one run of descriptors.
#[verifier::rlimit(100)]
fn discovery_part_b() -> (r: Vec<Sample>)
    ensures
        crate::pipeline::samples_view(r@) == seq![
            desc("dewPoint", "Outside Dew Point", "ambw_mqtt_outside_dew", Some("temperature"), "\u{b0}F", "measurement"),
            desc("windChill", "Wind Chill", "ambw_mqtt_wind_chill", Some("temperature"), "\u{b0}F", "measurement"),
            desc("windDir", "Wind Dir", "ambw_mqtt_wind_dir", None, "\u{b0}", "measurement"),
        ],
{
    proof {
        reveal_strlit("dewPoint");
        reveal_strlit("windChill");
        reveal_strlit("windDir");
    }
    let mut r: Vec<Sample> = Vec::new();
    r.push(descriptor("dewPoint", "Outside Dew Point", "ambw_mqtt_outside_dew", Some("temperature"), "\u{b0}F", "measurement"));
    r.push(descriptor("windChill", "Wind Chill", "ambw_mqtt_wind_chill", Some("temperature"), "\u{b0}F", "measurement"));
    r.push(descriptor("windDir", "Wind Dir", "ambw_mqtt_wind_dir", None, "\u{b0}", "measurement"));
    proof {
        assert(crate::pipeline::samples_view(r@) =~= seq![
            desc("dewPoint", "Outside Dew Point", "ambw_mqtt_outside_dew", Some("temperature"), "\u{b0}F", "measurement"),
            desc("windChill", "Wind Chill", "ambw_mqtt_wind_chill", Some("temperature"), "\u{b0}F", "measurement"),
            desc("windDir", "Wind Dir", "ambw_mqtt_wind_dir", None, "\u{b0}", "measurement"),
        ]);
    }
    r
}

/// Builds one run of descriptors.
#[verifier::rlimit(100)]
fn discovery_part_c() -> (r: Vec<Sample>)
    ensures
        crate::pipeline::samples_view(r@) == seq![
            desc("windSpeed", "Wind Speed", "ambw_mqtt_wind_speed", Some("wind_speed"), "mph", "measurement"),
            desc("windGust", "Wind Gust", "ambw_mqtt_wind_gust", Some("wind_speed"), "mph", "measurement"),
            desc("rainHourly", "Hourly Rain Rate", "ambw_mqtt_hourly_rain", Some("precipitation_intensity"), "in/h", "measurement"),
        ],
{
    proof {
        reveal_strlit("windSpeed");
        reveal_strlit("windGust");
        reveal_strlit("rainHourly");
    }
    let mut r: Vec<Sample> = Vec::new();
    r.push(descriptor("windSpeed", "Wind Speed", "ambw_mqtt_wind_speed", Some("wind_speed"), "mph", "measurement"));
    r.push(descriptor("windGust", "Wind Gust", "ambw_mqtt_wind_gust", Some("wind_speed"), "mph", "measurement"));
    r.push(descriptor("rainHourly", "Hourly Rain Rate", "ambw_mqtt_hourly_rain", Some("precipitation_intensity"), "in/h", "measurement"));
    proof {
        assert(crate::pipeline::samples_view(r@) =~= seq![
            desc("windSpeed", "Wind Speed", "ambw_mqtt_wind_speed", Some("wind_speed"), "mph", "measurement"),
            desc("windGust", "Wind Gust", "ambw_mqtt_wind_gust", Some("wind_speed"), "mph", "measurement"),
            desc("rainHourly", "Hourly Rain Rate", "ambw_mqtt_hourly_rain", Some("precipitation_intensity"), "in/h", "measurement"),
        ]);
    }
    r
}

/// Builds one run of descriptors.
#[verifier::rlimit(100)]
fn discovery_part_d() -> (r: Vec<Sample>)
    ensures
        crate::pipeline::samples_view(r@) == seq![
            desc("rainDaily", "Daily Rain", "ambw_mqtt_daily_rain", Some("precipitation"), "in", "total_increasing"),
            desc("rainWeekly", "Weekly Rain", "ambw_mqtt_weekly_rain", Some("precipitation"), "in", "total_increasing"),
            desc("rainMonthly", "Monthly Rain", "ambw_mqtt_monthyl_rain", Some("precipitation"), "in", "total_increasing"),
        ],
{
    proof {
        reveal_strlit("rainDaily");
        reveal_strlit("rainWeekly");
        reveal_strlit("rainMonthly");
    }
    let mut r: Vec<Sample> = Vec::new();
    r.push(descriptor("rainDaily", "Daily Rain", "ambw_mqtt_daily_rain", Some("precipitation"), "in", "total_increasing"));
    r.push(descriptor("rainWeekly", "Weekly Rain", "ambw_mqtt_weekly_rain", Some("precipitation"), "in", "total_increasing"));
    r.push(descriptor("rainMonthly", "Monthly Rain", "ambw_mqtt_monthyl_rain", Some("precipitation"), "in", "total_increasing"));
    proof {
        assert(crate::pipeline::samples_view(r@) =~= seq![
            desc("rainDaily", "Daily Rain", "ambw_mqtt_daily_rain", Some("precipitation"), "in", "total_increasing"),
            desc("rainWeekly", "Weekly Rain", "ambw_mqtt_weekly_rain", Some("precipitation"), "in", "total_increasing"),
            desc("rainMonthly", "Monthly Rain", "ambw_mqtt_monthyl_rain", Some("precipitation"), "in", "total_increasing"),
        ]);
    }
    r
}

/// Builds one run of descriptors.
#[verifier::rlimit(100)]
fn discovery_part_e() -> (r: Vec<Sample>)
    ensures
        crate::pipeline::samples_view(r@) == seq![
            desc("rainLifetime", "Lifetime Rain", "ambw_mqtt_lifetime_rain", Some("precipitation"), "in", "total_increasing"),
            desc("solarRadiation", "Solar Radiation", "ambw_mqtt_solar_rad", Some("irradiance"), "W/m\u{b2}", "measurement"),
            desc("UV", "UV Index", "ambw_mqtt_uv", None, "Index", "measurement"),
        ],
{
    proof {
        reveal_strlit("rainLifetime");
        reveal_strlit("solarRadiation");
        reveal_strlit("UV");
    }
    let mut r: Vec<Sample> = Vec::new();
    r.push(descriptor("rainLifetime", "Lifetime Rain", "ambw_mqtt_lifetime_rain", Some("precipitation"), "in", "total_increasing"));
    r.push(descriptor("solarRadiation", "Solar Radiation", "ambw_mqtt_solar_rad", Some("irradiance"), "W/m\u{b2}", "measurement"));
    r.push(descriptor("UV", "UV Index", "ambw_mqtt_uv", None, "Index", "measurement"));
    proof {
        assert(crate::pipeline::samples_view(r@) =~= seq![
            desc("rainLifetime", "Lifetime Rain", "ambw_mqtt_lifetime_rain", Some("precipitation"), "in", "total_increasing"),
            desc("solarRadiation", "Solar Radiation", "ambw_mqtt_solar_rad", Some("irradiance"), "W/m\u{b2}", "measurement"),
            desc("UV", "UV Index", "ambw_mqtt_uv", None, "Index", "measurement"),
        ]);
    }
    r
}

/// Builds one run of descriptors.
#[verifier::rlimit(100)]
fn discovery_part_f() -> (r: Vec<Sample>)
    ensures
        crate::pipeline::samples_view(r@) == seq![
            desc("kitchenTemperature", "Kitchen Temperature", "ambw_mqtt_indoor_temp", Some("temperature"), "\u{b0}F", "measurement"),
            desc("kitchenHumidity", "Kitchen Humidity", "ambw_mqtt_indoor_hum", Some("humidity"), "%", "measurement"),
            desc("pressure", "Outside Pressure", "ambw_mqtt_abs_press", Some("atmospheric_pressure"), "hPa", "measurement"),
        ],
{
    proof {
        reveal_strlit("kitchenTemperature");
        reveal_strlit("kitchenHumidity");
        reveal_strlit("pressure");
    }
    let mut r: Vec<Sample> = Vec::new();
    r.push(descriptor("kitchenTemperature", "Kitchen Temperature", "ambw_mqtt_indoor_temp", Some("temperature"), "\u{b0}F", "measurement"));
    r.push(descriptor("kitchenHumidity", "Kitchen Humidity", "ambw_mqtt_indoor_hum", Some("humidity"), "%", "measurement"));
    r.push(descriptor("pressure", "Outside Pressure", "ambw_mqtt_abs_press", Some("atmospheric_pressure"), "hPa", "measurement"));
    proof {
        assert(crate::pipeline::samples_view(r@) =~= seq![
            desc("kitchenTemperature", "Kitchen Temperature", "ambw_mqtt_indoor_temp", Some("temperature"), "\u{b0}F", "measurement"),
            desc("kitchenHumidity", "Kitchen Humidity", "ambw_mqtt_indoor_hum", Some("humidity"), "%", "measurement"),
            desc("pressure", "Outside Pressure", "ambw_mqtt_abs_press", Some("atmospheric_pressure"), "hPa", "measurement"),
        ]);
    }
    r
}

/// Builds one run of descriptors.
#[verifier::rlimit(100)]
fn discovery_part_g() -> (r: Vec<Sample>)
    ensures
        crate::pipeline::samples_view(r@) == seq![
            desc("relativePressure", "Outside Relative Pressure", "ambw_mqtt_rel_press", Some("atmospheric_pressure"), "hPa", "measurement"),
        ],
{
    proof {
        reveal_strlit("relativePressure");
    }
    let mut r: Vec<Sample> = Vec::new();
    r.push(descriptor("relativePressure", "Outside Relative Pressure", "ambw_mqtt_rel_press", Some("atmospheric_pressure"), "hPa", "measurement"));
    proof {
        assert(crate::pipeline::samples_view(r@) =~= seq![
            desc("relativePressure", "Outside Relative Pressure", "ambw_mqtt_rel_press", Some("atmospheric_pressure"), "hPa", "measurement"),
        ]);
    }
    r
}

/// Builds every startup descriptor, in publish order.
#[verifier::rlimit(100)]
pub fn discovery_descriptors() -> (r: Vec<Sample>)
    ensures
        crate::pipeline::samples_view(r@) == spec_discovery(),
{
    let mut r = discovery_part_a();
    let ghost v_a = crate::pipeline::samples_view(r@);
    let mut p_b = discovery_part_b();
    let ghost v_b = crate::pipeline::samples_view(p_b@);
    r.append(&mut p_b);
    let mut p_c = discovery_part_c();
    let ghost v_c = crate::pipeline::samples_view(p_c@);
    r.append(&mut p_c);
    let mut p_d = discovery_part_d();
    let ghost v_d = crate::pipeline::samples_view(p_d@);
    r.append(&mut p_d);
    let mut p_e = discovery_part_e();
    let ghost v_e = crate::pipeline::samples_view(p_e@);
    r.append(&mut p_e);
    let mut p_f = discovery_part_f();
    let ghost v_f = crate::pipeline::samples_view(p_f@);
    r.append(&mut p_f);
    let mut p_g = discovery_part_g();
    let ghost v_g = crate::pipeline::samples_view(p_g@);
    r.append(&mut p_g);
    proof {
        assert(crate::pipeline::samples_view(r@) =~= v_a + v_b + v_c + v_d + v_e + v_f + v_g);
        assert(v_a + v_b + v_c + v_d + v_e + v_f + v_g =~= spec_discovery());
    }
    r
}

} // verus!
