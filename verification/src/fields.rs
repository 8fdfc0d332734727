//! The static field table: one entry per station field, driving a single
//! generic parse/format/publish pass in the pipeline.

use vstd::prelude::*;

use crate::bytes::{ascii_bytes, lit};

verus! {

/// How a raw field value is parsed and formatted.
#[derive(Clone, Copy, PartialEq, Eq, Structural, Debug)]
pub enum ValueKind {
    /// A signed whole number, published as its canonical decimal string.
    Integer,
    /// A decimal number, published with exactly this many fractional digits.
    Decimal(u32),
    /// A decimal pressure in inches of mercury, published in hectopascals
    /// (times 33.86) with one fractional digit.
    PressureInHg,
}

/// One station field: the query key it is read from, the topic suffix it is
/// published under, and how its value is handled.
pub struct FieldSpec {
    pub source_key: Vec<u8>,
    pub topic_suffix: Vec<u8>,
    pub kind: ValueKind,
}

/// The mathematical model of a field entry: key bytes, suffix bytes, kind.
pub open spec fn table_model(t: Seq<FieldSpec>) -> Seq<(Seq<u8>, Seq<u8>, ValueKind)> {
    t.map_values(|f: FieldSpec| (f.source_key@, f.topic_suffix@, f.kind))
}

/// The full field table, in publish order.
pub open spec fn spec_field_table() -> Seq<(Seq<u8>, Seq<u8>, ValueKind)> {
    seq![
        (ascii_bytes("tempf"@), ascii_bytes("temperature"@), ValueKind::Decimal(1)),
        (ascii_bytes("humidity"@), ascii_bytes("humidity"@), ValueKind::Integer),
        (ascii_bytes("dewptf"@), ascii_bytes("dewPoint"@), ValueKind::Decimal(1)),
        (ascii_bytes("windchillf"@), ascii_bytes("windChill"@), ValueKind::Decimal(1)),
        (ascii_bytes("winddir"@), ascii_bytes("windDir"@), ValueKind::Integer),
        (ascii_bytes("windspeedmph"@), ascii_bytes("windSpeed"@), ValueKind::Decimal(2)),
        (ascii_bytes("windgustmph"@), ascii_bytes("windGust"@), ValueKind::Decimal(2)),
        (ascii_bytes("rainin"@), ascii_bytes("rainHourly"@), ValueKind::Decimal(3)),
        (ascii_bytes("dailyrainin"@), ascii_bytes("rainDaily"@), ValueKind::Decimal(3)),
        (ascii_bytes("weeklyrainin"@), ascii_bytes("rainWeekly"@), ValueKind::Decimal(3)),
        (ascii_bytes("monthlyrainin"@), ascii_bytes("rainMonthly"@), ValueKind::Decimal(3)),
        (ascii_bytes("totalrainin"@), ascii_bytes("rainLifetime"@), ValueKind::Decimal(3)),
        (ascii_bytes("solarradiation"@), ascii_bytes("solarRadiation"@), ValueKind::Decimal(1)),
        (ascii_bytes("UV"@), ascii_bytes("UV"@), ValueKind::Integer),
        (ascii_bytes("indoortempf"@), ascii_bytes("kitchenTemperature"@), ValueKind::Decimal(1)),
        (ascii_bytes("indoorhumidity"@), ascii_bytes("kitchenHumidity"@), ValueKind::Integer),
        (ascii_bytes("absbaromin"@), ascii_bytes("pressure"@), ValueKind::PressureInHg),
        (ascii_bytes("baromin"@), ascii_bytes("relativePressure"@), ValueKind::PressureInHg),
    ]
}

/// A kind the formatter accepts: decimal precision between one and three.
pub open spec fn kind_wf(k: ValueKind) -> bool {
    match k {
        ValueKind::Decimal(p) => 1 <= p <= 3,
        _ => true,
    }
}

/// Every decimal entry of the table asks for one to three fractional digits.
pub proof fn lemma_field_table_wf()
    ensures
        forall|i: int|
            0 <= i < spec_field_table().len() ==> kind_wf(#[trigger] spec_field_table()[i].2),
{
}

/// Builds the field table.
pub fn field_table() -> (t: Vec<FieldSpec>)
    ensures
        table_model(t@) == spec_field_table(),
{
    proof {
        reveal_strlit("tempf");
        reveal_strlit("temperature");
        reveal_strlit("humidity");
        reveal_strlit("dewptf");
        reveal_strlit("dewPoint");
        reveal_strlit("windchillf");
        reveal_strlit("windChill");
        reveal_strlit("winddir");
        reveal_strlit("windDir");
        reveal_strlit("windspeedmph");
        reveal_strlit("windSpeed");
        reveal_strlit("windgustmph");
        reveal_strlit("windGust");
        reveal_strlit("rainin");
        reveal_strlit("rainHourly");
        reveal_strlit("dailyrainin");
        reveal_strlit("rainDaily");
        reveal_strlit("weeklyrainin");
        reveal_strlit("rainWeekly");
        reveal_strlit("monthlyrainin");
        reveal_strlit("rainMonthly");
        reveal_strlit("totalrainin");
        reveal_strlit("rainLifetime");
        reveal_strlit("solarradiation");
        reveal_strlit("solarRadiation");
        reveal_strlit("UV");
        reveal_strlit("indoortempf");
        reveal_strlit("kitchenTemperature");
        reveal_strlit("indoorhumidity");
        reveal_strlit("kitchenHumidity");
        reveal_strlit("absbaromin");
        reveal_strlit("pressure");
        reveal_strlit("baromin");
        reveal_strlit("relativePressure");
    }
    let mut t: Vec<FieldSpec> = Vec::new();
    t.push(entry("tempf", "temperature", ValueKind::Decimal(1)));
    t.push(entry("humidity", "humidity", ValueKind::Integer));
    t.push(entry("dewptf", "dewPoint", ValueKind::Decimal(1)));
    t.push(entry("windchillf", "windChill", ValueKind::Decimal(1)));
    t.push(entry("winddir", "windDir", ValueKind::Integer));
    t.push(entry("windspeedmph", "windSpeed", ValueKind::Decimal(2)));
    t.push(entry("windgustmph", "windGust", ValueKind::Decimal(2)));
    t.push(entry("rainin", "rainHourly", ValueKind::Decimal(3)));
    t.push(entry("dailyrainin", "rainDaily", ValueKind::Decimal(3)));
    t.push(entry("weeklyrainin", "rainWeekly", ValueKind::Decimal(3)));
    t.push(entry("monthlyrainin", "rainMonthly", ValueKind::Decimal(3)));
    t.push(entry("totalrainin", "rainLifetime", ValueKind::Decimal(3)));
    t.push(entry("solarradiation", "solarRadiation", ValueKind::Decimal(1)));
    t.push(entry("UV", "UV", ValueKind::Integer));
    t.push(entry("indoortempf", "kitchenTemperature", ValueKind::Decimal(1)));
    t.push(entry("indoorhumidity", "kitchenHumidity", ValueKind::Integer));
    t.push(entry("absbaromin", "pressure", ValueKind::PressureInHg));
    t.push(entry("baromin", "relativePressure", ValueKind::PressureInHg));
    proof {
        assert(table_model(t@) =~~= spec_field_table());
    }
    t
}

/// Builds one table entry from its key and suffix literals.
fn entry(key: &str, suffix: &str, kind: ValueKind) -> (f: FieldSpec)
    requires
        vstd::string::is_ascii(key),
        vstd::string::is_ascii(suffix),
    ensures
        f.source_key@ == ascii_bytes(key@),
        f.topic_suffix@ == ascii_bytes(suffix@),
        f.kind == kind,
{
    FieldSpec { source_key: lit(key), topic_suffix: lit(suffix), kind }
}

} // verus!
