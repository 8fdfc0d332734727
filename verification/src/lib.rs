//! Weather-station telemetry pipeline: parses raw station readings delivered
//! as string key/value pairs, normalizes each measurement to a fixed decimal
//! precision, derives the apparent-temperature index, and formats every value
//! and its topic for republication to an automation hub.

pub mod bytes;
pub mod decimal;
pub mod discovery;
pub mod fields;
pub mod heat;
pub mod numfmt;
pub mod packet;
pub mod pipeline;
pub mod wholenum;
