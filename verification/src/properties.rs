//! The property bag of a catalog entry: the searchable timestamp, or an
//! explicit start and end pair, plus common descriptive metadata.

use vstd::prelude::*;
use crate::time::{parse_rfc3339, rfc3339_instant};

verus! {

/// Metadata of a catalog entry. The searchable timestamp may be absent only
/// when both the start and the end timestamp are set. All timestamps are
/// RFC 3339 strings in UTC. The ground sample distance is a fixed-point
/// number in millionths.
#[derive(Debug, Clone, PartialEq, Eq)]
pub struct Properties {
    /// The searchable date and time of the assets.
    pub datetime: Option<String>,
    /// The start of the assets' time span.
    pub start_datetime: Option<String>,
    /// The end of the assets' time span.
    pub end_datetime: Option<String>,
    /// The title of the entry.
    pub title: Option<String>,
    /// The description of the entry.
    pub description: Option<String>,
    /// The license of the entry.
    pub license: Option<String>,
    /// The providers of the entry.
    pub providers: Option<Vec<String>>,
    /// The platform that carried the instruments.
    pub platform: Option<String>,
    /// The instruments that captured the data.
    pub instruments: Option<Vec<String>>,
    /// The constellation the platform belongs to.
    pub constellation: Option<String>,
    /// The mission the data belongs to.
    pub mission: Option<String>,
    /// The grouping the entry belongs to.
    pub collection: Option<String>,
    /// Ground sample distance, in millionths of a meter.
    pub gsd: Option<i64>,
}

impl Properties {
    /// Properties with the given searchable timestamp and nothing else set.
    pub fn new(datetime: Option<String>) -> (r: Properties)
        ensures
            r.datetime == datetime,
            r.start_datetime is None,
            r.end_datetime is None,
            r.title is None,
            r.description is None,
            r.license is None,
            r.providers is None,
            r.platform is None,
            r.instruments is None,
            r.constellation is None,
            r.mission is None,
            r.collection is None,
            r.gsd is None,
    {
        Properties {
            datetime,
            start_datetime: None,
            end_datetime: None,
            title: None,
            description: None,
            license: None,
            providers: None,
            platform: None,
            instruments: None,
            constellation: None,
            mission: None,
            collection: None,
            gsd: None,
        }
    }

    /// Properties with the given searchable timestamp.
    pub fn with_datetime_str(datetime: String) -> (r: Properties)
        ensures
            r.datetime == Some(datetime),
            r.start_datetime is None,
            r.end_datetime is None,
            r.title is None,
            r.description is None,
            r.license is None,
            r.providers is None,
            r.platform is None,
            r.instruments is None,
            r.constellation is None,
            r.mission is None,
            r.collection is None,
            r.gsd is None,
    {
        Properties::new(Some(datetime))
    }

    /// Properties spanning the given start and end timestamps, with no
    /// searchable timestamp.
    pub fn with_datetime_range(start: String, end: String) -> (r: Properties)
        ensures
            r.datetime is None,
            r.start_datetime == Some(start),
            r.end_datetime == Some(end),
            r.title is None,
            r.description is None,
            r.license is None,
            r.providers is None,
            r.platform is None,
            r.instruments is None,
            r.constellation is None,
            r.mission is None,
            r.collection is None,
            r.gsd is None,
    {
        let mut p = Properties::new(None);
        p.start_datetime = Some(start);
        p.end_datetime = Some(end);
        p
    }

    /// These properties with the title set.
    pub fn with_title(self, title: String) -> (r: Properties)
        ensures
            r == (Properties { title: Some(title), ..self }),
    {
        Properties { title: Some(title), ..self }
    }

    /// These properties with the description set.
    pub fn with_description(self, description: String) -> (r: Properties)
        ensures
            r == (Properties { description: Some(description), ..self }),
    {
        Properties { description: Some(description), ..self }
    }

    /// These properties with the license set.
    pub fn with_license(self, license: String) -> (r: Properties)
        ensures
            r == (Properties { license: Some(license), ..self }),
    {
        Properties { license: Some(license), ..self }
    }

    /// These properties with the providers set.
    pub fn with_providers(self, providers: Vec<String>) -> (r: Properties)
        ensures
            r == (Properties { providers: Some(providers), ..self }),
    {
        Properties { providers: Some(providers), ..self }
    }

    /// These properties with the platform set.
    pub fn with_platform(self, platform: String) -> (r: Properties)
        ensures
            r == (Properties { platform: Some(platform), ..self }),
    {
        Properties { platform: Some(platform), ..self }
    }

    /// These properties with the instruments set.
    pub fn with_instruments(self, instruments: Vec<String>) -> (r: Properties)
        ensures
            r == (Properties { instruments: Some(instruments), ..self }),
    {
        Properties { instruments: Some(instruments), ..self }
    }

    /// These properties with the constellation set.
    pub fn with_constellation(self, constellation: String) -> (r: Properties)
        ensures
            r == (Properties { constellation: Some(constellation), ..self }),
    {
        Properties { constellation: Some(constellation), ..self }
    }

    /// These properties with the mission set.
    pub fn with_mission(self, mission: String) -> (r: Properties)
        ensures
            r == (Properties { mission: Some(mission), ..self }),
    {
        Properties { mission: Some(mission), ..self }
    }

    /// These properties with the grouping set.
    pub fn with_collection(self, collection: String) -> (r: Properties)
        ensures
            r == (Properties { collection: Some(collection), ..self }),
    {
        Properties { collection: Some(collection), ..self }
    }

    /// These properties with the ground sample distance set.
    pub fn with_gsd(self, gsd: i64) -> (r: Properties)
        ensures
            r == (Properties { gsd: Some(gsd), ..self }),
    {
        Properties { gsd: Some(gsd), ..self }
    }

    /// Whether the properties are valid: a missing searchable timestamp
    /// needs both the start and the end timestamp; a present one must read
    /// as an RFC 3339 date-and-time.
    pub fn is_valid(&self) -> (r: bool)
        ensures
            r == (if self.datetime is None {
                self.start_datetime is Some && self.end_datetime is Some
            } else {
                rfc3339_instant(self.datetime->Some_0@) is Some
            }),
    {
        match &self.datetime {
            None => self.start_datetime.is_some() && self.end_datetime.is_some(),
            Some(dt) => parse_rfc3339(dt.as_str()).is_some(),
        }
    }

    /// Whether every timestamp that is present reads as an RFC 3339
    /// date-and-time.
    pub fn has_valid_datetimes(&self) -> (r: bool)
        ensures
            r == ((self.datetime is Some ==> rfc3339_instant(self.datetime->Some_0@) is Some) && (
            self.start_datetime is Some ==> rfc3339_instant(self.start_datetime->Some_0@) is Some)
                && (self.end_datetime is Some ==> rfc3339_instant(
                self.end_datetime->Some_0@,
            ) is Some)),
    {
        let mut valid = true;
        if let Some(dt) = &self.datetime {
            valid = valid && parse_rfc3339(dt.as_str()).is_some();
        }
        if let Some(dt) = &self.start_datetime {
            valid = valid && parse_rfc3339(dt.as_str()).is_some();
        }
        if let Some(dt) = &self.end_datetime {
            valid = valid && parse_rfc3339(dt.as_str()).is_some();
        }
        valid
    }

    /// The searchable timestamp as an instant, when present and readable.
    pub fn datetime_as_instant(&self) -> (r: Option<(i64, u32)>)
        ensures
            r == (if self.datetime is Some {
                rfc3339_instant(self.datetime->Some_0@)
            } else {
                Option::<(i64, u32)>::None
            }),
    {
        match &self.datetime {
            Some(dt) => parse_rfc3339(dt.as_str()),
            None => None,
        }
    }

    /// The start timestamp as an instant, when present and readable.
    pub fn start_datetime_as_instant(&self) -> (r: Option<(i64, u32)>)
        ensures
            r == (if self.start_datetime is Some {
                rfc3339_instant(self.start_datetime->Some_0@)
            } else {
                Option::<(i64, u32)>::None
            }),
    {
        match &self.start_datetime {
            Some(dt) => parse_rfc3339(dt.as_str()),
            None => None,
        }
    }

    /// The end timestamp as an instant, when present and readable.
    pub fn end_datetime_as_instant(&self) -> (r: Option<(i64, u32)>)
        ensures
            r == (if self.end_datetime is Some {
                rfc3339_instant(self.end_datetime->Some_0@)
            } else {
                Option::<(i64, u32)>::None
            }),
    {
        match &self.end_datetime {
            Some(dt) => parse_rfc3339(dt.as_str()),
            None => None,
        }
    }
}

} // verus!
