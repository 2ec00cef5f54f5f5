//! Surface weather reports as the upstream service delivers them.

use vstd::prelude::*;
use vstd::string::*;

use crate::number::Float64;
use crate::text::{decimal, format_decimal, format_padded, zero_padded};

verus! {

/// One cloud layer of a report.
#[derive(Default, Debug, Clone, PartialEq, Eq)]
pub struct Cloud {
    pub cover: String,
    pub base: Option<i32>,
}

/// A field that arrives either as text or as a whole number.
#[derive(Debug, Clone, PartialEq, Eq)]
pub enum StringOrI32 {
    String(String),
    I32(i32),
}

/// A field that arrives either as text or as a number with a fraction.
#[derive(Debug, Clone, PartialEq, Eq)]
pub enum StringOrF64 {
    String(String),
    F64(Float64),
}

impl StringOrI32 {
    /// The one rendering of both forms: the text as it is, the number in decimal.
    pub open spec fn text(self) -> Seq<char> {
        match self {
            StringOrI32::String(s) => s@,
            StringOrI32::I32(i) => decimal(i as int),
        }
    }

    /// Renders the field, whichever form it arrived in.
    pub fn to_string(&self) -> (text: String)
        ensures
            text@ == self.text(),
    {
        match self {
            StringOrI32::String(s) => s.clone(),
            StringOrI32::I32(i) => format_decimal(*i),
        }
    }
}

/// One report. Instants are seconds since the Unix epoch.
#[derive(Debug, Clone, PartialEq)]
pub struct MetarDto {
    pub metar_id: i64,
    pub icao_id: String,
    pub receipt_time: String,
    pub obs_time: i64,
    pub report_time: String,
    pub temp: Option<Float64>,
    pub dewp: Option<Float64>,
    pub wdir: Option<StringOrI32>,
    pub wspd: Option<i32>,
    pub wgst: Option<i32>,
    pub visib: StringOrF64,
    pub altim: Float64,
    pub slp: Option<Float64>,
    pub qc_field: i32,
    pub wx_string: Option<String>,
    pub pres_tend: Option<Float64>,
    pub max_t: Option<Float64>,
    pub min_t: Option<Float64>,
    pub max_t24: Option<Float64>,
    pub min_t24: Option<Float64>,
    pub precip: Option<Float64>,
    pub pcp3hr: Option<Float64>,
    pub pcp6hr: Option<Float64>,
    pub pcp24hr: Option<Float64>,
    pub snow: Option<Float64>,
    pub vert_vis: Option<i32>,
    pub metar_type: String,
    pub raw_ob: String,
    pub most_recent: i32,
    pub lat: Float64,
    pub lon: Float64,
    pub elev: i32,
    pub prior: i32,
    pub name: String,
    pub clouds: Vec<Cloud>,
}

/// The wind group of a report: the direction (a number in three digits, or
/// the text as it arrived), the speed in two digits, `G` and the gust speed
/// where there is one, and `KT`. Empty where direction or speed is missing.
pub open spec fn wind_group(wdir: Option<StringOrI32>, wspd: Option<i32>, wgst: Option<i32>) -> Seq<
    char,
> {
    match (wdir, wspd) {
        (Some(dir), Some(speed)) => {
            let direction = match dir {
                StringOrI32::String(s) => s@,
                StringOrI32::I32(i) => zero_padded(i as int, 3),
            };
            let gusts = match wgst {
                Some(gust) => seq!['G'] + decimal(gust as int),
                None => Seq::empty(),
            };
            direction + zero_padded(speed as int, 2) + gusts + seq!['K', 'T']
        },
        _ => Seq::empty(),
    }
}

impl MetarDto {
    /// The wind group of the report.
    pub fn wind_string(&self) -> (text: String)
        ensures
            text@ == wind_group(self.wdir, self.wspd, self.wgst),
    {
        match (&self.wdir, self.wspd) {
            (Some(wind_dir), Some(wind_spd)) => {
                let mut text = match wind_dir {
                    StringOrI32::String(s) => s.clone(),
                    StringOrI32::I32(i) => format_padded(*i, 3),
                };
                let speed = format_padded(wind_spd, 2);
                text.append(speed.as_str());
                if let Some(gusts) = self.wgst {
                    proof {
                        reveal_strlit("G");
                    }
                    text.append("G");
                    let gust = format_decimal(gusts);
                    text.append(gust.as_str());
                }
                proof {
                    reveal_strlit("KT");
                }
                text.append("KT");
                assert(text@ =~= wind_group(self.wdir, self.wspd, self.wgst));
                text
            },
            _ => String::new(),
        }
    }
}

} // verus!
