use vstd::prelude::*;

use crate::text::{trim, trim_chars};

verus! {

/// The spellings that switch a flag on.
pub open spec fn flag_on(value: Seq<char>) -> bool {
    value == "1"@ || value == "true"@ || value == "TRUE"@ || value == "yes"@ || value == "YES"@
}

/// Whether a flag setting, if it is set, switches the flag on.
pub fn flag_value(value: Option<&str>) -> (on: bool)
    ensures
        on == (value matches Some(v) && flag_on(v@)),
{
    match value {
        Some(v) => {
            let s = v.to_owned();
            s == "1".to_owned() || s == "true".to_owned() || s == "TRUE".to_owned() || s
                == "yes".to_owned() || s == "YES".to_owned()
        },
        None => false,
    }
}

/// A text setting, trimmed; a setting that is blank once trimmed counts as
/// unset.
pub open spec fn spec_text_value(value: Option<Seq<char>>) -> Option<Seq<char>> {
    match value {
        Some(v) => if trim_chars(v).len() == 0 {
            None
        } else {
            Some(trim_chars(v))
        },
        None => None,
    }
}

pub fn text_value(value: Option<&str>) -> (r: Option<String>)
    ensures
        match r {
            Some(s) => value matches Some(v) && spec_text_value(Some(v@)) == Some(s@),
            None => value matches Some(v) ==> spec_text_value(Some(v@)) is None,
        },
{
    match value {
        Some(v) => {
            let t = trim(v);
            if t.unicode_len() == 0 {
                None
            } else {
                Some(t.to_owned())
            }
        },
        None => None,
    }
}

/// How the server's metrics and traces are set up.
pub struct MetricsEnv {
    pub metrics_debug: bool,
    pub flame_enabled: bool,
    pub tps_output: Option<String>,
    pub flame_output: Option<String>,
    pub packet_debug: bool,
}

impl MetricsEnv {
    /// The setup that the raw settings ask for: flags switched on by their
    /// spellings of yes, outputs by non-blank paths, and flame graphs by the
    /// `flame` metrics mode or a flame output path.
    pub fn from_values(
        metrics_debug: Option<&str>,
        tps_output: Option<&str>,
        flame_output: Option<&str>,
        packet_debug: Option<&str>,
        metrics_mode: Option<&str>,
    ) -> (env: Self)
        ensures
            env.metrics_debug == (metrics_debug matches Some(v) && flag_on(v@)),
            env.packet_debug == (packet_debug matches Some(v) && flag_on(v@)),
            match env.tps_output {
                Some(s) => tps_output matches Some(v) && spec_text_value(Some(v@)) == Some(s@),
                None => tps_output matches Some(v) ==> spec_text_value(Some(v@)) is None,
            },
            match env.flame_output {
                Some(s) => flame_output matches Some(v) && spec_text_value(Some(v@)) == Some(s@),
                None => flame_output matches Some(v) ==> spec_text_value(Some(v@)) is None,
            },
            env.flame_enabled == ((metrics_mode matches Some(m) && m@ == "flame"@)
                || env.flame_output is Some),
    {
        let flame_output = text_value(flame_output);
        let flame_mode = match metrics_mode {
            Some(m) => m.to_owned() == "flame".to_owned(),
            None => false,
        };
        let flame_enabled = flame_mode || flame_output.is_some();
        MetricsEnv {
            metrics_debug: flag_value(metrics_debug),
            flame_enabled,
            tps_output: text_value(tps_output),
            flame_output,
            packet_debug: flag_value(packet_debug),
        }
    }

    /// Metrics are collected when debugging them or drawing flame graphs.
    pub fn enabled(&self) -> (on: bool)
        ensures
            on == (self.metrics_debug || self.flame_enabled),
    {
        self.metrics_debug || self.flame_enabled
    }
}

} // verus!
