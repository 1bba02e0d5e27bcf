//! Panel selection: which meter a panel configuration asks for, its clock
//! formats, and the battery charging arrow.

use vstd::prelude::*;
use crate::text::same_text;

verus! {

/// The kinds of panel the bar can build.
pub enum PanelKind {
    Header,
    Clock,
    Cpu,
    Mem,
    Temp,
    Gpu,
    Disk,
    Net,
    Battery,
    Volume,
    Brightness,
}

/// The panel kind a configured type name asks for; unknown names ask for none.
pub open spec fn panel_kind_spec(kind: Seq<char>) -> Option<PanelKind> {
    if kind == "header"@ {
        Some(PanelKind::Header)
    } else if kind == "clock"@ {
        Some(PanelKind::Clock)
    } else if kind == "cpu"@ {
        Some(PanelKind::Cpu)
    } else if kind == "mem"@ {
        Some(PanelKind::Mem)
    } else if kind == "temp"@ {
        Some(PanelKind::Temp)
    } else if kind == "gpu"@ {
        Some(PanelKind::Gpu)
    } else if kind == "disk"@ {
        Some(PanelKind::Disk)
    } else if kind == "net"@ {
        Some(PanelKind::Net)
    } else if kind == "bat"@ || kind == "battery"@ {
        Some(PanelKind::Battery)
    } else if kind == "vol"@ || kind == "volume"@ {
        Some(PanelKind::Volume)
    } else if kind == "bri"@ || kind == "brightness"@ {
        Some(PanelKind::Brightness)
    } else {
        None
    }
}

/// The panel kind for a configured type name, or none for an unknown one.
pub fn panel_kind(kind: &str) -> (r: Option<PanelKind>)
    ensures
        r == panel_kind_spec(kind@),
{
    if same_text(kind, "header") {
        Some(PanelKind::Header)
    } else if same_text(kind, "clock") {
        Some(PanelKind::Clock)
    } else if same_text(kind, "cpu") {
        Some(PanelKind::Cpu)
    } else if same_text(kind, "mem") {
        Some(PanelKind::Mem)
    } else if same_text(kind, "temp") {
        Some(PanelKind::Temp)
    } else if same_text(kind, "gpu") {
        Some(PanelKind::Gpu)
    } else if same_text(kind, "disk") {
        Some(PanelKind::Disk)
    } else if same_text(kind, "net") {
        Some(PanelKind::Net)
    } else if same_text(kind, "bat") || same_text(kind, "battery") {
        Some(PanelKind::Battery)
    } else if same_text(kind, "vol") || same_text(kind, "volume") {
        Some(PanelKind::Volume)
    } else if same_text(kind, "bri") || same_text(kind, "brightness") {
        Some(PanelKind::Brightness)
    } else {
        None
    }
}

/// The default time format: 12-hour clock with AM/PM.
pub open spec fn default_time_format() -> Seq<char> {
    "%I:%M %p"@
}

/// The default date format: weekday, day, month.
pub open spec fn default_date_format() -> Seq<char> {
    "%a %d %b"@
}

/// The time and date formats of a clock or header panel: the configured
/// ones, or the defaults where none is configured.
pub fn clock_formats(time_format: &Option<String>, date_format: &Option<String>) -> (r: (
    String,
    String,
))
    ensures
        r.0@ == match time_format {
            Some(t) => t@,
            None => default_time_format(),
        },
        r.1@ == match date_format {
            Some(d) => d@,
            None => default_date_format(),
        },
{
    let t = match time_format {
        Some(t) => t.clone(),
        None => String::from_str("%I:%M %p"),
    };
    let d = match date_format {
        Some(d) => d.clone(),
        None => String::from_str("%a %d %b"),
    };
    (t, d)
}

/// The arrow shown after the battery level: up while charging, down while
/// discharging, nothing otherwise.
pub open spec fn battery_arrow_spec(status: Seq<char>) -> Seq<char> {
    if status == "Charging"@ {
        " \u{2191}"@
    } else if status == "Discharging"@ {
        " \u{2193}"@
    } else {
        ""@
    }
}

/// The arrow shown after the battery level for a power-supply status.
pub fn battery_arrow(status: &str) -> (a: &'static str)
    ensures
        a@ == battery_arrow_spec(status@),
{
    if same_text(status, "Charging") {
        " \u{2191}"
    } else if same_text(status, "Discharging") {
        " \u{2193}"
    } else {
        ""
    }
}

/// The up arrow is shown exactly for "Charging", the down arrow exactly for
/// "Discharging", and every other status shows no arrow.
pub proof fn law_battery_arrow(status: Seq<char>)
    ensures
        battery_arrow_spec(status) == " \u{2191}"@ <==> status == "Charging"@,
        battery_arrow_spec(status) == " \u{2193}"@ <==> status == "Discharging"@,
        status != "Charging"@ && status != "Discharging"@ ==> battery_arrow_spec(status) == ""@,
{
    reveal_strlit(" \u{2191}");
    reveal_strlit(" \u{2193}");
    reveal_strlit("");
    reveal_strlit("Charging");
    reveal_strlit("Discharging");
    assert(" \u{2191}"@ != " \u{2193}"@) by {
        assert(" \u{2191}"@[1] != " \u{2193}"@[1]);
    }
    assert(""@.len() != " \u{2191}"@.len() && ""@.len() != " \u{2193}"@.len());
    assert("Charging"@ != "Discharging"@) by {
        assert("Charging"@.len() != "Discharging"@.len());
    }
}

} // verus!
