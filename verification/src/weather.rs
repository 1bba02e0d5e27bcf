//! Weather summaries from the one-line wttr.in format: the request URL, the
//! parsing of the reply into a `Weather` snapshot, and the condition glyph.

use vstd::prelude::*;
use crate::text::{
    contains, has_sub, lowercase, push_char, same_text, split_ranges, split_spec, string_from,
    to_chars, to_lowercase, trim, trim_bounds, trim_spec,
};
use vstd::utf8::encode_utf8;

verus! {

/// A parsed weather snapshot.
#[derive(Clone)]
pub struct Weather {
    /// Nerd Font weather glyph.
    pub icon: String,
    /// Temperature as reported, e.g. "+72°F".
    pub temp: String,
    /// Condition text, e.g. "Partly cloudy".
    pub cond: String,
    /// Multi-line detail for the tooltip.
    pub report: String,
    /// Whether this snapshot holds data.
    pub ok: bool,
}

impl Weather {
    /// The snapshot shown when nothing could be fetched.
    pub open spec fn is_empty_snapshot(self) -> bool {
        &&& self.icon@ == Seq::<char>::empty()
        &&& self.temp@ == Seq::<char>::empty()
        &&& self.cond@ == Seq::<char>::empty()
        &&& self.report@ == Seq::<char>::empty()
        &&& !self.ok
    }
}

impl Default for Weather {
    fn default() -> (r: Self)
        ensures
            r.is_empty_snapshot(),
    {
        Weather {
            icon: String::new(),
            temp: String::new(),
            cond: String::new(),
            report: String::new(),
            ok: false,
        }
    }
}

/// The glyph for a condition text that is already lowercase.
pub open spec fn glyph_spec(c: Seq<char>) -> Seq<char> {
    if has_sub(c, "thunder"@) || has_sub(c, "storm"@) {
        "\u{e31d}"@
    } else if has_sub(c, "snow"@) || has_sub(c, "sleet"@) || has_sub(c, "blizzard"@) || has_sub(
        c,
        "ice"@,
    ) {
        "\u{e31a}"@
    } else if has_sub(c, "rain"@) || has_sub(c, "drizzle"@) || has_sub(c, "shower"@) {
        "\u{e318}"@
    } else if has_sub(c, "fog"@) || has_sub(c, "mist"@) || has_sub(c, "haze"@) {
        "\u{e313}"@
    } else if has_sub(c, "overcast"@) || has_sub(c, "cloud"@) {
        "\u{e312}"@
    } else if has_sub(c, "clear"@) || has_sub(c, "sunny"@) || has_sub(c, "sun"@) {
        "\u{e30d}"@
    } else {
        "\u{e371}"@
    }
}

/// The glyph for a lowercase condition text; the first matching keyword group
/// wins, and an unknown condition gets the generic glyph.
pub fn glyph_for_lowercase(c: &str) -> (g: &'static str)
    ensures
        g@ == glyph_spec(c@),
{
    let v = to_chars(c);
    if contains(&v, "thunder") || contains(&v, "storm") {
        "\u{e31d}"
    } else if contains(&v, "snow") || contains(&v, "sleet") || contains(&v, "blizzard")
        || contains(&v, "ice") {
        "\u{e31a}"
    } else if contains(&v, "rain") || contains(&v, "drizzle") || contains(&v, "shower") {
        "\u{e318}"
    } else if contains(&v, "fog") || contains(&v, "mist") || contains(&v, "haze") {
        "\u{e313}"
    } else if contains(&v, "overcast") || contains(&v, "cloud") {
        "\u{e312}"
    } else if contains(&v, "clear") || contains(&v, "sunny") || contains(&v, "sun") {
        "\u{e30d}"
    } else {
        "\u{e371}"
    }
}

/// Map a wttr.in condition text to a Nerd Font weather glyph, ignoring case.
pub fn glyph_for(cond: &str) -> (g: &'static str)
    ensures
        g@ == glyph_spec(lowercase(cond@)),
{
    let c = to_lowercase(cond);
    glyph_for_lowercase(c.as_str())
}

/// `s` with every space replaced by `+`.
pub open spec fn plus_for_space(s: Seq<char>) -> Seq<char> {
    s.map_values(|c: char| if c == ' ' { '+' } else { c })
}

/// The unit parameter for a lowercase units setting: "f" asks for USCS,
/// "c" for metric, anything else leaves the choice to the service.
pub open spec fn unit_spec(lower_units: Seq<char>) -> Seq<char> {
    if lower_units == "f"@ {
        "&u"@
    } else if lower_units == "c"@ {
        "&m"@
    } else {
        ""@
    }
}

/// The request URL for a location and a lowercase units setting.
pub open spec fn url_spec(location: Seq<char>, lower_units: Seq<char>) -> Seq<char> {
    "https://wttr.in/"@ + plus_for_space(trim_spec(location)) + "?format=%C|%t|%l|%f|%h|%w"@
        + unit_spec(lower_units)
}

/// The unit parameter for a units setting that is already lowercase.
pub fn unit_param(lower_units: &str) -> (p: &'static str)
    ensures
        p@ == unit_spec(lower_units@),
{
    if same_text(lower_units, "f") {
        "&u"
    } else if same_text(lower_units, "c") {
        "&m"
    } else {
        ""
    }
}

/// The trimmed location with spaces turned into `+`.
fn location_param(location: &str) -> (r: String)
    ensures
        r@ == plus_for_space(trim_spec(location@)),
{
    let t = trim(location);
    let v = to_chars(t.as_str());
    let mut r = String::new();
    let mut i: usize = 0;
    while i < v.len()
        invariant
            v@ == trim_spec(location@),
            i <= v.len(),
            r@ == plus_for_space(v@.take(i as int)),
        decreases v.len() - i,
    {
        let c = v[i];
        push_char(&mut r, if c == ' ' { '+' } else { c });
        assert(plus_for_space(v@.take(i + 1)) =~= plus_for_space(v@.take(i as int)).push(
            if c == ' ' { '+' } else { c },
        ));
        i = i + 1;
    }
    assert(v@.take(v.len() as int) == v@);
    r
}

/// The wttr.in URL for a location (empty: located by the service) and a units
/// setting ("auto", "c" or "f", in any case), asking for condition,
/// temperature, place, feels-like, humidity and wind.
pub fn weather_url(location: &str, units: &str) -> (url: String)
    ensures
        url@ == url_spec(location@, lowercase(units@)),
{
    let lower = to_lowercase(units);
    let unit = unit_param(lower.as_str());
    let mut url = String::from_str("https://wttr.in/");
    let loc = location_param(location);
    url.append(loc.as_str());
    url.append("?format=%C|%t|%l|%f|%h|%w");
    url.append(unit);
    url
}

/// A reply body, once trimmed, is one the service meant as data: not empty,
/// not HTML, and no longer than 200 bytes.
pub open spec fn body_ok(b: Seq<char>) -> bool {
    &&& b.len() > 0
    &&& !has_sub(b, "<"@)
    &&& encode_utf8(b).len() <= 200
}

/// Field `i` of the reply: the trimmed `i`-th `|`-separated piece, or empty.
pub open spec fn field_spec(b: Seq<char>, i: int) -> Seq<char> {
    let parts = split_spec(b, '|');
    if i < parts.len() {
        trim_spec(parts[i])
    } else {
        Seq::<char>::empty()
    }
}

/// The tooltip text built from the reply's fields.
pub open spec fn report_spec(
    cond: Seq<char>,
    temp: Seq<char>,
    place: Seq<char>,
    feels: Seq<char>,
    humidity: Seq<char>,
    wind: Seq<char>,
) -> Seq<char> {
    (if place.len() > 0 {
        place + "\n"@
    } else {
        Seq::<char>::empty()
    }) + cond + "  "@ + temp + (if feels.len() > 0 {
        "  (feels "@ + feels + ")"@
    } else {
        Seq::<char>::empty()
    }) + (if humidity.len() > 0 || wind.len() > 0 {
        "\n"@ + humidity + "  \u{b7}  "@ + wind
    } else {
        Seq::<char>::empty()
    })
}

/// Field `i` of a reply already split into ranges.
fn field(v: &Vec<char>, parts: &Vec<(usize, usize)>, i: usize) -> (f: String)
    requires
        parts.len() == split_spec(v@, '|').len(),
        forall|j: int| 0 <= j < parts.len() ==> #[trigger] parts@[j].0 <= parts@[j].1 <= v.len(),
        forall|j: int|
            0 <= j < parts.len() ==> v@.subrange(parts@[j].0 as int, parts@[j].1 as int)
                == #[trigger] split_spec(v@, '|')[j],
    ensures
        f@ == field_spec(v@, i as int),
{
    if i < parts.len() {
        let (lo, hi) = parts[i];
        assert(parts@[i as int].0 <= parts@[i as int].1 <= v.len());
        assert(v@.subrange(lo as int, hi as int) == split_spec(v@, '|')[i as int]);
        let (a, b) = trim_bounds(v, lo, hi);
        string_from(v, a, b)
    } else {
        String::new()
    }
}

/// Parse a one-line wttr.in reply of the form
/// `condition|temperature|place|feels-like|humidity|wind`. The reply is
/// refused (None) when, trimmed, it is empty, holds `<`, is over 200 bytes,
/// or has no temperature.
pub fn parse_weather(body: &str) -> (w: Option<Weather>)
    ensures
        ({
            let b = trim_spec(body@);
            &&& w is Some <==> body_ok(b) && field_spec(b, 1).len() > 0
            &&& w matches Some(w) ==> {
                &&& w.cond@ == field_spec(b, 0)
                &&& w.temp@ == field_spec(b, 1)
                &&& w.icon@ == glyph_spec(lowercase(field_spec(b, 0)))
                &&& w.report@ == report_spec(
                    field_spec(b, 0),
                    field_spec(b, 1),
                    field_spec(b, 2),
                    field_spec(b, 3),
                    field_spec(b, 4),
                    field_spec(b, 5),
                )
                &&& w.ok
            }
        }),
{
    let t = trim(body);
    let v = to_chars(t.as_str());
    if v.len() == 0 || contains(&v, "<") || t.as_str().as_bytes().len() > 200 {
        return None;
    }
    let parts = split_ranges(&v, '|');
    let cond = field(&v, &parts, 0);
    let temp = field(&v, &parts, 1);
    let place = field(&v, &parts, 2);
    let feels = field(&v, &parts, 3);
    let humidity = field(&v, &parts, 4);
    let wind = field(&v, &parts, 5);
    if temp.as_str().is_empty() {
        return None;
    }
    let mut report = String::new();
    if !place.as_str().is_empty() {
        report.append(place.as_str());
        report.append("\n");
    }
    report.append(cond.as_str());
    report.append("  ");
    report.append(temp.as_str());
    if !feels.as_str().is_empty() {
        report.append("  (feels ");
        report.append(feels.as_str());
        report.append(")");
    }
    if !humidity.as_str().is_empty() || !wind.as_str().is_empty() {
        report.append("\n");
        report.append(humidity.as_str());
        report.append("  \u{b7}  ");
        report.append(wind.as_str());
    }
    let icon = glyph_for(cond.as_str());
    Some(Weather { icon: String::from_str(icon), temp, cond, report, ok: true })
}

/// The request URL never holds a space: spaces in the location become `+`.
pub proof fn law_url_has_no_space(location: Seq<char>, lower_units: Seq<char>)
    ensures
        !url_spec(location, lower_units).contains(' '),
{
    reveal_strlit("https://wttr.in/");
    reveal_strlit("?format=%C|%t|%l|%f|%h|%w");
    reveal_strlit("&u");
    reveal_strlit("&m");
    reveal_strlit("");
    let a = "https://wttr.in/"@;
    let b = plus_for_space(trim_spec(location));
    let c = "?format=%C|%t|%l|%f|%h|%w"@;
    let d = unit_spec(lower_units);
    let u = a + b + c + d;
    assert forall|i: int| 0 <= i < u.len() implies u[i] != ' ' by {
        if i < a.len() {
        } else if i < a.len() + b.len() {
            assert(u[i] == b[i - a.len()]);
        } else if i < a.len() + b.len() + c.len() {
            assert(u[i] == c[i - a.len() - b.len()]);
        } else {
            assert(u[i] == d[i - a.len() - b.len() - c.len()]);
        }
    }
    assert(url_spec(location, lower_units) == u);
}

/// No thunder or storm keyword in `c`.
pub open spec fn calm(c: Seq<char>) -> bool {
    !has_sub(c, "thunder"@) && !has_sub(c, "storm"@)
}

/// No snow, sleet, blizzard or ice keyword in `c`.
pub open spec fn no_frost(c: Seq<char>) -> bool {
    !has_sub(c, "snow"@) && !has_sub(c, "sleet"@) && !has_sub(c, "blizzard"@) && !has_sub(c, "ice"@)
}

/// No rain, drizzle or shower keyword in `c`.
pub open spec fn dry(c: Seq<char>) -> bool {
    !has_sub(c, "rain"@) && !has_sub(c, "drizzle"@) && !has_sub(c, "shower"@)
}

/// No fog, mist or haze keyword in `c`.
pub open spec fn clear_air(c: Seq<char>) -> bool {
    !has_sub(c, "fog"@) && !has_sub(c, "mist"@) && !has_sub(c, "haze"@)
}

/// No overcast or cloud keyword in `c`.
pub open spec fn cloudless(c: Seq<char>) -> bool {
    !has_sub(c, "overcast"@) && !has_sub(c, "cloud"@)
}

/// Each keyword picks its glyph unless a keyword of an earlier group (storm,
/// frost, rain, fog, cloud, sun, in that order) occurs too; a lowercase
/// condition with none of the keywords gets the generic glyph.
pub proof fn law_glyph_keywords(c: Seq<char>)
    ensures
        has_sub(c, "thunder"@) ==> glyph_spec(c) == "\u{e31d}"@,
        has_sub(c, "storm"@) ==> glyph_spec(c) == "\u{e31d}"@,
        calm(c) && has_sub(c, "snow"@) ==> glyph_spec(c) == "\u{e31a}"@,
        calm(c) && has_sub(c, "sleet"@) ==> glyph_spec(c) == "\u{e31a}"@,
        calm(c) && has_sub(c, "blizzard"@) ==> glyph_spec(c) == "\u{e31a}"@,
        calm(c) && has_sub(c, "ice"@) ==> glyph_spec(c) == "\u{e31a}"@,
        calm(c) && no_frost(c) && has_sub(c, "rain"@) ==> glyph_spec(c) == "\u{e318}"@,
        calm(c) && no_frost(c) && has_sub(c, "drizzle"@) ==> glyph_spec(c) == "\u{e318}"@,
        calm(c) && no_frost(c) && has_sub(c, "shower"@) ==> glyph_spec(c) == "\u{e318}"@,
        calm(c) && no_frost(c) && dry(c) && has_sub(c, "fog"@) ==> glyph_spec(c) == "\u{e313}"@,
        calm(c) && no_frost(c) && dry(c) && has_sub(c, "mist"@) ==> glyph_spec(c) == "\u{e313}"@,
        calm(c) && no_frost(c) && dry(c) && has_sub(c, "haze"@) ==> glyph_spec(c) == "\u{e313}"@,
        calm(c) && no_frost(c) && dry(c) && clear_air(c) && has_sub(c, "overcast"@) ==> glyph_spec(c)
            == "\u{e312}"@,
        calm(c) && no_frost(c) && dry(c) && clear_air(c) && has_sub(c, "cloud"@) ==> glyph_spec(c)
            == "\u{e312}"@,
        calm(c) && no_frost(c) && dry(c) && clear_air(c) && cloudless(c) && has_sub(c, "clear"@)
            ==> glyph_spec(c) == "\u{e30d}"@,
        calm(c) && no_frost(c) && dry(c) && clear_air(c) && cloudless(c) && has_sub(c, "sunny"@)
            ==> glyph_spec(c) == "\u{e30d}"@,
        calm(c) && no_frost(c) && dry(c) && clear_air(c) && cloudless(c) && has_sub(c, "sun"@)
            ==> glyph_spec(c) == "\u{e30d}"@,
        calm(c) && no_frost(c) && dry(c) && clear_air(c) && cloudless(c) && !has_sub(c, "clear"@)
            && !has_sub(c, "sunny"@) && !has_sub(c, "sun"@) ==> glyph_spec(c) == "\u{e371}"@,
{
}

} // verus!
