//! Rendering of returned itineraries: parsing the fixed-offset timestamps
//! of the API (`YYYY-MM-DDTHH:MM:SS+HHMM`), and the texts the result view
//! shows for times, delays, platforms and legs. A missing or malformed
//! timestamp renders as the empty string, never as an error.

use vstd::prelude::*;

use crate::dates::{push_hm_text, days_in_month, hm_text, spec_days_in_month, Date};
use crate::digits::{dec_str, push_dec};
use crate::models::{Connection, Section};

verus! {

/// A decimal digit character.
pub open spec fn is_digit(c: char) -> bool {
    48 <= c as int <= 57
}

/// The value of a decimal digit character.
pub open spec fn digit_val(c: char) -> int {
    c as int - 48
}

/// The value of the two digits at `i`.
pub open spec fn two_digits_at(s: Seq<char>, i: int) -> int {
    digit_val(s[i]) * 10 + digit_val(s[i + 1])
}

/// The value of the four digits at `i`.
pub open spec fn four_digits_at(s: Seq<char>, i: int) -> int {
    digit_val(s[i]) * 1000 + digit_val(s[i + 1]) * 100 + digit_val(s[i + 2]) * 10 + digit_val(
        s[i + 3],
    )
}

/// The text has the shape `YYYY-MM-DDTHH:MM:SS+HHMM` (the sign may also be
/// `-`): the one fixed format the API uses for times.
pub open spec fn ts_shape(s: Seq<char>) -> bool {
    &&& s.len() == 24
    &&& is_digit(s[0]) && is_digit(s[1]) && is_digit(s[2]) && is_digit(s[3])
    &&& s[4] == '-'
    &&& is_digit(s[5]) && is_digit(s[6])
    &&& s[7] == '-'
    &&& is_digit(s[8]) && is_digit(s[9])
    &&& s[10] == 'T'
    &&& is_digit(s[11]) && is_digit(s[12])
    &&& s[13] == ':'
    &&& is_digit(s[14]) && is_digit(s[15])
    &&& s[16] == ':'
    &&& is_digit(s[17]) && is_digit(s[18])
    &&& (s[19] == '+' || s[19] == '-')
    &&& is_digit(s[20]) && is_digit(s[21]) && is_digit(s[22]) && is_digit(s[23])
}

pub open spec fn ts_year(s: Seq<char>) -> int {
    four_digits_at(s, 0)
}

pub open spec fn ts_month(s: Seq<char>) -> int {
    two_digits_at(s, 5)
}

pub open spec fn ts_day(s: Seq<char>) -> int {
    two_digits_at(s, 8)
}

pub open spec fn ts_hour(s: Seq<char>) -> int {
    two_digits_at(s, 11)
}

pub open spec fn ts_minute(s: Seq<char>) -> int {
    two_digits_at(s, 14)
}

pub open spec fn ts_second(s: Seq<char>) -> int {
    two_digits_at(s, 17)
}

pub open spec fn ts_offset_hour(s: Seq<char>) -> int {
    two_digits_at(s, 20)
}

pub open spec fn ts_offset_minute(s: Seq<char>) -> int {
    two_digits_at(s, 22)
}

/// A parseable timestamp: the right shape, and every field in range on the
/// calendar.
pub open spec fn ts_valid(s: Seq<char>) -> bool {
    &&& ts_shape(s)
    &&& 1 <= ts_month(s) <= 12
    &&& 1 <= ts_day(s) <= spec_days_in_month(ts_year(s), ts_month(s))
    &&& ts_hour(s) <= 23
    &&& ts_minute(s) <= 59
    &&& ts_second(s) <= 59
    &&& ts_offset_hour(s) <= 23
    &&& ts_offset_minute(s) <= 59
}

/// A parsed fixed-offset timestamp.
#[derive(Clone, Copy, PartialEq, Eq, Structural, Debug)]
pub struct Timestamp {
    pub date: Date,
    pub hour: u8,
    pub minute: u8,
    pub second: u8,
    pub offset_minus: bool,
    pub offset_hour: u8,
    pub offset_minute: u8,
}

impl Timestamp {
    /// The fields a valid text of the fixed format carries.
    pub open spec fn matches(self, s: Seq<char>) -> bool {
        &&& self.date.year == ts_year(s)
        &&& self.date.month == ts_month(s)
        &&& self.date.day == ts_day(s)
        &&& self.hour == ts_hour(s)
        &&& self.minute == ts_minute(s)
        &&& self.second == ts_second(s)
        &&& self.offset_minus == (s[19] == '-')
        &&& self.offset_hour == ts_offset_hour(s)
        &&& self.offset_minute == ts_offset_minute(s)
    }
}

/// The digit value of a character, if it is one.
fn parse_digit(c: char) -> (r: Option<u8>)
    ensures
        r is Some <==> is_digit(c),
        r is Some ==> r->Some_0 == digit_val(c) && r->Some_0 <= 9,
{
    let v = c as u32;
    if 48 <= v && v <= 57 {
        Some((v - 48) as u8)
    } else {
        None
    }
}

/// The value of the two digits starting at `i`, if both are digits.
fn parse_two(s: &str, i: usize) -> (r: Option<u8>)
    requires
        i + 2 <= s@.len(),
        i + 2 <= usize::MAX,
    ensures
        r is Some <==> is_digit(s@[i as int]) && is_digit(s@[i + 1]),
        r is Some ==> r->Some_0 == two_digits_at(s@, i as int) && r->Some_0 <= 99,
{
    let d1 = match parse_digit(s.get_char(i)) {
        Some(d) => d,
        None => {
            return None;
        },
    };
    let d0 = match parse_digit(s.get_char(i + 1)) {
        Some(d) => d,
        None => {
            return None;
        },
    };
    Some(d1 * 10 + d0)
}

/// The value of the four digits starting at `i`, if all four are digits.
fn parse_four(s: &str, i: usize) -> (r: Option<u16>)
    requires
        i + 4 <= s@.len(),
        i + 4 <= usize::MAX,
    ensures
        r is Some <==> is_digit(s@[i as int]) && is_digit(s@[i + 1]) && is_digit(s@[i + 2])
            && is_digit(s@[i + 3]),
        r is Some ==> r->Some_0 == four_digits_at(s@, i as int) && r->Some_0 <= 9999,
{
    let hi = match parse_two(s, i) {
        Some(d) => d,
        None => {
            return None;
        },
    };
    let lo = match parse_two(s, i + 2) {
        Some(d) => d,
        None => {
            return None;
        },
    };
    Some((hi as u16) * 100 + (lo as u16))
}

/// Parses a timestamp of the API's fixed format; `None` exactly on texts
/// that do not have it, or whose fields are out of calendar range.
pub fn parse_timestamp(s: &str) -> (r: Option<Timestamp>)
    ensures
        r is Some <==> ts_valid(s@),
        r is Some ==> r->Some_0.matches(s@) && r->Some_0.date.valid() && r->Some_0.hour <= 23
            && r->Some_0.minute <= 59,
{
    if s.unicode_len() != 24 {
        return None;
    }
    if s.get_char(4) != '-' || s.get_char(7) != '-' || s.get_char(10) != 'T' || s.get_char(13)
        != ':' || s.get_char(16) != ':' {
        return None;
    }
    let sign = s.get_char(19);
    if sign != '+' && sign != '-' {
        return None;
    }
    let year = match parse_four(s, 0) {
        Some(v) => v,
        None => {
            return None;
        },
    };
    let month = match parse_two(s, 5) {
        Some(v) => v,
        None => {
            return None;
        },
    };
    let day = match parse_two(s, 8) {
        Some(v) => v,
        None => {
            return None;
        },
    };
    let hour = match parse_two(s, 11) {
        Some(v) => v,
        None => {
            return None;
        },
    };
    let minute = match parse_two(s, 14) {
        Some(v) => v,
        None => {
            return None;
        },
    };
    let second = match parse_two(s, 17) {
        Some(v) => v,
        None => {
            return None;
        },
    };
    let offset_hour = match parse_two(s, 20) {
        Some(v) => v,
        None => {
            return None;
        },
    };
    let offset_minute = match parse_two(s, 22) {
        Some(v) => v,
        None => {
            return None;
        },
    };
    if month < 1 || month > 12 {
        return None;
    }
    if day < 1 || day > days_in_month(year, month) {
        return None;
    }
    if hour > 23 || minute > 59 || second > 59 {
        return None;
    }
    if offset_hour > 23 || offset_minute > 59 {
        return None;
    }
    Some(
        Timestamp {
            date: Date { year, month, day },
            hour,
            minute,
            second,
            offset_minus: sign == '-',
            offset_hour,
            offset_minute,
        },
    )
}

/// The view of an optional text.
pub open spec fn opt_view(o: Option<String>) -> Option<Seq<char>> {
    match o {
        Some(s) => Some(s@),
        None => None,
    }
}

/// How an optional timestamp text renders: `HH:MM` if it parses, empty
/// otherwise.
pub open spec fn time_render(o: Option<Seq<char>>) -> Seq<char> {
    match o {
        Some(s) => if ts_valid(s) {
            hm_text(ts_hour(s), ts_minute(s))
        } else {
            Seq::empty()
        },
        None => Seq::empty(),
    }
}

/// Renders an optional timestamp text as `HH:MM`, or empty when it is
/// missing or malformed.
pub fn format_time(input: &Option<String>) -> (r: String)
    ensures
        r@ == time_render(opt_view(*input)),
{
    match input {
        Some(s) => {
            match parse_timestamp(s.as_str()) {
                Some(t) => {
                    let mut out = String::new();
                    push_hm_text(&mut out, t.hour, t.minute);
                    out
                },
                None => String::new(),
            }
        },
        None => String::new(),
    }
}

/// How a time with its delay renders: the time, then the delay in a span
/// that is gray for no delay and red otherwise.
pub open spec fn time_with_delay_render(o: Option<Seq<char>>, delay: Option<u16>) -> Seq<char> {
    let d: int = match delay {
        Some(v) => v as int,
        None => 0,
    };
    match o {
        Some(s) => if ts_valid(s) {
            hm_text(ts_hour(s), ts_minute(s)) + " <span foreground=\""@ + (if d == 0 {
                "gray"@
            } else {
                "red"@
            }) + "\">+"@ + dec_str(d) + "</span>"@
        } else {
            Seq::empty()
        },
        None => Seq::empty(),
    }
}

/// Renders a stop's time and delay, or empty when the time is missing or
/// malformed.
pub fn format_time_with_delay(time: &Option<String>, delay: &Option<u16>) -> (r: String)
    ensures
        r@ == time_with_delay_render(opt_view(*time), *delay),
{
    let t = match time {
        Some(s) => match parse_timestamp(s.as_str()) {
            Some(t) => t,
            None => {
                return String::new();
            },
        },
        None => {
            return String::new();
        },
    };
    let d: u16 = match delay {
        Some(v) => *v,
        None => 0,
    };
    let mut out = String::new();
    push_hm_text(&mut out, t.hour, t.minute);
    out.append(" <span foreground=\"");
    if d == 0 {
        out.append("gray");
    } else {
        out.append("red");
    }
    out.append("\">+");
    push_dec(&mut out, d);
    out.append("</span>");
    proof {
        assert(out@ =~= time_with_delay_render(opt_view(*time), *delay));
    }
    out
}

/// How a platform renders: `Pl. -` when unknown, `Pl. <p>` normally, and a
/// red `Pl.` span, with the trailing `!` dropped, for a platform change.
pub open spec fn platform_render(p: Option<Seq<char>>) -> Seq<char> {
    match p {
        Some(s) => if s.len() > 0 && s.last() == '!' {
            "<span foreground=\"red\">Pl. "@ + s.drop_last() + "</span>"@
        } else {
            "Pl. "@ + s
        },
        None => "Pl. -"@,
    }
}

/// Renders a stop's platform label.
pub fn platform_text(platform: &Option<String>) -> (r: String)
    ensures
        r@ == platform_render(opt_view(*platform)),
{
    match platform {
        Some(p) => {
            let n = p.as_str().unicode_len();
            if n > 0 && p.as_str().get_char(n - 1) == '!' {
                let mut out = String::from_str("<span foreground=\"red\">Pl. ");
                out.append(p.as_str().substring_char(0, n - 1));
                out.append("</span>");
                proof {
                    assert(p@.subrange(0, p@.len() - 1) =~= p@.drop_last());
                    assert(out@ =~= platform_render(opt_view(*platform)));
                }
                out
            } else {
                let mut out = String::from_str("Pl. ");
                out.append(p.as_str());
                out
            }
        },
        None => String::from_str("Pl. -"),
    }
}

/// How a section's middle line renders: the journey's name in italics, or
/// the walk as whole minutes, or nothing.
pub open spec fn journey_render(s: Section) -> Seq<char> {
    match s.journey {
        Some(j) => "<i>"@ + j.name@ + "</i>"@,
        None => match s.walk {
            Some(w) => "<i>Walk "@ + dec_str(w.duration as int / 60) + " min</i>"@,
            None => Seq::empty(),
        },
    }
}

/// Renders a section's journey or walk line.
pub fn journey_text(section: &Section) -> (r: String)
    ensures
        r@ == journey_render(*section),
{
    match &section.journey {
        Some(j) => {
            let mut out = String::from_str("<i>");
            out.append(j.name.as_str());
            out.append("</i>");
            proof {
                assert(out@ =~= journey_render(*section));
            }
            out
        },
        None => match &section.walk {
            Some(w) => {
                let mut out = String::from_str("<i>Walk ");
                push_dec(&mut out, w.duration / 60);
                out.append(" min</i>");
                proof {
                    assert(out@ =~= journey_render(*section));
                }
                out
            },
            None => String::new(),
        },
    }
}

/// How a connection's header renders: departure time and station, arrival
/// time and station.
pub open spec fn connection_label_render(c: Connection) -> Seq<char> {
    "<big><b>"@ + time_render(opt_view(c.from.departure)) + " "@ + c.from.station.name@ + " - "@
        + time_render(opt_view(c.to.arrival)) + " "@ + c.to.station.name@ + "</b></big>"@
}

/// Renders a connection's header line.
pub fn connection_label_text(c: &Connection) -> (r: String)
    ensures
        r@ == connection_label_render(*c),
{
    let mut out = String::from_str("<big><b>");
    let from_time = format_time(&c.from.departure);
    out.append(from_time.as_str());
    out.append(" ");
    out.append(c.from.station.name.as_str());
    out.append(" - ");
    let to_time = format_time(&c.to.arrival);
    out.append(to_time.as_str());
    out.append(" ");
    out.append(c.to.station.name.as_str());
    out.append("</b></big>");
    proof {
        assert(out@ =~= connection_label_render(*c));
    }
    out
}

} // verus!
