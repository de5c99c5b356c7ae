//! Durations and names as the reports show them.

use crate::config::{shown_as, Config};
use crate::text::{is_blank, push_signed, signed_decimal, trimmed};
use vstd::prelude::*;
use vstd::string::StrSliceExecFns;
use vstd::string::StringExecFns;
use vstd::string::StringSliceAdditionalSpecFns;

verus! {

/// The quotient of `a` by `b`, rounded towards zero.
pub open spec fn quotient(a: int, b: int) -> int {
    if a >= 0 {
        a / b
    } else {
        -((-a) / b)
    }
}

/// What is left of `a` once the multiples of `b` are taken out; it has the sign of `a`.
pub open spec fn remainder(a: int, b: int) -> int {
    a - b * quotient(a, b)
}

/// The whole hours of a duration in seconds.
pub open spec fn hours_of(seconds: int) -> int {
    quotient(seconds, 3600)
}

/// The whole minutes of a duration beyond its whole hours.
pub open spec fn minutes_of(seconds: int) -> int {
    quotient(remainder(seconds, 3600), 60)
}

/// The seconds of a duration beyond its whole minutes.
pub open spec fn seconds_of(seconds: int) -> int {
    remainder(seconds, 60)
}

/// A duration in words: hours, minutes and seconds, without the larger units that are not
/// above zero.
pub open spec fn duration_text(seconds: int) -> Seq<char> {
    let h = signed_decimal(hours_of(seconds));
    let m = signed_decimal(minutes_of(seconds));
    let s = signed_decimal(seconds_of(seconds));
    if hours_of(seconds) > 0 {
        h + "h "@ + m + "m "@ + s + "s"@
    } else if minutes_of(seconds) > 0 {
        m + "m "@ + s + "s"@
    } else {
        s + "s"@
    }
}

/// A duration in words, to the minute: hours and minutes, or minutes alone where there is no
/// whole hour.
pub open spec fn short_duration_text(seconds: int) -> Seq<char> {
    let h = signed_decimal(hours_of(seconds));
    let m = signed_decimal(minutes_of(seconds));
    if hours_of(seconds) > 0 {
        h + "h "@ + m + "m"@
    } else {
        m + "m"@
    }
}

/// A duration as the lists show it, such as `1h 2m 3s`, `2m 3s` or `3s`.
pub fn format_duration(seconds: i64) -> (text: String)
    ensures
        text@ == duration_text(seconds as int),
{
    let h = seconds / 3600;
    let m = (seconds % 3600) / 60;
    let s = seconds % 60;
    let mut text = String::new();
    if h > 0 {
        push_signed(&mut text, h);
        text.append("h ");
    }
    if h > 0 || m > 0 {
        push_signed(&mut text, m);
        text.append("m ");
    }
    push_signed(&mut text, s);
    text.append("s");
    assert(text@ =~= duration_text(seconds as int));
    text
}

/// A duration as the chart shows it, such as `1h 2m` or `2m`.
pub fn format_dur(s: i64) -> (text: String)
    ensures
        text@ == short_duration_text(s as int),
{
    let h = s / 3600;
    let m = (s % 3600) / 60;
    let mut text = String::new();
    if h > 0 {
        push_signed(&mut text, h);
        text.append("h ");
    }
    push_signed(&mut text, m);
    text.append("m");
    assert(text@ =~= short_duration_text(s as int));
    text
}

/// `count` spaces.
pub open spec fn spaces(count: int) -> Seq<char> {
    Seq::new(
        if count > 0 {
            count as nat
        } else {
            0
        },
        |i: int| ' ',
    )
}

/// A name cut or filled to a column of `len`: a name of more than `len` bytes keeps its first
/// `len - 1` bytes and ends in an ellipsis; a shorter one is filled with spaces up to `len`
/// characters. `None` where the cut would fall inside a character, or `len` is zero.
pub open spec fn column_text(name: Seq<char>, len: int) -> Option<Seq<char>> {
    let bytes = vstd::utf8::encode_utf8(name);
    if bytes.len() > len {
        if len >= 1 && vstd::utf8::is_char_boundary(bytes, len - 1) {
            Some(vstd::utf8::decode_utf8(bytes.subrange(0, len - 1)) + seq!['\u{2026}'])
        } else {
            None
        }
    } else {
        Some(name + spaces(len - name.len()))
    }
}

/// A name cut or filled to a column of `len`: see `column_text`.
pub fn truncate_pad(name: &str, len: usize) -> (r: Option<String>)
    ensures
        match r {
            Some(text) => column_text(name@, len as int) == Some(text@),
            None => column_text(name@, len as int) is None,
        },
{
    broadcast use vstd::utf8::encode_utf8_decode_utf8;

    if name.as_bytes().len() > len {
        if len == 0 || !name.is_char_boundary(len - 1) {
            return None;
        }
        let (head, _) = name.split_at(len - 1);
        let mut text = head.to_owned();
        proof {
            vstd::utf8::encode_utf8_decode_utf8(head@);
            assert(head.spec_bytes() == vstd::utf8::encode_utf8(head@));
            assert(head@ == vstd::utf8::decode_utf8(
                name.spec_bytes().subrange(0, len as int - 1),
            ));
            reveal_strlit("\u{2026}");
            assert("\u{2026}"@ =~= seq!['\u{2026}']);
        }
        text.append("\u{2026}");
        assert(column_text(name@, len as int) == Some(text@));
        Some(text)
    } else {
        let count = name.unicode_len();
        let mut text = name.to_owned();
        let mut i: usize = count;
        while i < len
            invariant
                count == name@.len(),
                name.spec_bytes().len() <= len,
                count <= i,
                i == count || i <= len,
                text@ == name@ + spaces(i - count),
            decreases len - i,
        {
            text.append(" ");
            proof {
                reveal_strlit(" ");
                assert(spaces(i - count) + " "@ =~= spaces(i + 1 - count));
            }
            i = i + 1;
        }
        proof {
            if count >= len {
                assert(spaces(i - count) =~= spaces(len - count));
            }
            assert(column_text(name@, len as int) == Some(text@));
        }
        Some(text)
    }
}

/// The sum of the seconds of a report; what is beyond 63 bits is never reached because the
/// sum is given up first.
pub open spec fn sum_of(data: Seq<(String, i64)>) -> int
    decreases data.len(),
{
    if data.len() == 0 {
        0
    } else {
        sum_of(data.drop_last()) + data.last().1
    }
}

/// Whether every sum of the first lines of a report fits in 63 bits.
pub open spec fn sums_fit(data: Seq<(String, i64)>) -> bool
    decreases data.len(),
{
    data.len() == 0 || (sums_fit(data.drop_last()) && i64::MIN <= sum_of(data) <= i64::MAX)
}

/// The seconds of all lines of a report together, or `None` where a sum on the way does not
/// fit in 63 bits.
pub fn total_seconds(data: &Vec<(String, i64)>) -> (r: Option<i64>)
    ensures
        r is Some <==> sums_fit(data@),
        r matches Some(total) ==> total == sum_of(data@),
{
    let mut total: i64 = 0;
    let mut i: usize = 0;
    while i < data.len()
        invariant
            i <= data@.len(),
            sums_fit(data@.take(i as int)),
            total == sum_of(data@.take(i as int)),
        decreases data@.len() - i,
    {
        let seconds = data[i].1;
        proof {
            assert(data@.take(i + 1).drop_last() == data@.take(i as int));
            assert(data@.take(i + 1).last() == data@[i as int]);
        }
        if (seconds > 0 && total > i64::MAX - seconds) || (seconds < 0 && total < i64::MIN
            - seconds) {
            proof {
                if sums_fit(data@) {
                    lemma_sums_fit_prefix(data@, i + 1);
                }
            }
            return None;
        }
        total = total + seconds;
        i = i + 1;
    }
    assert(data@.take(i as int) == data@);
    Some(total)
}

/// Where all sums of a report fit, all sums of its first lines fit.
pub proof fn lemma_sums_fit_prefix(data: Seq<(String, i64)>, n: int)
    requires
        0 <= n <= data.len(),
        sums_fit(data),
    ensures
        sums_fit(data.take(n)),
    decreases data.len(),
{
    if n == data.len() {
        assert(data.take(n) == data);
    } else {
        assert(data.drop_last().take(n) == data.take(n));
        lemma_sums_fit_prefix(data.drop_last(), n);
    }
}

/// The largest seconds of a report, or one for a report without lines.
pub open spec fn largest(data: Seq<(String, i64)>) -> int
    decreases data.len(),
{
    if data.len() == 0 {
        1
    } else if data.len() == 1 {
        data.last().1 as int
    } else if largest(data.drop_last()) >= data.last().1 {
        largest(data.drop_last())
    } else {
        data.last().1 as int
    }
}

/// The largest seconds of a report, by which its bars are scaled; one for an empty report.
pub fn max_seconds(data: &Vec<(String, i64)>) -> (r: i64)
    ensures
        r == largest(data@),
{
    if data.len() == 0 {
        return 1;
    }
    let mut best: i64 = data[0].1;
    assert(data@.take(1).drop_last() =~= Seq::empty());
    let mut i: usize = 1;
    while i < data.len()
        invariant
            1 <= i <= data@.len(),
            best == largest(data@.take(i as int)),
        decreases data@.len() - i,
    {
        proof {
            assert(data@.take(i + 1).drop_last() == data@.take(i as int));
            assert(data@.take(i + 1).last() == data@[i as int]);
        }
        if data[i].1 > best {
            best = data[i].1;
        }
        i = i + 1;
    }
    assert(data@.take(i as int) == data@);
    best
}

/// The hours, minutes and seconds of a duration.
pub fn split_duration(seconds: i64) -> (r: (i64, i64, i64))
    ensures
        r.0 == hours_of(seconds as int),
        r.1 == minutes_of(seconds as int),
        r.2 == seconds_of(seconds as int),
{
    (seconds / 3600, (seconds % 3600) / 60, seconds % 60)
}

/// One line of a report: the name under which an application is shown, and its seconds, also
/// as hours, minutes and seconds.
#[derive(Debug, Clone, PartialEq, Eq)]
pub struct ReportLine {
    pub name: String,
    pub total: i64,
    pub hours: i64,
    pub minutes: i64,
    pub seconds: i64,
}

/// Whether `line` is the line for the application `raw` with `total` seconds.
pub open spec fn is_line_for(
    alias: Seq<(String, String)>,
    raw: Seq<char>,
    total: i64,
    line: ReportLine,
) -> bool {
    &&& line.name@ == shown_as(alias, raw)
    &&& line.total == total
    &&& line.hours == hours_of(total as int)
    &&& line.minutes == minutes_of(total as int)
    &&& line.seconds == seconds_of(total as int)
}

/// The places of the entries of `data` that a report shows: those whose name holds more than
/// white space, in their order.
pub open spec fn shown(data: Seq<(String, i64)>) -> Seq<int>
    decreases data.len(),
{
    if data.len() == 0 {
        Seq::empty()
    } else if trimmed(data.last().0@).len() == 0 {
        shown(data.drop_last())
    } else {
        shown(data.drop_last()).push(data.len() - 1)
    }
}

/// Whether `lines` are the lines of a report on `data`: one for each entry whose name holds
/// more than white space, in the order of `data`, each under the name that `alias` gives it.
pub open spec fn are_lines_of(
    alias: Seq<(String, String)>,
    data: Seq<(String, i64)>,
    lines: Seq<ReportLine>,
) -> bool {
    let places = shown(data);
    &&& lines.len() == places.len()
    &&& forall|k: int|
        0 <= k < lines.len() ==> 0 <= #[trigger] places[k] < data.len() && is_line_for(
            alias,
            data[places[k]].0@,
            data[places[k]].1,
            lines[k],
        )
}

/// The lines of a report: see `are_lines_of`.
pub fn report_lines(data: &Vec<(String, i64)>, config: &Config) -> (lines: Vec<ReportLine>)
    ensures
        are_lines_of(config.alias@, data@, lines@),
{
    let mut lines: Vec<ReportLine> = Vec::new();
    let mut i: usize = 0;
    assert(data@.take(0) =~= Seq::empty());
    while i < data.len()
        invariant
            i <= data@.len(),
            are_lines_of(config.alias@, data@.take(i as int), lines@),
        decreases data@.len() - i,
    {
        let ghost before = lines@;
        let ghost seen = data@.take(i as int);
        let ghost next = data@.take(i + 1);
        proof {
            assert(next.drop_last() == seen);
            assert(next.last() == data@[i as int]);
        }
        let raw = data[i].0.as_str();
        if !is_blank(raw) {
            let total = data[i].1;
            let (hours, minutes, seconds) = split_duration(total);
            lines.push(
                ReportLine { name: config.display_name(raw), total, hours, minutes, seconds },
            );
            assert(shown(next) == shown(seen).push(i as int));
        } else {
            assert(shown(next) == shown(seen));
        }
        proof {
            assert forall|k: int| 0 <= k < lines@.len() implies 0 <= #[trigger] shown(next)[k]
                < next.len() && is_line_for(
                config.alias@,
                next[shown(next)[k]].0@,
                next[shown(next)[k]].1,
                lines@[k],
            ) by {
                if k < before.len() {
                    let at = shown(seen)[k];
                    assert(lines@[k] == before[k]);
                    assert(shown(next)[k] == at);
                    assert(0 <= at < seen.len());
                    assert(next[at] == seen[at]);
                }
            }
        }
        i = i + 1;
    }
    assert(data@.take(i as int) == data@);
    lines
}

} // verus!
