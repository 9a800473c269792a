//! Text for display: padding, shortening, sizes, and log lines.

use vstd::prelude::*;
use vstd::string::StringExecFns;

use crate::engine::CrawlEvent;
use crate::page::PageErrorKind;
use crate::text::{self, chars_of, join2, join3, text_between, to_decimal};

verus! {

/// `n` spaces; none if `n` is negative.
pub open spec fn blanks(n: int) -> Seq<char> {
    Seq::new(
        if n > 0 {
            n as nat
        } else {
            0
        },
        |i: int| ' ',
    )
}

/// Add spaces behind `s` up to a width of `width` characters.
pub fn pad_right(s: &str, width: usize) -> (r: String)
    ensures
        r@ == s@ + blanks(width - s@.len()),
{
    let mut out: String = s.to_owned();
    let mut n: usize = chars_of(s).len();
    proof {
        assert(s@ + blanks(n - s@.len()) =~= s@);
    }
    while n < width
        invariant
            s@.len() <= n,
            n <= width || n == s@.len(),
            out@ == s@ + blanks(n - s@.len()),
        decreases width - n,
    {
        out.push(' ');
        n += 1;
        proof {
            assert(out@ =~= s@ + blanks(n - s@.len()));
        }
    }
    proof {
        assert(blanks(n - s@.len()) =~= blanks(width - s@.len()));
    }
    out
}

/// Add spaces before `s` up to a width of `width` characters.
pub fn pad_left(s: &str, width: usize) -> (r: String)
    ensures
        r@ == blanks(width - s@.len()) + s@,
{
    let mut out: String = String::new();
    let len: usize = chars_of(s).len();
    let mut n: usize = len;
    proof {
        assert(out@ =~= blanks(n - len));
    }
    while n < width
        invariant
            len <= n,
            n <= width || n == len,
            out@ == blanks(n - len),
        decreases width - n,
    {
        out.push(' ');
        n += 1;
        proof {
            assert(out@ =~= blanks(n - len));
        }
    }
    proof {
        assert(blanks(n - len) =~= blanks(width - s@.len()));
    }
    out.append(s);
    out
}

/// `value`, or its first `max_chars` characters and three dots.
pub open spec fn shortened(value: Seq<char>, max_chars: nat) -> Seq<char> {
    if value.len() <= max_chars {
        value
    } else {
        value.take(max_chars as int) + "..."@
    }
}

/// Shorten a text to `max_chars` characters, marking the cut with three dots.
pub fn truncate(value: &str, max_chars: usize) -> (r: String)
    ensures
        r@ == shortened(value@, max_chars as nat),
{
    let chars = chars_of(value);
    if chars.len() <= max_chars {
        value.to_owned()
    } else {
        let mut out = text_between(&chars, 0, max_chars);
        proof {
            assert(out@ =~= value@.take(max_chars as int));
        }
        out.append("...");
        out
    }
}

/// `n / d`, rounded to the nearest whole number, and to the even one of two.
pub open spec fn rounded(n: nat, d: nat) -> nat {
    let q = n / d;
    let rest = n % d;
    if 2 * rest > d || (2 * rest == d && q % 2 == 1) {
        q + 1
    } else {
        q
    }
}

fn round(n: u128, d: u128) -> (r: u128)
    requires
        d > 0,
        n < 0x1_0000_0000_0000_0000_0000_0000,
        d < 0x1_0000_0000_0000_0000_0000_0000,
    ensures
        r == rounded(n as nat, d as nat),
{
    let q: u128 = n / d;
    let rest: u128 = n % d;
    if 2 * rest > d || (2 * rest == d && q % 2 == 1) {
        proof {
            assert(q <= n) by (nonlinear_arith)
                requires
                    d > 0,
                    q == n / d,
            ;
        }
        q + 1
    } else {
        q
    }
}

/// The size of the steps in which a count of bytes is known: 53 significant
/// binary digits are kept.
pub open spec fn grain(bytes: nat) -> nat
    decreases bytes,
{
    if bytes < 0x20_0000_0000_0000 {
        1
    } else {
        2 * grain(bytes / 2)
    }
}

/// A count of bytes, to 53 significant binary digits.
pub open spec fn significant(bytes: nat) -> nat {
    grain(bytes) * rounded(bytes, grain(bytes))
}

/// The unit in which a count of bytes is shown.
#[derive(Debug, Clone, Copy, PartialEq, Eq, Structural)]
pub enum Unit {
    Bytes,
    Kilo,
    Mega,
    Giga,
    Tera,
}

impl Unit {
    /// How many bytes the unit stands for.
    pub open spec fn size(self) -> nat {
        match self {
            Unit::Bytes => 1,
            Unit::Kilo => 1024,
            Unit::Mega => 1048576,
            Unit::Giga => 1073741824,
            Unit::Tera => 1099511627776,
        }
    }

    /// The unit as it is written.
    pub open spec fn written(self) -> Seq<char> {
        match self {
            Unit::Bytes => " B"@,
            Unit::Kilo => " KB"@,
            Unit::Mega => " MB"@,
            Unit::Giga => " GB"@,
            Unit::Tera => " TB"@,
        }
    }
}

/// The largest unit of which there is at least one.
pub open spec fn unit_for(n: nat) -> Unit {
    if n < 1024 {
        Unit::Bytes
    } else if n < 1048576 {
        Unit::Kilo
    } else if n < 1073741824 {
        Unit::Mega
    } else if n < 1099511627776 {
        Unit::Giga
    } else {
        Unit::Tera
    }
}

/// A count of bytes in its unit: whole bytes, or else one decimal.
pub open spec fn bytes_shown(bytes: nat) -> Seq<char> {
    let n = significant(bytes);
    let unit = unit_for(n);
    if unit is Bytes {
        text::decimal(bytes) + " B"@
    } else {
        let tenths = rounded(10 * n, unit.size());
        text::decimal(tenths / 10) + "."@ + text::decimal(tenths % 10) + unit.written()
    }
}

fn significant_bytes(bytes: u64) -> (r: u128)
    ensures
        r == significant(bytes as nat),
        r <= 0x2_0000_0000_0000_0000,
{
    let mut x: u64 = bytes;
    let mut g: u128 = 1;
    while x >= 0x20_0000_0000_0000
        invariant
            grain(bytes as nat) == g * grain(x as nat),
            1 <= g,
            g * x <= bytes,
            x >= 1 || g == 1,
        decreases x,
    {
        proof {
            assert(grain(x as nat) == 2 * grain((x / 2) as nat));
            assert(g * (2 * grain((x / 2) as nat)) == (2 * g) * grain((x / 2) as nat))
                by (nonlinear_arith);
            assert(2 * (x / 2) <= x);
            assert((2 * g) * (x / 2) <= g * x) by (nonlinear_arith)
                requires
                    2 * (x / 2) <= x,
                    g >= 1,
            ;
            assert(g <= bytes) by (nonlinear_arith)
                requires
                    g * x <= bytes,
                    x >= 1,
                    g >= 1,
            ;
        }
        x = x / 2;
        g = g * 2;
    }
    proof {
        assert(grain(x as nat) == 1);
        assert(g * 1 == g) by (nonlinear_arith);
        assert(g <= 0x1_0000_0000_0000_0000) by {
            if x >= 1 {
                assert(g <= bytes) by (nonlinear_arith)
                    requires
                        g * x <= bytes,
                        x >= 1,
                        g >= 1,
                ;
            } else {
                assert(g == 1);
            }
        }
        let n = bytes as nat;
        let d = g as nat;
        assert(d * rounded(n, d) <= n + d) by (nonlinear_arith)
            requires
                d > 0,
                rounded(n, d) <= n / d + 1,
        ;
    }
    g * round(bytes as u128, g)
}

/// A count of bytes in the largest unit of which there is at least one.
pub fn human_bytes(bytes: u64) -> (r: String)
    ensures
        r@ == bytes_shown(bytes as nat),
{
    let n: u128 = significant_bytes(bytes);
    if n < 1024 {
        let whole = to_decimal(bytes);
        return join2(whole.as_str(), " B");
    }
    let (size, name): (u128, &str) = if n < 1048576 {
        (1024, " KB")
    } else if n < 1073741824 {
        (1048576, " MB")
    } else if n < 1099511627776 {
        (1073741824, " GB")
    } else {
        (1099511627776, " TB")
    };
    let tenths: u128 = round(10 * n, size);
    proof {
        let a = 10 * n;
        let b = size as int;
        assert(tenths <= a / b + 1);
        assert(a / b <= a / 1024) by (nonlinear_arith)
            requires
                b >= 1024,
                a >= 0,
        ;
    }
    let whole = to_decimal((tenths / 10) as u64);
    let part = to_decimal((tenths % 10) as u64);
    let mut out = join3(whole.as_str(), ".", part.as_str());
    out.append(name);
    out
}

/// How a line stands out.
#[derive(Debug, Clone, Copy, PartialEq, Eq, Structural)]
pub enum Tone {
    Good,
    Fair,
    Bad,
}

/// The tone of an HTTP status: success, redirection, or anything else.
pub open spec fn status_tone(status: u16) -> Tone {
    if 200 <= status < 300 {
        Tone::Good
    } else if 300 <= status < 400 {
        Tone::Fair
    } else {
        Tone::Bad
    }
}

/// The name of a failure's category.
pub open spec fn kind_written(kind: PageErrorKind) -> Seq<char> {
    match kind {
        PageErrorKind::RobotsDenied => "RobotsDenied"@,
        PageErrorKind::Transport => "Transport"@,
        PageErrorKind::HttpStatus => "HttpStatus"@,
        PageErrorKind::TooLarge => "TooLarge"@,
        PageErrorKind::UnsupportedContentType => "UnsupportedContentType"@,
        PageErrorKind::Other => "Other"@,
    }
}

/// The name of a failure's category.
pub fn kind_name(kind: PageErrorKind) -> (r: String)
    ensures
        r@ == kind_written(kind),
{
    match kind {
        PageErrorKind::RobotsDenied => "RobotsDenied".to_owned(),
        PageErrorKind::Transport => "Transport".to_owned(),
        PageErrorKind::HttpStatus => "HttpStatus".to_owned(),
        PageErrorKind::TooLarge => "TooLarge".to_owned(),
        PageErrorKind::UnsupportedContentType => "UnsupportedContentType".to_owned(),
        PageErrorKind::Other => "Other".to_owned(),
    }
}

/// One line of the request log.
#[derive(Debug)]
pub struct LogLine {
    pub status: String,
    pub depth: String,
    pub links: String,
    pub url: String,
    pub tone: Tone,
}

/// The content of a [`LogLine`].
pub struct LogView {
    pub status: Seq<char>,
    pub depth: Seq<char>,
    pub links: Seq<char>,
    pub url: Seq<char>,
    pub tone: Tone,
}

impl View for LogLine {
    type V = LogView;

    open spec fn view(&self) -> LogView {
        LogView {
            status: self.status@,
            depth: self.depth@,
            links: self.links@,
            url: self.url@,
            tone: self.tone,
        }
    }
}

impl LogView {
    /// The line that reports `event`.
    pub open spec fn of(event: CrawlEvent) -> LogView {
        match event {
            CrawlEvent::Page { url, status, depth, new_links } => LogView {
                status: text::decimal(status as nat),
                depth: "d"@ + text::decimal(depth as nat),
                links: "+"@ + text::decimal(new_links as nat),
                url: url@,
                tone: status_tone(status),
            },
            CrawlEvent::Failed { url, kind, error } => LogView {
                status: "ERR"@,
                depth: "-"@,
                links: "-"@,
                url: kind_written(kind) + ": "@ + url@ + " ("@ + error@ + ")"@,
                tone: Tone::Bad,
            },
        }
    }
}

impl LogLine {
    /// The line that reports `event`.
    pub fn from_event(event: CrawlEvent) -> (r: Self)
        ensures
            r@ == LogView::of(event),
    {
        match event {
            CrawlEvent::Page { url, status, depth, new_links } => {
                let tone = if 200 <= status && status < 300 {
                    Tone::Good
                } else if 300 <= status && status < 400 {
                    Tone::Fair
                } else {
                    Tone::Bad
                };
                LogLine {
                    status: to_decimal(status as u64),
                    depth: join2("d", to_decimal(depth as u64).as_str()),
                    links: join2("+", to_decimal(new_links as u64).as_str()),
                    url,
                    tone,
                }
            },
            CrawlEvent::Failed { url, kind, error } => {
                let mut line = join3(kind_name(kind).as_str(), ": ", url.as_str());
                line.append(" (");
                line.append(error.as_str());
                line.append(")");
                LogLine {
                    status: "ERR".to_owned(),
                    depth: "-".to_owned(),
                    links: "-".to_owned(),
                    url: line,
                    tone: Tone::Bad,
                }
            },
        }
    }

    /// The columns of the line, padded: status, depth, links.
    pub fn columns(&self) -> (r: (String, String, String))
        ensures
            r.0@ == self@.status + blanks(4 - self@.status.len()),
            r.1@ == self@.depth + blanks(4 - self@.depth.len()),
            r.2@ == self@.links + blanks(6 - self@.links.len()),
    {
        (
            pad_right(self.status.as_str(), 4),
            pad_right(self.depth.as_str(), 4),
            pad_right(self.links.as_str(), 6),
        )
    }
}

/// A shortened text has at most `max_chars` characters and the three dots, and
/// starts as the text does.
pub proof fn shortening_keeps_the_start(value: Seq<char>, max_chars: nat)
    ensures
        shortened(value, max_chars).len() <= max_chars + 3,
        value.len() <= max_chars ==> shortened(value, max_chars) == value,
        value.len() > max_chars ==> shortened(value, max_chars).take(max_chars as int)
            == value.take(max_chars as int),
{
    reveal_strlit("...");
    if value.len() > max_chars {
        assert(shortened(value, max_chars).take(max_chars as int) =~= value.take(max_chars as int));
    }
}

/// Padding is spaces, just as many as are missing.
pub proof fn padding_is_spaces(n: int, i: int)
    ensures
        n >= 0 ==> blanks(n).len() == n,
        n < 0 ==> blanks(n).len() == 0,
        0 <= i < n ==> blanks(n)[i] == ' ',
{
}

/// A text that is cut ends in three dots, behind its first characters.
pub proof fn cuts_are_marked(value: Seq<char>, max_chars: nat)
    requires
        value.len() > max_chars,
    ensures
        shortened(value, max_chars) == value.take(max_chars as int) + seq!['.', '.', '.'],
{
    reveal_strlit("...");
    assert("..."@ =~= seq!['.', '.', '.']);
}

/// Rounding goes to the nearest whole number, and from the middle to the even
/// one.
pub proof fn rounding_is_to_the_nearest(n: nat, d: nat)
    requires
        d > 0,
    ensures
        2 * (d * rounded(n, d)) <= 2 * n + d,
        2 * n <= 2 * (d * rounded(n, d)) + d,
        2 * n == 2 * (d * rounded(n, d)) + d || 2 * (d * rounded(n, d)) == 2 * n + d ==> rounded(
            n,
            d,
        ) % 2 == 0,
{
    let q = n / d;
    let rest = n % d;
    assert(n == d * q + rest && 0 <= rest < d) by (nonlinear_arith)
        requires
            d > 0,
            q == n / d,
            rest == n % d,
    ;
    assert(d * (q + 1) == d * q + d) by (nonlinear_arith);
    if 2 * rest == d && q % 2 == 0 {
    }
}

/// How a count of bytes is shown, as long as it has no more than 53 binary
/// digits: below 1024 as whole bytes, and else in the largest of kilo-, mega-,
/// giga- and terabytes of which there is at least one, to the nearest tenth.
pub proof fn sizes_are_shown_in_their_unit(bytes: nat)
    requires
        bytes < 0x20_0000_0000_0000,
    ensures
        ({
            let kb = rounded(10 * bytes, 1024);
            let mb = rounded(10 * bytes, 1024 * 1024);
            let gb = rounded(10 * bytes, 1024 * 1024 * 1024);
            let tb = rounded(10 * bytes, 1024 * 1024 * 1024 * 1024);
            &&& bytes < 1024 ==> bytes_shown(bytes) == text::decimal(bytes) + " B"@
            &&& 1024 <= bytes < 1024 * 1024 ==> bytes_shown(bytes) == text::decimal(kb / 10) + "."@
                + text::decimal(kb % 10) + " KB"@
            &&& 1024 * 1024 <= bytes < 1024 * 1024 * 1024 ==> bytes_shown(bytes) == text::decimal(
                mb / 10,
            ) + "."@ + text::decimal(mb % 10) + " MB"@
            &&& 1024 * 1024 * 1024 <= bytes < 1024 * 1024 * 1024 * 1024 ==> bytes_shown(bytes)
                == text::decimal(gb / 10) + "."@ + text::decimal(gb % 10) + " GB"@
            &&& 1024 * 1024 * 1024 * 1024 <= bytes ==> bytes_shown(bytes) == text::decimal(tb / 10)
                + "."@ + text::decimal(tb % 10) + " TB"@
        }),
        significant(bytes) == bytes,
{
    assert(grain(bytes) == 1);
    assert(bytes / 1 == bytes && bytes % 1 == 0);
    assert(significant(bytes) == bytes);
}

/// A larger count is known in steps of a power of two: the steps double with the
/// count, and no count is off by more than half a step.
pub proof fn large_sizes_are_known_in_steps(bytes: nat)
    ensures
        bytes >= 0x20_0000_0000_0000 ==> grain(bytes) == 2 * grain(bytes / 2),
        bytes < 0x20_0000_0000_0000 ==> grain(bytes) == 1,
        grain(bytes) >= 1,
        2 * significant(bytes) <= 2 * bytes + grain(bytes),
        2 * bytes <= 2 * significant(bytes) + grain(bytes),
    decreases bytes,
{
    if bytes >= 0x20_0000_0000_0000 {
        large_sizes_are_known_in_steps(bytes / 2);
    }
    rounding_is_to_the_nearest(bytes, grain(bytes));
}

/// A status from 200 to 299 is good, one from 300 to 399 is fair, and any other
/// is bad.
pub proof fn tones_go_by_status(status: u16)
    ensures
        status_tone(status) is Good <==> 200 <= status <= 299,
        status_tone(status) is Fair <==> 300 <= status <= 399,
        status_tone(status) is Bad <==> status <= 199 || status >= 400,
{
}

/// A failure's category is called what it is.
pub proof fn categories_are_named()
    ensures
        kind_written(PageErrorKind::RobotsDenied) == "RobotsDenied"@,
        kind_written(PageErrorKind::Transport) == "Transport"@,
        kind_written(PageErrorKind::HttpStatus) == "HttpStatus"@,
        kind_written(PageErrorKind::TooLarge) == "TooLarge"@,
        kind_written(PageErrorKind::UnsupportedContentType) == "UnsupportedContentType"@,
        kind_written(PageErrorKind::Other) == "Other"@,
{
}

/// A log line tells of a page its status, depth, new links and URL, and of a
/// failure its category, its URL and what went wrong.
pub proof fn log_lines_tell_all(event: CrawlEvent)
    ensures
        event matches CrawlEvent::Page { url, status, depth, new_links } ==> {
            let line = LogView::of(event);
            &&& line.status == text::decimal(status as nat)
            &&& line.depth == "d"@ + text::decimal(depth as nat)
            &&& line.links == "+"@ + text::decimal(new_links as nat)
            &&& line.url == url@
            &&& line.tone is Good <==> 200 <= status <= 299
            &&& line.tone is Fair <==> 300 <= status <= 399
        },
        event matches CrawlEvent::Failed { url, kind, error } ==> {
            let line = LogView::of(event);
            &&& line.status == "ERR"@
            &&& line.depth == "-"@
            &&& line.links == "-"@
            &&& line.url == kind_written(kind) + ": "@ + url@ + " ("@ + error@ + ")"@
            &&& line.tone is Bad
        },
{
}

} // verus!
