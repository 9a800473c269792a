use rustcrawl::delay::{format_duration, parse_duration, read};
use rustcrawl::display::{
    human_bytes, kind_name, pad_left, pad_right, truncate, LogLine, Tone,
};
use rustcrawl::engine::CrawlEvent;
use rustcrawl::page::PageErrorKind;
use rustcrawl::sink::JsonlSink;
use rustcrawl::stats::Stats;
use rustcrawl::text::{contains, parse_number, to_decimal, to_lower, trim};
use rustcrawl::text_map::TextMap;
use rustcrawl::time::{Duration, Instant};

/// Sizes as floating-point arithmetic has them.
fn by_floats(bytes: u64) -> String {
    let units = ["B", "KB", "MB", "GB", "TB"];
    let mut value = bytes as f64;
    let mut unit = 0;
    while value >= 1024.0 && unit < units.len() - 1 {
        value /= 1024.0;
        unit += 1;
    }
    if unit == 0 {
        format!("{bytes} B")
    } else {
        format!("{value:.1} {}", units[unit])
    }
}

#[test]
fn sizes_agree_with_floats() {
    assert_eq!(human_bytes(0), "0 B");
    assert_eq!(human_bytes(1023), "1023 B");
    assert_eq!(human_bytes(1024), "1.0 KB");
    assert_eq!(human_bytes(1536), "1.5 KB");
    assert_eq!(human_bytes(8 * 1024 * 1024), "8.0 MB");
    let mut n: u64 = 1;
    for i in 0..4000u64 {
        n = n.wrapping_mul(6364136223846793005).wrapping_add(1442695040888963407);
        let bytes = n >> (i % 64);
        assert_eq!(human_bytes(bytes), by_floats(bytes), "{bytes}");
    }
    for shift in 0..64 {
        for d in 0..5u64 {
            let bytes = (1u64 << shift).wrapping_add(d).wrapping_sub(2);
            assert_eq!(human_bytes(bytes), by_floats(bytes), "{bytes}");
        }
    }
    // Exactly between two tenths.
    for k in 0..200u64 {
        let bytes = 1024 * k + 51 * 1024 / 1020;
        assert_eq!(human_bytes(bytes), by_floats(bytes));
        let bytes = (2 * k + 1) * 524288 / 10 * 10;
        assert_eq!(human_bytes(bytes), by_floats(bytes));
        let bytes = 1280 + 256 * k;
        assert_eq!(human_bytes(bytes), by_floats(bytes));
    }
    assert_eq!(human_bytes(u64::MAX), by_floats(u64::MAX));
    assert_eq!(human_bytes(9007199254740993), by_floats(9007199254740993));
}

#[test]
fn texts_are_padded_and_shortened() {
    assert_eq!(pad_right("ab", 4), "ab  ");
    assert_eq!(pad_right("abcde", 4), "abcde");
    assert_eq!(pad_left("7", 4), "   7");
    assert_eq!(pad_left("12345", 4), "12345");
    assert_eq!(pad_left("\u{e4}", 2), format!("{:>2}", "\u{e4}"));
    assert_eq!(truncate("h\u{e9}llo", 2), "h\u{e9}...");
    assert_eq!(truncate("hello", 5), "hello");
    assert_eq!(truncate("", 0), "");
    assert_eq!(truncate("x", 0), "...");
}

#[test]
fn events_become_log_lines() {
    let page = |status: u16| {
        LogLine::from_event(CrawlEvent::Page {
            url: "https://e.com/".to_string(),
            status,
            depth: 2,
            new_links: 30,
        })
    };
    let line = page(200);
    assert_eq!((line.status.as_str(), line.depth.as_str(), line.links.as_str()), ("200", "d2", "+30"));
    assert_eq!(line.tone, Tone::Good);
    assert_eq!(line.columns(), ("200 ".to_string(), "d2  ".to_string(), "+30   ".to_string()));
    assert_eq!(page(301).tone, Tone::Fair);
    assert_eq!(page(404).tone, Tone::Bad);
    assert_eq!(page(100).tone, Tone::Bad);
    let failed = LogLine::from_event(CrawlEvent::Failed {
        url: "u".to_string(),
        kind: PageErrorKind::RobotsDenied,
        error: "e".to_string(),
    });
    assert_eq!(failed.url, "RobotsDenied: u (e)");
    assert_eq!((failed.status.as_str(), failed.depth.as_str(), failed.links.as_str()), ("ERR", "-", "-"));
    assert_eq!(failed.tone, Tone::Bad);
    for kind in [
        PageErrorKind::RobotsDenied,
        PageErrorKind::Transport,
        PageErrorKind::HttpStatus,
        PageErrorKind::TooLarge,
        PageErrorKind::UnsupportedContentType,
        PageErrorKind::Other,
    ] {
        assert_eq!(kind_name(kind), format!("{kind:?}"));
    }
}

#[test]
fn spans_are_read_and_written() {
    assert_eq!(parse_duration("250ms"), Ok(Duration::from_millis(250)));
    assert_eq!(parse_duration("1s"), Ok(Duration::from_secs(1)));
    assert_eq!(parse_duration("2h 37min"), Ok(Duration::from_secs(9420)));
    assert_eq!(parse_duration("4.2s"), Ok(Duration::from_millis(4200)));
    assert_eq!(parse_duration("0"), Ok(Duration::zero()));
    assert_eq!(
        parse_duration("5"),
        Err("invalid duration \"5\": time unit needed, for example 5sec or 5ms".to_string())
    );
    assert_eq!(parse_duration(""), Err("invalid duration \"\": value was empty".to_string()));
    assert_eq!(format_duration(Duration::from_millis(32)), "32ms");
    assert_eq!(format_duration(Duration::zero()), "0s");
    for nanos in [1, 999, 1_000_000_001, 31_557_600_000_000_000, 18_446_744_073_709_551_615_999_999_999] {
        let text = format_duration(Duration::from_nanos(nanos));
        assert_eq!(parse_duration(&text), Ok(Duration::from_nanos(nanos)));
    }
}

#[test]
fn spans_add_up_within_their_range() {
    let last = Duration::from_nanos(18_446_744_073_709_551_615_999_999_999);
    let overflow = humantime::parse_duration("99999999999999999999s").unwrap_err().to_string();
    assert_eq!(read("18446744073709551615s"), Ok(Duration::from_secs(u64::MAX)));
    assert_eq!(read("18446744073709551615s 999999999ns"), Ok(last));
    assert_eq!(read("18446744073709551615s 1000000000ns"), Err(overflow.clone()));
    assert_eq!(read("18446744073709551615s 1000.00000000001ms"), Err(overflow.clone()));
    assert_eq!(read("18446744073709551615s2s"), Err(overflow.clone()));
    assert_eq!(read("99999999999999999999s"), Err(overflow));
    assert!(read("18446744073709551615s 1foo").unwrap_err().starts_with("unknown time unit \"foo\""));
    assert!(read("18446744073709551615s 999ms foo").unwrap_err().starts_with("expected number at"));
    assert!(read("18446744073709551615s 1000ms foo").is_err());
    assert_eq!(read(" 1 h  2 m "), Ok(Duration::from_secs(3720)));
    assert!(read("1s0").unwrap_err().starts_with("time unit needed"));
    assert_eq!(read("1s 600000000000ns"), Ok(Duration::from_secs(601)));
    assert_eq!(read("1s600000000000ns"), Ok(Duration::from_secs(601)));
    assert_eq!(read("1.5 s"), Ok(Duration::from_millis(1500)));
    assert_eq!(read("1 0s"), Ok(Duration::from_secs(10)));
    assert_eq!(read("1h 2m x"), Err("expected number at 6".to_string()));
    assert_eq!(read("x"), Err("expected number at 0".to_string()));
}

#[test]
fn records_are_framed_one_per_line() {
    let mut sink = JsonlSink::new();
    assert_eq!(sink.take(), "");
    sink.page("{\"a\":1}");
    sink.page("{}");
    assert_eq!(sink.take(), "{\"a\":1}\n{}\n");
    sink.page("x");
    assert_eq!(sink.take(), "x\n");
}

#[test]
fn counters_count() {
    let mut s = Stats::new(Instant::from_nanos(5));
    s.inc_fetched(7);
    s.inc_failed();
    s.add_discovered(3);
    s.inc_in_flight();
    s.inc_in_flight();
    s.dec_in_flight();
    let snap = s.snapshot(Instant::from_nanos(25));
    assert_eq!((snap.fetched, snap.failed, snap.discovered, snap.in_flight, snap.bytes), (1, 1, 3, 1, 7));
    assert_eq!(snap.elapsed, Duration::from_nanos(20));
    assert_eq!(s.snapshot(Instant::from_nanos(1)).elapsed, Duration::zero());
    s.bytes = u64::MAX;
    s.inc_fetched(2);
    assert_eq!(s.bytes, 1);
}

#[test]
fn text_helpers_agree_with_std() {
    for s in ["", " a ", "\u{2003}x\u{85}", "\u{200b}x", "\n\t a b \r", "\u{3000}", "ÀB c"] {
        assert_eq!(trim(s), s.trim());
        assert_eq!(to_lower(s), s.to_ascii_lowercase());
    }
    for n in [0, 9, 10, 12345, u64::MAX] {
        assert_eq!(to_decimal(n), n.to_string());
        assert_eq!(parse_number(&n.to_string(), u64::MAX), Some(n));
    }
    for s in ["", "+", "-1", "+5", "007", "1_0", "18446744073709551616", "a", "\u{664}"] {
        assert_eq!(parse_number(s, u64::MAX), s.parse::<u64>().ok());
        assert_eq!(parse_number(s, 255), s.parse::<u8>().ok().map(u64::from));
    }
    for (hay, needle) in [("abcabd", "abd"), ("aab", "ab"), ("a", ""), ("", "a"), ("xhtml", "html")] {
        assert_eq!(contains(hay, needle), hay.contains(needle));
    }
    for c in 0..0x11_0000u32 {
        if let Some(c) = char::from_u32(c) {
            assert_eq!(rustcrawl::text::space(c), c.is_whitespace());
        }
    }
}

#[test]
fn text_maps_find_what_was_put_in() {
    let mut map: TextMap<u32> = TextMap::new();
    for i in 0..500u32 {
        let key = format!("k{i}");
        assert_eq!(map.find(&key), None);
        map.insert(key, i);
    }
    for i in 0..500u32 {
        let at = map.find(&format!("k{i}")).unwrap();
        assert_eq!(map.key(at), &format!("k{i}"));
        assert_eq!(*map.value(at), i);
        *map.value_mut(at) += 1;
        assert_eq!(*map.value(at), i + 1);
    }
    assert_eq!(map.len(), 500);
    let mut set: TextMap<()> = TextMap::new();
    assert!(set.note("a".to_string()));
    assert!(!set.note("a".to_string()));
    assert_eq!(set.len(), 1);
}
