use wluma::maps::levels::Levels;
use wluma::maps::names::Names;
use wluma::text::chars::{chars, same, string_of};
use wluma::text::decimal::{digits, parse, parse_number};
use wluma::text::hex::append_hex;
use wluma::text::layout::{join, measure, pad};
use wluma::text::order::is_before;
use wluma::text::path;
use wluma::text::search::{contains, starts_with, strip_prefix, strip_suffix, to_lower};
use wluma::text::space::{lines, split, split_whitespace, trim, trim_end, trim_start, white};

const SAMPLES: [&str; 12] = [
    "",
    "a",
    "\n",
    "a\nb",
    "a\r\nb\n",
    " \t a b  c \u{2003}",
    "ä-ö-ü",
    "--",
    "\u{85}x\u{3000}",
    "a\r",
    "\r\n\r\n",
    "VCP 10 C 27 100",
];

#[test]
fn white_space_is_what_std_says() {
    let mut code: u32 = 0;
    while code < 0x11_0000 {
        if let Some(c) = char::from_u32(code) {
            assert_eq!(c.is_whitespace(), white(c), "{code:x}");
        }
        code += 1;
    }
    for s in SAMPLES {
        assert_eq!(s.trim(), trim(s));
        assert_eq!(s.trim_start(), trim_start(s));
        assert_eq!(s.trim_end(), trim_end(s));
        assert_eq!(s.split_whitespace().collect::<Vec<_>>(), split_whitespace(s));
    }
}

#[test]
fn lines_and_fields_are_what_std_says() {
    for s in SAMPLES {
        assert_eq!(s.lines().collect::<Vec<_>>(), lines(s), "{s:?}");
        assert_eq!(s.split('-').collect::<Vec<_>>(), split(s, '-'));
        assert_eq!(s.chars().collect::<Vec<_>>(), chars(s));
        assert_eq!(s.len() as u128, measure(s));
    }
}

#[test]
fn searching_is_what_std_says() {
    for s in SAMPLES {
        for p in SAMPLES {
            assert_eq!(s.contains(p), contains(s, p));
            assert_eq!(s.starts_with(p), starts_with(s, p));
            assert_eq!(s.strip_prefix(p).map(str::to_string), strip_prefix(s, p));
            assert_eq!(s.strip_suffix(p).map(str::to_string), strip_suffix(s, p));
            assert_eq!(s < p, is_before(s, p));
            assert_eq!(s == p, same(s, p));
        }
    }
    assert_eq!("Äbc-kbd", to_lower("ÄBC-KBD"));
    assert_eq!("Äbc-kbd", "ÄBC-KBD".to_ascii_lowercase());
}

#[test]
fn numbers_are_read_and_written() {
    for s in ["", "+", "-1", "0", "007", "+7", "1 ", "255", "256", "18446744073709551615", "18446744073709551616"] {
        assert_eq!(s.parse::<u64>().ok(), parse(s, u64::MAX), "{s}");
        assert_eq!(s.parse::<u8>().ok().map(u64::from), parse(s, 255), "{s}");
    }
    for n in [0, 9, 10, 99, 100, 1234567890, u64::MAX] {
        assert_eq!(n.to_string(), digits(n));
        assert_eq!(Some(n), parse(&digits(n), u64::MAX));
    }
    let mut text = "0x".to_string();
    append_hex(&mut text, 0xbeef, 8);
    assert_eq!("0x0000beef", text);
}

#[test]
fn texts_are_padded_and_joined() {
    assert_eq!(format!("{:<6}", "äö"), pad("äö", 6));
    assert_eq!("long", pad("long", 2));
    let parts = vec!["a".to_string(), "".to_string(), "b".to_string()];
    assert_eq!("a; ; b", join(&parts, "; "));
    assert_eq!("", join(&vec![], "; "));
    assert_eq!("bc", string_of(&chars("abcd"), 1, 3));
}

#[test]
fn paths_have_components() {
    let samples = [
        "/sys/class/leds/kbd",
        "/sys//class/./leds/kbd/",
        "/",
        "",
        ".",
        "./a",
        "a/..",
        "../a",
        "/sys/class/ledsx",
        "a",
    ];
    for a in samples {
        let p = std::path::Path::new(a);
        let components: Vec<String> = p
            .components()
            .map(|c| c.as_os_str().to_str().unwrap().to_string())
            .collect();
        assert_eq!(components, path::components(a), "{a}");
        assert_eq!(
            p.file_name().map(|name| name.to_str().unwrap().to_string()),
            path::file_name(a),
            "{a}"
        );
        assert_eq!(p.join("wluma").to_str().unwrap(), path::join(a, "wluma"));
        for b in samples {
            let q = std::path::Path::new(b);
            assert_eq!(p == q, path::same_path(a, b));
            assert_eq!(p.starts_with(q), path::lies_below(a, b));
        }
    }
}

#[test]
fn maps_hold_what_was_put_in_last() {
    let mut levels = Levels::new();
    levels.insert(20, "b");
    levels.insert(10, "a");
    levels.insert(20, "c");
    assert_eq!(vec![(10, "a"), (20, "c")], levels.entries);
    let mut names = Names::new();
    names.insert("b".to_string(), 1);
    names.insert("a".to_string(), 2);
    names.insert("b".to_string(), 3);
    assert_eq!(vec![("a".to_string(), 2), ("b".to_string(), 3)], names.entries);
    assert_eq!(Some(&3), names.get("b"));
    assert!(!names.contains_key("c"));
    names.remove("b");
    assert_eq!(None, names.get("b"));
}

#[test]
fn faults_of_numbers_are_named() {
    for text in ["", "+", "-", "-1", "++1", "1 ", "256", "25x", "256x", "2x56", "+999", "\u{661}"] {
        let fault = parse_number(text, 255).unwrap_err();
        assert_eq!(text.parse::<u8>().unwrap_err().to_string(), fault.message());
    }
    assert_eq!(Ok(255), parse_number("+0255", 255));
}
