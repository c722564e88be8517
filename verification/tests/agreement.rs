use std::collections::HashMap;

use workshop::commands::lang_commands::strip_char;
use workshop::credentials::env_value;
use workshop::sorting::{sort_names, NameOrder};
use workshop::text::{
    contains, ends_with, i64_text, padded_text, parse_u16, parse_up_to, starts_with, text_precedes,
    trim, u64_text,
};

const SAMPLES: [&str; 24] = [
    "",
    " ",
    "a",
    " a ",
    "\t\r\n a b \u{b}\u{c}",
    "\u{85}x\u{a0}",
    "\u{1680}\u{2000}\u{200a}y\u{2028}\u{2029}\u{202f}\u{205f}\u{3000}",
    "\u{200b}z\u{200b}",
    "\u{180e}q",
    "DB_HOST=127.0.0.1",
    "\"quoted\"",
    "''",
    "\"\"\"",
    "limit",
    "LIMIT",
    "a LIMIT b",
    "ab",
    "abc",
    "abd",
    "B",
    "é",
    "ée",
    "日本語",
    "..",
];

#[test]
fn trim_agrees_with_std() {
    for s in SAMPLES {
        assert_eq!(trim(s), s.trim(), "{:?}", s);
    }
}

#[test]
fn search_agrees_with_std() {
    for hay in SAMPLES {
        for needle in SAMPLES {
            assert_eq!(contains(hay, needle), hay.contains(needle), "{:?} {:?}", hay, needle);
            assert_eq!(starts_with(hay, needle), hay.starts_with(needle), "{:?} {:?}", hay, needle);
            assert_eq!(ends_with(hay, needle), hay.ends_with(needle), "{:?} {:?}", hay, needle);
        }
    }
}

#[test]
fn order_agrees_with_std() {
    for a in SAMPLES {
        for b in SAMPLES {
            assert_eq!(text_precedes(a, b), a < b, "{:?} {:?}", a, b);
        }
    }
}

#[test]
fn strip_char_agrees_with_std() {
    for s in SAMPLES {
        assert_eq!(strip_char(s, '"'), s.trim_matches('"'), "{:?}", s);
        assert_eq!(strip_char(s, '\''), s.trim_matches('\''), "{:?}", s);
    }
}

#[test]
fn numbers_agree_with_std() {
    let numbers: [u64; 12] = [0, 1, 9, 10, 11, 99, 100, 101, 65535, 65536, 4294967296, u64::MAX];
    for n in numbers {
        assert_eq!(u64_text(n), n.to_string());
        assert_eq!(padded_text(n, 2), format!("{:02}", n));
        assert_eq!(padded_text(n, 4), format!("{:04}", n));
        assert_eq!(parse_up_to(&n.to_string(), u64::MAX), Ok(n));
        assert_eq!(parse_u16(&n.to_string()).ok(), n.to_string().parse::<u16>().ok());
    }
    let signed: [i64; 8] = [0, 1, -1, 42, -42, i64::MAX, i64::MIN, i64::MIN + 1];
    for n in signed {
        assert_eq!(i64_text(n), n.to_string());
    }
    let texts = [
        "", "+", "-", "+0", "-0", "007", "+65535", "65536", "1 ", " 1", "1_0", "٣", "1e3", "0x10", "++1",
        "+-1", "99999a", "9999a9", "65536a", "6553a6", "a99999", "000000000000000000000000065535",
        "18446744073709551615", "18446744073709551616", "18446744073709551616x", "1844674407370955161x",
        "99999999999999999999999999",
    ];
    for t in texts {
        assert_eq!(
            parse_u16(t).map_err(|e| e.text().to_string()),
            t.parse::<u16>().map_err(|e| e.to_string()),
            "{:?}",
            t
        );
        assert_eq!(
            parse_up_to(t, u64::MAX).map_err(|e| e.text().to_string()),
            t.parse::<u64>().map_err(|e| e.to_string()),
            "{:?}",
            t
        );
    }
}

fn table_of(content: &str) -> HashMap<String, String> {
    let mut vars = HashMap::new();
    for line in content.lines() {
        if line.trim().is_empty() || line.starts_with('#') {
            continue;
        }
        if let Some((key, value)) = line.split_once('=') {
            let val = value.trim();
            let val = if val.len() >= 2 && val.starts_with('"') && val.ends_with('"') {
                &val[1..val.len() - 1]
            } else {
                val
            };
            vars.insert(key.trim().to_string(), val.to_string());
        }
    }
    vars
}

#[test]
fn env_lookup_agrees_with_a_table_of_lines() {
    let files = [
        "",
        "\n\n",
        "A=1",
        "A=1\n",
        "A=1\r\nB=\"two\"\r\n",
        "A=1\n#A=2\n A = 3 \nB\n=x\nA\n",
        "A=\"\nA=\"\"\nB = \"x\" y\nC=\"é\"\n",
        " #A=1\n#B=2\nA==\n",
        "A=1\rB=2\nC=3\r",
        "日本=語\n日本=\"語2\"",
    ];
    let keys = ["A", "B", "C", "", "#A", "日本", "D"];
    for file in files {
        let table = table_of(file);
        for key in keys {
            assert_eq!(env_value(file, key), table.get(key).cloned(), "{:?} {:?}", file, key);
        }
    }
}

#[test]
fn sorting_agrees_with_std() {
    let given: Vec<String> = SAMPLES.iter().map(|s| s.to_string()).collect();
    let mut expected = given.clone();
    expected.sort();
    expected.reverse();
    assert_eq!(sort_names(&given, &NameOrder::Downward), expected);
}
