use depac::text::{blank, split_lines, split_once, split_words, starts_with, trim};

const SAMPLES: [&str; 16] = [
    "",
    " ",
    "\n",
    "a",
    "a\nb",
    "a\r\nb\r\n",
    "a\rb\r",
    "\n\n a \t b \n\r\n c\r",
    "  lead and trail  ",
    "\u{a0}no-break\u{3000}wide\u{2003}",
    "\u{180e}kept\u{200b}",
    "pkgver = 1.0 = 2",
    " = ",
    "::",
    "Required By     : None",
    "naïve\u{85}größe",
];

#[test]
fn white_space_is_that_of_unicode() {
    for code in 0..=0x10ffffu32 {
        if let Some(c) = char::from_u32(code) {
            assert_eq!(blank(c), c.is_whitespace(), "{:x}", code);
        }
    }
}

#[test]
fn trim_cuts_both_ends() {
    assert_eq!(trim("\t yay \r\n"), "yay");
    for sample in SAMPLES {
        assert_eq!(trim(sample), sample.trim());
    }
}

#[test]
fn trimming_twice_changes_nothing() {
    for sample in SAMPLES {
        assert_eq!(trim(&trim(sample)), trim(sample));
    }
}

#[test]
fn words_are_split_at_white_space() {
    assert_eq!(split_words(" linux  6.1-1\n"), vec!["linux", "6.1-1"]);
    for sample in SAMPLES {
        let expected: Vec<&str> = sample.split_whitespace().collect();
        assert_eq!(split_words(sample), expected);
    }
}

#[test]
fn lines_lose_their_endings() {
    assert_eq!(split_lines("a\r\nb\n\nc\r"), vec!["a", "b", "", "c\r"]);
    for sample in SAMPLES {
        let expected: Vec<&str> = sample.lines().collect();
        assert_eq!(split_lines(sample), expected);
    }
}

#[test]
fn text_is_split_at_the_first_mark() {
    assert_eq!(
        split_once("pkgver = 1.0 = 2", " = "),
        Some(("pkgver".to_string(), "1.0 = 2".to_string()))
    );
    assert_eq!(split_once("pkgver=1", " = "), None);
    for sample in SAMPLES {
        for mark in ["", ":", " = ", "\n", "e"] {
            let expected = sample
                .split_once(mark)
                .map(|(head, tail)| (head.to_string(), tail.to_string()));
            assert_eq!(split_once(sample, mark), expected);
        }
    }
}

#[test]
fn a_start_is_recognised() {
    for sample in SAMPLES {
        for start in ["", "a", "Required By", "Required By     : None, and more", " "] {
            assert_eq!(starts_with(sample, start), sample.starts_with(start));
        }
    }
}
