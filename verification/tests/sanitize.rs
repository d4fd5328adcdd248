use sanitize_filename::Options;
use sanitize_filename::OptionsForCheck;
use sanitize_filename::is_sanitized;
use sanitize_filename::is_sanitized_with_options;
use sanitize_filename::sanitize;
use sanitize_filename::sanitize_with_options;

fn names() -> Vec<&'static str> {
    vec![
        "the quick brown fox jumped over the lazy dog",
        "résumé",
        "hello\u{0000}world",
        "hello\nworld",
        "semi;colon.js",
        ";leading-semi.js",
        "slash\\.js",
        "slash/.js",
        "col:on.js",
        "star*.js",
        "question?.js",
        "quote\".js",
        "singlequote'.js",
        "brack<e>ts.js",
        "p|pes.js",
        "plus+.js",
        "'five and six<seven'.js",
        " space at front",
        "space at end ",
        ".period",
        "period.",
        "relative/path/to/some/dir",
        "/abs/path/to/some/dir",
        "~/.\u{0000}notssh/authorized_keys",
        "",
        "h?w",
        "h/w",
        "h*w",
        ".",
        "..",
        "./",
        "../",
        "/..",
        "/../",
        "*.|.",
        "./",
        "./foobar",
        "../foobar",
        "../../foobar",
        "./././foobar",
        "|*.what",
        "LPT9.asdf",
        "foobar...",
    ]
}

fn names_cleaned() -> Vec<&'static str> {
    vec![
        "the quick brown fox jumped over the lazy dog",
        "résumé",
        "helloworld",
        "helloworld",
        "semi;colon.js",
        ";leading-semi.js",
        "slash.js",
        "slash.js",
        "colon.js",
        "star.js",
        "question.js",
        "quote.js",
        "singlequote'.js",
        "brackets.js",
        "ppes.js",
        "plus+.js",
        "'five and sixseven'.js",
        " space at front",
        "space at end",
        ".period",
        "period",
        "relativepathtosomedir",
        "abspathtosomedir",
        "~.notsshauthorized_keys",
        "",
        "hw",
        "hw",
        "hw",
        "",
        "",
        "",
        "",
        "",
        "",
        "",
        "",
        ".foobar",
        "..foobar",
        "....foobar",
        "...foobar",
        ".what",
        "",
        "foobar",
    ]
}

fn names_is_sanitized() -> Vec<bool> {
    vec![
        true, true, false, false, true, true, false, false, false, false, false, false, true,
        false, false, true, false, true, false, true, false, false, false, false, true, false,
        false, false, false, false, false, false, false, false, false, false, false, false, false,
        false, false, false, false,
    ]
}

#[test]
fn it_works() {
    // sanitize
    let options = Options {
        windows: true,
        truncate: true,
        replacement: "",
    };

    let names = names();
    let names_cleaned = names_cleaned();
    for (idx, &name) in names.iter().enumerate() {
        assert_eq!(
            sanitize_with_options(name, options.clone()),
            names_cleaned[idx],
            "Failed at index {}: '{}' -> expected '{}', got '{}'",
            idx,
            name,
            names_cleaned[idx],
            sanitize_with_options(name, options.clone())
        );
    }

    let long = std::iter::repeat('a').take(300).collect::<String>();
    let shorter = std::iter::repeat('a').take(255).collect::<String>();
    assert_eq!(
        sanitize_with_options(long.as_str(), options.clone()),
        shorter
    );

    // is_sanitized
    let options = OptionsForCheck {
        windows: true,
        truncate: true,
    };

    let names_is_sanitized = names_is_sanitized();
    for (idx, name) in names.iter().enumerate() {
        assert_eq!(
            is_sanitized_with_options(name, options.clone()),
            names_is_sanitized[idx],
            "Failed at index {}: '{}' -> expected {}, got {}",
            idx,
            name,
            names_is_sanitized[idx],
            is_sanitized_with_options(name, options.clone())
        );
    }

    let long = std::iter::repeat('a').take(300).collect::<String>();
    assert_eq!(is_sanitized_with_options(long.as_str(), options.clone()), false);
}

#[test]
fn scenarios_windows_truncate_empty_replacement() {
    let options = Options {
        windows: true,
        truncate: true,
        replacement: "",
    };
    assert_eq!(sanitize_with_options("hello\u{0000}world", options), "helloworld");
    assert_eq!(sanitize_with_options("col:on.js", options), "colon.js");
    assert_eq!(sanitize_with_options(".", options), "");
    assert_eq!(sanitize_with_options("..", options), "");
    assert_eq!(sanitize_with_options("...", options), "");
    assert_eq!(sanitize_with_options("LPT9.asdf", options), "");
    assert_eq!(sanitize_with_options("foobar...", options), "foobar");
    assert_eq!(sanitize_with_options("period.", options), "period");

    let long = std::iter::repeat('x').take(300).collect::<String>();
    let cut = sanitize_with_options(long.as_str(), options);
    assert_eq!(cut.len(), 255);
    assert_eq!(cut.chars().count(), 255);
}

#[test]
fn period_kept_without_windows() {
    let options = Options {
        windows: false,
        truncate: true,
        replacement: "",
    };
    assert_eq!(sanitize_with_options("period.", options), "period.");
    assert_eq!(sanitize("period."), "period.");
}

#[test]
fn default_check_options() {
    assert_eq!(is_sanitized("h?w"), false);
    assert_eq!(is_sanitized("hw"), true);
    assert_eq!(is_sanitized("period."), true);
    assert_eq!(is_sanitized(""), true);
}

#[test]
fn empty_replacement_deletes() {
    let options = Options {
        windows: false,
        truncate: true,
        replacement: "",
    };
    assert_eq!(sanitize_with_options("h?w", options), "hw");
    assert_eq!(sanitize_with_options("a/b\\c", options), "abc");
    assert_eq!(sanitize_with_options("\u{0001}\u{009f}", options), "");
}

#[test]
fn visible_replacement_marker() {
    let options = Options {
        windows: true,
        truncate: true,
        replacement: "_",
    };
    // one marker per offending character
    assert_eq!(sanitize_with_options("h?w", options), "h_w");
    assert_eq!(sanitize_with_options("a<>b", options), "a__b");
    // an all-dot name collapses to a single marker
    assert_eq!(sanitize_with_options("...", options), "_");
    // a reserved device name collapses to a single marker
    assert_eq!(sanitize_with_options("con.txt", options), "_");
    assert_eq!(sanitize_with_options("NUL", options), "_");
    // a trimmed trailing run is replaced by a single marker
    assert_eq!(sanitize_with_options("foobar. . .", options), "foobar_");
}

#[test]
fn trailing_trim_reveals_reserved_name() {
    let empty = Options {
        windows: true,
        truncate: true,
        replacement: "",
    };
    // "CON." trims to "CON", which the second reserved-name check catches
    assert_eq!(sanitize_with_options("CON.", empty), "");
    let marker = Options {
        windows: true,
        truncate: true,
        replacement: "_",
    };
    // with a marker the trim appends it, so the stem is no longer reserved
    assert_eq!(sanitize_with_options("CON.", marker), "CON_");
}

#[test]
fn reserved_names_windows() {
    let options = Options {
        windows: true,
        truncate: true,
        replacement: "",
    };
    assert_eq!(sanitize_with_options("CON", options), "");
    assert_eq!(sanitize_with_options("con", options), "");
    assert_eq!(sanitize_with_options("cOn.tar.gz", options), "");
    assert_eq!(sanitize_with_options("aux", options), "");
    assert_eq!(sanitize_with_options("prn", options), "");
    assert_eq!(sanitize_with_options("nul", options), "");
    assert_eq!(sanitize_with_options("com0", options), "");
    assert_eq!(sanitize_with_options("com9", options), "");
    assert_eq!(sanitize_with_options("lpt0.anything", options), "");
    assert_eq!(sanitize_with_options("LPT9.asdf", options), "");
    // near misses are kept
    assert_eq!(sanitize_with_options("console", options), "console");
    assert_eq!(sanitize_with_options("com", options), "com");
    assert_eq!(sanitize_with_options("coma", options), "coma");
    assert_eq!(sanitize_with_options("lpt10", options), "lpt10");
    // without Windows rules, reserved names are kept
    let off = Options {
        windows: false,
        truncate: true,
        replacement: "",
    };
    assert_eq!(sanitize_with_options("con.txt", off), "con.txt");
}

#[test]
fn truncation_respects_code_points() {
    let options = Options {
        windows: false,
        truncate: true,
        replacement: "",
    };
    // 'é' takes two bytes; 200 of them exceed the 255-byte cap, and the cut
    // must land between characters: 127 chars * 2 bytes = 254 bytes
    let long = std::iter::repeat('é').take(200).collect::<String>();
    let cut = sanitize_with_options(long.as_str(), options);
    assert_eq!(cut.chars().count(), 127);
    assert_eq!(cut.len(), 254);
    assert!(cut.chars().all(|c| c == 'é'));

    let no_cap = Options {
        windows: false,
        truncate: false,
        replacement: "",
    };
    let kept = sanitize_with_options(long.as_str(), no_cap);
    assert_eq!(kept.chars().count(), 200);
}

#[test]
fn validator_agrees_with_sanitizer() {
    let o = Options {
        windows: true,
        truncate: true,
        replacement: "",
    };
    let c = OptionsForCheck {
        windows: true,
        truncate: true,
    };
    for name in names() {
        let fixed = sanitize_with_options(name, o) == name;
        assert_eq!(
            is_sanitized_with_options(name, c),
            fixed,
            "validator and sanitizer disagree on '{}'",
            name
        );
    }
}

#[test]
fn sanitize_twice_is_stable_on_corpus() {
    let o = Options {
        windows: true,
        truncate: true,
        replacement: "",
    };
    for name in names() {
        let once = sanitize_with_options(name, o);
        let twice = sanitize_with_options(once.as_str(), o);
        assert_eq!(twice, once, "not stable on '{}'", name);
    }
}

#[test]
fn truncation_can_break_stability() {
    // truncation may cut a long name down to an all-dot prefix, which only
    // the next call collapses; this is the documented idempotence caveat
    let mut long = std::iter::repeat('.').take(256).collect::<String>();
    long.push('a');
    let o = Options {
        windows: false,
        truncate: true,
        replacement: "",
    };
    let once = sanitize_with_options(long.as_str(), o);
    assert_eq!(once, std::iter::repeat('.').take(255).collect::<String>());
    let twice = sanitize_with_options(once.as_str(), o);
    assert_eq!(twice, "");
}

#[test]
fn length_check_uses_bytes() {
    let c = OptionsForCheck {
        windows: false,
        truncate: true,
    };
    // 128 two-byte characters take 256 bytes: over the cap
    let long = std::iter::repeat('é').take(128).collect::<String>();
    assert_eq!(is_sanitized_with_options(long.as_str(), c), false);
    let shorter = std::iter::repeat('é').take(127).collect::<String>();
    assert_eq!(is_sanitized_with_options(shorter.as_str(), c), true);
    let no_cap = OptionsForCheck {
        windows: false,
        truncate: false,
    };
    assert_eq!(is_sanitized_with_options(long.as_str(), no_cap), true);
}
