use data_station::text::{
    contains_exec, is_white_space_exec, join_strings, push_decimal, split_str, trim_start_exec,
};

#[test]
fn white_space_matches_std() {
    for c in (0u32..0x11000).filter_map(char::from_u32) {
        assert_eq!(is_white_space_exec(c), c.is_whitespace(), "{:?}", c);
    }
}

#[test]
fn split_matches_std() {
    let samples = ["", "a", "a\nb", "\n", "a\n\nb\n", "x--y---z----w"];
    for s in samples {
        for sep in ["\n", "---", "-", "ab"] {
            let expected: Vec<String> = s.split(sep).map(|p| p.to_string()).collect();
            assert_eq!(split_str(s, sep), expected, "{:?} {:?}", s, sep);
        }
    }
}

#[test]
fn join_after_split_gives_back_the_text() {
    for s in ["", "a---b", "------", "x---", "héllo\n--- wörld"] {
        let pieces = split_str(s, "---");
        assert_eq!(join_strings(&pieces, "---"), s);
    }
}

#[test]
fn trim_start_matches_std() {
    for s in ["", "   ", " \t\na b ", "\u{3000}x", "x "] {
        assert_eq!(trim_start_exec(s), s.trim_start());
    }
}

#[test]
fn contains_finds_patterns() {
    let h: Vec<char> = "please run sudo rm".chars().collect();
    let p: Vec<char> = "sudo".chars().collect();
    assert!(contains_exec(&h, &p));
    let q: Vec<char> = "sudoers".chars().collect();
    assert!(!contains_exec(&h, &q));
    assert!(contains_exec(&h, &[]));
}

#[test]
fn decimal_numerals() {
    for n in [0usize, 7, 10, 42, 1000, usize::MAX] {
        let mut s = String::from("Step : ");
        push_decimal(&mut s, n);
        assert_eq!(s, format!("Step : {}", n));
    }
}
