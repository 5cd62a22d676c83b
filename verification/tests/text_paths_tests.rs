use collapse::paths::{extension_of_name, file_name, join_path, path_extension_of};
use collapse::text::{format_u64, parse_unsigned, str_equals};

#[test]
fn parse_matches_std() {
    let cases = ["0", "5", "+7", "007", "4294967295", "4294967296", "", "+", "-1", "1 ", "12a", "99999999999999999999"];
    for c in cases {
        assert_eq!(parse_unsigned(c, u32::MAX as u64), c.parse::<u32>().ok().map(|v| v as u64), "{c}");
        assert_eq!(parse_unsigned(c, u16::MAX as u64), c.parse::<u16>().ok().map(|v| v as u64), "{c}");
    }
}

#[test]
fn format_matches_display() {
    for n in [0u64, 7, 10, 99, 100, 12345, u32::MAX as u64, u64::MAX] {
        assert_eq!(format_u64(n), n.to_string());
        if n <= u32::MAX as u64 {
            assert_eq!(parse_unsigned(&format_u64(n), u32::MAX as u64), Some(n));
        }
    }
}

#[test]
fn equality_of_strings() {
    assert!(str_equals("abc", "abc"));
    assert!(!str_equals("abc", "abd"));
    assert!(!str_equals("ab", "abc"));
    assert!(str_equals("", ""));
}

#[test]
fn file_names_match_std() {
    let cases = [
        "foo.txt", "/a/b/c.tar.gz", "dir/", "foo.txt/.", "foo.txt/.//", "a/..", "..", ".", "/", "",
        ".hidden", "a//b", "./x", "x/./y", "名前.txt",
    ];
    for c in cases {
        let expected = std::path::Path::new(c).file_name().map(|s| s.to_str().unwrap().to_string());
        assert_eq!(file_name(c), expected, "{c}");
        let ext = std::path::Path::new(c).extension().map(|s| s.to_str().unwrap().to_string());
        assert_eq!(path_extension_of(c), ext, "{c}");
    }
}

#[test]
fn extensions_of_names() {
    assert_eq!(extension_of_name("a.b.c"), Some("c".to_string()));
    assert_eq!(extension_of_name(".bashrc"), None);
    assert_eq!(extension_of_name("noext"), None);
    assert_eq!(extension_of_name("trailing."), Some("".to_string()));
}

#[test]
fn join_matches_std() {
    let cases = [("storage/input", "x.txt"), ("storage/input/", "x.txt"), ("", "x"), ("/a", "/b")];
    for (d, n) in cases {
        let expected = std::path::Path::new(d).join(n).to_str().unwrap().to_string();
        assert_eq!(join_path(d, n), expected, "{d} {n}");
    }
}
