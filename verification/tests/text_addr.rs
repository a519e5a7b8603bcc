use bscp_userserver::addr::{domain_of, full_id, local_part, qualify, rsplit_once};
use bscp_userserver::status::{presence, status_from_type};
use bscp_userserver::text::{
    chars_of, parse_i64, push_signed, split_char, split_words, str_lt, string_from_chars, to_hex,
};
use bscp_userserver::util::{secure_filename, upload_name_ok};

fn word_strings(ws: Vec<Vec<char>>) -> Vec<String> {
    ws.iter().map(|w| w.iter().collect()).collect()
}

#[test]
fn chars_round_trip() {
    let cs = chars_of("héllo");
    assert_eq!(cs, vec!['h', 'é', 'l', 'l', 'o']);
    assert_eq!(string_from_chars(&cs), "héllo");
}

#[test]
fn split_on_separator_keeps_empty_pieces() {
    let parts = split_char(&chars_of("a||b|"), '|');
    assert_eq!(word_strings(parts), vec!["a", "", "b", ""]);
}

#[test]
fn whitespace_words() {
    assert_eq!(word_strings(split_words("  openid\tprofile \n email ")), vec!["openid", "profile", "email"]);
    assert!(split_words("   ").is_empty());
}

#[test]
fn parse_signed_integers() {
    assert_eq!(parse_i64(&chars_of("1700000000")), Some(1700000000));
    assert_eq!(parse_i64(&chars_of("-42")), Some(-42));
    assert_eq!(parse_i64(&chars_of("+7")), Some(7));
    assert_eq!(parse_i64(&chars_of("9223372036854775807")), Some(i64::MAX));
    assert_eq!(parse_i64(&chars_of("-9223372036854775808")), Some(i64::MIN));
    assert_eq!(parse_i64(&chars_of("9223372036854775808")), None);
    assert_eq!(parse_i64(&chars_of("")), None);
    assert_eq!(parse_i64(&chars_of("-")), None);
    assert_eq!(parse_i64(&chars_of("12a")), None);
}

#[test]
fn decimal_rendering() {
    let mut s = String::from("n=");
    push_signed(&mut s, -305);
    assert_eq!(s, "n=-305");
    let mut t = String::new();
    push_signed(&mut t, i64::MIN);
    assert_eq!(t, "-9223372036854775808");
}

#[test]
fn hex_rendering() {
    assert_eq!(to_hex(&[0x00, 0x0f, 0xab, 0xff]), "000fabff");
    assert_eq!(to_hex(&[]), "");
}

#[test]
fn byte_order_of_strings() {
    assert!(str_lt("a.example", "b.example"));
    assert!(!str_lt("b.example", "a.example"));
    assert!(str_lt("abc", "abcd"));
    assert!(!str_lt("same", "same"));
    assert!(str_lt("Zeta", "alpha"));
}

#[test]
fn address_parts() {
    assert_eq!(domain_of("alice@one.example"), Some("one.example".to_string()));
    assert_eq!(domain_of("a@b@c.example"), Some("c.example".to_string()));
    assert_eq!(domain_of("alice"), None);
    assert_eq!(local_part("alice@one.example"), "alice");
    assert_eq!(local_part("a@b@c"), "a");
    assert_eq!(local_part("alice"), "alice");
    assert_eq!(full_id("alice", "one.example"), "alice@one.example");
    assert_eq!(qualify("bob", "one.example"), "bob@one.example");
    assert_eq!(qualify("bob@two.example", "one.example"), "bob@two.example");
    assert_eq!(rsplit_once("a/b/c", '/'), Some(("a/b".to_string(), "c".to_string())));
    assert_eq!(rsplit_once("abc", '/'), None);
}

#[test]
fn secure_filename_cases() {
    assert_eq!(secure_filename("../../etc/passwd"), "etc_passwd");
    assert_eq!(secure_filename("my cat (1).png"), "my_cat_1_.png");
    assert_eq!(secure_filename("___"), "file");
    assert_eq!(secure_filename(""), "file");
    assert_eq!(secure_filename("ok-name.txt"), "ok-name.txt");
    assert_eq!(secure_filename("a\\b"), "a_b");
    assert_eq!(secure_filename("ünï.txt"), "n_.txt");
}

#[test]
fn secure_filename_output_is_safe() {
    for name in ["..", "/", "a//b", "__x__", ".hidden", "tail.", "日本語.png", "x y z"] {
        let out = secure_filename(name);
        assert!(!out.is_empty());
        assert!(out.chars().all(|c| c.is_ascii_alphanumeric() || c == '.' || c == '-' || c == '_'));
        assert!(!out.contains("__"));
        assert!(!out.starts_with('_') && !out.starts_with('.'));
        assert!(!out.ends_with('_') && !out.ends_with('.'));
    }
}

#[test]
fn secure_filename_twice_is_once() {
    for name in ["..", "/", "a//b", "__x__", ".hidden", "tail.", "日本語.png", "x y z", "my cat (1).png", ""] {
        let once = secure_filename(name);
        assert_eq!(secure_filename(&once), once);
    }
}

#[test]
fn served_upload_names() {
    assert!(upload_name_ok("abc_photo.png"));
    assert!(!upload_name_ok("../secret"));
    assert!(!upload_name_ok("a/b"));
    assert!(!upload_name_ok("a\\b"));
    assert!(!upload_name_ok("a..b"));
}

#[test]
fn status_words() {
    assert_eq!(status_from_type(0), "online");
    assert_eq!(status_from_type(1), "offline");
    assert_eq!(status_from_type(2), "away");
    assert_eq!(status_from_type(3), "dnd");
    assert_eq!(status_from_type(9), "offline");
}

#[test]
fn presence_rules() {
    assert_eq!(presence(false, 0, true, true), "offline");
    assert_eq!(presence(true, 2, true, true), "away");
    assert_eq!(presence(true, 3, false, false), "dnd");
    assert_eq!(presence(true, 1, true, true), "offline");
    assert_eq!(presence(true, 0, true, true), "online");
    assert_eq!(presence(true, 0, false, true), "away");
    assert_eq!(presence(true, 0, false, false), "offline");
}
