use bscp_userserver::crypto::{cookie_key_material, hex16, hmac_hex, kid_for_modulus, md5_hex, sha256_hex};
use bscp_userserver::media::{cache_key, file_content_type, guess_mime, metadata_path, METADATA_FILE};

#[test]
fn sha256_known_vector() {
    assert_eq!(sha256_hex("abc"), "ba7816bf8f01cfea414140de5dae2223b00361a396177a9cb410ff61f20015ad");
}

#[test]
fn md5_known_vector() {
    assert_eq!(md5_hex("abc"), "900150983cd24fb0d6963f7d28e17f72");
}

#[test]
fn hmac_known_vector() {
    assert_eq!(
        hmac_hex("Jefe", b"what do ya want for nothing?"),
        "5bdcc146bf60754e6a042426089575c75a003f089d2739839dec58b964ec3843"
    );
}

#[test]
fn hex16_takes_eight_bytes() {
    assert_eq!(hex16(&[1, 2, 3, 4, 5, 6, 7, 8, 9, 10]), "0102030405060708");
    assert_eq!(hex16(&[0xab]), "ab");
}

#[test]
fn key_id_from_modulus() {
    assert_eq!(kid_for_modulus(&[1, 2, 3, 4]), "9f64a747e1b97f13");
}

#[test]
fn cookie_key_is_sha512_of_secret() {
    let m = cookie_key_material("secret");
    assert_eq!(m.len(), 64);
    let head: String = m[..16].iter().map(|b| format!("{b:02x}")).collect();
    assert_eq!(head, "bd2b1aaf7ef4f09be9f52ce2d8d59967");
}

#[test]
fn derived_cookie_key_does_not_panic() {
    let _k = bscp_userserver::crypto::derive_cookie_key("any secret");
}

#[test]
fn derived_cookie_key_is_the_key_of_the_secret_digest() {
    let k = bscp_userserver::crypto::derive_cookie_key("any secret");
    let material = cookie_key_material("any secret");
    assert!(k == axum_extra::extract::cookie::Key::from(&material));
    assert_eq!(k.master(), material.as_slice());
    assert!(k != bscp_userserver::crypto::derive_cookie_key("another secret"));
}

#[test]
fn metadata_file_location() {
    assert_eq!(metadata_path("/var/cache"), format!("/var/cache/{METADATA_FILE}"));
    assert_eq!(metadata_path("/var/cache/"), "/var/cache/.cache_metadata.json");
    assert_eq!(metadata_path(""), ".cache_metadata.json");
}

#[test]
fn proxied_content_type() {
    assert_eq!(guess_mime("http://x.example/cat.png?size=2#top"), "image/png");
    assert_eq!(guess_mime("http://x.example/clip.webm"), "video/webm");
    assert_eq!(guess_mime("http://x.example/noext"), "image/jpeg");
    assert_eq!(guess_mime("http://x.example/a?b.png"), "image/jpeg");
}

#[test]
fn cache_file_name() {
    assert_eq!(cache_key("http://example.com/cat.png"), "eaec1c76644d97d976389c86842dc29a");
}

#[test]
fn served_file_type() {
    assert_eq!(file_content_type("photo.JPG"), "image/jpeg");
    assert_eq!(file_content_type("notes"), "application/octet-stream");
}
