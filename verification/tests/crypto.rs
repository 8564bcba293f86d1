use unihook::crypto::{compute_hmac_sha256, constant_time_eq, verify_signature};

#[test]
fn signature_of_a_known_message() {
    assert_eq!(
        compute_hmac_sha256("key", b"The quick brown fox jumps over the lazy dog"),
        "sha256=f7bc83f430538424b13298e6aa6fb143ef4d59a14946175997479dbc2d1a3cd8"
    );
    assert_eq!(
        compute_hmac_sha256("Jefe", b"what do ya want for nothing?"),
        "sha256=5bdcc146bf60754e6a042426089575c75a003f089d2739839dec58b964ec3843"
    );
}

#[test]
fn signature_depends_on_secret_and_body() {
    let a = compute_hmac_sha256("secret", b"body");
    assert_eq!(a.len(), 7 + 64);
    assert_ne!(a, compute_hmac_sha256("secret", b"body "));
    assert_ne!(a, compute_hmac_sha256("Secret", b"body"));
    assert_eq!(a, compute_hmac_sha256("secret", b"body"));
}

#[test]
fn verification_accepts_only_the_exact_signature() {
    let body = b"Hello, World!";
    let good = "sha256=757107ea0eb2509fc211221cce984b8a37570b6d7586c22c46f4379c8b043e17";
    assert!(verify_signature("It's a Secret to Everybody", body, good));
    assert!(!verify_signature("wrong-secret", body, good));
    assert!(!verify_signature("It's a Secret to Everybody", b"Hello, World", good));
    assert!(!verify_signature("It's a Secret to Everybody", body, "757107ea0eb2509fc211221cce984b8a37570b6d7586c22c46f4379c8b043e17"));
    assert!(!verify_signature("It's a Secret to Everybody", body, "sha256=757107EA0EB2509FC211221CCE984B8A37570B6D7586C22C46F4379C8B043E17"));
    assert!(!verify_signature("It's a Secret to Everybody", body, ""));
}

#[test]
fn constant_time_comparison_is_equality() {
    assert!(constant_time_eq(b"", b""));
    assert!(constant_time_eq(b"abc", b"abc"));
    assert!(!constant_time_eq(b"abc", b"abd"));
    assert!(!constant_time_eq(b"abc", b"bbc"));
    assert!(!constant_time_eq(b"abc", b"ab"));
    assert!(!constant_time_eq(&[0x00, 0xff], &[0xff, 0x00]));
}
