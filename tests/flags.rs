use delph_core::flags::parse_flags;

#[test]
fn single_flags_have_native_values() {
    assert_eq!(parse_flags("O_RDONLY"), libc::O_RDONLY);
    assert_eq!(parse_flags("O_WRONLY"), libc::O_WRONLY);
    assert_eq!(parse_flags("O_RDWR"), libc::O_RDWR);
    assert_eq!(parse_flags("O_CREAT"), libc::O_CREAT);
    assert_eq!(parse_flags("O_EXCL"), libc::O_EXCL);
    assert_eq!(parse_flags("O_TRUNC"), libc::O_TRUNC);
    assert_eq!(parse_flags("O_APPEND"), libc::O_APPEND);
    assert_eq!(parse_flags("O_DIRECTORY"), libc::O_DIRECTORY);
    assert_eq!(parse_flags("O_CLOEXEC"), libc::O_CLOEXEC);
    assert_eq!(parse_flags("O_NOCTTY"), libc::O_NOCTTY);
    assert_eq!(parse_flags("O_NONBLOCK"), libc::O_NONBLOCK);
    assert_eq!(parse_flags("O_ASYNC"), libc::O_ASYNC);
    assert_eq!(parse_flags("O_DIRECT"), libc::O_DIRECT);
    assert_eq!(parse_flags("O_LARGEFILE"), libc::O_LARGEFILE);
}

#[test]
fn combined_flags_are_ored() {
    assert_eq!(parse_flags("O_WRONLY|O_CREAT"), 0o101);
    assert_eq!(parse_flags("O_RDWR|O_CREAT|O_TRUNC"), 0o1102);
    assert_eq!(parse_flags("O_WRONLY|O_APPEND"), libc::O_WRONLY | libc::O_APPEND);
}

#[test]
fn flag_order_does_not_matter() {
    assert_eq!(parse_flags("O_CREAT|O_WRONLY"), parse_flags("O_WRONLY|O_CREAT"));
    assert_eq!(
        parse_flags("O_EXCL|O_RDWR|O_CREAT"),
        parse_flags("O_CREAT|O_EXCL|O_RDWR")
    );
}

#[test]
fn tokens_are_trimmed() {
    assert_eq!(parse_flags(" O_WRONLY | O_CREAT "), 0o101);
    assert_eq!(parse_flags("\tO_APPEND\n"), libc::O_APPEND);
}

#[test]
fn unknown_tokens_contribute_nothing() {
    assert_eq!(parse_flags("O_BOGUS"), 0);
    assert_eq!(parse_flags("O_WRONLY|O_BOGUS"), libc::O_WRONLY);
    assert_eq!(parse_flags("o_creat"), 0);
    assert_eq!(parse_flags(""), 0);
    assert_eq!(parse_flags("|||"), 0);
}
