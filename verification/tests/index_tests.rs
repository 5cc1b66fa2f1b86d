use libdeps::index::{find_system_lib, parse_cache_line, parse_cache_output, Systemlib};

#[test]
fn directive_line_parsed() {
    let lib = parse_cache_line(
        "libssl.so.3 (libc6,x86-64) => /usr/lib/x86_64-linux-gnu/libssl.so.3",
    )
    .unwrap();
    assert_eq!(lib.filename, "libssl.so.3");
    assert_eq!(lib.abspath, "/usr/lib/x86_64-linux-gnu/libssl.so.3");
}

#[test]
fn indented_directive_line_parsed() {
    let lib = parse_cache_line("\tlibc.so.6 (libc6,x86-64) => /lib/x86_64-linux-gnu/libc.so.6")
        .unwrap();
    assert_eq!(lib.filename, "libc.so.6");
    assert_eq!(lib.abspath, "/lib/x86_64-linux-gnu/libc.so.6");
}

#[test]
fn line_without_separator_contributes_nothing() {
    assert!(parse_cache_line("1467 libs found in cache `/etc/ld.so.cache`").is_none());
    assert!(parse_cache_line("").is_none());
    assert!(parse_cache_line("   ").is_none());
}

#[test]
fn output_parsed_in_order_skipping_header() {
    let out = "1467 libs found in cache `/etc/ld.so.cache`\n\
               \tlibssl.so.3 (libc6,x86-64) => /usr/lib/x86_64-linux-gnu/libssl.so.3\n\
               \tlibc.so.6 (libc6,x86-64) => /lib/x86_64-linux-gnu/libc.so.6\n";
    let libs = parse_cache_output(out);
    assert_eq!(libs.len(), 2);
    assert_eq!(libs[0].filename, "libssl.so.3");
    assert_eq!(libs[0].abspath, "/usr/lib/x86_64-linux-gnu/libssl.so.3");
    assert_eq!(libs[1].filename, "libc.so.6");
    assert_eq!(libs[1].abspath, "/lib/x86_64-linux-gnu/libc.so.6");
}

#[test]
fn lookup_finds_entry_by_name() {
    let libs = vec![
        Systemlib {
            filename: String::from("libc.so.6"),
            abspath: String::from("/lib/x86_64-linux-gnu/libc.so.6"),
        },
        Systemlib {
            filename: String::from("libm.so.6"),
            abspath: String::from("/lib/x86_64-linux-gnu/libm.so.6"),
        },
    ];
    assert_eq!(
        find_system_lib(&libs, "libm.so.6"),
        Some(String::from("/lib/x86_64-linux-gnu/libm.so.6"))
    );
    assert_eq!(find_system_lib(&libs, "libfoo.so"), None);
}

#[test]
fn duplicate_name_resolves_to_last_entry() {
    let out = "header line\n\
               libc.so.6 (libc6,x86-64) => /lib/x86_64-linux-gnu/libc.so.6\n\
               libc.so.6 (libc6) => /lib32/libc.so.6\n";
    let libs = parse_cache_output(out);
    assert_eq!(libs.len(), 2);
    assert_eq!(
        find_system_lib(&libs, "libc.so.6"),
        Some(String::from("/lib32/libc.so.6"))
    );
}
