use air::keycode::{key_of, key_to_string, LogicalKey, Platform};
use air::keys::{uppercase, Keys};
use air::Failure;

fn unsupported(r: Result<Keys, Failure>) -> String {
    match r {
        Err(Failure::UnsupportedKey(t)) => t,
        other => panic!("expected UnsupportedKey, got {:?}", other),
    }
}

#[test]
fn parse_ctrl_shift_a() {
    let k = Keys::from_str(Platform::Unicode, "CTRL+SHIFT+A").unwrap();
    assert_eq!(k.0, vec![LogicalKey::Control, LogicalKey::Shift, LogicalKey::Unicode('A')]);
    let k = Keys::from_str(Platform::Windows, "CTRL+SHIFT+A").unwrap();
    assert_eq!(k.0, vec![LogicalKey::Control, LogicalKey::Shift, LogicalKey::Other(0x41)]);
    let k = Keys::from_str(Platform::MacOs, "CTRL+SHIFT+A").unwrap();
    assert_eq!(k.0, vec![LogicalKey::Control, LogicalKey::Shift, LogicalKey::Other(0)]);
}

#[test]
fn parse_meta_c() {
    let k = Keys::from_str(Platform::Unicode, "META+C").unwrap();
    assert_eq!(k.0, vec![LogicalKey::Meta, LogicalKey::Unicode('C')]);
    let k = Keys::from_str(Platform::Windows, "META+C").unwrap();
    assert_eq!(k.0, vec![LogicalKey::Meta, LogicalKey::Other(0x43)]);
    let k = Keys::from_str(Platform::MacOs, "META+C").unwrap();
    assert_eq!(k.0, vec![LogicalKey::Meta, LogicalKey::Other(8)]);
}

#[test]
fn parse_foo_fails() {
    assert_eq!(unsupported(Keys::from_str(Platform::Unicode, "FOO")), "FOO");
    assert_eq!(unsupported(Keys::from_str(Platform::Windows, "FOO")), "FOO");
}

#[test]
fn parse_is_case_insensitive_and_knows_aliases() {
    let k = Keys::from_str(Platform::Windows, "control+alt+command+super+shift+z").unwrap();
    assert_eq!(
        k.0,
        vec![
            LogicalKey::Control,
            LogicalKey::Alt,
            LogicalKey::Meta,
            LogicalKey::Meta,
            LogicalKey::Shift,
            LogicalKey::Other(0x5A)
        ]
    );
}

#[test]
fn parse_reports_first_bad_token_upper_cased() {
    assert_eq!(unsupported(Keys::from_str(Platform::Windows, "ctrl+foo+bar")), "FOO");
}

#[test]
fn parse_empty_and_dangling_plus_fail() {
    assert_eq!(unsupported(Keys::from_str(Platform::Unicode, "")), "");
    assert_eq!(unsupported(Keys::from_str(Platform::Unicode, "CTRL+")), "");
}

#[test]
fn parse_char_outside_table_fails() {
    assert_eq!(unsupported(Keys::from_str(Platform::Windows, "CTRL+!")), "!");
    assert_eq!(unsupported(Keys::from_str(Platform::MacOs, "ALT+ ")), " ");
    let k = Keys::from_str(Platform::Unicode, "ALT+!").unwrap();
    assert_eq!(k.0, vec![LogicalKey::Alt, LogicalKey::Unicode('!')]);
}

#[test]
fn format_writes_names_and_upper_case() {
    let k = Keys(vec![LogicalKey::Control, LogicalKey::Shift, LogicalKey::Other(0x41)]);
    assert_eq!(k.to_string(Platform::Windows), "CTRL+SHIFT+A");
    let k = Keys(vec![LogicalKey::Meta, LogicalKey::Alt, LogicalKey::Unicode('c')]);
    assert_eq!(k.to_string(Platform::Unicode), "META+ALT+C");
    let k = Keys(vec![LogicalKey::Meta, LogicalKey::Other(8)]);
    assert_eq!(k.to_string(Platform::MacOs), "META+C");
}

#[test]
fn format_marks_unknown_keys() {
    let k = Keys(vec![LogicalKey::Control, LogicalKey::Other(0x07)]);
    assert_eq!(k.to_string(Platform::Windows), "CTRL+not set");
    assert_eq!(Keys(vec![]).to_string(Platform::Windows), "");
}

#[test]
fn format_then_parse_round_trips() {
    for p in [Platform::Unicode, Platform::Windows, Platform::MacOs] {
        for s in ["ctrl+shift+a", "Meta+C", "super+alt+.", "ALT+5", "control+/"] {
            let k = Keys::from_str(p, s).unwrap();
            let again = Keys::from_str(p, &k.to_string(p)).unwrap();
            assert_eq!(k.0, again.0);
        }
    }
    let k = Keys::from_str(Platform::Windows, "control+command+q").unwrap();
    assert_eq!(k.to_string(Platform::Windows), "CTRL+META+Q");
}

#[test]
fn uppercase_handles_ascii_and_unicode() {
    assert_eq!(uppercase("ctrl+a"), "CTRL+A");
    assert_eq!(uppercase("é"), "É");
    assert_eq!(uppercase("straße"), "STRASSE");
}

#[test]
fn key_of_each_platform() {
    assert_eq!(key_of(Platform::Unicode, 'x').unwrap(), LogicalKey::Unicode('x'));
    assert_eq!(key_of(Platform::Windows, '0').unwrap(), LogicalKey::Other(0x30));
    assert_eq!(key_of(Platform::Windows, '`').unwrap(), LogicalKey::Other(0xC0));
    assert_eq!(key_of(Platform::MacOs, 'B').unwrap(), LogicalKey::Other(11));
    assert_eq!(key_of(Platform::MacOs, '`').unwrap(), LogicalKey::Other(50));
    match key_of(Platform::Windows, 'a') {
        Err(Failure::UnsupportedKey(t)) => assert_eq!(t, "a"),
        other => panic!("unexpected {:?}", other),
    }
}

#[test]
fn key_to_string_errors_name_the_code() {
    assert_eq!(key_to_string(Platform::Windows, &LogicalKey::Other(0xDE)).unwrap(), "'");
    assert_eq!(key_to_string(Platform::MacOs, &LogicalKey::Other(47)).unwrap(), ".");
    assert_eq!(key_to_string(Platform::Unicode, &LogicalKey::Unicode('é')).unwrap(), "é");
    for (p, k, text) in [
        (Platform::Windows, LogicalKey::Other(0xFF), "ff"),
        (Platform::MacOs, LogicalKey::Other(10), "a"),
        (Platform::MacOs, LogicalKey::Other(0x1234), "1234"),
        (Platform::Unicode, LogicalKey::Other(16), "Other(16)"),
        (Platform::Unicode, LogicalKey::Shift, "Shift"),
        (Platform::Windows, LogicalKey::Control, "Control"),
        (Platform::MacOs, LogicalKey::Meta, "Meta"),
        (Platform::Windows, LogicalKey::Unicode('q'), "Unicode('q')"),
        (Platform::MacOs, LogicalKey::Unicode('\''), "Unicode('\\'')"),
    ] {
        match key_to_string(p, &k) {
            Err(Failure::UnsupportedKey(t)) => assert_eq!(t, text),
            other => panic!("unexpected {:?}", other),
        }
    }
}

#[test]
fn tables_round_trip() {
    let chars = "0123456789ABCDEFGHIJKLMNOPQRSTUVWXYZ-=[]\\;',./`";
    for c in chars.chars() {
        let k = key_of(Platform::Windows, c).unwrap();
        assert_eq!(key_to_string(Platform::Windows, &k).unwrap(), c.to_string());
        if let Ok(k) = key_of(Platform::MacOs, c) {
            assert_eq!(key_to_string(Platform::MacOs, &k).unwrap(), c.to_string());
        }
    }
    for c in ['a', '!', ' ', '+', 'é'] {
        assert!(key_of(Platform::Windows, c).is_err());
        assert!(key_of(Platform::MacOs, c).is_err());
    }
    for v in 0u32..0x200 {
        if let Ok(s) = key_to_string(Platform::Windows, &LogicalKey::Other(v)) {
            let c = s.chars().next().unwrap();
            assert_eq!(key_of(Platform::Windows, c).unwrap(), LogicalKey::Other(v));
        }
    }
}
