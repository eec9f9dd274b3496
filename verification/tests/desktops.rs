use ddagrab_proxy::desktop::{attach_input_desktop, is_secure, sanitize, DesktopWatch};

#[test]
fn names_are_made_fit_for_files() {
    assert_eq!(sanitize("Default"), "Default");
    assert_eq!(sanitize("Screen-saver"), "Screen-saver");
    assert_eq!(sanitize("a b/c\\d.e_f"), "a_b_c_d_e_f");
    assert_eq!(sanitize("デスクトップ1"), "______1");
    assert_eq!(sanitize(""), "");
}

#[test]
fn sanitizing_twice_changes_nothing() {
    for name in ["Default", "un known", "é-1"] {
        let once = sanitize(name);
        assert_eq!(sanitize(&once), once);
        assert!(once.chars().all(|c| c.is_ascii_alphanumeric() || c == '-' || c == '_'));
    }
}

#[test]
fn secure_desktops() {
    for name in ["Winlogon", "winlogon", "WINLOGON", "Screen-saver", "screen-SAVER"] {
        assert!(is_secure(name), "{name}");
    }
    for name in ["Default", "", "Winlogon ", "Screensaver"] {
        assert!(!is_secure(name), "{name}");
    }
}

#[test]
fn attaching_needs_both_steps() {
    assert_eq!(attach_input_desktop(Ok("Default".to_string()), Ok(())), Ok("Default".to_string()));
    assert_eq!(attach_input_desktop(Err(-5), Ok(())), Err(-5));
    assert_eq!(attach_input_desktop(Ok("Default".to_string()), Err(-6)), Err(-6));
}

#[test]
fn changes_are_reported_once() {
    let mut watch = DesktopWatch { last: "Default".to_string() };
    assert!(!watch.look(Some("Default".to_string())));
    assert!(watch.look(Some("Winlogon".to_string())));
    assert_eq!(watch.last, "Winlogon");
    assert!(!watch.look(Some("Winlogon".to_string())));
    assert!(!watch.look(None));
    assert_eq!(watch.last, "Winlogon");
    assert!(watch.look(Some("Default".to_string())));
}
