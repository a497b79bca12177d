use archvnde::i18n::{default_locale, get_locale, get_translations, set_locale, t, LocaleState};

#[test]
fn default_locale_from_lang() {
    assert_eq!(default_locale(Some("vi_VN.UTF-8")), "vi");
    assert_eq!(default_locale(Some("VI_VN")), "vi");
    assert_eq!(default_locale(Some("en_US.UTF-8")), "en");
    assert_eq!(default_locale(None), "en");
    assert_eq!(default_locale(Some("")), "en");
}

#[test]
fn set_locale_normalizes() {
    let mut st = LocaleState::new(None);
    assert_eq!(get_locale(&st), "en");
    set_locale(&mut st, "fr");
    assert_eq!(get_locale(&st), "vi");
    set_locale(&mut st, "en");
    assert_eq!(get_locale(&st), "en");
    set_locale(&mut st, "EN");
    assert_eq!(get_locale(&st), "vi");
}

#[test]
fn translate_known_and_unknown_keys() {
    let mut st = LocaleState::new(Some("en_GB"));
    assert_eq!(t(&st, "menu.terminal"), "Terminal");
    assert_eq!(t(&st, "control.dark_mode"), "Dark\nMode");
    assert_eq!(t(&st, "launcher.google_search"), "Search Google for \"{}\"");
    assert_eq!(t(&st, "no.such.key"), "no.such.key");
    set_locale(&mut st, "vi");
    assert_eq!(t(&st, "menu.file_manager"), "Trình quản lý tệp");
    assert_eq!(t(&st, "color.red"), "Đỏ");
    assert_eq!(t(&st, "no.such.key"), "no.such.key");
}

#[test]
fn tables_have_same_keys() {
    let en = get_translations("en");
    let vi = get_translations("vi");
    let other = get_translations("de");
    assert_eq!(en.len(), 44);
    assert_eq!(vi.len(), 44);
    for (a, b) in en.iter().zip(vi.iter()) {
        assert_eq!(a.0, b.0);
    }
    assert_eq!(other, vi);
}

use archvnde::i18n::{language_label, switch_language};

#[test]
fn language_button_switches_back_and_forth() {
    let mut st = LocaleState::new(Some("en_US.UTF-8"));
    assert_eq!(language_label(&st), "EN");
    let s1 = switch_language(&mut st);
    assert_eq!(get_locale(&st), "vi");
    assert_eq!(s1.label, "VI");
    assert_eq!(s1.title, "Đã thay đổi ngôn ngữ");
    let s2 = switch_language(&mut st);
    assert_eq!(get_locale(&st), "en");
    assert_eq!(s2.label, "EN");
    assert_eq!(s2.title, "Language Changed");
    assert_eq!(s2.message, "Restart widgets to apply changes system-wide.");
}
