//! Localised user-interface strings: the English and Vietnamese phrase
//! tables, the active locale, and key lookup with fallback to the key.
use vstd::prelude::*;

use crate::text::{chars_eq_str, chars_of, lowercase, starts_with, string_from, to_lowercase_str};

verus! {

/// The views of a table's entries.
pub open spec fn entries_view(e: Seq<(&str, &str)>) -> Seq<(Seq<char>, Seq<char>)> {
    e.map_values(|p: (&str, &str)| (p.0@, p.1@))
}

/// The English phrases, by key, in the order the table lists them.
pub open spec fn english_table() -> Seq<(Seq<char>, Seq<char>)> {
    seq![
        ("menu.terminal"@, "Terminal"@),
        ("menu.file_manager"@, "File Manager"@),
        ("menu.change_wallpaper"@, "Change Wallpaper"@),
        ("menu.reconfigure_shell"@, "Reconfigure Shell"@),
        ("menu.exit_shell"@, "Exit Shell"@),
        ("launcher.search_placeholder"@, "Search apps or files..."@),
        ("launcher.welcome"@, "Type keywords to search apps and files..."@),
        ("launcher.apps"@, "Applications"@),
        ("launcher.files"@, "Files"@),
        ("launcher.no_results"@, "No matching results found"@),
        ("launcher.google_search"@, "Search Google for \"{}\""@),
        ("panel.no_notifications"@, "No new notifications"@),
        ("panel.notifications"@, "Notifications"@),
        ("panel.storage_usage"@, "Storage Usage"@),
        ("panel.no_storage"@, "No physical storage found"@),
        ("panel.system"@, "System"@),
        ("panel.clear_all"@, "Clear All"@),
        ("control.network"@, "Network"@),
        ("control.connected"@, "Connected"@),
        ("control.bluetooth"@, "Bluetooth"@),
        ("control.not_connected"@, "Not Connected"@),
        ("control.dnd"@, "Do Not Disturb"@),
        ("control.on"@, "On"@),
        ("control.off"@, "Off"@),
        ("control.dark_mode"@, "Dark\nMode"@),
        ("control.night_light"@, "Night\nColor"@),
        ("control.title"@, "Control Center"@),
        ("screenshot.reset_tooltip"@, "Discard and restart (Clear all drawings)"@),
        ("screenshot.pen_tooltip"@, "Pen"@),
        ("screenshot.rect_tooltip"@, "Draw rectangle"@),
        ("screenshot.blur_tooltip"@, "Blur information"@),
        ("screenshot.eraser_tooltip"@, "Erase drawings"@),
        ("screenshot.color_tooltip"@, "Select drawing color"@),
        ("screenshot.copy_tooltip"@, "Copy to Clipboard (Enter)"@),
        ("screenshot.save_tooltip"@, "Save screenshot (Ctrl+S)"@),
        ("screenshot.cancel_tooltip"@, "Cancel (Escape)"@),
        ("color.red"@, "Red"@),
        ("color.orange"@, "Orange"@),
        ("color.yellow"@, "Yellow"@),
        ("color.green"@, "Green"@),
        ("color.blue"@, "Blue"@),
        ("color.purple"@, "Purple"@),
        ("color.white"@, "White"@),
        ("color.black"@, "Black"@),
    ]
}

/// The Vietnamese phrases, by key, in the order the table lists them.
pub open spec fn vietnamese_table() -> Seq<(Seq<char>, Seq<char>)> {
    seq![
        ("menu.terminal"@, "Terminal"@),
        ("menu.file_manager"@, "Trình quản lý tệp"@),
        ("menu.change_wallpaper"@, "Thay đổi hình nền"@),
        ("menu.reconfigure_shell"@, "Cấu hình lại Shell"@),
        ("menu.exit_shell"@, "Thoát Shell"@),
        ("launcher.search_placeholder"@, "Tìm ứng dụng hoặc tệp tin..."@),
        ("launcher.welcome"@, "Nhập từ khóa để tìm kiếm ứng dụng và tệp tin..."@),
        ("launcher.apps"@, "Ứng dụng"@),
        ("launcher.files"@, "Tập tin"@),
        ("launcher.no_results"@, "Không tìm thấy kết quả phù hợp"@),
        ("launcher.google_search"@, "Tìm trên Google cho \"{}\""@),
        ("panel.no_notifications"@, "Không có thông báo mới"@),
        ("panel.notifications"@, "Thông báo"@),
        ("panel.storage_usage"@, "Dung lượng đĩa"@),
        ("panel.no_storage"@, "Không tìm thấy ổ lưu trữ"@),
        ("panel.system"@, "Hệ thống"@),
        ("panel.clear_all"@, "Xóa tất cả"@),
        ("control.network"@, "Mạng"@),
        ("control.connected"@, "Đã kết nối"@),
        ("control.bluetooth"@, "Bluetooth"@),
        ("control.not_connected"@, "Chưa kết nối"@),
        ("control.dnd"@, "Chế độ không làm phiền"@),
        ("control.on"@, "Bật"@),
        ("control.off"@, "Tắt"@),
        ("control.dark_mode"@, "Chế độ\nTối"@),
        ("control.night_light"@, "Ánh sáng\nĐêm"@),
        ("control.title"@, "Trung tâm Điều khiển"@),
        ("screenshot.reset_tooltip"@, "Bỏ chụp và làm lại (Xóa hết nét vẽ)"@),
        ("screenshot.pen_tooltip"@, "Bút vẽ"@),
        ("screenshot.rect_tooltip"@, "Vẽ hình chữ nhật"@),
        ("screenshot.blur_tooltip"@, "Làm mờ thông tin"@),
        ("screenshot.eraser_tooltip"@, "Xóa hình vẽ"@),
        ("screenshot.color_tooltip"@, "Chọn màu vẽ"@),
        ("screenshot.copy_tooltip"@, "Sao chép vào Clipboard (Enter)"@),
        ("screenshot.save_tooltip"@, "Lưu ảnh chụp (Ctrl+S)"@),
        ("screenshot.cancel_tooltip"@, "Hủy (Escape)"@),
        ("color.red"@, "Đỏ"@),
        ("color.orange"@, "Cam"@),
        ("color.yellow"@, "Vàng"@),
        ("color.green"@, "Lục"@),
        ("color.blue"@, "Lam"@),
        ("color.purple"@, "Tím"@),
        ("color.white"@, "Trắng"@),
        ("color.black"@, "Đen"@),
    ]
}

/// The English table.
fn english_entries() -> (r: Vec<(&'static str, &'static str)>)
    ensures
        entries_view(r@) == english_table(),
{
    let mut r: Vec<(&'static str, &'static str)> = Vec::new();
    r.push(("menu.terminal", "Terminal"));
    r.push(("menu.file_manager", "File Manager"));
    r.push(("menu.change_wallpaper", "Change Wallpaper"));
    r.push(("menu.reconfigure_shell", "Reconfigure Shell"));
    r.push(("menu.exit_shell", "Exit Shell"));
    r.push(("launcher.search_placeholder", "Search apps or files..."));
    r.push(("launcher.welcome", "Type keywords to search apps and files..."));
    r.push(("launcher.apps", "Applications"));
    r.push(("launcher.files", "Files"));
    r.push(("launcher.no_results", "No matching results found"));
    r.push(("launcher.google_search", "Search Google for \"{}\""));
    r.push(("panel.no_notifications", "No new notifications"));
    r.push(("panel.notifications", "Notifications"));
    r.push(("panel.storage_usage", "Storage Usage"));
    r.push(("panel.no_storage", "No physical storage found"));
    r.push(("panel.system", "System"));
    r.push(("panel.clear_all", "Clear All"));
    r.push(("control.network", "Network"));
    r.push(("control.connected", "Connected"));
    r.push(("control.bluetooth", "Bluetooth"));
    r.push(("control.not_connected", "Not Connected"));
    r.push(("control.dnd", "Do Not Disturb"));
    r.push(("control.on", "On"));
    r.push(("control.off", "Off"));
    r.push(("control.dark_mode", "Dark\nMode"));
    r.push(("control.night_light", "Night\nColor"));
    r.push(("control.title", "Control Center"));
    r.push(("screenshot.reset_tooltip", "Discard and restart (Clear all drawings)"));
    r.push(("screenshot.pen_tooltip", "Pen"));
    r.push(("screenshot.rect_tooltip", "Draw rectangle"));
    r.push(("screenshot.blur_tooltip", "Blur information"));
    r.push(("screenshot.eraser_tooltip", "Erase drawings"));
    r.push(("screenshot.color_tooltip", "Select drawing color"));
    r.push(("screenshot.copy_tooltip", "Copy to Clipboard (Enter)"));
    r.push(("screenshot.save_tooltip", "Save screenshot (Ctrl+S)"));
    r.push(("screenshot.cancel_tooltip", "Cancel (Escape)"));
    r.push(("color.red", "Red"));
    r.push(("color.orange", "Orange"));
    r.push(("color.yellow", "Yellow"));
    r.push(("color.green", "Green"));
    r.push(("color.blue", "Blue"));
    r.push(("color.purple", "Purple"));
    r.push(("color.white", "White"));
    r.push(("color.black", "Black"));
    assert(entries_view(r@) =~= english_table());
    r
}

/// The Vietnamese table.
fn vietnamese_entries() -> (r: Vec<(&'static str, &'static str)>)
    ensures
        entries_view(r@) == vietnamese_table(),
{
    let mut r: Vec<(&'static str, &'static str)> = Vec::new();
    r.push(("menu.terminal", "Terminal"));
    r.push(("menu.file_manager", "Trình quản lý tệp"));
    r.push(("menu.change_wallpaper", "Thay đổi hình nền"));
    r.push(("menu.reconfigure_shell", "Cấu hình lại Shell"));
    r.push(("menu.exit_shell", "Thoát Shell"));
    r.push(("launcher.search_placeholder", "Tìm ứng dụng hoặc tệp tin..."));
    r.push(("launcher.welcome", "Nhập từ khóa để tìm kiếm ứng dụng và tệp tin..."));
    r.push(("launcher.apps", "Ứng dụng"));
    r.push(("launcher.files", "Tập tin"));
    r.push(("launcher.no_results", "Không tìm thấy kết quả phù hợp"));
    r.push(("launcher.google_search", "Tìm trên Google cho \"{}\""));
    r.push(("panel.no_notifications", "Không có thông báo mới"));
    r.push(("panel.notifications", "Thông báo"));
    r.push(("panel.storage_usage", "Dung lượng đĩa"));
    r.push(("panel.no_storage", "Không tìm thấy ổ lưu trữ"));
    r.push(("panel.system", "Hệ thống"));
    r.push(("panel.clear_all", "Xóa tất cả"));
    r.push(("control.network", "Mạng"));
    r.push(("control.connected", "Đã kết nối"));
    r.push(("control.bluetooth", "Bluetooth"));
    r.push(("control.not_connected", "Chưa kết nối"));
    r.push(("control.dnd", "Chế độ không làm phiền"));
    r.push(("control.on", "Bật"));
    r.push(("control.off", "Tắt"));
    r.push(("control.dark_mode", "Chế độ\nTối"));
    r.push(("control.night_light", "Ánh sáng\nĐêm"));
    r.push(("control.title", "Trung tâm Điều khiển"));
    r.push(("screenshot.reset_tooltip", "Bỏ chụp và làm lại (Xóa hết nét vẽ)"));
    r.push(("screenshot.pen_tooltip", "Bút vẽ"));
    r.push(("screenshot.rect_tooltip", "Vẽ hình chữ nhật"));
    r.push(("screenshot.blur_tooltip", "Làm mờ thông tin"));
    r.push(("screenshot.eraser_tooltip", "Xóa hình vẽ"));
    r.push(("screenshot.color_tooltip", "Chọn màu vẽ"));
    r.push(("screenshot.copy_tooltip", "Sao chép vào Clipboard (Enter)"));
    r.push(("screenshot.save_tooltip", "Lưu ảnh chụp (Ctrl+S)"));
    r.push(("screenshot.cancel_tooltip", "Hủy (Escape)"));
    r.push(("color.red", "Đỏ"));
    r.push(("color.orange", "Cam"));
    r.push(("color.yellow", "Vàng"));
    r.push(("color.green", "Lục"));
    r.push(("color.blue", "Lam"));
    r.push(("color.purple", "Tím"));
    r.push(("color.white", "Trắng"));
    r.push(("color.black", "Đen"));
    assert(entries_view(r@) =~= vietnamese_table());
    r
}

/// The locale that the state keeps for a requested one: English for
/// `"en"`, Vietnamese for anything else.
pub open spec fn normalize_locale(l: Seq<char>) -> Seq<char> {
    if l == "en"@ {
        "en"@
    } else {
        "vi"@
    }
}

/// The locales the state can hold.
pub open spec fn valid_locale(l: Seq<char>) -> bool {
    l == "en"@ || l == "vi"@
}

/// The phrase table of a locale; Vietnamese is the table of every locale
/// but `"en"`.
pub open spec fn table_for(locale: Seq<char>) -> Seq<(Seq<char>, Seq<char>)> {
    if locale == "en"@ {
        english_table()
    } else {
        vietnamese_table()
    }
}

/// The phrase that a table gives a key; where the key occurs more than once
/// the entry listed last wins, as with successive map insertions.
pub open spec fn lookup(t: Seq<(Seq<char>, Seq<char>)>, key: Seq<char>) -> Option<Seq<char>>
    decreases t.len(),
{
    if t.len() == 0 {
        None
    } else if t.last().0 == key {
        Some(t.last().1)
    } else {
        lookup(t.drop_last(), key)
    }
}

/// Whether `key` is one of the keys of `t`.
pub open spec fn has_key(t: Seq<(Seq<char>, Seq<char>)>, key: Seq<char>) -> bool {
    exists|i: int| 0 <= i < t.len() && #[trigger] t[i].0 == key
}

/// The text shown for `key` in `locale`: its phrase, or the key itself when
/// the table has no phrase for it.
pub open spec fn translate(locale: Seq<char>, key: Seq<char>) -> Seq<char> {
    match lookup(table_for(locale), key) {
        Some(v) => v,
        None => key,
    }
}

/// The locale taken from the `LANG` setting: Vietnamese when its lowercase
/// form begins with `vi`, English otherwise and when it is unset.
pub open spec fn locale_from_lang(lang: Option<Seq<char>>) -> Seq<char> {
    match lang {
        Some(l) => if starts_with(lowercase(l), "vi"@) {
            "vi"@
        } else {
            "en"@
        },
        None => "en"@,
    }
}

pub open spec fn opt_view(o: Option<&str>) -> Option<Seq<char>> {
    match o {
        Some(s) => Some(s@),
        None => None,
    }
}

/// The locale that applies at start-up, from the value of `LANG` (`None`
/// when it is unset or not valid Unicode).
pub fn default_locale(lang: Option<&str>) -> (r: String)
    ensures
        r@ == locale_from_lang(opt_view(lang)),
{
    match lang {
        Some(l) => {
            let lower = to_lowercase_str(l);
            let lv = chars_of(lower.as_str());
            let vi = chars_of("vi");
            proof {
                reveal_strlit("vi");
            }
            if crate::text::starts_with_exec(&lv, &vi) {
                string_from("vi")
            } else {
                string_from("en")
            }
        },
        None => string_from("en"),
    }
}

/// The active locale of the interface.
pub struct LocaleState {
    locale: String,
}

impl LocaleState {
    #[verifier::type_invariant]
    spec fn inv(self) -> bool {
        valid_locale(self.locale@)
    }

    /// The active locale.
    pub closed spec fn view(&self) -> Seq<char> {
        self.locale@
    }

    /// The state at start-up, from the value of `LANG`.
    pub fn new(lang: Option<&str>) -> (s: Self)
        ensures
            s.view() == locale_from_lang(opt_view(lang)),
            valid_locale(s.view()),
    {
        let l = default_locale(lang);
        proof {
            reveal_strlit("vi");
            reveal_strlit("en");
        }
        LocaleState { locale: l }
    }
}

/// The active locale (`"en"` or `"vi"`).
pub fn get_locale(state: &LocaleState) -> (r: String)
    ensures
        r@ == state.view(),
        valid_locale(r@),
{
    proof {
        use_type_invariant(state);
    }
    state.locale.clone()
}

/// Makes `locale` the active locale: `"en"` selects English, anything else
/// Vietnamese.
pub fn set_locale(state: &mut LocaleState, locale: &str)
    ensures
        final(state).view() == normalize_locale(locale@),
{
    let lv = chars_of(locale);
    let normalized = if chars_eq_str(&lv, "en") {
        string_from("en")
    } else {
        string_from("vi")
    };
    state.locale = normalized;
}

/// The locale the language button switches to: English from Vietnamese,
/// Vietnamese otherwise.
pub open spec fn switched_locale(l: Seq<char>) -> Seq<char> {
    if l == "vi"@ {
        "en"@
    } else {
        "vi"@
    }
}

/// The label of the language button: the locale in capitals.
pub open spec fn locale_label(l: Seq<char>) -> Seq<char> {
    if l == "en"@ {
        "EN"@
    } else {
        "VI"@
    }
}

/// What the language button shows and announces after a switch.
pub struct LanguageSwitch {
    /// The button's new label.
    pub label: String,
    /// The title of the notification.
    pub title: String,
    /// The text of the notification.
    pub message: String,
}

/// The label of the language button for the active locale (`EN` or `VI`).
pub fn language_label(state: &LocaleState) -> (r: String)
    ensures
        r@ == locale_label(state.view()),
{
    let l = get_locale(state);
    let lc = chars_of(l.as_str());
    if chars_eq_str(&lc, "en") {
        string_from("EN")
    } else {
        string_from("VI")
    }
}

/// Switches between English and Vietnamese: the new locale is made active,
/// and the button's label and a notice to restart the widgets (in the new
/// language) are returned.
pub fn switch_language(state: &mut LocaleState) -> (r: LanguageSwitch)
    ensures
        final(state).view() == switched_locale(old(state).view()),
        r.label@ == locale_label(final(state).view()),
        r.title@ == if final(state).view() == "en"@ {
            "Language Changed"@
        } else {
            "Đã thay đổi ngôn ngữ"@
        },
        r.message@ == if final(state).view() == "en"@ {
            "Restart widgets to apply changes system-wide."@
        } else {
            "Khởi động lại widgets để áp dụng toàn hệ thống."@
        },
{
    let cur = get_locale(state);
    let cc = chars_of(cur.as_str());
    proof {
        reveal_strlit("vi");
        reveal_strlit("en");
    }
    if chars_eq_str(&cc, "vi") {
        set_locale(state, "en");
        LanguageSwitch {
            label: string_from("EN"),
            title: string_from("Language Changed"),
            message: string_from("Restart widgets to apply changes system-wide."),
        }
    } else {
        set_locale(state, "vi");
        LanguageSwitch {
            label: string_from("VI"),
            title: string_from("Đã thay đổi ngôn ngữ"),
            message: string_from("Khởi động lại widgets để áp dụng toàn hệ thống."),
        }
    }
}

/// Pressing the language button twice comes back to the locale one
/// started from.
pub proof fn law_switch_twice(l: Seq<char>)
    requires
        valid_locale(l),
    ensures
        switched_locale(switched_locale(l)) == l,
{
    reveal_strlit("vi");
    reveal_strlit("en");
}

/// The phrase table of `locale`.
pub fn get_translations(locale: &str) -> (r: Vec<(&'static str, &'static str)>)
    ensures
        entries_view(r@) == table_for(locale@),
{
    let lv = chars_of(locale);
    if chars_eq_str(&lv, "en") {
        english_entries()
    } else {
        vietnamese_entries()
    }
}

/// The phrase of `key` in `table`, if it has one.
fn lookup_entries(table: &Vec<(&'static str, &'static str)>, key: &str) -> (r: Option<&'static str>)
    ensures
        opt_view(r) == lookup(entries_view(table@), key@),
{
    let kv = chars_of(key);
    let mut i: usize = table.len();
    assert(table@.take(table@.len() as int) =~= table@);
    while i > 0
        invariant
            i <= table@.len(),
            kv@ == key@,
            lookup(entries_view(table@), key@) == lookup(entries_view(table@.take(i as int)), key@),
        decreases i,
    {
        let (k, v) = table[i - 1];
        let ghost tv = entries_view(table@.take(i as int));
        assert(tv.last() == (k@, v@));
        assert(entries_view(table@.take(i as int)).drop_last() =~= entries_view(
            table@.take(i - 1),
        ));
        if chars_eq_str(&kv, k) {
            return Some(v);
        }
        i -= 1;
    }
    assert(entries_view(table@.take(0)) =~= Seq::<(Seq<char>, Seq<char>)>::empty());
    None
}

/// The text shown for `key` in the active locale: its phrase, or the key
/// itself when there is none.
pub fn t(state: &LocaleState, key: &str) -> (r: String)
    ensures
        r@ == translate(state.view(), key@),
{
    let locale = get_locale(state);
    let dict = get_translations(locale.as_str());
    assert(table_for(locale@) == table_for(state.view()));
    match lookup_entries(&dict, key) {
        Some(v) => string_from(v),
        None => string_from(key),
    }
}

// ---------------------------------------------------------------------------
// Laws
// ---------------------------------------------------------------------------
/// Setting a supported locale and reading it back gives it back
/// unchanged; any other setting reads back as Vietnamese.
pub proof fn law_set_then_get(l: Seq<char>)
    ensures
        valid_locale(l) ==> normalize_locale(l) == l,
        !valid_locale(l) ==> normalize_locale(l) == "vi"@,
{
}

/// Selecting the locale that the state reports leaves it unchanged: the
/// locale that `set_locale` keeps for a requested one is kept again for it.
pub proof fn law_normalize_idempotent(l: Seq<char>)
    ensures
        normalize_locale(normalize_locale(l)) == normalize_locale(l),
        valid_locale(normalize_locale(l)),
{
    reveal_strlit("en");
    reveal_strlit("vi");
}

/// Both tables list the same keys in the same order, so every key that has
/// an English phrase has a Vietnamese one and the other way round.
pub proof fn law_tables_share_keys()
    ensures
        english_table().len() == vietnamese_table().len(),
        forall|i: int|
            0 <= i < english_table().len() ==> #[trigger] english_table()[i].0
                == vietnamese_table()[i].0,
{
}

proof fn lemma_lookup_absent(t: Seq<(Seq<char>, Seq<char>)>, key: Seq<char>)
    requires
        !has_key(t, key),
    ensures
        lookup(t, key) is None,
    decreases t.len(),
{
    if t.len() > 0 {
        assert(t.last().0 != key) by {
            assert(t[t.len() - 1].0 != key);
        }
        assert forall|i: int| 0 <= i < t.drop_last().len() implies #[trigger] t.drop_last()[i].0
            != key by {
            assert(t[i].0 != key);
        }
        lemma_lookup_absent(t.drop_last(), key);
    }
}

proof fn lemma_lookup_present(t: Seq<(Seq<char>, Seq<char>)>, key: Seq<char>)
    requires
        has_key(t, key),
    ensures
        lookup(t, key) matches Some(v) && exists|i: int|
            0 <= i < t.len() && #[trigger] t[i] == (key, v),
    decreases t.len(),
{
    if t.last().0 == key {
        assert(t[t.len() - 1] == (key, t.last().1));
    } else {
        let i = choose|i: int| 0 <= i < t.len() && #[trigger] t[i].0 == key;
        assert(t.drop_last()[i].0 == key);
        lemma_lookup_present(t.drop_last(), key);
        let v = lookup(t.drop_last(), key)->0;
        let j = choose|j: int| 0 <= j < t.drop_last().len() && #[trigger] t.drop_last()[j] == (key, v);
        assert(t[j] == (key, v));
    }
}

/// A key that the active table lacks is shown as itself; a key that it has
/// is shown as one of the phrases the table gives it.
pub proof fn law_translate_fallback(locale: Seq<char>, key: Seq<char>)
    ensures
        !has_key(table_for(locale), key) ==> translate(locale, key) == key,
        has_key(table_for(locale), key) ==> exists|i: int|
            0 <= i < table_for(locale).len() && #[trigger] table_for(locale)[i] == (
                key,
                translate(locale, key),
            ),
{
    if has_key(table_for(locale), key) {
        lemma_lookup_present(table_for(locale), key);
    } else {
        lemma_lookup_absent(table_for(locale), key);
    }
}

/// Every locale other than English reads the Vietnamese table.
pub proof fn law_other_locales_are_vietnamese(locale: Seq<char>)
    requires
        locale != "en"@,
    ensures
        forall|key: Seq<char>| #[trigger] translate(locale, key) == translate("vi"@, key),
{
    reveal_strlit("en");
    reveal_strlit("vi");
    assert("vi"@[0] != "en"@[0]);
}

/// The position of a key in the phrase tables, told by its length and a
/// few of its characters (-1 for a text that is no key).
spec fn key_index(k: Seq<char>) -> int {
    if k.len() == 13 && k[0] == 'm' {
        0
    } else if k.len() == 17 && k[0] == 'm' {
        1
    } else if k.len() == 21 && k[0] == 'm' {
        2
    } else if k.len() == 22 && k[0] == 'm' {
        3
    } else if k.len() == 15 && k[0] == 'm' {
        4
    } else if k.len() == 27 {
        5
    } else if k.len() == 16 && k[0] == 'l' {
        6
    } else if k.len() == 13 && k[0] == 'l' {
        7
    } else if k.len() == 14 {
        8
    } else if k.len() == 19 && k[0] == 'l' {
        9
    } else if k.len() == 22 && k[0] == 'l' {
        10
    } else if k.len() == 22 && k[0] == 'p' {
        11
    } else if k.len() == 19 && k[6] == 'n' {
        12
    } else if k.len() == 19 && k[6] == 's' {
        13
    } else if k.len() == 16 && k[0] == 'p' {
        14
    } else if k.len() == 12 && k[0] == 'p' {
        15
    } else if k.len() == 15 && k[0] == 'p' {
        16
    } else if k.len() == 15 && k[0] == 'c' {
        17
    } else if k.len() == 17 && k[8] == 'c' {
        18
    } else if k.len() == 17 && k[8] == 'b' {
        19
    } else if k.len() == 21 && k[0] == 'c' {
        20
    } else if k.len() == 11 && k[8] == 'd' {
        21
    } else if k.len() == 10 && k[2] == 'n' {
        22
    } else if k.len() == 11 && k[8] == 'o' {
        23
    } else if k.len() == 17 && k[8] == 'd' {
        24
    } else if k.len() == 19 && k[0] == 'c' {
        25
    } else if k.len() == 13 && k[0] == 'c' {
        26
    } else if k.len() == 24 && k[11] == 'r' {
        27
    } else if k.len() == 22 && k[0] == 's' {
        28
    } else if k.len() == 23 && k[11] == 'r' {
        29
    } else if k.len() == 23 && k[11] == 'b' {
        30
    } else if k.len() == 25 && k[11] == 'e' {
        31
    } else if k.len() == 24 && k[11] == 'c' {
        32
    } else if k.len() == 23 && k[11] == 'c' {
        33
    } else if k.len() == 23 && k[11] == 's' {
        34
    } else if k.len() == 25 && k[11] == 'c' {
        35
    } else if k.len() == 9 {
        36
    } else if k.len() == 12 && k[6] == 'o' {
        37
    } else if k.len() == 12 && k[6] == 'y' {
        38
    } else if k.len() == 11 && k[6] == 'g' {
        39
    } else if k.len() == 10 && k[2] == 'l' {
        40
    } else if k.len() == 12 && k[6] == 'p' {
        41
    } else if k.len() == 11 && k[6] == 'w' {
        42
    } else if k.len() == 11 && k[6] == 'b' {
        43
    } else {
        -1
    }
}

proof fn lemma_key_index()
    ensures
        forall|i: int| 0 <= i < 44 ==> key_index(#[trigger] english_table()[i].0) == i,
{
    reveal_strlit("menu.terminal");
    reveal_strlit("menu.file_manager");
    reveal_strlit("menu.change_wallpaper");
    reveal_strlit("menu.reconfigure_shell");
    reveal_strlit("menu.exit_shell");
    reveal_strlit("launcher.search_placeholder");
    reveal_strlit("launcher.welcome");
    reveal_strlit("launcher.apps");
    reveal_strlit("launcher.files");
    reveal_strlit("launcher.no_results");
    reveal_strlit("launcher.google_search");
    reveal_strlit("panel.no_notifications");
    reveal_strlit("panel.notifications");
    reveal_strlit("panel.storage_usage");
    reveal_strlit("panel.no_storage");
    reveal_strlit("panel.system");
    reveal_strlit("panel.clear_all");
    reveal_strlit("control.network");
    reveal_strlit("control.connected");
    reveal_strlit("control.bluetooth");
    reveal_strlit("control.not_connected");
    reveal_strlit("control.dnd");
    reveal_strlit("control.on");
    reveal_strlit("control.off");
    reveal_strlit("control.dark_mode");
    reveal_strlit("control.night_light");
    reveal_strlit("control.title");
    reveal_strlit("screenshot.reset_tooltip");
    reveal_strlit("screenshot.pen_tooltip");
    reveal_strlit("screenshot.rect_tooltip");
    reveal_strlit("screenshot.blur_tooltip");
    reveal_strlit("screenshot.eraser_tooltip");
    reveal_strlit("screenshot.color_tooltip");
    reveal_strlit("screenshot.copy_tooltip");
    reveal_strlit("screenshot.save_tooltip");
    reveal_strlit("screenshot.cancel_tooltip");
    reveal_strlit("color.red");
    reveal_strlit("color.orange");
    reveal_strlit("color.yellow");
    reveal_strlit("color.green");
    reveal_strlit("color.blue");
    reveal_strlit("color.purple");
    reveal_strlit("color.white");
    reveal_strlit("color.black");
    let en = english_table();
    assert forall|i: int| 0 <= i < 44 implies key_index(#[trigger] en[i].0) == i by {
        if i == 0 {
        }
        else if i == 1 {
        }
        else if i == 2 {
        }
        else if i == 3 {
        }
        else if i == 4 {
        }
        else if i == 5 {
        }
        else if i == 6 {
        }
        else if i == 7 {
        }
        else if i == 8 {
        }
        else if i == 9 {
        }
        else if i == 10 {
        }
        else if i == 11 {
        }
        else if i == 12 {
        }
        else if i == 13 {
        }
        else if i == 14 {
        }
        else if i == 15 {
        }
        else if i == 16 {
        }
        else if i == 17 {
        }
        else if i == 18 {
        }
        else if i == 19 {
        }
        else if i == 20 {
        }
        else if i == 21 {
        }
        else if i == 22 {
        }
        else if i == 23 {
        }
        else if i == 24 {
        }
        else if i == 25 {
        }
        else if i == 26 {
        }
        else if i == 27 {
        }
        else if i == 28 {
        }
        else if i == 29 {
        }
        else if i == 30 {
        }
        else if i == 31 {
        }
        else if i == 32 {
        }
        else if i == 33 {
        }
        else if i == 34 {
        }
        else if i == 35 {
        }
        else if i == 36 {
        }
        else if i == 37 {
        }
        else if i == 38 {
        }
        else if i == 39 {
        }
        else if i == 40 {
        }
        else if i == 41 {
        }
        else if i == 42 {
        }
        else if i == 43 {
        }
    }
}

/// Each phrase table holds 44 entries under distinct keys, and no phrase
/// is empty.
pub proof fn law_tables_complete()
    ensures
        english_table().len() == 44,
        vietnamese_table().len() == 44,
        forall|i: int, j: int|
            0 <= i < 44 && 0 <= j < 44 && i != j ==> #[trigger] english_table()[i].0
                != #[trigger] english_table()[j].0,
        forall|i: int| 0 <= i < 44 ==> #[trigger] english_table()[i].1.len() > 0,
        forall|i: int| 0 <= i < 44 ==> #[trigger] vietnamese_table()[i].1.len() > 0,
{
    reveal_strlit("Applications");
    reveal_strlit("Black");
    reveal_strlit("Blue");
    reveal_strlit("Bluetooth");
    reveal_strlit("Blur information");
    reveal_strlit("Bút vẽ");
    reveal_strlit("Bật");
    reveal_strlit("Bỏ chụp và làm lại (Xóa hết nét vẽ)");
    reveal_strlit("Cam");
    reveal_strlit("Cancel (Escape)");
    reveal_strlit("Change Wallpaper");
    reveal_strlit("Chưa kết nối");
    reveal_strlit("Chế độ không làm phiền");
    reveal_strlit("Chế độ\nTối");
    reveal_strlit("Chọn màu vẽ");
    reveal_strlit("Clear All");
    reveal_strlit("Connected");
    reveal_strlit("Control Center");
    reveal_strlit("Copy to Clipboard (Enter)");
    reveal_strlit("Cấu hình lại Shell");
    reveal_strlit("Dark\nMode");
    reveal_strlit("Discard and restart (Clear all drawings)");
    reveal_strlit("Do Not Disturb");
    reveal_strlit("Draw rectangle");
    reveal_strlit("Dung lượng đĩa");
    reveal_strlit("Erase drawings");
    reveal_strlit("Exit Shell");
    reveal_strlit("File Manager");
    reveal_strlit("Files");
    reveal_strlit("Green");
    reveal_strlit("Hệ thống");
    reveal_strlit("Hủy (Escape)");
    reveal_strlit("Không có thông báo mới");
    reveal_strlit("Không tìm thấy kết quả phù hợp");
    reveal_strlit("Không tìm thấy ổ lưu trữ");
    reveal_strlit("Lam");
    reveal_strlit("Làm mờ thông tin");
    reveal_strlit("Lưu ảnh chụp (Ctrl+S)");
    reveal_strlit("Lục");
    reveal_strlit("Mạng");
    reveal_strlit("Network");
    reveal_strlit("Nhập từ khóa để tìm kiếm ứng dụng và tệp tin...");
    reveal_strlit("Night\nColor");
    reveal_strlit("No matching results found");
    reveal_strlit("No new notifications");
    reveal_strlit("No physical storage found");
    reveal_strlit("Not Connected");
    reveal_strlit("Notifications");
    reveal_strlit("Off");
    reveal_strlit("On");
    reveal_strlit("Orange");
    reveal_strlit("Pen");
    reveal_strlit("Purple");
    reveal_strlit("Reconfigure Shell");
    reveal_strlit("Red");
    reveal_strlit("Sao chép vào Clipboard (Enter)");
    reveal_strlit("Save screenshot (Ctrl+S)");
    reveal_strlit("Search Google for \"{}\"");
    reveal_strlit("Search apps or files...");
    reveal_strlit("Select drawing color");
    reveal_strlit("Storage Usage");
    reveal_strlit("System");
    reveal_strlit("Terminal");
    reveal_strlit("Thay đổi hình nền");
    reveal_strlit("Thoát Shell");
    reveal_strlit("Thông báo");
    reveal_strlit("Trung tâm Điều khiển");
    reveal_strlit("Trình quản lý tệp");
    reveal_strlit("Trắng");
    reveal_strlit("Type keywords to search apps and files...");
    reveal_strlit("Tìm trên Google cho \"{}\"");
    reveal_strlit("Tìm ứng dụng hoặc tệp tin...");
    reveal_strlit("Tím");
    reveal_strlit("Tập tin");
    reveal_strlit("Tắt");
    reveal_strlit("Vàng");
    reveal_strlit("Vẽ hình chữ nhật");
    reveal_strlit("White");
    reveal_strlit("Xóa hình vẽ");
    reveal_strlit("Xóa tất cả");
    reveal_strlit("Yellow");
    reveal_strlit("Ánh sáng\nĐêm");
    reveal_strlit("Đen");
    reveal_strlit("Đã kết nối");
    reveal_strlit("Đỏ");
    reveal_strlit("Ứng dụng");
    lemma_key_index();
    let en = english_table();
    let vi = vietnamese_table();
    assert forall|i: int| 0 <= i < 44 implies #[trigger] en[i].1.len() > 0 by {
        if i == 0 {
        }
        else if i == 1 {
        }
        else if i == 2 {
        }
        else if i == 3 {
        }
        else if i == 4 {
        }
        else if i == 5 {
        }
        else if i == 6 {
        }
        else if i == 7 {
        }
        else if i == 8 {
        }
        else if i == 9 {
        }
        else if i == 10 {
        }
        else if i == 11 {
        }
        else if i == 12 {
        }
        else if i == 13 {
        }
        else if i == 14 {
        }
        else if i == 15 {
        }
        else if i == 16 {
        }
        else if i == 17 {
        }
        else if i == 18 {
        }
        else if i == 19 {
        }
        else if i == 20 {
        }
        else if i == 21 {
        }
        else if i == 22 {
        }
        else if i == 23 {
        }
        else if i == 24 {
        }
        else if i == 25 {
        }
        else if i == 26 {
        }
        else if i == 27 {
        }
        else if i == 28 {
        }
        else if i == 29 {
        }
        else if i == 30 {
        }
        else if i == 31 {
        }
        else if i == 32 {
        }
        else if i == 33 {
        }
        else if i == 34 {
        }
        else if i == 35 {
        }
        else if i == 36 {
        }
        else if i == 37 {
        }
        else if i == 38 {
        }
        else if i == 39 {
        }
        else if i == 40 {
        }
        else if i == 41 {
        }
        else if i == 42 {
        }
        else if i == 43 {
        }
    }
    assert forall|i: int| 0 <= i < 44 implies #[trigger] vi[i].1.len() > 0 by {
        if i == 0 {
        }
        else if i == 1 {
        }
        else if i == 2 {
        }
        else if i == 3 {
        }
        else if i == 4 {
        }
        else if i == 5 {
        }
        else if i == 6 {
        }
        else if i == 7 {
        }
        else if i == 8 {
        }
        else if i == 9 {
        }
        else if i == 10 {
        }
        else if i == 11 {
        }
        else if i == 12 {
        }
        else if i == 13 {
        }
        else if i == 14 {
        }
        else if i == 15 {
        }
        else if i == 16 {
        }
        else if i == 17 {
        }
        else if i == 18 {
        }
        else if i == 19 {
        }
        else if i == 20 {
        }
        else if i == 21 {
        }
        else if i == 22 {
        }
        else if i == 23 {
        }
        else if i == 24 {
        }
        else if i == 25 {
        }
        else if i == 26 {
        }
        else if i == 27 {
        }
        else if i == 28 {
        }
        else if i == 29 {
        }
        else if i == 30 {
        }
        else if i == 31 {
        }
        else if i == 32 {
        }
        else if i == 33 {
        }
        else if i == 34 {
        }
        else if i == 35 {
        }
        else if i == 36 {
        }
        else if i == 37 {
        }
        else if i == 38 {
        }
        else if i == 39 {
        }
        else if i == 40 {
        }
        else if i == 41 {
        }
        else if i == 42 {
        }
        else if i == 43 {
        }
    }
}

} // verus!
