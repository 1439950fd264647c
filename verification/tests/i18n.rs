use modemdeck::i18n::{language_for, tr, translate_ui_text, Language};

#[test]
fn language_choice() {
    assert_eq!(language_for("fa", "en_US.UTF-8"), Language::Fa);
    assert_eq!(language_for("en", "fa_IR.UTF-8"), Language::En);
    assert_eq!(language_for("system", "FA_ir.UTF-8"), Language::Fa);
    assert_eq!(language_for("system", "de_DE.UTF-8"), Language::En);
    assert_eq!(language_for("", ""), Language::En);
    assert_eq!(language_for("Fa", "C"), Language::En);
}

#[test]
fn english_keys() {
    assert_eq!(tr(Language::En, "preferences"), "Preferences");
    assert_eq!(tr(Language::En, "data_usage"), "Data usage & live traffic");
    assert_eq!(tr(Language::En, "persian"), "فارسی");
    assert_eq!(tr(Language::En, "no_such_key"), "no_such_key");
}

#[test]
fn persian_keys() {
    assert_eq!(tr(Language::Fa, "preferences"), "تنظیمات");
    assert_eq!(tr(Language::Fa, "english"), "English");
    assert_eq!(tr(Language::Fa, "website"), "وب‌سایت MilMit");
    assert_eq!(tr(Language::Fa, "no_such_key"), "no_such_key");
}

#[test]
fn english_labels_are_kept() {
    assert_eq!(translate_ui_text(Language::En, "Preferences"), "Preferences");
    assert_eq!(translate_ui_text(Language::En, "Modem signal  70%"), "Modem signal  70%");
}

#[test]
fn persian_labels() {
    assert_eq!(translate_ui_text(Language::Fa, "Preferences"), "تنظیمات");
    assert_eq!(translate_ui_text(Language::Fa, "Profile name"), "نام پروفایل");
    assert_eq!(translate_ui_text(Language::Fa, "LTE FDD"), "LTE FDD");
    assert_eq!(translate_ui_text(Language::Fa, "Modem signal  70%"), "سیگنال مودم  70%");
    assert_eq!(translate_ui_text(Language::Fa, "Read source: AT"), "منبع خواندن: AT");
    assert_eq!(translate_ui_text(Language::Fa, "Vendor driver • Quectel"), "درایور سازنده • Quectel");
    assert_eq!(translate_ui_text(Language::Fa, "Something else"), "Something else");
    assert_eq!(translate_ui_text(Language::Fa, ""), "");
}
