//! English and Persian user-interface text.
//!
//! The chosen language is passed in explicitly; the application keeps the
//! process-wide choice and hands it to these functions.
use vstd::prelude::*;

use crate::text;

verus! {

#[derive(Debug, Clone, Copy, PartialEq, Eq, Structural)]
pub enum Language {
    En,
    Fa,
}

/// The language that a preference value selects: `"fa"` and `"en"` choose
/// directly; anything else follows the `LANG` environment value (Persian when
/// it starts with `fa`, ignoring ASCII case).
pub open spec fn spec_language_for(value: Seq<char>, env_lang: Seq<char>) -> Language {
    if value == "fa"@ {
        Language::Fa
    } else if value == "en"@ {
        Language::En
    } else if text::starts_with(text::lower(env_lang), "fa"@) {
        Language::Fa
    } else {
        Language::En
    }
}

pub fn language_for(value: &str, env_lang: &str) -> (r: Language)
    ensures
        r == spec_language_for(value@, env_lang@),
{
    let v = text::chars_of(value);
    if text::eq_str(v.as_slice(), "fa") {
        Language::Fa
    } else if text::eq_str(v.as_slice(), "en") {
        Language::En
    } else {
        let e = text::chars_of(env_lang);
        let l = text::to_lower(e.as_slice());
        if text::starts_with_str(l.as_slice(), "fa") {
            Language::Fa
        } else {
            Language::En
        }
    }
}

/// English text of a translation key; unknown keys stand for themselves.
pub open spec fn spec_en(key: Seq<char>) -> Seq<char> {
    if key == "preferences"@ { "Preferences"@ }
    else if key == "supported_modems"@ { "Supported modems"@ }
    else if key == "check_updates"@ { "Check for updates"@ }
    else if key == "release_notes"@ { "Release notes"@ }
    else if key == "report_problem"@ { "Report a problem"@ }
    else if key == "apn_manager"@ { "APN manager"@ }
    else if key == "sim_security"@ { "SIM security"@ }
    else if key == "unlock_sim"@ { "Unlock SIM"@ }
    else if key == "data_usage"@ { "Data usage & live traffic"@ }
    else if key == "profiles"@ { "Band profiles"@ }
    else if key == "restore_profile"@ { "Restore profile after reboot/resume"@ }
    else if key == "save_profile"@ { "Save current selection as profile"@ }
    else if key == "apply_profile"@ { "Apply profile"@ }
    else if key == "delete_profile"@ { "Delete profile"@ }
    else if key == "language"@ { "Language"@ }
    else if key == "system"@ { "System default"@ }
    else if key == "english"@ { "English"@ }
    else if key == "persian"@ { "فارسی"@ }
    else if key == "today"@ { "Today"@ }
    else if key == "this_month"@ { "This month"@ }
    else if key == "download"@ { "Download"@ }
    else if key == "upload"@ { "Upload"@ }
    else if key == "live_speed"@ { "Live speed"@ }
    else if key == "reset_usage"@ { "Reset usage counters"@ }
    else if key == "create_apn"@ { "Create APN profile"@ }
    else if key == "activate"@ { "Activate"@ }
    else if key == "delete"@ { "Delete"@ }
    else if key == "edit"@ { "Edit"@ }
    else if key == "save"@ { "Save"@ }
    else if key == "cancel"@ { "Cancel"@ }
    else if key == "about"@ { "About"@ }
    else if key == "diagnostics"@ { "Export diagnostics"@ }
    else if key == "refresh"@ { "Refresh modem data"@ }
    else if key == "hotplug"@ { "Hot-plug ready"@ }
    else if key == "suspend_resume"@ { "Suspend/resume aware"@ }
    else if key == "crash_safe"@ { "Crash-safe rollback armed"@ }
    else if key == "website"@ { "MilMit website"@ }
    else { key }
}

/// Persian text of a translation key; keys without a Persian text fall back to English.
pub open spec fn spec_fa(key: Seq<char>) -> Seq<char> {
    if key == "preferences"@ { "تنظیمات"@ }
    else if key == "supported_modems"@ { "مودم‌های پشتیبانی‌شده"@ }
    else if key == "check_updates"@ { "بررسی بروزرسانی"@ }
    else if key == "release_notes"@ { "یادداشت‌های انتشار"@ }
    else if key == "report_problem"@ { "گزارش مشکل"@ }
    else if key == "apn_manager"@ { "مدیریت APN"@ }
    else if key == "sim_security"@ { "امنیت سیم‌کارت"@ }
    else if key == "unlock_sim"@ { "باز کردن قفل سیم‌کارت"@ }
    else if key == "data_usage"@ { "مصرف داده و سرعت لحظه‌ای"@ }
    else if key == "profiles"@ { "پروفایل‌های باند"@ }
    else if key == "restore_profile"@ { "بازیابی پروفایل پس از راه‌اندازی/Resume"@ }
    else if key == "save_profile"@ { "ذخیره انتخاب فعلی به‌عنوان پروفایل"@ }
    else if key == "apply_profile"@ { "اعمال پروفایل"@ }
    else if key == "delete_profile"@ { "حذف پروفایل"@ }
    else if key == "language"@ { "زبان"@ }
    else if key == "system"@ { "پیش‌فرض سیستم"@ }
    else if key == "english"@ { "English"@ }
    else if key == "persian"@ { "فارسی"@ }
    else if key == "today"@ { "امروز"@ }
    else if key == "this_month"@ { "این ماه"@ }
    else if key == "download"@ { "دانلود"@ }
    else if key == "upload"@ { "آپلود"@ }
    else if key == "live_speed"@ { "سرعت لحظه‌ای"@ }
    else if key == "reset_usage"@ { "صفر کردن آمار مصرف"@ }
    else if key == "create_apn"@ { "ساخت پروفایل APN"@ }
    else if key == "activate"@ { "فعال‌سازی"@ }
    else if key == "delete"@ { "حذف"@ }
    else if key == "edit"@ { "ویرایش"@ }
    else if key == "save"@ { "ذخیره"@ }
    else if key == "cancel"@ { "انصراف"@ }
    else if key == "about"@ { "درباره"@ }
    else if key == "diagnostics"@ { "خروجی عیب‌یابی"@ }
    else if key == "refresh"@ { "بروزرسانی اطلاعات مودم"@ }
    else if key == "hotplug"@ { "تشخیص اتصال/جداسازی"@ }
    else if key == "suspend_resume"@ { "سازگار با Sleep/Resume"@ }
    else if key == "crash_safe"@ { "Rollback ایمن در برابر کرش"@ }
    else if key == "website"@ { "وب‌سایت MilMit"@ }
    else { spec_en(key) }
}

/// English text of a translation key.
fn en<'a>(key: &'a str) -> (r: &'a str)
    ensures
        r@ == spec_en(key@),
{
    let k = text::chars_of(key);
    let ks = k.as_slice();
    if text::eq_str(ks, "preferences") { "Preferences" }
    else if text::eq_str(ks, "supported_modems") { "Supported modems" }
    else if text::eq_str(ks, "check_updates") { "Check for updates" }
    else if text::eq_str(ks, "release_notes") { "Release notes" }
    else if text::eq_str(ks, "report_problem") { "Report a problem" }
    else if text::eq_str(ks, "apn_manager") { "APN manager" }
    else if text::eq_str(ks, "sim_security") { "SIM security" }
    else if text::eq_str(ks, "unlock_sim") { "Unlock SIM" }
    else if text::eq_str(ks, "data_usage") { "Data usage & live traffic" }
    else if text::eq_str(ks, "profiles") { "Band profiles" }
    else if text::eq_str(ks, "restore_profile") { "Restore profile after reboot/resume" }
    else if text::eq_str(ks, "save_profile") { "Save current selection as profile" }
    else if text::eq_str(ks, "apply_profile") { "Apply profile" }
    else if text::eq_str(ks, "delete_profile") { "Delete profile" }
    else if text::eq_str(ks, "language") { "Language" }
    else if text::eq_str(ks, "system") { "System default" }
    else if text::eq_str(ks, "english") { "English" }
    else if text::eq_str(ks, "persian") { "فارسی" }
    else if text::eq_str(ks, "today") { "Today" }
    else if text::eq_str(ks, "this_month") { "This month" }
    else if text::eq_str(ks, "download") { "Download" }
    else if text::eq_str(ks, "upload") { "Upload" }
    else if text::eq_str(ks, "live_speed") { "Live speed" }
    else if text::eq_str(ks, "reset_usage") { "Reset usage counters" }
    else if text::eq_str(ks, "create_apn") { "Create APN profile" }
    else if text::eq_str(ks, "activate") { "Activate" }
    else if text::eq_str(ks, "delete") { "Delete" }
    else if text::eq_str(ks, "edit") { "Edit" }
    else if text::eq_str(ks, "save") { "Save" }
    else if text::eq_str(ks, "cancel") { "Cancel" }
    else if text::eq_str(ks, "about") { "About" }
    else if text::eq_str(ks, "diagnostics") { "Export diagnostics" }
    else if text::eq_str(ks, "refresh") { "Refresh modem data" }
    else if text::eq_str(ks, "hotplug") { "Hot-plug ready" }
    else if text::eq_str(ks, "suspend_resume") { "Suspend/resume aware" }
    else if text::eq_str(ks, "crash_safe") { "Crash-safe rollback armed" }
    else if text::eq_str(ks, "website") { "MilMit website" }
    else { key }
}

/// Persian text of a translation key.
fn fa<'a>(key: &'a str) -> (r: &'a str)
    ensures
        r@ == spec_fa(key@),
{
    let k = text::chars_of(key);
    let ks = k.as_slice();
    if text::eq_str(ks, "preferences") { "تنظیمات" }
    else if text::eq_str(ks, "supported_modems") { "مودم‌های پشتیبانی‌شده" }
    else if text::eq_str(ks, "check_updates") { "بررسی بروزرسانی" }
    else if text::eq_str(ks, "release_notes") { "یادداشت‌های انتشار" }
    else if text::eq_str(ks, "report_problem") { "گزارش مشکل" }
    else if text::eq_str(ks, "apn_manager") { "مدیریت APN" }
    else if text::eq_str(ks, "sim_security") { "امنیت سیم‌کارت" }
    else if text::eq_str(ks, "unlock_sim") { "باز کردن قفل سیم‌کارت" }
    else if text::eq_str(ks, "data_usage") { "مصرف داده و سرعت لحظه‌ای" }
    else if text::eq_str(ks, "profiles") { "پروفایل‌های باند" }
    else if text::eq_str(ks, "restore_profile") { "بازیابی پروفایل پس از راه‌اندازی/Resume" }
    else if text::eq_str(ks, "save_profile") { "ذخیره انتخاب فعلی به‌عنوان پروفایل" }
    else if text::eq_str(ks, "apply_profile") { "اعمال پروفایل" }
    else if text::eq_str(ks, "delete_profile") { "حذف پروفایل" }
    else if text::eq_str(ks, "language") { "زبان" }
    else if text::eq_str(ks, "system") { "پیش‌فرض سیستم" }
    else if text::eq_str(ks, "english") { "English" }
    else if text::eq_str(ks, "persian") { "فارسی" }
    else if text::eq_str(ks, "today") { "امروز" }
    else if text::eq_str(ks, "this_month") { "این ماه" }
    else if text::eq_str(ks, "download") { "دانلود" }
    else if text::eq_str(ks, "upload") { "آپلود" }
    else if text::eq_str(ks, "live_speed") { "سرعت لحظه‌ای" }
    else if text::eq_str(ks, "reset_usage") { "صفر کردن آمار مصرف" }
    else if text::eq_str(ks, "create_apn") { "ساخت پروفایل APN" }
    else if text::eq_str(ks, "activate") { "فعال‌سازی" }
    else if text::eq_str(ks, "delete") { "حذف" }
    else if text::eq_str(ks, "edit") { "ویرایش" }
    else if text::eq_str(ks, "save") { "ذخیره" }
    else if text::eq_str(ks, "cancel") { "انصراف" }
    else if text::eq_str(ks, "about") { "درباره" }
    else if text::eq_str(ks, "diagnostics") { "خروجی عیب‌یابی" }
    else if text::eq_str(ks, "refresh") { "بروزرسانی اطلاعات مودم" }
    else if text::eq_str(ks, "hotplug") { "تشخیص اتصال/جداسازی" }
    else if text::eq_str(ks, "suspend_resume") { "سازگار با Sleep/Resume" }
    else if text::eq_str(ks, "crash_safe") { "Rollback ایمن در برابر کرش" }
    else if text::eq_str(ks, "website") { "وب‌سایت MilMit" }
    else { en(key) }
}

/// The text of a translation key in the given language.
pub open spec fn spec_tr(lang: Language, key: Seq<char>) -> Seq<char> {
    if lang == Language::Fa { spec_fa(key) } else { spec_en(key) }
}

pub fn tr<'a>(lang: Language, key: &'a str) -> (r: &'a str)
    ensures
        r@ == spec_tr(lang, key@),
{
    if lang == Language::Fa { fa(key) } else { en(key) }
}

/// Persian for a known English label, or empty when the label is not in the table.
pub open spec fn persian_label(t: Seq<char>) -> Seq<char> {
    if t == "Refresh modem data"@ { "بروزرسانی اطلاعات مودم"@ }
    else if t == "Preferences"@ { "تنظیمات"@ }
    else if t == "Export privacy-safe diagnostics"@ { "خروجی عیب‌یابی بدون اطلاعات حساس"@ }
    else if t == "About ModemDeck by MilMit"@ { "درباره ModemDeck از MilMit"@ }
    else if t == "Radio quality"@ { "کیفیت رادیویی"@ }
    else if t == "Serving radio snapshot"@ { "وضعیت شبکه متصل"@ }
    else if t == "Serving radio"@ { "رادیوی متصل"@ }
    else if t == "Signal history"@ { "تاریخچه سیگنال"@ }
    else if t == "Band manager"@ { "مدیریت باند"@ }
    else if t == "LTE cell lock lab"@ { "آزمایشگاه قفل سلول LTE"@ }
    else if t == "Technical details"@ { "جزئیات فنی"@ }
    else if t == "Configured / allowed bands"@ { "باندهای مجاز / تنظیم‌شده"@ }
    else if t == "Auto"@ { "خودکار"@ }
    else if t == "LTE FDD"@ { "LTE FDD"@ }
    else if t == "TD-LTE"@ { "TD-LTE"@ }
    else if t == "Apply custom selection"@ { "اعمال انتخاب سفارشی"@ }
    else if t == "Keep this selection"@ { "تأیید این انتخاب"@ }
    else if t == "Restore previous now"@ { "بازگردانی تنظیم قبلی"@ }
    else if t == "Generate preview"@ { "ساخت پیش‌نمایش"@ }
    else if t == "Serving cell"@ { "سلول متصل"@ }
    else if t == "Scan serving cell"@ { "اسکن سلول متصل"@ }
    else if t == "Carrier aggregation"@ { "تجمیع حامل"@ }
    else if t == "Serving band"@ { "باند متصل"@ }
    else if t == "Bandwidth"@ { "پهنای باند"@ }
    else if t == "Duplex"@ { "نوع Duplex"@ }
    else if t == "Firmware"@ { "فریمور"@ }
    else if t == "Capabilities"@ { "قابلیت‌ها"@ }
    else if t == "Supported bands"@ { "باندهای پشتیبانی‌شده"@ }
    else if t == "ModemManager plugin"@ { "پلاگین ModemManager"@ }
    else if t == "Primary port"@ { "پورت اصلی"@ }
    else if t == "D-Bus path"@ { "مسیر D-Bus"@ }
    else if t == "Overall"@ { "وضعیت کلی"@ }
    else if t == "Strength (RSRP)"@ { "قدرت (RSRP)"@ }
    else if t == "Quality (RSRQ)"@ { "کیفیت (RSRQ)"@ }
    else if t == "Interference"@ { "تداخل"@ }
    else if t == "Excellent"@ { "عالی"@ }
    else if t == "Good"@ { "خوب"@ }
    else if t == "Fair"@ { "متوسط"@ }
    else if t == "Poor"@ { "ضعیف"@ }
    else if t == "Unknown"@ { "نامشخص"@ }
    else if t == "Not active"@ { "غیرفعال"@ }
    else if t == "Active • 4G+"@ { "فعال • 4G+"@ }
    else if t == "Read radio details"@ { "خواندن جزئیات رادیویی"@ }
    else if t == "Refresh radio details"@ { "بروزرسانی جزئیات رادیویی"@ }
    else if t == "Save and close"@ { "ذخیره و بستن"@ }
    else if t == "Background monitor"@ { "مانیتور پس‌زمینه"@ }
    else if t == "Notifications"@ { "اعلان‌ها"@ }
    else if t == "Signal refresh"@ { "بازه بروزرسانی سیگنال"@ }
    else if t == "Autoconnect"@ { "اتصال خودکار"@ }
    else if t == "Enable PIN protection"@ { "فعال‌کردن محافظت PIN"@ }
    else if t == "Disable PIN protection"@ { "غیرفعال‌کردن محافظت PIN"@ }
    else if t == "Save changes"@ { "ذخیره تغییرات"@ }
    else if t == "Data usage & live traffic"@ { "مصرف داده و سرعت لحظه‌ای"@ }
    else if t == "SIM security"@ { "امنیت سیم‌کارت"@ }
    else if t == "APN manager"@ { "مدیریت APN"@ }
    else if t == "Band profiles"@ { "پروفایل‌های باند"@ }
    else if t == "Reset usage counters"@ { "صفر کردن آمار مصرف"@ }
    else if t == "Create APN profile"@ { "ساخت پروفایل APN"@ }
    else if t == "Activate"@ { "فعال‌سازی"@ }
    else if t == "Delete"@ { "حذف"@ }
    else if t == "Apply profile"@ { "اعمال پروفایل"@ }
    else if t == "Delete profile"@ { "حذف پروفایل"@ }
    else if t == "Save current selection as profile"@ { "ذخیره انتخاب فعلی به‌عنوان پروفایل"@ }
    else if t == "Connection name"@ { "نام اتصال"@ }
    else if t == "Username (optional)"@ { "نام کاربری (اختیاری)"@ }
    else if t == "Password (optional; leave blank to keep existing)"@ { "رمز عبور (اختیاری؛ برای حفظ رمز فعلی خالی بگذارید)"@ }
    else if t == "Profile name"@ { "نام پروفایل"@ }
    else { Seq::empty() }
}

fn persian_label_exec(t: &[char]) -> (r: &'static str)
    ensures
        r@ == persian_label(t@),
{
    if text::eq_str(t, "Refresh modem data") { "بروزرسانی اطلاعات مودم" }
    else if text::eq_str(t, "Preferences") { "تنظیمات" }
    else if text::eq_str(t, "Export privacy-safe diagnostics") { "خروجی عیب‌یابی بدون اطلاعات حساس" }
    else if text::eq_str(t, "About ModemDeck by MilMit") { "درباره ModemDeck از MilMit" }
    else if text::eq_str(t, "Radio quality") { "کیفیت رادیویی" }
    else if text::eq_str(t, "Serving radio snapshot") { "وضعیت شبکه متصل" }
    else if text::eq_str(t, "Serving radio") { "رادیوی متصل" }
    else if text::eq_str(t, "Signal history") { "تاریخچه سیگنال" }
    else if text::eq_str(t, "Band manager") { "مدیریت باند" }
    else if text::eq_str(t, "LTE cell lock lab") { "آزمایشگاه قفل سلول LTE" }
    else if text::eq_str(t, "Technical details") { "جزئیات فنی" }
    else if text::eq_str(t, "Configured / allowed bands") { "باندهای مجاز / تنظیم‌شده" }
    else if text::eq_str(t, "Auto") { "خودکار" }
    else if text::eq_str(t, "LTE FDD") { "LTE FDD" }
    else if text::eq_str(t, "TD-LTE") { "TD-LTE" }
    else if text::eq_str(t, "Apply custom selection") { "اعمال انتخاب سفارشی" }
    else if text::eq_str(t, "Keep this selection") { "تأیید این انتخاب" }
    else if text::eq_str(t, "Restore previous now") { "بازگردانی تنظیم قبلی" }
    else if text::eq_str(t, "Generate preview") { "ساخت پیش‌نمایش" }
    else if text::eq_str(t, "Serving cell") { "سلول متصل" }
    else if text::eq_str(t, "Scan serving cell") { "اسکن سلول متصل" }
    else if text::eq_str(t, "Carrier aggregation") { "تجمیع حامل" }
    else if text::eq_str(t, "Serving band") { "باند متصل" }
    else if text::eq_str(t, "Bandwidth") { "پهنای باند" }
    else if text::eq_str(t, "Duplex") { "نوع Duplex" }
    else if text::eq_str(t, "Firmware") { "فریمور" }
    else if text::eq_str(t, "Capabilities") { "قابلیت‌ها" }
    else if text::eq_str(t, "Supported bands") { "باندهای پشتیبانی‌شده" }
    else if text::eq_str(t, "ModemManager plugin") { "پلاگین ModemManager" }
    else if text::eq_str(t, "Primary port") { "پورت اصلی" }
    else if text::eq_str(t, "D-Bus path") { "مسیر D-Bus" }
    else if text::eq_str(t, "Overall") { "وضعیت کلی" }
    else if text::eq_str(t, "Strength (RSRP)") { "قدرت (RSRP)" }
    else if text::eq_str(t, "Quality (RSRQ)") { "کیفیت (RSRQ)" }
    else if text::eq_str(t, "Interference") { "تداخل" }
    else if text::eq_str(t, "Excellent") { "عالی" }
    else if text::eq_str(t, "Good") { "خوب" }
    else if text::eq_str(t, "Fair") { "متوسط" }
    else if text::eq_str(t, "Poor") { "ضعیف" }
    else if text::eq_str(t, "Unknown") { "نامشخص" }
    else if text::eq_str(t, "Not active") { "غیرفعال" }
    else if text::eq_str(t, "Active • 4G+") { "فعال • 4G+" }
    else if text::eq_str(t, "Read radio details") { "خواندن جزئیات رادیویی" }
    else if text::eq_str(t, "Refresh radio details") { "بروزرسانی جزئیات رادیویی" }
    else if text::eq_str(t, "Save and close") { "ذخیره و بستن" }
    else if text::eq_str(t, "Background monitor") { "مانیتور پس‌زمینه" }
    else if text::eq_str(t, "Notifications") { "اعلان‌ها" }
    else if text::eq_str(t, "Signal refresh") { "بازه بروزرسانی سیگنال" }
    else if text::eq_str(t, "Autoconnect") { "اتصال خودکار" }
    else if text::eq_str(t, "Enable PIN protection") { "فعال‌کردن محافظت PIN" }
    else if text::eq_str(t, "Disable PIN protection") { "غیرفعال‌کردن محافظت PIN" }
    else if text::eq_str(t, "Save changes") { "ذخیره تغییرات" }
    else if text::eq_str(t, "Data usage & live traffic") { "مصرف داده و سرعت لحظه‌ای" }
    else if text::eq_str(t, "SIM security") { "امنیت سیم‌کارت" }
    else if text::eq_str(t, "APN manager") { "مدیریت APN" }
    else if text::eq_str(t, "Band profiles") { "پروفایل‌های باند" }
    else if text::eq_str(t, "Reset usage counters") { "صفر کردن آمار مصرف" }
    else if text::eq_str(t, "Create APN profile") { "ساخت پروفایل APN" }
    else if text::eq_str(t, "Activate") { "فعال‌سازی" }
    else if text::eq_str(t, "Delete") { "حذف" }
    else if text::eq_str(t, "Apply profile") { "اعمال پروفایل" }
    else if text::eq_str(t, "Delete profile") { "حذف پروفایل" }
    else if text::eq_str(t, "Save current selection as profile") { "ذخیره انتخاب فعلی به‌عنوان پروفایل" }
    else if text::eq_str(t, "Connection name") { "نام اتصال" }
    else if text::eq_str(t, "Username (optional)") { "نام کاربری (اختیاری)" }
    else if text::eq_str(t, "Password (optional; leave blank to keep existing)") { "رمز عبور (اختیاری؛ برای حفظ رمز فعلی خالی بگذارید)" }
    else if text::eq_str(t, "Profile name") { "نام پروفایل" }
    else {
        proof {
            reveal_strlit("");
        }
        assert(""@ =~= Seq::<char>::empty());
        ""
    }
}

/// The Persian form of a label that starts with a known English prefix.
pub open spec fn persian_prefixed(t: Seq<char>) -> Option<Seq<char>> {
    if text::strip_prefix(t, "Modem signal  "@) is Some { Some("سیگنال مودم  "@ + text::strip_prefix(t, "Modem signal  "@).unwrap()) }
    else if text::strip_prefix(t, "Detected band mode: "@) is Some { Some("حالت باند تشخیص‌داده‌شده: "@ + text::strip_prefix(t, "Detected band mode: "@).unwrap()) }
    else if text::strip_prefix(t, "Read source: "@) is Some { Some("منبع خواندن: "@ + text::strip_prefix(t, "Read source: "@).unwrap()) }
    else if text::strip_prefix(t, "Driver profile • "@) is Some { Some("پروفایل درایور • "@ + text::strip_prefix(t, "Driver profile • "@).unwrap()) }
    else if text::strip_prefix(t, "Vendor driver • "@) is Some { Some("درایور سازنده • "@ + text::strip_prefix(t, "Vendor driver • "@).unwrap()) }
    else { None }
}

/// A user-interface label in the given language: English labels are kept;
/// in Persian, a label of the table is replaced whole, a label with a known
/// prefix has that prefix translated, and any other label is kept.
pub open spec fn spec_translate_ui_text(lang: Language, t: Seq<char>) -> Seq<char> {
    if lang != Language::Fa {
        t
    } else if persian_label(t).len() > 0 {
        persian_label(t)
    } else {
        match persian_prefixed(t) {
            Some(p) => p,
            None => t,
        }
    }
}

pub fn translate_ui_text(lang: Language, t: &str) -> (r: String)
    ensures
        r@ == spec_translate_ui_text(lang, t@),
{
    if lang != Language::Fa {
        return String::from_str(t);
    }
    let v = text::chars_of(t);
    let exact = persian_label_exec(v.as_slice());
    let ev = text::chars_of(exact);
    if ev.len() > 0 {
        return String::from_str(exact);
    }
    if let Some(rest) = text::strip_prefix_str(v.as_slice(), "Modem signal  ") {
        let mut out = text::chars_of("سیگنال مودم  ");
        text::push_all(&mut out, rest.as_slice());
        return text::string_from(out.as_slice());
    }
    if let Some(rest) = text::strip_prefix_str(v.as_slice(), "Detected band mode: ") {
        let mut out = text::chars_of("حالت باند تشخیص‌داده‌شده: ");
        text::push_all(&mut out, rest.as_slice());
        return text::string_from(out.as_slice());
    }
    if let Some(rest) = text::strip_prefix_str(v.as_slice(), "Read source: ") {
        let mut out = text::chars_of("منبع خواندن: ");
        text::push_all(&mut out, rest.as_slice());
        return text::string_from(out.as_slice());
    }
    if let Some(rest) = text::strip_prefix_str(v.as_slice(), "Driver profile • ") {
        let mut out = text::chars_of("پروفایل درایور • ");
        text::push_all(&mut out, rest.as_slice());
        return text::string_from(out.as_slice());
    }
    if let Some(rest) = text::strip_prefix_str(v.as_slice(), "Vendor driver • ") {
        let mut out = text::chars_of("درایور سازنده • ");
        text::push_all(&mut out, rest.as_slice());
        return text::string_from(out.as_slice());
    }
    String::from_str(t)
}

} // verus!
