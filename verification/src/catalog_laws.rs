//! The words of the UI catalogue, pinned entry by entry for each language.
use crate::i18n::{catalog, Language};
use vstd::prelude::*;

verus! {

/// In Russian every catalogue entry is its own word: the tray, dialog and
/// notification labels name the command or message they stand for.
pub proof fn lemma_russian_words()
    ensures
        catalog(Language::Ru).enable@ == "Включить"@,
        catalog(Language::Ru).disable@ == "Выключить"@,
        catalog(Language::Ru).style@ == "Стиль"@,
        catalog(Language::Ru).solid@ == "Чёрный"@,
        catalog(Language::Ru).tint@ == "Тонировка"@,
        catalog(Language::Ru).frost@ == "Матовое стекло"@,
        catalog(Language::Ru).settings@ == "Настройки"@,
        catalog(Language::Ru).language@ == "Язык"@,
        catalog(Language::Ru).hotkey_ok_fmt@ == "Хоткей: {hk}…"@,
        catalog(Language::Ru).hotkey_busy_fmt@ == "Хоткей: {hk} (занят)…"@,
        catalog(Language::Ru).autostart@ == "Автозагрузка"@,
        catalog(Language::Ru).wipe@ == "Удалить данные…"@,
        catalog(Language::Ru).about@ == "О программе"@,
        catalog(Language::Ru).quit@ == "Выход"@,
        catalog(Language::Ru).bind_prompt@ == "Нажмите новую комбинацию"@,
        catalog(Language::Ru).bind_need_mod@ == "Нужен Ctrl / Alt / Shift / {meta}"@,
        catalog(Language::Ru).bind_title@ == "Хоткей Blackout"@,
        catalog(Language::Ru).save_enter@ == "Сохранить (Enter)"@,
        catalog(Language::Ru).cancel_esc@ == "Отмена (Esc)"@,
        catalog(Language::Ru).version@ == "Версия"@,
        catalog(Language::Ru).author_fmt@ == "Автор {name}"@,
        catalog(Language::Ru).credit_via@ == "сделано с помощью"@,
        catalog(Language::Ru).credit_minds@ == "естественного и искусственного интеллекта"@,
        catalog(Language::Ru).license@ == "Лицензия"@,
        catalog(Language::Ru).close_esc@ == "Закрыть (Esc)"@,
        catalog(Language::Ru).wipe_title@ == "Удалить данные?"@,
        catalog(Language::Ru).wipe_body@ == "Blackout будет исключена из автозагрузки, также\nбудет удален конфиг и пустая папка blackout.\nПрограмма будет закрыта.\n\n{config}\n\nПосле этого просто удалите файл программы."@,
        catalog(Language::Ru).wipe_config_fmt@ == "Конфиг: {path}"@,
        catalog(Language::Ru).wipe_config_unavailable@ == "Конфиг: профиль ОС недоступен."@,
        catalog(Language::Ru).wipe_confirm@ == "Удалить (Enter)"@,
        catalog(Language::Ru).wipe_note_title@ == "Удаление данных"@,
        catalog(Language::Ru).wipe_failed@ == "Не удалось удалить данные"@,
        catalog(Language::Ru).hotkey_title@ == "Хоткей"@,
        catalog(Language::Ru).hotkey_busy_title@ == "Хоткей занят"@,
        catalog(Language::Ru).hotkey_busy_startup@ == "{hk} уже используется. Назначьте другую комбинацию через Трей → Настройки → Хоткей"@,
        catalog(Language::Ru).hotkey_busy_retry@ == "{hk} уже используется. Попробуйте другую."@,
        catalog(Language::Ru).hotkey_saved@ == "Комбинация сохранена: {hk}"@,
        catalog(Language::Ru).autostart_failed@ == "Не удалось изменить автозагрузку"@,
        catalog(Language::Ru).wayland@ == "Wayland без X11 не поддерживается. Войдите в сессию X11 или используйте XWayland."@,
        catalog(Language::Ru).x11_busy_startup@ == "blackout: {hk} занята. Нажмите новую комбинацию в появившемся окне."@,
        catalog(Language::Ru).x11_ready@ == "Blackout (X11): {hk}, overlays ready. Смена: ПКМ по пелене или hotkey в {path}"@,
        catalog(Language::Ru).x11_saved@ == "blackout: комбинация сохранена: {hk}"@,
        catalog(Language::Ru).x11_busy_keep@ == "blackout: {hk} занята, остаётся {old}"@,
        catalog(Language::Ru).x11_bind_hint@ == "blackout: {hk}  — Enter или клик «Сохранить»"@,
{
}

/// In English every catalogue entry is its own word: the tray, dialog and
/// notification labels name the command or message they stand for.
pub proof fn lemma_english_words()
    ensures
        catalog(Language::En).enable@ == "Enable"@,
        catalog(Language::En).disable@ == "Disable"@,
        catalog(Language::En).style@ == "Style"@,
        catalog(Language::En).solid@ == "Black"@,
        catalog(Language::En).tint@ == "Tint"@,
        catalog(Language::En).frost@ == "Frosted glass"@,
        catalog(Language::En).settings@ == "Settings"@,
        catalog(Language::En).language@ == "Language"@,
        catalog(Language::En).hotkey_ok_fmt@ == "Hotkey: {hk}…"@,
        catalog(Language::En).hotkey_busy_fmt@ == "Hotkey: {hk} (in use)…"@,
        catalog(Language::En).autostart@ == "Start at login"@,
        catalog(Language::En).wipe@ == "Delete data…"@,
        catalog(Language::En).about@ == "About"@,
        catalog(Language::En).quit@ == "Quit"@,
        catalog(Language::En).bind_prompt@ == "Press a new shortcut"@,
        catalog(Language::En).bind_need_mod@ == "Needs Ctrl / Alt / Shift / {meta}"@,
        catalog(Language::En).bind_title@ == "Blackout hotkey"@,
        catalog(Language::En).save_enter@ == "Save (Enter)"@,
        catalog(Language::En).cancel_esc@ == "Cancel (Esc)"@,
        catalog(Language::En).version@ == "Version"@,
        catalog(Language::En).author_fmt@ == "Author {name}"@,
        catalog(Language::En).credit_via@ == "made with"@,
        catalog(Language::En).credit_minds@ == "natural and artificial intelligence"@,
        catalog(Language::En).license@ == "License"@,
        catalog(Language::En).close_esc@ == "Close (Esc)"@,
        catalog(Language::En).wipe_title@ == "Delete data?"@,
        catalog(Language::En).wipe_body@ == "Blackout will be removed from startup. The config\nand the empty blackout folder will also be deleted.\nThe program will close.\n\n{config}\n\nAfter that, just delete the program file."@,
        catalog(Language::En).wipe_config_fmt@ == "Config: {path}"@,
        catalog(Language::En).wipe_config_unavailable@ == "Config: OS profile is unavailable."@,
        catalog(Language::En).wipe_confirm@ == "Delete (Enter)"@,
        catalog(Language::En).wipe_note_title@ == "Delete data"@,
        catalog(Language::En).wipe_failed@ == "Could not delete data"@,
        catalog(Language::En).hotkey_title@ == "Hotkey"@,
        catalog(Language::En).hotkey_busy_title@ == "Hotkey in use"@,
        catalog(Language::En).hotkey_busy_startup@ == "{hk} is already in use. Assign another shortcut via Tray → Settings → Hotkey"@,
        catalog(Language::En).hotkey_busy_retry@ == "{hk} is already in use. Try another one."@,
        catalog(Language::En).hotkey_saved@ == "Shortcut saved: {hk}"@,
        catalog(Language::En).autostart_failed@ == "Could not change startup"@,
        catalog(Language::En).wayland@ == "Wayland without X11 is not supported. Sign in to an X11 session or use XWayland."@,
        catalog(Language::En).x11_busy_startup@ == "blackout: {hk} is taken. Press a new shortcut in the window that opened."@,
        catalog(Language::En).x11_ready@ == "Blackout (X11): {hk}, overlays ready. Change: right-click the veil or the hotkey in {path}"@,
        catalog(Language::En).x11_saved@ == "blackout: shortcut saved: {hk}"@,
        catalog(Language::En).x11_busy_keep@ == "blackout: {hk} is taken, keeping {old}"@,
        catalog(Language::En).x11_bind_hint@ == "blackout: {hk}  — Enter or click “Save”"@,
{
}

} // verus!
