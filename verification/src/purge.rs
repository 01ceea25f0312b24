//! Deleting our data: the text of the confirmation dialog.
use crate::i18n::{catalog, Language};
use crate::text::{replace, replace_all};
use vstd::prelude::*;

verus! {

/// The config line of the dialog: the path, or a note that the OS profile is unavailable.
pub open spec fn config_line(lang: Language, config_path: Result<Seq<char>, Seq<char>>) -> Seq<char> {
    match config_path {
        Ok(p) => replace_all(catalog(lang).wipe_config_fmt@, "{path}"@, p),
        Err(_) => catalog(lang).wipe_config_unavailable@,
    }
}

/// The wipe dialog body with its `{config}` line filled in; `config_path` is
/// what `strict_config_path` gave.
pub fn dialog_body(lang: Language, config_path: &Result<String, String>) -> (r: String)
    ensures
        r@ == replace_all(
            catalog(lang).wipe_body@,
            "{config}"@,
            config_line(
                lang,
                match config_path {
                    Ok(p) => Ok(p@),
                    Err(e) => Err(e@),
                },
            ),
        ),
{
    let t = lang.tr();
    proof {
        reveal_strlit("{path}");
        reveal_strlit("{config}");
    }
    let config = match config_path {
        Ok(path) => replace(t.wipe_config_fmt, "{path}", path.as_str()),
        Err(_) => crate::text::owned(t.wipe_config_unavailable),
    };
    replace(t.wipe_body, "{config}", config.as_str())
}

} // verus!
