//! `SETTING.TXT`: the settings of a board as clients read them.

use crate::board_config::BoardConfig;
use crate::text::{chars_of, push_str, string_of};
use vstd::prelude::*;

verus! {

/// The seconds for which caches keep `SETTING.TXT`.
pub const SETTING_TXT_MAX_AGE: u32 = 86400;

/// The settings that are the same on every board.
pub open spec fn fixed_settings() -> Seq<char> {
    "\nBBS_TITLE_COLOR=#000000\nBBS_BG_COLOR=#FFFFFF\nBBS_MAKETHREAD_COLOR=#CCFFCC\nBBS_MENU_COLOR=#CCFFCC\nBBS_THREAD_COLOR=#EFEFEF\nBBS_TEXT_COLOR=#000000\nBBS_NAME_COLOR=green\nBBS_LINK_COLOR=#0000FF\nBBS_ALINK_COLOR=#FF0000\nBBS_VLINK_COLOR=#660099\nBBS_THREAD_NUMBER=10\nBBS_CONTENTS_NUMBER=10\nBBS_LINE_NUMBER=32\nBBS_MAX_MENU_THREAD=10\nBBS_SUBJECT_COLOR=#FF0000\nBBS_UNICODE=pass\nBBS_NAMECOOKIE_CHECK=checked\nBBS_MAILCOOKIE_CHECK=checked\nBBS_SUBJECT_COUNT=96\nBBS_NAME_COUNT=64\nBBS_MAIL_COUNT=64\nBBS_MESSAGE_COUNT=4096\nBBS_THREAD_TATESUGI=8\nBBS_PROXY_CHECK=\nBBS_OVERSEA_PROXY=\nBBS_RAWIP_CHECK=\nBBS_SLIP=verbose\nBBS_DISP_IP=\nBBS_FORCE_ID=checked\nBBS_BE_ID=\nBBS_BE_TYPE2=\nBBS_NO_ID=\nBBS_JP_CHECK=\nBBS_YMD_WEEKS=\nEMOTICONS=checked\nBBS_NOSUSU=checked\nBBS_USE_VIPQ2=16\n                "@
}

/// The text of `SETTING.TXT` for a board: its key, its title, the name of
/// posts without one, and the fixed settings.
pub open spec fn setting_text(board_key: Seq<char>, title: Seq<char>, default_name: Seq<char>) -> Seq<
    char,
> {
    board_key + "@"@ + board_key + "\nBBS_TITLE="@ + title + "\nBBS_TITLE_ORIG="@ + title
        + "\nBBS_NONAME_NAME="@ + default_name + fixed_settings()
}

/// Writes `SETTING.TXT` for a board.
pub fn route_setting_txt(conf: &BoardConfig) -> (r: String)
    ensures
        r@ == setting_text(conf.board_key@, conf.title@, conf.default_name@),
{
    let mut out = chars_of(conf.board_key.as_str());
    push_str(&mut out, "@");
    push_str(&mut out, conf.board_key.as_str());
    push_str(&mut out, "\nBBS_TITLE=");
    push_str(&mut out, conf.title.as_str());
    push_str(&mut out, "\nBBS_TITLE_ORIG=");
    push_str(&mut out, conf.title.as_str());
    push_str(&mut out, "\nBBS_NONAME_NAME=");
    push_str(&mut out, conf.default_name.as_str());
    push_str(
        &mut out,
        "\nBBS_TITLE_COLOR=#000000\nBBS_BG_COLOR=#FFFFFF\nBBS_MAKETHREAD_COLOR=#CCFFCC\nBBS_MENU_COLOR=#CCFFCC\nBBS_THREAD_COLOR=#EFEFEF\nBBS_TEXT_COLOR=#000000\nBBS_NAME_COLOR=green\nBBS_LINK_COLOR=#0000FF\nBBS_ALINK_COLOR=#FF0000\nBBS_VLINK_COLOR=#660099\nBBS_THREAD_NUMBER=10\nBBS_CONTENTS_NUMBER=10\nBBS_LINE_NUMBER=32\nBBS_MAX_MENU_THREAD=10\nBBS_SUBJECT_COLOR=#FF0000\nBBS_UNICODE=pass\nBBS_NAMECOOKIE_CHECK=checked\nBBS_MAILCOOKIE_CHECK=checked\nBBS_SUBJECT_COUNT=96\nBBS_NAME_COUNT=64\nBBS_MAIL_COUNT=64\nBBS_MESSAGE_COUNT=4096\nBBS_THREAD_TATESUGI=8\nBBS_PROXY_CHECK=\nBBS_OVERSEA_PROXY=\nBBS_RAWIP_CHECK=\nBBS_SLIP=verbose\nBBS_DISP_IP=\nBBS_FORCE_ID=checked\nBBS_BE_ID=\nBBS_BE_TYPE2=\nBBS_NO_ID=\nBBS_JP_CHECK=\nBBS_YMD_WEEKS=\nEMOTICONS=checked\nBBS_NOSUSU=checked\nBBS_USE_VIPQ2=16\n                ",
    );
    string_of(&out)
}

} // verus!
