//! What a system notification shows, and the names under which Windows
//! knows the launcher's notifications. Showing them happens outside.
use vstd::prelude::*;
use vstd::string::*;
use crate::text::{chars_of, push_str, string_of, trim, trim_chars};

verus! {

/// The identity Windows shows the launcher's notifications under.
pub const WINDOWS_APP_ID: &'static str = "moe.taiho.azurnext-launcher.notification";

/// The title and body a notification shows.
#[derive(Debug)]
pub struct NotificationText {
    pub title: String,
    pub body: String,
}

/// A notification's title and body as shown: both trimmed, and a blank
/// title replaced by `default_title`.
pub fn notification_text(title: &str, body: &str, default_title: &str) -> (r: NotificationText)
    ensures
        r.title@ == if trim(title@).len() == 0 {
            default_title@
        } else {
            trim(title@)
        },
        r.body@ == trim(body@),
{
    let t = trim_chars(&chars_of(title));
    let shown_title = if t.len() == 0 {
        String::from_str(default_title)
    } else {
        string_of(&t)
    };
    NotificationText { title: shown_title, body: string_of(&trim_chars(&chars_of(body))) }
}

/// A path written with `/` in place of `\`, as the notification's icon
/// address takes it.
pub open spec fn icon_uri_text(path: Seq<char>) -> Seq<char> {
    path.map_values(|c: char| if c == '\\' { '/' } else { c })
}

/// The icon's path as the notification's icon address takes it.
pub fn icon_uri_path(path: &str) -> (r: String)
    ensures
        r@ == icon_uri_text(path@),
{
    let cs = chars_of(path);
    let mut v: Vec<char> = Vec::new();
    let mut i: usize = 0;
    while i < cs.len()
        invariant
            i <= cs.len(),
            v@ == cs@.take(i as int).map_values(|c: char| if c == '\\' { '/' } else { c }),
        decreases cs.len() - i,
    {
        let c = cs[i];
        v.push(
            if c == '\\' {
                '/'
            } else {
                c
            },
        );
        i = i + 1;
        assert(v@ =~= cs@.take(i as int).map_values(|c: char| if c == '\\' { '/' } else { c }));
    }
    assert(cs@.take(cs.len() as int) =~= cs@);
    string_of(&v)
}

/// The registry key under which Windows keeps the notification identity `id`.
pub fn app_user_model_id_key(id: &str) -> (r: String)
    ensures
        r@ == "SOFTWARE\\Classes\\AppUserModelId\\"@ + id@,
{
    let mut s = String::from_str("SOFTWARE\\Classes\\AppUserModelId\\");
    push_str(&mut s, id);
    s
}

} // verus!
