//! The browser shell's own messages and the small pure computations the
//! shell needs: translating library messages, and putting a relative age
//! into words.  Reading the clock is the shell's business; it hands the
//! difference in.

use vstd::prelude::*;

use crate::api::{ApiStatus, Node};
use crate::ren_settings::SettingUpdate;
use crate::text::{chars_of, string_from_chars};

verus! {

/// Everything the browser shell reacts to.
#[derive(Debug, Clone)]
pub enum Message {
    AddTab,
    CloseTab(usize),
    SelectTab(usize),
    AddressInputChanged(String),
    LoadPage,
    ReloadPage,
    ApiStatusReceived(Box<Result<ApiStatus, String>>),
    NodesUpdated(Box<Result<Vec<Node>, String>>),
    PageLoaded(Box<Result<String, String>>),
    ShowAddressBar,
    Tick,
    ContentLoaded(String),
    LinkClicked(String),
    NodeSearchChanged(String),
    OpenSettings,
    UpdateSetting(SettingUpdate),
    SaveSettings,
    FetchNodes,
}

/// The shell message a library message becomes; the library's remaining
/// messages fall back to opening a tab.
pub open spec fn spec_from_lib(msg: crate::Message) -> Message {
    match msg {
        crate::Message::ApiStatusReceived(r) => Message::ApiStatusReceived(r),
        crate::Message::NodesUpdated(r) => Message::NodesUpdated(r),
        crate::Message::PageLoaded(r) => Message::PageLoaded(r),
        _ => Message::AddTab,
    }
}

impl Message {
    pub fn from_lib(msg: crate::Message) -> (r: Message)
        ensures
            r == spec_from_lib(msg),
    {
        match msg {
            crate::Message::ApiStatusReceived(result) => Message::ApiStatusReceived(result),
            crate::Message::NodesUpdated(result) => Message::NodesUpdated(result),
            crate::Message::PageLoaded(result) => Message::PageLoaded(result),
            _ => Message::AddTab,
        }
    }
}

// ---------------------------------------------------------------------------
// Relative time labels
// ---------------------------------------------------------------------------
/// The decimal digit character for `d` in `0..10`.
pub open spec fn digit_char(d: int) -> char {
    if d == 0 {
        '0'
    } else if d == 1 {
        '1'
    } else if d == 2 {
        '2'
    } else if d == 3 {
        '3'
    } else if d == 4 {
        '4'
    } else if d == 5 {
        '5'
    } else if d == 6 {
        '6'
    } else if d == 7 {
        '7'
    } else if d == 8 {
        '8'
    } else {
        '9'
    }
}

/// The decimal digits of a non-negative number, most significant first.
pub open spec fn dec_digits(n: int) -> Seq<char>
    decreases n,
{
    if n < 10 {
        seq![digit_char(n)]
    } else {
        dec_digits(n / 10).push(digit_char(n % 10))
    }
}

/// A count and its unit: `1 min ago`, `5 mins ago`.
pub open spec fn unit_label(n: int, singular: Seq<char>, plural: Seq<char>) -> Seq<char> {
    dec_digits(n) + (if n == 1 {
        singular
    } else {
        plural
    })
}

/// The words for how long ago a moment was, given the age in seconds:
/// under a minute is `just now`, then minutes, hours, days, months of
/// thirty days, and years of 365 days.
pub open spec fn spec_relative_label(diff: int) -> Seq<char> {
    if diff < 60 {
        "just now"@
    } else if diff < 3600 {
        unit_label(diff / 60, " min ago"@, " mins ago"@)
    } else if diff < 86400 {
        unit_label(diff / 3600, " hour ago"@, " hours ago"@)
    } else if diff < 2592000 {
        unit_label(diff / 86400, " day ago"@, " days ago"@)
    } else if diff < 31536000 {
        unit_label(diff / 2592000, " month ago"@, " months ago"@)
    } else {
        unit_label(diff / 31536000, " year ago"@, " years ago"@)
    }
}

/// The digit character for `d < 10`.
fn digit_char_of(d: u64) -> (c: char)
    requires
        d < 10,
    ensures
        c == digit_char(d as int),
{
    if d == 0 {
        '0'
    } else if d == 1 {
        '1'
    } else if d == 2 {
        '2'
    } else if d == 3 {
        '3'
    } else if d == 4 {
        '4'
    } else if d == 5 {
        '5'
    } else if d == 6 {
        '6'
    } else if d == 7 {
        '7'
    } else if d == 8 {
        '8'
    } else {
        '9'
    }
}

/// Append the decimal digits of `n`.
fn push_dec_digits(n: u64, out: &mut Vec<char>)
    ensures
        final(out)@ == old(out)@ + dec_digits(n as int),
    decreases n,
{
    if n >= 10 {
        push_dec_digits(n / 10, out);
        let c = digit_char_of(n % 10);
        out.push(c);
        proof {
            assert(out@ =~= old(out)@ + dec_digits(n as int));
        }
    } else {
        let c = digit_char_of(n);
        out.push(c);
        proof {
            assert(out@ =~= old(out)@ + dec_digits(n as int));
        }
    }
}

/// Build `<n><unit label>`.
fn number_with_unit(n: u64, singular: &str, plural: &str) -> (r: String)
    ensures
        r@ == unit_label(n as int, singular@, plural@),
{
    let mut v: Vec<char> = Vec::new();
    push_dec_digits(n, &mut v);
    let mut unit = if n == 1 {
        chars_of(singular)
    } else {
        chars_of(plural)
    };
    v.append(&mut unit);
    string_from_chars(&v)
}

/// The words for how long ago the moment `diff` seconds back was.
pub fn relative_time_label(diff: i64) -> (r: String)
    ensures
        r@ == spec_relative_label(diff as int),
{
    if diff < 60 {
        "just now".to_owned()
    } else if diff < 3600 {
        number_with_unit((diff / 60) as u64, " min ago", " mins ago")
    } else if diff < 86400 {
        number_with_unit((diff / 3600) as u64, " hour ago", " hours ago")
    } else if diff < 2592000 {
        number_with_unit((diff / 86400) as u64, " day ago", " days ago")
    } else if diff < 31536000 {
        number_with_unit((diff / 2592000) as u64, " month ago", " months ago")
    } else {
        number_with_unit((diff / 31536000) as u64, " year ago", " years ago")
    }
}

} // verus!
