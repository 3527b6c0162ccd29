//! Replies sent back to the caller, as values and as text.
use vstd::prelude::*;
use crate::text::{append_chars, chars_of, decimal_text, push_decimal, string_from_chars};

verus! {

/// The views of a list of strings.
pub open spec fn strings_view(v: Seq<String>) -> Seq<Seq<char>> {
    v.map_values(|s: String| s@)
}

/// A reply to the caller.
pub enum Reply {
    /// The list of commands.
    Menu,
    /// The names of the configured devices.
    DeviceList { names: Vec<String> },
    /// The state of every device: `online[i]` for `names[i]`.
    NetworkStatus { names: Vec<String>, online: Vec<bool> },
    /// The state of one device.
    DeviceStatus { name: String, online: bool },
    /// The magic packet went out; the device is checked after `timeout_secs`.
    Sent { name: String, timeout_secs: u64 },
    /// The magic packet could not be sent.
    NetworkError,
    /// No device has the name asked for.
    DeviceNotFound,
    /// A command that needs a device name came without one.
    MissingDeviceName,
    /// The state of a device once its verification delay has passed.
    WakeResult { name: String, online: bool },
}

pub enum ReplyView {
    Menu,
    DeviceList { names: Seq<Seq<char>> },
    NetworkStatus { names: Seq<Seq<char>>, online: Seq<bool> },
    DeviceStatus { name: Seq<char>, online: bool },
    Sent { name: Seq<char>, timeout_secs: u64 },
    NetworkError,
    DeviceNotFound,
    MissingDeviceName,
    WakeResult { name: Seq<char>, online: bool },
}

impl View for Reply {
    type V = ReplyView;

    open spec fn view(&self) -> ReplyView {
        match self {
            Reply::Menu => ReplyView::Menu,
            Reply::DeviceList { names } => ReplyView::DeviceList { names: strings_view(names@) },
            Reply::NetworkStatus { names, online } => ReplyView::NetworkStatus {
                names: strings_view(names@),
                online: online@,
            },
            Reply::DeviceStatus { name, online } => ReplyView::DeviceStatus {
                name: name@,
                online: *online,
            },
            Reply::Sent { name, timeout_secs } => ReplyView::Sent {
                name: name@,
                timeout_secs: *timeout_secs,
            },
            Reply::NetworkError => ReplyView::NetworkError,
            Reply::DeviceNotFound => ReplyView::DeviceNotFound,
            Reply::MissingDeviceName => ReplyView::MissingDeviceName,
            Reply::WakeResult { name, online } => ReplyView::WakeResult {
                name: name@,
                online: *online,
            },
        }
    }
}

pub open spec fn online_word(online: bool) -> Seq<char> {
    if online {
        "✅ ONLINE"@
    } else {
        "🔴 OFFLINE"@
    }
}

pub open spec fn wake_word(online: bool) -> Seq<char> {
    if online {
        "✅ ONLINE"@
    } else {
        "⚠️ STILL OFFLINE"@
    }
}

/// One line per name of the device list.
pub open spec fn list_lines(names: Seq<Seq<char>>) -> Seq<char>
    decreases names.len(),
{
    if names.len() == 0 {
        Seq::empty()
    } else {
        list_lines(names.drop_last()) + "• <code>"@ + names.last() + "</code>\n"@
    }
}

/// The probe result for the `i`-th device; a missing one counts as offline.
pub open spec fn online_at(online: Seq<bool>, i: int) -> bool {
    0 <= i < online.len() && online[i]
}

/// One line per device of the status report.
pub open spec fn status_lines(names: Seq<Seq<char>>, online: Seq<bool>) -> Seq<char>
    decreases names.len(),
{
    if names.len() == 0 {
        Seq::empty()
    } else {
        status_lines(names.drop_last(), online) + "• <code>"@ + names.last() + "</code>: "@
            + online_word(online_at(online, names.len() - 1)) + "\n"@
    }
}

/// The text of a reply.
pub open spec fn reply_text(v: ReplyView) -> Seq<char> {
    match v {
        ReplyView::Menu => "<b>🤖 WOL Bot Menu</b>\n\n<code>/list</code>, <code>/status_all</code>, <code>/wake &lt;name&gt;</code>"@,
        ReplyView::DeviceList { names } => "<b>📋 Configured Devices:</b>\n"@ + list_lines(names),
        ReplyView::NetworkStatus { names, online } => "<b>🔍 Network Status:</b>\n"@
            + status_lines(names, online),
        ReplyView::DeviceStatus { name, online } => "Device <code>"@ + name + "</code> is "@
            + online_word(online),
        ReplyView::Sent { name, timeout_secs } => "🚀 Packet sent to <code>"@ + name
            + "</code>. Verifying in "@ + decimal_text(timeout_secs as nat) + "s..."@,
        ReplyView::NetworkError => "❌ Network error."@,
        ReplyView::DeviceNotFound => "❌ Device not found."@,
        ReplyView::MissingDeviceName => "❌ Device name missing."@,
        ReplyView::WakeResult { name, online } => "Result for <code>"@ + name + "</code>: "@
            + wake_word(online),
    }
}

/// Whether the text of a reply is HTML markup rather than plain text.
pub open spec fn reply_markup(v: ReplyView) -> bool {
    !(v is NetworkError || v is DeviceNotFound || v is MissingDeviceName)
}

fn append_str(dst: &mut Vec<char>, s: &str)
    ensures
        final(dst)@ == old(dst)@ + s@,
{
    append_chars(dst, &chars_of(s));
}

fn online_word_exec(online: bool) -> (r: &'static str)
    ensures
        r@ == online_word(online),
{
    if online {
        "✅ ONLINE"
    } else {
        "🔴 OFFLINE"
    }
}

fn wake_word_exec(online: bool) -> (r: &'static str)
    ensures
        r@ == wake_word(online),
{
    if online {
        "✅ ONLINE"
    } else {
        "⚠️ STILL OFFLINE"
    }
}

impl Reply {
    /// Whether `text` is HTML markup rather than plain text.
    pub fn uses_markup(&self) -> (r: bool)
        ensures
            r == reply_markup(self@),
    {
        match self {
            Reply::NetworkError => false,
            Reply::DeviceNotFound => false,
            Reply::MissingDeviceName => false,
            _ => true,
        }
    }

    /// The text sent to the caller.
    pub fn text(&self) -> (r: String)
        ensures
            r@ == reply_text(self@),
    {
        let mut out: Vec<char> = Vec::new();
        match self {
            Reply::Menu => {
                append_str(
                    &mut out,
                    "<b>🤖 WOL Bot Menu</b>\n\n<code>/list</code>, <code>/status_all</code>, <code>/wake &lt;name&gt;</code>",
                );
            },
            Reply::DeviceList { names } => {
                append_str(&mut out, "<b>📋 Configured Devices:</b>\n");
                let ghost head = out@;
                let mut i: usize = 0;
                while i < names.len()
                    invariant
                        i <= names@.len(),
                        out@ == head + list_lines(strings_view(names@).take(i as int)),
                    decreases names@.len() - i,
                {
                    assert(strings_view(names@).take(i + 1).drop_last() == strings_view(
                        names@,
                    ).take(i as int));
                    append_str(&mut out, "• <code>");
                    append_str(&mut out, names[i].as_str());
                    append_str(&mut out, "</code>\n");
                    i = i + 1;
                    assert(out@ =~= head + list_lines(strings_view(names@).take(i as int)));
                }
                assert(strings_view(names@).take(names@.len() as int) =~= strings_view(names@));
                assert(out@ =~= reply_text(self@));
            },
            Reply::NetworkStatus { names, online } => {
                append_str(&mut out, "<b>🔍 Network Status:</b>\n");
                let ghost head = out@;
                let mut i: usize = 0;
                while i < names.len()
                    invariant
                        i <= names@.len(),
                        out@ == head + status_lines(strings_view(names@).take(i as int), online@),
                    decreases names@.len() - i,
                {
                    assert(strings_view(names@).take(i + 1).drop_last() == strings_view(
                        names@,
                    ).take(i as int));
                    let up = i < online.len() && online[i];
                    append_str(&mut out, "• <code>");
                    append_str(&mut out, names[i].as_str());
                    append_str(&mut out, "</code>: ");
                    append_str(&mut out, online_word_exec(up));
                    append_str(&mut out, "\n");
                    i = i + 1;
                    assert(out@ =~= head + status_lines(strings_view(names@).take(i as int), online@));
                }
                assert(strings_view(names@).take(names@.len() as int) =~= strings_view(names@));
                assert(out@ =~= reply_text(self@));
            },
            Reply::DeviceStatus { name, online } => {
                append_str(&mut out, "Device <code>");
                append_str(&mut out, name.as_str());
                append_str(&mut out, "</code> is ");
                append_str(&mut out, online_word_exec(*online));
                assert(out@ =~= reply_text(self@));
            },
            Reply::Sent { name, timeout_secs } => {
                append_str(&mut out, "🚀 Packet sent to <code>");
                append_str(&mut out, name.as_str());
                append_str(&mut out, "</code>. Verifying in ");
                push_decimal(&mut out, *timeout_secs);
                append_str(&mut out, "s...");
                assert(out@ =~= reply_text(self@));
            },
            Reply::NetworkError => {
                append_str(&mut out, "❌ Network error.");
                assert(out@ =~= reply_text(self@));
            },
            Reply::DeviceNotFound => {
                append_str(&mut out, "❌ Device not found.");
                assert(out@ =~= reply_text(self@));
            },
            Reply::MissingDeviceName => {
                append_str(&mut out, "❌ Device name missing.");
                assert(out@ =~= reply_text(self@));
            },
            Reply::WakeResult { name, online } => {
                append_str(&mut out, "Result for <code>");
                append_str(&mut out, name.as_str());
                append_str(&mut out, "</code>: ");
                append_str(&mut out, wake_word_exec(*online));
                assert(out@ =~= reply_text(self@));
            },
        }
        string_from_chars(&out)
    }
}

} // verus!
