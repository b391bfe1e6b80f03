//! What the presentation layer reads from the core: user-interface
//! events, menu labels, the effective player selection, and the
//! command used to open a stream.

use vstd::prelude::*;
use vstd::string::StringExecFns;

use crate::config::{Channel, ChannelModel, OpenStreamUsing, State};
use crate::text::{dec_str, strip_prefix, u64_to_string};

verus! {

/// The user-interface events exchanged with the presentation layer.
#[derive(Clone, Copy, Debug, PartialEq, Eq, Structural)]
pub enum Events {
    ClickTrayIcon,
    DoubleClickTrayIcon,
    Exit,
    OpenChannelsFile,
    /// Some reconciliation or merge completed; shown state may be
    /// stale.
    UpdatedChannels,
    /// The user picked a player for the rest of the session.
    ChangeCurrentPlayer(OpenStreamUsing),
    /// The user asked to open the channel at this index of the
    /// tracked list.
    OpenChannel(usize),
}

/// The label shown for one channel: the name alone while offline, and
/// the title and viewer count appended while online.
pub open spec fn label_chars(c: ChannelModel) -> Seq<char> {
    if c.is_online {
        let with_title = match c.title {
            Some(t) => c.name + " - "@ + t,
            None => c.name,
        };
        match c.viewers {
            Some(v) => with_title + " ("@ + dec_str(v as nat) + " viewers)"@,
            None => with_title,
        }
    } else {
        c.name
    }
}

/// Builds the label shown for one channel in the channels menu.
pub fn channel_label(c: &Channel) -> (r: String)
    ensures
        r@ == label_chars(c@),
{
    let mut result = c.name.clone();
    if c.is_online {
        match &c.title {
            Some(t) => {
                result.append(" - ");
                result.append(t.as_str());
            },
            None => {},
        }
        match c.viewers {
            Some(v) => {
                result.append(" (");
                let count = u64_to_string(v);
                result.append(count.as_str());
                result.append(" viewers)");
            },
            None => {},
        }
    }
    proof {
        assert(result@ =~= label_chars(c@));
    }
    result
}

/// The player selection in effect: the session-scoped override when
/// one was made, else the configured player.
pub fn current_player(state: &State) -> (p: OpenStreamUsing)
    ensures
        p == (match state@.session_player {
            Some(session) => session,
            None => state@.player,
        }),
{
    match state.session_player {
        Some(session) => session,
        None => state.player,
    }
}

/// How the presentation layer opens a stream: the target handed to
/// the opener, and the program to open it with — the system default
/// handler when absent.
#[derive(Debug, PartialEq, Eq)]
pub struct OpenCommand {
    pub target: String,
    pub program: Option<String>,
}

/// Builds the command that opens the named channel's stream with the
/// selected player.
pub fn open_command(player: OpenStreamUsing, name: &str) -> (r: OpenCommand)
    ensures
        player == OpenStreamUsing::Browser ==> r.target@ == "https://twitch.tv/"@ + name@
            && r.program is None,
        player == OpenStreamUsing::Mpv ==> r.target@ == "https://twitch.tv/"@ + name@
            + " --ytdl-format=best"@ && (match r.program {
            Some(p) => p@ == "mpv"@,
            None => false,
        }),
        player == OpenStreamUsing::Streamlink ==> r.target@ == "twitch.tv/"@ + name@ + " best"@
            && (match r.program {
            Some(p) => p@ == "streamlink"@,
            None => false,
        }),
{
    match player {
        OpenStreamUsing::Browser => {
            let mut target = "https://twitch.tv/".to_owned();
            target.append(name);
            OpenCommand { target, program: None }
        },
        OpenStreamUsing::Mpv => {
            let mut target = "https://twitch.tv/".to_owned();
            target.append(name);
            target.append(" --ytdl-format=best");
            proof {
                assert(target@ =~= "https://twitch.tv/"@ + name@ + " --ytdl-format=best"@);
            }
            OpenCommand { target, program: Some("mpv".to_owned()) }
        },
        OpenStreamUsing::Streamlink => {
            let mut target = "twitch.tv/".to_owned();
            target.append(name);
            target.append(" best");
            proof {
                assert(target@ =~= "twitch.tv/"@ + name@ + " best"@);
            }
            OpenCommand { target, program: Some("streamlink".to_owned()) }
        },
    }
}

/// A path without the extended-length prefix that canonicalizing a
/// path adds on some platforms.
pub open spec fn without_extended_prefix(p: Seq<char>) -> Seq<char> {
    let pre = "\\\\?\\"@;
    if pre.len() <= p.len() && p.subrange(0, pre.len() as int) == pre {
        p.subrange(pre.len() as int, p.len() as int)
    } else {
        p
    }
}

/// Strips the extended-length path prefix, when present, from a
/// canonicalized icon path.
pub fn remove_extended_path_prefix(path: &str) -> (r: String)
    ensures
        r@ == without_extended_prefix(path@),
{
    match strip_prefix(path, "\\\\?\\") {
        Some(rest) => {
            proof {
                let pre = "\\\\?\\"@;
                assert(path@.subrange(0, pre.len() as int) =~= pre);
                assert(path@.subrange(pre.len() as int, path@.len() as int) =~= rest@);
            }
            rest.to_owned()
        },
        None => path.to_owned(),
    }
}

} // verus!
