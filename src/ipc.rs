//! Messages of the control socket, and where the socket lives.

use vstd::prelude::*;

verus! {

/// A command sent to the daemon; most apply to one monitor, or to all when
/// none is named.
#[derive(Debug, Clone)]
pub enum IpcCommand {
    /// Get current status
    Status,
    /// Set wallpaper for a monitor
    SetWallpaper { monitor: Option<String>, path: String },
    /// Go to next wallpaper (slideshow)
    Next { monitor: Option<String> },
    /// Go to previous wallpaper (slideshow)
    Previous { monitor: Option<String> },
    /// Reload configuration
    Reload,
    /// Get current wallpaper for a monitor
    GetWallpaper { monitor: Option<String> },
    /// Pause slideshow
    Pause { monitor: Option<String> },
    /// Resume slideshow
    Resume { monitor: Option<String> },
}

/// The daemon's answer to a command.
#[derive(Debug, Clone)]
pub enum IpcResponse {
    /// Success, with an optional message
    Success { message: Option<String> },
    /// Failure, with a message for the user
    Error { message: String },
    /// Status of every monitor
    Status { monitors: Vec<MonitorStatus> },
    /// A monitor's current wallpaper
    Wallpaper { path: Option<String> },
}

/// Status of a single monitor.
#[derive(Debug, Clone)]
pub struct MonitorStatus {
    pub name: String,
    pub wallpaper: Option<String>,
    pub workspace: Option<i32>,
    pub slideshow_active: bool,
    pub slideshow_paused: bool,
}

/// Client side of the control socket.
pub struct IpcClient;

/// Decimal digits of `n`, most significant first.
pub open spec fn decimal(n: nat) -> Seq<char>
    decreases n,
{
    if n < 10 {
        seq![digit_char(n)]
    } else {
        decimal(n / 10) + seq![digit_char(n % 10)]
    }
}

/// The character of decimal digit `d`.
pub open spec fn digit_char(d: nat) -> char {
    (('0' as nat) + d) as char
}

fn digit_str(d: u32) -> (r: &'static str)
    requires
        d < 10,
    ensures
        r@ == seq![digit_char(d as nat)],
{
    proof {
        reveal_strlit("0");
        reveal_strlit("1");
        reveal_strlit("2");
        reveal_strlit("3");
        reveal_strlit("4");
        reveal_strlit("5");
        reveal_strlit("6");
        reveal_strlit("7");
        reveal_strlit("8");
        reveal_strlit("9");
    }
    let r = match d {
        0 => "0",
        1 => "1",
        2 => "2",
        3 => "3",
        4 => "4",
        5 => "5",
        6 => "6",
        7 => "7",
        8 => "8",
        _ => "9",
    };
    assert(r@ =~= seq![digit_char(d as nat)]);
    r
}

/// Appends the decimal digits of `n` to `out`.
pub fn push_decimal(out: &mut String, n: u32)
    ensures
        final(out)@ == old(out)@ + decimal(n as nat),
    decreases n,
{
    if n >= 10 {
        push_decimal(out, n / 10);
    }
    out.append(digit_str(n % 10));
    assert(final(out)@ =~= old(out)@ + decimal(n as nat)) by {
        if n < 10 {
            assert(n % 10 == n);
        }
    }
}

/// Directory that holds the socket: the runtime directory, else the
/// temporary directory, else `/tmp`.
pub open spec fn socket_dir(runtime_dir: Option<Seq<char>>, tmp_dir: Option<Seq<char>>) -> Seq<
    char,
> {
    match runtime_dir {
        Some(d) => d,
        None => match tmp_dir {
            Some(d) => d,
            None => seq!['/', 't', 'm', 'p'],
        },
    }
}

/// The socket's path: `<dir>/canviz-<uid>.sock`.
pub open spec fn socket_path_of(
    runtime_dir: Option<Seq<char>>,
    tmp_dir: Option<Seq<char>>,
    uid: nat,
) -> Seq<char> {
    socket_dir(runtime_dir, tmp_dir) + seq!['/', 'c', 'a', 'n', 'v', 'i', 'z', '-'] + decimal(uid)
        + seq!['.', 's', 'o', 'c', 'k']
}

/// The control socket's path for the user `uid`, from the values of the
/// runtime and temporary directory variables.
pub fn socket_path_in(runtime_dir: Option<&str>, tmp_dir: Option<&str>, uid: u32) -> (r: String)
    ensures
        r@ == socket_path_of(
            match runtime_dir {
                Some(d) => Some(d@),
                None => None,
            },
            match tmp_dir {
                Some(d) => Some(d@),
                None => None,
            },
            uid as nat,
        ),
{
    proof {
        reveal_strlit("/tmp");
        reveal_strlit("/canviz-");
        reveal_strlit(".sock");
        assert("/tmp"@ =~= seq!['/', 't', 'm', 'p']);
        assert("/canviz-"@ =~= seq!['/', 'c', 'a', 'n', 'v', 'i', 'z', '-']);
        assert(".sock"@ =~= seq!['.', 's', 'o', 'c', 'k']);
    }
    let dir = match runtime_dir {
        Some(d) => d,
        None => match tmp_dir {
            Some(d) => d,
            None => "/tmp",
        },
    };
    let mut out = String::from_str(dir);
    out.append("/canviz-");
    push_decimal(&mut out, uid);
    out.append(".sock");
    out
}

/// How the control tool describes a monitor's slideshow.
pub fn slideshow_label(active: bool, paused: bool) -> (r: &'static str)
    ensures
        r@ == if !active {
            "disabled"@
        } else if paused {
            "paused"@
        } else {
            "running"@
        },
{
    if active {
        if paused {
            "paused"
        } else {
            "running"
        }
    } else {
        "disabled"
    }
}

} // verus!
