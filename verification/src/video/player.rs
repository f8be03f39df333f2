//! The `mpv` video player: when the Kitty terminal's graphics output can be
//! used, and the command line that plays a URL. Starting and stopping the
//! process is left to the application.
use vstd::prelude::*;
use crate::text::{decimal, owned, push_decimal, push_str, str_eq};

verus! {

/// Whether the terminal is Kitty: `TERM` is `xterm-kitty` (an unset or
/// unreadable `TERM` counts as empty) or `KITTY_WINDOW_ID` is set.
pub fn kitty_detected(term: &str, kitty_window_id_set: bool) -> (r: bool)
    ensures
        r == (term@ == "xterm-kitty"@ || kitty_window_id_set),
{
    str_eq(term, "xterm-kitty") || kitty_window_id_set
}

/// The file name of the player's IPC socket for process `pid`.
pub fn socket_file_name(pid: u32) -> (r: String)
    ensures
        r@ == "aetherstream-video-"@ + decimal(pid as nat),
{
    let mut r = owned("aetherstream-video-");
    push_decimal(&mut r, pid as u64);
    r
}

/// The arguments of `mpv` that play `url`; in Kitty mode the video is
/// drawn in a `cols` by `rows` cell area.
pub open spec fn mpv_arg_list(
    url: Seq<char>,
    volume: nat,
    kitty_mode: bool,
    cols: nat,
    rows: nat,
    socket_path: Seq<char>,
) -> Seq<Seq<char>> {
    seq![url, "--volume="@ + decimal(volume), "--no-terminal"@] + (if kitty_mode {
        seq![
            "--vo=kitty"@,
            "--no-keepaspect"@,
            "--vo-kitty-cols="@ + decimal(cols),
            "--vo-kitty-rows="@ + decimal(rows),
        ]
    } else {
        Seq::empty()
    }) + seq!["--input-ipc-server="@ + socket_path]
}

/// The Kitty output size used until another is set: 80 columns, 24 rows.
pub fn default_kitty_size() -> (r: (u16, u16))
    ensures
        r == (80u16, 24u16),
{
    (80, 24)
}

/// `play_url`'s command line: `url` at `volume`, with Kitty's video output
/// of `cols` by `rows` cells in Kitty mode, controlled through the socket
/// at `socket_path`.
pub fn mpv_args(url: &str, volume: u32, kitty_mode: bool, cols: u16, rows: u16, socket_path: &str) -> (r:
    Vec<String>)
    ensures
        r@.map_values(|a: String| a@) == mpv_arg_list(
            url@,
            volume as nat,
            kitty_mode,
            cols as nat,
            rows as nat,
            socket_path@,
        ),
{
    let mut vol = owned("--volume=");
    push_decimal(&mut vol, volume as u64);
    let mut r: Vec<String> = Vec::new();
    r.push(owned(url));
    r.push(vol);
    r.push(owned("--no-terminal"));
    let ghost head = r@.map_values(|a: String| a@);
    if kitty_mode {
        r.push(owned("--vo=kitty"));
        r.push(owned("--no-keepaspect"));
        let mut c = owned("--vo-kitty-cols=");
        push_decimal(&mut c, cols as u64);
        r.push(c);
        let mut w = owned("--vo-kitty-rows=");
        push_decimal(&mut w, rows as u64);
        r.push(w);
    }
    let mut ipc = owned("--input-ipc-server=");
    push_str(&mut ipc, socket_path);
    r.push(ipc);
    assert(r@.map_values(|a: String| a@) =~= mpv_arg_list(
        url@,
        volume as nat,
        kitty_mode,
        cols as nat,
        rows as nat,
        socket_path@,
    ));
    r
}

} // verus!
