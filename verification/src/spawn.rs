//! Platform policy for creating the transport and launching the child shell.
//!
//! The bridge supports two transport strategies — a raw pipe pair and a full
//! pseudo-terminal — and two platform families. This module fixes what each
//! combination launches and with which environment: the interactive shell
//! and its flag, the forwarded `PATH`, and the fixed terminal type set only
//! under the pipe strategy, whose channel has no line discipline of its own.
//! The caller performs the actual allocation and spawn and maps their
//! failures onto [`BridgeError`].

use vstd::prelude::*;
use vstd::string::StringExecFns;

verus! {

/// The two operating-system families the bridge distinguishes.
pub enum Platform {
    /// POSIX-like systems, served by an interactive command-line shell.
    Posix,
    /// Windows, served by its native command shell.
    Windows,
}

/// The two interchangeable transport strategies.
pub enum TransportKind {
    /// A unidirectional pipe read by the bridge, with the write end attached
    /// to both of the child's output streams, and a separate pipe for input.
    PipePair,
    /// A pseudo-terminal whose secondary side covers all three of the
    /// child's standard streams.
    Pty,
}

/// Character-cell geometry a pseudo-terminal is created with.
pub struct PtyGeometry {
    pub cols: u16,
    pub rows: u16,
    pub pixel_width: u16,
    pub pixel_height: u16,
}

impl PtyGeometry {
    /// The initial geometry: 80×24 cells, pixel dimensions unset.
    pub fn standard() -> (g: PtyGeometry)
        ensures
            g.cols == 80,
            g.rows == 24,
            g.pixel_width == 0,
            g.pixel_height == 0,
    {
        PtyGeometry { cols: 80, rows: 24, pixel_width: 0, pixel_height: 0 }
    }
}

/// Why constructing a bridge failed. Both kinds are fatal to session start:
/// the bridge is not created and no retry is attempted.
pub enum BridgeError {
    /// The OS could not allocate the pipe pair or the pseudo-terminal,
    /// whether from resource exhaustion or an unsupported platform.
    TransportCreation,
    /// The shell executable could not be located or launched.
    Spawn,
}

impl BridgeError {
    /// A short description for the one-time dialog or log entry.
    pub fn message(&self) -> (r: &'static str)
        ensures
            self is TransportCreation ==> r@ == "could not create the terminal channel"@,
            self is Spawn ==> r@ == "could not launch the shell"@,
    {
        match self {
            BridgeError::TransportCreation => "could not create the terminal channel",
            BridgeError::Spawn => "could not launch the shell",
        }
    }
}

/// Everything the supervisor needs to launch the child shell. Assembled by
/// [`build_spawn_command`]; the caller attaches the transport and performs
/// the spawn.
pub struct SpawnCommand {
    /// The shell executable.
    pub program: String,
    /// Its arguments.
    pub args: Vec<String>,
    /// The working directory the child starts in: the directory the GUI
    /// currently displays, passed in, never invented here.
    pub cwd: String,
    /// Environment variables set for the child, name–value pairs in order.
    pub env: Vec<(String, String)>,
}

/// Assembles the spawn policy: `/bin/bash -i` on POSIX so the shell emits
/// its own prompt, `cmd.exe` on Windows; the caller's `PATH` forwarded when
/// available; and `TERM=vt100` exactly under the pipe strategy.
pub fn build_spawn_command(
    p: &Platform,
    k: &TransportKind,
    cwd: String,
    path_var: Option<String>,
) -> (c: SpawnCommand)
    ensures
        c.cwd == cwd,
        p is Posix ==> c.program@ == "/bin/bash"@ && c.args@.len() == 1 && c.args@[0]@ == "-i"@,
        p is Windows ==> c.program@ == "cmd.exe"@ && c.args@.len() == 0,
        c.env@.len() == (if path_var is Some {
            1int
        } else {
            0int
        }) + (if k is PipePair {
            1int
        } else {
            0int
        }),
        path_var matches Some(pv) ==> c.env@[0].0@ == "PATH"@ && c.env@[0].1 == pv,
        k is PipePair ==> c.env@[c.env@.len() - 1].0@ == "TERM"@ && c.env@[c.env@.len()
            - 1].1@ == "vt100"@,
{
    let program = match p {
        Platform::Posix => String::from_str("/bin/bash"),
        Platform::Windows => String::from_str("cmd.exe"),
    };
    let mut args: Vec<String> = Vec::new();
    match p {
        Platform::Posix => {
            args.push(String::from_str("-i"));
        },
        Platform::Windows => {},
    }
    let mut env: Vec<(String, String)> = Vec::new();
    match path_var {
        Some(pv) => {
            env.push((String::from_str("PATH"), pv));
        },
        None => {},
    }
    match k {
        TransportKind::PipePair => {
            env.push((String::from_str("TERM"), String::from_str("vt100")));
        },
        TransportKind::Pty => {},
    }
    SpawnCommand { program, args, cwd, env }
}

} // verus!
