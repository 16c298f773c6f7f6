//! The dispatcher: a state machine over the single optional session.
//!
//! The dispatcher holds the one piece of mutable state — whether a session is
//! live — and decides, for each command, what outside work has to happen and
//! what response each outcome yields. The surrounding binary performs the
//! planned action against the network and hands the outcome back through the
//! `on_*_result` methods; every decision is made here and proved.

use vstd::prelude::*;
use crate::codec::{decode_command, decode_spec};
use crate::protocol::{Command, CommandV, FileEntry, FileEntryV, Response, ResponseV};
use crate::text::{lossy_text_of, trimmed, trim_text, utf8_lossy};

verus! {

/// One piece of outside work that the caller must perform against the remote
/// side before the command's response can be formed.
#[derive(Debug, Clone, PartialEq, Eq)]
pub enum Action {
    /// Open a transport connection, authenticate, and establish the
    /// file-transfer sub-session.
    Connect {
        host: String,
        port: u16,
        username: String,
        password: Option<String>,
        private_key: Option<String>,
    },
    /// Run a command on a fresh channel and collect its whole output.
    Exec { command: String },
    /// List a remote directory.
    List { path: String },
    /// Remove a remote file.
    Remove { path: String },
    /// Create a remote directory.
    Mkdir { path: String },
    /// Remove a remote directory.
    Rmdir { path: String },
    /// Run the home-directory probe (an `Exec` of the fixed probe line) and
    /// collect its whole output.
    HomeDir { command: String },
    /// Copy a remote file to a local path.
    Download { remote: String, local: String },
    /// Copy a local file to a remote path.
    Upload { local: String, remote: String },
}

/// What a command requires next: either the response is already decided, or
/// an action must be performed and its outcome settled.
#[derive(Debug, Clone, PartialEq, Eq)]
pub enum Step {
    Reply { response: Response },
    Perform { action: Action },
}

/// Mathematical model of an `Action`.
pub ghost enum ActionV {
    Connect {
        host: Seq<char>,
        port: u16,
        username: Seq<char>,
        password: Option<Seq<char>>,
        private_key: Option<Seq<char>>,
    },
    Exec { command: Seq<char> },
    List { path: Seq<char> },
    Remove { path: Seq<char> },
    Mkdir { path: Seq<char> },
    Rmdir { path: Seq<char> },
    HomeDir { command: Seq<char> },
    Download { remote: Seq<char>, local: Seq<char> },
    Upload { local: Seq<char>, remote: Seq<char> },
}

/// Mathematical model of a `Step`.
pub ghost enum StepV {
    Reply { response: ResponseV },
    Perform { action: ActionV },
}

impl View for Action {
    type V = ActionV;

    open spec fn view(&self) -> ActionV {
        match self {
            Action::Connect { host, port, username, password, private_key } => ActionV::Connect {
                host: host@,
                port: *port,
                username: username@,
                password: match password {
                    Some(p) => Some(p@),
                    None => None,
                },
                private_key: match private_key {
                    Some(k) => Some(k@),
                    None => None,
                },
            },
            Action::Exec { command } => ActionV::Exec { command: command@ },
            Action::List { path } => ActionV::List { path: path@ },
            Action::Remove { path } => ActionV::Remove { path: path@ },
            Action::Mkdir { path } => ActionV::Mkdir { path: path@ },
            Action::Rmdir { path } => ActionV::Rmdir { path: path@ },
            Action::HomeDir { command } => ActionV::HomeDir { command: command@ },
            Action::Download { remote, local } => ActionV::Download {
                remote: remote@,
                local: local@,
            },
            Action::Upload { local, remote } => ActionV::Upload { local: local@, remote: remote@ },
        }
    }
}

impl View for Step {
    type V = StepV;

    open spec fn view(&self) -> StepV {
        match self {
            Step::Reply { response } => StepV::Reply { response: response@ },
            Step::Perform { action } => StepV::Perform { action: action@ },
        }
    }
}

/// The session state after `cmd` is planned: `Connect` first discards any
/// live session, `Disconnect` drops it, and every other command leaves the
/// state as it stands.
pub open spec fn next_active(active: bool, cmd: CommandV) -> bool {
    match cmd {
        CommandV::Connect { .. } => false,
        CommandV::Disconnect => false,
        _ => active,
    }
}

/// The step that `cmd` requires in state `active`: session operations while
/// no session is live are refused outright; `Disconnect` always replies
/// `Disconnected`; everything else must be performed.
pub open spec fn planned_step(active: bool, cmd: CommandV) -> StepV {
    match cmd {
        CommandV::Connect { host, port, username, password, private_key } => StepV::Perform {
            action: ActionV::Connect { host, port, username, password, private_key },
        },
        CommandV::Disconnect => StepV::Reply { response: ResponseV::Disconnected },
        _ => {
            if !active {
                StepV::Reply { response: ResponseV::Error { message: "Not connected"@ } }
            } else {
                match cmd {
                    CommandV::Exec { command } => StepV::Perform {
                        action: ActionV::Exec { command },
                    },
                    CommandV::SftpList { path } => StepV::Perform {
                        action: ActionV::List { path },
                    },
                    CommandV::SftpRemove { path } => StepV::Perform {
                        action: ActionV::Remove { path },
                    },
                    CommandV::SftpMkdir { path } => StepV::Perform {
                        action: ActionV::Mkdir { path },
                    },
                    CommandV::SftpRmdir { path } => StepV::Perform {
                        action: ActionV::Rmdir { path },
                    },
                    CommandV::GetHomeDir => StepV::Perform {
                        action: ActionV::HomeDir { command: "echo $HOME"@ },
                    },
                    CommandV::SftpDownload { remote, local } => StepV::Perform {
                        action: ActionV::Download { remote, local },
                    },
                    CommandV::SftpUpload { local, remote } => StepV::Perform {
                        action: ActionV::Upload { local, remote },
                    },
                    _ => StepV::Reply { response: ResponseV::Disconnected },
                }
            }
        },
    }
}

/// How a connect attempt settles: success installs the session and replies
/// `Connected`; failure leaves no session and surfaces the message.
pub open spec fn connect_settled(outcome: Result<(), Seq<char>>) -> (bool, ResponseV) {
    match outcome {
        Ok(_) => (true, ResponseV::Connected),
        Err(m) => (false, ResponseV::Error { message: m }),
    }
}

/// How an execute settles: the collected bytes decode lossily to the output
/// text; failure surfaces the message. The session survives either way.
pub open spec fn exec_settled(outcome: Result<Seq<u8>, Seq<char>>) -> ResponseV {
    match outcome {
        Ok(bytes) => ResponseV::Output { output: lossy_text_of(bytes) },
        Err(m) => ResponseV::Error { message: m },
    }
}

/// How the home-directory probe settles: the probe's output, decoded lossily
/// and trimmed of surrounding whitespace.
pub open spec fn home_dir_settled(outcome: Result<Seq<u8>, Seq<char>>) -> ResponseV {
    match outcome {
        Ok(bytes) => ResponseV::HomeDir { path: trimmed(lossy_text_of(bytes)) },
        Err(m) => ResponseV::Error { message: m },
    }
}

/// One raw listing entry as the sub-session reports it: a name, a directory
/// flag, and the size if one was reported.
pub type RawEntry = (String, bool, Option<u64>);

/// Mathematical model of a raw listing entry.
pub type RawEntryV = (Seq<char>, bool, Option<u64>);

/// The listing entry formed from a raw one: an absent size is reported as 0.
pub open spec fn entry_of_raw(raw: RawEntryV) -> FileEntryV {
    FileEntryV {
        name: raw.0,
        is_dir: raw.1,
        size: match raw.2 {
            Some(n) => n,
            None => 0,
        },
    }
}

/// How a directory listing settles: each raw entry becomes one `FileEntry`,
/// in the order the sub-session returned them.
pub open spec fn list_settled(outcome: Result<Seq<RawEntryV>, Seq<char>>) -> ResponseV {
    match outcome {
        Ok(raws) => ResponseV::Files { files: raws.map_values(|r: RawEntryV| entry_of_raw(r)) },
        Err(m) => ResponseV::Error { message: m },
    }
}

/// How an operation with no payload (remove, mkdir, rmdir, download, upload)
/// settles.
pub open spec fn unit_settled(outcome: Result<(), Seq<char>>) -> ResponseV {
    match outcome {
        Ok(_) => ResponseV::Okay,
        Err(m) => ResponseV::Error { message: m },
    }
}

/// The model of a `Result` whose payload carries no text.
pub open spec fn unit_outcome_view(outcome: Result<(), String>) -> Result<(), Seq<char>> {
    match outcome {
        Ok(_) => Ok(()),
        Err(m) => Err(m@),
    }
}

/// The model of a byte-carrying outcome.
pub open spec fn bytes_outcome_view(outcome: Result<Vec<u8>, String>) -> Result<
    Seq<u8>,
    Seq<char>,
> {
    match outcome {
        Ok(b) => Ok(b@),
        Err(m) => Err(m@),
    }
}

/// The model of a listing outcome.
pub open spec fn list_outcome_view(outcome: Result<Vec<RawEntry>, String>) -> Result<
    Seq<RawEntryV>,
    Seq<char>,
> {
    match outcome {
        Ok(raws) => Ok(raws@.map_values(|r: RawEntry| (r.0@, r.1, r.2))),
        Err(m) => Err(m@),
    }
}

/// The session state after one raw input line: a line that does not decode
/// changes nothing.
pub open spec fn line_next_active(active: bool, line: Seq<char>) -> bool {
    match decode_spec(line) {
        Ok(c) => next_active(active, c),
        Err(_) => active,
    }
}

/// The step one raw input line requires: a line that does not decode is
/// answered with one error reply carrying the decoder's message.
pub open spec fn line_step(active: bool, line: Seq<char>) -> StepV {
    match decode_spec(line) {
        Ok(c) => planned_step(active, c),
        Err(m) => StepV::Reply { response: ResponseV::Error { message: m } },
    }
}

/// The dispatcher. Its view is `true` exactly when a session is live.
pub struct Dispatcher {
    active: bool,
}

impl View for Dispatcher {
    type V = bool;

    closed spec fn view(&self) -> bool {
        self.active
    }
}

impl Dispatcher {
    /// A fresh dispatcher: no session is live.
    pub fn new() -> (d: Dispatcher)
        ensures
            !d@,
    {
        Dispatcher { active: false }
    }

    /// Whether a session is live.
    pub fn is_active(&self) -> (r: bool)
        ensures
            r == self@,
    {
        self.active
    }

    /// Route one decoded command: either the response is already decided, or
    /// an action must be performed and its outcome settled. A `Connect`
    /// discards any live session before the attempt; a session operation
    /// while idle is refused with `Not connected` and changes nothing.
    pub fn plan(&mut self, cmd: Command) -> (step: Step)
        ensures
            final(self)@ == next_active(old(self)@, cmd@),
            step@ == planned_step(old(self)@, cmd@),
    {
        match cmd {
            Command::Connect { host, port, username, password, private_key } => {
                self.active = false;
                Step::Perform {
                    action: Action::Connect { host, port, username, password, private_key },
                }
            },
            Command::Disconnect => {
                self.active = false;
                Step::Reply { response: Response::Disconnected }
            },
            _ => {
                if !self.active {
                    Step::Reply {
                        response: Response::Error { message: String::from_str("Not connected") },
                    }
                } else {
                    match cmd {
                        Command::Exec { command } => Step::Perform {
                            action: Action::Exec { command },
                        },
                        Command::SftpList { path } => Step::Perform {
                            action: Action::List { path },
                        },
                        Command::SftpRemove { path } => Step::Perform {
                            action: Action::Remove { path },
                        },
                        Command::SftpMkdir { path } => Step::Perform {
                            action: Action::Mkdir { path },
                        },
                        Command::SftpRmdir { path } => Step::Perform {
                            action: Action::Rmdir { path },
                        },
                        Command::GetHomeDir => Step::Perform {
                            action: Action::HomeDir { command: String::from_str("echo $HOME") },
                        },
                        Command::SftpDownload { remote, local } => Step::Perform {
                            action: Action::Download { remote, local },
                        },
                        Command::SftpUpload { local, remote } => Step::Perform {
                            action: Action::Upload { local, remote },
                        },
                        _ => Step::Reply { response: Response::Disconnected },
                    }
                }
            },
        }
    }

    /// Settle a connect attempt: success installs the session and replies
    /// `Connected`; failure installs nothing and surfaces the message.
    pub fn on_connect_result(&mut self, outcome: Result<(), String>) -> (r: Response)
        ensures
            (final(self)@, r@) == connect_settled(unit_outcome_view(outcome)),
    {
        match outcome {
            Ok(_) => {
                self.active = true;
                Response::Connected
            },
            Err(m) => {
                self.active = false;
                Response::Error { message: m }
            },
        }
    }

    /// Settle an execute: the collected output bytes decode lossily into the
    /// output text. The session state is untouched.
    pub fn on_exec_result(&mut self, outcome: Result<Vec<u8>, String>) -> (r: Response)
        ensures
            final(self)@ == old(self)@,
            r@ == exec_settled(bytes_outcome_view(outcome)),
    {
        match outcome {
            Ok(bytes) => Response::Output { output: utf8_lossy(bytes.as_slice()) },
            Err(m) => Response::Error { message: m },
        }
    }

    /// Settle the home-directory probe: its output, decoded lossily and
    /// trimmed of surrounding whitespace. The session state is untouched.
    pub fn on_home_dir_result(&mut self, outcome: Result<Vec<u8>, String>) -> (r: Response)
        ensures
            final(self)@ == old(self)@,
            r@ == home_dir_settled(bytes_outcome_view(outcome)),
    {
        match outcome {
            Ok(bytes) => {
                let text = utf8_lossy(bytes.as_slice());
                Response::HomeDir { path: trim_text(text.as_str()) }
            },
            Err(m) => Response::Error { message: m },
        }
    }

    /// Settle a directory listing: each raw entry becomes one `FileEntry`
    /// with an absent size reported as 0, in the sub-session's order. The
    /// session state is untouched.
    pub fn on_list_result(&mut self, outcome: Result<Vec<RawEntry>, String>) -> (r: Response)
        ensures
            final(self)@ == old(self)@,
            r@ == list_settled(list_outcome_view(outcome)),
    {
        match outcome {
            Ok(raws) => {
                let ghost raws_v = raws@.map_values(|t: RawEntry| (t.0@, t.1, t.2));
                let mut files: Vec<FileEntry> = Vec::new();
                let mut i: usize = 0;
                while i < raws.len()
                    invariant
                        i <= raws@.len(),
                        raws_v == raws@.map_values(|t: RawEntry| (t.0@, t.1, t.2)),
                        files@.map_values(|e: FileEntry| e@) =~= raws_v.take(i as int).map_values(
                            |r: RawEntryV| entry_of_raw(r),
                        ),
                    decreases raws@.len() - i,
                {
                    let name = raws[i].0.clone();
                    let is_dir = raws[i].1;
                    let size = raws[i].2;
                    let entry = FileEntry {
                        name,
                        is_dir,
                        size: match size {
                            Some(n) => n,
                            None => 0,
                        },
                    };
                    proof {
                        assert(raws_v[i as int] == (raws@[i as int].0@, raws@[i as int].1,
                        raws@[i as int].2));
                        assert(entry@ == entry_of_raw(raws_v[i as int]));
                    }
                    let ghost prev = files@;
                    files.push(entry);
                    proof {
                        let f = |r: RawEntryV| entry_of_raw(r);
                        let g = |e: FileEntry| e@;
                        prev.lemma_push_map_commute(g, entry);
                        raws_v.lemma_map_take_succ(f, i as int);
                        assert(files@.map_values(|e: FileEntry| e@) =~= raws_v.take(
                            i as int + 1,
                        ).map_values(|r: RawEntryV| entry_of_raw(r)));
                    }
                    i = i + 1;
                }
                proof {
                    assert(raws_v.take(raws_v.len() as int) =~= raws_v);
                }
                let r = Response::Files { files };
                proof {
                    assert(r@ =~~= list_settled(list_outcome_view(outcome)));
                }
                r
            },
            Err(m) => Response::Error { message: m },
        }
    }

    /// Handle one raw input line: decode it and route the command. A line
    /// that does not decode is answered with exactly one error reply and
    /// changes nothing; it never ends the loop.
    pub fn handle_line(&mut self, line: &str) -> (step: Step)
        ensures
            final(self)@ == line_next_active(old(self)@, line@),
            step@ == line_step(old(self)@, line@),
    {
        match decode_command(line) {
            Ok(cmd) => self.plan(cmd),
            Err(m) => Step::Reply { response: Response::Error { message: m } },
        }
    }

    /// Settle an operation with no payload (remove, mkdir, rmdir, download,
    /// upload): success replies `Okay`, failure surfaces the message. The
    /// session state is untouched.
    pub fn on_unit_result(&mut self, outcome: Result<(), String>) -> (r: Response)
        ensures
            final(self)@ == old(self)@,
            r@ == unit_settled(unit_outcome_view(outcome)),
    {
        match outcome {
            Ok(_) => Response::Okay,
            Err(m) => Response::Error { message: m },
        }
    }
}

/// While no session is live, every well-formed command other than `Connect`
/// and `Disconnect` is refused with `Not connected`, and the state stays
/// idle.
pub proof fn lemma_idle_rejects_operations(cmd: CommandV)
    requires
        !(cmd is Connect),
        !(cmd is Disconnect),
    ensures
        planned_step(false, cmd) == (StepV::Reply {
            response: ResponseV::Error { message: "Not connected"@ },
        }),
        next_active(false, cmd) == false,
{
}

/// A connect attempt never keeps the old session, and a failed attempt
/// installs none: whatever state it starts from, a `Connect` whose attempt
/// fails leaves the dispatcher idle with an error reply carrying the
/// failure's message. With neither password nor private-key material the
/// attempt always fails this way, since the chosen method is `Missing`.
pub proof fn lemma_failed_connect_installs_nothing(
    active: bool,
    host: Seq<char>,
    port: u16,
    username: Seq<char>,
    m: Seq<char>,
)
    ensures
        next_active(
            active,
            CommandV::Connect { host, port, username, password: None, private_key: None },
        ) == false,
        planned_step(
            active,
            CommandV::Connect { host, port, username, password: None, private_key: None },
        ) == (StepV::Perform {
            action: ActionV::Connect { host, port, username, password: None, private_key: None },
        }),
        crate::auth::auth_plan(None, None) == crate::auth::AuthPlanV::Missing,
        connect_settled(Err(m)) == ((false, ResponseV::Error { message: m })),
{
}

/// A successful connect followed immediately by a disconnect replies
/// `Connected` then `Disconnected`, and a subsequent session operation is
/// again refused with `Not connected`.
pub proof fn lemma_connect_disconnect_round(cmd: CommandV)
    requires
        !(cmd is Connect),
        !(cmd is Disconnect),
    ensures
        connect_settled(Ok(())) == ((true, ResponseV::Connected)),
        planned_step(true, CommandV::Disconnect) == (StepV::Reply {
            response: ResponseV::Disconnected,
        }),
        next_active(true, CommandV::Disconnect) == false,
        planned_step(false, cmd) == (StepV::Reply {
            response: ResponseV::Error { message: "Not connected"@ },
        }),
{
    lemma_idle_rejects_operations(cmd);
}

/// A malformed input line earns exactly one error reply, leaves the session
/// state untouched, and the next line is handled exactly as if the malformed
/// one had never arrived.
pub proof fn lemma_malformed_line_is_isolated(
    active: bool,
    bad: Seq<char>,
    good: Seq<char>,
    m: Seq<char>,
)
    requires
        decode_spec(bad) == Err::<CommandV, Seq<char>>(m),
    ensures
        line_next_active(active, bad) == active,
        line_step(active, bad) == (StepV::Reply { response: ResponseV::Error { message: m } }),
        line_step(line_next_active(active, bad), good) == line_step(active, good),
        line_next_active(line_next_active(active, bad), good) == line_next_active(active, good),
{
}

} // verus!

