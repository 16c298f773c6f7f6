//! The wire-level data model: commands read from the input stream, responses
//! written to the output stream, and directory-listing entries.

use vstd::prelude::*;

verus! {

/// One request, decoded from one input line. Exactly one variant is active
/// per value; a value is immutable once parsed.
#[derive(Debug, Clone, PartialEq, Eq)]
pub enum Command {
    Connect {
        host: String,
        port: u16,
        username: String,
        password: Option<String>,
        private_key: Option<String>,
    },
    Exec { command: String },
    SftpList { path: String },
    SftpRemove { path: String },
    SftpMkdir { path: String },
    SftpRmdir { path: String },
    GetHomeDir,
    SftpDownload { remote: String, local: String },
    SftpUpload { local: String, remote: String },
    Disconnect,
}

/// One outcome, encoded onto one output line. Produced fresh for every
/// command; never partially filled.
#[derive(Debug, Clone, PartialEq, Eq)]
pub enum Response {
    Connected,
    Disconnected,
    Output { output: String },
    Files { files: Vec<FileEntry> },
    HomeDir { path: String },
    Okay,
    Error { message: String },
}

/// One directory-listing entry: a name, a directory flag, and a size in
/// bytes (0 when the size is unknown).
#[derive(Debug, Clone, PartialEq, Eq)]
pub struct FileEntry {
    pub name: String,
    pub is_dir: bool,
    pub size: u64,
}

/// Mathematical model of a `Command`: text as sequences of characters.
pub ghost enum CommandV {
    Connect {
        host: Seq<char>,
        port: u16,
        username: Seq<char>,
        password: Option<Seq<char>>,
        private_key: Option<Seq<char>>,
    },
    Exec { command: Seq<char> },
    SftpList { path: Seq<char> },
    SftpRemove { path: Seq<char> },
    SftpMkdir { path: Seq<char> },
    SftpRmdir { path: Seq<char> },
    GetHomeDir,
    SftpDownload { remote: Seq<char>, local: Seq<char> },
    SftpUpload { local: Seq<char>, remote: Seq<char> },
    Disconnect,
}

/// Mathematical model of a `Response`.
pub ghost enum ResponseV {
    Connected,
    Disconnected,
    Output { output: Seq<char> },
    Files { files: Seq<FileEntryV> },
    HomeDir { path: Seq<char> },
    Okay,
    Error { message: Seq<char> },
}

/// Mathematical model of a `FileEntry`.
pub ghost struct FileEntryV {
    pub name: Seq<char>,
    pub is_dir: bool,
    pub size: u64,
}

impl View for FileEntry {
    type V = FileEntryV;

    open spec fn view(&self) -> FileEntryV {
        FileEntryV { name: self.name@, is_dir: self.is_dir, size: self.size }
    }
}

impl View for Command {
    type V = CommandV;

    open spec fn view(&self) -> CommandV {
        match self {
            Command::Connect { host, port, username, password, private_key } => {
                CommandV::Connect {
                    host: host@,
                    port: *port,
                    username: username@,
                    password: match password {
                        Some(p) => Some(p@),
                        None => None,
                    },
                    private_key: match private_key {
                        Some(k) => Some(k@),
                        None => None,
                    },
                }
            },
            Command::Exec { command } => CommandV::Exec { command: command@ },
            Command::SftpList { path } => CommandV::SftpList { path: path@ },
            Command::SftpRemove { path } => CommandV::SftpRemove { path: path@ },
            Command::SftpMkdir { path } => CommandV::SftpMkdir { path: path@ },
            Command::SftpRmdir { path } => CommandV::SftpRmdir { path: path@ },
            Command::GetHomeDir => CommandV::GetHomeDir,
            Command::SftpDownload { remote, local } => {
                CommandV::SftpDownload { remote: remote@, local: local@ }
            },
            Command::SftpUpload { local, remote } => {
                CommandV::SftpUpload { local: local@, remote: remote@ }
            },
            Command::Disconnect => CommandV::Disconnect,
        }
    }
}

impl View for Response {
    type V = ResponseV;

    open spec fn view(&self) -> ResponseV {
        match self {
            Response::Connected => ResponseV::Connected,
            Response::Disconnected => ResponseV::Disconnected,
            Response::Output { output } => ResponseV::Output { output: output@ },
            Response::Files { files } => ResponseV::Files {
                files: files@.map_values(|e: FileEntry| e@),
            },
            Response::HomeDir { path } => ResponseV::HomeDir { path: path@ },
            Response::Okay => ResponseV::Okay,
            Response::Error { message } => ResponseV::Error { message: message@ },
        }
    }
}

} // verus!
