//! What the program does at the command of its operator: how a node is
//! started, and how a running node is reached.

use vstd::prelude::*;
use crate::client::UdsClientOptions;
use crate::node::NodeBehaviourOptions;
use crate::text::decimal;
use crate::text::render_decimal;

verus! {

/// How to reach the control plane of a node.
#[derive(Debug, Clone)]
pub struct ServerOptions {
    /// Whether to go over HTTP; else the local socket is used.
    pub server: bool,
    pub host: String,
    pub port: u16,
    /// The path of the local socket.
    pub uds_path: String,
}

/// Whether and how the node is to run in the background.
#[derive(Debug, Clone)]
pub struct DaemonOptions {
    pub daemon: bool,
    /// The path of the pid file.
    pub pid: String,
    pub err_file: String,
    pub log_file: String,
}

/// Everything that starting a node needs to be told.
#[derive(Debug, Clone)]
pub struct StartOptions {
    pub server_opts: ServerOptions,
    pub daemon_opts: DaemonOptions,
    pub bootnode: Option<String>,
    /// The directory of the store; `data` where none is given.
    pub db_dir: Option<String>,
    /// The port for connections of peers.
    pub p2p_port: Option<u16>,
}

/// A request to broadcast a message through a running node.
#[derive(Debug, Clone)]
pub struct BoardcastOptions {
    pub server_opts: ServerOptions,
    pub msg: String,
}

/// The path of `name` in the directory `dir`, as paths are joined: a name
/// that starts at the root stands for itself; else the name follows the
/// directory, after a slash unless the directory is empty or ends in one.
pub open spec fn joined(dir: Seq<char>, name: Seq<char>) -> Seq<char> {
    if name.len() > 0 && name[0] == '/' {
        name
    } else if dir.len() == 0 || dir.last() == '/' {
        dir + name
    } else {
        dir + seq!['/'] + name
    }
}

/// Joins the name of a file to the path of a directory.
pub fn join_path(dir: &str, name: &str) -> (path: String)
    ensures
        path@ == joined(dir@, name@),
{
    if name.unicode_len() > 0 && name.get_char(0) == '/' {
        return String::from_str(name);
    }
    let n = dir.unicode_len();
    let mut path = String::from_str(dir);
    if n > 0 && dir.get_char(n - 1) != '/' {
        proof {
            reveal_strlit("/");
        }
        path.append("/");
        assert(path@ =~= dir@ + seq!['/']);
    }
    path.append(name);
    path
}

/// The data directory: the one that was asked for; else `.hanode` in the
/// home directory; else `.hanode` where the program runs.
pub open spec fn data_dir_of(given: Option<String>, home: Option<String>) -> Seq<char> {
    match given {
        Some(dir) => dir@,
        None => match home {
            Some(home) => home@ + "/"@ + ".hanode"@,
            None => ".hanode"@,
        },
    }
}

/// Chooses the data directory.
pub fn data_dir(given: Option<String>, home: Option<String>) -> (dir: String)
    ensures
        dir@ == data_dir_of(given, home),
{
    match given {
        Some(dir) => dir,
        None => match home {
            Some(home) => {
                let mut dir = home;
                dir.append("/");
                dir.append(".hanode");
                dir
            },
            None => String::from_str(".hanode"),
        },
    }
}

impl ServerOptions {
    /// How to reach the control plane, from what the command line gave:
    /// port 8080 and the loopback address unless others are given, and the
    /// socket `hanode.sock` in the data directory unless another is given.
    pub fn from_args(
        server: bool,
        host: Option<String>,
        port: Option<u16>,
        sock: Option<String>,
        data_dir: &str,
    ) -> (opts: ServerOptions)
        ensures
            opts.server == server,
            opts.port == match port {
                Some(p) => p,
                None => 8080u16,
            },
            opts.host@ == match host {
                Some(h) => h@,
                None => "127.0.0.1"@,
            },
            opts.uds_path@ == match sock {
                Some(s) => s@,
                None => joined(data_dir@, "hanode.sock"@),
            },
    {
        ServerOptions {
            server,
            host: match host {
                Some(h) => h,
                None => String::from_str("127.0.0.1"),
            },
            port: match port {
                Some(p) => p,
                None => 8080,
            },
            uds_path: match sock {
                Some(s) => s,
                None => join_path(data_dir, "hanode.sock"),
            },
        }
    }
}

impl DaemonOptions {
    /// The files of a node in the background, all in the data directory:
    /// `hanode.pid`, `error.log` and `info.log`.
    pub fn in_dir(daemon: bool, data_dir: &str) -> (opts: DaemonOptions)
        ensures
            opts.daemon == daemon,
            opts.pid@ == joined(data_dir@, "hanode.pid"@),
            opts.err_file@ == joined(data_dir@, "error.log"@),
            opts.log_file@ == joined(data_dir@, "info.log"@),
    {
        DaemonOptions {
            daemon,
            pid: join_path(data_dir, "hanode.pid"),
            err_file: join_path(data_dir, "error.log"),
            log_file: join_path(data_dir, "info.log"),
        }
    }
}

/// One request to the control plane of a running node, ready to be sent.
#[derive(Debug, Clone)]
pub enum ControlCall {
    /// Fetch the address over HTTP: `path` from the server at `host` and
    /// `port`.
    Http { url: String, host: String, port: u16, path: String, output: bool },
    /// Ask over the local socket.
    Uds { options: UdsClientOptions, output: bool },
}

/// The mathematical content of a [`ControlCall`].
pub enum CallView {
    Http { url: Seq<char>, host: Seq<char>, port: u16, path: Seq<char>, output: bool },
    Uds { uds_sock_path: Seq<char>, url_path: Seq<char>, output: bool },
}

impl View for ControlCall {
    type V = CallView;

    open spec fn view(&self) -> CallView {
        match *self {
            ControlCall::Http { url, host, port, path, output } => CallView::Http {
                url: url@,
                host: host@,
                port,
                path: path@,
                output,
            },
            ControlCall::Uds { options, output } => CallView::Uds {
                uds_sock_path: options.uds_sock_path@,
                url_path: options.url_path@,
                output,
            },
        }
    }
}

/// The path of a resource of the control plane, as it is asked for: the
/// given path where it begins with a slash, else a slash and the given path.
pub open spec fn request_path(url_path: Seq<char>) -> Seq<char> {
    if url_path.len() > 0 && url_path[0] == '/' {
        url_path
    } else {
        seq!['/'] + url_path
    }
}

/// The address of a resource of the control plane over HTTP: the scheme,
/// the host, a colon, the port, and the path of the resource.
pub open spec fn request_url(host: Seq<char>, port: u16, url_path: Seq<char>) -> Seq<char> {
    "http://"@ + host + ":"@ + decimal(port as nat) + request_path(url_path)
}

/// The path of a resource as it is asked for.
pub fn resource_path(url_path: &str) -> (path: String)
    ensures
        path@ == request_path(url_path@),
{
    if url_path.unicode_len() > 0 && url_path.get_char(0) == '/' {
        String::from_str(url_path)
    } else {
        proof {
            reveal_strlit("/");
        }
        let mut path = String::from_str("/");
        path.append(url_path);
        assert(path@ =~= seq!['/'] + url_path@);
        path
    }
}

/// The request for `url_path`: over HTTP where the options say so, else
/// over the local socket; either way for the same path. `output` says
/// whether the answer is to be shown.
pub open spec fn call_for(opts: ServerOptions, url_path: Seq<char>, output: bool) -> CallView {
    if opts.server {
        CallView::Http {
            url: request_url(opts.host@, opts.port, url_path),
            host: opts.host@,
            port: opts.port,
            path: request_path(url_path),
            output,
        }
    } else {
        CallView::Uds { uds_sock_path: opts.uds_path@, url_path: request_path(url_path), output }
    }
}

/// Prepares the request for `url_path` to the control plane.
pub fn call_url(opts: &ServerOptions, url_path: &str, output: bool) -> (call: ControlCall)
    ensures
        call@ == call_for(*opts, url_path@, output),
{
    let path = resource_path(url_path);
    if opts.server {
        let mut url = String::from_str("http://");
        url.append(opts.host.as_str());
        url.append(":");
        let digits = render_decimal(opts.port as u32);
        url.append(digits.as_str());
        url.append(path.as_str());
        ControlCall::Http { url, host: opts.host.clone(), port: opts.port, path, output }
    } else {
        ControlCall::Uds {
            options: UdsClientOptions { uds_sock_path: opts.uds_path.clone(), url_path: path },
            output,
        }
    }
}

/// The request that stops the node; its answer is shown.
pub fn stop(opts: ServerOptions) -> (call: ControlCall)
    ensures
        call@ == call_for(opts, "/stop"@, true),
{
    call_url(&opts, "/stop", true)
}

/// The request that broadcasts the message; its answer is not shown.
pub fn boardcast(opts: BoardcastOptions) -> (call: ControlCall)
    ensures
        call@ == call_for(opts.server_opts, "/boardcast/"@ + opts.msg@, false),
{
    let mut path = String::from_str("/boardcast/");
    path.append(opts.msg.as_str());
    call_url(&opts.server_opts, path.as_str(), false)
}

/// The request that lists the peers; its answer is shown.
pub fn list_peers(opts: ServerOptions) -> (call: ControlCall)
    ensures
        call@ == call_for(opts, "/peers"@, true),
{
    call_url(&opts, "/peers", true)
}

/// Why a node cannot be started.
#[derive(Debug, Clone)]
pub enum StartError {
    /// The pid file names a process that is running.
    AlreadyRunning { process: String, pid_file: String },
}

/// What the words of a start error say.
pub open spec fn already_running_text(process: Seq<char>, pid_file: Seq<char>) -> Seq<char> {
    "There is a "@ + process + " running, pid file already exists: "@ + pid_file
}

impl StartError {
    /// The error in words.
    pub fn message(&self) -> (text: String)
        ensures
            self matches StartError::AlreadyRunning { process, pid_file } ==> text@
                == already_running_text(process@, pid_file@),
    {
        match self {
            StartError::AlreadyRunning { process, pid_file } => {
                let mut text = String::from_str("There is a ");
                text.append(process.as_str());
                text.append(" running, pid file already exists: ");
                text.append(pid_file.as_str());
                text
            },
        }
    }
}

/// How a node is to be started.
#[derive(Debug, Clone)]
pub struct StartPlan {
    /// Whether to go to the background first, with the files of the
    /// daemon options.
    pub daemonize: bool,
    /// The directory of the store.
    pub db_dir: String,
    /// What the node is told.
    pub node: NodeBehaviourOptions,
    /// Whether lines of the standard input are broadcast. A node in the
    /// background reads none.
    pub read_input: bool,
    /// Where the control plane listens.
    pub server: crate::server::ServerOptions,
}

/// The directory of the store: the configured one, or `data`.
pub open spec fn store_dir(db_dir: Option<String>) -> Seq<char> {
    match db_dir {
        Some(d) => d@,
        None => "data"@,
    }
}

/// The name of the store inside its directory.
pub fn store_name() -> (name: String)
    ensures
        name@ == "hanode.db"@,
{
    String::from_str("hanode.db")
}

/// Whether the start is refused: the node is to run in the background and
/// the process that the pid file names is running.
pub open spec fn refused(options: StartOptions, running: Option<String>) -> bool {
    options.daemon_opts.daemon && running is Some
}

/// Decides how the node is started. `running` is the name of the running
/// process that the pid file names, if the file exists, names a process,
/// and that process runs. A node that is to go to the background is not
/// started beside such a process. Otherwise the plan says: whether to go to
/// the background; where the store is; what the node is told; that the
/// standard input is read in the foreground only; and where the control
/// plane listens.
pub fn start(options: &StartOptions, running: Option<String>) -> (r: Result<StartPlan, StartError>)
    ensures
        refused(*options, running) ==> (r matches Err(
            StartError::AlreadyRunning { process, pid_file },
        ) && process@ == running->Some_0@ && pid_file@ == options.daemon_opts.pid@),
        !refused(*options, running) ==> (r matches Ok(plan) && plan.daemonize
            == options.daemon_opts.daemon && plan.db_dir@ == store_dir(options.db_dir)
            && plan.node.port == options.p2p_port && (match (plan.node.bootnode, options.bootnode) {
            (Some(a), Some(b)) => a@ == b@,
            (None, None) => true,
            _ => false,
        }) && plan.read_input == !options.daemon_opts.daemon && plan.server.port
            == options.server_opts.port && (plan.server.host matches Some(h) && h@
            == options.server_opts.host@)),
{
    if options.daemon_opts.daemon {
        match running {
            Some(process) => {
                return Err(
                    StartError::AlreadyRunning { process, pid_file: options.daemon_opts.pid.clone() },
                );
            },
            None => {},
        }
    }
    let db_dir = match &options.db_dir {
        Some(d) => d.clone(),
        None => String::from_str("data"),
    };
    let bootnode = match &options.bootnode {
        Some(b) => Some(b.clone()),
        None => None,
    };
    Ok(
        StartPlan {
            daemonize: options.daemon_opts.daemon,
            db_dir,
            node: NodeBehaviourOptions { port: options.p2p_port, bootnode },
            read_input: !options.daemon_opts.daemon,
            server: crate::server::ServerOptions {
                host: Some(options.server_opts.host.clone()),
                port: options.server_opts.port,
            },
        },
    )
}

} // verus!
