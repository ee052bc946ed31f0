use hanode::startup::{
    boardcast, call_url, data_dir, join_path, list_peers, resource_path, start, stop, store_name,
    BoardcastOptions, ControlCall, DaemonOptions, ServerOptions, StartError, StartOptions,
};
use std::path::Path;

fn over_http() -> ServerOptions {
    ServerOptions {
        server: true,
        host: "127.0.0.1".to_string(),
        port: 8080,
        uds_path: "/home/me/.hanode/hanode.sock".to_string(),
    }
}

fn over_socket() -> ServerOptions {
    ServerOptions { server: false, ..over_http() }
}

fn options(daemon: bool) -> StartOptions {
    StartOptions {
        server_opts: over_http(),
        daemon_opts: DaemonOptions {
            daemon,
            pid: "/home/me/.hanode/hanode.pid".to_string(),
            err_file: "/home/me/.hanode/error.log".to_string(),
            log_file: "/home/me/.hanode/info.log".to_string(),
        },
        bootnode: Some("/ip4/127.0.0.1/tcp/32000".to_string()),
        db_dir: None,
        p2p_port: Some(32001),
    }
}

fn http(call: ControlCall) -> (String, bool) {
    match call {
        ControlCall::Http { url, host, port, path, output } => {
            assert_eq!(url, format!("http://{}:{}{}", host, port, path));
            assert!(path.starts_with('/'));
            (url, output)
        }
        other => panic!("expected a call over HTTP, not {:?}", other),
    }
}

fn socket(call: ControlCall) -> (String, String, bool) {
    match call {
        ControlCall::Uds { options, output } => (options.uds_sock_path, options.url_path, output),
        other => panic!("expected a call over the socket, not {:?}", other),
    }
}

#[test]
fn a_call_over_http_joins_host_port_and_path() {
    assert_eq!(
        http(call_url(&over_http(), "peers", true)),
        ("http://127.0.0.1:8080/peers".to_string(), true)
    );
    let far = ServerOptions { host: "node.example".to_string(), port: 3000, ..over_http() };
    assert_eq!(
        http(call_url(&far, "/stop", false)),
        ("http://node.example:3000/stop".to_string(), false)
    );
}

#[test]
fn a_call_over_the_socket_keeps_the_path() {
    assert_eq!(
        socket(call_url(&over_socket(), "/peers", true)),
        ("/home/me/.hanode/hanode.sock".to_string(), "/peers".to_string(), true)
    );
}

#[test]
fn stop_asks_for_stop_and_shows_the_answer() {
    assert_eq!(http(stop(over_http())), ("http://127.0.0.1:8080/stop".to_string(), true));
    let (_, path, output) = socket(stop(over_socket()));
    assert_eq!(path, "/stop");
    assert!(output);
}

#[test]
fn list_peers_asks_for_peers_and_shows_the_answer() {
    assert_eq!(http(list_peers(over_http())), ("http://127.0.0.1:8080/peers".to_string(), true));
    let (_, path, output) = socket(list_peers(over_socket()));
    assert_eq!(path, "/peers");
    assert!(output);
}

#[test]
fn boardcast_puts_the_message_into_the_path_and_shows_nothing() {
    let call = boardcast(BoardcastOptions { server_opts: over_socket(), msg: "hello".to_string() });
    let (_, path, output) = socket(call);
    assert_eq!(path, "/boardcast/hello");
    assert!(!output);
    let call = boardcast(BoardcastOptions { server_opts: over_http(), msg: String::new() });
    assert_eq!(http(call), ("http://127.0.0.1:8080/boardcast/".to_string(), false));
}

#[test]
fn a_node_in_the_foreground_reads_input_and_ignores_the_pid_file() {
    let plan = start(&options(false), Some("hanode".to_string())).unwrap();
    assert!(!plan.daemonize);
    assert!(plan.read_input);
    assert_eq!(plan.db_dir, "data");
    assert_eq!(plan.node.port, Some(32001));
    assert_eq!(plan.node.bootnode, Some("/ip4/127.0.0.1/tcp/32000".to_string()));
    assert_eq!(plan.server.host, Some("127.0.0.1".to_string()));
    assert_eq!(plan.server.port, 8080);
    assert_eq!(store_name(), "hanode.db");
}

#[test]
fn a_node_in_the_background_reads_no_input() {
    let mut opts = options(true);
    opts.db_dir = Some("/var/lib/hanode".to_string());
    opts.bootnode = None;
    opts.p2p_port = None;
    let plan = start(&opts, None).unwrap();
    assert!(plan.daemonize);
    assert!(!plan.read_input);
    assert_eq!(plan.db_dir, "/var/lib/hanode");
    assert_eq!(plan.node.port, None);
    assert_eq!(plan.node.bootnode, None);
}

#[test]
fn a_second_node_in_the_background_is_refused() {
    let err = start(&options(true), Some("hanode".to_string())).unwrap_err();
    assert_eq!(
        err.message(),
        "There is a hanode running, pid file already exists: /home/me/.hanode/hanode.pid"
    );
    match err {
        StartError::AlreadyRunning { process, pid_file } => {
            assert_eq!(process, "hanode");
            assert_eq!(pid_file, "/home/me/.hanode/hanode.pid");
        }
    }
}

#[test]
fn paths_are_joined_as_the_standard_library_joins_them() {
    let cases = [
        ("/home/me/.hanode", "hanode.sock"),
        ("/home/me/.hanode/", "hanode.sock"),
        ("", "hanode.pid"),
        ("/", "info.log"),
        (".hanode", "error.log"),
        ("data", "/etc/passwd"),
        ("data", ""),
        ("", ""),
        ("d\u{e9}p\u{f4}t", "n\u{e9}"),
    ];
    for (dir, name) in cases {
        assert_eq!(
            join_path(dir, name),
            Path::new(dir).join(name).to_str().unwrap(),
            "joining {:?} and {:?}",
            dir,
            name
        );
    }
    assert_eq!(join_path("/home/me/.hanode", "hanode.sock"), "/home/me/.hanode/hanode.sock");
    assert_eq!(join_path("/home/me/.hanode/", "hanode.sock"), "/home/me/.hanode/hanode.sock");
    assert_eq!(join_path("", "hanode.sock"), "hanode.sock");
}

#[test]
fn the_data_directory_defaults_to_the_home_directory() {
    assert_eq!(data_dir(Some("/srv/node".to_string()), Some("/home/me".to_string())), "/srv/node");
    assert_eq!(data_dir(None, Some("/home/me".to_string())), "/home/me/.hanode");
    assert_eq!(data_dir(None, Some("/home/me/".to_string())), "/home/me//.hanode");
    assert_eq!(data_dir(None, None), ".hanode");
}

#[test]
fn the_control_plane_is_reached_at_port_8080_on_the_loopback_by_default() {
    let opts = ServerOptions::from_args(false, None, None, None, "/home/me/.hanode");
    assert!(!opts.server);
    assert_eq!(opts.host, "127.0.0.1");
    assert_eq!(opts.port, 8080);
    assert_eq!(opts.uds_path, "/home/me/.hanode/hanode.sock");
    let opts = ServerOptions::from_args(
        true,
        Some("10.1.2.3".to_string()),
        Some(3000),
        Some("/tmp/node.sock".to_string()),
        "/home/me/.hanode",
    );
    assert!(opts.server);
    assert_eq!(opts.host, "10.1.2.3");
    assert_eq!(opts.port, 3000);
    assert_eq!(opts.uds_path, "/tmp/node.sock");
}

#[test]
fn the_files_of_a_daemon_lie_in_the_data_directory() {
    let opts = DaemonOptions::in_dir(true, "/home/me/.hanode");
    assert!(opts.daemon);
    assert_eq!(opts.pid, "/home/me/.hanode/hanode.pid");
    assert_eq!(opts.err_file, "/home/me/.hanode/error.log");
    assert_eq!(opts.log_file, "/home/me/.hanode/info.log");
    assert!(!DaemonOptions::in_dir(false, "").daemon);
    assert_eq!(DaemonOptions::in_dir(false, "").pid, "hanode.pid");
}

#[test]
fn a_resource_is_asked_for_by_a_path_with_one_leading_slash() {
    assert_eq!(resource_path("/stop"), "/stop");
    assert_eq!(resource_path("stop"), "/stop");
    assert_eq!(resource_path("/boardcast/hello"), "/boardcast/hello");
    assert_eq!(resource_path(""), "/");
    assert_eq!(resource_path("/"), "/");
    assert_eq!(resource_path("//peers"), "//peers");
}

#[test]
fn the_three_requests_go_to_the_three_paths_of_the_control_plane() {
    let cases = [
        (stop(over_http()), "/stop"),
        (list_peers(over_http()), "/peers"),
        (
            boardcast(BoardcastOptions { server_opts: over_http(), msg: "hello".to_string() }),
            "/boardcast/hello",
        ),
    ];
    for (call, expected) in cases {
        match call {
            ControlCall::Http { url, host, port, path, .. } => {
                assert_eq!(path, expected);
                assert_eq!(host, "127.0.0.1");
                assert_eq!(port, 8080);
                assert_eq!(url, format!("http://127.0.0.1:8080{}", expected));
            }
            other => panic!("expected a call over HTTP, not {:?}", other),
        }
    }
    let (_, path, _) = socket(call_url(&over_socket(), "peers", true));
    assert_eq!(path, "/peers");
}
