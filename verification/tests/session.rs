use netfolder::net::client::{
    delete, dir, disconnect, download, parse_command, post_connection_shell,
    pre_connection_shell, pre_run_command, run_command, split_blank, start_client, upload,
    Follow, Order,
};
use netfolder::encoding::Ending;
use netfolder::net::server::{Command, Connection, Handled, State};
use netfolder::net::{
    create_delete, create_dir, create_disconnect, create_download, create_end, create_error,
    create_okay, create_redirect, create_stdout, create_upload, mod_data, Code, PACKET_SIZE,
};

#[test]
fn session_begins_awaiting_a_command() {
    assert_eq!(Connection::new().state(), State::AwaitingCommand);
}

#[test]
fn upload_request_is_received() {
    let mut connection = Connection::new();
    match connection.handle_command(Code::Upload, create_upload("up.bin", 3)) {
        Command::Receive { name, id } => {
            assert_eq!(name, "up.bin");
            assert_eq!(id, 3);
        },
        _ => panic!("an upload is received"),
    }
    assert_eq!(connection.state(), State::Dispatching(Code::Upload));
}

#[test]
fn redirect_request_is_received_under_its_name() {
    let mut connection = Connection::new();
    match connection.handle(Some(create_redirect("re.bin", 77))) {
        Command::Receive { name, id } => {
            assert_eq!(name, "re.bin");
            assert_eq!(id, 77);
        },
        _ => panic!("a redirect is received"),
    }
    assert_eq!(connection.state(), State::Dispatching(Code::Redirect));
    assert_eq!(connection.finish(Handled::Done), vec![create_okay()]);
}

#[test]
fn download_request_is_acknowledged_with_a_redirect() {
    let mut connection = Connection::new();
    match connection.handle(Some(create_download("down.bin"))) {
        Command::Send { path, ack } => {
            assert_eq!(path, "down.bin");
            assert_eq!(ack, create_redirect("down.bin", 0));
        },
        _ => panic!("a download is sent"),
    }
    assert_eq!(connection.state(), State::Dispatching(Code::Download));
    assert_eq!(connection.finish(Handled::Done), vec![create_okay()]);
    assert_eq!(connection.state(), State::AwaitingCommand);
}

#[test]
fn disconnect_closes_without_a_reply() {
    let mut connection = Connection::new();
    assert!(matches!(connection.handle(Some(create_disconnect())), Command::Close));
    assert_eq!(connection.state(), State::Closed);
}

#[test]
fn closed_stream_closes_the_session() {
    let mut connection = Connection::new();
    assert!(matches!(connection.handle(None), Command::Close));
    assert_eq!(connection.state(), State::Closed);
}

#[test]
fn what_is_no_request_is_refused_and_the_session_goes_on() {
    let mut data = [0u8; PACKET_SIZE];
    mod_data(&mut data, 1, 0, 10);
    let mut hello = [0u8; PACKET_SIZE];
    hello[0] = 5;
    let packets =
        [[0u8; PACKET_SIZE], hello, create_okay(), create_error(), data, create_stdout(b"x"),
            create_end(), [200u8; PACKET_SIZE]];
    let mut connection = Connection::new();
    for packet in packets.iter() {
        match connection.handle(Some(*packet)) {
            Command::Refuse { reply } => assert_eq!(reply, create_error()),
            _ => panic!("no request"),
        }
        assert_eq!(connection.state(), State::AwaitingCommand);
    }
    assert!(matches!(connection.handle(Some(create_dir(""))), Command::List));
}

#[test]
fn replies_close_the_work_on_a_request() {
    let cases = [
        (create_upload("a", 1), Handled::Done, vec![create_okay()]),
        (create_upload("a", 1), Handled::Failed, vec![create_error()]),
        (create_upload("a", 1), Handled::Mismatch, vec![create_error()]),
        (create_download("a"), Handled::Failed, vec![create_error()]),
        (create_redirect("a", 0), Handled::Mismatch, vec![create_error()]),
        (create_delete("a"), Handled::Done, vec![create_okay()]),
        (
            create_delete("a"),
            Handled::Failed,
            vec![create_stdout(b"Unable to delete file"), create_end()],
        ),
        (create_dir(""), Handled::Done, vec![]),
        (create_dir(""), Handled::Failed, vec![create_error()]),
    ];
    for (request, handled, replies) in cases.iter() {
        let mut connection = Connection::new();
        connection.handle(Some(*request));
        assert_eq!(&connection.finish(*handled), replies);
        assert_eq!(connection.state(), State::AwaitingCommand);
    }
}

#[test]
fn each_command_has_its_request() {
    assert_eq!(upload("a.txt"), (create_upload("a.txt", 1), Follow::HostFile));
    assert_eq!(download("a.txt"), (create_download("a.txt"), Follow::Listen));
    assert_eq!(delete("a.txt"), (create_delete("a.txt"), Follow::Listen));
    assert_eq!(dir(), (create_dir(""), Follow::Listen));
    assert_eq!(disconnect(), (create_disconnect(), Follow::Leave));
    let mut bare = [0u8; PACKET_SIZE];
    bare[0] = 4;
    assert_eq!(dir().0, bare);
}

#[test]
fn split_blank_keeps_empty_parts() {
    assert_eq!(split_blank("a b"), vec!["a", "b"]);
    assert_eq!(split_blank("a  b "), vec!["a", "", "b", ""]);
    assert_eq!(split_blank(""), vec![""]);
    assert_eq!(split_blank("one"), vec!["one"]);
    assert_eq!(split_blank("t\tab \u{e9}"), vec!["t\tab", "\u{e9}"]);
}

#[test]
fn parse_command_gives_name_and_arguments() {
    assert_eq!(parse_command("upload a.txt\n"), (String::from("upload"), vec!["a.txt"]));
    assert_eq!(parse_command("  DIR  "), (String::from("dir"), Vec::<&str>::new()));
    assert_eq!(
        parse_command("Connect 127.0.0.1 3219"),
        (String::from("connect"), vec!["127.0.0.1", "3219"])
    );
    assert_eq!(parse_command("get  x"), (String::from("get"), vec!["", "x"]));
    assert_eq!(parse_command("cmd\t A"), (String::from("cmd"), vec!["A"]));
    assert_eq!(parse_command(""), (String::new(), Vec::<&str>::new()));
    assert_eq!(parse_command("\u{c9}XIT"), (String::from("\u{c9}xit"), Vec::<&str>::new()));
}

#[test]
fn commands_take_their_number_of_arguments() {
    assert!(matches!(run_command("upload", &vec!["a"]), Ok(Order::Upload(p)) if p == "a"));
    assert!(matches!(run_command("download", &vec!["b"]), Ok(Order::Download(p)) if p == "b"));
    assert!(matches!(run_command("delete", &vec!["c"]), Ok(Order::Delete(p)) if p == "c"));
    assert!(matches!(run_command("dir", &vec![]), Ok(Order::Dir)));
    assert!(matches!(run_command("list", &vec![]), Ok(Order::Invalid)));
    assert!(matches!(run_command("connect", &vec!["h", "1"]), Ok(Order::Invalid)));
    for name in ["upload", "download", "delete"] {
        for args in [vec![], vec!["a", "b"]] {
            match run_command(name, &args) {
                Err(e) => assert_eq!(e.description(), "Expected 1 argument"),
                _ => panic!("one argument is expected"),
            }
        }
    }
    match run_command("dir", &vec!["x"]) {
        Err(e) => assert_eq!(e.description(), "Expected 0 arguments"),
        _ => panic!("no argument is expected"),
    }
}

#[test]
fn only_connect_runs_without_a_connection() {
    match pre_run_command("connect", &vec!["127.0.0.1", "3219"]) {
        Ok(Order::Connect { host, port }) => {
            assert_eq!(host, "127.0.0.1");
            assert_eq!(port, "3219");
        },
        _ => panic!("connect connects"),
    }
    match pre_run_command("connect", &vec!["127.0.0.1"]) {
        Err(e) => assert_eq!(e.description(), "Expected 2 arguments"),
        _ => panic!("two arguments are expected"),
    }
    assert!(matches!(pre_run_command("upload", &vec!["a"]), Ok(Order::Invalid)));
}

#[test]
fn lines_of_the_connected_shell() {
    assert!(matches!(post_connection_shell("exit\n"), Ok(Order::Exit)));
    assert!(matches!(post_connection_shell(" EXIT now\n"), Ok(Order::Exit)));
    assert!(matches!(post_connection_shell("Upload a.txt\n"), Ok(Order::Upload(p)) if p == "a.txt"));
    assert!(matches!(post_connection_shell("dir\n"), Ok(Order::Dir)));
    assert!(matches!(post_connection_shell("\n"), Ok(Order::Invalid)));
    match post_connection_shell("delete\n") {
        Err(e) => assert_eq!(e.description(), "Expected 1 argument"),
        _ => panic!("one argument is expected"),
    }
    match post_connection_shell("upload  a.txt\n") {
        Err(e) => assert_eq!(e.description(), "Expected 1 argument"),
        _ => panic!("two blanks hold an empty argument"),
    }
}

#[test]
fn lines_of_the_unconnected_shell() {
    match pre_connection_shell("connect 10.0.0.1 3219\n") {
        Ok(Order::Connect { host, port }) => {
            assert_eq!(host, "10.0.0.1");
            assert_eq!(port, "3219");
        },
        _ => panic!("connect connects"),
    }
    assert!(matches!(pre_connection_shell("exit\n"), Ok(Order::Invalid)));
    match pre_connection_shell("connect\n") {
        Err(e) => assert_eq!(e.description(), "Expected 2 arguments"),
        _ => panic!("two arguments are expected"),
    }
}

#[test]
fn client_plan_follows_its_options() {
    let plan = start_client(Some("h"), Some("1"), true, Some("d"), Some("u"), Some("x"), false);
    assert_eq!(plan.connect, Some((String::from("h"), String::from("1"))));
    assert_eq!(plan.orders.len(), 4);
    assert!(matches!(&plan.orders[0], Order::Dir));
    assert!(matches!(&plan.orders[1], Order::Download(p) if p == "d"));
    assert!(matches!(&plan.orders[2], Order::Upload(p) if p == "u"));
    assert!(matches!(&plan.orders[3], Order::Delete(p) if p == "x"));
    assert!(!plan.shell);

    let plan = start_client(Some("h"), None, false, None, None, None, false);
    assert_eq!(plan.connect, None);
    assert!(plan.orders.is_empty());
    assert!(plan.shell);

    let plan = start_client(None, Some("1"), false, None, Some("u"), None, true);
    assert_eq!(plan.connect, None);
    assert_eq!(plan.orders.len(), 1);
    assert!(plan.shell);
}

#[test]
fn end_of_a_transfer_is_the_end_of_its_request() {
    assert_eq!(Handled::of_receive(Ending::Complete), Handled::Done);
    assert_eq!(Handled::of_receive(Ending::Mismatch), Handled::Mismatch);
    assert_eq!(Handled::of_receive(Ending::Starved), Handled::Done);
    assert_eq!(Handled::of_receive(Ending::Stopped(Code::Okay)), Handled::Done);
}
