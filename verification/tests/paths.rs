use desktop_ipc::api::IpcMessage;
use desktop_ipc::api::IpcMessageType;
use desktop_ipc::hub::Message;
use desktop_ipc::hub::MessageType;
use desktop_ipc::paths::path;
use desktop_ipc::paths::socket_path_from_home;
use desktop_ipc::paths::windows_pipe_path;

#[test]
fn socket_path_joins_home_and_suffix() {
    assert_eq!(socket_path_from_home("/home/user"), "/home/user/tmp/bitwarden.sock");
    assert_eq!(socket_path_from_home(""), "/tmp/bitwarden.sock");
}

#[test]
fn path_uses_the_real_home_directory() {
    match path() {
        Some(p) => {
            assert!(p.ends_with("/tmp/bitwarden.sock"));
            assert_eq!(Some(p), dirs::home_dir().map(|h| {
                socket_path_from_home(&h.to_string_lossy())
            }));
        }
        None => assert!(dirs::home_dir().is_none()),
    }
}

#[test]
fn pipe_path_is_the_well_known_name() {
    assert_eq!(windows_pipe_path(), r"\\.\pipe\bitwarden.sock");
}

#[test]
fn message_kind_converts_to_bridge_kind() {
    assert_eq!(IpcMessageType::from(MessageType::Connected), IpcMessageType::Connected);
    assert_eq!(IpcMessageType::from(MessageType::Disconnected), IpcMessageType::Disconnected);
    assert_eq!(IpcMessageType::from(MessageType::Message), IpcMessageType::Message);
}

#[test]
fn message_converts_to_bridge_message() {
    let m = Message { client_id: 9, kind: MessageType::Message, message: "hey".to_owned() };
    let bridged = IpcMessage::from(m);
    assert_eq!(bridged.client_id, 9);
    assert_eq!(bridged.kind, IpcMessageType::Message);
    assert_eq!(bridged.message, "hey");
}
