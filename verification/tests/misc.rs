use drop_sharing::arguments::ReceiverArgs;
use drop_sharing::discover::{DiscoveryData, Pack, Protocol};
use drop_sharing::discovery::message::TransferDesision;
use drop_sharing::discovery::receiver::{decision_from_action, parse_confirmation, ConfirmMode};
use drop_sharing::start_handler::{FileInfo, FileKind};
use std::path::PathBuf;

#[test]
fn poor_discovery_packet_bytes() {
    let name = b"box";
    let packet = Protocol::Poor(DiscoveryData::new(name));
    assert_eq!(packet.kind_byte(), 1);
    let mut expected = b"DropSharing".to_vec();
    expected.extend_from_slice(&[1, 0, 3]);
    expected.extend_from_slice(b"box");
    assert_eq!(packet.compact(), expected);
}

#[test]
fn long_device_names_wrap_their_length() {
    let name = vec![b'x'; 65537];
    let data = DiscoveryData::new(&name);
    assert_eq!(data.device_name_len, [0, 1]);
}

#[test]
fn terminal_confirmation() {
    assert_eq!(parse_confirmation("y\n"), Some(TransferDesision::Accepted));
    assert_eq!(parse_confirmation("  YES "), Some(TransferDesision::Accepted));
    assert_eq!(parse_confirmation("No\n"), Some(TransferDesision::Rejected));
    assert_eq!(parse_confirmation("n"), Some(TransferDesision::Rejected));
    assert_eq!(parse_confirmation("maybe"), None);
    assert_eq!(parse_confirmation(""), None);
}

#[test]
fn notification_actions() {
    assert_eq!(decision_from_action("accepted"), TransferDesision::Accepted);
    assert_eq!(decision_from_action("rejected"), TransferDesision::Rejected);
    assert_eq!(decision_from_action("__closed"), TransferDesision::Rejected);
    assert_eq!(ReceiverArgs { daemon: true }.confirm_mode(), ConfirmMode::Notification);
    assert_eq!(ReceiverArgs { daemon: false }.confirm_mode(), ConfirmMode::Terminal);
}

#[test]
fn file_info_and_kinds() {
    let info = FileInfo::new("a.txt".to_string(), PathBuf::from("/d/a.txt"), 12, FileKind::from_type(false, true, false));
    assert_eq!(info.name(), "a.txt");
    assert_eq!(info.path(), &PathBuf::from("/d/a.txt"));
    assert_eq!(info.size(), 12);
    assert_eq!(info.kind(), 1);
    assert_eq!(FileKind::from_type(true, true, false).code(), 3);
    assert_eq!(FileKind::from_type(false, false, true).code(), 2);
    assert_eq!(FileKind::from_type(false, false, false).code(), 4);
}
