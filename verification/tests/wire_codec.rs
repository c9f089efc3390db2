use loungy::commands::{RootCommands, SnapshotEntry};
use loungy::dispatch::{CommandPayload, TopLevelCommand};
use loungy::wire::{
    decode_payload, decode_snapshot, encode_payload, encode_payload_checked, encode_snapshot,
    encode_snapshot_checked,
};

fn payload(action: TopLevelCommand, command: Option<&str>) -> CommandPayload {
    CommandPayload::new(action, command.map(String::from))
}

#[test]
fn payload_without_command_has_exact_encoding() {
    assert_eq!(encode_payload(&payload(TopLevelCommand::Show, None)), "S-");
    assert_eq!(encode_payload(&payload(TopLevelCommand::Toggle, None)), "T-");
    assert_eq!(encode_payload(&payload(TopLevelCommand::Hide, None)), "H-");
    assert_eq!(encode_payload(&payload(TopLevelCommand::Quit, None)), "Q-");
    assert_eq!(encode_payload(&payload(TopLevelCommand::Pipe, None)), "P-");
}

#[test]
fn payload_with_command_has_exact_encoding() {
    let p = payload(TopLevelCommand::Command, Some("themes"));
    assert_eq!(encode_payload(&p), "C+00000006themes");
}

#[test]
fn payload_round_trips_every_action() {
    let cases = vec![
        payload(TopLevelCommand::Toggle, None),
        payload(TopLevelCommand::Show, None),
        payload(TopLevelCommand::Hide, None),
        payload(TopLevelCommand::Quit, None),
        payload(TopLevelCommand::Pipe, None),
        payload(TopLevelCommand::Command, Some("themes")),
        payload(TopLevelCommand::Command, Some("")),
        payload(TopLevelCommand::Command, Some("with spaces and :: colons")),
    ];
    for p in cases {
        let wire = encode_payload(&p);
        let back = decode_payload(&wire).expect("well-formed wire string must decode");
        assert_eq!(back.action, p.action);
        assert_eq!(back.command, p.command);
    }
}

#[test]
fn malformed_payloads_are_refused() {
    assert!(decode_payload("").is_none());
    assert!(decode_payload("S").is_none());
    assert!(decode_payload("X-").is_none());
    assert!(decode_payload("S-trailing").is_none());
    assert!(decode_payload("C+").is_none());
    assert!(decode_payload("C+0000000").is_none());
    // length field not numeric
    assert!(decode_payload("C+0000000xthemes").is_none());
    // length field disagrees with the body
    assert!(decode_payload("C+00000007themes").is_none());
    assert!(decode_payload("C+00000005themes").is_none());
}

#[test]
fn checked_payload_encoding_accepts_ordinary_commands() {
    let p = payload(TopLevelCommand::Command, Some("themes"));
    assert_eq!(encode_payload_checked(&p).unwrap(), "C+00000006themes");
}

#[test]
fn empty_snapshot_has_exact_encoding() {
    let entries: Vec<SnapshotEntry> = Vec::new();
    assert_eq!(encode_snapshot(&entries), "00000000");
    let back = decode_snapshot("00000000").unwrap();
    assert!(back.is_empty());
}

#[test]
fn snapshot_round_trips_registry() {
    let registry = RootCommands::init();
    let entries = registry.snapshot();
    let wire = encode_snapshot_checked(&entries).expect("registry snapshot fits the wire format");
    let back = decode_snapshot(&wire).expect("well-formed snapshot must decode");
    assert_eq!(back.len(), 2);
    assert_eq!(back[0].id, "loungy::commands::loungy");
    assert_eq!(back[0].title, "Loungy");
    assert_eq!(back[0].subtitle, "Preferences");
    assert_eq!(back[1].id, "loungy::commands::themes");
    assert_eq!(back[1].title, "Search Themes");
    assert_eq!(back[1].subtitle, "Customization");
}

#[test]
fn malformed_snapshots_are_refused() {
    assert!(decode_snapshot("").is_none());
    assert!(decode_snapshot("0000000").is_none());
    assert!(decode_snapshot("0000000x").is_none());
    // claims one entry, holds none
    assert!(decode_snapshot("00000001").is_none());
    // trailing garbage after the declared entries
    assert!(decode_snapshot("00000000junk").is_none());
}

#[test]
fn snapshot_with_awkward_field_values_round_trips() {
    let entries = vec![
        SnapshotEntry {
            id: String::from("ns::group::leaf"),
            title: String::from(""),
            subtitle: String::from("00000003"),
        },
        SnapshotEntry {
            id: String::from("a::b::c"),
            title: String::from("title with\nnewline"),
            subtitle: String::from("unicode: \u{00e9}\u{4e16}"),
        },
    ];
    let wire = encode_snapshot(&entries);
    let back = decode_snapshot(&wire).unwrap();
    assert_eq!(back.len(), 2);
    for (a, b) in entries.iter().zip(back.iter()) {
        assert_eq!(a.id, b.id);
        assert_eq!(a.title, b.title);
        assert_eq!(a.subtitle, b.subtitle);
    }
}
