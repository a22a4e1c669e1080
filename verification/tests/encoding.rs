use agentssh::encoding::decode;
use agentssh::sftp::upload_commands;

fn carried(data: &[u8]) -> String {
    let command = upload_commands(data, "f").remove(0);
    command["echo ".len()..command.find(" | ").unwrap()].trim_matches('\'').to_string()
}

#[test]
fn groups_are_padded() {
    for (data, text) in [
        (&b""[..], ""),
        (b"f", "Zg=="),
        (b"fo", "Zm8="),
        (b"foo", "Zm9v"),
        (b"foob", "Zm9vYg=="),
        (b"\xfb\xff\xfe", "+//+"),
    ] {
        assert_eq!(carried(data), text);
        assert_eq!(decode(text).unwrap(), data);
    }
}

#[test]
fn only_what_is_written_is_read() {
    for text in ["Zg", "Zg=", "Zg===", "Zh==", "Zm9=", "Z===", "====", "Zg==Zg==", "Zm9v\n", "Zm-_"] {
        assert!(decode(text).is_err(), "{text}");
    }
}

#[test]
fn groups_are_read_for_themselves() {
    let data: Vec<u8> = (0..=255).collect();
    let text = carried(&data);
    assert_eq!(text.len(), 344);
    assert_eq!(decode(&text[40..120]).unwrap(), &data[30..90]);
    assert_eq!(decode(&text[340..]).unwrap(), &data[255..]);
}
