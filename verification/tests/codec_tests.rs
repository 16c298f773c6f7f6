use ssh_bridge::codec::{decode_command, encode_response};
use ssh_bridge::protocol::{Command, FileEntry, Response};

#[test]
fn decode_connect_with_password() {
    let r = decode_command(
        "{\"cmd\":\"Connect\",\"host\":\"example.org\",\"port\":22,\"username\":\"alice\",\"password\":\"s3cret\"}",
    );
    assert_eq!(
        r,
        Ok(Command::Connect {
            host: "example.org".to_string(),
            port: 22,
            username: "alice".to_string(),
            password: Some("s3cret".to_string()),
            private_key: None,
        })
    );
}

#[test]
fn decode_connect_with_key_and_null_password() {
    let r = decode_command(
        "{\"cmd\":\"Connect\",\"host\":\"h\",\"port\":2222,\"username\":\"u\",\"password\":null,\"private_key\":\"KEY\"}",
    );
    assert_eq!(
        r,
        Ok(Command::Connect {
            host: "h".to_string(),
            port: 2222,
            username: "u".to_string(),
            password: None,
            private_key: Some("KEY".to_string()),
        })
    );
}

#[test]
fn decode_exec() {
    let r = decode_command("{\"cmd\":\"Exec\",\"command\":\"ls -l\"}");
    assert_eq!(r, Ok(Command::Exec { command: "ls -l".to_string() }));
}

#[test]
fn decode_field_order_does_not_matter() {
    let r = decode_command("{\"command\":\"ls\",\"cmd\":\"Exec\"}");
    assert_eq!(r, Ok(Command::Exec { command: "ls".to_string() }));
}

#[test]
fn decode_sftp_variants() {
    assert_eq!(
        decode_command("{\"cmd\":\"SftpList\",\"path\":\"/tmp\"}"),
        Ok(Command::SftpList { path: "/tmp".to_string() })
    );
    assert_eq!(
        decode_command("{\"cmd\":\"SftpRemove\",\"path\":\"/tmp/f\"}"),
        Ok(Command::SftpRemove { path: "/tmp/f".to_string() })
    );
    assert_eq!(
        decode_command("{\"cmd\":\"SftpMkdir\",\"path\":\"/tmp/d\"}"),
        Ok(Command::SftpMkdir { path: "/tmp/d".to_string() })
    );
    assert_eq!(
        decode_command("{\"cmd\":\"SftpRmdir\",\"path\":\"/tmp/d\"}"),
        Ok(Command::SftpRmdir { path: "/tmp/d".to_string() })
    );
    assert_eq!(
        decode_command("{\"cmd\":\"SftpDownload\",\"remote\":\"/r\",\"local\":\"/l\"}"),
        Ok(Command::SftpDownload { remote: "/r".to_string(), local: "/l".to_string() })
    );
    assert_eq!(
        decode_command("{\"cmd\":\"SftpUpload\",\"local\":\"/l\",\"remote\":\"/r\"}"),
        Ok(Command::SftpUpload { local: "/l".to_string(), remote: "/r".to_string() })
    );
}

#[test]
fn decode_field_free_commands() {
    assert_eq!(decode_command("{\"cmd\":\"GetHomeDir\"}"), Ok(Command::GetHomeDir));
    assert_eq!(decode_command("{\"cmd\":\"Disconnect\"}"), Ok(Command::Disconnect));
    assert_eq!(decode_command("  { \"cmd\" : \"Disconnect\" }  "), Ok(Command::Disconnect));
}

#[test]
fn decode_string_escapes() {
    let r = decode_command("{\"cmd\":\"Exec\",\"command\":\"a\\\"b\\\\c\\nd\\tt\\u0041\\u00e9\"}");
    assert_eq!(r, Ok(Command::Exec { command: "a\"b\\c\nd\ttA\u{e9}".to_string() }));
}

#[test]
fn decode_unknown_fields_are_ignored() {
    let r = decode_command("{\"cmd\":\"GetHomeDir\",\"extra\":true,\"more\":null,\"n\":-1.5e3}");
    assert_eq!(r, Ok(Command::GetHomeDir));
}

#[test]
fn decode_malformed_line_is_an_error() {
    assert_eq!(decode_command("not json"), Err("malformed JSON line".to_string()));
    assert_eq!(decode_command(""), Err("malformed JSON line".to_string()));
    assert_eq!(decode_command("{\"cmd\":\"Exec\""), Err("malformed JSON line".to_string()));
    assert_eq!(decode_command("{\"cmd\":\"Exec\"} trailing"), Err("malformed JSON line".to_string()));
    assert_eq!(decode_command("[1,2]"), Err("malformed JSON line".to_string()));
}

#[test]
fn decode_missing_tag_or_fields() {
    assert_eq!(
        decode_command("{\"host\":\"h\"}"),
        Err("missing or invalid `cmd` tag".to_string())
    );
    assert_eq!(
        decode_command("{\"cmd\":\"Exec\"}"),
        Err("missing or invalid fields for `Exec`".to_string())
    );
    assert_eq!(
        decode_command("{\"cmd\":\"Frobnicate\"}"),
        Err("unknown command tag".to_string())
    );
    assert_eq!(
        decode_command("{\"cmd\":\"SftpList\",\"path\":7}"),
        Err("missing or invalid fields for `SftpList`".to_string())
    );
}

#[test]
fn decode_rejects_bad_strings_and_numbers() {
    // A lone surrogate escape names no Unicode scalar value.
    assert_eq!(
        decode_command("{\"cmd\":\"Exec\",\"command\":\"\\uD83D\"}"),
        Err("malformed JSON line".to_string())
    );
    // An unknown escape, a raw control character, a leading zero.
    assert_eq!(
        decode_command("{\"cmd\":\"Exec\",\"command\":\"\\q\"}"),
        Err("malformed JSON line".to_string())
    );
    assert_eq!(
        decode_command("{\"cmd\":\"Exec\",\"command\":\"a\u{1}b\"}"),
        Err("malformed JSON line".to_string())
    );
    assert_eq!(
        decode_command("{\"cmd\":\"Connect\",\"host\":\"h\",\"port\":022,\"username\":\"u\"}"),
        Err("malformed JSON line".to_string())
    );
}

#[test]
fn decode_port_must_fit() {
    assert_eq!(
        decode_command("{\"cmd\":\"Connect\",\"host\":\"h\",\"port\":70000,\"username\":\"u\",\"password\":\"p\"}"),
        Err("missing or invalid fields for `Connect`".to_string())
    );
    assert_eq!(
        decode_command("{\"cmd\":\"Connect\",\"host\":\"h\",\"port\":\"22\",\"username\":\"u\",\"password\":\"p\"}"),
        Err("missing or invalid fields for `Connect`".to_string())
    );
    assert_eq!(
        decode_command("{\"cmd\":\"Connect\",\"host\":\"h\",\"port\":2.2,\"username\":\"u\",\"password\":\"p\"}"),
        Err("missing or invalid fields for `Connect`".to_string())
    );
}

#[test]
fn decode_missing_auth_fields_still_decode() {
    let r = decode_command("{\"cmd\":\"Connect\",\"host\":\"h\",\"port\":22,\"username\":\"u\"}");
    assert_eq!(
        r,
        Ok(Command::Connect {
            host: "h".to_string(),
            port: 22,
            username: "u".to_string(),
            password: None,
            private_key: None,
        })
    );
}

#[test]
fn encode_plain_responses() {
    assert_eq!(encode_response(&Response::Connected), "{\"status\":\"connected\"}");
    assert_eq!(encode_response(&Response::Disconnected), "{\"status\":\"disconnected\"}");
    assert_eq!(encode_response(&Response::Okay), "{\"status\":\"ok\"}");
}

#[test]
fn encode_output_and_error() {
    assert_eq!(
        encode_response(&Response::Output { output: "hello\n".to_string() }),
        "{\"status\":\"output\",\"output\":\"hello\\n\"}"
    );
    assert_eq!(
        encode_response(&Response::Error { message: "a \"b\" \\ c".to_string() }),
        "{\"status\":\"error\",\"message\":\"a \\\"b\\\" \\\\ c\"}"
    );
    assert_eq!(
        encode_response(&Response::HomeDir { path: "/home/u".to_string() }),
        "{\"status\":\"home_dir\",\"path\":\"/home/u\"}"
    );
}

#[test]
fn encode_control_characters_numerically() {
    assert_eq!(
        encode_response(&Response::Output { output: "a\u{1}b".to_string() }),
        "{\"status\":\"output\",\"output\":\"a\\u0001b\"}"
    );
}

#[test]
fn encode_files_listing() {
    let files = vec![
        FileEntry { name: "dir".to_string(), is_dir: true, size: 0 },
        FileEntry { name: "f.txt".to_string(), is_dir: false, size: 1234567890123 },
    ];
    assert_eq!(
        encode_response(&Response::Files { files }),
        "{\"status\":\"files\",\"files\":[{\"name\":\"dir\",\"is_dir\":true,\"size\":0},{\"name\":\"f.txt\",\"is_dir\":false,\"size\":1234567890123}]}"
    );
    assert_eq!(
        encode_response(&Response::Files { files: Vec::new() }),
        "{\"status\":\"files\",\"files\":[]}"
    );
}

#[test]
fn encoded_responses_are_valid_json() {
    let files = vec![FileEntry { name: "a\"b".to_string(), is_dir: false, size: 42 }];
    let line = encode_response(&Response::Files { files });
    let v: serde_json::Value = serde_json::from_str(&line).unwrap();
    assert_eq!(v.get("status").unwrap().as_str().unwrap(), "files");
    let entry = &v.get("files").unwrap().as_array().unwrap()[0];
    assert_eq!(entry.get("name").unwrap().as_str().unwrap(), "a\"b");
    assert_eq!(entry.get("is_dir").unwrap().as_bool().unwrap(), false);
    assert_eq!(entry.get("size").unwrap().as_u64().unwrap(), 42);

    let line = encode_response(&Response::Output { output: "x\u{7}y\tz\u{e9}".to_string() });
    let v: serde_json::Value = serde_json::from_str(&line).unwrap();
    assert_eq!(v.get("output").unwrap().as_str().unwrap(), "x\u{7}y\tz\u{e9}");
}

#[test]
fn decode_round_trips_what_serde_writes() {
    let line = "{\"cmd\":\"Exec\",\"command\":\"echo \u{e9}\"}";
    let r = decode_command(line);
    assert_eq!(r, Ok(Command::Exec { command: "echo \u{e9}".to_string() }));
}
