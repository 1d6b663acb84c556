use minlabel::net::{
    audio_url, check_status, event_for, link_step, registered_files, room_code, room_files_url,
    rooms_url, sidecar_extensions, sidecar_file_name, sidecar_status, sidecar_url,
    upload_audio_url, upload_file_name, urlencode, ws_url, ConnectInfo, FileInfo, LabelData,
    LinkInput, NetEvent, ServerMsg, Transfer,
};

fn file(id: u32, name: &str) -> FileInfo {
    FileInfo {
        id,
        name: name.to_string(),
        size: 0,
        uploaded: false,
        owner: None,
        status: String::new(),
        annotated_by: None,
    }
}

#[test]
fn connect_info_default() {
    let c = ConnectInfo::default();
    assert_eq!(c.server, "127.0.0.1");
    assert_eq!(c.port, 8080);
    assert_eq!(c.http_port, 8080);
    assert_eq!(c.username, "");
    assert_eq!(c.room, "");
}

#[test]
fn label_data_default() {
    let d = LabelData::default();
    assert!(!d.is_check);
    assert_eq!(d.lab, "");
    assert_eq!(d.lab_without_tone, "");
    assert_eq!(d.raw_text, "");
}

#[test]
fn urlencode_keeps_unreserved() {
    assert_eq!(urlencode("AZaz09-_.~"), "AZaz09-_.~");
    assert_eq!(urlencode(""), "");
}

#[test]
fn urlencode_escapes_other_bytes() {
    assert_eq!(urlencode("a b/é"), "a%20b%2F%C3%A9");
    assert_eq!(urlencode("&=?%"), "%26%3D%3F%25");
    assert_eq!(urlencode("用户"), "%E7%94%A8%E6%88%B7");
}

fn percent_decode(s: &str) -> Vec<u8> {
    let b = s.as_bytes();
    let mut out = Vec::new();
    let mut i = 0;
    while i < b.len() {
        if b[i] == b'%' {
            let h = std::str::from_utf8(&b[i + 1..i + 3]).unwrap();
            out.push(u8::from_str_radix(h, 16).unwrap());
            i += 3;
        } else {
            out.push(b[i]);
            i += 1;
        }
    }
    out
}

#[test]
fn urlencode_round_trips() {
    for s in ["user name", "ünïcödé/%", "房间 7", "a+b=c&d"] {
        let e = urlencode(s);
        assert!(e.chars().all(|c| c.is_ascii_alphanumeric() || "-_.~%".contains(c)));
        assert_eq!(percent_decode(&e), s.as_bytes());
    }
}

#[test]
fn websocket_url() {
    let info = ConnectInfo {
        server: "example.org".to_string(),
        port: 9001,
        http_port: 80,
        username: "Li Lei".to_string(),
        room: "AB12&x".to_string(),
    };
    assert_eq!(ws_url(&info), "ws://example.org:9001/ws?user=Li%20Lei&room=AB12%26x");
    let d = ConnectInfo::default();
    assert_eq!(ws_url(&d), "ws://127.0.0.1:8080/ws?user=&room=");
}

#[test]
fn http_urls() {
    assert_eq!(rooms_url("h", 0), "http://h:0/api/rooms");
    assert_eq!(room_files_url("h", 65535, "R1"), "http://h:65535/api/rooms/R1/files");
    assert_eq!(
        upload_audio_url("10.0.0.2", 8080, "ROOM", 42),
        "http://10.0.0.2:8080/api/rooms/ROOM/files/42/audio"
    );
    assert_eq!(audio_url("h", 8080, 4294967295), "http://h:8080/api/files/4294967295/audio");
    assert_eq!(sidecar_url("h", 8080, 7, "lab"), "http://h:8080/api/files/7/lab");
}

#[test]
fn room_code_from_reply() {
    assert_eq!(room_code(Some("ABC123".to_string())), Ok("ABC123".to_string()));
    assert_eq!(room_code(None), Err("no room id".to_string()));
}

#[test]
fn registered_files_all_or_first_error() {
    let ok = registered_files(vec![Ok(file(1, "a.wav")), Ok(file(2, "b.wav"))]).unwrap();
    assert_eq!(ok.len(), 2);
    assert_eq!(ok[0].id, 1);
    assert_eq!(ok[1].name, "b.wav");
    let err = registered_files(vec![
        Ok(file(1, "a.wav")),
        Err("missing field `id`".to_string()),
        Err("second".to_string()),
    ]);
    assert_eq!(err.unwrap_err(), "missing field `id`");
    assert!(registered_files(vec![]).unwrap().is_empty());
}

#[test]
fn status_checks() {
    assert_eq!(check_status(Transfer::ListFiles, 200, "200 OK"), Ok(()));
    assert_eq!(check_status(Transfer::UploadAudio, 299, "299 <unknown status code>"), Ok(()));
    assert_eq!(
        check_status(Transfer::ListFiles, 404, "404 Not Found"),
        Err("list files failed: 404 Not Found".to_string())
    );
    assert_eq!(
        check_status(Transfer::UploadAudio, 500, "500 Internal Server Error"),
        Err("upload failed: 500 Internal Server Error".to_string())
    );
    assert_eq!(
        check_status(Transfer::DownloadAudio, 199, "199"),
        Err("download failed: 199".to_string())
    );
}

#[test]
fn sidecar_statuses() {
    assert_eq!(sidecar_status(404, "404 Not Found"), Ok(false));
    assert_eq!(sidecar_status(200, "200 OK"), Ok(true));
    assert_eq!(
        sidecar_status(503, "503 Service Unavailable"),
        Err("sidecar download failed: 503 Service Unavailable".to_string())
    );
}

#[test]
fn upload_names() {
    assert_eq!(upload_file_name(Some("x.wav".to_string())), "x.wav");
    assert_eq!(upload_file_name(None), "audio.bin");
    assert_eq!(sidecar_extensions(), vec!["lab", "json"]);
    assert_eq!(sidecar_file_name("clip01", "lab"), "clip01.lab");
}

#[test]
fn server_messages_become_events() {
    match event_for(ServerMsg::Release { user: "u".to_string(), file_id: 3 }) {
        NetEvent::Released { file_id } => assert_eq!(file_id, 3),
        other => panic!("unexpected {:?}", other),
    }
    match event_for(ServerMsg::Presence { user: "u".to_string(), file_id: 5 }) {
        NetEvent::Presence { user, file_id } => {
            assert_eq!(user, "u");
            assert_eq!(file_id, 5);
        }
        other => panic!("unexpected {:?}", other),
    }
    match event_for(ServerMsg::Progress { done: 2, total: 9 }) {
        NetEvent::Progress { done, total } => assert_eq!((done, total), (2, 9)),
        other => panic!("unexpected {:?}", other),
    }
    match event_for(ServerMsg::FileUnavailable { file_id: 8 }) {
        NetEvent::FileUnavailable { file_id } => assert_eq!(file_id, 8),
        other => panic!("unexpected {:?}", other),
    }
}

#[test]
fn link_decisions() {
    let s = link_step(LinkInput::RuntimeFailed("boom".to_string()));
    assert!(s.stop);
    assert!(matches!(s.event, Some(NetEvent::Error(ref m)) if m == "Runtime: boom"));
    let s = link_step(LinkInput::ConnectFailed("refused".to_string()));
    assert!(s.stop);
    assert!(matches!(s.event, Some(NetEvent::Error(ref m)) if m == "Connect: refused"));
    let s = link_step(LinkInput::ConnectTimedOut);
    assert!(matches!(s.event, Some(NetEvent::Error(ref m)) if m == "Connect: timed out"));
    let s = link_step(LinkInput::Connected);
    assert!(!s.stop && matches!(s.event, Some(NetEvent::Connected)));
    let s = link_step(LinkInput::QueueClosed);
    assert!(s.stop && s.event.is_none());
    let s = link_step(LinkInput::Sent);
    assert!(!s.stop && s.event.is_none());
    let s = link_step(LinkInput::SendFailed);
    assert!(s.stop && s.event.is_none());
    let s = link_step(LinkInput::Text(Some(ServerMsg::FileReady { file_id: 1 })));
    assert!(!s.stop && matches!(s.event, Some(NetEvent::FileReady { file_id: 1 })));
    let s = link_step(LinkInput::Text(None));
    assert!(!s.stop && s.event.is_none());
    let s = link_step(LinkInput::OtherFrame);
    assert!(!s.stop && s.event.is_none());
    let s = link_step(LinkInput::ReadFailed("reset".to_string()));
    assert!(s.stop && matches!(s.event, Some(NetEvent::Disconnected(ref m)) if m == "reset"));
    let s = link_step(LinkInput::Closed);
    assert!(s.stop);
    assert!(matches!(s.event, Some(NetEvent::Disconnected(ref m)) if m == "Connection closed"));
}

#[test]
fn session_reports_frames_in_order_then_close() {
    let inputs = vec![
        LinkInput::Connected,
        LinkInput::Text(Some(ServerMsg::FileReady { file_id: 4 })),
        LinkInput::OtherFrame,
        LinkInput::Sent,
        LinkInput::Text(None),
        LinkInput::Text(Some(ServerMsg::Release { user: "u".to_string(), file_id: 9 })),
        LinkInput::Closed,
    ];
    let n = inputs.len();
    let mut events = Vec::new();
    for (i, input) in inputs.into_iter().enumerate() {
        let step = link_step(input);
        assert_eq!(step.stop, i == n - 1);
        events.extend(step.event);
    }
    assert_eq!(events.len(), 4);
    assert!(matches!(events[0], NetEvent::Connected));
    assert!(matches!(events[1], NetEvent::FileReady { file_id: 4 }));
    assert!(matches!(events[2], NetEvent::Released { file_id: 9 }));
    assert!(matches!(events[3], NetEvent::Disconnected(ref m) if m == "Connection closed"));
}

#[test]
fn escapes_are_complete() {
    let e = urlencode("ä %~");
    assert_eq!(e, "%C3%A4%20%25~");
    for (i, c) in e.char_indices() {
        if c == '%' {
            let h = &e[i + 1..i + 3];
            assert!(h.chars().all(|d| d.is_ascii_digit() || ('A'..='F').contains(&d)));
        }
    }
}
