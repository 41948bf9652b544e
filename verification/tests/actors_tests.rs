use paris_transit::actors::{render_for, str_equal, ws_reply, CentralDispatch, Render, Watching, WsMessage, WsReply};
use paris_transit::objects::{Line, LineReference, PTData};

fn data(ids: &[&str]) -> PTData {
    PTData {
        lines: ids
            .iter()
            .map(|id| Line {
                reference: LineReference {
                    id: id.to_string(),
                    name: String::new(),
                    short_name: String::new(),
                    mode: String::new(),
                    sub_mode: String::new(),
                    operator_name: String::new(),
                    network_name: String::new(),
                    background_color: String::new(),
                    text_color: String::new(),
                },
                vjs: vec![],
            })
            .collect(),
    }
}

#[test]
fn dispatch_counts_connections() {
    let mut d: CentralDispatch<u32> = CentralDispatch::new();
    assert_eq!(d.status().nb_open_connections, 0);
    d.connect(7);
    d.connect(3);
    assert_eq!(d.status().nb_open_connections, 2);
    assert_eq!(d.recipients(), &vec![7, 3]);
}

#[test]
fn index_watchers_get_the_line_list() {
    let r = render_for(&Watching::Index, &data(&["C1"]));
    assert!(matches!(r, Render::LineList));
    assert_eq!(r.template(), "line_list.html");
}

#[test]
fn line_watchers_get_their_line() {
    let r = render_for(&Watching::Line("C2".to_string()), &data(&["C1", "C2"]));
    assert!(matches!(r, Render::Line(1)));
    assert_eq!(r.template(), "line.html");
}

#[test]
fn unknown_line_is_not_found() {
    let r = render_for(&Watching::Line("C3".to_string()), &data(&["C1", "C2"]));
    match &r {
        Render::LineNotFound(id) => assert_eq!(id, "C3"),
        _ => panic!("expected the not found page"),
    }
    assert_eq!(r.template(), "line_not_found.html");
    assert!(matches!(render_for(&Watching::Line("C".to_string()), &data(&["C1"])), Render::LineNotFound(_)));
}

#[test]
fn line_position() {
    let d = data(&["C1", "C2", "C2"]);
    assert_eq!(d.line_position("C2"), Some(1));
    assert_eq!(d.line_position("C22"), None);
    assert_eq!(data(&[]).line_position(""), None);
}

#[test]
fn string_equality() {
    assert!(str_equal("abc", "abc"));
    assert!(!str_equal("abc", "abd"));
    assert!(!str_equal("abc", "ab"));
    assert!(str_equal("", ""));
}

#[test]
fn websocket_replies() {
    assert!(matches!(ws_reply(WsMessage::Ping(vec![1, 2])), WsReply::Pong(p) if p == vec![1, 2]));
    assert!(matches!(ws_reply(WsMessage::Binary(vec![9])), WsReply::Binary(b) if b == vec![9]));
    assert!(matches!(ws_reply(WsMessage::Other), WsReply::Nothing));
}
