use fusion_compositor::backend::WinitBackend;
use fusion_compositor::session::{define_session_type, Session, SessionType};
use fusion_compositor::socket::{
    read_frame, CompositorRequest, EngineError, FrameReader, Plugin, RequestStep, Response,
};
use fusion_compositor::state::App;

#[test]
fn a_frame_ends_at_the_zero_byte() {
    assert_eq!(read_frame(&vec![3, 1, 2, 0, 9, 0]), Some(vec![3, 1, 2]));
    assert_eq!(read_frame(&vec![0, 9]), Some(vec![]));
    assert_eq!(read_frame(&vec![3, 1]), None);
    assert_eq!(read_frame(&vec![]), None);
}

#[test]
fn bytes_are_collected_one_at_a_time() {
    let mut reader = FrameReader::new();
    assert!(!reader.read_byte(7));
    assert!(!reader.read_byte(255));
    assert!(reader.read_byte(0));
    assert_eq!(reader.buf, vec![7, 255]);
}

#[test]
fn an_encoded_message_is_read_back_as_a_frame() {
    let bytes = postcard::to_stdvec_cobs(&(0u8, "plugin", 300u32)).unwrap();
    let mut stream = bytes.clone();
    stream.push(77);
    let mut frame = read_frame(&stream).unwrap();
    assert_eq!(frame, bytes[..bytes.len() - 1].to_vec());
    let message: (u8, String, u32) = postcard::from_bytes_cobs(&mut frame).unwrap();
    assert_eq!(message, (0, "plugin".to_string(), 300));
}

#[test]
fn exit_and_ping_are_answered_at_once() {
    let step = App::<WinitBackend>::handle_socket(CompositorRequest::Exit);
    match step {
        RequestStep::Answer(response) => {
            assert!(matches!(response, Response::Exit));
            assert!(response.ends_compositor());
        }
        _ => panic!("no answer"),
    }
    let step = App::<WinitBackend>::handle_socket(CompositorRequest::Ping);
    match step {
        RequestStep::Answer(response) => {
            assert!(matches!(response, Response::Ping));
            assert!(!response.ends_compositor());
        }
        _ => panic!("no answer"),
    }
}

#[test]
fn plugin_requests_go_to_the_engine() {
    let step = App::<WinitBackend>::handle_socket(CompositorRequest::GetPluginList);
    assert!(matches!(step, RequestStep::ListPlugins));
    let request = CompositorRequest::RestartPlugin { plugin_id: "tiling".to_string() };
    match App::<WinitBackend>::handle_socket(request) {
        RequestStep::RestartPlugin(id) => assert_eq!(id, "tiling"),
        _ => panic!("no restart"),
    }
}

#[test]
fn the_plugin_list_is_handed_on() {
    let plugin = Plugin {
        id: "a".to_string(),
        name: "b".to_string(),
        status: "c".to_string(),
        version: "d".to_string(),
    };
    match App::<WinitBackend>::get_plugin_list(vec![plugin]) {
        Response::PluginList(plugins) => {
            assert_eq!(plugins.len(), 1);
            assert_eq!(plugins[0].id, "a");
            assert_eq!(plugins[0].name, "b");
            assert_eq!(plugins[0].status, "c");
            assert_eq!(plugins[0].version, "d");
        }
        _ => panic!("no list"),
    }
}

#[test]
fn a_restart_is_reported() {
    assert!(matches!(App::<WinitBackend>::restart_plugin(Ok(())), Response::RestartOk));
    let refused = Err(EngineError::PluginNotFound("no such plugin".to_string()));
    match App::<WinitBackend>::restart_plugin(refused) {
        Response::RestartError(message) => assert_eq!(message, "no such plugin"),
        _ => panic!("no refusal"),
    }
}

#[test]
fn the_choice_of_the_user_decides() {
    let wayland = || Some("wayland".to_string());
    assert!(matches!(define_session_type(Some(Session::Udev), wayland()), SessionType::TTY));
    assert!(matches!(define_session_type(Some(Session::Winit), None), SessionType::Wayland));
}

#[test]
fn the_environment_decides_otherwise() {
    let named = |name: &str| define_session_type(None, Some(name.to_string()));
    assert!(matches!(named("tty"), SessionType::TTY));
    assert!(matches!(named("wayland"), SessionType::Wayland));
    match named("x11") {
        SessionType::Other(other) => assert_eq!(other, "x11"),
        _ => panic!("x11 is neither"),
    }
    assert!(matches!(named("TTY"), SessionType::Other(_)));
}
