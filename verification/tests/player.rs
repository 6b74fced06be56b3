use micast_broadcaster::encryption::{
    client_signals, encoder_sink_pad, key_and_mki, server_signals, signal_name, DeOrEncoder,
    RTPorRTCP, RTP_KEY, RTP_MKI,
};
use micast_broadcaster::player::local_player::{raw_audio_caps, restart_delay_ms, LocalEvent};
use micast_broadcaster::player::{
    audio_rate, clock_port, confirms_to, initial_clock, is_rtp_receive_pad, jitter_latency, output_sink,
    pipeline_ports, restarts_after_error, rtcp_target, search_for_ip, sender_address,
    uses_clock_discovery, ClockSettings, ClockStep, PlayerState,
};

#[test]
fn clock_discovery_and_targets() {
    assert!(!uses_clock_discovery("127.0.0.1"));
    assert!(uses_clock_discovery("10.0.0.1"));
    let found = Some(("10.0.0.9".to_string(), 8555u16));
    assert_eq!(rtcp_target("224.1.1.48", &found), "10.0.0.9");
    assert_eq!(rtcp_target("224.1.1.48", &None), "224.1.1.48");
    assert_eq!(initial_clock(("127.0.0.1", 8555), &None), ("127.0.0.1".to_string(), 8555));
    assert_eq!(initial_clock(("0.0.0.0", 1), &found), ("10.0.0.9".to_string(), 8555));
}

#[test]
fn pipeline_settings() {
    assert_eq!(pipeline_ports(5000), (5000, 5001, 5002));
    assert_eq!(jitter_latency(None), 700);
    assert_eq!(jitter_latency(Some(1500)), 1500);
    assert_eq!(jitter_latency(Some(-1)), u32::MAX);
    assert_eq!(audio_rate(None), 44100);
    assert_eq!(clock_port(None), 8555);
    assert_eq!(clock_port(Some(123)), 123);
    assert_eq!(audio_rate(Some(48000)), 48000);
    assert_eq!(output_sink(None), ("autoaudiosink".to_string(), None));
    assert_eq!(
        output_sink(Some("hw:0,0".to_string())),
        ("alsasink".to_string(), Some("hw:0,0".to_string()))
    );
    assert!(is_rtp_receive_pad("recv_rtp_src_0_12345_96"));
    assert!(!is_rtp_receive_pad("send_rtcp_src_0"));
    assert!(restarts_after_error("rtp_eingang"));
    assert!(!restarts_after_error("rtcp_eingang"));
}

#[test]
fn server_search() {
    assert_eq!(sender_address("0.0.0.0"), None);
    assert_eq!(sender_address("10.0.0.1"), Some("10.0.0.1".to_string()));
    assert_eq!(search_for_ip(Some("a".to_string()), Some("b".to_string())), "a");
    assert_eq!(search_for_ip(None, Some("b".to_string())), "b");
    assert_eq!(search_for_ip(None, None), "127.0.0.1");
    assert!(confirms_to("10.0.0.1"));
    assert!(!confirms_to("127.0.0.1"));
    assert!(!confirms_to("0.0.0.0"));
}

#[test]
fn output_changes() {
    let mut s = PlayerState::new("224.1.1.48", None);
    assert_eq!(s.current_output_element, "alsasink");
    assert_eq!(s.current_output_device, "");
    assert!(s.output_differs("alsasink", None));
    s.set_output("alsasink", None);
    assert_eq!(s.current_output_device, "alsasink");
    assert!(!s.output_differs("alsasink", None));
    assert!(!s.output_differs("alsasink", Some("alsasink")));
    assert!(s.output_differs("pulsesink", None));
    s.set_output("alsasink", Some("hw:1"));
    assert!(!s.output_differs("alsasink", Some("hw:1")));
    assert_eq!(s.current_server_ip, "224.1.1.48");
}

#[test]
fn server_changes() {
    let mut s = PlayerState::new("224.1.1.48", Some("hw:0"));
    assert_eq!(s.current_output_device, "hw:0");
    assert!(!s.server_differs("224.1.1.48"));
    assert!(s.server_differs("224.1.1.49"));
    s.set_server("224.1.1.49");
    assert!(!s.server_differs("224.1.1.49"));
}

#[test]
fn clock_changes() {
    let mut c = ClockSettings::new("10.0.0.1", 8555);
    assert!(matches!(c.change_clock("10.0.0.1", Some(9000)), ClockStep::Keep));
    assert!(matches!(c.change_clock("0.0.0.0", None), ClockStep::Discover));
    match c.change_clock("10.0.0.2", None) {
        ClockStep::Use(a, p) => {
            assert_eq!(a, "10.0.0.2");
            assert_eq!(p, 8555);
        }
        _ => panic!("expected a new clock"),
    }
    match c.change_clock("10.0.0.3", Some(9000)) {
        ClockStep::Use(a, p) => {
            assert_eq!(a, "10.0.0.3");
            assert_eq!(p, 9000);
        }
        _ => panic!("expected a new clock"),
    }
    assert_eq!(c.port, 9000);
    assert!(matches!(c.change_clock("10.0.0.3", None), ClockStep::Keep));
    assert_eq!(c.clock_discovered(None), None);
    assert_eq!(c.clock_discovered(Some(("10.0.0.3".to_string(), 9000))), None);
    assert_eq!(
        c.clock_discovered(Some(("10.0.0.3".to_string(), 8555))),
        Some(("10.0.0.3".to_string(), 8555))
    );
    assert_eq!(c.port, 8555);
}

#[test]
fn local_player_settings() {
    assert_eq!(
        raw_audio_caps(44100),
        "audio/x-raw,rate=(int)44100,channels=(int)2,format=(string)S16LE,layout=(str)interleaved"
    );
    assert_eq!(restart_delay_ms(LocalEvent::EndOfStream), Some(0));
    assert_eq!(restart_delay_ms(LocalEvent::StreamNotOpened), Some(500));
    assert_eq!(restart_delay_ms(LocalEvent::OutputFailed), Some(1000));
    assert_eq!(restart_delay_ms(LocalEvent::StreamFailed), None);
    assert_eq!(restart_delay_ms(LocalEvent::Other), None);
}

#[test]
fn encryption_names() {
    assert_eq!(signal_name(RTPorRTCP::Rtp, DeOrEncoder::Decoder), "request-rtp-decoder");
    assert_eq!(signal_name(RTPorRTCP::Rtcp, DeOrEncoder::Encoder), "request-rtcp-encoder");
    assert_eq!(encoder_sink_pad(RTPorRTCP::Rtp, 0), "rtp_sink_0");
    assert_eq!(encoder_sink_pad(RTPorRTCP::Rtcp, 12), "rtcp_sink_12");
    assert_eq!(client_signals().len(), 3);
    assert_eq!(server_signals().len(), 4);
    assert!(client_signals()[0] == (RTPorRTCP::Rtp, DeOrEncoder::Decoder));
}

#[test]
fn encryption_keys() {
    let (key, mki) = key_and_mki();
    assert_eq!(key, RTP_KEY.as_bytes()[5..35].to_vec());
    assert_eq!(mki, RTP_MKI.as_bytes()[5..35].to_vec());
    assert_eq!(key.len(), 30);
    assert_eq!(mki[0], b'/');
}
