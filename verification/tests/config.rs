use std::time::Duration;

use rs_netty::codec::LineCodec;
use rs_netty::life::CloseReason;
use rs_netty::transport::tcp::config::TcpConnectionConfig;
use rs_netty::transport::tcp::connection::{
    after_read, decode_failure, handler_failure, on_event, outbound_failure, LoopEvent,
};
use rs_netty::transport::udp::config::UdpSocketConfig;
use rs_netty::transport::udp::socket::{check_datagram_len, receive_buffer_len};
use rs_netty::{pipeline, Error, Flow, TcpServer, UdpServer};

#[test]
fn tcp_defaults_and_builder_settings() {
    let config = TcpConnectionConfig::default();
    assert_eq!(config.read_buffer_capacity, 8192);
    assert_eq!(config.max_frame_size, 1_048_576);
    assert!(config.tcp_nodelay);
    assert!(config.idle_timeout.is_none());

    let (addr, _factory, config, _life) = TcpServer::bind("127.0.0.1:9000")
        .max_frame_size(64)
        .outbound_queue_size(0)
        .tcp_nodelay(false)
        .pipeline(|| pipeline().codec(LineCodec::new()))
        .into_parts();
    assert_eq!(addr, "127.0.0.1:9000");
    assert_eq!(config.max_frame_size, 64);
    assert_eq!(config.outbound_queue_size, 1);
    assert!(!config.tcp_nodelay);
}

#[test]
fn tcp_client_builder_keeps_idle_timeout() {
    let (remote, local, _factory, config, _life) = rs_netty::TcpClient::connect("127.0.0.1:9000")
        .idle_timeout(Duration::from_secs(90))
        .track_connection_stats()
        .bind("127.0.0.1:0")
        .pipeline(|| ())
        .into_parts();
    assert_eq!(remote, "127.0.0.1:9000");
    assert_eq!(local.as_deref(), Some("127.0.0.1:0"));
    assert_eq!(config.idle_timeout, Some(Duration::from_secs(90)));
    assert!(config.track_connection_stats);
}

#[test]
fn udp_configuration_is_normalized() {
    let mut config = UdpSocketConfig {
        read_buffer_capacity: 10,
        write_buffer_capacity: 0,
        max_datagram_size: 0,
        outbound_queue_size: 1,
    };
    config.normalize();
    assert_eq!(config.max_datagram_size, 1);
    assert_eq!(config.read_buffer_capacity, 10);
    let mut again = config.clone();
    again.normalize();
    assert_eq!(again.read_buffer_capacity, config.read_buffer_capacity);
    assert_eq!(again.max_datagram_size, config.max_datagram_size);

    let (_addr, _factory, config, _life) = UdpServer::bind("127.0.0.1:9002")
        .max_datagram_size(100)
        .read_buffer_capacity(16)
        .pipeline(|| ())
        .into_parts();
    assert_eq!(config.read_buffer_capacity, 100);
    assert_eq!(receive_buffer_len(&config), 100);
}

#[test]
fn datagram_size_is_checked() {
    assert!(check_datagram_len(10, 10).is_ok());
    assert!(matches!(
        check_datagram_len(11, 10),
        Err(Error::DatagramTooLarge { current: 11, max: 10 })
    ));
}

#[test]
fn connection_read_outcomes() {
    assert!(matches!(after_read(0, 5, 10), Ok(Some(CloseReason::PeerClosed))));
    assert!(matches!(after_read(3, 10, 10), Ok(None)));
    let failure = after_read(3, 11, 10).err().expect("too large");
    assert_eq!(failure.reason, CloseReason::FrameTooLarge);
    assert!(matches!(failure.error, Error::FrameTooLarge { current: 11, max: 10 }));
}

#[test]
fn stage_errors_map_to_close_reasons() {
    assert_eq!(decode_failure(Error::Decode("x".into())).reason, CloseReason::DecodeError);
    assert_eq!(decode_failure(Error::Encode("x".into())).reason, CloseReason::HandlerError);
    assert_eq!(
        decode_failure(Error::FrameTooLarge { current: 2, max: 1 }).reason,
        CloseReason::FrameTooLarge
    );
    assert_eq!(outbound_failure(Error::Encode("x".into())).reason, CloseReason::EncodeError);
    assert_eq!(outbound_failure(Error::Decode("x".into())).reason, CloseReason::HandlerError);
    let io = std::io::Error::new(std::io::ErrorKind::Other, "boom");
    assert_eq!(outbound_failure(Error::Io(io)).reason, CloseReason::IoError);
    assert_eq!(handler_failure(Error::Decode("x".into())).reason, CloseReason::DecodeError);
    assert_eq!(handler_failure(Error::Encode("x".into())).reason, CloseReason::EncodeError);
    assert_eq!(handler_failure(Error::Closed).reason, CloseReason::HandlerError);
    assert!(matches!(handler_failure(Error::Pipeline("p".into())).error, Error::Pipeline(_)));
}

#[test]
fn flow_map_keeps_stop() {
    let next: Flow<u32> = Flow::Next(2);
    assert!(matches!(next.map(|v| v * 10), Flow::Next(20)));
    let stop: Flow<u32> = Flow::Stop;
    assert!(matches!(stop.map(|v| v * 10), Flow::Stop));
}

#[test]
fn loop_events_close_the_connection_except_writes() {
    assert_eq!(on_event(LoopEvent::WriteCommand), None);
    assert_eq!(on_event(LoopEvent::ShutdownRequested), Some(CloseReason::ServerShutdown));
    assert_eq!(on_event(LoopEvent::IdleTimeoutElapsed), Some(CloseReason::IdleTimeout));
    assert_eq!(on_event(LoopEvent::HandlerRequestedClose), Some(CloseReason::HandlerClosed));
    assert_eq!(on_event(LoopEvent::CloseCommand), Some(CloseReason::LocalClosed));
    assert_eq!(on_event(LoopEvent::CommandQueueClosed), Some(CloseReason::ChannelClosed));
}
