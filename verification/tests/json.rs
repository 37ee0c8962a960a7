use rs_netty::codec::{JsonDecode, JsonEncode, LineCodec};
use rs_netty::pipeline::{IntoPipeline, IntoStreamPipeline};
use rs_netty::{pipeline, Handler};

#[derive(Debug, Eq, PartialEq)]
struct Request {
    value: String,
}

#[derive(Debug, Eq, PartialEq)]
struct Response {
    value: String,
}

struct Echo;

impl Handler<Request> for Echo {
    type Write = Response;
}

#[test]
fn composes_with_line_codec() {
    let _pipeline = pipeline()
        .codec(LineCodec::new())
        .inbound(JsonDecode::<Request>::new())
        .handler(Echo)
        .outbound(JsonEncode::<Response>::new());
}

#[test]
fn finished_builder_becomes_a_pipeline() {
    let built = pipeline()
        .codec(LineCodec::with_max_line_len(16))
        .inbound(JsonDecode::<Request>::new())
        .handler(Echo)
        .outbound(JsonEncode::<Response>::new())
        .into_stream_pipeline();
    let _codec: LineCodec = built.codec;
    let _handler: Echo = built.handler;

    let again = pipeline().codec(LineCodec::new()).handler(Echo2).into_pipeline();
    let _handler: Echo2 = again.handler;
}

struct Echo2;

impl Handler<String> for Echo2 {
    type Write = String;
}
