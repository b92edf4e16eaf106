//! The control socket: frames that end with a zero byte, and what is answered
//! to each request.

use vstd::prelude::*;

verus! {

/// Collects the bytes of a frame, one at a time, up to the zero byte that ends
/// it.
#[derive(Debug)]
pub struct FrameReader {
    pub buf: Vec<u8>,
}

impl FrameReader {
    pub fn new() -> (reader: Self)
        ensures
            reader.buf@ == Seq::<u8>::empty(),
    {
        FrameReader { buf: Vec::new() }
    }

    /// Takes the next byte. A zero byte ends the frame and is not part of it:
    /// the answer is then `true`, and the frame is in `buf`.
    pub fn read_byte(&mut self, byte: u8) -> (ended: bool)
        ensures
            ended == (byte == 0),
            final(self).buf@ == (if byte == 0 {
                old(self).buf@
            } else {
                old(self).buf@.push(byte)
            }),
    {
        if byte == 0 {
            return true;
        }
        self.buf.push(byte);
        false
    }
}

/// The bytes begin with the frame: it is what stands before their first zero
/// byte.
pub open spec fn begins_with_frame(bytes: Seq<u8>, frame: Seq<u8>) -> bool {
    &&& frame.len() < bytes.len()
    &&& frame == bytes.take(frame.len() as int)
    &&& bytes[frame.len() as int] == 0
    &&& !frame.contains(0)
}

/// The first frame of a stretch of bytes: those before the first zero byte.
/// `None` where no frame ends in it.
pub fn read_frame(bytes: &Vec<u8>) -> (frame: Option<Vec<u8>>)
    ensures
        match frame {
            Some(frame) => begins_with_frame(bytes@, frame@),
            None => !bytes@.contains(0),
        },
{
    let mut reader = FrameReader::new();
    let mut i: usize = 0;
    while i < bytes.len()
        invariant
            i <= bytes@.len(),
            reader.buf@ == bytes@.take(i as int),
            forall|j: int| 0 <= j < i ==> bytes@[j] != 0,
        decreases bytes@.len() - i,
    {
        if reader.read_byte(bytes[i]) {
            return Some(reader.buf);
        }
        i = i + 1;
        assert(reader.buf@ =~= bytes@.take(i as int));
    }
    None
}

/// A request on the control socket.
#[derive(Debug)]
pub enum CompositorRequest {
    Exit,
    Ping,
    GetPluginList,
    RestartPlugin { plugin_id: String },
}

/// A plugin as it is listed.
#[derive(Debug)]
pub struct Plugin {
    pub id: String,
    pub name: String,
    pub status: String,
    pub version: String,
}

/// Why the plugin engine refuses.
#[derive(Debug)]
pub enum EngineError {
    PluginNotFound(String),
}

/// What is written back on the control socket.
#[derive(Debug)]
pub enum Response {
    Exit,
    Ping,
    PluginList(Vec<Plugin>),
    RestartOk,
    RestartError(String),
}

impl Response {
    /// Whether the compositor ends once the answer has been written.
    pub fn ends_compositor(&self) -> (ends: bool)
        ensures
            ends == (self is Exit),
    {
        match self {
            Response::Exit => true,
            _ => false,
        }
    }
}

/// The next step for a request.
#[derive(Debug)]
pub enum RequestStep {
    /// Answer at once.
    Answer(Response),
    /// Ask the plugin engine for its plugins.
    ListPlugins,
    /// Have the plugin engine restart a plugin.
    RestartPlugin(String),
}

} // verus!
