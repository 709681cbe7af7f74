//! The session: which requests may be issued, the frames each one sends,
//! and how the frames that come back are digested.
//!
//! The session never touches the transport. Each operation returns the
//! frames to send, in order and each to be flushed before the next; when the
//! operation awaits an answer, the caller feeds incoming frames to
//! [`Connection::receive`] while [`Connection::awaiting_frames`] holds, then
//! collects the answer with [`Connection::take_reply`]. Since answers are
//! matched to requests by arrival order alone, a new request may only be
//! issued while the session is idle.

use vstd::prelude::*;
use crate::files::{decode_file_list, entries_view, listing_of, normalize_path, trim_trailing, FileInfo};
use crate::hex::{hex_of, hex_upper};
use crate::request::{assemble, opt_strings_view, request_json, strings_view, EncodingError, Opcode, Request, Space};
use crate::transfer::{accumulate, lemma_any_fragmentation, lemma_chunks_reassemble, bytes_view, chunks_of, download_step, split_chunks, Download};

verus! {

/// One outgoing frame.
#[derive(Debug)]
pub enum Frame {
    Text(String),
    Binary(Vec<u8>),
}

/// What a frame holds, as data.
pub enum FrameView {
    Text(Seq<char>),
    Binary(Seq<u8>),
}

impl View for Frame {
    type V = FrameView;

    open spec fn view(&self) -> FrameView {
        match self {
            Frame::Text(t) => FrameView::Text(t@),
            Frame::Binary(b) => FrameView::Binary(b@),
        }
    }
}

pub open spec fn frames_view(frames: Seq<Frame>) -> Seq<FrameView> {
    frames.map_values(|f: Frame| f@)
}

/// One incoming transport event. Text and binary frames come with the
/// `Results` list their content decodes to, when it does.
#[derive(Debug)]
pub enum Incoming {
    Text(Option<Vec<String>>),
    Binary(Vec<u8>, Option<Vec<String>>),
    /// Any other frame: ping, pong, close.
    Other,
    /// The stream ended.
    End,
}

/// The `Results` list an event carries, if any.
pub open spec fn decoded(ev: Incoming) -> Option<Seq<Seq<char>>> {
    match ev {
        Incoming::Text(Some(v)) => Some(strings_view(v)),
        Incoming::Binary(_, Some(v)) => Some(strings_view(v)),
        _ => None,
    }
}

/// The answer to a request.
#[derive(Debug)]
pub enum Reply {
    Strings(Vec<String>),
    Files(Vec<FileInfo>),
    Bytes(Vec<u8>),
}

/// The peer broke the protocol.
#[derive(Clone, Copy, Debug, PartialEq, Eq, Structural)]
pub enum ProtocolError {
    /// The stream ended before a decodable answer arrived.
    NoMessage,
    /// The stream ended before every requested byte arrived.
    Truncated,
    /// A binary frame carried more bytes than were still owed.
    Overrun,
    /// A listing answer held an odd number of strings.
    OddListing,
}

/// Why an operation failed.
#[derive(Clone, Copy, Debug, PartialEq, Eq, Structural)]
pub enum ClientError {
    /// A request could not be serialised.
    Encoding,
    Protocol(ProtocolError),
    /// `Info` was asked for before attaching to a device.
    NotAttached,
}

/// What the device sends back for a request.
#[derive(Clone, Copy, Debug, PartialEq, Eq, Structural)]
pub enum Answer {
    /// Nothing: the request is complete once its frames are sent.
    Nothing,
    /// One `Results` text frame.
    Results,
    /// Raw bytes in binary frames.
    Bytes,
}

/// The answer each opcode yields.
pub open spec fn answer_of(op: Opcode) -> Answer {
    match op {
        Opcode::DeviceList | Opcode::Info | Opcode::List => Answer::Results,
        Opcode::GetAddress => Answer::Bytes,
        Opcode::Attach | Opcode::PutFile | Opcode::Remove => Answer::Nothing,
    }
}

/// The answer each opcode yields.
pub fn expected_answer(op: Opcode) -> (r: Answer)
    ensures
        r == answer_of(op),
{
    match op {
        Opcode::DeviceList | Opcode::Info | Opcode::List => Answer::Results,
        Opcode::GetAddress => Answer::Bytes,
        Opcode::Attach | Opcode::PutFile | Opcode::Remove => Answer::Nothing,
    }
}

/// Where the session stands in a request/answer exchange.
#[derive(Debug)]
pub enum Phase {
    Idle,
    /// Waiting for the `Results` answer to a request with this opcode.
    Results(Opcode),
    Memory(Download),
    Ready(Reply),
}

/// The attachment state of a session.
#[derive(Debug)]
pub enum SessionState {
    Disconnected,
    Connected,
    Attached(String),
}

/// The attachment state, as data.
pub enum Link {
    Disconnected,
    Connected,
    Attached(Seq<char>),
}

/// The state `attach` leads to.
pub open spec fn link_after_attach(device: Seq<char>) -> Link {
    Link::Attached(device)
}

/// A call on a session, as far as its attachment state goes.
pub enum Call {
    Attach(Seq<char>),
    DeviceList,
    Info,
    List,
    Remove,
    PutFile,
    ReadMem,
    Receive,
    TakeReply,
    Close,
}

/// The attachment state after one call: `attach` attaches, `close`
/// disconnects, every other call leaves the state as it was.
pub open spec fn link_after_call(l: Link, c: Call) -> Link {
    match c {
        Call::Attach(d) => link_after_attach(d),
        Call::Close => Link::Disconnected,
        _ => l,
    }
}

/// The attachment state after a sequence of calls, in order.
pub open spec fn link_after_calls(l: Link, calls: Seq<Call>) -> Link
    decreases calls.len(),
{
    if calls.len() == 0 {
        l
    } else {
        link_after_call(link_after_calls(l, calls.drop_last()), calls.last())
    }
}

/// Whether `Info` may be issued.
pub open spec fn info_permitted(l: Link) -> bool {
    l is Attached
}

/// Text of a control request with no flags, as sent on the wire.
pub open spec fn control_text(op: Opcode, ops: Option<Seq<Seq<char>>>) -> Seq<char> {
    request_json(op, Space::Snes, None, ops, false)
}

/// The frames of an upload: the `PutFile` request, then the data in chunks.
pub open spec fn upload_frames(path: Seq<char>, data: Seq<u8>) -> Seq<FrameView> {
    seq![FrameView::Text(control_text(Opcode::PutFile, Some(seq![path, hex_of(data.len())])))]
        + chunks_of(data).map_values(|c: Seq<u8>| FrameView::Binary(c))
}

/// The protocol side of one connection.
#[derive(Debug)]
pub struct Connection {
    state: SessionState,
    phase: Phase,
}

impl Connection {
    pub closed spec fn link(&self) -> Link {
        match self.state {
            SessionState::Disconnected => Link::Disconnected,
            SessionState::Connected => Link::Connected,
            SessionState::Attached(d) => Link::Attached(d@),
        }
    }

    pub closed spec fn phase(&self) -> Phase {
        self.phase
    }

    pub closed spec fn wf(&self) -> bool {
        self.phase matches Phase::Memory(d) ==> d.wf()
    }

    pub open spec fn is_open(&self) -> bool {
        !(self.link() is Disconnected)
    }

    pub open spec fn is_idle(&self) -> bool {
        self.phase() is Idle
    }

    /// Whether the answer is complete and can be collected.
    pub open spec fn ready(&self) -> bool {
        match self.phase() {
            Phase::Ready(_) => true,
            Phase::Memory(d) => d.complete(),
            _ => false,
        }
    }

    /// Whether more incoming frames are needed.
    pub open spec fn awaiting(&self) -> bool {
        match self.phase() {
            Phase::Results(_) => true,
            Phase::Memory(d) => !d.complete(),
            _ => false,
        }
    }

    /// A freshly opened session: connected, not attached, idle.
    pub fn new() -> (r: Connection)
        ensures
            r.wf(),
            r.link() == Link::Connected,
            r.is_idle(),
    {
        Connection { state: SessionState::Connected, phase: Phase::Idle }
    }

    /// Ends the session; the caller closes the transport.
    pub fn close(&mut self)
        ensures
            final(self).wf(),
            final(self).link() == link_after_call(old(self).link(), Call::Close),
            final(self).link() == Link::Disconnected,
            final(self).is_idle(),
    {
        self.state = SessionState::Disconnected;
        self.phase = Phase::Idle;
    }

    /// Whether the session has not been closed.
    pub fn is_connected(&self) -> (r: bool)
        ensures
            r == self.is_open(),
    {
        match self.state {
            SessionState::Disconnected => false,
            _ => true,
        }
    }

    pub fn is_attached(&self) -> (r: bool)
        ensures
            r == info_permitted(self.link()),
    {
        match self.state {
            SessionState::Attached(_) => true,
            _ => false,
        }
    }

    /// Whether an exchange is still under way, so that no new request may
    /// be issued yet.
    pub fn busy(&self) -> (r: bool)
        ensures
            r == !self.is_idle(),
    {
        match &self.phase {
            Phase::Idle => false,
            _ => true,
        }
    }

    /// Whether more incoming frames must be fed to [`Connection::receive`].
    pub fn awaiting_frames(&self) -> (r: bool)
        requires
            self.wf(),
        ensures
            r == self.awaiting(),
    {
        match &self.phase {
            Phase::Results(_) => true,
            Phase::Memory(d) => !d.is_complete(),
            _ => false,
        }
    }

    /// Whether an answer is waiting in [`Connection::take_reply`].
    pub fn reply_ready(&self) -> (r: bool)
        requires
            self.wf(),
        ensures
            r == self.ready(),
    {
        match &self.phase {
            Phase::Ready(_) => true,
            Phase::Memory(d) => d.is_complete(),
            _ => false,
        }
    }
}

/// What one incoming event does while a `Results` answer is awaited: a
/// decodable frame is the answer (a listing must hold whole pairs), other
/// frames are skipped, and the end of the stream is an error.
pub open spec fn results_outcome(w: Opcode, ev: Incoming, r: Result<(), ClientError>, after: Phase) -> bool {
    match decoded(ev) {
        Some(rs) => if w == Opcode::List {
            if rs.len() % 2 == 0 {
                r is Ok && (after matches Phase::Ready(Reply::Files(fs)) && entries_view(fs@)
                    == listing_of(rs))
            } else {
                r == Err::<(), ClientError>(ClientError::Protocol(ProtocolError::OddListing))
                    && after is Idle
            }
        } else {
            r is Ok && (after matches Phase::Ready(Reply::Strings(v)) && strings_view(v) == rs)
        },
        None => if ev is End {
            r == Err::<(), ClientError>(ClientError::Protocol(ProtocolError::NoMessage))
                && after is Idle
        } else {
            r is Ok && after == Phase::Results(w)
        },
    }
}

/// What one incoming event does to a download in progress: a binary frame
/// is appended unless it runs past the end, other frames are ignored, and
/// the end of the stream is an error.
pub open spec fn memory_outcome(d: Download, ev: Incoming, r: Result<(), ClientError>, after: Phase) -> bool {
    match ev {
        Incoming::Binary(b, _) => match download_step(d.received(), d.expected(), b@) {
            Some(n) => r is Ok && (after matches Phase::Memory(d2) && d2.received() == n
                && d2.expected() == d.expected()),
            None => r == Err::<(), ClientError>(ClientError::Protocol(ProtocolError::Overrun))
                && after is Idle,
        },
        Incoming::End => r == Err::<(), ClientError>(ClientError::Protocol(ProtocolError::Truncated))
            && after is Idle,
        _ => r is Ok && after == Phase::Memory(d),
    }
}

/// The phase a request with opcode `op` leads to once sent, by the answer
/// table; `len` is the byte count of a memory read.
fn phase_for(op: Opcode, len: usize) -> (r: Phase)
    ensures
        answer_of(op) == Answer::Nothing ==> r is Idle,
        answer_of(op) == Answer::Results ==> r == Phase::Results(op),
        answer_of(op) == Answer::Bytes ==> (r matches Phase::Memory(d) && d.wf() && d.received()
            == Seq::<u8>::empty() && d.expected() == len),
{
    match expected_answer(op) {
        Answer::Nothing => Phase::Idle,
        Answer::Results => Phase::Results(op),
        Answer::Bytes => Phase::Memory(Download::new(len)),
    }
}

/// The text frame of a control request with no flags.
fn control(op: Opcode, ops: Option<Vec<String>>) -> (r: Result<Frame, ClientError>)
    ensures
        r matches Ok(f) ==> f@ == FrameView::Text(control_text(op, opt_strings_view(ops))),
        r is Ok,
{
    let req = Request::new(op, ops);
    match req.to_json() {
        Ok(t) => Ok(Frame::Text(t)),
        Err(EncodingError) => Err(ClientError::Encoding),
    }
}

/// The text frame of a control request with neither flags nor operands.
fn plain_control(op: Opcode) -> (r: Frame)
    ensures
        r@ == FrameView::Text(control_text(op, None)),
{
    Frame::Text(assemble(op, Space::Snes, &None, &None, false))
}

impl Connection {
    /// Asks for the identifiers of the devices on offer; the answer is a
    /// [`Reply::Strings`].
    pub fn get_device_list(&mut self) -> (r: Vec<Frame>)
        requires
            old(self).wf(),
            old(self).is_open(),
            old(self).is_idle(),
        ensures
            final(self).wf(),
            final(self).link() == link_after_call(old(self).link(), Call::DeviceList),
            final(self).link() == old(self).link(),
            final(self).is_open(),
            final(self).phase() == Phase::Results(Opcode::DeviceList),
            frames_view(r@) == seq![FrameView::Text(control_text(Opcode::DeviceList, None))],
    {
        let f = plain_control(Opcode::DeviceList);
        self.phase = phase_for(Opcode::DeviceList, 0);
        let out = vec![f];
        assert(frames_view(out@) =~= seq![FrameView::Text(control_text(Opcode::DeviceList, None))]);
        out
    }
}

impl Connection {
    /// Binds the session to `device`. The device sends no answer, so the
    /// session stays idle and counts as attached once the frame is sent.
    pub fn attach(&mut self, device: &str) -> (r: Result<Vec<Frame>, ClientError>)
        requires
            old(self).wf(),
            old(self).is_open(),
            old(self).is_idle(),
        ensures
            final(self).wf(),
            final(self).link() == link_after_call(old(self).link(), Call::Attach(device@)),
            final(self).is_idle(),
            r matches Ok(fs) ==> frames_view(fs@) == seq![
                FrameView::Text(control_text(Opcode::Attach, Some(seq![device@]))),
            ] && final(self).link() == link_after_attach(device@),
            r is Ok,
    {
        let ops = vec![String::from_str(device)];
        assert(strings_view(ops) =~= seq![device@]);
        let f = match control(Opcode::Attach, Some(ops)) {
            Ok(f) => f,
            Err(e) => return Err(e),
        };
        self.state = SessionState::Attached(String::from_str(device));
        self.phase = phase_for(Opcode::Attach, 0);
        let out = vec![f];
        assert(frames_view(out@) =~= seq![
            FrameView::Text(control_text(Opcode::Attach, Some(seq![device@]))),
        ]);
        Ok(out)
    }

    /// Asks for information on the attached device; the answer is a
    /// [`Reply::Strings`]. Refused, before anything is sent, while no device
    /// is attached.
    pub fn get_info(&mut self) -> (r: Result<Vec<Frame>, ClientError>)
        requires
            old(self).wf(),
            old(self).is_open(),
            old(self).is_idle(),
        ensures
            final(self).wf(),
            final(self).link() == link_after_call(old(self).link(), Call::Info),
            final(self).link() == old(self).link(),
            r is Err <==> !info_permitted(old(self).link()),
            r matches Err(e) ==> e == ClientError::NotAttached && final(self).is_idle(),
            r matches Ok(fs) ==> frames_view(fs@) == seq![
                FrameView::Text(control_text(Opcode::Info, None)),
            ] && final(self).phase() == Phase::Results(Opcode::Info),
    {
        if !self.is_attached() {
            return Err(ClientError::NotAttached);
        }
        let f = plain_control(Opcode::Info);
        self.phase = phase_for(Opcode::Info, 0);
        let out = vec![f];
        assert(frames_view(out@) =~= seq![FrameView::Text(control_text(Opcode::Info, None))]);
        Ok(out)
    }

    /// Asks for the entries of the directory `path`, with every trailing
    /// separator removed first; the answer is a [`Reply::Files`].
    pub fn list_files(&mut self, path: &str) -> (r: Result<Vec<Frame>, ClientError>)
        requires
            old(self).wf(),
            old(self).is_open(),
            old(self).is_idle(),
        ensures
            final(self).wf(),
            final(self).link() == link_after_call(old(self).link(), Call::List),
            final(self).link() == old(self).link(),
            r matches Ok(fs) ==> frames_view(fs@) == seq![
                FrameView::Text(control_text(Opcode::List, Some(seq![trim_trailing(path@)]))),
            ] && final(self).phase() == Phase::Results(Opcode::List),
            r is Ok,
    {
        let ops = vec![normalize_path(path)];
        assert(strings_view(ops) =~= seq![trim_trailing(path@)]);
        let f = match control(Opcode::List, Some(ops)) {
            Ok(f) => f,
            Err(e) => return Err(e),
        };
        self.phase = phase_for(Opcode::List, 0);
        let out = vec![f];
        assert(frames_view(out@) =~= seq![
            FrameView::Text(control_text(Opcode::List, Some(seq![trim_trailing(path@)]))),
        ]);
        Ok(out)
    }

    /// Lists the root directory as a synchronisation point after an upload,
    /// which the device never acknowledges. Answers come in order, so the
    /// listing arrives after the device has taken the upload's frames; that
    /// the write itself is finished by then is not promised.
    pub fn await_completion(&mut self) -> (r: Result<Vec<Frame>, ClientError>)
        requires
            old(self).wf(),
            old(self).is_open(),
            old(self).is_idle(),
        ensures
            final(self).wf(),
            final(self).link() == link_after_call(old(self).link(), Call::List),
            final(self).link() == old(self).link(),
            r matches Ok(fs) ==> frames_view(fs@) == seq![
                FrameView::Text(control_text(Opcode::List, Some(seq![Seq::<char>::empty()]))),
            ] && final(self).phase() == Phase::Results(Opcode::List),
            r is Ok,
    {
        proof {
            reveal_strlit("");
            assert(trim_trailing(""@) =~= Seq::<char>::empty());
        }
        self.list_files("")
    }

    /// Removes the file at `path`. The device sends no answer.
    pub fn rm(&mut self, path: &str) -> (r: Result<Vec<Frame>, ClientError>)
        requires
            old(self).wf(),
            old(self).is_open(),
            old(self).is_idle(),
        ensures
            final(self).wf(),
            final(self).link() == link_after_call(old(self).link(), Call::Remove),
            final(self).link() == old(self).link(),
            final(self).is_idle(),
            r matches Ok(fs) ==> frames_view(fs@) == seq![
                FrameView::Text(control_text(Opcode::Remove, Some(seq![path@]))),
            ],
            r is Ok,
    {
        let ops = vec![String::from_str(path)];
        assert(strings_view(ops) =~= seq![path@]);
        let f = match control(Opcode::Remove, Some(ops)) {
            Ok(f) => f,
            Err(e) => return Err(e),
        };
        self.phase = phase_for(Opcode::Remove, 0);
        let out = vec![f];
        assert(frames_view(out@) =~= seq![
            FrameView::Text(control_text(Opcode::Remove, Some(seq![path@]))),
        ]);
        Ok(out)
    }

    /// Uploads `data` to `path`: the `PutFile` request with the path and
    /// the length in hexadecimal, then the data in frames of at most 1024
    /// bytes. The device sends no answer.
    pub fn put_file(&mut self, path: &str, data: &[u8]) -> (r: Result<Vec<Frame>, ClientError>)
        requires
            old(self).wf(),
            old(self).is_open(),
            old(self).is_idle(),
        ensures
            final(self).wf(),
            final(self).link() == link_after_call(old(self).link(), Call::PutFile),
            final(self).link() == old(self).link(),
            final(self).is_idle(),
            r matches Ok(fs) ==> frames_view(fs@) == upload_frames(path@, data@),
            r is Ok,
    {
        let ops = vec![String::from_str(path), hex_upper(data.len() as u64)];
        assert(strings_view(ops) =~= seq![path@, hex_of(data@.len())]);
        let f = match control(Opcode::PutFile, Some(ops)) {
            Ok(f) => f,
            Err(e) => return Err(e),
        };
        self.phase = phase_for(Opcode::PutFile, 0);
        let chunks = split_chunks(data);
        let ghost cs = chunks_of(data@);
        let mut out: Vec<Frame> = vec![f];
        let mut i: usize = 0;
        while i < chunks.len()
            invariant
                i <= chunks@.len(),
                cs == chunks_of(data@),
                bytes_view(chunks@) == cs,
                frames_view(out@) =~= upload_frames(path@, data@).take(i as int + 1),
            decreases chunks@.len() - i,
        {
            proof {
                assert(upload_frames(path@, data@)[i as int + 1] == FrameView::Binary(chunks@[i as int]@));
            }
            out.push(Frame::Binary(chunks[i].clone()));
            proof {
                assert(upload_frames(path@, data@).take(i as int + 2) =~= upload_frames(path@, data@).take(i as int + 1).push(FrameView::Binary(chunks@[i as int]@)));
            }
            i = i + 1;
        }
        assert(upload_frames(path@, data@).take(i as int + 1) =~= upload_frames(path@, data@));
        Ok(out)
    }

    /// Reads `len` bytes of device memory from `addr`: the `GetAddress`
    /// request with both numbers in hexadecimal. The answer, a
    /// [`Reply::Bytes`], is gathered from binary frames however they are cut.
    pub fn read_mem(&mut self, addr: u32, len: usize) -> (r: Result<Vec<Frame>, ClientError>)
        requires
            old(self).wf(),
            old(self).is_open(),
            old(self).is_idle(),
        ensures
            final(self).wf(),
            final(self).link() == link_after_call(old(self).link(), Call::ReadMem),
            final(self).link() == old(self).link(),
            r matches Ok(fs) ==> frames_view(fs@) == seq![
                FrameView::Text(control_text(Opcode::GetAddress, Some(seq![hex_of(addr as nat), hex_of(len as nat)]))),
            ] && (final(self).phase() matches Phase::Memory(d) && d.received() == Seq::<u8>::empty()
                && d.expected() == len),
            r is Ok,
    {
        let ops = vec![hex_upper(addr as u64), hex_upper(len as u64)];
        assert(strings_view(ops) =~= seq![hex_of(addr as nat), hex_of(len as nat)]);
        let f = match control(Opcode::GetAddress, Some(ops)) {
            Ok(f) => f,
            Err(e) => return Err(e),
        };
        self.phase = phase_for(Opcode::GetAddress, len);
        let out = vec![f];
        assert(frames_view(out@) =~= seq![
            FrameView::Text(control_text(Opcode::GetAddress, Some(seq![hex_of(addr as nat), hex_of(len as nat)]))),
        ]);
        Ok(out)
    }
}

impl Connection {
    /// Digests one incoming event while an answer is awaited.
    pub fn receive(&mut self, ev: Incoming) -> (r: Result<(), ClientError>)
        requires
            old(self).wf(),
            old(self).awaiting(),
        ensures
            final(self).wf(),
            final(self).link() == link_after_call(old(self).link(), Call::Receive),
            final(self).link() == old(self).link(),
            r is Err ==> final(self).is_idle(),
            old(self).phase() matches Phase::Results(w) ==> results_outcome(w, ev, r, final(self).phase()),
            old(self).phase() matches Phase::Memory(d) ==> memory_outcome(d, ev, r, final(self).phase()),
    {
        let mut phase = Phase::Idle;
        core::mem::swap(&mut self.phase, &mut phase);
        match phase {
            Phase::Results(w) => {
                let got = match ev {
                    Incoming::Text(Some(v)) => Some(v),
                    Incoming::Binary(_, Some(v)) => Some(v),
                    Incoming::End => {
                        return Err(ClientError::Protocol(ProtocolError::NoMessage));
                    },
                    _ => None,
                };
                match got {
                    None => {
                        self.phase = Phase::Results(w);
                        Ok(())
                    },
                    Some(v) => if w == Opcode::List {
                        match decode_file_list(&v) {
                            Ok(fs) => {
                                self.phase = Phase::Ready(Reply::Files(fs));
                                Ok(())
                            },
                            Err(_) => Err(ClientError::Protocol(ProtocolError::OddListing)),
                        }
                    } else {
                        self.phase = Phase::Ready(Reply::Strings(v));
                        Ok(())
                    },
                }
            },
            Phase::Memory(d) => {
                let mut d = d;
                match ev {
                    Incoming::Binary(b, _) => match d.push_frame(b.as_slice()) {
                        Ok(()) => {
                            self.phase = Phase::Memory(d);
                            Ok(())
                        },
                        Err(_) => Err(ClientError::Protocol(ProtocolError::Overrun)),
                    },
                    Incoming::End => Err(ClientError::Protocol(ProtocolError::Truncated)),
                    _ => {
                        self.phase = Phase::Memory(d);
                        Ok(())
                    },
                }
            },
            other => {
                self.phase = other;
                Ok(())
            },
        }
    }

    /// Hands over the completed answer and returns to idle.
    pub fn take_reply(&mut self) -> (r: Reply)
        requires
            old(self).wf(),
            old(self).ready(),
        ensures
            final(self).wf(),
            final(self).link() == link_after_call(old(self).link(), Call::TakeReply),
            final(self).link() == old(self).link(),
            final(self).is_idle(),
            old(self).phase() matches Phase::Ready(rep) ==> r == rep,
            old(self).phase() matches Phase::Memory(d) ==> (r matches Reply::Bytes(b) && b@
                == d.received() && b@.len() == d.expected()),
    {
        let mut phase = Phase::Idle;
        core::mem::swap(&mut self.phase, &mut phase);
        match phase {
            Phase::Ready(rep) => rep,
            Phase::Memory(d) => Reply::Bytes(d.into_bytes()),
            _ => Reply::Bytes(Vec::new()),
        }
    }
}

/// `Info` is refused on a session that has only just connected, and
/// permitted once `attach` has gone through, whatever the device.
pub proof fn lemma_info_requires_attach(device: Seq<char>)
    ensures
        !info_permitted(Link::Connected),
        info_permitted(link_after_attach(device)),
{
}

/// An upload sends the `PutFile` request, whose second operand is the data
/// length in hexadecimal, then `n / 1024` (rounded up) binary frames of at
/// most 1024 bytes each, whose payloads put back together are the data.
pub proof fn lemma_upload_frames(path: Seq<char>, data: Seq<u8>)
    ensures
        upload_frames(path, data).len() == 1 + (data.len() + 1023) / 1024,
        upload_frames(path, data)[0] == FrameView::Text(
            control_text(Opcode::PutFile, Some(seq![path, hex_of(data.len())])),
        ),
        forall|i: int|
            1 <= i < upload_frames(path, data).len() ==> (#[trigger] upload_frames(path, data)[i]
                matches FrameView::Binary(b) && 0 < b.len() <= 1024 && b == chunks_of(data)[i - 1]),
        chunks_of(data).flatten() == data,
{
    lemma_chunks_reassemble(data);
    let fs = upload_frames(path, data);
    assert forall|i: int| 1 <= i < fs.len() implies (#[trigger] fs[i] matches FrameView::Binary(b)
        && 0 < b.len() <= 1024 && b == chunks_of(data)[i - 1]) by {
        assert(fs[i] == FrameView::Binary(chunks_of(data)[i - 1]));
        assert(0 < chunks_of(data)[i - 1].len() <= 1024);
    }
}

/// Once `attach` has gone through, `Info` stays permitted through any
/// later sequence of calls that does not close the session.
pub proof fn lemma_attachment_persists(device: Seq<char>, calls: Seq<Call>)
    requires
        forall|i: int| 0 <= i < calls.len() ==> !(#[trigger] calls[i] is Close),
    ensures
        info_permitted(link_after_calls(link_after_attach(device), calls)),
    decreases calls.len(),
{
    if calls.len() > 0 {
        let rest = calls.drop_last();
        assert forall|i: int| 0 <= i < rest.len() implies !(#[trigger] rest[i] is Close) by {
            assert(rest[i] == calls[i]);
        }
        lemma_attachment_persists(device, rest);
        assert(!(calls[calls.len() - 1] is Close));
    }
}

/// The payloads of the binary frames among `events`, in order.
pub open spec fn binary_payloads(events: Seq<Incoming>) -> Seq<Seq<u8>>
    decreases events.len(),
{
    if events.len() == 0 {
        Seq::empty()
    } else {
        let earlier = binary_payloads(events.drop_last());
        match events.last() {
            Incoming::Binary(b, _) => earlier.push(b@),
            _ => earlier,
        }
    }
}

/// The bytes a memory read expecting `expected` bytes holds after `events`
/// are fed to it in order, one [`memory_outcome`] step each; `None` once a
/// step fails.
pub open spec fn gathered(expected: nat, events: Seq<Incoming>) -> Option<Seq<u8>>
    decreases events.len(),
{
    if events.len() == 0 {
        Some(Seq::empty())
    } else {
        match gathered(expected, events.drop_last()) {
            Some(r) => match events.last() {
                Incoming::Binary(b, _) => download_step(r, expected, b@),
                Incoming::End => None,
                _ => Some(r),
            },
            None => None,
        }
    }
}

proof fn lemma_gathered_is_accumulate(expected: nat, events: Seq<Incoming>)
    requires
        forall|i: int| 0 <= i < events.len() ==> !(#[trigger] events[i] is End),
    ensures
        gathered(expected, events) == accumulate(expected, binary_payloads(events)),
    decreases events.len(),
{
    if events.len() > 0 {
        let rest = events.drop_last();
        assert forall|i: int| 0 <= i < rest.len() implies !(#[trigger] rest[i] is End) by {
            assert(rest[i] == events[i]);
        }
        lemma_gathered_is_accumulate(expected, rest);
        assert(!(events[events.len() - 1] is End));
        match events.last() {
            Incoming::Binary(b, _) => {
                let p = binary_payloads(events);
                assert(p.drop_last() =~= binary_payloads(rest));
            },
            _ => {},
        }
    }
}

/// A memory read of `expected` bytes that is fed events whose binary
/// payloads total exactly that many bytes, with any other frames mixed in
/// and the stream still open, ends up holding exactly those payloads in
/// order: `expected` bytes, however the device cut them.
pub proof fn lemma_read_any_fragmentation(expected: nat, events: Seq<Incoming>)
    requires
        forall|i: int| 0 <= i < events.len() ==> !(#[trigger] events[i] is End),
        binary_payloads(events).flatten().len() == expected,
    ensures
        gathered(expected, events) == Some(binary_payloads(events).flatten()),
        binary_payloads(events).flatten().len() == expected,
{
    lemma_gathered_is_accumulate(expected, events);
    lemma_any_fragmentation(expected, binary_payloads(events));
}

/// Two event sequences whose binary payloads put together give the same
/// `expected` bytes gather the same result, however each was fragmented.
pub proof fn lemma_fragmentation_irrelevant(expected: nat, first: Seq<Incoming>, second: Seq<Incoming>)
    requires
        forall|i: int| 0 <= i < first.len() ==> !(#[trigger] first[i] is End),
        forall|i: int| 0 <= i < second.len() ==> !(#[trigger] second[i] is End),
        binary_payloads(first).flatten() == binary_payloads(second).flatten(),
        binary_payloads(first).flatten().len() == expected,
    ensures
        gathered(expected, first) == gathered(expected, second),
{
    lemma_read_any_fragmentation(expected, first);
    lemma_read_any_fragmentation(expected, second);
}

} // verus!
