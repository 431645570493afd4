use vstd::prelude::*;
use vstd::bytes::{
    lemma_auto_spec_u64_to_from_le_bytes, spec_u64_from_le_bytes, spec_u64_to_le_bytes,
    u64_from_le_bytes, u64_to_le_bytes,
};
use crate::error::SessionError;

verus! {

/// Length in bytes of a control frame.
pub const CONTROL_LEN: usize = 1;

/// Length in bytes of a coordinate frame.
pub const COORDINATE_LEN: usize = 8;

/// One unit on the channel, as the transport delivers it.
#[derive(Debug, PartialEq, Eq)]
pub enum Frame {
    /// A binary frame: a control code, a coordinate, a public key or one
    /// byte of a fingerprint, depending on where the session stands.
    Binary(Vec<u8>),
    /// A text frame: an acknowledgment or a ciphertext.
    Text(String),
}

/// What a frame holds.
pub enum FrameView {
    Binary(Seq<u8>),
    Text(Seq<char>),
}

impl View for Frame {
    type V = FrameView;

    open spec fn view(&self) -> FrameView {
        match self {
            Frame::Binary(bytes) => FrameView::Binary(bytes@),
            Frame::Text(text) => FrameView::Text(text@),
        }
    }
}

/// What a sequence of frames holds, frame by frame.
pub open spec fn frames_view(frames: Seq<Frame>) -> Seq<FrameView> {
    frames.map_values(|f: Frame| f@)
}

/// The one-byte requests and notices of the protocol.
#[derive(Clone, Copy, Debug, PartialEq, Eq, Structural)]
pub enum ControlCode {
    /// The initiator ends the session.
    Cancel,
    /// The initiator asks for a synchronisation episode.
    SyncRequest,
    /// The responder has seen the trajectories converge.
    SyncComplete,
    /// The initiator has enciphered its message; ciphertext follows.
    EncryptionComplete,
}

impl ControlCode {
    /// The byte that stands for this code on the channel.
    pub open spec fn spec_byte(self) -> u8 {
        match self {
            ControlCode::Cancel => 0,
            ControlCode::SyncRequest => 1,
            ControlCode::SyncComplete => 2,
            ControlCode::EncryptionComplete => 3,
        }
    }

    /// The code that `byte` stands for, if any.
    pub open spec fn spec_from_byte(byte: u8) -> Option<ControlCode> {
        if byte == 0 {
            Some(ControlCode::Cancel)
        } else if byte == 1 {
            Some(ControlCode::SyncRequest)
        } else if byte == 2 {
            Some(ControlCode::SyncComplete)
        } else if byte == 3 {
            Some(ControlCode::EncryptionComplete)
        } else {
            None
        }
    }

    /// The byte that stands for this code on the channel.
    pub fn byte(self) -> (b: u8)
        ensures
            b == self.spec_byte(),
    {
        match self {
            ControlCode::Cancel => 0,
            ControlCode::SyncRequest => 1,
            ControlCode::SyncComplete => 2,
            ControlCode::EncryptionComplete => 3,
        }
    }

    /// The code that `byte` stands for, if any.
    pub fn from_byte(byte: u8) -> (code: Option<ControlCode>)
        ensures
            code == Self::spec_from_byte(byte),
    {
        if byte == 0 {
            Some(ControlCode::Cancel)
        } else if byte == 1 {
            Some(ControlCode::SyncRequest)
        } else if byte == 2 {
            Some(ControlCode::SyncComplete)
        } else if byte == 3 {
            Some(ControlCode::EncryptionComplete)
        } else {
            None
        }
    }
}

/// Every code is read back from its own byte.
pub proof fn lemma_control_byte_round_trip(code: ControlCode)
    ensures
        ControlCode::spec_from_byte(code.spec_byte()) == Some(code),
{
}

/// The control frame of `code`.
pub open spec fn control_frame(code: ControlCode) -> FrameView {
    FrameView::Binary(seq![code.spec_byte()])
}

/// The coordinate frame of the binary64 bit pattern `bits`.
pub open spec fn coordinate_frame(bits: u64) -> FrameView {
    FrameView::Binary(spec_u64_to_le_bytes(bits))
}

/// The control code that `frame` carries: a binary frame of one byte that
/// stands for a code. Anything else is a protocol violation.
pub open spec fn control_of(frame: FrameView) -> Result<ControlCode, SessionError> {
    match frame {
        FrameView::Binary(bytes) => if bytes.len() == CONTROL_LEN {
            match ControlCode::spec_from_byte(bytes[0]) {
                Some(code) => Ok(code),
                None => Err(SessionError::ProtocolViolation),
            }
        } else {
            Err(SessionError::ProtocolViolation)
        },
        FrameView::Text(_) => Err(SessionError::ProtocolViolation),
    }
}

/// The coordinate that `frame` carries: a binary frame of eight bytes, read
/// least significant byte first. Anything else is a protocol violation.
pub open spec fn coordinate_of(frame: FrameView) -> Result<u64, SessionError> {
    match frame {
        FrameView::Binary(bytes) => if bytes.len() == COORDINATE_LEN {
            Ok(spec_u64_from_le_bytes(bytes))
        } else {
            Err(SessionError::ProtocolViolation)
        },
        FrameView::Text(_) => Err(SessionError::ProtocolViolation),
    }
}

/// The single byte that `frame` carries: a binary frame of one byte.
/// Anything else is a protocol violation.
pub open spec fn byte_of(frame: FrameView) -> Result<u8, SessionError> {
    match frame {
        FrameView::Binary(bytes) => if bytes.len() == 1 {
            Ok(bytes[0])
        } else {
            Err(SessionError::ProtocolViolation)
        },
        FrameView::Text(_) => Err(SessionError::ProtocolViolation),
    }
}

/// The text that `frame` carries. A binary frame is a protocol violation.
pub open spec fn text_of(frame: FrameView) -> Result<Seq<char>, SessionError> {
    match frame {
        FrameView::Binary(_) => Err(SessionError::ProtocolViolation),
        FrameView::Text(text) => Ok(text),
    }
}

/// Builds the control frame of `code`.
pub fn encode_control(code: ControlCode) -> (frame: Frame)
    ensures
        frame@ == control_frame(code),
{
    let mut bytes: Vec<u8> = Vec::new();
    bytes.push(code.byte());
    proof {
        assert(bytes@ =~= seq![code.spec_byte()]);
    }
    Frame::Binary(bytes)
}

/// Reads the control code of `frame`.
pub fn parse_control(frame: &Frame) -> (code: Result<ControlCode, SessionError>)
    ensures
        code == control_of(frame@),
{
    match frame {
        Frame::Binary(bytes) => {
            if bytes.len() != CONTROL_LEN {
                return Err(SessionError::ProtocolViolation);
            }
            match ControlCode::from_byte(bytes[0]) {
                Some(code) => Ok(code),
                None => Err(SessionError::ProtocolViolation),
            }
        },
        Frame::Text(_) => Err(SessionError::ProtocolViolation),
    }
}

/// Builds the coordinate frame of `bits`.
pub fn encode_coordinate(bits: u64) -> (frame: Frame)
    ensures
        frame@ == coordinate_frame(bits),
{
    Frame::Binary(u64_to_le_bytes(bits))
}

/// Reads the coordinate of `frame`.
pub fn parse_coordinate(frame: &Frame) -> (bits: Result<u64, SessionError>)
    ensures
        bits == coordinate_of(frame@),
{
    match frame {
        Frame::Binary(bytes) => {
            if bytes.len() != COORDINATE_LEN {
                return Err(SessionError::ProtocolViolation);
            }
            Ok(u64_from_le_bytes(bytes.as_slice()))
        },
        Frame::Text(_) => Err(SessionError::ProtocolViolation),
    }
}

/// Reads the single byte of `frame`.
pub fn parse_byte(frame: &Frame) -> (byte: Result<u8, SessionError>)
    ensures
        byte == byte_of(frame@),
{
    match frame {
        Frame::Binary(bytes) => {
            if bytes.len() != 1 {
                return Err(SessionError::ProtocolViolation);
            }
            Ok(bytes[0])
        },
        Frame::Text(_) => Err(SessionError::ProtocolViolation),
    }
}

/// Builds the frame that carries the single byte `byte`.
pub fn encode_byte(byte: u8) -> (frame: Frame)
    ensures
        frame@ == FrameView::Binary(seq![byte]),
        byte_of(frame@) == Ok::<u8, SessionError>(byte),
{
    let mut bytes: Vec<u8> = Vec::new();
    bytes.push(byte);
    proof {
        assert(bytes@ =~= seq![byte]);
    }
    Frame::Binary(bytes)
}

/// A control frame is read back as its code.
pub proof fn lemma_control_frame_round_trip(code: ControlCode)
    ensures
        control_of(control_frame(code)) == Ok::<ControlCode, SessionError>(code),
{
}

/// A coordinate frame is read back as its coordinate, bit for bit.
pub proof fn lemma_coordinate_frame_round_trip(bits: u64)
    ensures
        coordinate_of(coordinate_frame(bits)) == Ok::<u64, SessionError>(bits),
{
    lemma_auto_spec_u64_to_from_le_bytes();
}

} // verus!
