use vstd::prelude::*;

use crate::clock::now_unix_timestamp;
use crate::error::{display_error, error_display, labelled, labelled_text, push_context, texts};
use crate::text::{decimal, decimal_text, str_eq};

verus! {

/// The ways in which handling a cluster message can fail.
#[derive(Clone, Copy, Debug, PartialEq, Eq, Structural)]
pub enum MessageErrorKind {
    ReadError,
    InvalidMessageKind,
    Invalidated,
}

/// The name of `kind`, as a debug print of it reads.
pub open spec fn message_error_kind_name(kind: MessageErrorKind) -> Seq<char> {
    match kind {
        MessageErrorKind::ReadError => "ReadError"@,
        MessageErrorKind::InvalidMessageKind => "InvalidMessageKind"@,
        MessageErrorKind::Invalidated => "Invalidated"@,
    }
}

impl MessageErrorKind {
    /// The name of this kind.
    pub fn name(&self) -> (name: &'static str)
        ensures
            name@ == message_error_kind_name(*self),
    {
        match self {
            MessageErrorKind::ReadError => "ReadError",
            MessageErrorKind::InvalidMessageKind => "InvalidMessageKind",
            MessageErrorKind::Invalidated => "Invalidated",
        }
    }

    /// An error of this kind, described by `source`.
    pub fn with_error(self, source: String) -> (error: MessageError)
        ensures
            error.kind() == self,
            error.description() == source@,
            error.causes() == Seq::<Seq<char>>::empty(),
    {
        MessageError { kind: self, source, causes: Vec::new() }
    }
}

/// An error met while handling a cluster message.
#[derive(Debug)]
pub struct MessageError {
    pub kind: MessageErrorKind,
    source: String,
    causes: Vec<String>,
}

impl MessageError {
    /// What the error says: the context attached last, or the text it was
    /// made with.
    pub closed spec fn description(&self) -> Seq<char> {
        self.source@
    }

    /// What the error said before each context was attached, the most recent
    /// first: the chain of sources behind the description.
    pub closed spec fn causes(&self) -> Seq<Seq<char>> {
        texts(self.causes@)
    }

    /// The same error with the context `ctx`: `ctx` becomes its description,
    /// and what it said before heads its causes.
    pub fn add_context(self, ctx: &str) -> (error: MessageError)
        ensures
            error.kind() == self.kind(),
            error.description() == ctx@,
            error.causes() == seq![self.description()] + self.causes(),
    {
        let (source, causes) = push_context(ctx, self.source, self.causes);
        MessageError { kind: self.kind, source, causes }
    }

    /// The kind of this error, as the proofs see it.
    pub closed spec fn spec_kind(&self) -> MessageErrorKind {
        self.kind
    }

    /// The kind of this error.
    #[verifier::when_used_as_spec(spec_kind)]
    pub fn kind(&self) -> (kind: MessageErrorKind)
        ensures
            kind == self.spec_kind(),
    {
        self.kind
    }

    /// The description of this error.
    pub fn source_text(&self) -> (text: &str)
        ensures
            text@ == self.description(),
    {
        self.source.as_str()
    }

    /// The text that the error prints: its type, its kind and its
    /// description.
    pub fn message(&self) -> (text: String)
        ensures
            text@ == error_display("MessageError"@, message_error_kind_name(self.kind()), self.description()),
    {
        display_error("MessageError", self.kind.name(), self.source.as_str())
    }

    /// The causes of this error, the most recent first.
    pub fn cause_texts(&self) -> (causes: &[String])
        ensures
            texts(causes@) == self.causes(),
    {
        self.causes.as_slice()
    }
}


/// The kinds of cluster messages.
#[derive(Clone, Copy, Debug, PartialEq, Eq, Structural, Hash)]
pub enum MessageKind {
    Unknown,
    CreateIndex,
    DeleteIndex,
    ModifyIndex,
}

/// The byte that stands for `kind` in the wire format.
pub open spec fn kind_code(kind: MessageKind) -> u8 {
    match kind {
        MessageKind::Unknown => 0,
        MessageKind::CreateIndex => 3,
        MessageKind::DeleteIndex => 4,
        MessageKind::ModifyIndex => 5,
    }
}

/// The kind whose code is `n`, if any.
pub open spec fn kind_of_code(n: u8) -> Option<MessageKind> {
    if n == 0 {
        Some(MessageKind::Unknown)
    } else if n == 3 {
        Some(MessageKind::CreateIndex)
    } else if n == 4 {
        Some(MessageKind::DeleteIndex)
    } else if n == 5 {
        Some(MessageKind::ModifyIndex)
    } else {
        None
    }
}

/// Big-endian bytes of a 64-bit word.
pub open spec fn u64_be_bytes(v: u64) -> Seq<u8> {
    seq![
        (v >> 56u64) as u8,
        (v >> 48u64) as u8,
        (v >> 40u64) as u8,
        (v >> 32u64) as u8,
        (v >> 24u64) as u8,
        (v >> 16u64) as u8,
        (v >> 8u64) as u8,
        v as u8,
    ]
}

/// The 64-bit word whose big-endian bytes are the first eight of `b`.
pub open spec fn u64_from_be(b: Seq<u8>) -> u64 {
    ((b[0] as u64) << 56u64) | ((b[1] as u64) << 48u64) | ((b[2] as u64) << 40u64) | ((
    b[3] as u64) << 32u64) | ((b[4] as u64) << 24u64) | ((b[5] as u64) << 16u64) | ((b[6] as u64)
        << 8u64) | (b[7] as u64)
}

proof fn lemma_u64_be_roundtrip(v: u64)
    ensures
        u64_from_be(u64_be_bytes(v)) == v,
{
    let b0 = (v >> 56u64) as u8;
    let b1 = (v >> 48u64) as u8;
    let b2 = (v >> 40u64) as u8;
    let b3 = (v >> 32u64) as u8;
    let b4 = (v >> 24u64) as u8;
    let b5 = (v >> 16u64) as u8;
    let b6 = (v >> 8u64) as u8;
    let b7 = v as u8;
    assert(((b0 as u64) << 56u64) | ((b1 as u64) << 48u64) | ((b2 as u64) << 40u64) | ((
    b3 as u64) << 32u64) | ((b4 as u64) << 24u64) | ((b5 as u64) << 16u64) | ((b6 as u64)
        << 8u64) | (b7 as u64) == v) by (bit_vector)
        requires
            b0 == (v >> 56u64) as u8,
            b1 == (v >> 48u64) as u8,
            b2 == (v >> 40u64) as u8,
            b3 == (v >> 32u64) as u8,
            b4 == (v >> 24u64) as u8,
            b5 == (v >> 16u64) as u8,
            b6 == (v >> 8u64) as u8,
            b7 == v as u8,
    ;
}

fn push_u64_be(data: &mut Vec<u8>, v: u64)
    ensures
        final(data)@ == old(data)@ + u64_be_bytes(v),
{
    data.push((v >> 56u64) as u8);
    data.push((v >> 48u64) as u8);
    data.push((v >> 40u64) as u8);
    data.push((v >> 32u64) as u8);
    data.push((v >> 24u64) as u8);
    data.push((v >> 16u64) as u8);
    data.push((v >> 8u64) as u8);
    data.push(v as u8);
    assert(data@ =~= old(data)@ + u64_be_bytes(v));
}


/// The name of `kind` in configuration and logs.
pub open spec fn kind_name(kind: MessageKind) -> Seq<char> {
    match kind {
        MessageKind::Unknown => "unknown"@,
        MessageKind::CreateIndex => "create_index"@,
        MessageKind::DeleteIndex => "delete_index"@,
        MessageKind::ModifyIndex => "modify_index"@,
    }
}

fn invalid_kind_error(value: &str) -> (error: MessageError)
    ensures
        error.kind() == MessageErrorKind::InvalidMessageKind,
        error.description() == labelled_text("Unknown message kind"@, value@),
        error.causes() == Seq::<Seq<char>>::empty(),
{
    MessageErrorKind::InvalidMessageKind.with_error(labelled("Unknown message kind", value))
}

impl MessageKind {
    /// The kind named `s`; any other name is an `InvalidMessageKind` error.
    pub fn from_str(s: &str) -> (res: Result<MessageKind, MessageError>)
        ensures
            match res {
                Ok(kind) => kind_name(kind) == s@,
                Err(error) => error.kind() == MessageErrorKind::InvalidMessageKind
                    && error.description() == labelled_text("Unknown message kind"@, s@)
                    && forall|kind: MessageKind| kind_name(kind) != s@,
            },
    {
        proof {
            reveal_strlit("unknown");
            reveal_strlit("create_index");
            reveal_strlit("delete_index");
            reveal_strlit("modify_index");
        }
        if str_eq(s, "unknown") {
            Ok(MessageKind::Unknown)
        } else if str_eq(s, "create_index") {
            Ok(MessageKind::CreateIndex)
        } else if str_eq(s, "delete_index") {
            Ok(MessageKind::DeleteIndex)
        } else if str_eq(s, "modify_index") {
            Ok(MessageKind::ModifyIndex)
        } else {
            Err(invalid_kind_error(s))
        }
    }

    /// The name of this kind, as `from_str` reads it.
    pub fn name(&self) -> (name: &'static str)
        ensures
            name@ == kind_name(*self),
    {
        match self {
            MessageKind::Unknown => "unknown",
            MessageKind::CreateIndex => "create_index",
            MessageKind::DeleteIndex => "delete_index",
            MessageKind::ModifyIndex => "modify_index",
        }
    }

    /// The kind whose wire code is `n`; any other code is an
    /// `InvalidMessageKind` error.
    pub fn from_u8(n: u8) -> (res: Result<MessageKind, MessageError>)
        ensures
            match res {
                Ok(kind) => kind_of_code(n) == Some(kind),
                Err(error) => error.kind() == MessageErrorKind::InvalidMessageKind
                    && error.description() == labelled_text("Unknown message kind"@, decimal(n as nat))
                    && kind_of_code(n) is None,
            },
    {
        match n {
            0 => Ok(MessageKind::Unknown),
            3 => Ok(MessageKind::CreateIndex),
            4 => Ok(MessageKind::DeleteIndex),
            5 => Ok(MessageKind::ModifyIndex),
            _ => {
                let text = decimal_text(n as u64);
                Err(invalid_kind_error(text.as_str()))
            },
        }
    }

    /// The wire code of this kind.
    pub fn to_u8(&self) -> (n: u8)
        ensures
            n == kind_code(*self),
    {
        match self {
            MessageKind::Unknown => 0,
            MessageKind::CreateIndex => 3,
            MessageKind::DeleteIndex => 4,
            MessageKind::ModifyIndex => 5,
        }
    }
}

/// The bytes of a message of `kind` carrying `body`, stamped with `version`:
/// the version in eight big-endian bytes, the kind's code, the body's length in
/// eight big-endian bytes, then the body.
pub open spec fn encode_message(kind: MessageKind, body: Seq<u8>, version: i64) -> Seq<u8> {
    u64_be_bytes(version as u64) + seq![kind_code(kind)] + u64_be_bytes(body.len() as u64) + body
}

/// The version that the bytes `data` of a message carry.
pub open spec fn message_version(data: Seq<u8>) -> i64 {
    u64_from_be(data) as i64
}

/// The kind that the bytes `data` of a message carry, if its code is known.
pub open spec fn message_kind(data: Seq<u8>) -> Option<MessageKind> {
    kind_of_code(data[8])
}

/// The body length that the bytes `data` of a message announce.
pub open spec fn message_body_len(data: Seq<u8>) -> int {
    u64_from_be(data.subrange(9, 17)) as int
}

/// The body that the bytes `data` of a message carry.
pub open spec fn message_body(data: Seq<u8>) -> Seq<u8> {
    data.subrange(17, 17 + message_body_len(data))
}

/// Whether `data` is long enough for its version and kind to be read.
pub open spec fn has_header(data: Seq<u8>) -> bool {
    data.len() >= 9
}

/// Whether the body announced by `data` lies within it.
pub open spec fn has_body(data: Seq<u8>) -> bool {
    data.len() >= 17 && 17 + message_body_len(data) <= data.len()
}

/// Whether a message with bytes `this` supersedes one with bytes `other`: both
/// have a known kind, the same one, and `this` has the higher version.
pub open spec fn supersedes(this: Seq<u8>, other: Seq<u8>) -> bool {
    &&& message_kind(this) is Some
    &&& message_kind(other) is Some
    &&& message_kind(this) == message_kind(other)
    &&& message_version(this) > message_version(other)
}

/// A cluster message: a kind, a version and a body, framed as bytes.
#[derive(Clone)]
pub struct Message {
    data: Vec<u8>,
}

impl View for Message {
    type V = Seq<u8>;

    open spec fn view(&self) -> Seq<u8> {
        self.data_view()
    }
}

impl Message {
    /// The bytes of this message.
    pub closed spec fn data_view(&self) -> Seq<u8> {
        self.data@
    }

    /// A message of `kind` with an empty body, stamped with the current time.
    pub fn new(kind: MessageKind) -> (message: Message)
        ensures
            exists|version: i64| message@ == encode_message(kind, Seq::empty(), version),
    {
        let empty: Vec<u8> = Vec::new();
        Message::with_body(kind, empty.as_slice())
    }

    /// A message of `kind` carrying `body`, stamped with the current time.
    pub fn with_body(kind: MessageKind, body: &[u8]) -> (message: Message)
        ensures
            exists|version: i64| message@ == encode_message(kind, body@, version),
    {
        let version = now_unix_timestamp();
        Message::with_body_version(kind, body, version)
    }

    /// A message of `kind` carrying `body`, stamped with `version`.
    pub fn with_body_version(kind: MessageKind, body: &[u8], version: i64) -> (message: Message)
        ensures
            message@ == encode_message(kind, body@, version),
    {
        let mut data: Vec<u8> = Vec::new();
        push_u64_be(&mut data, version as u64);
        data.push(kind.to_u8());
        push_u64_be(&mut data, body.len() as u64);
        let mut i: usize = 0;
        while i < body.len()
            invariant
                i <= body@.len(),
                data@ == u64_be_bytes(version as u64) + seq![kind_code(kind)] + u64_be_bytes(
                    body@.len() as u64,
                ) + body@.subrange(0, i as int),
            decreases body@.len() - i,
        {
            data.push(body[i]);
            assert(body@.subrange(0, i + 1) =~= body@.subrange(0, i as int).push(body@[i as int]));
            i = i + 1;
        }
        assert(body@.subrange(0, body@.len() as int) =~= body@);
        Message { data }
    }

    /// The message whose bytes are `src`.  Reading never fails.
    pub fn from_bytes(src: &[u8]) -> (res: Result<Message, MessageError>)
        ensures
            res matches Ok(message) && message@ == src@,
    {
        let mut data: Vec<u8> = Vec::new();
        let mut i: usize = 0;
        while i < src.len()
            invariant
                i <= src@.len(),
                data@ == src@.subrange(0, i as int),
            decreases src@.len() - i,
        {
            data.push(src[i]);
            assert(src@.subrange(0, i + 1) =~= src@.subrange(0, i as int).push(src@[i as int]));
            i = i + 1;
        }
        assert(src@.subrange(0, src@.len() as int) =~= src@);
        Ok(Message { data })
    }

    /// The version of this message.
    pub fn version(&self) -> (version: i64)
        requires
            self@.len() >= 8,
        ensures
            version == message_version(self@),
    {
        let d = &self.data;
        let word: u64 = ((d[0] as u64) << 56u64) | ((d[1] as u64) << 48u64) | ((d[2] as u64)
            << 40u64) | ((d[3] as u64) << 32u64) | ((d[4] as u64) << 24u64) | ((d[5] as u64)
            << 16u64) | ((d[6] as u64) << 8u64) | (d[7] as u64);
        word as i64
    }

    /// The kind of this message; an unknown code is an `InvalidMessageKind`
    /// error.
    pub fn kind(&self) -> (res: Result<MessageKind, MessageError>)
        requires
            has_header(self@),
        ensures
            match res {
                Ok(kind) => message_kind(self@) == Some(kind),
                Err(error) => error.kind() == MessageErrorKind::InvalidMessageKind && message_kind(
                    self@,
                ) is None,
            },
    {
        MessageKind::from_u8(self.data[8])
    }

    /// The body of this message.
    pub fn body(&self) -> (body: &[u8])
        requires
            has_body(self@),
        ensures
            body@ == message_body(self@),
    {
        let d = &self.data;
        let len: u64 = ((d[9] as u64) << 56u64) | ((d[10] as u64) << 48u64) | ((d[11] as u64)
            << 40u64) | ((d[12] as u64) << 32u64) | ((d[13] as u64) << 24u64) | ((d[14] as u64)
            << 16u64) | ((d[15] as u64) << 8u64) | (d[16] as u64);
        assert(len == u64_from_be(self@.subrange(9, 17)));
        assert(17 + len <= self.data@.len());
        let n = self.data.len();
        let len_usize = len as usize;
        assert(len_usize == len);
        let end = 17 + len_usize;
        assert(end == 17 + message_body_len(self@));
        &self.data.as_slice()[17..end]
    }

    /// Whether the body that this message announces lies within its bytes,
    /// so that `body` can read it.
    pub fn is_complete(&self) -> (complete: bool)
        ensures
            complete == has_body(self@),
    {
        let d = &self.data;
        if d.len() < 17 {
            return false;
        }
        let len: u64 = ((d[9] as u64) << 56u64) | ((d[10] as u64) << 48u64) | ((d[11] as u64)
            << 40u64) | ((d[12] as u64) << 32u64) | ((d[13] as u64) << 24u64) | ((d[14] as u64)
            << 16u64) | ((d[15] as u64) << 8u64) | (d[16] as u64);
        assert(len == u64_from_be(self@.subrange(9, 17)));
        let available = (d.len() - 17) as u64;
        len <= available
    }

    /// The bytes of this message.
    pub fn as_bytes(&self) -> (bytes: &[u8])
        ensures
            bytes@ == self@,
    {
        self.data.as_slice()
    }

    /// Whether this message supersedes `other`: same known kind, higher
    /// version.  A message whose kind cannot be read supersedes nothing and is
    /// superseded by nothing.
    pub fn invalidates(&self, other: &Message) -> (res: bool)
        requires
            has_header(self@),
            has_header(other@),
        ensures
            res == supersedes(self@, other@),
    {
        let self_kind = match self.kind() {
            Ok(kind) => kind,
            Err(_) => return false,
        };
        let other_kind = match other.kind() {
            Ok(kind) => kind,
            Err(_) => return false,
        };
        self_kind == other_kind && self.version() > other.version()
    }
}

impl Default for Message {
    fn default() -> (message: Message)
        ensures
            exists|version: i64|
                message@ == encode_message(MessageKind::Unknown, Seq::empty(), version),
    {
        Message::new(MessageKind::Unknown)
    }
}

/// Reading back a framed message gives what was framed: its version, its kind
/// and its body, and the body lies within the bytes.
pub proof fn lemma_message_roundtrip(kind: MessageKind, body: Seq<u8>, version: i64)
    requires
        body.len() <= u64::MAX,
    ensures
        has_header(encode_message(kind, body, version)),
        has_body(encode_message(kind, body, version)),
        message_version(encode_message(kind, body, version)) == version,
        message_kind(encode_message(kind, body, version)) == Some(kind),
        message_body(encode_message(kind, body, version)) == body,
{
    let data = encode_message(kind, body, version);
    let v = version as u64;
    lemma_u64_be_roundtrip(v);
    lemma_u64_be_roundtrip(body.len() as u64);
    assert(data.subrange(0, 8) =~= u64_be_bytes(v));
    assert(u64_from_be(data) == u64_from_be(data.subrange(0, 8)));
    assert((v as i64) == version) by (bit_vector)
        requires
            v == version as u64,
    ;
    assert(data.subrange(9, 17) =~= u64_be_bytes(body.len() as u64));
    assert(data.subrange(17, 17 + body.len() as int) =~= body);
}

/// Every kind survives the trip through its wire code and through its name,
/// and no two kinds share a code or a name.
pub proof fn lemma_kind_roundtrip(kind: MessageKind, other: MessageKind)
    ensures
        kind_of_code(kind_code(kind)) == Some(kind),
        kind != other ==> kind_code(kind) != kind_code(other),
        kind != other ==> kind_name(kind) != kind_name(other),
{
    reveal_strlit("unknown");
    reveal_strlit("create_index");
    reveal_strlit("delete_index");
    reveal_strlit("modify_index");
    if kind != other {
        assert(kind_name(kind).len() != kind_name(other).len() || kind_name(kind)[0] != kind_name(
            other,
        )[0] || kind_name(kind)[1] != kind_name(other)[1]);
    }
}

/// Superseding is a strict order on messages: no message supersedes itself,
/// and a message that supersedes one that supersedes a third supersedes the
/// third.
pub proof fn lemma_supersedes_strict_order(a: Seq<u8>, b: Seq<u8>, c: Seq<u8>)
    ensures
        !supersedes(a, a),
        supersedes(a, b) ==> !supersedes(b, a),
        supersedes(a, b) && supersedes(b, c) ==> supersedes(a, c),
{
}

} // verus!
