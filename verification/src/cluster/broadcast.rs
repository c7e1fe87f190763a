use vstd::prelude::*;

use super::message::{has_header, message_kind, message_version, Message, MessageKind};
use crate::error::{display_error, error_display, push_context, texts};

verus! {

/// The ways in which passing cluster messages to and from the broadcast layer can fail.
#[derive(Clone, Copy, Debug, PartialEq, Eq, Structural)]
pub enum MessageHandlerErrorKind {
    SendError,
    ReceiveError,
}

/// The name of `kind`, as a debug print of it reads.
pub open spec fn message_handler_error_kind_name(kind: MessageHandlerErrorKind) -> Seq<char> {
    match kind {
        MessageHandlerErrorKind::SendError => "SendError"@,
        MessageHandlerErrorKind::ReceiveError => "ReceiveError"@,
    }
}

impl MessageHandlerErrorKind {
    /// The name of this kind.
    pub fn name(&self) -> (name: &'static str)
        ensures
            name@ == message_handler_error_kind_name(*self),
    {
        match self {
            MessageHandlerErrorKind::SendError => "SendError",
            MessageHandlerErrorKind::ReceiveError => "ReceiveError",
        }
    }

    /// An error of this kind, described by `source`.
    pub fn with_error(self, source: String) -> (error: MessageHandlerError)
        ensures
            error.kind() == self,
            error.description() == source@,
            error.causes() == Seq::<Seq<char>>::empty(),
    {
        MessageHandlerError { kind: self, source, causes: Vec::new() }
    }
}

/// An error met while passing cluster messages to and from the broadcast layer.
#[derive(Debug)]
pub struct MessageHandlerError {
    pub kind: MessageHandlerErrorKind,
    source: String,
    causes: Vec<String>,
}

impl MessageHandlerError {
    /// What the error says: the context attached last, or the text it was
    /// made with.
    pub closed spec fn description(&self) -> Seq<char> {
        self.source@
    }

    /// What the error said before each context was attached, the most recent
    /// first: the chain of sources behind the description.
    pub closed spec fn causes(&self) -> Seq<Seq<char>> {
        texts(self.causes@)
    }

    /// The kind of this error, as the proofs see it.
    pub closed spec fn spec_kind(&self) -> MessageHandlerErrorKind {
        self.kind
    }

    /// The same error with the context `ctx`: `ctx` becomes its description,
    /// and what it said before heads its causes.
    pub fn add_context(self, ctx: &str) -> (error: MessageHandlerError)
        ensures
            error.kind() == self.kind(),
            error.description() == ctx@,
            error.causes() == seq![self.description()] + self.causes(),
    {
        let (source, causes) = push_context(ctx, self.source, self.causes);
        MessageHandlerError { kind: self.kind, source, causes }
    }

    /// The kind of this error.
    #[verifier::when_used_as_spec(spec_kind)]
    pub fn kind(&self) -> (kind: MessageHandlerErrorKind)
        ensures
            kind == self.spec_kind(),
    {
        self.kind
    }

    /// The description of this error.
    pub fn source_text(&self) -> (text: &str)
        ensures
            text@ == self.description(),
    {
        self.source.as_str()
    }

    /// The text that the error prints: its type, its kind and its
    /// description.
    pub fn message(&self) -> (text: String)
        ensures
            text@ == error_display("MessageHandlerError"@, message_handler_error_kind_name(self.kind()), self.description()),
    {
        display_error("MessageHandlerError", self.kind.name(), self.source.as_str())
    }

    /// The causes of this error, the most recent first.
    pub fn cause_texts(&self) -> (causes: &[String])
        ensures
            texts(causes@) == self.causes(),
    {
        self.causes.as_slice()
    }
}

/// The slot that holds the latest version seen of `kind`.
pub open spec fn kind_slot(kind: MessageKind) -> int {
    match kind {
        MessageKind::Unknown => 0,
        MessageKind::CreateIndex => 1,
        MessageKind::DeleteIndex => 2,
        MessageKind::ModifyIndex => 3,
    }
}

fn slot_of(kind: MessageKind) -> (slot: usize)
    ensures
        slot == kind_slot(kind),
{
    match kind {
        MessageKind::Unknown => 0,
        MessageKind::CreateIndex => 1,
        MessageKind::DeleteIndex => 2,
        MessageKind::ModifyIndex => 3,
    }
}

/// Whether a message of `kind` stamped `version` is news to a handler that
/// has seen `latest` of that kind: it is news when nothing of the kind was
/// seen, or only older versions.
pub open spec fn is_news(latest: Option<i64>, version: i64) -> bool {
    match latest {
        Some(seen) => seen < version,
        None => true,
    }
}

/// Decides which cluster messages received from the broadcast layer are
/// handed on: for each kind of message, only versions newer than every one
/// handed on before.
pub struct MessageHandler {
    latest_message: Vec<Option<i64>>,
}

impl MessageHandler {
    /// The latest version handed on of `kind`, if any.
    pub closed spec fn latest(&self, kind: MessageKind) -> Option<i64> {
        self.latest_message@[kind_slot(kind)]
    }

    #[verifier::type_invariant]
    closed spec fn inv(&self) -> bool {
        self.latest_message@.len() == 4
    }

    /// A handler that has handed on nothing yet.
    pub fn new() -> (handler: MessageHandler)
        ensures
            forall|kind: MessageKind| handler.latest(kind) is None,
    {
        let mut latest_message: Vec<Option<i64>> = Vec::new();
        latest_message.push(None);
        latest_message.push(None);
        latest_message.push(None);
        latest_message.push(None);
        MessageHandler { latest_message }
    }

    /// Reads the message in `data` and decides whether to hand it on: a
    /// message of unknown kind is dropped, and so is one whose version is not
    /// newer than the latest handed on of its kind.  A message handed on
    /// becomes the latest of its kind.  This never fails.
    pub fn receive_item(&mut self, data: &[u8]) -> (res: Result<
        Option<Message>,
        MessageHandlerError,
    >)
        requires
            has_header(data@),
        ensures
            res is Ok,
            match message_kind(data@) {
                None => res == Ok::<Option<Message>, MessageHandlerError>(None) && forall|
                    kind: MessageKind,
                | final(self).latest(kind) == old(self).latest(kind),
                Some(kind) => if is_news(old(self).latest(kind), message_version(data@)) {
                    &&& res matches Ok(Some(message)) && message@ == data@
                    &&& final(self).latest(kind) == Some(message_version(data@))
                    &&& forall|other: MessageKind|
                        other != kind ==> final(self).latest(other) == old(self).latest(other)
                } else {
                    &&& res == Ok::<Option<Message>, MessageHandlerError>(None)
                    &&& forall|other: MessageKind|
                        final(self).latest(other) == old(self).latest(other)
                },
            },
            message_kind(data@) matches Some(kind) ==> (res matches Ok(Some(_)) <==> match old(
                self,
            ).latest(kind) {
                None => true,
                Some(seen) => seen < message_version(data@),
            }),
    {
        proof {
            use_type_invariant(&*self);
        }
        let message = match Message::from_bytes(data) {
            Ok(message) => message,
            Err(_) => return Ok(None),
        };
        let kind = match message.kind() {
            Ok(kind) => kind,
            Err(_) => return Ok(None),
        };
        let version = message.version();
        let slot = slot_of(kind);
        match self.latest_message[slot] {
            Some(seen) => {
                if seen >= version {
                    return Ok(None);
                }
            },
            None => {},
        }
        let mut updated: Vec<Option<i64>> = Vec::new();
        let mut i: usize = 0;
        while i < 4
            invariant
                i <= 4,
                self.latest_message@.len() == 4,
                slot < 4,
                updated@ =~= self.latest_message@.update(slot as int, Some(version)).take(i as int),
            decreases 4 - i,
        {
            if i == slot {
                updated.push(Some(version));
            } else {
                updated.push(self.latest_message[i]);
            }
            i = i + 1;
        }
        self.latest_message = updated;
        proof {
            assert forall|other: MessageKind| other != kind implies kind_slot(other) != kind_slot(
                kind,
            ) by {}
        }
        Ok(Some(message))
    }
}

/// Exactly the versions above the latest one seen are news: after a
/// version `seen` of a kind was handed on, every later version `version` of
/// that kind is handed on too, and no version up to `seen` is; before any
/// was handed on, every version is news.
pub proof fn lemma_news_is_every_later_version(seen: i64, version: i64)
    ensures
        is_news(None, version),
        is_news(Some(seen), version) <==> seen < version,
        seen < version ==> is_news(Some(seen), version) && !is_news(Some(version), seen),
{
}

/// A message that was handed on is not news any more: receiving the same
/// message again hands nothing on, and neither does any older version of its
/// kind.
pub proof fn lemma_handed_on_at_most_once(latest: Option<i64>, version: i64, older: i64)
    requires
        is_news(latest, version),
        older <= version,
    ensures
        !is_news(Some(version), version),
        !is_news(Some(version), older),
{
}

} // verus!
