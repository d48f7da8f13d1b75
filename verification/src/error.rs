//! Errors, by kind and by the words that users see.

use vstd::prelude::*;

verus! {

/// The kind of an I/O error.
#[derive(Clone, Copy, Debug, PartialEq, Eq, Structural)]
pub enum IoErrorKind {
    UnexpectedEof,
    ConnectionAborted,
    ConnectionReset,
    BrokenPipe,
    WriteZero,
    InvalidData,
    InvalidInput,
    NotFound,
    Other,
}

/// A fault of a data transport or of what travels over it.
#[derive(Clone, Copy, Debug, PartialEq, Eq, Structural)]
pub enum TransportError {
    ClosedDuringFrame,
    ClosedBeforeHeader,
    FrameTooLarge,
    StreamFinished,
    FrameNotWritten,
    HeaderNotWritten,
    IncompleteFrame,
    TerminatorNotWritten,
    SidebandClosed,
    CountTooSmall,
    ClosedBeforeBoundary,
    CountOverflow,
    SidebandFinished,
    CountNotWritten,
    PayloadUnfinished,
    InvalidAcknowledgement,
}

impl TransportError {
    /// The kind of I/O error that the fault is reported as.
    pub open spec fn io_kind(self) -> IoErrorKind {
        match self {
            TransportError::ClosedDuringFrame | TransportError::ClosedBeforeHeader
            | TransportError::SidebandClosed | TransportError::ClosedBeforeBoundary =>
                IoErrorKind::UnexpectedEof,
            TransportError::FrameTooLarge | TransportError::IncompleteFrame
            | TransportError::CountTooSmall | TransportError::CountOverflow
            | TransportError::PayloadUnfinished | TransportError::InvalidAcknowledgement =>
                IoErrorKind::InvalidData,
            TransportError::StreamFinished | TransportError::SidebandFinished =>
                IoErrorKind::BrokenPipe,
            TransportError::FrameNotWritten | TransportError::HeaderNotWritten
            | TransportError::TerminatorNotWritten | TransportError::CountNotWritten =>
                IoErrorKind::WriteZero,
        }
    }

    /// The kind of I/O error that the fault is reported as.
    pub fn kind(self) -> (result: IoErrorKind)
        ensures
            result == self.io_kind(),
    {
        match self {
            TransportError::ClosedDuringFrame | TransportError::ClosedBeforeHeader
            | TransportError::SidebandClosed | TransportError::ClosedBeforeBoundary =>
                IoErrorKind::UnexpectedEof,
            TransportError::FrameTooLarge | TransportError::IncompleteFrame
            | TransportError::CountTooSmall | TransportError::CountOverflow
            | TransportError::PayloadUnfinished | TransportError::InvalidAcknowledgement =>
                IoErrorKind::InvalidData,
            TransportError::StreamFinished | TransportError::SidebandFinished =>
                IoErrorKind::BrokenPipe,
            TransportError::FrameNotWritten | TransportError::HeaderNotWritten
            | TransportError::TerminatorNotWritten | TransportError::CountNotWritten =>
                IoErrorKind::WriteZero,
        }
    }

    /// The words that the fault is reported with.
    pub open spec fn text(self) -> Seq<char> {
        match self {
            TransportError::ClosedDuringFrame => "reusable transport closed during a data frame"@,
            TransportError::ClosedBeforeHeader =>
                "reusable transport closed before a frame header"@,
            TransportError::FrameTooLarge => "reusable transport data frame is too large"@,
            TransportError::StreamFinished => "reusable transport stream is finished"@,
            TransportError::FrameNotWritten => "could not write reusable transport data frame"@,
            TransportError::HeaderNotWritten => "could not write reusable transport frame header"@,
            TransportError::IncompleteFrame =>
                "cannot finish an incomplete reusable transport frame"@,
            TransportError::TerminatorNotWritten => "could not finish reusable transport stream"@,
            TransportError::SidebandClosed => "sideband closed before the payload byte count"@,
            TransportError::CountTooSmall =>
                "sideband payload byte count is smaller than data already received"@,
            TransportError::ClosedBeforeBoundary =>
                "raw data transport closed before its sideband boundary"@,
            TransportError::CountOverflow => "payload byte count overflow"@,
            TransportError::SidebandFinished => "sideband transport stream is finished"@,
            TransportError::CountNotWritten => "could not write sideband payload byte count"@,
            TransportError::PayloadUnfinished =>
                "sideband transport payload did not finish in both directions"@,
            TransportError::InvalidAcknowledgement =>
                "invalid sideband transport acknowledgement"@,
        }
    }

    /// The words that the fault is reported with.
    pub fn message(self) -> (result: &'static str)
        ensures
            result@ == self.text(),
    {
        match self {
            TransportError::ClosedDuringFrame => "reusable transport closed during a data frame",
            TransportError::ClosedBeforeHeader => "reusable transport closed before a frame header",
            TransportError::FrameTooLarge => "reusable transport data frame is too large",
            TransportError::StreamFinished => "reusable transport stream is finished",
            TransportError::FrameNotWritten => "could not write reusable transport data frame",
            TransportError::HeaderNotWritten => "could not write reusable transport frame header",
            TransportError::IncompleteFrame =>
                "cannot finish an incomplete reusable transport frame",
            TransportError::TerminatorNotWritten => "could not finish reusable transport stream",
            TransportError::SidebandClosed => "sideband closed before the payload byte count",
            TransportError::CountTooSmall =>
                "sideband payload byte count is smaller than data already received",
            TransportError::ClosedBeforeBoundary =>
                "raw data transport closed before its sideband boundary",
            TransportError::CountOverflow => "payload byte count overflow",
            TransportError::SidebandFinished => "sideband transport stream is finished",
            TransportError::CountNotWritten => "could not write sideband payload byte count",
            TransportError::PayloadUnfinished =>
                "sideband transport payload did not finish in both directions",
            TransportError::InvalidAcknowledgement => "invalid sideband transport acknowledgement",
        }
    }
}

/// The kind of a TLS error.
#[derive(Clone, Copy, Debug, PartialEq, Eq, Structural)]
pub enum TlsErrorKind {
    InappropriateMessage,
    InappropriateHandshakeMessage,
    InvalidMessage,
    PeerIncompatible,
    PeerMisbehaved,
    AlertReceived,
    NoApplicationProtocol,
    Other,
}

/// A TLS error, by its kind and its words.
#[derive(Debug, PartialEq, Eq)]
pub struct TlsError {
    pub kind: TlsErrorKind,
    pub detail: String,
}

impl View for TlsError {
    type V = (TlsErrorKind, Seq<char>);

    open spec fn view(&self) -> (TlsErrorKind, Seq<char>) {
        (self.kind, self.detail@)
    }
}

/// One of the causes of an error.
#[derive(Clone, Copy, Debug, PartialEq, Eq, Structural)]
pub enum Cause {
    Io(IoErrorKind),
    Tls(TlsErrorKind),
    Other,
}

/// Whether a cause is of the kind that any peer can bring about by going away or by not
/// speaking TLS.
pub open spec fn is_routine(cause: Cause) -> bool {
    match cause {
        Cause::Io(kind) => kind == IoErrorKind::UnexpectedEof || kind
            == IoErrorKind::ConnectionAborted || kind == IoErrorKind::ConnectionReset || kind
            == IoErrorKind::BrokenPipe,
        Cause::Tls(kind) => kind != TlsErrorKind::Other,
        Cause::Other => false,
    }
}

fn routine(cause: Cause) -> (result: bool)
    ensures
        result == is_routine(cause),
{
    match cause {
        Cause::Io(kind) => match kind {
            IoErrorKind::UnexpectedEof
            | IoErrorKind::ConnectionAborted
            | IoErrorKind::ConnectionReset
            | IoErrorKind::BrokenPipe => true,
            _ => false,
        },
        Cause::Tls(kind) => match kind {
            TlsErrorKind::Other => false,
            _ => true,
        },
        Cause::Other => false,
    }
}

/// Whether one of these causes is routine.
pub open spec fn any_routine(causes: Seq<Cause>) -> bool {
    exists|i: int| 0 <= i < causes.len() && is_routine(#[trigger] causes[i])
}

/// Whether an error with these causes is not worth reporting.
pub fn is_routine_connection_error(causes: &[Cause]) -> (result: bool)
    ensures
        result == exists|i: int| 0 <= i < causes@.len() && is_routine(#[trigger] causes@[i]),
        result == any_routine(causes@),
{
    let mut i: usize = 0;
    while i < causes.len()
        invariant
            i <= causes@.len(),
            forall|k: int| 0 <= k < i ==> !is_routine(#[trigger] causes@[k]),
        decreases causes@.len() - i,
    {
        if routine(causes[i]) {
            return true;
        }
        i += 1;
    }
    false
}

/// An error is routine where one of its causes, whichever, is a connection that the peer closed,
/// reset, aborted or broke, or a TLS message that the peer got wrong. Where none is, it is not.
pub proof fn law_routine_errors_come_from_peers(causes: &[Cause], at: int, dropped: bool)
    requires
        0 <= at < causes@.len(),
        call_ensures(is_routine_connection_error, (causes,), dropped),
    ensures
        causes@[at] matches Cause::Io(kind) ==> (kind is UnexpectedEof || kind is ConnectionAborted
            || kind is ConnectionReset || kind is BrokenPipe) ==> dropped,
        causes@[at] matches Cause::Tls(kind) ==> !(kind is Other) ==> dropped,
        (forall|i: int|
            0 <= i < causes@.len() ==> match #[trigger] causes@[i] {
                Cause::Io(kind) => kind is WriteZero || kind is InvalidData || kind is InvalidInput
                    || kind is NotFound || kind is Other,
                Cause::Tls(kind) => kind is Other,
                Cause::Other => true,
            }) ==> !dropped,
{
    assert(is_routine(causes@[at]) ==> dropped);
    if dropped {
        let i = choose|i: int| 0 <= i < causes@.len() && is_routine(#[trigger] causes@[i]);
        let cause = causes@[i];
        assert(is_routine(cause));
        assert(!(match cause {
            Cause::Io(kind) => kind is WriteZero || kind is InvalidData || kind is InvalidInput
                || kind is NotFound || kind is Other,
            Cause::Tls(kind) => kind is Other,
            Cause::Other => true,
        }));
    }
}

/// A fault is reported as an early end where the peer closed, as a broken pipe where this side
/// has finished, as a short write where nothing could be written, and as invalid data elsewhere.
pub proof fn law_faults_are_reported_by_kind(fault: TransportError, kind: IoErrorKind)
    requires
        call_ensures(TransportError::kind, (fault,), kind),
    ensures
        kind is UnexpectedEof <==> fault is ClosedDuringFrame || fault is ClosedBeforeHeader
            || fault is SidebandClosed || fault is ClosedBeforeBoundary,
        kind is BrokenPipe <==> fault is StreamFinished || fault is SidebandFinished,
        kind is WriteZero <==> fault is FrameNotWritten || fault is HeaderNotWritten
            || fault is TerminatorNotWritten || fault is CountNotWritten,
        kind is InvalidData <==> fault is FrameTooLarge || fault is IncompleteFrame
            || fault is CountTooSmall || fault is CountOverflow || fault is PayloadUnfinished
            || fault is InvalidAcknowledgement,
{
}

/// The words that an error is reported with tell which error it is.
pub proof fn law_words_tell_transport_faults_apart(error: TransportError, text: &str)
    requires
        call_ensures(TransportError::message, (error,), text),
    ensures
        error is ClosedDuringFrame <==> text@ == "reusable transport closed during a data frame"@,
        error is ClosedBeforeHeader <==> text@ == "reusable transport closed before a frame header"@,
        error is FrameTooLarge <==> text@ == "reusable transport data frame is too large"@,
        error is StreamFinished <==> text@ == "reusable transport stream is finished"@,
        error is FrameNotWritten <==> text@ == "could not write reusable transport data frame"@,
        error is HeaderNotWritten <==> text@ == "could not write reusable transport frame header"@,
        error is IncompleteFrame <==> text@ == "cannot finish an incomplete reusable transport frame"@,
        error is TerminatorNotWritten <==> text@ == "could not finish reusable transport stream"@,
        error is SidebandClosed <==> text@ == "sideband closed before the payload byte count"@,
        error is CountTooSmall <==> text@ == "sideband payload byte count is smaller than data already received"@,
        error is ClosedBeforeBoundary <==> text@ == "raw data transport closed before its sideband boundary"@,
        error is CountOverflow <==> text@ == "payload byte count overflow"@,
        error is SidebandFinished <==> text@ == "sideband transport stream is finished"@,
        error is CountNotWritten <==> text@ == "could not write sideband payload byte count"@,
        error is PayloadUnfinished <==> text@ == "sideband transport payload did not finish in both directions"@,
        error is InvalidAcknowledgement <==> text@ == "invalid sideband transport acknowledgement"@,
{
    reveal_strlit("reusable transport closed during a data frame");
    reveal_strlit("reusable transport closed before a frame header");
    reveal_strlit("reusable transport data frame is too large");
    reveal_strlit("reusable transport stream is finished");
    reveal_strlit("could not write reusable transport data frame");
    reveal_strlit("could not write reusable transport frame header");
    reveal_strlit("cannot finish an incomplete reusable transport frame");
    reveal_strlit("could not finish reusable transport stream");
    reveal_strlit("sideband closed before the payload byte count");
    reveal_strlit("sideband payload byte count is smaller than data already received");
    reveal_strlit("raw data transport closed before its sideband boundary");
    reveal_strlit("payload byte count overflow");
    reveal_strlit("sideband transport stream is finished");
    reveal_strlit("could not write sideband payload byte count");
    reveal_strlit("sideband transport payload did not finish in both directions");
    reveal_strlit("invalid sideband transport acknowledgement");
    assert("reusable transport closed during a data frame"@.len() == 45);
    assert("reusable transport closed before a frame header"@.len() == 47);
    assert("reusable transport data frame is too large"@.len() == 42);
    assert("reusable transport stream is finished"@.len() == 37);
    assert("could not write reusable transport data frame"@.len() == 45);
    assert("could not write reusable transport frame header"@.len() == 47);
    assert("cannot finish an incomplete reusable transport frame"@.len() == 52);
    assert("could not finish reusable transport stream"@.len() == 42);
    assert("sideband closed before the payload byte count"@.len() == 45);
    assert("sideband payload byte count is smaller than data already received"@.len() == 65);
    assert("raw data transport closed before its sideband boundary"@.len() == 54);
    assert("payload byte count overflow"@.len() == 27);
    assert("sideband transport stream is finished"@.len() == 37);
    assert("could not write sideband payload byte count"@.len() == 43);
    assert("sideband transport payload did not finish in both directions"@.len() == 60);
    assert("invalid sideband transport acknowledgement"@.len() == 42);
    assert("reusable transport closed during a data frame"@[0] == 'r');
    assert("could not write reusable transport data frame"@[0] == 'c');
    assert("sideband closed before the payload byte count"@[0] == 's');
    assert("reusable transport closed before a frame header"@[0] == 'r');
    assert("could not write reusable transport frame header"@[0] == 'c');
    assert("reusable transport data frame is too large"@[0] == 'r');
    assert("could not finish reusable transport stream"@[0] == 'c');
    assert("invalid sideband transport acknowledgement"@[0] == 'i');
    assert("reusable transport stream is finished"@[0] == 'r');
    assert("sideband transport stream is finished"@[0] == 's');
}

} // verus!
