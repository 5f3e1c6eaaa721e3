//! The ways in which talking to a controller can fail.

use crate::text;
use vstd::prelude::*;
use vstd::string::StringExecFns;

verus! {

/// A transfer over a USB pipe that did not succeed.
#[derive(Clone, Copy, Debug, PartialEq, Eq, Structural)]
pub enum PipeError {
    /// The packet does not fit in the buffer.
    BufferOverflow,
    /// A framing error on the bus.
    BadResponse,
    /// The device sent more than it was asked for.
    Babble,
    /// The data toggle of host and device disagree.
    DataToggleError,
    /// The transfer was given up.
    Canceled,
    /// The endpoint is stalled.
    Stall,
    /// The device did not answer in time.
    Timeout,
    /// The device was unplugged.
    Disconnected,
}

impl PipeError {
    /// The name of the error.
    pub open spec fn name(self) -> Seq<char> {
        match self {
            PipeError::BufferOverflow => "BufferOverflow"@,
            PipeError::BadResponse => "BadResponse"@,
            PipeError::Babble => "Babble"@,
            PipeError::DataToggleError => "DataToggleError"@,
            PipeError::Canceled => "Canceled"@,
            PipeError::Stall => "Stall"@,
            PipeError::Timeout => "Timeout"@,
            PipeError::Disconnected => "Disconnected"@,
        }
    }

    /// The name of the error.
    pub fn as_str(&self) -> (s: &'static str)
        ensures
            s@ == self.name(),
    {
        match self {
            PipeError::BufferOverflow => "BufferOverflow",
            PipeError::BadResponse => "BadResponse",
            PipeError::Babble => "Babble",
            PipeError::DataToggleError => "DataToggleError",
            PipeError::Canceled => "Canceled",
            PipeError::Stall => "Stall",
            PipeError::Timeout => "Timeout",
            PipeError::Disconnected => "Disconnected",
        }
    }
}

/// What can go wrong in the driver for human interface devices.
#[derive(Clone, Copy, Debug, PartialEq, Eq, Structural)]
pub enum HidError {
    /// A transfer failed.
    Transfer(PipeError),
    /// The device has no such interface.
    NoInterface,
    /// There is no free pipe.
    NoPipe,
}

/// What can go wrong while a device is being enumerated.
#[derive(Clone, Copy, Debug, PartialEq, Eq, Structural)]
pub enum EnumerationError {
    /// A transfer failed.
    Transfer(PipeError),
    /// The device sent a descriptor that makes no sense.
    InvalidDescriptor,
    /// The configuration descriptor needs this many bytes.
    ConfigBufferTooSmall(usize),
    /// There is no free pipe or no free address.
    NoPipe,
    /// The device did not answer.
    RequestFailed,
}

impl EnumerationError {
    /// The name of the error, with what it carries in round brackets.
    pub open spec fn text(self) -> Seq<char> {
        match self {
            EnumerationError::Transfer(e) => "Transfer("@ + e.name() + ")"@,
            EnumerationError::InvalidDescriptor => "InvalidDescriptor"@,
            EnumerationError::ConfigBufferTooSmall(n) => "ConfigBufferTooSmall("@ + text::decimal(
                n as nat,
            ) + ")"@,
            EnumerationError::NoPipe => "NoPipe"@,
            EnumerationError::RequestFailed => "RequestFailed"@,
        }
    }

    /// Appends the name of the error, with what it carries in round brackets.
    pub fn push_to(&self, out: &mut String)
        ensures
            final(out)@ == old(out)@ + self.text(),
    {
        match self {
            EnumerationError::Transfer(e) => {
                out.append("Transfer(");
                out.append(e.as_str());
                out.append(")");
            },
            EnumerationError::InvalidDescriptor => {
                out.append("InvalidDescriptor");
            },
            EnumerationError::ConfigBufferTooSmall(n) => {
                out.append("ConfigBufferTooSmall(");
                text::push_decimal(out, *n as u64);
                out.append(")");
            },
            EnumerationError::NoPipe => {
                out.append("NoPipe");
            },
            EnumerationError::RequestFailed => {
                out.append("RequestFailed");
            },
        }
        assert(out@ =~= old(out)@ + self.text());
    }
}

/// What can go wrong with a controller, whatever its protocol.
#[derive(Clone, Copy, Debug, PartialEq, Eq, Structural)]
pub enum GamepadError {
    /// A transfer failed; [`PipeError::Disconnected`] when the device was unplugged.
    Transfer(PipeError),
    /// The device is none that this driver handles, or it cannot do what was asked of it.
    NotSupported,
    /// There is no free pipe.
    NoPipe,
}

impl From<PipeError> for GamepadError {
    fn from(e: PipeError) -> (r: Self) {
        GamepadError::Transfer(e)
    }
}

impl vstd::std_specs::convert::FromSpecImpl<PipeError> for GamepadError {
    open spec fn obeys_from_spec() -> bool {
        true
    }

    open spec fn from_spec(e: PipeError) -> Self {
        GamepadError::Transfer(e)
    }
}

impl From<HidError> for GamepadError {
    fn from(e: HidError) -> (r: Self) {
        match e {
            HidError::Transfer(e) => GamepadError::Transfer(e),
            HidError::NoInterface => GamepadError::NotSupported,
            HidError::NoPipe => GamepadError::NoPipe,
        }
    }
}

impl vstd::std_specs::convert::FromSpecImpl<HidError> for GamepadError {
    open spec fn obeys_from_spec() -> bool {
        true
    }

    open spec fn from_spec(e: HidError) -> Self {
        match e {
            HidError::Transfer(e) => GamepadError::Transfer(e),
            HidError::NoInterface => GamepadError::NotSupported,
            HidError::NoPipe => GamepadError::NoPipe,
        }
    }
}

impl GamepadError {
    /// The message for people.
    pub open spec fn text(self) -> Seq<char> {
        match self {
            GamepadError::Transfer(e) => "Transfer error: "@ + e.name(),
            GamepadError::NotSupported => "Unsupported device"@,
            GamepadError::NoPipe => "No free pipe"@,
        }
    }

    /// The message for people.
    pub fn to_string(&self) -> (s: String)
        ensures
            s@ == self.text(),
    {
        let mut out = String::new();
        match self {
            GamepadError::Transfer(e) => {
                out.append("Transfer error: ");
                out.append(e.as_str());
            },
            GamepadError::NotSupported => {
                out.append("Unsupported device");
            },
            GamepadError::NoPipe => {
                out.append("No free pipe");
            },
        }
        assert(out@ =~= self.text());
        out
    }
}

// ── Laws ─────────────────────────────────────────────────────────────────────

/// The length of the name tells the errors apart.
proof fn lemma_name_lengths(e: PipeError)
    ensures
        e.name().len() == (match e {
            PipeError::BufferOverflow => 14nat,
            PipeError::BadResponse => 11,
            PipeError::Babble => 6,
            PipeError::DataToggleError => 15,
            PipeError::Canceled => 8,
            PipeError::Stall => 5,
            PipeError::Timeout => 7,
            PipeError::Disconnected => 12,
        }),
{
    reveal_strlit("BufferOverflow");
    reveal_strlit("BadResponse");
    reveal_strlit("Babble");
    reveal_strlit("DataToggleError");
    reveal_strlit("Canceled");
    reveal_strlit("Stall");
    reveal_strlit("Timeout");
    reveal_strlit("Disconnected");
}

/// Different transfer errors have different names.
pub proof fn lemma_names_are_faithful(e: PipeError, f: PipeError)
    ensures
        e.name() == f.name() <==> e == f,
{
    lemma_name_lengths(e);
    lemma_name_lengths(f);
}

/// Different errors have different messages: the message of a failed transfer names its
/// cause.
pub proof fn lemma_messages_are_faithful(e: GamepadError, f: GamepadError)
    ensures
        e.text() == f.text() <==> e == f,
{
    reveal_strlit("Transfer error: ");
    reveal_strlit("Unsupported device");
    reveal_strlit("No free pipe");
    assert(e.text()[0] == (match e {
        GamepadError::Transfer(_) => 'T',
        GamepadError::NotSupported => 'U',
        GamepadError::NoPipe => 'N',
    }));
    assert(f.text()[0] == (match f {
        GamepadError::Transfer(_) => 'T',
        GamepadError::NotSupported => 'U',
        GamepadError::NoPipe => 'N',
    }));
    if let (GamepadError::Transfer(a), GamepadError::Transfer(b)) = (e, f) {
        lemma_names_are_faithful(a, b);
        if e.text() == f.text() {
            text::lemma_same_lengths("Transfer error: "@, a.name(), "Transfer error: "@, b.name());
        }
    }
}

/// Different enumeration errors have different texts: what an error carries can be read
/// back.
pub proof fn lemma_texts_are_faithful(e: EnumerationError, f: EnumerationError)
    ensures
        e.text() == f.text() <==> e == f,
{
    reveal_strlit("Transfer(");
    reveal_strlit("InvalidDescriptor");
    reveal_strlit("ConfigBufferTooSmall(");
    reveal_strlit("NoPipe");
    reveal_strlit("RequestFailed");
    reveal_strlit(")");
    assert(e.text()[0] == (match e {
        EnumerationError::Transfer(_) => 'T',
        EnumerationError::InvalidDescriptor => 'I',
        EnumerationError::ConfigBufferTooSmall(_) => 'C',
        EnumerationError::NoPipe => 'N',
        EnumerationError::RequestFailed => 'R',
    }));
    assert(f.text()[0] == (match f {
        EnumerationError::Transfer(_) => 'T',
        EnumerationError::InvalidDescriptor => 'I',
        EnumerationError::ConfigBufferTooSmall(_) => 'C',
        EnumerationError::NoPipe => 'N',
        EnumerationError::RequestFailed => 'R',
    }));
    if e.text() == f.text() {
        if let (EnumerationError::Transfer(a), EnumerationError::Transfer(b)) = (e, f) {
            text::lemma_regroup("Transfer("@, a.name(), ")"@);
            text::lemma_regroup("Transfer("@, b.name(), ")"@);
            text::lemma_same_lengths("Transfer("@, a.name() + ")"@, "Transfer("@, b.name() + ")"@);
            assert((a.name() + ")"@).len() == a.name().len() + 1);
            assert((b.name() + ")"@).len() == b.name().len() + 1);
            lemma_name_lengths(a);
            lemma_name_lengths(b);
        }
        if let (
            EnumerationError::ConfigBufferTooSmall(m),
            EnumerationError::ConfigBufferTooSmall(n),
        ) = (e, f) {
            let (a, b) = (text::decimal(m as nat), text::decimal(n as nat));
            let k = "ConfigBufferTooSmall("@;
            text::lemma_regroup(k, a, ")"@);
            text::lemma_regroup(k, b, ")"@);
            text::lemma_same_lengths(k, a + ")"@, k, b + ")"@);
            assert((a + ")"@).len() == a.len() + 1);
            assert((b + ")"@).len() == b.len() + 1);
            text::lemma_same_lengths(a, ")"@, b, ")"@);
            text::lemma_decimal_is_faithful(m as nat, n as nat);
        }
    }
}

/// A failed transfer stays one, with its cause, whichever layer it comes from; a missing
/// interface means that the device is not supported, a missing pipe stays one.
pub proof fn lemma_causes_are_kept(e: PipeError, h: HidError)
    ensures
        <GamepadError as vstd::std_specs::convert::FromSpec<PipeError>>::from_spec(e)
            == GamepadError::Transfer(e),
        ({
            let g = <GamepadError as vstd::std_specs::convert::FromSpec<HidError>>::from_spec(h);
            &&& forall|p: PipeError| #![auto]
                g == GamepadError::Transfer(p) <==> h == HidError::Transfer(p)
            &&& g == GamepadError::NotSupported <==> h == HidError::NoInterface
            &&& g == GamepadError::NoPipe <==> h == HidError::NoPipe
        }),
{
}

} // verus!
