use vstd::prelude::*;
use vstd::string::*;

verus! {

/// The significant bytes of the principal that `text` spells, or `None` when
/// `text` is not a well-formed principal (bad base32, wrong check sequence,
/// wrong grouping, too short or too long).
pub uninterp spec fn principal_bytes_of(text: Seq<char>) -> Option<Seq<u8>>;

/// Relies on `candid::Principal::from_text` (with `Principal::as_slice`) to
/// parse the textual form of a canister id into its bytes; a principal never
/// has more than 29 bytes, text with too few characters is refused, and
/// every error's `Display` text is non-empty.
#[verifier::external_body]
fn principal_from_text(text: &str) -> (r: Result<Vec<u8>, String>)
    ensures
        match r {
            Ok(b) => principal_bytes_of(text@) == Some(b@) && b@.len() <= 29,
            Err(m) => principal_bytes_of(text@) is None && m@.len() > 0,
        },
        text@.len() == 0 ==> r is Err,
{
    match candid::Principal::from_text(text) {
        Ok(p) => Ok(p.as_slice().to_vec()),
        Err(e) => Err(e.to_string()),
    }
}

/// The identity of a canister, as the bytes of its principal.
pub struct CanisterId {
    bytes: Vec<u8>,
}

impl View for CanisterId {
    type V = Seq<u8>;

    closed spec fn view(&self) -> Seq<u8> {
        self.bytes@
    }
}

impl CanisterId {
    /// A principal holds at most 29 bytes.
    pub closed spec fn wf(&self) -> bool {
        self.bytes@.len() <= 29
    }

    /// The principal's bytes.
    pub fn as_bytes(&self) -> (r: &Vec<u8>)
        ensures
            r@ == self@,
    {
        &self.bytes
    }
}

/// How the system or the remote canister turned a call down.
#[derive(Debug, Clone, Copy, PartialEq, Eq)]
pub enum RejectKind {
    NoError,
    SysFatal,
    SysTransient,
    DestinationInvalid,
    CanisterReject,
    CanisterError,
    Unknown,
}

/// The name under which a rejection kind appears in a failure description.
pub open spec fn kind_label(k: RejectKind) -> Seq<char> {
    match k {
        RejectKind::NoError => seq!['N', 'o', 'E', 'r', 'r', 'o', 'r'],
        RejectKind::SysFatal => seq!['S', 'y', 's', 'F', 'a', 't', 'a', 'l'],
        RejectKind::SysTransient => seq![
            'S', 'y', 's', 'T', 'r', 'a', 'n', 's', 'i', 'e', 'n', 't'
        ],
        RejectKind::DestinationInvalid => seq![
            'D', 'e', 's', 't', 'i', 'n', 'a', 't', 'i', 'o', 'n',
            'I', 'n', 'v', 'a', 'l', 'i', 'd'
        ],
        RejectKind::CanisterReject => seq![
            'C', 'a', 'n', 'i', 's', 't', 'e', 'r', 'R', 'e', 'j', 'e', 'c', 't'
        ],
        RejectKind::CanisterError => seq![
            'C', 'a', 'n', 'i', 's', 't', 'e', 'r', 'E', 'r', 'r', 'o', 'r'
        ],
        RejectKind::Unknown => seq!['U', 'n', 'k', 'n', 'o', 'w', 'n'],
    }
}

/// The prefix of the description of a target that could not be resolved.
pub open spec fn invalid_target_label() -> Seq<char> {
    seq![
        'I', 'n', 'v', 'a', 'l', 'i', 'd', 'T', 'a', 'r', 'g', 'e', 't'
    ]
}

fn kind_str(k: RejectKind) -> (r: &'static str)
    ensures
        r@ == kind_label(k),
{
    proof {
        reveal_strlit("NoError");
        reveal_strlit("SysFatal");
        reveal_strlit("SysTransient");
        reveal_strlit("DestinationInvalid");
        reveal_strlit("CanisterReject");
        reveal_strlit("CanisterError");
        reveal_strlit("Unknown");
    }
    match k {
        RejectKind::NoError => "NoError",
        RejectKind::SysFatal => "SysFatal",
        RejectKind::SysTransient => "SysTransient",
        RejectKind::DestinationInvalid => "DestinationInvalid",
        RejectKind::CanisterReject => "CanisterReject",
        RejectKind::CanisterError => "CanisterError",
        RejectKind::Unknown => "Unknown",
    }
}

/// Why a call to another canister produced no reply.
#[derive(Debug, PartialEq, Eq)]
pub enum CallError {
    /// The target's textual id is not a well-formed principal; the text says
    /// what is wrong with it.
    InvalidTarget(String),
    /// The system or the remote canister rejected the call, or its reply could
    /// not be decoded.
    Rejected { kind: RejectKind, message: String },
}

/// What a failure is reported as: its label, `: `, then its cause.
pub open spec fn failure_text(e: CallError) -> Seq<char> {
    match e {
        CallError::InvalidTarget(m) => invalid_target_label() + seq![':', ' '] + m@,
        CallError::Rejected { kind, message } => kind_label(kind) + seq![':', ' '] + message@,
    }
}

/// The cause that a failure carries.
pub open spec fn failure_cause(e: CallError) -> Seq<char> {
    match e {
        CallError::InvalidTarget(m) => m@,
        CallError::Rejected { message, .. } => message@,
    }
}

/// The result a call ends with, given what came back: the remote's own
/// result, or the description of the failure.
pub open spec fn settled(reply: Result<Result<String, String>, CallError>) -> Result<
    Seq<char>,
    Seq<char>,
> {
    match reply {
        Ok(Ok(t)) => Ok(t@),
        Ok(Err(t)) => Err(t@),
        Err(e) => Err(failure_text(e)),
    }
}

/// The view of a text result.
pub open spec fn text_result(r: Result<String, String>) -> Result<Seq<char>, Seq<char>> {
    match r {
        Ok(t) => Ok(t@),
        Err(t) => Err(t@),
    }
}

impl CallError {
    /// The human-readable description of the failure.
    pub fn description(&self) -> (r: String)
        ensures
            r@ == failure_text(*self),
    {
        let mut t = match self {
            CallError::InvalidTarget(_) => String::from_str("InvalidTarget"),
            CallError::Rejected { kind, .. } => String::from_str(kind_str(*kind)),
        };
        t.append(": ");
        match self {
            CallError::InvalidTarget(m) => t.append(m.as_str()),
            CallError::Rejected { message, .. } => t.append(message.as_str()),
        }
        proof {
            reveal_strlit("InvalidTarget");
            reveal_strlit(": ");
            assert(t@ =~= failure_text(*self));
        }
        t
    }
}

/// Resolves the textual id of the canister to call.
pub fn resolve_target(text: &str) -> (r: Result<CanisterId, CallError>)
    ensures
        match r {
            Ok(id) => id.wf() && principal_bytes_of(text@) == Some(id@),
            Err(CallError::InvalidTarget(m)) => principal_bytes_of(text@) is None && m@.len()
                > 0,
            Err(_) => false,
        },
        text@.len() == 0 ==> r is Err,
{
    match principal_from_text(text) {
        Ok(bytes) => Ok(CanisterId { bytes }),
        Err(m) => Err(CallError::InvalidTarget(m)),
    }
}

/// Turns what a call came back with into the caller's result: the remote's
/// result as it is, or `Err` with the description of the failure.
pub fn settle_reply(reply: Result<Result<String, String>, CallError>) -> (r: Result<
    String,
    String,
>)
    ensures
        text_result(r) == settled(reply),
{
    match reply {
        Ok(inner) => inner,
        Err(e) => Err(e.description()),
    }
}

/// A failed call never ends the caller: whatever went wrong, the call settles
/// to `Err`, and its text names the kind of failure and then carries the cause
/// unchanged.
pub proof fn lemma_failure_settles_to_described_err(e: CallError)
    ensures
        settled(Err(e)) is Err,
        settled(Err(e))->Err_0 == failure_text(e),
        failure_text(e).len() > failure_cause(e).len(),
        failure_text(e).subrange(
            failure_text(e).len() - failure_cause(e).len(),
            failure_text(e).len() as int,
        ) == failure_cause(e),
{
    let t = failure_text(e);
    let c = failure_cause(e);
    assert(t.subrange(t.len() - c.len(), t.len() as int) =~= c);
}

} // verus!
