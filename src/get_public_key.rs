use vstd::prelude::*;
use crate::address::{address_of, format_address, lemma_address_marker, ADDRESS_MARKER};
use crate::path::{parse_path, parsed_path};
use crate::status::AppSW;

verus! {

/// Length of a chain code, also sent as its length prefix.
pub const CHAINCODE_LEN: u8 = 32;

/// Where a public-key request stands.
#[derive(Debug, PartialEq, Eq)]
pub enum Stage {
    /// Waiting for the request payload.
    ParsingInput,
    /// Waiting for the derived key; `chain_id` is present when the address is
    /// to be shown.
    Deriving { chain_id: Option<u32> },
    /// Waiting for the digest of the public key's coordinates.
    AwaitingDigest { public_key: Vec<u8>, chain_code: Option<[u8; 32]>, shown_chain_id: u32 },
    /// Waiting for the user to approve or deny the shown address.
    AwaitingUserConfirmation { public_key: Vec<u8>, chain_code: Option<[u8; 32]> },
    /// The response was produced.
    Done,
    /// The request ended with an error.
    Failed(AppSW),
}

/// What the surrounding device code reports back.
#[derive(Debug, PartialEq, Eq)]
pub enum Event {
    /// The request payload.
    RequestData(Vec<u8>),
    /// The payload could not be read.
    TransportFailed,
    /// The derivation gave a public key and, possibly, a chain code.
    Derived { public_key: Vec<u8>, chain_code: Option<[u8; 32]> },
    /// The derivation failed.
    DeriveFailed,
    /// The 256-bit digest of the bytes handed out with `Action::Hash`.
    Digest([u8; 32]),
    /// The user's answer: `true` approves.
    Decision(bool),
}

/// What the surrounding device code is asked to do next.
#[derive(Debug, PartialEq, Eq)]
pub enum Action {
    /// Derive the key pair at this path, and drop the private key at once.
    Derive(Vec<u32>),
    /// Hash these bytes.
    Hash(Vec<u8>),
    /// Show this address and chain id and ask the user.
    Confirm { address: [u8; 20], chain_id: u32 },
    /// Send these bytes as the response.
    Respond(Vec<u8>),
    /// End the request with this status.
    Fail(AppSW),
    /// Nothing: the event does not belong to the current stage.
    Idle,
}

/// A derived key can be answered with: its length fits the one-byte prefix,
/// it has a format byte in front of its coordinates, and a chain code came
/// along if one is to be returned.
pub open spec fn key_usable(public_key: Seq<u8>, chain_code: Option<[u8; 32]>, return_chain_code: bool) -> bool {
    &&& 1 <= public_key.len() <= 255
    &&& return_chain_code ==> chain_code is Some
}

/// The response: the length-prefixed public key, then, when asked for, the
/// length-prefixed chain code.
pub open spec fn response_of(public_key: Seq<u8>, chain_code: Option<[u8; 32]>, return_chain_code: bool) -> Seq<u8> {
    let key_part = seq![public_key.len() as u8] + public_key;
    if return_chain_code && chain_code is Some {
        key_part + seq![CHAINCODE_LEN] + chain_code->0@
    } else {
        key_part
    }
}

/// One public-key request, from payload to response.
pub struct PublicKeyRequest {
    pub display: bool,
    pub return_chain_code: bool,
    pub stage: Stage,
}

impl PublicKeyRequest {
    /// The stage agrees with the request's flags: a chain id is carried
    /// exactly when the address is shown, and a key waiting for the user is
    /// one that can be answered with.
    pub open spec fn wf(&self) -> bool {
        match self.stage {
            Stage::Deriving { chain_id } => (chain_id is Some) == self.display,
            Stage::AwaitingDigest { public_key, chain_code, .. } => self.display && key_usable(
                public_key@,
                chain_code,
                self.return_chain_code,
            ),
            Stage::AwaitingUserConfirmation { public_key, chain_code } => self.display
                && key_usable(public_key@, chain_code, self.return_chain_code),
            _ => true,
        }
    }

    /// The move from the current stage on `event` to stage `next` with
    /// `action`.
    pub open spec fn steps_to(&self, event: Event, next: Stage, action: Action) -> bool {
        match self.stage {
            Stage::ParsingInput => match event {
                Event::RequestData(data) => match parsed_path(data@, self.display) {
                    Some((path, chain_id)) => {
                        &&& next == (Stage::Deriving { chain_id })
                        &&& action matches Action::Derive(p) && p@ == path
                    },
                    None => next == Stage::Failed(AppSW::WrongApduLength) && action == Action::Fail(
                        AppSW::WrongApduLength,
                    ),
                },
                Event::TransportFailed => next == Stage::Failed(AppSW::WrongApduLength) && action
                    == Action::Fail(AppSW::WrongApduLength),
                _ => next == self.stage && action == Action::Idle,
            },
            Stage::Deriving { chain_id } => match event {
                Event::Derived { public_key, chain_code } => if !key_usable(
                    public_key@,
                    chain_code,
                    self.return_chain_code,
                ) {
                    next == Stage::Failed(AppSW::KeyDeriveFail) && action == Action::Fail(
                        AppSW::KeyDeriveFail,
                    )
                } else if chain_id is Some {
                    &&& next matches Stage::AwaitingDigest { public_key: pk, chain_code: cc, shown_chain_id: c }
                    &&& pk@ == public_key@ && cc == chain_code && c == chain_id->0
                    &&& action matches Action::Hash(h) && h@ == public_key@.drop_first()
                } else {
                    &&& next == Stage::Done
                    &&& action matches Action::Respond(r) && r@ == response_of(
                        public_key@,
                        chain_code,
                        self.return_chain_code,
                    )
                },
                Event::DeriveFailed => next == Stage::Failed(AppSW::KeyDeriveFail) && action
                    == Action::Fail(AppSW::KeyDeriveFail),
                _ => next == self.stage && action == Action::Idle,
            },
            Stage::AwaitingDigest { public_key, chain_code, shown_chain_id } => match event {
                Event::Digest(hash) => {
                    &&& next matches Stage::AwaitingUserConfirmation { public_key: pk, chain_code: cc }
                    &&& pk@ == public_key@ && cc == chain_code
                    &&& action matches Action::Confirm { address, chain_id: c }
                    &&& address@ == address_of(hash@) && c == shown_chain_id
                },
                _ => next == self.stage && action == Action::Idle,
            },
            Stage::AwaitingUserConfirmation { public_key, chain_code } => match event {
                Event::Decision(true) => {
                    &&& next == Stage::Done
                    &&& action matches Action::Respond(r) && r@ == response_of(
                        public_key@,
                        chain_code,
                        self.return_chain_code,
                    )
                },
                Event::Decision(false) => next == Stage::Failed(AppSW::Deny) && action
                    == Action::Fail(AppSW::Deny),
                _ => next == self.stage && action == Action::Idle,
            },
            _ => next == self.stage && action == Action::Idle,
        }
    }
}

/// Appends `bytes` to `out`.
fn append(out: &mut Vec<u8>, bytes: &[u8])
    ensures
        final(out)@ == old(out)@ + bytes@,
{
    let mut i: usize = 0;
    while i < bytes.len()
        invariant
            i <= bytes@.len(),
            out@ == old(out)@ + bytes@.subrange(0, i as int),
        decreases bytes@.len() - i,
    {
        out.push(bytes[i]);
        i += 1;
        assert(bytes@.subrange(0, i as int) =~= bytes@.subrange(0, i - 1) + seq![bytes@[i - 1]]);
    }
    assert(bytes@.subrange(0, i as int) =~= bytes@);
}

/// The public key's coordinate bytes: all but its leading format byte.
fn coordinates(public_key: &[u8]) -> (r: Vec<u8>)
    requires
        public_key@.len() >= 1,
    ensures
        r@ == public_key@.drop_first(),
{
    let mut out: Vec<u8> = Vec::new();
    let mut i: usize = 1;
    while i < public_key.len()
        invariant
            1 <= i <= public_key@.len(),
            out@ == public_key@.subrange(1, i as int),
        decreases public_key@.len() - i,
    {
        out.push(public_key[i]);
        i += 1;
        assert(public_key@.subrange(1, i as int) =~= public_key@.subrange(1, i - 1) + seq![public_key@[i - 1]]);
    }
    assert(public_key@.subrange(1, i as int) =~= public_key@.drop_first());
    out
}

/// Lays out the response to a public-key request.
pub fn build_response(public_key: &[u8], chain_code: Option<[u8; 32]>, return_chain_code: bool) -> (r: Vec<u8>)
    requires
        key_usable(public_key@, chain_code, return_chain_code),
    ensures
        r@ == response_of(public_key@, chain_code, return_chain_code),
{
    let mut out: Vec<u8> = Vec::new();
    out.push(public_key.len() as u8);
    append(&mut out, public_key);
    if return_chain_code {
        if let Some(code) = chain_code {
            out.push(CHAINCODE_LEN);
            append(&mut out, &code);
        }
    }
    out
}

impl PublicKeyRequest {
    /// A fresh request, waiting for its payload.
    pub fn new(display: bool, return_chain_code: bool) -> (r: Self)
        ensures
            r.display == display,
            r.return_chain_code == return_chain_code,
            r.stage == Stage::ParsingInput,
            r.wf(),
    {
        PublicKeyRequest { display, return_chain_code, stage: Stage::ParsingInput }
    }

    /// Moves the request on by one event and says what to do next.
    pub fn step(&mut self, event: Event) -> (action: Action)
        requires
            old(self).wf(),
        ensures
            final(self).display == old(self).display,
            final(self).return_chain_code == old(self).return_chain_code,
            final(self).wf(),
            old(self).steps_to(event, final(self).stage, action),
    {
        let mut stage = Stage::Done;
        std::mem::swap(&mut self.stage, &mut stage);
        let ghost prev = stage;
        let (next, action) = match stage {
            Stage::ParsingInput => match event {
                Event::RequestData(data) => match parse_path(data.as_slice(), self.display) {
                    Ok(req) => (Stage::Deriving { chain_id: req.chain_id }, Action::Derive(req.path)),
                    Err(e) => (Stage::Failed(e), Action::Fail(e)),
                },
                Event::TransportFailed => (
                    Stage::Failed(AppSW::WrongApduLength),
                    Action::Fail(AppSW::WrongApduLength),
                ),
                _ => (Stage::ParsingInput, Action::Idle),
            },
            Stage::Deriving { chain_id } => match event {
                Event::Derived { public_key, chain_code } => {
                    if public_key.len() < 1 || public_key.len() > 255 || (self.return_chain_code
                        && chain_code.is_none()) {
                        (Stage::Failed(AppSW::KeyDeriveFail), Action::Fail(AppSW::KeyDeriveFail))
                    } else {
                        match chain_id {
                            Some(c) => {
                                let coords = coordinates(public_key.as_slice());
                                (
                                    Stage::AwaitingDigest { public_key, chain_code, shown_chain_id: c },
                                    Action::Hash(coords),
                                )
                            },
                            None => {
                                let r = build_response(public_key.as_slice(), chain_code, self.return_chain_code);
                                (Stage::Done, Action::Respond(r))
                            },
                        }
                    }
                },
                Event::DeriveFailed => (
                    Stage::Failed(AppSW::KeyDeriveFail),
                    Action::Fail(AppSW::KeyDeriveFail),
                ),
                _ => (Stage::Deriving { chain_id }, Action::Idle),
            },
            Stage::AwaitingDigest { public_key, chain_code, shown_chain_id } => match event {
                Event::Digest(hash) => {
                    let address = format_address(&hash);
                    (
                        Stage::AwaitingUserConfirmation { public_key, chain_code },
                        Action::Confirm { address, chain_id: shown_chain_id },
                    )
                },
                _ => (Stage::AwaitingDigest { public_key, chain_code, shown_chain_id }, Action::Idle),
            },
            Stage::AwaitingUserConfirmation { public_key, chain_code } => match event {
                Event::Decision(true) => {
                    let r = build_response(public_key.as_slice(), chain_code, self.return_chain_code);
                    (Stage::Done, Action::Respond(r))
                },
                Event::Decision(false) => (Stage::Failed(AppSW::Deny), Action::Fail(AppSW::Deny)),
                _ => (Stage::AwaitingUserConfirmation { public_key, chain_code }, Action::Idle),
            },
            Stage::Done => (Stage::Done, Action::Idle),
            Stage::Failed(e) => (Stage::Failed(e), Action::Idle),
        };
        self.stage = next;
        action
    }
}

/// When the address is to be shown, a response, and so any key or chain-code
/// byte, comes only from the user's approval; a denial ends the request with
/// `Deny` and nothing else.
pub proof fn lemma_denial_sends_no_key(req: PublicKeyRequest, event: Event, next: Stage, action: Action)
    requires
        req.wf(),
        req.display,
        req.steps_to(event, next, action),
    ensures
        action is Respond ==> req.stage is AwaitingUserConfirmation && event == Event::Decision(true),
        req.stage is AwaitingUserConfirmation && event == Event::Decision(false) ==> action
            == Action::Fail(AppSW::Deny) && next == Stage::Failed(AppSW::Deny),
{
}

/// When the address is not to be shown, the user is never asked.
pub proof fn lemma_no_confirmation_without_display(req: PublicKeyRequest, event: Event, next: Stage, action: Action)
    requires
        req.wf(),
        !req.display,
        req.steps_to(event, next, action),
    ensures
        !(action is Confirm),
        !(action is Hash),
        !(next is AwaitingUserConfirmation),
{
}

/// The address shown to the user is the one cut from the digest of the key,
/// carries the network marker, and is shown with the chain id of the request.
pub proof fn lemma_shown_address(req: PublicKeyRequest, hash: [u8; 32], next: Stage, action: Action)
    requires
        req.wf(),
        req.stage is AwaitingDigest,
        req.steps_to(Event::Digest(hash), next, action),
    ensures
        action matches Action::Confirm { address, chain_id } && address@ == address_of(hash@)
            && chain_id == req.stage->shown_chain_id && address@[0] >> 4u8 == ADDRESS_MARKER >> 4u8,
{
    lemma_address_marker(hash@, hash@);
}

/// Without display, a usable derived key is answered at once with the
/// length-prefixed key and, when asked for, the length-prefixed chain code.
pub proof fn lemma_no_display_response(
    req: PublicKeyRequest,
    public_key: Vec<u8>,
    chain_code: Option<[u8; 32]>,
    next: Stage,
    action: Action,
)
    requires
        req.wf(),
        !req.display,
        req.stage is Deriving,
        key_usable(public_key@, chain_code, req.return_chain_code),
        req.steps_to(Event::Derived { public_key, chain_code }, next, action),
    ensures
        next == Stage::Done,
        action matches Action::Respond(r) && r@ == response_of(public_key@, chain_code, req.return_chain_code),
        req.return_chain_code ==> response_of(public_key@, chain_code, true) == seq![public_key@.len() as u8] + public_key@ + seq![CHAINCODE_LEN] + chain_code->0@,
{
}

} // verus!
