//! Login state: login start, encryption exchange, compression, success.
//!
//! Online-mode authentication is optional: with a premium identity the session
//! server is joined before the encryption request is answered. Without it,
//! clients log in as offline-mode users (all-zero UUID).
use crate::error::{protocol_error, MineRiderError};
use crate::minecraft::text::to_chars;
use crate::text_build::{append_hex, debug_text, hex, quoted};
use vstd::prelude::*;

verus! {

/// Safety bound on packets read during login.
pub const MAX_LOGIN_PACKETS: usize = 64;

/// Result of a successful login: the identity the server assigned.
#[derive(Debug)]
pub struct LoginSuccess {
    /// UUID assigned by the server.
    pub uuid: u128,
    /// Username confirmed by the server.
    pub username: String,
}

/// Who logs in with an account.
#[derive(Debug)]
pub struct PremiumIdentity {
    pub uuid: u128,
    pub username: String,
}

/// The first packet of the login state.
#[derive(Debug)]
pub struct PacketLoginStart {
    pub username: String,
    pub player_uuid: u128,
}

/// A letter, a digit or an underscore.
pub open spec fn is_name_char(c: char) -> bool {
    ||| 'a' <= c <= 'z'
    ||| 'A' <= c <= 'Z'
    ||| '0' <= c <= '9'
    ||| c == '_'
}

/// A name of three to sixteen letters, digits or underscores.
pub open spec fn is_username(s: Seq<char>) -> bool {
    &&& 3 <= s.len() <= 16
    &&& forall|i: int| 0 <= i < s.len() ==> is_name_char(#[trigger] s[i])
}

/// Vanilla's offline/legacy username rule: 3-16 ASCII letters, digits or
/// underscores.
pub fn is_valid_username(username: &str) -> (b: bool)
    ensures
        b == is_username(username@),
{
    let chars = to_chars(username);
    if chars.len() < 3 || chars.len() > 16 {
        return false;
    }
    let mut i: usize = 0;
    while i < chars.len()
        invariant
            i <= chars@.len(),
            chars@ == username@,
            forall|k: int| 0 <= k < i ==> is_name_char(#[trigger] chars@[k]),
        decreases chars@.len() - i,
    {
        let c = chars[i];
        if !(('a' <= c && c <= 'z') || ('A' <= c && c <= 'Z') || ('0' <= c && c <= '9') || c
            == '_') {
            assert(!is_name_char(username@[i as int]));
            return false;
        }
        i += 1;
    }
    true
}

/// How a name that does not fit is reported.
pub open spec fn bad_username_text(username: Seq<char>) -> Seq<char> {
    "invalid username "@ + debug_text(username)
        + ": must be 3-16 characters, letters/digits/underscore only"@
}

/// How a name that does not fit is reported.
pub fn bad_username(username: &str) -> (s: String)
    ensures
        s@ == bad_username_text(username@),
{
    let mut text: String = "invalid username ".to_owned();
    text.append(quoted(username).as_str());
    text.append(": must be 3-16 characters, letters/digits/underscore only");
    text
}

/// The packet that opens the login: the account's identity where there is one,
/// otherwise the name with an all-zero UUID.
pub fn login_start(username: &str, premium: Option<&PremiumIdentity>) -> (res: Result<
    PacketLoginStart,
    MineRiderError,
>)
    ensures
        match premium {
            Some(identity) => res matches Ok(p) && p.username@ == identity.username@
                && p.player_uuid == identity.uuid,
            None => match res {
                Ok(p) => is_username(username@) && p.username@ == username@ && p.player_uuid == 0,
                Err(e) => !is_username(username@) && e.is_protocol(bad_username_text(username@)),
            },
        },
{
    match premium {
        Some(identity) => Ok(
            PacketLoginStart { username: identity.username.clone(), player_uuid: identity.uuid },
        ),
        None => {
            if !is_valid_username(username) {
                return Err(MineRiderError::Protocol(bad_username(username)));
            }
            Ok(PacketLoginStart { username: username.to_owned(), player_uuid: 0 })
        },
    }
}

/// A request to encrypt the connection.
#[derive(Debug)]
pub struct PacketEncryptionBegin {
    pub server_id: String,
    pub public_key: Vec<u8>,
    pub verify_token: Vec<u8>,
    pub should_authenticate: bool,
}

/// A packet of the login state, decoded.
#[derive(Debug)]
pub enum LoginClientbound {
    Disconnect { reason: String },
    EncryptionBegin(PacketEncryptionBegin),
    Success { uuid: u128, username: String },
    Compress { threshold: i32 },
    PluginRequest { message_id: i32, channel: String },
    Other { id: i32 },
}

/// What the client does next.
#[derive(Debug)]
pub enum LoginAction {
    /// Do what [`encryption_steps`] lists.
    Encrypt(PacketEncryptionBegin),
    /// Acknowledge, and go on to the configuration state.
    Finish(LoginSuccess),
    /// Compress packets from this size on.
    SetCompression(i32),
    /// Answer that the request is not understood.
    RefusePlugin { message_id: i32 },
    /// Give up.
    Fail(MineRiderError),
}

/// What becomes of a packet of the login state.
pub open spec fn login_reaction(packet: LoginClientbound, action: LoginAction) -> bool {
    match packet {
        LoginClientbound::Disconnect { reason } => action matches LoginAction::Fail(e)
            && e.is_disconnected(reason@),
        LoginClientbound::EncryptionBegin(request) => action == LoginAction::Encrypt(request),
        LoginClientbound::Success { uuid, username } => action == LoginAction::Finish(
            LoginSuccess { uuid, username },
        ),
        LoginClientbound::Compress { threshold } => action == LoginAction::SetCompression(threshold),
        LoginClientbound::PluginRequest { message_id, .. } => action == (
        LoginAction::RefusePlugin { message_id }),
        LoginClientbound::Other { id } => action matches LoginAction::Fail(e) && e.is_protocol(
            "unexpected clientbound login packet id 0x"@ + hex(id),
        ),
    }
}

/// Decides what becomes of a packet of the login state.
pub fn react(packet: LoginClientbound) -> (action: LoginAction)
    ensures
        login_reaction(packet, action),
{
    match packet {
        LoginClientbound::Disconnect { reason } => LoginAction::Fail(
            MineRiderError::Disconnected(reason),
        ),
        LoginClientbound::EncryptionBegin(request) => LoginAction::Encrypt(request),
        LoginClientbound::Success { uuid, username } => LoginAction::Finish(
            LoginSuccess { uuid, username },
        ),
        LoginClientbound::Compress { threshold } => LoginAction::SetCompression(threshold),
        LoginClientbound::PluginRequest { message_id, .. } => LoginAction::RefusePlugin {
            message_id,
        },
        LoginClientbound::Other { id } => {
            let mut text: String = "unexpected clientbound login packet id 0x".to_owned();
            append_hex(&mut text, id);
            LoginAction::Fail(MineRiderError::Protocol(text))
        },
    }
}

/// How far a login is.
#[derive(Debug)]
pub struct Login {
    /// Packets read so far.
    pub read: usize,
}

impl Login {
    /// Nothing was read yet.
    pub fn new() -> (l: Self)
        ensures
            l.read == 0,
    {
        Login { read: 0 }
    }

    /// Counts one more packet, unless there were too many.
    pub fn next_packet(&mut self) -> (res: Result<(), MineRiderError>)
        ensures
            match res {
                Ok(_) => old(self).read < MAX_LOGIN_PACKETS && final(self).read == old(self).read
                    + 1,
                Err(e) => old(self).read >= MAX_LOGIN_PACKETS && *final(self) == *old(self)
                    && e.is_protocol("login did not complete within 64 packets"@),
            },
    {
        if self.read >= MAX_LOGIN_PACKETS {
            return Err(protocol_error("login did not complete within 64 packets"));
        }
        self.read += 1;
        Ok(())
    }
}

/// A part of the answer to an encryption request.
#[derive(Debug, Clone, Copy, PartialEq, Eq, Structural)]
pub enum EncryptionStep {
    /// Tell the session server that this server is being joined.
    JoinSession,
    /// Send the shared secret and the verify token, encrypted.
    Respond,
    /// From here on encrypt everything in both directions.
    EnableEncryption,
}

/// The error where an account is asked for and there is none.
pub const NO_PREMIUM_SESSION: &'static str =
    "server requires online-mode authentication but no premium session was supplied";

/// What to do about an encryption request, in order. A session is joined only
/// where the server asks for it, and before the response is sent.
pub open spec fn steps_of(should_authenticate: bool, premium: bool) -> Option<Seq<EncryptionStep>> {
    if should_authenticate && !premium {
        None
    } else if should_authenticate {
        Some(
            seq![
                EncryptionStep::JoinSession,
                EncryptionStep::Respond,
                EncryptionStep::EnableEncryption,
            ],
        )
    } else {
        Some(seq![EncryptionStep::Respond, EncryptionStep::EnableEncryption])
    }
}

/// What to do about an encryption request, in order.
pub fn encryption_steps(request: &PacketEncryptionBegin, premium: bool) -> (res: Result<
    Vec<EncryptionStep>,
    MineRiderError,
>)
    ensures
        match (res, steps_of(request.should_authenticate, premium)) {
            (Ok(v), Some(steps)) => v@ == steps,
            (Err(e), None) => e.is_protocol(NO_PREMIUM_SESSION@),
            _ => false,
        },
{
    let mut steps: Vec<EncryptionStep> = Vec::new();
    if request.should_authenticate {
        if !premium {
            return Err(protocol_error(NO_PREMIUM_SESSION));
        }
        steps.push(EncryptionStep::JoinSession);
    }
    steps.push(EncryptionStep::Respond);
    steps.push(EncryptionStep::EnableEncryption);
    assert(steps@ =~= steps_of(request.should_authenticate, premium)->0);
    Ok(steps)
}

/// A session is joined before the response goes out, and the response goes out
/// before the connection is encrypted.
pub proof fn law_join_comes_before_the_response(should_authenticate: bool, premium: bool)
    requires
        steps_of(should_authenticate, premium) is Some,
    ensures
        ({
            let steps = steps_of(should_authenticate, premium)->0;
            &&& steps.last() == EncryptionStep::EnableEncryption
            &&& steps[steps.len() - 2] == EncryptionStep::Respond
            &&& should_authenticate ==> steps[0] == EncryptionStep::JoinSession
            &&& !should_authenticate ==> !steps.contains(EncryptionStep::JoinSession)
        }),
{
}

} // verus!
