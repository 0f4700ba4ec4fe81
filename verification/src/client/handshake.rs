use vstd::prelude::*;
use vstd::string::StringExecFns;

use crate::protocol::messages::ControlMessage;
use crate::text::push_str;

verus! {

/// Where the client side of the handshake stands.
#[derive(Clone, Copy, Debug, PartialEq, Eq, Structural)]
pub enum ClientHandshake {
    /// Waiting for the server's first message (its key or its plaintext notice).
    AwaitServerHello,
    /// Our key has been sent; waiting for an authentication challenge or completion.
    AwaitAuthOrComplete { peer_version: Option<u32> },
    /// Our proof has been sent; waiting for the verdict.
    AwaitAuthResult { peer_version: Option<u32> },
    /// The handshake is over (completed or failed).
    Finished,
}

/// What the handshake receives next: a text frame holding a control message, or nothing
/// usable (the stream ended, failed, or sent another kind of frame).
#[derive(Clone, Debug)]
pub enum HandshakeEvent {
    Message(ControlMessage),
    NoMessage,
}

/// Why the client gives up the handshake.
#[derive(Clone, Debug)]
pub enum HandshakeFailure {
    NoServerHello,
    ServerIsPlaintext,
    ServerRequiresEncryption,
    /// The server opened with another message (shown to the user with its debug form).
    UnexpectedHello(ControlMessage),
    NoHandshakeMessage,
    PasswordRequired,
    AuthenticationFailed(String),
    ExpectedCompleteAfterAuth,
    ClosedDuringAuth,
    HandshakeError(String),
    ExpectedAuthOrComplete,
}

/// What the runtime does after a handshake step.
#[derive(Clone, Debug)]
pub enum HandshakeAction {
    /// Finish in plaintext mode.
    AcceptPlaintext { peer_version: Option<u32> },
    /// Decode the server's public key, send our own key with our protocol version, and derive
    /// the shared secret.
    SendKeyExchange { server_public_key: String, peer_version: Option<u32> },
    /// Answer the challenge with a proof of the password.
    SendAuthProof { nonce: String },
    /// Finish with encryption keyed by the shared secret (warning that the server asked for no
    /// password when we have one).
    Complete { peer_version: Option<u32>, warn_unauthenticated: bool },
    /// Give up.
    Fail(HandshakeFailure),
}

/// What the client does with the server's first message: accept plaintext only when it
/// refuses encryption itself, answer a key exchange only when it wants encryption, and give
/// up on anything else.
pub open spec fn hello_action(no_encryption: bool, event: HandshakeEvent) -> HandshakeAction {
    match event {
        HandshakeEvent::NoMessage => HandshakeAction::Fail(HandshakeFailure::NoServerHello),
        HandshakeEvent::Message(ControlMessage::PlaintextMode { protocol_version }) => {
            if no_encryption {
                HandshakeAction::AcceptPlaintext { peer_version: protocol_version }
            } else {
                HandshakeAction::Fail(HandshakeFailure::ServerIsPlaintext)
            }
        },
        HandshakeEvent::Message(ControlMessage::KeyExchange { public_key, protocol_version }) => {
            if no_encryption {
                HandshakeAction::Fail(HandshakeFailure::ServerRequiresEncryption)
            } else {
                HandshakeAction::SendKeyExchange {
                    server_public_key: public_key,
                    peer_version: protocol_version,
                }
            }
        },
        HandshakeEvent::Message(other) => HandshakeAction::Fail(
            HandshakeFailure::UnexpectedHello(other),
        ),
    }
}

/// What the client does once its key is sent: answer a challenge if it has a password,
/// complete on the server's completion, and give up otherwise.
pub open spec fn key_sent_action(
    peer_version: Option<u32>,
    has_password: bool,
    event: HandshakeEvent,
) -> HandshakeAction {
    match event {
        HandshakeEvent::Message(ControlMessage::AuthChallenge { nonce }) => if has_password {
            HandshakeAction::SendAuthProof { nonce }
        } else {
            HandshakeAction::Fail(HandshakeFailure::PasswordRequired)
        },
        HandshakeEvent::Message(ControlMessage::HandshakeComplete) => HandshakeAction::Complete {
            peer_version,
            warn_unauthenticated: has_password,
        },
        HandshakeEvent::Message(ControlMessage::Error { message, .. }) => HandshakeAction::Fail(
            HandshakeFailure::HandshakeError(message),
        ),
        HandshakeEvent::Message(_) => HandshakeAction::Fail(
            HandshakeFailure::ExpectedAuthOrComplete,
        ),
        HandshakeEvent::NoMessage => HandshakeAction::Fail(HandshakeFailure::NoHandshakeMessage),
    }
}

/// What the client does once its proof is sent: complete on the server's completion, and
/// give up otherwise.
pub open spec fn proof_sent_action(peer_version: Option<u32>, event: HandshakeEvent) -> HandshakeAction {
    match event {
        HandshakeEvent::Message(ControlMessage::HandshakeComplete) => HandshakeAction::Complete {
            peer_version,
            warn_unauthenticated: false,
        },
        HandshakeEvent::Message(ControlMessage::Error { message, .. }) => HandshakeAction::Fail(
            HandshakeFailure::AuthenticationFailed(message),
        ),
        HandshakeEvent::Message(_) => HandshakeAction::Fail(
            HandshakeFailure::ExpectedCompleteAfterAuth,
        ),
        HandshakeEvent::NoMessage => HandshakeAction::Fail(HandshakeFailure::ClosedDuringAuth),
    }
}

/// The action the client takes in `state` on `event`.
pub open spec fn handshake_action(
    state: ClientHandshake,
    no_encryption: bool,
    has_password: bool,
    event: HandshakeEvent,
) -> HandshakeAction {
    match state {
        ClientHandshake::AwaitServerHello => hello_action(no_encryption, event),
        ClientHandshake::AwaitAuthOrComplete { peer_version } => key_sent_action(
            peer_version,
            has_password,
            event,
        ),
        ClientHandshake::AwaitAuthResult { peer_version } => proof_sent_action(peer_version, event),
        ClientHandshake::Finished => HandshakeAction::Fail(HandshakeFailure::NoHandshakeMessage),
    }
}

/// Where the handshake stands after an action: sending our key waits for the challenge or
/// completion, sending a proof waits for the verdict (with the version the peer gave), and
/// every other action ends the handshake.
pub open spec fn state_after(state: ClientHandshake, action: HandshakeAction) -> ClientHandshake {
    match action {
        HandshakeAction::SendKeyExchange { peer_version, .. } => ClientHandshake::AwaitAuthOrComplete {
            peer_version,
        },
        HandshakeAction::SendAuthProof { .. } => match state {
            ClientHandshake::AwaitAuthOrComplete { peer_version } => ClientHandshake::AwaitAuthResult {
                peer_version,
            },
            _ => ClientHandshake::Finished,
        },
        _ => ClientHandshake::Finished,
    }
}

/// The next state and action of the client handshake.
pub open spec fn handshake_next(
    state: ClientHandshake,
    no_encryption: bool,
    has_password: bool,
    event: HandshakeEvent,
) -> (ClientHandshake, HandshakeAction) {
    let action = handshake_action(state, no_encryption, has_password, event);
    (state_after(state, action), action)
}

/// One step of the client handshake: from the current state, the client's settings and what
/// the server sent, the next state and what to do.
pub fn client_handshake_step(
    state: ClientHandshake,
    no_encryption: bool,
    has_password: bool,
    event: HandshakeEvent,
) -> (r: (ClientHandshake, HandshakeAction))
    requires
        !(state is Finished),
    ensures
        r == handshake_next(state, no_encryption, has_password, event),
{
    match state {
        ClientHandshake::AwaitServerHello => match event {
            HandshakeEvent::NoMessage => (
                ClientHandshake::Finished,
                HandshakeAction::Fail(HandshakeFailure::NoServerHello),
            ),
            HandshakeEvent::Message(m) => match m {
                ControlMessage::PlaintextMode { protocol_version } => if no_encryption {
                    (
                        ClientHandshake::Finished,
                        HandshakeAction::AcceptPlaintext { peer_version: protocol_version },
                    )
                } else {
                    (
                        ClientHandshake::Finished,
                        HandshakeAction::Fail(HandshakeFailure::ServerIsPlaintext),
                    )
                },
                ControlMessage::KeyExchange { public_key, protocol_version } => if no_encryption {
                    (
                        ClientHandshake::Finished,
                        HandshakeAction::Fail(HandshakeFailure::ServerRequiresEncryption),
                    )
                } else {
                    (
                        ClientHandshake::AwaitAuthOrComplete { peer_version: protocol_version },
                        HandshakeAction::SendKeyExchange {
                            server_public_key: public_key,
                            peer_version: protocol_version,
                        },
                    )
                },
                other => (
                    ClientHandshake::Finished,
                    HandshakeAction::Fail(HandshakeFailure::UnexpectedHello(other)),
                ),
            },
        },
        ClientHandshake::AwaitAuthOrComplete { peer_version } => match event {
            HandshakeEvent::NoMessage => (
                ClientHandshake::Finished,
                HandshakeAction::Fail(HandshakeFailure::NoHandshakeMessage),
            ),
            HandshakeEvent::Message(m) => match m {
                ControlMessage::AuthChallenge { nonce } => if has_password {
                    (
                        ClientHandshake::AwaitAuthResult { peer_version },
                        HandshakeAction::SendAuthProof { nonce },
                    )
                } else {
                    (
                        ClientHandshake::Finished,
                        HandshakeAction::Fail(HandshakeFailure::PasswordRequired),
                    )
                },
                ControlMessage::HandshakeComplete => (
                    ClientHandshake::Finished,
                    HandshakeAction::Complete { peer_version, warn_unauthenticated: has_password },
                ),
                ControlMessage::Error { message, .. } => (
                    ClientHandshake::Finished,
                    HandshakeAction::Fail(HandshakeFailure::HandshakeError(message)),
                ),
                _ => (
                    ClientHandshake::Finished,
                    HandshakeAction::Fail(HandshakeFailure::ExpectedAuthOrComplete),
                ),
            },
        },
        ClientHandshake::AwaitAuthResult { peer_version } => match event {
            HandshakeEvent::NoMessage => (
                ClientHandshake::Finished,
                HandshakeAction::Fail(HandshakeFailure::ClosedDuringAuth),
            ),
            HandshakeEvent::Message(m) => match m {
                ControlMessage::HandshakeComplete => (
                    ClientHandshake::Finished,
                    HandshakeAction::Complete { peer_version, warn_unauthenticated: false },
                ),
                ControlMessage::Error { message, .. } => (
                    ClientHandshake::Finished,
                    HandshakeAction::Fail(HandshakeFailure::AuthenticationFailed(message)),
                ),
                _ => (
                    ClientHandshake::Finished,
                    HandshakeAction::Fail(HandshakeFailure::ExpectedCompleteAfterAuth),
                ),
            },
        },
        ClientHandshake::Finished => (
            ClientHandshake::Finished,
            HandshakeAction::Fail(HandshakeFailure::NoHandshakeMessage),
        ),
    }
}

/// A client that refuses encryption never exchanges keys or proofs: whatever the server sends
/// first, the handshake ends at once, in plaintext or in failure.
pub proof fn law_no_encryption_never_exchanges_keys(has_password: bool, event: HandshakeEvent)
    ensures
        ({
            let (next, action) = handshake_next(
                ClientHandshake::AwaitServerHello,
                true,
                has_password,
                event,
            );
            &&& next is Finished
            &&& (action is AcceptPlaintext || action is Fail)
        }),
{
}

/// A client that wants encryption never accepts a plaintext session.
pub proof fn law_encryption_refuses_plaintext(
    state: ClientHandshake,
    has_password: bool,
    event: HandshakeEvent,
)
    ensures
        !(handshake_next(state, false, has_password, event).1 is AcceptPlaintext),
{
}

/// A proof is only ever sent by a client that has a password, and only in answer to a
/// challenge; the session completes only on the server's completion message.
pub proof fn law_proofs_and_completion(
    state: ClientHandshake,
    no_encryption: bool,
    has_password: bool,
    event: HandshakeEvent,
)
    ensures
        handshake_next(state, no_encryption, has_password, event).1 is SendAuthProof ==> has_password
            && (event matches HandshakeEvent::Message(m) && m is AuthChallenge),
        handshake_next(state, no_encryption, has_password, event).1 is Complete ==> (
        event matches HandshakeEvent::Message(m) && m is HandshakeComplete),
        handshake_next(state, no_encryption, has_password, event).1 is Complete ==> !no_encryption
            || !(state is AwaitServerHello),
{
}

impl HandshakeFailure {
    /// The failure's text; for an unexpected opening message, the text that precedes its
    /// debug form.
    pub fn message(&self) -> (r: String)
        ensures
            r@ == (match self {
                HandshakeFailure::NoServerHello => "Failed to receive server handshake message"@,
                HandshakeFailure::ServerIsPlaintext =>
                    "Server is in plaintext mode but client has encryption enabled. Use --no-encryption to connect to this server."@,
                HandshakeFailure::ServerRequiresEncryption =>
                    "Server requires encryption but client has --no-encryption set. Remove --no-encryption or configure the server with --no-encryption."@,
                HandshakeFailure::UnexpectedHello(_) =>
                    "Expected KeyExchange or PlaintextMode message from server, got: "@,
                HandshakeFailure::NoHandshakeMessage => "Failed to receive handshake message"@,
                HandshakeFailure::PasswordRequired => "Server requires a password (use --password)"@,
                HandshakeFailure::AuthenticationFailed(m) => "Authentication failed: "@ + m@,
                HandshakeFailure::ExpectedCompleteAfterAuth => "Expected HandshakeComplete after auth"@,
                HandshakeFailure::ClosedDuringAuth => "Connection closed during authentication"@,
                HandshakeFailure::HandshakeError(m) => "Handshake error: "@ + m@,
                HandshakeFailure::ExpectedAuthOrComplete => "Expected AuthChallenge or HandshakeComplete"@,
            }),
    {
        match self {
            HandshakeFailure::NoServerHello => String::from_str(
                "Failed to receive server handshake message",
            ),
            HandshakeFailure::ServerIsPlaintext => String::from_str(
                "Server is in plaintext mode but client has encryption enabled. Use --no-encryption to connect to this server.",
            ),
            HandshakeFailure::ServerRequiresEncryption => String::from_str(
                "Server requires encryption but client has --no-encryption set. Remove --no-encryption or configure the server with --no-encryption.",
            ),
            HandshakeFailure::UnexpectedHello(_) => String::from_str(
                "Expected KeyExchange or PlaintextMode message from server, got: ",
            ),
            HandshakeFailure::NoHandshakeMessage => String::from_str(
                "Failed to receive handshake message",
            ),
            HandshakeFailure::PasswordRequired => String::from_str(
                "Server requires a password (use --password)",
            ),
            HandshakeFailure::AuthenticationFailed(m) => {
                let mut r = String::from_str("Authentication failed: ");
                push_str(&mut r, m.as_str());
                r
            },
            HandshakeFailure::ExpectedCompleteAfterAuth => String::from_str(
                "Expected HandshakeComplete after auth",
            ),
            HandshakeFailure::ClosedDuringAuth => String::from_str(
                "Connection closed during authentication",
            ),
            HandshakeFailure::HandshakeError(m) => {
                let mut r = String::from_str("Handshake error: ");
                push_str(&mut r, m.as_str());
                r
            },
            HandshakeFailure::ExpectedAuthOrComplete => String::from_str(
                "Expected AuthChallenge or HandshakeComplete",
            ),
        }
    }
}

/// Once a handshake step has acted: only a handshake that succeeded (in plaintext or with
/// encryption) records the session's fingerprint and remembers the target and password, so
/// that a dropped connection can be re-established; a failed one leaves what was remembered
/// before. Returns whether the session is established.
pub fn remember_if_established(
    action: &HandshakeAction,
    fp: String,
    target: &str,
    password: &Option<String>,
    fingerprint: &mut Option<String>,
    last_target: &mut Option<String>,
    last_password: &mut Option<String>,
) -> (r: bool)
    ensures
        r == (action is AcceptPlaintext || action is Complete),
        r ==> *final(fingerprint) == Some(fp) && (*final(last_target) matches Some(t) && t@
            == target@) && *final(last_password) == *password,
        !r ==> *final(fingerprint) == *old(fingerprint) && *final(last_target) == *old(last_target)
            && *final(last_password) == *old(last_password),
{
    let established = match action {
        HandshakeAction::AcceptPlaintext { .. } => true,
        HandshakeAction::Complete { .. } => true,
        _ => false,
    };
    if established {
        *fingerprint = Some(fp);
        let mut t = String::new();
        push_str(&mut t, target);
        *last_target = Some(t);
        *last_password = match password {
            Some(p) => Some(p.clone()),
            None => None,
        };
    }
    established
}

/// The handshake's successful paths. A client without encryption accepts the server's
/// plaintext notice with the server's version. A client with encryption answers the server's
/// key and then waits. With a password it answers the server's challenge with a proof and
/// waits for the verdict. The server's completion, before or after the proof, completes the
/// handshake with the server's version; the unauthenticated warning comes only when a
/// password was held but never asked for.
pub proof fn law_handshake_success_paths(
    peer_version: Option<u32>,
    no_encryption: bool,
    has_password: bool,
    public_key: String,
    nonce: String,
)
    ensures
        handshake_next(
            ClientHandshake::AwaitServerHello,
            true,
            has_password,
            HandshakeEvent::Message(ControlMessage::PlaintextMode { protocol_version: peer_version }),
        ) == (ClientHandshake::Finished, HandshakeAction::AcceptPlaintext { peer_version }),
        handshake_next(
            ClientHandshake::AwaitServerHello,
            false,
            has_password,
            HandshakeEvent::Message(
                ControlMessage::KeyExchange { public_key, protocol_version: peer_version },
            ),
        ) == (
            ClientHandshake::AwaitAuthOrComplete { peer_version },
            HandshakeAction::SendKeyExchange { server_public_key: public_key, peer_version },
        ),
        handshake_next(
            ClientHandshake::AwaitAuthOrComplete { peer_version },
            no_encryption,
            true,
            HandshakeEvent::Message(ControlMessage::AuthChallenge { nonce }),
        ) == (
            ClientHandshake::AwaitAuthResult { peer_version },
            HandshakeAction::SendAuthProof { nonce },
        ),
        handshake_next(
            ClientHandshake::AwaitAuthOrComplete { peer_version },
            no_encryption,
            has_password,
            HandshakeEvent::Message(ControlMessage::HandshakeComplete),
        ) == (
            ClientHandshake::Finished,
            HandshakeAction::Complete { peer_version, warn_unauthenticated: has_password },
        ),
        handshake_next(
            ClientHandshake::AwaitAuthResult { peer_version },
            no_encryption,
            has_password,
            HandshakeEvent::Message(ControlMessage::HandshakeComplete),
        ) == (
            ClientHandshake::Finished,
            HandshakeAction::Complete { peer_version, warn_unauthenticated: false },
        ),
{
}

/// A client with a password reaches an authenticated session against a server that sends its
/// key, a challenge and then its completion: three steps end in completion with the server's
/// version and no warning.
pub proof fn law_password_session_completes(
    peer_version: Option<u32>,
    public_key: String,
    nonce: String,
)
    ensures
        ({
            let (s1, _) = handshake_next(
                ClientHandshake::AwaitServerHello,
                false,
                true,
                HandshakeEvent::Message(
                    ControlMessage::KeyExchange { public_key, protocol_version: peer_version },
                ),
            );
            let (s2, _) = handshake_next(
                s1,
                false,
                true,
                HandshakeEvent::Message(ControlMessage::AuthChallenge { nonce }),
            );
            handshake_next(s2, false, true, HandshakeEvent::Message(ControlMessage::HandshakeComplete))
                == (
                ClientHandshake::Finished,
                HandshakeAction::Complete { peer_version, warn_unauthenticated: false },
            )
        }),
{
}

} // verus!
