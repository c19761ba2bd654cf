//! What this crate believes of the transport and runtime crates without proof.
//!
//! Each item below names the outside function it stands for and says what is
//! claimed of it. Nothing else in the crate is taken on trust.

use tokio::time::error::Elapsed;
use tokio_tungstenite::tungstenite::protocol::frame::coding::CloseCode;
use tokio_tungstenite::tungstenite::Message;
use vstd::prelude::*;

verus! {

/// `tungstenite::Message`, carried through as an opaque value.
#[verifier::external_type_specification]
#[verifier::external_body]
pub struct ExMessage(Message);

/// `tokio::time::error::Elapsed`, carried through as an opaque value.
#[verifier::external_type_specification]
#[verifier::external_body]
pub struct ExElapsed(Elapsed);

/// What `Message::to_text` makes of a message: its text, or `None` where the
/// call reports an error. The call reads nothing but the message, so the same
/// message always decodes alike. Which messages decode, and to what, is left
/// to the transport crate.
pub uninterp spec fn decoded_text(message: Message) -> Option<Seq<char>>;

/// Calls `Message::to_text` and copies the text it borrows. The result is the
/// decoding of the message: the text on `Ok`, `None` on `Err`.
#[verifier::external_body]
pub(crate) fn message_text(message: &Message) -> (text: Option<String>)
    ensures
        match text {
            Some(t) => decoded_text(*message) == Some(t@),
            None => decoded_text(*message) is None,
        },
{
    match message.to_text() {
        Ok(text) => Some(text.to_string()),
        Err(_) => None,
    }
}

/// Formats an `Elapsed` through its `Display` impl, which writes the fixed
/// sentence "deadline has elapsed" whatever the value.
#[verifier::external_body]
pub(crate) fn elapsed_text(elapsed: &Elapsed) -> (text: String)
    ensures
        text@ == "deadline has elapsed"@,
{
    elapsed.to_string()
}

/// Calls `u16::from` on `CloseCode::Error`, which tungstenite maps to the
/// WebSocket status 1011 (unexpected condition on the server).
#[verifier::external_body]
pub(crate) fn error_close_code() -> (code: u16)
    ensures
        code == 1011,
{
    u16::from(CloseCode::Error)
}

} // verus!
