//! Plain models of the chat data the bot reads and of the messages it
//! plans. A caller that owns the chat connection turns inbound gateway
//! payloads into these records and renders a [`MessageSpec`] back out.
use vstd::prelude::*;
use vstd::string::StringExecFns;
use crate::text::dec_seq;
use crate::text::u64_to_string;
use crate::utils::ButtonSpec;
use crate::utils::MenuItem;

verus! {

/// The author of an input message. `icon_url` is the avatar address the
/// caller resolved for the user, already falling back to the platform's
/// default icon when the user has none.
pub struct UserMeta {
    pub id: u64,
    pub name: String,
    pub discriminator: u16,
    pub icon_url: String,
}

/// The fields of a user message the bot keeps.
pub struct MessageMeta {
    pub id: u64,
    pub channel_id: u64,
    pub author: UserMeta,
    pub content: String,
}

/// One field of an embed.
pub struct FieldSpec {
    pub name: String,
    pub value: String,
    pub inline: bool,
}

/// The footer of an embed.
pub struct FooterSpec {
    pub icon_url: String,
    pub text: String,
}

/// An embed to attach to a planned message.
pub struct EmbedSpec {
    pub title: String,
    pub description: String,
    pub image: Option<String>,
    pub fields: Vec<FieldSpec>,
    pub footer: Option<FooterSpec>,
}

/// A file to attach to a planned message.
pub struct AttachmentSpec {
    pub filename: String,
    pub bytes: Vec<u8>,
}

/// A select menu to attach to a planned message.
pub struct MenuSpec {
    pub custom_id: String,
    pub items: Vec<MenuItem>,
}

/// Everything a chat client needs to send one message: plain text or an
/// embed, an optional attachment, button rows and an optional menu.
pub struct MessageSpec {
    pub content: Option<String>,
    pub embed: Option<EmbedSpec>,
    pub attachment: Option<AttachmentSpec>,
    pub button_rows: Vec<Vec<ButtonSpec>>,
    pub menu: Option<MenuSpec>,
}

/// The footer text naming the user a response was made for.
pub open spec fn requested_by_text(name: Seq<char>, discriminator: nat) -> Seq<char> {
    "Requested by "@ + name + "#"@ + dec_seq(discriminator)
}

/// Builds the footer text naming the requesting user.
pub fn requested_by(name: &str, discriminator: u16) -> (r: String)
    ensures
        r@ == requested_by_text(name@, discriminator as nat),
{
    let mut s = "Requested by ".to_owned();
    s.append(name);
    s.append("#");
    let d = u64_to_string(discriminator as u64);
    s.append(d.as_str());
    s
}

/// The placeholder posted while the bot is working.
pub open spec fn loading_text() -> Seq<char> {
    "Doing stuff <a:loading:840650882286223371>"@
}

/// Plans the placeholder message posted while the bot is working.
pub fn loading_msg() -> (m: MessageSpec)
    ensures
        m.content matches Some(c) && c@ == loading_text(),
        m.embed is None,
        m.attachment is None,
        m.button_rows@.len() == 0,
        m.menu is None,
{
    MessageSpec {
        content: Some("Doing stuff <a:loading:840650882286223371>".to_owned()),
        embed: None,
        attachment: None,
        button_rows: Vec::new(),
        menu: None,
    }
}

} // verus!
