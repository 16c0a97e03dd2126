//! The bot's error taxonomy and the user-visible message planned for an
//! error. Errors from outside tools are carried as their diagnostic
//! text; nothing here performs I/O.
use vstd::prelude::*;
use vstd::string::StringExecFns;
use crate::message::FooterSpec;
use crate::message::EmbedSpec;
use crate::message::MessageSpec;
use crate::message::UserMeta;
use crate::message::requested_by;
use crate::message::requested_by_text;
use crate::text::dec_seq;
use crate::text::truncate_with_ellipsis;
use crate::text::truncated;
use crate::text::u64_to_string;

verus! {

/// Everything that can go wrong while serving a command. Variants carry
/// the diagnostic text of the tool or service that failed.
#[derive(Debug)]
pub enum Error {
    /// The rendered markup could not be read as an SVG.
    SVGError(String),
    /// The rasterized image could not be encoded as a PNG.
    PNGError(String),
    /// A subprocess or file operation failed.
    IOError(String),
    /// A command was missing required arguments: received, needed.
    ArgError(u8, u8),
    /// The external rendering toolchain rejected the input.
    MathError(String),
    /// The outbound query request failed.
    RequestError(String),
    /// The upstream Q&A service reported an error: message, code.
    WolfError(String, u32),
    /// A chat-platform call failed.
    PlatformError(String),
    /// Rendering produced no image.
    NoImgError(),
}

/// The user-visible text of each error.
pub open spec fn error_text(e: Error) -> Seq<char> {
    match e {
        Error::SVGError(s) => "Error making the SVG: "@ + s@,
        Error::PNGError(s) => "Error making the PNG: "@ + s@,
        Error::IOError(s) => "I/O error: "@ + s@,
        Error::ArgError(rec, need) => "Expected "@ + dec_seq(need as nat)
            + " argument(s), recieved "@ + dec_seq(rec as nat),
        Error::MathError(s) => "Compilation error:\n```"@ + s@ + "```"@,
        Error::RequestError(s) => "Request error:\n"@ + s@,
        Error::WolfError(s, c) => "Wolfram error "@ + dec_seq(c as nat) + " :\n"@ + s@,
        Error::PlatformError(s) => "Platform error:\n"@ + s@,
        Error::NoImgError() => "Error:\nNo image"@,
    }
}

impl Error {
    /// The user-visible text of this error.
    pub fn message(&self) -> (r: String)
        ensures
            r@ == error_text(*self),
    {
        match self {
            Error::SVGError(s) => {
                let mut r = "Error making the SVG: ".to_owned();
                r.append(s.as_str());
                r
            },
            Error::PNGError(s) => {
                let mut r = "Error making the PNG: ".to_owned();
                r.append(s.as_str());
                r
            },
            Error::IOError(s) => {
                let mut r = "I/O error: ".to_owned();
                r.append(s.as_str());
                r
            },
            Error::ArgError(rec, need) => {
                let mut r = "Expected ".to_owned();
                let n = u64_to_string(*need as u64);
                r.append(n.as_str());
                r.append(" argument(s), recieved ");
                let g = u64_to_string(*rec as u64);
                r.append(g.as_str());
                r
            },
            Error::MathError(s) => {
                let mut r = "Compilation error:\n```".to_owned();
                r.append(s.as_str());
                r.append("```");
                r
            },
            Error::RequestError(s) => {
                let mut r = "Request error:\n".to_owned();
                r.append(s.as_str());
                r
            },
            Error::WolfError(s, c) => {
                let mut r = "Wolfram error ".to_owned();
                let n = u64_to_string(*c as u64);
                r.append(n.as_str());
                r.append(" :\n");
                r.append(s.as_str());
                r
            },
            Error::PlatformError(s) => {
                let mut r = "Platform error:\n".to_owned();
                r.append(s.as_str());
                r
            },
            Error::NoImgError() => "Error:\nNo image".to_owned(),
        }
    }
}

/// The description of an error message: a heading, the error's own text,
/// the whole capped at the platform's message limit.
pub open spec fn error_description(e: Error) -> Seq<char> {
    truncated("There was an error:\n"@ + error_text(e), 2000, 1997)
}

/// Plans the message reporting `err`, optionally footed with the user it
/// is for. The description is capped at the platform's hard message
/// limit, keeping the head of the text.
pub fn err_msg(for_user: Option<&UserMeta>, err: &Error) -> (m: MessageSpec)
    ensures
        m.embed matches Some(e) && {
            &&& e.title@ == "Error"@
            &&& e.description@ == error_description(*err)
            &&& e.image is None
            &&& e.fields@.len() == 0
            &&& match for_user {
                Some(u) => e.footer matches Some(f) && f.icon_url@ == u.icon_url@ && f.text@
                    == requested_by_text(u.name@, u.discriminator as nat),
                None => e.footer is None,
            }
        },
        m.content is None,
        m.attachment is None,
        m.button_rows@.len() == 0,
        m.menu is None,
{
    let mut err_str = "There was an error:\n".to_owned();
    let body = err.message();
    err_str.append(body.as_str());
    let description = truncate_with_ellipsis(err_str.as_str(), 2000, 1997);
    let footer = match for_user {
        Some(u) => Some(
            FooterSpec {
                icon_url: u.icon_url.clone(),
                text: requested_by(u.name.as_str(), u.discriminator),
            },
        ),
        None => None,
    };
    MessageSpec {
        content: None,
        embed: Some(
            EmbedSpec {
                title: "Error".to_owned(),
                description,
                image: None,
                fields: Vec::new(),
                footer,
            },
        ),
        attachment: None,
        button_rows: Vec::new(),
        menu: None,
    }
}

} // verus!
