//! Rendered-snippet entries: one LaTeX or AsciiMath snippet tied to the
//! user message that requested it and to the bot message that shows it.
use vstd::prelude::*;
use vstd::string::StringExecFns;
use crate::errors::Error;
use crate::message::AttachmentSpec;
use crate::message::EmbedSpec;
use crate::message::FooterSpec;
use crate::message::MessageMeta;
use crate::message::MessageSpec;
use crate::message::UserMeta;
use crate::message::requested_by;
use crate::message::requested_by_text;
use crate::pattern::edit_cmd_args;
use crate::pattern::edit_cmd_match;
use crate::pattern::edit_match;
use crate::utils::Buttons;
use crate::utils::matches_button;

verus! {

/// The kind of pattern a markup request came in by.
pub enum CmdType {
    Ascii,
    Latex,
    Inline,
}

/// The source text of a snippet, tagged with its markup language.
pub enum MathText {
    Latex(String),
    AsciiMath(String),
}

/// The source text of `t`, whatever its language.
pub open spec fn math_text_view(t: MathText) -> Seq<char> {
    match t {
        MathText::Latex(s) => s@,
        MathText::AsciiMath(s) => s@,
    }
}

impl MathText {
    /// The source text, whatever the language.
    pub fn as_str(&self) -> (r: &str)
        ensures
            r@ == math_text_view(*self),
    {
        match self {
            MathText::Latex(s) => s.as_str(),
            MathText::AsciiMath(s) => s.as_str(),
        }
    }
}

/// One live rendered snippet: the source text, the rendered image once
/// rendering succeeded, the input message it came from, the bot message
/// currently showing it, and the last rendering error.
pub struct MathSnip {
    pub text: MathText,
    pub image: Option<Vec<u8>>,
    pub inp_message: MessageMeta,
    pub message: Option<u64>,
    pub error: Option<String>,
}

impl MathSnip {
    /// A fresh snippet for `m_txt`, not yet rendered and not yet shown.
    pub fn new(m_txt: MathText, i_msg: MessageMeta) -> (s: MathSnip)
        ensures
            s.text == m_txt,
            s.image is None,
            s.inp_message == i_msg,
            s.message is None,
            s.error is None,
    {
        MathSnip { text: m_txt, image: None, inp_message: i_msg, message: None, error: None }
    }

    /// Records what the external renderer produced for this snippet: on
    /// success the image bytes are stored and the error cleared; on
    /// failure the diagnostic text is stored and returned.
    pub fn cmpl(&mut self, rendered: Result<Vec<u8>, String>) -> (r: Result<(), Error>)
        ensures
            old(self).text == final(self).text,
            old(self).inp_message == final(self).inp_message,
            old(self).message == final(self).message,
            match rendered {
                Ok(img) => {
                    &&& r is Ok
                    &&& final(self).image == Some(img)
                    &&& final(self).error is None
                },
                Err(diag) => {
                    &&& r matches Err(e) && e == Error::MathError(diag)
                    &&& final(self).image == old(self).image
                    &&& final(self).error matches Some(d) && d@ == diag@
                },
            },
    {
        match rendered {
            Ok(img) => {
                self.image = Some(img);
                self.error = None;
                Ok(())
            },
            Err(diag) => {
                self.error = Some(diag.clone());
                Err(Error::MathError(diag))
            },
        }
    }

    /// The ids of the bot messages currently showing this snippet.
    pub fn get_response_message_id(&self) -> (r: Vec<u64>)
        ensures
            r@ == snip_output_ids(*self),
    {
        match &self.message {
            Some(m) => {
                let mut v: Vec<u64> = Vec::new();
                v.push(*m);
                proof {
                    assert(v@ =~= snip_output_ids(*self));
                }
                v
            },
            None => {
                let v: Vec<u64> = Vec::new();
                proof {
                    assert(v@ =~= snip_output_ids(*self));
                }
                v
            },
        }
    }

    /// The id of the input message this snippet answers.
    pub fn get_input_message_id(&self) -> (r: u64)
        ensures
            r == self.inp_message.id,
    {
        self.inp_message.id
    }

    /// The kind of pattern the stored input message matches, falling
    /// back to the inline pattern.
    pub fn get_command_pattern(&self, prefix: &str) -> (r: CmdType)
        ensures
            match r {
                CmdType::Latex => edit_cmd_match(prefix@, latex_word(), self.inp_message.content@),
                CmdType::Ascii => !edit_cmd_match(prefix@, latex_word(), self.inp_message.content@)
                    && edit_cmd_match(prefix@, ascii_word(), self.inp_message.content@),
                CmdType::Inline => !edit_cmd_match(
                    prefix@,
                    latex_word(),
                    self.inp_message.content@,
                ) && !edit_cmd_match(prefix@, ascii_word(), self.inp_message.content@),
            },
    {
        let latex = latex_word_chars();
        let ascii = ascii_word_chars();
        if edit_match(prefix, &latex, self.inp_message.content.as_str()).is_some() {
            CmdType::Latex
        } else if edit_match(prefix, &ascii, self.inp_message.content.as_str()).is_some() {
            CmdType::Ascii
        } else {
            CmdType::Inline
        }
    }

    /// Applies a component interaction to this snippet: a delete control
    /// pressed by the snippet's owner takes the shown message down. Any
    /// other control, user or state is a no-op. Returns the id of the
    /// message to delete, if any.
    pub fn interaction_respond(&mut self, user_id: u64, custom_id: &str) -> (del: Option<u64>)
        ensures
            ({
                let fires = old(self).inp_message.author.id == user_id && custom_id@
                    == crate::utils::del_id() && !crate::utils::is_pod_id(custom_id@) && old(
                    self,
                ).message is Some;
                if fires {
                    &&& final(self).message is None
                    &&& del == old(self).message
                    &&& final(self).text == old(self).text
                    &&& final(self).image == old(self).image
                    &&& final(self).inp_message == old(self).inp_message
                    &&& final(self).error == old(self).error
                } else {
                    &&& *final(self) == *old(self)
                    &&& del is None
                }
            }),
    {
        if let Buttons::Delete = Buttons::from_id(custom_id) {
            if self.inp_message.author.id == user_id {
                if let Some(m) = self.message {
                    self.message = None;
                    return Some(m);
                }
            }
        }
        None
    }
}

/// The ids of the bot messages currently showing `s`.
pub open spec fn snip_output_ids(s: MathSnip) -> Seq<u64> {
    match s.message {
        Some(m) => seq![m],
        None => Seq::empty(),
    }
}

/// The command word of the LaTeX command.
pub open spec fn latex_word() -> Seq<char> {
    seq!['l', 'a', 't', 'e', 'x']
}

/// The command word of the AsciiMath command.
pub open spec fn ascii_word() -> Seq<char> {
    seq!['a', 's', 'c', 'i', 'i']
}

/// The LaTeX command word as characters.
pub fn latex_word_chars() -> (v: Vec<char>)
    ensures
        v@ == latex_word(),
{
    let v = vec!['l', 'a', 't', 'e', 'x'];
    proof {
        assert(v@ =~= latex_word());
    }
    v
}

/// The AsciiMath command word as characters.
pub fn ascii_word_chars() -> (v: Vec<char>)
    ensures
        v@ == ascii_word(),
{
    let v = vec!['a', 's', 'c', 'i', 'i'];
    proof {
        assert(v@ =~= ascii_word());
    }
    v
}

/// Reads an edited message against the markup edit patterns: the LaTeX
/// pattern first, then the AsciiMath pattern. The matching pattern
/// decides the language of the new snippet text.
pub fn classify_markup_edit(prefix: &str, content: &str) -> (r: Option<MathText>)
    ensures
        match r {
            Some(MathText::Latex(a)) => edit_cmd_match(prefix@, latex_word(), content@) && a@
                == edit_cmd_args(prefix@, latex_word(), content@),
            Some(MathText::AsciiMath(a)) => !edit_cmd_match(prefix@, latex_word(), content@)
                && edit_cmd_match(prefix@, ascii_word(), content@) && a@ == edit_cmd_args(
                prefix@,
                ascii_word(),
                content@,
            ),
            None => !edit_cmd_match(prefix@, latex_word(), content@) && !edit_cmd_match(
                prefix@,
                ascii_word(),
                content@,
            ),
        },
{
    let latex = latex_word_chars();
    if let Some(a) = edit_match(prefix, &latex, content) {
        return Some(MathText::Latex(a));
    }
    let ascii = ascii_word_chars();
    if let Some(a) = edit_match(prefix, &ascii, content) {
        return Some(MathText::AsciiMath(a));
    }
    None
}

/// Plans the message showing a rendered snippet: an embed titled for the
/// snippet, the source text, the rendered image attached, a footer for
/// the requesting user, and a delete control.
pub fn math_msg(for_user: &UserMeta, math: &MathSnip) -> (m: MessageSpec)
    requires
        math.image is Some,
    ensures
        m.embed matches Some(e) && {
            &&& e.title@ == "Math snippet"@
            &&& e.description@ == "Input: "@ + math_text_view(math.text)
            &&& e.image matches Some(i) && i@ == "attachment://image.png"@
            &&& e.fields@.len() == 0
            &&& e.footer matches Some(f) && f.icon_url@ == for_user.icon_url@ && f.text@
                == requested_by_text(for_user.name@, for_user.discriminator as nat)
        },
        m.attachment matches Some(a) && a.filename@ == "image.png"@ && a.bytes@
            == math.image.unwrap()@,
        m.content is None,
        m.menu is None,
        m.button_rows@.len() == 1 && m.button_rows@[0].len() == 1 && matches_button(
            m.button_rows@[0][0],
            Buttons::Delete,
        ),
{
    let mut description = "Input: ".to_owned();
    description.append(math.text.as_str());
    let image_bytes = match &math.image {
        Some(b) => b.clone(),
        None => Vec::new(),
    };
    let buttons = vec![Buttons::Delete];
    let rows = Buttons::add_buttons(buttons);
    MessageSpec {
        content: None,
        embed: Some(
            EmbedSpec {
                title: "Math snippet".to_owned(),
                description,
                image: Some("attachment://image.png".to_owned()),
                fields: Vec::new(),
                footer: Some(
                    FooterSpec {
                        icon_url: for_user.icon_url.clone(),
                        text: requested_by(for_user.name.as_str(), for_user.discriminator),
                    },
                ),
            },
        ),
        attachment: Some(AttachmentSpec { filename: "image.png".to_owned(), bytes: image_bytes }),
        button_rows: rows,
        menu: None,
    }
}

} // verus!
