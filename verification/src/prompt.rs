//! The secrets that the user is asked for.

use vstd::prelude::*;
use vstd::string::*;
use vstd::utf8::*;

use crate::error::{slice_text_of, text_of, text_views, Error, ErrorView, Failure, FailureView};
use crate::pinentry;
use crate::pinentry::getpin_commands;
use crate::text::utf8_text;

verus! {

broadcast use vstd::string::group_string_axioms;

/// A question for a secret: what pinentry shows, and whether it grabs the keyboard.
#[derive(Clone, Debug, PartialEq, Eq)]
pub struct Prompt {
    pub prompt: String,
    pub desc: String,
    pub err: Option<String>,
    pub grab: bool,
}

/// What a [`Prompt`] says.
#[verifier::ext_equal]
pub struct PromptView {
    pub prompt: Seq<char>,
    pub desc: Seq<char>,
    pub err: Option<Seq<char>>,
    pub grab: bool,
}

impl View for Prompt {
    type V = PromptView;

    open spec fn view(&self) -> PromptView {
        PromptView {
            prompt: self.prompt@,
            desc: self.desc@,
            err: text_of(self.err),
            grab: self.grab,
        }
    }
}

/// What a login is for.
pub open spec fn log_in_to(host: Seq<char>) -> Seq<char> {
    "Log in to "@ + host
}

/// The question for the identifier of an API key.
pub open spec fn client_id_prompt(host: Seq<char>, err: Option<Seq<char>>) -> PromptView {
    PromptView {
        prompt: log_in_to(host),
        desc: "API key client__id"@,
        err,
        grab: false,
    }
}

/// The question for the secret of an API key.
pub open spec fn client_secret_prompt(host: Seq<char>, err: Option<Seq<char>>) -> PromptView {
    PromptView {
        prompt: log_in_to(host),
        desc: "API key client__secret"@,
        err,
        grab: false,
    }
}

/// The question for the master password, and what it is for.
pub open spec fn password_prompt(purpose: Seq<char>, err: Option<Seq<char>>) -> PromptView {
    PromptView {
        prompt: purpose,
        desc: "Master Password"@,
        err,
        grab: true,
    }
}

/// The question for the code of a second factor, in the words of its provider.
pub open spec fn code_prompt(
    header: Seq<char>,
    message: Seq<char>,
    grab: bool,
    err: Option<Seq<char>>,
) -> PromptView {
    PromptView {
        prompt: message,
        desc: header,
        err,
        grab,
    }
}

/// The question for the code that was mailed for a new device.
pub open spec fn new_device_prompt(err: Option<Seq<char>>) -> PromptView {
    PromptView {
        prompt: "Enter the code that was emailed to you to verify this device."@,
        desc: "New Device Verification"@,
        err,
        grab: false,
    }
}

impl Prompt {
    /// The question for the identifier of an API key.
    pub fn client_id(host: &str, err: Option<String>) -> (res: Prompt)
        ensures
            res@ == client_id_prompt(host@, text_of(err)),
            res.prompt@ == "Log in to "@ + host@,
            res.desc@ == "API key client__id"@,
            res.err == err,
            res.grab == false,
    {
        Prompt {
            prompt: "Log in to ".to_owned().concat(host),
            desc: "API key client__id".to_owned(),
            err,
            grab: false,
        }
    }

    /// The question for the secret of an API key.
    pub fn client_secret(host: &str, err: Option<String>) -> (res: Prompt)
        ensures
            res@ == client_secret_prompt(host@, text_of(err)),
            res.prompt@ == "Log in to "@ + host@,
            res.desc@ == "API key client__secret"@,
            res.err == err,
            res.grab == false,
    {
        Prompt {
            prompt: "Log in to ".to_owned().concat(host),
            desc: "API key client__secret".to_owned(),
            err,
            grab: false,
        }
    }

    /// The question for the master password, and what it is for.
    pub fn password(purpose: String, err: Option<String>) -> (res: Prompt)
        ensures
            res@ == password_prompt(purpose@, text_of(err)),
            res.prompt@ == purpose@,
            res.desc@ == "Master Password"@,
            res.err == err,
            res.grab == true,
    {
        Prompt {
            prompt: purpose,
            desc: "Master Password".to_owned(),
            err,
            grab: true,
        }
    }

    /// The question for the master password to log in to a host.
    pub fn login_password(host: &str, err: Option<String>) -> (res: Prompt)
        ensures
            res@ == password_prompt(log_in_to(host@), text_of(err)),
            res.prompt@ == "Log in to "@ + host@,
            res.desc@ == "Master Password"@,
            res.err == err,
            res.grab == true,
    {
        Prompt::password("Log in to ".to_owned().concat(host), err)
    }

    /// The question for the master password to unlock the vault of a profile.
    pub fn unlock_password(profile: &str, err: Option<String>) -> (res: Prompt)
        ensures
            res@ == password_prompt(
                "Unlock the local database for '"@ + profile@ + "'"@,
                text_of(err),
            ),
            res.prompt@ == "Unlock the local database for '"@ + profile@ + "'"@,
            res.desc@ == "Master Password"@,
            res.err == err,
            res.grab == true,
    {
        Prompt::password(
            "Unlock the local database for '".to_owned().concat(profile).concat("'"),
            err,
        )
    }

    /// The question for the master password before an entry that is marked for it is shown.
    pub fn reprompt_password(err: Option<String>) -> (res: Prompt)
        ensures
            res@ == password_prompt(
                "Accessing this entry requires the master password"@,
                text_of(err),
            ),
            res.prompt@ == "Accessing this entry requires the master password"@,
            res.desc@ == "Master Password"@,
            res.err == err,
            res.grab == true,
    {
        Prompt::password("Accessing this entry requires the master password".to_owned(), err)
    }

    /// The question for the code of a second factor, in the words of its provider.
    pub fn code(header: &str, message: &str, grab: bool, err: Option<String>) -> (res: Prompt)
        ensures
            res@ == code_prompt(header@, message@, grab, text_of(err)),
            res.prompt@ == message@,
            res.desc@ == header@,
            res.err == err,
            res.grab == grab,
    {
        Prompt {
            prompt: message.to_owned(),
            desc: header.to_owned(),
            err,
            grab,
        }
    }

    /// The question for the code that was mailed for a new device.
    pub fn new_device_otp(err: Option<String>) -> (res: Prompt)
        ensures
            res@ == new_device_prompt(text_of(err)),
            res.prompt@ == "Enter the code that was emailed to you to verify this device."@,
            res.desc@ == "New Device Verification"@,
            res.err == err,
            res.grab == false,
    {
        Prompt {
            prompt: "Enter the code that was emailed to you to verify this device.".to_owned(),
            desc: "New Device Verification".to_owned(),
            err,
            grab: false,
        }
    }

    /// The commands that put the question to pinentry.
    pub fn getpin(&self) -> (res: Vec<String>)
        ensures
            text_views(res@) == getpin_commands(self@.prompt, self@.desc, self@.err),
            res@.len() == if self.err is Some {
                5int
            } else {
                4int
            },
            res@[0]@ == "SETTITLE rbw"@,
            res@[1]@ == "SETPROMPT "@ + self.prompt@,
            res@[2]@ == "SETDESC "@ + self.desc@,
            self.err matches Some(shown) ==> res@[3]@ == "SETERROR "@ + shown@,
            res@[res@.len() - 1]@ == "GETPIN"@,
    {
        let err = match &self.err {
            Some(e) => Some(e.as_str()),
            None => None,
        };
        assert(slice_text_of(err) == text_of(self.err));
        pinentry::getpin(self.prompt.as_str(), self.desc.as_str(), err)
    }
}

/// Every question for the master password grabs the keyboard, and no other does but where its
/// provider says so. What the user is shown of an earlier attempt is shown as it is.
pub proof fn law_passwords_grab_the_keyboard(
    text: Seq<char>,
    header: Seq<char>,
    grab: bool,
    err: Option<Seq<char>>,
)
    ensures
        password_prompt(text, err).grab,
        !client_id_prompt(text, err).grab,
        !client_secret_prompt(text, err).grab,
        !new_device_prompt(err).grab,
        code_prompt(header, text, grab, err).grab == grab,
        password_prompt(text, err).err == err,
        client_id_prompt(text, err).err == err,
        client_secret_prompt(text, err).err == err,
        new_device_prompt(err).err == err,
        code_prompt(header, text, grab, err).err == err,
        client_id_prompt(text, err).prompt == client_secret_prompt(text, err).prompt,
        client_id_prompt(text, err).desc != client_secret_prompt(text, err).desc,
        text.is_suffix_of(client_id_prompt(text, err).prompt),
{
    reveal_strlit("API key client__id");
    reveal_strlit("API key client__secret");
    assert("API key client__id"@.len() != "API key client__secret"@.len());
    let prompt = client_id_prompt(text, err).prompt;
    assert(prompt.skip(prompt.len() - text.len()) =~= text);
}

/// The failure that a code which is no text is.
pub open spec fn code_failure(message: Seq<char>) -> FailureView {
    FailureView { error: ErrorView::InvalidUtf8, messages: seq![message] }.context(
        "code was not valid utf8"@,
    )
}

/// The text of a code that the user has typed; `message` tells what is wrong with one that is
/// not text.
pub fn code_text(code: &[u8], message: String) -> (res: Result<String, Failure>)
    ensures
        valid_utf8(code@) ==> (res matches Ok(text) && text@ == decode_utf8(code@)),
        !valid_utf8(code@) ==> (res matches Err(e) && e@ == code_failure(message@)),
        res matches Err(e) ==> e.error is InvalidUtf8 && e@.messages == seq![
            "code was not valid utf8"@,
            message@,
        ],
{
    match utf8_text(code) {
        Some(text) => Ok(text),
        None => Err(Failure::new(Error::InvalidUtf8, message).context("code was not valid utf8")),
    }
}

} // verus!
