//! User-facing message texts for form validation and error reporting.

use vstd::prelude::*;

verus! {

/// The messages the site shows to end users. Backend failures and
/// client-attributable failures alike surface through these generic texts;
/// details stay in server-side logs.
#[derive(PartialEq, Eq, Structural, Clone, Copy, Debug)]
pub enum SiteMessages {
    GenericError,
    CAPTCHAFailed,
    UsernameInUse,
    UsernameInvalid,
    LoginFailed,
    PasswordIncorrect,
    PasswordsDontMatch,
}

impl SiteMessages {
    /// The text shown to the end user for this message.
    pub open spec fn spec_description(self) -> Seq<char> {
        match self {
            SiteMessages::GenericError => "An internal error occurred. Please try again or contact the site admin."@,
            SiteMessages::CAPTCHAFailed => "Invalid CAPTCHA response."@,
            SiteMessages::UsernameInvalid => "Username contains invalid characters."@,
            SiteMessages::UsernameInUse => "Username is in use."@,
            SiteMessages::LoginFailed => "Invalid username/password."@,
            SiteMessages::PasswordIncorrect => "Password is incorrect."@,
            SiteMessages::PasswordsDontMatch => "Passwords don't match."@,
        }
    }

    pub fn description(&self) -> (r: &'static str)
        ensures
            r@ == self.spec_description(),
    {
        match self {
            SiteMessages::GenericError => "An internal error occurred. Please try again or contact the site admin.",
            SiteMessages::CAPTCHAFailed => "Invalid CAPTCHA response.",
            SiteMessages::UsernameInvalid => "Username contains invalid characters.",
            SiteMessages::UsernameInUse => "Username is in use.",
            SiteMessages::LoginFailed => "Invalid username/password.",
            SiteMessages::PasswordIncorrect => "Password is incorrect.",
            SiteMessages::PasswordsDontMatch => "Passwords don't match.",
        }
    }

    /// The form field a message attaches to, where one applies.
    pub open spec fn spec_field_name(self) -> Option<Seq<char>> {
        match self {
            SiteMessages::UsernameInUse => Some("username"@),
            SiteMessages::PasswordIncorrect => Some("current_password"@),
            SiteMessages::PasswordsDontMatch => Some("verify_password"@),
            _ => None,
        }
    }

    pub fn field_name(&self) -> (r: Option<&'static str>)
        ensures
            match r {
                Some(s) => self.spec_field_name() == Some(s@),
                None => self.spec_field_name() is None,
            },
    {
        match self {
            SiteMessages::UsernameInUse => Some("username"),
            SiteMessages::PasswordIncorrect => Some("current_password"),
            SiteMessages::PasswordsDontMatch => Some("verify_password"),
            _ => None,
        }
    }

    /// The description as an owned `String`.
    pub fn to_string(&self) -> (r: String)
        ensures
            r@ == self.spec_description(),
    {
        self.description().to_owned()
    }
}

} // verus!
