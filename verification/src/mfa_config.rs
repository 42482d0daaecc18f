//! Settings of the MFA delivery channels (SMS and e-mail) that the service
//! container builds from the API configuration, with the defaults used when
//! a channel is not configured.

use vstd::prelude::*;
use crate::text::{ascii_lower, chars_eq, chars_of, owned, to_ascii_lower};

verus! {

/// Length of the codes sent by SMS or e-mail.
pub const DELIVERED_CODE_LENGTH: u32 = 6;

/// How long a code sent by SMS or e-mail stays valid, in seconds.
pub const DELIVERED_CODE_SECONDS: u64 = 300;

/// SMS gateways.
#[derive(Debug, PartialEq, Eq)]
pub enum SmsProvider {
    Twilio,
    AwsSns,
    Nexmo,
    Custom { url: String },
}

/// The SMS section of the API configuration.
#[derive(Debug)]
pub struct SmsOptions {
    pub provider: String,
    pub api_key: String,
    pub from_number: String,
}

/// The settings of the SMS channel.
#[derive(Debug)]
pub struct SmsSettings {
    pub provider: SmsProvider,
    pub api_key: String,
    pub api_secret: Option<String>,
    pub from_number: String,
    pub message_template: String,
    pub code_length: u32,
    pub code_expiry_seconds: u64,
}

/// The e-mail section of the API configuration.
#[derive(Debug)]
pub struct EmailOptions {
    pub smtp_server: String,
    pub smtp_port: u16,
    pub username: String,
    pub password: String,
    pub from_address: String,
}

/// The settings of the e-mail channel.
#[derive(Debug)]
pub struct EmailSettings {
    pub smtp_server: String,
    pub smtp_port: u16,
    pub smtp_username: String,
    pub smtp_password: String,
    pub from_email: String,
    pub subject_template: String,
    pub body_template: String,
    pub code_length: u32,
    pub code_expiry_seconds: u64,
}

/// The provider is the one that a configured name selects, read without
/// regard to case (for these names ASCII case folding and full lowercasing
/// agree); an unknown name means a custom gateway on the
/// local host.
pub open spec fn provider_for(name: Seq<char>, p: SmsProvider) -> bool {
    let n = ascii_lower(name);
    if n == "twilio"@ {
        p == SmsProvider::Twilio
    } else if n == "awssns"@ || n == "aws_sns"@ {
        p == SmsProvider::AwsSns
    } else if n == "nexmo"@ {
        p == SmsProvider::Nexmo
    } else {
        p matches SmsProvider::Custom { url } && url@ == "http://localhost/sms"@
    }
}

fn lower_is(lower: &Vec<char>, word: &str) -> (b: bool)
    ensures
        b == (lower@ == word@),
{
    let w = chars_of(word);
    chars_eq(lower.as_slice(), w.as_slice())
}

/// The SMS gateway that a configured name selects.
pub fn sms_provider_of(name: &str) -> (p: SmsProvider)
    ensures
        provider_for(name@, p),
{
    let c = chars_of(name);
    let lower = to_ascii_lower(c.as_slice());
    if lower_is(&lower, "twilio") {
        SmsProvider::Twilio
    } else if lower_is(&lower, "awssns") || lower_is(&lower, "aws_sns") {
        SmsProvider::AwsSns
    } else if lower_is(&lower, "nexmo") {
        SmsProvider::Nexmo
    } else {
        SmsProvider::Custom { url: owned("http://localhost/sms") }
    }
}

/// The settings of the SMS channel: from its configuration section when
/// there is one, else a custom local gateway with placeholder credentials.
/// Either way codes are six digits, valid five minutes.
pub fn sms_settings(configured: Option<&SmsOptions>) -> (s: SmsSettings)
    ensures
        s.api_secret is None,
        s.message_template@ == "Your Secreton code is {code}"@,
        s.code_length == DELIVERED_CODE_LENGTH,
        s.code_expiry_seconds == DELIVERED_CODE_SECONDS,
        match configured {
            Some(o) => provider_for(o.provider@, s.provider) && s.api_key@ == o.api_key@
                && s.from_number@ == o.from_number@,
            None => (s.provider matches SmsProvider::Custom { url } && url@
                == "http://localhost/sms"@) && s.api_key@ == "dummy-key"@ && s.from_number@
                == "000000"@,
        },
{
    match configured {
        Some(o) => SmsSettings {
            provider: sms_provider_of(o.provider.as_str()),
            api_key: o.api_key.clone(),
            api_secret: None,
            from_number: o.from_number.clone(),
            message_template: owned("Your Secreton code is {code}"),
            code_length: DELIVERED_CODE_LENGTH,
            code_expiry_seconds: DELIVERED_CODE_SECONDS,
        },
        None => SmsSettings {
            provider: SmsProvider::Custom { url: owned("http://localhost/sms") },
            api_key: owned("dummy-key"),
            api_secret: None,
            from_number: owned("000000"),
            message_template: owned("Your Secreton code is {code}"),
            code_length: DELIVERED_CODE_LENGTH,
            code_expiry_seconds: DELIVERED_CODE_SECONDS,
        },
    }
}

/// The settings of the e-mail channel: from its configuration section when
/// there is one, else a local test relay on port 1025.  Either way codes
/// are six digits, valid five minutes.
pub fn email_settings(configured: Option<&EmailOptions>) -> (s: EmailSettings)
    ensures
        s.subject_template@ == "Secreton Verification Code"@,
        s.body_template@ == "Your verification code is: {code}"@,
        s.code_length == DELIVERED_CODE_LENGTH,
        s.code_expiry_seconds == DELIVERED_CODE_SECONDS,
        match configured {
            Some(o) => s.smtp_server@ == o.smtp_server@ && s.smtp_port == o.smtp_port
                && s.smtp_username@ == o.username@ && s.smtp_password@ == o.password@
                && s.from_email@ == o.from_address@,
            None => s.smtp_server@ == "localhost"@ && s.smtp_port == 1025 && s.smtp_username@
                == "user"@ && s.smtp_password@ == "password"@ && s.from_email@
                == "noreply@secreton.io"@,
        },
{
    match configured {
        Some(o) => EmailSettings {
            smtp_server: o.smtp_server.clone(),
            smtp_port: o.smtp_port,
            smtp_username: o.username.clone(),
            smtp_password: o.password.clone(),
            from_email: o.from_address.clone(),
            subject_template: owned("Secreton Verification Code"),
            body_template: owned("Your verification code is: {code}"),
            code_length: DELIVERED_CODE_LENGTH,
            code_expiry_seconds: DELIVERED_CODE_SECONDS,
        },
        None => EmailSettings {
            smtp_server: owned("localhost"),
            smtp_port: 1025,
            smtp_username: owned("user"),
            smtp_password: owned("password"),
            from_email: owned("noreply@secreton.io"),
            subject_template: owned("Secreton Verification Code"),
            body_template: owned("Your verification code is: {code}"),
            code_length: DELIVERED_CODE_LENGTH,
            code_expiry_seconds: DELIVERED_CODE_SECONDS,
        },
    }
}

} // verus!
