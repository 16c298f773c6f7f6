//! Connection authentication: exactly one method is chosen per attempt, by
//! precedence — private-key material first, then a password, and with neither
//! the attempt fails before any network authentication step.

use vstd::prelude::*;

verus! {

#[verifier::external_type_specification]
#[verifier::external_body]
pub struct ExPrivateKey(russh::keys::PrivateKey);

/// The one authentication method chosen for a connect attempt.
pub enum AuthMethod {
    /// Authenticate by public key, with the parsed private key.
    Key { key: russh::keys::PrivateKey },
    /// Authenticate by password.
    Password { password: String },
}

/// Mathematical model of an `AuthMethod`. The parsed key itself is opaque.
pub ghost enum AuthMethodV {
    Key,
    Password(Seq<char>),
}

impl View for AuthMethod {
    type V = AuthMethodV;

    open spec fn view(&self) -> AuthMethodV {
        match self {
            AuthMethod::Key { .. } => AuthMethodV::Key,
            AuthMethod::Password { password } => AuthMethodV::Password(password@),
        }
    }
}

/// Which method the supplied material selects: key material takes
/// precedence, a password comes second, and with neither the method is
/// missing.
pub ghost enum AuthPlanV {
    Key(Seq<char>),
    Password(Seq<char>),
    Missing,
}

/// The model of optional text material.
pub open spec fn opt_str_view(o: Option<String>) -> Option<Seq<char>> {
    match o {
        Some(s) => Some(s@),
        None => None,
    }
}

/// The authentication precedence rule.
pub open spec fn auth_plan(password: Option<Seq<char>>, private_key: Option<Seq<char>>) -> AuthPlanV {
    match private_key {
        Some(k) => AuthPlanV::Key(k),
        None => match password {
            Some(p) => AuthPlanV::Password(p),
            None => AuthPlanV::Missing,
        },
    }
}

/// Relies on `russh::keys::PrivateKey::from_openssh`: parses OpenSSH-format
/// private-key text; on failure the error's rendering becomes the message.
#[verifier::external_body]
fn parse_openssh_key(s: &str) -> (r: Result<russh::keys::PrivateKey, String>) {
    match russh::keys::PrivateKey::from_openssh(s) {
        Ok(k) => Ok(k),
        Err(e) => Err(e.to_string()),
    }
}

/// Choose and prepare the one authentication method for a connect attempt.
/// Private-key material takes precedence and must parse; a password is taken
/// as it stands; with neither, the attempt fails with `Missing auth method`
/// before any network authentication step.
pub fn prepare_auth(password: Option<String>, private_key: Option<String>) -> (r: Result<
    AuthMethod,
    String,
>)
    ensures
        match auth_plan(opt_str_view(password), opt_str_view(private_key)) {
            AuthPlanV::Missing => r matches Err(m) && m@ == "Missing auth method"@,
            AuthPlanV::Password(p) => r matches Ok(a) && a@ == AuthMethodV::Password(p),
            AuthPlanV::Key(_) => (r matches Ok(a) ==> a@ == AuthMethodV::Key),
        },
{
    match private_key {
        Some(k) => match parse_openssh_key(k.as_str()) {
            Ok(key) => Ok(AuthMethod::Key { key }),
            Err(m) => Err(m),
        },
        None => match password {
            Some(p) => Ok(AuthMethod::Password { password: p }),
            None => Err(String::from_str("Missing auth method")),
        },
    }
}

} // verus!
