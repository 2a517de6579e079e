//! How to authenticate with a remote.
use crate::text::text_of;
use vstd::prelude::*;

verus! {

/// How to authenticate with a remote.
#[derive(Debug)]
pub enum Credentials {
    /// As this user, with a key of the SSH agent.
    SshAgent(String),
    /// Not at all, for this reason.
    Unsupported(String),
}

/// Decides how to authenticate with the remote at `url`, given the user that the URL names, if
/// any: only a named user can be authenticated.
pub fn choose_credentials(url: &str, username: Option<String>) -> (credentials: Credentials)
    ensures
        match text_of(username) {
            Some(name) => credentials matches Credentials::SshAgent(user) && user@ == name,
            None => credentials matches Credentials::Unsupported(reason) && reason@
                == "Unsupported authentication mode for "@ + url@,
        },
{
    match username {
        Some(name) => Credentials::SshAgent(name),
        None => {
            let mut reason = "Unsupported authentication mode for ".to_owned();
            reason.append(url);
            Credentials::Unsupported(reason)
        },
    }
}

/// A user that the URL names is authenticated by the agent under that very name, whatever the URL;
/// without one the refusal names the URL.
pub proof fn law_only_a_named_user_is_authenticated(
    url: &str,
    username: Option<String>,
    credentials: Credentials,
)
    requires
        call_ensures(choose_credentials, (url, username), credentials),
    ensures
        username matches Some(name) ==> (credentials matches Credentials::SshAgent(user) && user@
            == name@),
        username is None ==> (credentials matches Credentials::Unsupported(reason) && reason@
            == "Unsupported authentication mode for "@ + url@),
{
}

} // verus!
