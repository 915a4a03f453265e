//! The login to the LiquidBounce client account, which unlocks what premium users get.

use vstd::prelude::*;
use crate::app::client_api::UserInformation;
use crate::utils::assoc::{assoc_find, assoc_position, lemma_assoc_find};
use crate::utils::text::{decimal, push_decimal, push_str};
use vstd::string::StringSliceAdditionalSpecFns;

verus! {

/// A client account session: its tokens, when it expires, and the user it belongs to once
/// asked.
pub struct ClientAccount {
    access_token: String,
    /// Seconds since the epoch.
    expires_at: u64,
    refresh_token: String,
    user_information: Option<UserInformation>,
}

impl ClientAccount {
    /// A session with these tokens, expiring at `expires_at` (seconds since the epoch); who it
    /// belongs to is not known yet.
    pub fn new(access_token: String, expires_at: u64, refresh_token: String) -> (r: Self)
        ensures
            r.access_token_spec() == access_token,
            r.expires_at_spec() == expires_at,
            r.refresh_token_spec() == refresh_token,
            r.user_information_spec() is None,
    {
        ClientAccount { access_token, expires_at, refresh_token, user_information: None }
    }

    pub closed spec fn access_token_spec(&self) -> String {
        self.access_token
    }

    pub closed spec fn expires_at_spec(&self) -> u64 {
        self.expires_at
    }

    pub closed spec fn refresh_token_spec(&self) -> String {
        self.refresh_token
    }

    pub closed spec fn user_information_spec(&self) -> Option<UserInformation> {
        self.user_information
    }

    /// Whether the session has expired at `now`, in seconds since the epoch.
    pub fn is_expired(&self, now: u64) -> (r: bool)
        ensures
            r == (self.expires_at_spec() < now),
    {
        self.expires_at < now
    }

    /// The token a request to the API is authorized with at `now`; refused once the session
    /// has expired.
    pub fn authenticate_request(&self, now: u64) -> (r: Result<&String, String>)
        ensures
            self.expires_at_spec() < now ==> (r matches Err(message) && message@
                == "Your client account session has expired! Re-login!"@),
            self.expires_at_spec() >= now ==> r == Ok::<&String, String>(&self.access_token_spec()),
    {
        if self.is_expired(now) {
            let mut message = String::new();
            push_str(&mut message, "Your client account session has expired! Re-login!");
            return Err(message);
        }
        Ok(&self.access_token)
    }

    pub fn get_access_token(&self) -> (r: &String)
        ensures
            *r == self.access_token_spec(),
    {
        &self.access_token
    }

    pub fn get_refresh_token(&self) -> (r: &String)
        ensures
            *r == self.refresh_token_spec(),
    {
        &self.refresh_token
    }

    pub fn get_expires_at(&self) -> (r: u64)
        ensures
            r == self.expires_at_spec(),
    {
        self.expires_at
    }

    /// Records who the session belongs to, as the API told.
    pub fn set_user_information(&mut self, user_information: UserInformation)
        ensures
            final(self).user_information_spec() == Some(user_information),
            final(self).access_token_spec() == old(self).access_token_spec(),
            final(self).expires_at_spec() == old(self).expires_at_spec(),
            final(self).refresh_token_spec() == old(self).refresh_token_spec(),
    {
        self.user_information = Some(user_information);
    }

    pub fn get_user_information(&self) -> (r: &Option<UserInformation>)
        ensures
            *r == self.user_information_spec(),
    {
        &self.user_information
    }
}

/// Logs in to the client account through the browser, with OAuth and a redirect to the
/// launcher.
pub struct ClientAccountAuthenticator;

impl ClientAccountAuthenticator {
    /// Where the user authorizes the launcher.
    pub fn auth_url() -> (r: String)
        ensures
            r@ == "https://auth.liquidbounce.net/application/o/authorize/"@,
    {
        let mut r = String::new();
        push_str(&mut r, "https://auth.liquidbounce.net/application/o/authorize/");
        r
    }

    /// Where the launcher exchanges codes and refresh tokens for tokens.
    pub fn token_url() -> (r: String)
        ensures
            r@ == "https://auth.liquidbounce.net/application/o/token/"@,
    {
        let mut r = String::new();
        push_str(&mut r, "https://auth.liquidbounce.net/application/o/token/");
        r
    }

    /// Where the browser is sent back to once the user authorized the launcher: the launcher's
    /// own listener at `ip` and `port`.
    pub fn redirect_uri(ip: &str, port: u16) -> (r: String)
        ensures
            r@ == "http://"@ + ip@ + ":"@ + decimal(port as nat) + "/"@,
    {
        let mut r = String::new();
        push_str(&mut r, "http://");
        push_str(&mut r, ip);
        push_str(&mut r, ":");
        push_decimal(&mut r, port as u64);
        push_str(&mut r, "/");
        r
    }

    /// The code and the state the redirect brought, from its query (each a key and a value, in
    /// order): the first of each; refused where either is missing.
    pub fn authorization(pairs: &Vec<(String, String)>) -> (r: Result<(String, String), String>)
        ensures
            match (assoc_find(pairs@, "code"@), assoc_find(pairs@, "state"@)) {
                (Some(c), Some(st)) => r matches Ok((code, state)) && code == pairs@[c].1 && state
                    == pairs@[st].1,
                (None, _) => r matches Err(message) && message@ == "Missing code in the response"@,
                (Some(_), None) => r matches Err(message) && message@ == "Missing state in the response"@,
            },
    {
        let code_key = owned("code");
        let state_key = owned("state");
        proof {
            lemma_assoc_find(pairs@, "code"@);
            lemma_assoc_find(pairs@, "state"@);
        }
        let code = match assoc_position(pairs, &code_key) {
            Some(c) => pairs[c].1.clone(),
            None => return Err(owned("Missing code in the response")),
        };
        let state = match assoc_position(pairs, &state_key) {
            Some(st) => pairs[st].1.clone(),
            None => return Err(owned("Missing state in the response")),
        };
        Ok((code, state))
    }

    /// What the launcher's listener answers the browser with: the page that tells the user to
    /// go back to the launcher, with its length in bytes.
    pub fn success_response(html: &str) -> (r: String)
        ensures
            r@ == "HTTP/1.1 200 OK\r\ncontent-type: text/html\r\ncontent-length: "@ + decimal(
                html.spec_bytes().len(),
            ) + "\r\n\r\n"@ + html@,
    {
        let mut r = String::new();
        push_str(&mut r, "HTTP/1.1 200 OK\r\ncontent-type: text/html\r\ncontent-length: ");
        let bytes = html.as_bytes();
        push_decimal(&mut r, bytes.len() as u64);
        push_str(&mut r, "\r\n\r\n");
        push_str(&mut r, html);
        r
    }

    /// The session a token response opens at `now` (seconds since the epoch): it expires
    /// `expires_in` seconds later; refused where the response gives no lifetime or no refresh
    /// token, in that order.
    pub fn session(
        access_token: String,
        expires_in: Option<u64>,
        refresh_token: Option<String>,
        now: u64,
    ) -> (r: Result<ClientAccount, String>)
        requires
            expires_in matches Some(e) ==> now + e <= i64::MAX,
        ensures
            match expires_in {
                None => r matches Err(message) && message@ == "Missing expires_in"@,
                Some(e) => match refresh_token {
                    None => r matches Err(message) && message@ == "Missing refresh token"@,
                    Some(t) => r matches Ok(account) && account.access_token_spec() == access_token
                        && account.expires_at_spec() == now + e && account.refresh_token_spec() == t
                        && account.user_information_spec() is None,
                },
            },
    {
        let e = match expires_in {
            Some(e) => e,
            None => return Err(owned("Missing expires_in")),
        };
        let t = match refresh_token {
            Some(t) => t,
            None => return Err(owned("Missing refresh token")),
        };
        Ok(ClientAccount::new(access_token, now + e, t))
    }
}

fn owned(s: &str) -> (r: String)
    ensures
        r@ == s@,
{
    let mut r = String::new();
    push_str(&mut r, s);
    r
}

} // verus!
