//! How a connection proves who it is: a password, or an OAuth2 access token
//! presented through SASL `XOAUTH2`.

use vstd::prelude::*;
use vstd::string::*;
use crate::text::Text;

verus! {

broadcast use vstd::string::group_string_axioms;

/// What an account signs in with.
pub enum Auth {
    Password(String),
    /// Access tokens of the named account, fetched anew for each connection.
    OAuth(String),
}

/// What an [`Auth`] holds.
#[verifier::ext_equal]
pub enum AuthModel {
    Password(Text),
    OAuth(Text),
}

impl View for Auth {
    type V = AuthModel;

    open spec fn view(&self) -> AuthModel {
        match self {
            Auth::Password(p) => AuthModel::Password(p@),
            Auth::OAuth(account) => AuthModel::OAuth(account@),
        }
    }
}

impl Clone for Auth {
    fn clone(&self) -> (r: Self)
        ensures
            r@ == self@,
    {
        match self {
            Auth::Password(p) => Auth::Password(p.clone()),
            Auth::OAuth(account) => Auth::OAuth(account.clone()),
        }
    }
}

/// How a connection logs in.
pub enum Login {
    /// `LOGIN` with a user name and a password.
    Password { username: String, password: String },
    /// `AUTHENTICATE XOAUTH2` with this initial response.
    XOAuth2 { authenticator: XOAuth2 },
}

impl Auth {
    /// Signing in with a password.
    pub fn password(password: String) -> (r: Self)
        ensures
            r@ == AuthModel::Password(password@),
    {
        Auth::Password(password)
    }

    /// Whether signing in takes an access token.
    pub fn is_oauth(&self) -> (r: bool)
        ensures
            r == (self@ is OAuth),
    {
        match self {
            Auth::OAuth(_) => true,
            Auth::Password(_) => false,
        }
    }

    /// The secret, where it is known without asking: a password hands itself
    /// back, an access token has to be asked for.
    pub fn known_secret(&self) -> (r: Option<String>)
        ensures
            r.deep_view() == secret_at_hand(self@),
    {
        match self {
            Auth::Password(p) => Some(p.clone()),
            Auth::OAuth(_) => None,
        }
    }

    /// How a connection logs in with the secret of the moment.
    pub fn login(&self, username: &str, secret: &str) -> (r: Login)
        ensures
            logs_in(self@, username@, secret@, r),
    {
        match self {
            Auth::Password(_) => Login::Password {
                username: username.to_owned(),
                password: secret.to_owned(),
            },
            Auth::OAuth(_) => Login::XOAuth2 { authenticator: XOAuth2::new(username, secret) },
        }
    }
}

/// The secret that is known without asking: a password, but no access token.
pub open spec fn secret_at_hand(auth: AuthModel) -> Option<Text> {
    match auth {
        AuthModel::Password(p) => Some(p),
        AuthModel::OAuth(_) => None,
    }
}

/// Whether a login is the one for a user with the secret of the moment.
pub open spec fn logs_in(auth: AuthModel, username: Text, secret: Text, login: Login) -> bool {
    match (auth, login) {
        (AuthModel::Password(_), Login::Password { username: u, password: p }) => u@ == username && p@
            == secret,
        (AuthModel::OAuth(_), Login::XOAuth2 { authenticator }) => authenticator@ == Some(
            initial_response(username, secret),
        ),
        _ => false,
    }
}

/// What a challenge is answered with: the initial response if it was not given
/// yet, and then nothing.
pub open spec fn next_response(waiting: Option<Text>) -> Text {
    match waiting {
        Some(response) => response,
        None => seq![],
    }
}

/// The SASL `XOAUTH2` initial client response: user and bearer token, each
/// closed by a control-A, and one more at the end.
pub open spec fn initial_response(user: Text, access_token: Text) -> Text {
    "user="@ + user + "\x01auth=Bearer "@ + access_token + "\x01\x01"@
}

/// The SASL `XOAUTH2` initial client response.
pub fn xoauth2_initial_response(user: &str, access_token: &str) -> (r: String)
    ensures
        r@ == initial_response(user@, access_token@),
{
    let mut r = "user=".to_owned();
    r.append(user);
    r.append("\x01auth=Bearer ");
    r.append(access_token);
    r.append("\x01\x01");
    r
}

/// The authenticator for `AUTHENTICATE XOAUTH2`: the first challenge gets the
/// initial response. A server that rejects the token sends a second one with
/// an error description, which has to be acknowledged with nothing.
pub struct XOAuth2 {
    response: Option<String>,
}

impl View for XOAuth2 {
    type V = Option<Text>;

    closed spec fn view(&self) -> Option<Text> {
        self.response.deep_view()
    }
}

impl XOAuth2 {
    /// An authenticator that has not answered yet.
    pub fn new(user: &str, access_token: &str) -> (r: Self)
        ensures
            r@ == Some(initial_response(user@, access_token@)),
    {
        XOAuth2 { response: Some(xoauth2_initial_response(user, access_token)) }
    }

    /// The answer to a challenge: the initial response once, then nothing.
    pub fn process(&mut self, _challenge: &[u8]) -> (r: String)
        ensures
            r@ == next_response(old(self)@),
            final(self)@ is None,
    {
        match self.response.take() {
            Some(response) => response,
            None => {
                let empty = String::new();
                assert(empty@ =~= seq![]);
                empty
            },
        }
    }
}

} // verus!
