//! The form for a new account: what it starts with, and what is filled in for
//! providers that are known.

use vstd::prelude::*;
use vstd::string::*;
use crate::text;
use crate::text::Text;

verus! {

broadcast use vstd::string::group_string_axioms;

/// The host that signing in with Google is offered for.
pub const GMAIL_IMAP_HOST: &'static str = "imap.gmail.com";

/// How a connection for sending is secured.
#[derive(Debug, Clone, Copy, PartialEq, Eq, Structural)]
pub enum TlsMode {
    Ssl,
    StartTls,
    Plain,
}

/// What is saved about an account, as far as the form shows it.
pub struct SavedAccount {
    pub imap_host: String,
    pub imap_port: u16,
    pub username: String,
    pub smtp_host: String,
    pub smtp_port: u16,
    pub smtp_tls: TlsMode,
    /// It signs in with Google.
    pub google: bool,
}

/// A provider's servers.
pub struct ProviderSettings {
    pub imap_host: String,
    pub imap_port: u16,
    pub smtp_host: String,
    pub smtp_port: u16,
}

/// What is typed into the form.
pub struct LoginForm {
    pub host: String,
    pub port: String,
    pub username: String,
    pub password: String,
    pub smtp_host: String,
    pub smtp_port: String,
    pub smtp_tls: TlsMode,
    /// Sign in with Google instead of a password.
    pub use_oauth: bool,
    /// The address that a provider is looked up for.
    pub wizard_email: String,
}

/// What a [`LoginForm`] holds.
#[verifier::ext_equal]
pub struct FormModel {
    pub host: Text,
    pub port: Text,
    pub username: Text,
    pub password: Text,
    pub smtp_host: Text,
    pub smtp_port: Text,
    pub smtp_tls: TlsMode,
    pub use_oauth: bool,
    pub wizard_email: Text,
}

impl View for LoginForm {
    type V = FormModel;

    open spec fn view(&self) -> FormModel {
        FormModel {
            host: self.host@,
            port: self.port@,
            username: self.username@,
            password: self.password@,
            smtp_host: self.smtp_host@,
            smtp_port: self.smtp_port@,
            smtp_tls: self.smtp_tls,
            use_oauth: self.use_oauth,
            wizard_email: self.wizard_email@,
        }
    }
}

impl FormModel {
    /// The form of someone without an account: the servers of Gmail.
    pub open spec fn first_run(google_client: bool) -> FormModel {
        FormModel {
            host: "imap.gmail.com"@,
            port: "993"@,
            username: seq![],
            password: seq![],
            smtp_host: "smtp.gmail.com"@,
            smtp_port: "465"@,
            smtp_tls: TlsMode::Ssl,
            use_oauth: google_client,
            wizard_email: seq![],
        }
    }

    /// The form filled in from a saved account.
    pub open spec fn from_account(account: SavedAccount, password: Option<Text>) -> FormModel {
        FormModel {
            host: account.imap_host@,
            port: text::decimal(account.imap_port as nat),
            username: account.username@,
            password: match password {
                Some(p) => p,
                None => seq![],
            },
            smtp_host: account.smtp_host@,
            smtp_port: text::decimal(account.smtp_port as nat),
            smtp_tls: account.smtp_tls,
            use_oauth: account.google,
            wizard_email: seq![],
        }
    }

    /// The form that is shown first: the first saved account, or an empty one.
    pub open spec fn shown_first(
        first: Option<SavedAccount>,
        password: Option<Text>,
        google_client: bool,
    ) -> FormModel {
        match first {
            Some(account) => FormModel::from_account(account, password),
            None => FormModel::first_run(google_client),
        }
    }

    /// Whether the form is about an account at Gmail.
    pub open spec fn is_gmail(self) -> bool {
        text::trim(self.host) == GMAIL_IMAP_HOST@
    }

    /// Whether host and port were left as they were: no host, or the pair the
    /// form starts with.
    pub open spec fn is_untouched(self) -> bool {
        self.host == ""@ || (self.host == "imap.gmail.com"@ && self.port == "993"@)
    }

    /// The form once a provider was recognized. A host or port that was typed is
    /// never replaced, and a choice about Google is never made a second time.
    pub open spec fn provider_applied(self, settings: ProviderSettings, google_client: bool) -> FormModel {
        if !self.is_untouched() {
            self
        } else {
            FormModel {
                host: settings.imap_host@,
                port: text::decimal(settings.imap_port as nat),
                smtp_host: settings.smtp_host@,
                smtp_port: text::decimal(settings.smtp_port as nat),
                use_oauth: if settings.imap_host@ != GMAIL_IMAP_HOST@ {
                    false
                } else if self.host.len() == 0 {
                    google_client
                } else {
                    self.use_oauth
                },
                username: if self.username.len() == 0 {
                    self.wizard_email
                } else {
                    self.username
                },
                ..self
            }
        }
    }
}

impl LoginForm {
    /// The form at the start: from the first saved account, with its password
    /// if that is known, or for someone without an account. `google_client`
    /// tells whether signing in with Google is set up.
    pub fn new(first: Option<&SavedAccount>, password: Option<String>, google_client: bool) -> (r: Self)
        ensures
            match first {
                Some(account) => r@ == FormModel::shown_first(
                    Some(*account),
                    password.deep_view(),
                    google_client,
                ),
                None => r@ == FormModel::shown_first(None, password.deep_view(), google_client),
            },
    {
        let r = match first {
            Some(account) => LoginForm {
                host: account.imap_host.clone(),
                port: text::to_decimal(account.imap_port as u64),
                username: account.username.clone(),
                password: match password {
                    Some(p) => p,
                    None => String::new(),
                },
                smtp_host: account.smtp_host.clone(),
                smtp_port: text::to_decimal(account.smtp_port as u64),
                smtp_tls: account.smtp_tls,
                use_oauth: account.google,
                wizard_email: String::new(),
            },
            None => LoginForm {
                host: "imap.gmail.com".to_owned(),
                port: "993".to_owned(),
                username: String::new(),
                password: String::new(),
                smtp_host: "smtp.gmail.com".to_owned(),
                smtp_port: "465".to_owned(),
                smtp_tls: TlsMode::Ssl,
                use_oauth: google_client,
                wizard_email: String::new(),
            },
        };
        assert(r.wizard_email@ =~= seq![]);
        assert(first is None ==> r.username@ =~= seq![] && r.password@ =~= seq![]);
        assert(password is None ==> r.password@ =~= seq![] || first is None);
        r
    }

    /// Fills in the servers of the provider that the address belongs to, if
    /// it is known.
    pub fn apply_provider_wizard(&mut self, settings: Option<&ProviderSettings>, google_client: bool)
        ensures
            final(self)@ == (match settings {
                Some(s) => old(self)@.provider_applied(*s, google_client),
                None => old(self)@,
            }),
    {
        let s = match settings {
            Some(s) => s,
            None => {
                return ;
            },
        };
        let placeholder = text::same(self.host.as_str(), "imap.gmail.com") && text::same(
            self.port.as_str(),
            "993",
        );
        if !text::same(self.host.as_str(), "") && !placeholder {
            return ;
        }
        if !text::same(s.imap_host.as_str(), GMAIL_IMAP_HOST) {
            self.use_oauth = false;
        } else if self.host.as_str().is_empty() {
            self.use_oauth = google_client;
        }
        self.host = s.imap_host.clone();
        self.port = text::to_decimal(s.imap_port as u64);
        self.smtp_host = s.smtp_host.clone();
        self.smtp_port = text::to_decimal(s.smtp_port as u64);
        if self.username.as_str().is_empty() {
            self.username = self.wizard_email.clone();
        }
    }

    /// Whether signing in with Google is offered.
    pub fn offers_google(&self) -> (r: bool)
        ensures
            r == self@.is_gmail(),
    {
        text::same(text::trimmed(self.host.as_str()).as_str(), GMAIL_IMAP_HOST)
    }
}

// ── What the form says ──────────────────────────────────────────────────────

/// Whether a character is a decimal digit.
pub open spec fn is_digit(c: char) -> bool {
    '0' <= c <= '9'
}

/// Whether a text is made of decimal digits, and of at least one.
pub open spec fn is_numeral(s: Text) -> bool {
    s.len() > 0 && forall|i: int| 0 <= i < s.len() ==> is_digit(#[trigger] s[i])
}

/// The number that decimal digits stand for.
pub open spec fn value_of(s: Text) -> nat
    decreases s.len(),
{
    if s.len() == 0 {
        0
    } else {
        value_of(s.drop_last()) * 10 + (s.last() as nat - 48) as nat
    }
}

/// A port that was typed: digits, perhaps behind a plus sign, that stand for a
/// number which fits.
pub open spec fn port_of(s: Text) -> Option<u16> {
    let digits = if s.len() > 0 && s[0] == '+' {
        s.skip(1)
    } else {
        s
    };
    if is_numeral(digits) && value_of(digits) <= u16::MAX {
        Some(value_of(digits) as u16)
    } else {
        None
    }
}

/// More digits stand for no smaller number.
proof fn lemma_value_grows(s: Text, n: int)
    requires
        0 <= n <= s.len(),
    ensures
        value_of(s.take(n)) <= value_of(s),
    decreases s.len(),
{
    if n == s.len() {
        assert(s.take(n) =~= s);
    } else {
        assert(s.drop_last().take(n) =~= s.take(n));
        lemma_value_grows(s.drop_last(), n);
    }
}

/// Reads a port that was typed.
pub fn read_port(s: &str) -> (r: Option<u16>)
    ensures
        r == port_of(s@),
{
    let v = text::chars_of(s);
    let from: usize = if v.len() > 0 && v[0] == '+' {
        1
    } else {
        0
    };
    let ghost digits = v@.skip(from as int);
    assert(from == 0 ==> digits =~= v@);
    if from == v.len() {
        return None;
    }
    let mut n: u32 = 0;
    let mut i: usize = from;
    assert(digits.take(0) =~= Seq::<char>::empty());
    while i < v.len()
        invariant
            v@ == s@,
            from <= i <= v@.len(),
            from < v@.len(),
            digits == v@.skip(from as int),
            digits == (if s@.len() > 0 && s@[0] == '+' {
                s@.skip(1)
            } else {
                s@
            }),
            n <= u16::MAX,
            n == value_of(digits.take(i - from)),
            forall|k: int| 0 <= k < i - from ==> is_digit(#[trigger] digits[k]),
        decreases v@.len() - i,
    {
        let c = v[i];
        assert(digits[i - from] == c);
        assert(digits.take(i - from + 1).drop_last() =~= digits.take(i - from));
        if c < '0' || c > '9' {
            return None;
        }
        n = n * 10 + (c as u32 - 48);
        if n > 65535 {
            proof {
                lemma_value_grows(digits, i - from + 1);
            }
            return None;
        }
        i += 1;
    }
    assert(digits.take(digits.len() as int) =~= digits);
    Some(n as u16)
}

/// What a [`SavedAccount`] holds.
#[verifier::ext_equal]
pub struct AccountSettings {
    pub imap_host: Text,
    pub imap_port: u16,
    pub username: Text,
    pub smtp_host: Text,
    pub smtp_port: u16,
    pub smtp_tls: TlsMode,
    pub google: bool,
}

impl View for SavedAccount {
    type V = AccountSettings;

    open spec fn view(&self) -> AccountSettings {
        AccountSettings {
            imap_host: self.imap_host@,
            imap_port: self.imap_port,
            username: self.username@,
            smtp_host: self.smtp_host@,
            smtp_port: self.smtp_port,
            smtp_tls: self.smtp_tls,
            google: self.google,
        }
    }
}

impl DeepView for SavedAccount {
    type V = AccountSettings;

    open spec fn deep_view(&self) -> AccountSettings {
        self.view()
    }
}

impl AccountSettings {
    /// What an account is known by: its user at its server.
    pub open spec fn id(self) -> Text {
        self.username + "@"@ + self.imap_host
    }
}

impl FormModel {
    /// The account that the form describes, if both ports are numbers. Signing in
    /// with Google counts only where it is offered.
    pub open spec fn entered(self) -> Option<AccountSettings> {
        match (port_of(text::trim(self.port)), port_of(text::trim(self.smtp_port))) {
            (Some(imap_port), Some(smtp_port)) => Some(
                AccountSettings {
                    imap_host: text::trim(self.host),
                    imap_port,
                    username: text::trim(self.username),
                    smtp_host: text::trim(self.smtp_host),
                    smtp_port,
                    smtp_tls: self.smtp_tls,
                    google: self.use_oauth && text::trim(self.host) == GMAIL_IMAP_HOST@,
                },
            ),
            _ => None,
        }
    }
}

impl SavedAccount {
    /// What the account is known by: its user at its server.
    pub fn id(&self) -> (r: String)
        ensures
            r@ == self@.id(),
    {
        let mut r = self.username.clone();
        r.append("@");
        r.append(self.imap_host.as_str());
        r
    }
}

impl LoginForm {
    /// The account that the form describes, if both ports are numbers.
    pub fn account_from_form(&self) -> (r: Option<SavedAccount>)
        ensures
            r.deep_view() == self@.entered(),
    {
        let imap_port = read_port(text::trimmed(self.port.as_str()).as_str());
        let smtp_port = read_port(text::trimmed(self.smtp_port.as_str()).as_str());
        match (imap_port, smtp_port) {
            (Some(imap_port), Some(smtp_port)) => {
                let google = self.use_oauth && self.offers_google();
                Some(
                    SavedAccount {
                        imap_host: text::trimmed(self.host.as_str()),
                        imap_port,
                        username: text::trimmed(self.username.as_str()),
                        smtp_host: text::trimmed(self.smtp_host.as_str()),
                        smtp_port,
                        smtp_tls: self.smtp_tls,
                        google,
                    },
                )
            },
            _ => None,
        }
    }
}

// ── Laws ────────────────────────────────────────────────────────────────────

/// A host that someone typed is never replaced, nor a port that someone gave the
/// host the form starts with, nor anything else in the form.
pub proof fn law_typed_host_is_kept(form: FormModel, settings: ProviderSettings, google_client: bool)
    requires
        form.host != ""@,
        form.host != "imap.gmail.com"@ || form.port != "993"@,
    ensures
        form.provider_applied(settings, google_client) == form,
{
}

/// Someone who chose not to sign in with Google does not see that choice made
/// again by what they type next.
pub proof fn law_google_choice_is_kept(form: FormModel, settings: ProviderSettings, google_client: bool)
    requires
        form.host == GMAIL_IMAP_HOST@,
        !form.use_oauth,
    ensures
        !form.provider_applied(settings, google_client).use_oauth,
{
    reveal_strlit("imap.gmail.com");
}

pub proof fn lemma_decimal_is_read(n: nat)
    ensures
        is_numeral(text::decimal(n)),
        value_of(text::decimal(n)) == n,
    decreases n,
{
    let s = text::decimal(n);
    let d = n % 10;
    assert(d < 10);
    assert(text::digit(d) as nat == d + 48);
    if n < 10 {
        assert(s.drop_last() =~= seq![]);
        assert(value_of(s.drop_last()) == 0);
    } else {
        lemma_decimal_is_read(n / 10);
        assert(s.drop_last() =~= text::decimal(n / 10));
        assert forall|i: int| 0 <= i < s.len() implies is_digit(#[trigger] s[i]) by {
            if i < s.len() - 1 {
                assert(s[i] == text::decimal(n / 10)[i]);
            }
        }
    }
}

proof fn lemma_port_is_read(port: u16)
    ensures
        port_of(text::trim(text::decimal(port as nat))) == Some(port),
{
    let s = text::decimal(port as nat);
    lemma_decimal_is_read(port as nat);
    assert(is_digit(s[0]) && is_digit(s[s.len() - 1]));
    assert(text::trim_start(s) == s);
    assert(text::trim_end(s) == s);
    assert(text::trim(s) == s);
}

/// A form that was filled in from a saved account describes that account, as
/// long as no name in it begins or ends with whitespace and only an account at
/// Gmail signs in with Google.
pub proof fn law_a_saved_account_is_entered_again(account: SavedAccount, password: Option<Text>)
    requires
        text::trim(account.imap_host@) == account.imap_host@,
        text::trim(account.username@) == account.username@,
        text::trim(account.smtp_host@) == account.smtp_host@,
        account.google ==> account.imap_host@ == GMAIL_IMAP_HOST@,
    ensures
        FormModel::from_account(account, password).entered() == Some(account@),
{
    lemma_port_is_read(account.imap_port);
    lemma_port_is_read(account.smtp_port);
}

} // verus!
