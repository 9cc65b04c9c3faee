//! Credentials for one authentication.

use vstd::prelude::*;

verus! {

/// A user name without the qualifier of the local machine, a dot and a
/// backslash, where a qualified name stands behind that.
pub open spec fn without_local_qualifier(text: Seq<char>) -> Seq<char> {
    if text.len() >= 2 && text[0] == '.' && text[1] == '\\' && text.skip(2).contains('\\') {
        text.skip(2)
    } else {
        text
    }
}

/// Whether a backslash at `i` parts a domain from an account: it is the only
/// one, no at sign stands in the domain, and none in an account without one.
pub open spec fn qualified_at(name: Seq<char>, i: int) -> bool {
    let domain = name.take(i);
    let account = name.skip(i + 1);
    &&& 0 <= i < name.len()
    &&& name[i] == '\\'
    &&& !domain.contains('\\')
    &&& !account.contains('\\')
    &&& !domain.contains('@')
    &&& domain.len() == 0 ==> !account.contains('@')
}

/// Whether the at sign at `i` is the last one of a name.
pub open spec fn principal_at(name: Seq<char>, i: int) -> bool {
    0 <= i < name.len() && name[i] == '@' && !name.skip(i + 1).contains('@')
}

/// The account that a user name names: none where it mixes two forms of names.
/// Behind a domain and a backslash the rest is the account; without a
/// backslash it is what stands before the last at sign, or all of the name.
pub open spec fn account_in(text: Seq<char>) -> Option<Seq<char>> {
    let name = without_local_qualifier(text);
    if name.contains('\\') {
        if exists|i: int| qualified_at(name, i) {
            Some(name.skip((choose|i: int| qualified_at(name, i)) + 1))
        } else {
            None
        }
    } else if name.contains('@') {
        Some(name.take(choose|i: int| principal_at(name, i)))
    } else {
        Some(name)
    }
}

/// `sspi::Username::parse`, and `sspi::Username::account_name` of what it
/// returns: the account that the text names, and none where the text is
/// refused.
#[verifier::external_body]
fn parse_account(text: &str) -> (account: Option<String>)
    ensures
        match account {
            Some(account) => account_in(text@) == Some(account@),
            None => account_in(text@) is None,
        },
{
    sspi::Username::parse(text).ok().map(|username| username.account_name().to_string())
}

#[derive(Clone, Copy, Debug, PartialEq, Eq, Structural)]
pub enum CredentialError {
    /// The user name mixes two forms of names.
    InvalidUsername,
}

/// Who authenticates, and with what. The password shows in no output.
#[derive(PartialEq, Eq)]
pub struct AuthIdentity {
    username: String,
    account_name: String,
    password: String,
}

#[verifier::ext_equal]
pub struct IdentityView {
    pub username: Seq<char>,
    pub account_name: Seq<char>,
    pub password: Seq<char>,
}

impl View for AuthIdentity {
    type V = IdentityView;

    closed spec fn view(&self) -> IdentityView {
        IdentityView {
            username: self.username@,
            account_name: self.account_name@,
            password: self.password@,
        }
    }
}

impl AuthIdentity {
    /// An identity for a user name whose account is known.
    pub fn with_account(username: String, account_name: Option<String>, password: String) -> (
        identity: Result<Self, CredentialError>)
        ensures
            match account_name {
                Some(account_name) => identity matches Ok(identity) && identity@ == (IdentityView {
                    username: username@,
                    account_name: account_name@,
                    password: password@,
                }),
                None => identity == Err::<AuthIdentity, CredentialError>(
                    CredentialError::InvalidUsername,
                ),
            },
    {
        match account_name {
            Some(account_name) => Ok(AuthIdentity { username, account_name, password }),
            None => Err(CredentialError::InvalidUsername),
        }
    }

    /// An identity for a user name.
    pub fn new(username: String, password: String) -> (identity: Result<Self, CredentialError>)
        ensures
            match account_in(username@) {
                Some(account_name) => identity matches Ok(identity) && identity@ == (IdentityView {
                    username: username@,
                    account_name,
                    password: password@,
                }),
                None => identity == Err::<AuthIdentity, CredentialError>(
                    CredentialError::InvalidUsername,
                ),
            },
    {
        let account_name = parse_account(username.as_str());
        Self::with_account(username, account_name, password)
    }

    pub fn username(&self) -> (username: &str)
        ensures
            username@ == self@.username,
    {
        self.username.as_str()
    }

    pub fn account_name(&self) -> (account_name: &str)
        ensures
            account_name@ == self@.account_name,
    {
        self.account_name.as_str()
    }

    pub fn password(&self) -> (password: &str)
        ensures
            password@ == self@.password,
    {
        self.password.as_str()
    }
}

/// Hands out one identity, as often as it is asked for.
pub struct StaticCredentialProvider {
    identity: AuthIdentity,
}

impl StaticCredentialProvider {
    pub closed spec fn held(&self) -> IdentityView {
        self.identity@
    }

    pub fn new(identity: AuthIdentity) -> (provider: Self)
        ensures
            provider.held() == identity@,
    {
        StaticCredentialProvider { identity }
    }

    /// A fresh copy of the identity, for one authentication.
    pub fn identity(&self) -> (identity: AuthIdentity)
        ensures
            identity@ == self.held(),
    {
        AuthIdentity {
            username: self.identity.username.clone(),
            account_name: self.identity.account_name.clone(),
            password: self.identity.password.clone(),
        }
    }
}

/// In a name without the two separators all is account. Behind a domain and the
/// only backslash the rest is, whatever at signs stand in it. Without a
/// backslash it is what stands before the last at sign.
pub proof fn accounts_are_found(text: Seq<char>, i: int)
    ensures
        !text.contains('\\') && !text.contains('@') ==> account_in(text) == Some(text),
        qualified_at(text, i) ==> account_in(text) == Some(text.skip(i + 1)),
        !text.contains('\\') && principal_at(text, i) ==> account_in(text) == Some(text.take(i)),
{
    let name = without_local_qualifier(text);
    if !text.contains('\\') {
        if text.len() >= 2 && text[1] == '\\' {
            assert(text.contains(text[1]));
        }
        assert(name == text);
        if principal_at(text, i) {
            assert(text.contains(text[i]));
            let j = choose|j: int| principal_at(text, j);
            if i < j {
                assert(text.skip(i + 1)[j - i - 1] == '@');
            } else if j < i {
                assert(text.skip(j + 1)[i - j - 1] == '@');
            }
        }
    } else if qualified_at(text, i) {
        if name != text {
            let rest = text.skip(2);
            let k = choose|k: int| 0 <= k < rest.len() && rest[k] == '\\';
            assert(text[k + 2] == '\\' && text[1] == '\\');
            parted_once(text, i, 1);
            parted_once(text, i, k + 2);
        }
        let j = choose|j: int| qualified_at(text, j);
        parted_once(text, i, j);
    }
}

proof fn parted_once(name: Seq<char>, i: int, j: int)
    requires
        qualified_at(name, i),
        0 <= j < name.len(),
        name[j] == '\\',
    ensures
        j == i,
{
    if j < i {
        assert(name.take(i)[j] == '\\');
    } else if j > i {
        assert(name.skip(i + 1)[j - i - 1] == '\\');
    }
}

/// The forms of user names: an account alone, an account behind a domain and
/// a backslash, and an account before an at sign and a domain.
pub proof fn user_names_have_their_forms(account: Seq<char>, domain: Seq<char>)
    requires
        !account.contains('\\'),
        !domain.contains('\\'),
        !account.contains('@'),
        !domain.contains('@'),
    ensures
        account_in(account) == Some(account),
        account_in(domain + seq!['\\'] + account) == Some(account),
        account_in(account + seq!['@'] + domain) == Some(account),
{
    let down = domain + seq!['\\'] + account;
    let n = domain.len() as int;
    assert(down.take(n) =~= domain);
    assert(down.skip(n + 1) =~= account);
    assert(qualified_at(down, n));
    accounts_are_found(down, n);
    accounts_are_found(account, 0);
    let principal = account + seq!['@'] + domain;
    let m = account.len() as int;
    assert(principal.take(m) =~= account);
    assert(principal.skip(m + 1) =~= domain);
    assert(principal_at(principal, m));
    assert(!principal.contains('\\')) by {
        if principal.contains('\\') {
            let k = choose|k: int| 0 <= k < principal.len() && principal[k] == '\\';
            if k < m {
                assert(account[k] == '\\');
            } else if k > m {
                assert(domain[k - m - 1] == '\\');
            }
        }
    }
    accounts_are_found(principal, m);
}

} // verus!
