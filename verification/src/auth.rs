//! The syntax of the account configuration. Who may log in is not decided here.
use crate::paths;
use crate::paths::name_precedes;
use crate::text;
use crate::text::{decimal_text, str_eq};
use vstd::prelude::*;
use vstd::string::*;
use vstd::utf8::*;

verus! {

/// On whose behalf files are changed. The name is kept with durable records, so
/// it never changes.
#[derive(Clone, Debug)]
pub struct FilePrincipal {
    pub username: String,
}

/// The accounts of a configuration. Password hashes stay private: nothing but
/// the user names is ever shown.
pub struct AuthConfig {
    users: Vec<(String, String)>,
}

/// The accounts, in the order of their user names.
pub open spec fn account_list(users: Seq<(String, String)>) -> Seq<(Seq<char>, Seq<char>)> {
    Seq::new(users.len(), |i: int| (users[i].0@, users[i].1@))
}

/// Every user name comes before the ones after it; in particular none occurs
/// twice.
pub open spec fn has_sorted_names(accounts: Seq<(Seq<char>, Seq<char>)>) -> bool {
    forall|i: int, j: int|
        0 <= i < j < accounts.len() ==> paths::name_less(
            encode_utf8(#[trigger] accounts[i].0),
            encode_utf8(#[trigger] accounts[j].0),
        )
}

/// What is wrong with an account.
#[derive(Clone, Copy, Debug, Eq, PartialEq, Structural)]
pub enum AccountFault {
    NoSeparator,
    EmptyField,
    InvalidUsername,
    DuplicateUsername,
    InvalidPasswordHash,
}

/// Why a configuration is refused.
#[derive(Clone, Copy, Debug, Eq, PartialEq, Structural)]
pub enum AuthConfigError {
    TooManyAdministrators,
    /// The account of this number, from one on.
    Account { number: usize, fault: AccountFault },
}

impl AuthConfigError {
    pub open spec fn shown(self) -> Seq<char> {
        match self {
            AuthConfigError::TooManyAdministrators => "This system allows only one administrator"@,
            AuthConfigError::Account { number, fault } => match fault {
                AccountFault::NoSeparator => "Invalid auth account #"@ + text::decimal(
                    number as nat,
                ) + ": expected `username:<argon2id PHC>`"@,
                AccountFault::EmptyField => "Invalid auth account #"@ + text::decimal(number as nat)
                    + ": administrator username and Argon2id PHC must not be empty"@,
                AccountFault::InvalidUsername => "Invalid administrator username in auth account #"@
                    + text::decimal(number as nat) + ""@,
                AccountFault::DuplicateUsername => "Invalid auth account #"@ + text::decimal(
                    number as nat,
                ) + ": duplicate administrator username"@,
                AccountFault::InvalidPasswordHash => "Invalid Argon2id PHC in auth account #"@
                    + text::decimal(number as nat) + ""@,
            },
        }
    }

    /// What is said of the refusal.
    pub fn message(self) -> (message: String)
        ensures
            message@ == self.shown(),
    {
        let (number, before, after) = match self {
            AuthConfigError::TooManyAdministrators => return String::from_str(
                "This system allows only one administrator",
            ),
            AuthConfigError::Account { number, fault } => match fault {
                AccountFault::NoSeparator => (
                    number,
                    "Invalid auth account #",
                    ": expected `username:<argon2id PHC>`",
                ),
                AccountFault::EmptyField => (
                    number,
                    "Invalid auth account #",
                    ": administrator username and Argon2id PHC must not be empty",
                ),
                AccountFault::InvalidUsername => (
                    number,
                    "Invalid administrator username in auth account #",
                    "",
                ),
                AccountFault::DuplicateUsername => (
                    number,
                    "Invalid auth account #",
                    ": duplicate administrator username",
                ),
                AccountFault::InvalidPasswordHash => (
                    number,
                    "Invalid Argon2id PHC in auth account #",
                    "",
                ),
            },
        };
        let mut message = String::from_str(before);
        message.append(decimal_text(number as u64).as_str());
        message.append(after);
        message
    }
}

/// The user name and the password hash of an account: what stands before and
/// after its first colon.
pub open spec fn account_parts(account: Seq<char>) -> Option<(Seq<char>, Seq<char>)> {
    if account.contains(':') {
        let at = account.index_of_first(':')->0;
        Some((account.subrange(0, at), account.subrange(at + 1, account.len() as int)))
    } else {
        None
    }
}

fn split_account(account: &str) -> (parts: Option<(String, String)>)
    ensures
        match parts {
            Some((user, password)) => account_parts(account@) == Some((user@, password@)),
            None => account_parts(account@) is None,
        },
{
    let mut user = String::new();
    let mut password = String::new();
    let mut found = false;
    let ghost mut at: int = 0;
    for character in it: account.chars()
        invariant
            it.seq() == account@,
            !found ==> user@ == account@.subrange(0, it.index() as int) && password@.len() == 0
                && forall|i: int| 0 <= i < it.index() ==> #[trigger] account@[i] != ':',
            found ==> {
                &&& 0 <= at < it.index()
                &&& account@[at] == ':'
                &&& forall|i: int| 0 <= i < at ==> #[trigger] account@[i] != ':'
                &&& user@ == account@.subrange(0, at)
                &&& password@ == account@.subrange(at + 1, it.index() as int)
            },
    {
        let ghost index = it.index() as int;
        if found {
            password.push(character);
            assert(password@ =~= account@.subrange(at + 1, index + 1));
        } else if character == ':' {
            found = true;
            proof {
                at = index;
            }
            assert(password@ =~= account@.subrange(at + 1, index + 1));
        } else {
            user.push(character);
            assert(user@ =~= account@.subrange(0, index + 1));
        }
    }
    if found {
        proof {
            account@.index_of_first_ensures(':');
            assert(account@.contains(':'));
            let first = account@.index_of_first(':')->0;
            if first < at {
                assert(account@[first] != ':');
            }
            assert(first == at);
        }
        Some((user, password))
    } else {
        proof {
            assert(!account@.contains(':'));
        }
        None
    }
}

pub open spec fn has_user(accounts: Seq<(Seq<char>, Seq<char>)>, user: Seq<char>) -> bool {
    exists|i: int| 0 <= i < accounts.len() && #[trigger] accounts[i].0 == user
}

/// An account is in the configuration, with a user name and a password hash.
pub open spec fn is_accepted(account: Seq<char>, accounts: Seq<(Seq<char>, Seq<char>)>) -> bool {
    account_parts(account) matches Some(parts) && parts.0.len() > 0 && parts.1.len() > 0
        && accounts.contains(parts)
}

/// The caller found the user name and the password hash of an account valid.
pub open spec fn was_checked<U: Fn(&str) -> bool, H: Fn(&str) -> bool>(
    is_username: U,
    is_password_hash: H,
    account: (Seq<char>, Seq<char>),
) -> bool {
    exists|user: &str, hash: &str|
        user@ == account.0 && hash@ == account.1 && #[trigger] call_ensures(
            is_username,
            (user,),
            true,
        ) && #[trigger] call_ensures(is_password_hash, (hash,), true)
}

/// The caller found a text valid.
pub open spec fn was_accepted<F: Fn(&str) -> bool>(is_valid: F, accepted: Seq<char>) -> bool {
    exists|text: &str| text@ == accepted && #[trigger] call_ensures(is_valid, (text,), true)
}

/// An account has a user name and a password hash, and the caller found both valid.
pub open spec fn is_sound<U: Fn(&str) -> bool, H: Fn(&str) -> bool>(
    is_username: U,
    is_password_hash: H,
    account: Seq<char>,
) -> bool {
    account_parts(account) matches Some(parts) && parts.0.len() > 0 && parts.1.len() > 0
        && was_checked(is_username, is_password_hash, parts)
}

/// The user name of an account.
pub open spec fn user_of(account: Seq<char>) -> Seq<char> {
    (account_parts(account)->0).0
}

/// One of some accounts has this user name.
pub open spec fn names_user(accounts: Seq<Seq<char>>, user: Seq<char>) -> bool {
    exists|j: int| 0 <= j < accounts.len() && user_of(#[trigger] accounts[j]) == user
}

/// Accounts that a configuration takes: all of them are sound, and no two have the
/// same user name.
pub open spec fn are_taken<U: Fn(&str) -> bool, H: Fn(&str) -> bool>(
    is_username: U,
    is_password_hash: H,
    accounts: Seq<Seq<char>>,
) -> bool {
    &&& forall|i: int|
        0 <= i < accounts.len() ==> is_sound(
            is_username,
            is_password_hash,
            #[trigger] accounts[i],
        )
    &&& forall|i: int, j: int|
        0 <= i < j < accounts.len() ==> user_of(#[trigger] accounts[i]) != user_of(
            #[trigger] accounts[j],
        )
}

/// The caller found a text invalid.
pub open spec fn was_refused<F: Fn(&str) -> bool>(is_valid: F, refused: Seq<char>) -> bool {
    exists|text: &str| text@ == refused && #[trigger] call_ensures(is_valid, (text,), false)
}

impl AuthConfig {
    pub closed spec fn view(self) -> Seq<(Seq<char>, Seq<char>)> {
        account_list(self.users@)
    }

    /// A configuration without accounts.
    pub fn empty() -> (config: AuthConfig)
        ensures
            config@ == Seq::<(Seq<char>, Seq<char>)>::empty(),
    {
        let config = AuthConfig { users: Vec::new() };
        assert(config@ =~= Seq::empty());
        config
    }

    /// Reads the accounts of a configuration. Which user names and password
    /// hashes are valid is decided by the caller.
    pub fn new<U: Fn(&str) -> bool, H: Fn(&str) -> bool>(
        raw_accounts: &Vec<String>,
        maximum: usize,
        is_username: U,
        is_password_hash: H,
    ) -> (result: Result<AuthConfig, AuthConfigError>)
        requires
            forall|text: &str| #[trigger] call_requires(is_username, (text,)),
            forall|text: &str| #[trigger] call_requires(is_password_hash, (text,)),
        ensures
            raw_accounts@.len() > maximum <==> result == Err::<AuthConfig, AuthConfigError>(
                AuthConfigError::TooManyAdministrators,
            ),
            result matches Ok(config) ==> {
                &&& has_sorted_names(config@)
                &&& config@.len() == raw_accounts@.len()
                &&& forall|i: int|
                    0 <= i < raw_accounts@.len() ==> is_accepted(
                        #[trigger] raw_accounts@[i]@,
                        config@,
                    )
                &&& forall|i: int|
                    0 <= i < config@.len() ==> was_checked(
                        is_username,
                        is_password_hash,
                        #[trigger] config@[i],
                    )
                &&& are_taken(is_username, is_password_hash, text::texts(raw_accounts@))
            },
            result matches Err(AuthConfigError::Account { number, fault }) ==> {
                let earlier = text::texts(raw_accounts@).subrange(0, number - 1);
                &&& 1 <= number <= raw_accounts@.len()
                &&& are_taken(is_username, is_password_hash, earlier)
                &&& is_first_fault(
                    is_username,
                    is_password_hash,
                    raw_accounts@[number - 1]@,
                    fault,
                    earlier,
                )
            },
    {
        if raw_accounts.len() > maximum {
            return Err(AuthConfigError::TooManyAdministrators);
        }
        let mut config = AuthConfig::empty();
        let mut index: usize = 0;
        while index < raw_accounts.len()
            invariant
                index <= raw_accounts@.len(),
                raw_accounts@.len() <= maximum,
                forall|text: &str| #[trigger] call_requires(is_username, (text,)),
                forall|text: &str| #[trigger] call_requires(is_password_hash, (text,)),
                has_sorted_names(config@),
                config@.len() == index,
                forall|i: int|
                    0 <= i < index ==> is_accepted(
                        #[trigger] raw_accounts@[i]@,
                        config@,
                    ),
                forall|i: int|
                    0 <= i < config@.len() ==> exists|j: int|
                        0 <= j < index && account_parts(#[trigger] raw_accounts@[j]@) == Some(
                            #[trigger] config@[i],
                        ),
                forall|i: int|
                    0 <= i < config@.len() ==> was_checked(
                        is_username,
                        is_password_hash,
                        #[trigger] config@[i],
                    ),
                are_taken(
                    is_username,
                    is_password_hash,
                    text::texts(raw_accounts@).subrange(0, index as int),
                ),
            decreases raw_accounts@.len() - index,
        {
            let number = index + 1;
            let account = raw_accounts[index].as_str();
            let ghost earlier = text::texts(raw_accounts@).subrange(0, index as int);
            assert(earlier =~= text::texts(raw_accounts@).subrange(0, number - 1));
            let (user, password) = match split_account(account) {
                Some(parts) => parts,
                None => return Err(
                    AuthConfigError::Account { number, fault: AccountFault::NoSeparator },
                ),
            };
            if user.as_str().is_empty() || password.as_str().is_empty() {
                return Err(AuthConfigError::Account { number, fault: AccountFault::EmptyField });
            }
            let user_text = user.as_str();
            let password_text = password.as_str();
            if !is_username(user_text) {
                return Err(
                    AuthConfigError::Account { number, fault: AccountFault::InvalidUsername },
                );
            }
            if config.has(user_text) {
                proof {
                    let i = choose|i: int|
                        0 <= i < config@.len() && #[trigger] config@[i].0 == user@;
                    let j = choose|j: int|
                        0 <= j < index && account_parts(#[trigger] raw_accounts@[j]@) == Some(
                            config@[i],
                        );
                    assert(account_parts(earlier[j]) == Some(config@[i]));
                    assert(user_of(earlier[j]) == user@);
                }
                return Err(
                    AuthConfigError::Account { number, fault: AccountFault::DuplicateUsername },
                );
            }
            proof {
                assert forall|j: int| 0 <= j < earlier.len() implies user_of(#[trigger] earlier[j])
                    != user@ by {
                    assert(is_accepted(raw_accounts@[j]@, config@));
                    let parts = account_parts(earlier[j])->0;
                    let at = choose|at: int| 0 <= at < config@.len() && config@[at] == parts;
                    assert(config@[at].0 == user_of(earlier[j]));
                }
            }
            if !is_password_hash(password_text) {
                return Err(
                    AuthConfigError::Account { number, fault: AccountFault::InvalidPasswordHash },
                );
            }
            let ghost before = config@;
            let ghost added = (user@, password@);
            config.add(String::from_str(user_text), String::from_str(password_text));
            proof {
                assert(was_checked(is_username, is_password_hash, added)) by {
                    assert(call_ensures(is_username, (user_text,), true));
                    assert(call_ensures(is_password_hash, (password_text,), true));
                }
                let longer = text::texts(raw_accounts@).subrange(0, index + 1);
                assert(longer =~= earlier.push(account@));
                assert(are_taken(is_username, is_password_hash, longer));
                assert forall|i: int| 0 <= i < index + 1 implies is_accepted(
                    #[trigger] raw_accounts@[i]@,
                    config@,
                ) by {
                    if i < index {
                        let parts = account_parts(raw_accounts@[i]@)->0;
                        let at = choose|at: int| 0 <= at < before.len() && before[at] == parts;
                        assert(config@.contains(before[at]));
                    }
                }
                assert forall|i: int| 0 <= i < config@.len() implies exists|j: int|
                    0 <= j < index + 1 && account_parts(#[trigger] raw_accounts@[j]@) == Some(
                        #[trigger] config@[i],
                    ) by {
                    if config@[i] == added {
                        assert(account_parts(raw_accounts@[index as int]@) == Some(config@[i]));
                    } else {
                        let at = choose|at: int| 0 <= at < before.len() && before[at] == config@[i];
                        assert(account_parts(
                            raw_accounts@[choose|j: int|
                                0 <= j < index && account_parts(#[trigger] raw_accounts@[j]@)
                                    == Some(before[at])]@,
                        ) == Some(config@[i]));
                    }
                }
                assert forall|i: int| 0 <= i < config@.len() implies was_checked(
                    is_username,
                    is_password_hash,
                    #[trigger] config@[i],
                ) by {
                    if config@[i] != added {
                        let at = choose|at: int| 0 <= at < before.len() && before[at] == config@[i];
                        assert(was_checked(is_username, is_password_hash, before[at]));
                    }
                }
            }
            index += 1;
        }
        assert(text::texts(raw_accounts@).subrange(0, index as int) =~= text::texts(raw_accounts@));
        Ok(config)
    }

    fn has(&self, user: &str) -> (found: bool)
        ensures
            found == has_user(self@, user@),
    {
        let mut index: usize = 0;
        while index < self.users.len()
            invariant
                index <= self.users@.len(),
                forall|i: int| 0 <= i < index ==> #[trigger] self@[i].0 != user@,
            decreases self.users@.len() - index,
        {
            assert(self@[index as int].0 == self.users@[index as int].0@);
            if str_eq(self.users[index].0.as_str(), user) {
                return true;
            }
            index += 1;
        }
        false
    }

    fn add(&mut self, user: String, password: String)
        requires
            has_sorted_names(old(self)@),
            !has_user(old(self)@, user@),
        ensures
            has_sorted_names(final(self)@),
            final(self)@.len() == old(self)@.len() + 1,
            final(self)@.contains((user@, password@)),
            forall|i: int|
                0 <= i < old(self)@.len() ==> final(self)@.contains(#[trigger] old(self)@[i]),
            forall|i: int|
                0 <= i < final(self)@.len() ==> #[trigger] final(self)@[i] == (user@, password@)
                    || old(self)@.contains(final(self)@[i]),
    {
        let ghost before = self@;
        let mut position: usize = 0;
        while position < self.users.len() && name_precedes(
            self.users[position].0.as_str().as_bytes(),
            user.as_str().as_bytes(),
        )
            invariant
                position <= self.users@.len(),
                self@ == before,
                forall|i: int|
                    0 <= i < position ==> paths::name_less(
                        encode_utf8(#[trigger] before[i].0),
                        encode_utf8(user@),
                    ),
            decreases self.users@.len() - position,
        {
            assert(before[position as int].0 == self.users@[position as int].0@);
            position += 1;
        }
        let ghost added = (user@, password@);
        self.users.insert(position, (user, password));
        proof {
            assert(self@ =~= before.insert(position as int, added));
            if position < before.len() {
                let next = before[position as int].0;
                assert(next != added.0);
                if encode_utf8(next) == encode_utf8(added.0) {
                    text::lemma_encoding_is_injective(next, added.0);
                }
                paths::lemma_name_order_is_total(encode_utf8(added.0), encode_utf8(next));
            }
            assert forall|i: int, j: int| 0 <= i < j < self@.len() implies paths::name_less(
                encode_utf8(#[trigger] self@[i].0),
                encode_utf8(#[trigger] self@[j].0),
            ) by {
                let place = position as int;
                let old_i = if i < place { i } else { i - 1 };
                let old_j = if j < place { j } else { j - 1 };
                if i != place {
                    assert(self@[i] == before[old_i]);
                }
                if j != place {
                    assert(self@[j] == before[old_j]);
                }
                if i == place && old_j > place {
                    paths::lemma_name_order_is_transitive(
                        encode_utf8(added.0),
                        encode_utf8(before[place].0),
                        encode_utf8(before[old_j].0),
                    );
                }
            }
            assert(self@[position as int] == added);
            assert forall|i: int| 0 <= i < before.len() implies self@.contains(
                #[trigger] before[i],
            ) by {
                if i < position {
                    assert(self@[i] == before[i]);
                } else {
                    assert(self@[i + 1] == before[i]);
                }
            }
            assert forall|i: int| 0 <= i < self@.len() implies #[trigger] self@[i] == added
                || before.contains(self@[i]) by {
                if i < position {
                    assert(self@[i] == before[i]);
                } else if i > position {
                    assert(self@[i] == before[i - 1]);
                }
            }
        }
    }

    /// Whether there is an account at all.
    pub fn has_users(&self) -> (result: bool)
        ensures
            result == (self@.len() > 0),
    {
        self.users.len() > 0
    }

    /// The user names, in order: all that is ever shown of a configuration.
    pub fn usernames(&self) -> (names: Vec<String>)
        ensures
            text::texts(names@) == Seq::new(self@.len(), |i: int| self@[i].0),
    {
        let mut names: Vec<String> = Vec::new();
        let mut index: usize = 0;
        while index < self.users.len()
            invariant
                index <= self.users@.len(),
                names@.len() == index,
                forall|i: int| 0 <= i < index ==> #[trigger] names@[i]@ == self.users@[i].0@,
            decreases self.users@.len() - index,
        {
            names.push(self.users[index].0.clone());
            index += 1;
        }
        assert(text::texts(names@) =~= Seq::new(self@.len(), |i: int| self@[i].0));
        names
    }

    /// The accounts, for the store of administrators.
    pub fn accounts(&self) -> (accounts: &Vec<(String, String)>)
        ensures
            account_list(accounts@) == self@,
    {
        &self.users
    }
}

/// What a fault says of an account, given the accounts before it. Each fault is told
/// only where those that are looked for before it are not there: the separator, empty
/// fields, the user name, another account of that name, and the password hash.
pub open spec fn is_first_fault<U: Fn(&str) -> bool, H: Fn(&str) -> bool>(
    is_username: U,
    is_password_hash: H,
    account: Seq<char>,
    fault: AccountFault,
    earlier: Seq<Seq<char>>,
) -> bool {
    match account_parts(account) {
        None => fault == AccountFault::NoSeparator,
        Some((user, password)) => if user.len() == 0 || password.len() == 0 {
            fault == AccountFault::EmptyField
        } else {
            match fault {
                AccountFault::NoSeparator | AccountFault::EmptyField => false,
                AccountFault::InvalidUsername => was_refused(is_username, user),
                AccountFault::DuplicateUsername => was_accepted(is_username, user) && names_user(
                    earlier,
                    user,
                ),
                AccountFault::InvalidPasswordHash => was_accepted(is_username, user)
                    && !names_user(earlier, user) && was_refused(is_password_hash, password),
            }
        },
    }
}

/// An account is divided at its first colon: before it stands the user name, and behind
/// it the password hash, which may hold colons itself. Without a colon it is none.
pub proof fn law_accounts_part_at_their_first_colon(user: Seq<char>, hash: Seq<char>)
    requires
        !user.contains(':'),
    ensures
        account_parts(user + seq![':'] + hash) == Some((user, hash)),
        account_parts(user) is None,
{
    let account = user + seq![':'] + hash;
    assert(account[user.len() as int] == ':');
    assert(account.contains(':'));
    account.index_of_first_ensures(':');
    let at = account.index_of_first(':')->0;
    if at < user.len() {
        assert(account[at] == user[at]);
        assert(user.contains(':'));
    }
    assert(at == user.len());
    assert(account.subrange(0, at) =~= user);
    assert(account.subrange(at + 1, account.len() as int) =~= hash);
}

/// The user name of an account is what stands before its first colon.
pub proof fn law_user_names_stand_first(user: Seq<char>, hash: Seq<char>)
    requires
        !user.contains(':'),
    ensures
        user_of(user + seq![':'] + hash) == user,
{
    law_accounts_part_at_their_first_colon(user, hash);
}

/// A refusal of an account tells its number, and each fault is told in its own words.
pub proof fn law_refusals_name_the_account(number: usize, fault: AccountFault)
    ensures
        AuthConfigError::TooManyAdministrators.shown()
            == "This system allows only one administrator"@,
        (AuthConfigError::Account { number, fault }).shown() == (match fault {
            AccountFault::NoSeparator => "Invalid auth account #"@ + text::decimal(number as nat)
                + ": expected `username:<argon2id PHC>`"@,
            AccountFault::EmptyField => "Invalid auth account #"@ + text::decimal(number as nat)
                + ": administrator username and Argon2id PHC must not be empty"@,
            AccountFault::InvalidUsername => "Invalid administrator username in auth account #"@
                + text::decimal(number as nat),
            AccountFault::DuplicateUsername => "Invalid auth account #"@ + text::decimal(
                number as nat,
            ) + ": duplicate administrator username"@,
            AccountFault::InvalidPasswordHash => "Invalid Argon2id PHC in auth account #"@
                + text::decimal(number as nat),
        }),
{
    reveal_strlit("");
    assert(""@ =~= Seq::empty());
    assert((AuthConfigError::Account { number, fault: AccountFault::InvalidUsername }).shown()
        =~= "Invalid administrator username in auth account #"@ + text::decimal(number as nat));
    assert((AuthConfigError::Account { number, fault: AccountFault::InvalidPasswordHash }).shown()
        =~= "Invalid Argon2id PHC in auth account #"@ + text::decimal(number as nat));
}

/// A sound account has a user name and a password hash, neither of them empty, with the
/// first colon between them.
pub proof fn law_sound_accounts_have_both_parts<U: Fn(&str) -> bool, H: Fn(&str) -> bool>(
    is_username: U,
    is_password_hash: H,
    user: Seq<char>,
    hash: Seq<char>,
)
    requires
        !user.contains(':'),
    ensures
        !is_sound(is_username, is_password_hash, user),
        user.len() == 0 || hash.len() == 0 ==> !is_sound(
            is_username,
            is_password_hash,
            user + seq![':'] + hash,
        ),
        is_sound(is_username, is_password_hash, user + seq![':'] + hash) ==> was_accepted(
            is_username,
            user,
        ) && was_accepted(is_password_hash, hash),
        user.len() > 0 && hash.len() > 0 && was_accepted(is_username, user) && was_accepted(
            is_password_hash,
            hash,
        ) ==> is_sound(is_username, is_password_hash, user + seq![':'] + hash),
{
    law_accounts_part_at_their_first_colon(user, hash);
}

/// The fault that is told of an account is the first one that it has: without a colon it
/// has no separator, with an empty part an empty field, and only else are its parts
/// looked at.
pub proof fn law_first_faults_are_told<U: Fn(&str) -> bool, H: Fn(&str) -> bool>(
    is_username: U,
    is_password_hash: H,
    user: Seq<char>,
    hash: Seq<char>,
    fault: AccountFault,
    earlier: Seq<Seq<char>>,
)
    requires
        !user.contains(':'),
    ensures
        is_first_fault(is_username, is_password_hash, user, fault, earlier) <==> fault
            == AccountFault::NoSeparator,
        user.len() == 0 || hash.len() == 0 ==> (is_first_fault(
            is_username,
            is_password_hash,
            user + seq![':'] + hash,
            fault,
            earlier,
        ) <==> fault == AccountFault::EmptyField),
        user.len() > 0 && hash.len() > 0 && is_first_fault(
            is_username,
            is_password_hash,
            user + seq![':'] + hash,
            fault,
            earlier,
        ) ==> match fault {
            AccountFault::NoSeparator | AccountFault::EmptyField => false,
            AccountFault::InvalidUsername => was_refused(is_username, user),
            AccountFault::DuplicateUsername => exists|j: int|
                0 <= j < earlier.len() && user_of(#[trigger] earlier[j]) == user,
            AccountFault::InvalidPasswordHash => was_refused(is_password_hash, hash),
        },
{
    law_accounts_part_at_their_first_colon(user, hash);
}

/// A configuration has a user just where one of its accounts is that user's.
pub proof fn law_users_are_those_of_the_accounts(
    accounts: Seq<(Seq<char>, Seq<char>)>,
    added: (Seq<char>, Seq<char>),
    user: Seq<char>,
)
    ensures
        !has_user(Seq::<(Seq<char>, Seq<char>)>::empty(), user),
        has_user(accounts.push(added), user) <==> has_user(accounts, user) || added.0 == user,
{
    let more = accounts.push(added);
    if has_user(accounts, user) {
        let i = choose|i: int| 0 <= i < accounts.len() && #[trigger] accounts[i].0 == user;
        assert(more[i].0 == user);
    }
    if added.0 == user {
        assert(more[accounts.len() as int].0 == user);
    }
    if has_user(more, user) {
        let i = choose|i: int| 0 <= i < more.len() && #[trigger] more[i].0 == user;
        if i < accounts.len() {
            assert(accounts[i].0 == user);
        }
    }
}

} // verus!
