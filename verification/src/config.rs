//! The persisted state: the identity list with the current and previous
//! indices, its mathematical view, and the pure operations over it.

use vstd::prelude::*;
use vstd::string::StringExecFns;
use crate::errors::ConfigError;
use crate::dec::{dec_rep, push_dec};
use crate::chars::{chars_of_str, string_from_chars};

verus! {

/// One stored identity: a name and an email address.
#[derive(Debug, Clone, PartialEq, Eq)]
pub struct User {
    pub name: String,
    pub email: String,
}

/// The mathematical value of an identity.
#[verifier::ext_equal]
pub ghost struct UserV {
    pub name: Seq<char>,
    pub email: Seq<char>,
}

impl View for User {
    type V = UserV;

    open spec fn view(&self) -> UserV {
        UserV { name: self.name@, email: self.email@ }
    }
}

impl User {
    /// A copy of this identity with the same name and email.
    pub fn duplicate(&self) -> (r: User)
        ensures
            r@ == self@,
    {
        User { name: self.name.clone(), email: self.email.clone() }
    }
}

/// The identities of a sequence of users, as mathematical values.
pub open spec fn users_views(s: Seq<User>) -> Seq<UserV> {
    s.map(|i: int, u: User| u@)
}

/// The persisted record: an ordered identity list and the indices of the
/// currently and the previously active identity.
#[derive(Debug, Clone, PartialEq, Eq)]
pub struct Config {
    pub users: Vec<User>,
    pub previous_user: usize,
    pub current_user: usize,
}

/// The mathematical value of the persisted record.
#[verifier::ext_equal]
pub ghost struct ConfigV {
    pub users: Seq<UserV>,
    pub previous_user: usize,
    pub current_user: usize,
}

impl View for Config {
    type V = ConfigV;

    open spec fn view(&self) -> ConfigV {
        ConfigV {
            users: users_views(self.users@),
            previous_user: self.previous_user,
            current_user: self.current_user,
        }
    }
}

/// A copy of an identity list with the same identities.
pub fn clone_users(users: &Vec<User>) -> (r: Vec<User>)
    ensures
        users_views(r@) == users_views(users@),
{
    let mut out: Vec<User> = Vec::new();
    let mut i: usize = 0;
    while i < users.len()
        invariant
            i <= users@.len(),
            out@.len() == i,
            forall|k: int| 0 <= k < i ==> #[trigger] out@[k]@ == users@[k]@,
        decreases users@.len() - i,
    {
        out.push(users[i].duplicate());
        i = i + 1;
    }
    assert(users_views(out@) =~= users_views(users@)) by {
        assert(forall|k: int|
            0 <= k < out@.len() ==> #[trigger] users_views(out@)[k] == out@[k]@);
        assert(forall|k: int|
            0 <= k < users@.len() ==> #[trigger] users_views(users@)[k] == users@[k]@);
    }
    out
}

/// The record as it stands after a first run: exactly the seeded
/// identity, which is both current and previous.
pub fn init(seed: User) -> (r: Config)
    ensures
        r@.users == seq![seed@],
        r@.previous_user == 0,
        r@.current_user == 0,
{
    let users = vec![seed];
    assert(users_views(users@) =~= seq![users@[0]@]);
    Config { users, previous_user: 0, current_user: 0 }
}

/// Bounds-checked retrieval of an identity. Succeeds exactly on the
/// indices inside the list; an out-of-range index is reported in the
/// error, and nothing else is touched.
pub fn get_user(index: usize, config: &Config) -> (r: Result<User, ConfigError>)
    ensures
        r is Ok <==> index < config@.users.len(),
        (r matches Ok(u) ==> u@ == config@.users[index as int]),
        (r matches Err(e) ==> e == ConfigError::InvalidUserIndex(index)),
{
    if index < config.users.len() {
        Ok(config.users[index].duplicate())
    } else {
        Err(ConfigError::InvalidUserIndex(index))
    }
}

/// The line that lists one identity: a marker for the current one, the
/// index, and the identity itself.
pub open spec fn list_line(i: nat, u: UserV, is_current: bool) -> Seq<char> {
    (if is_current { seq!['*'] } else { seq![' '] }) + seq![' '] + dec_rep(i) + seq![':', ' ']
        + u.name + seq![' ', '<'] + u.email + seq!['>']
}

/// The listing of all identities, in storage order, one line each; the
/// marker is set exactly on the line of the current index.
pub fn list_users(config: &Config) -> (r: Vec<String>)
    ensures
        r@.len() == config@.users.len(),
        forall|i: int|
            0 <= i < r@.len() ==> #[trigger] r@[i]@ == list_line(
                i as nat,
                config@.users[i],
                i == config@.current_user,
            ),
{
    let mut out: Vec<String> = Vec::new();
    let mut i: usize = 0;
    while i < config.users.len()
        invariant
            i <= config@.users.len(),
            out@.len() == i,
            forall|k: int|
                0 <= k < i ==> #[trigger] out@[k]@ == list_line(
                    k as nat,
                    config@.users[k],
                    k == config@.current_user,
                ),
        decreases config@.users.len() - i,
    {
        let is_current = i == config.current_user;
        let mut line: Vec<char> = Vec::new();
        line.push(if is_current { '*' } else { ' ' });
        line.push(' ');
        push_dec(i, &mut line);
        line.push(':');
        line.push(' ');
        let mut name_chars = chars_of_str(config.users[i].name.as_str());
        line.append(&mut name_chars);
        line.push(' ');
        line.push('<');
        let mut email_chars = chars_of_str(config.users[i].email.as_str());
        line.append(&mut email_chars);
        line.push('>');
        assert(line@ =~= list_line(i as nat, config@.users[i as int], i == config@.current_user));
        out.push(string_from_chars(&line));
        i = i + 1;
    }
    out
}

/// The location of the persisted record under the given home directory.
pub fn get_path(home: &str) -> (r: String)
    ensures
        r@ == home@ + "/.config/gus.toml"@,
{
    let mut s = String::from_str(home);
    s.append("/.config/gus.toml");
    s
}

} // verus!
