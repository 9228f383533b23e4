//! The switch coordinator's decision logic: which identity a switch
//! applies, and how the current and previous indices move.

use vstd::prelude::*;
use crate::config::{Config, ConfigV, User, clone_users};
use crate::errors::ConfigError;

verus! {

/// How the persisted indices move when the identity at `index` becomes
/// active: switching to the already-active identity leaves the record
/// unchanged; otherwise the old current index is remembered as previous.
pub open spec fn switch_transition(c: ConfigV, index: usize) -> ConfigV {
    if index == c.current_user {
        c
    } else {
        ConfigV { users: c.users, previous_user: c.current_user, current_user: index }
    }
}

/// Decides a switch to the identity at `index`. On success it returns
/// the identity whose name and email the backend must receive — they are
/// written even when `index` is already current — together with the
/// record as it stands after the switch. An out-of-range index is
/// rejected before anything else would happen, with the offending index
/// in the error; no new record is produced then.
pub fn switch_user(index: usize, config: &Config) -> (r: Result<(User, Config), ConfigError>)
    ensures
        r is Ok <==> index < config@.users.len(),
        (r matches Err(e) ==> e == ConfigError::InvalidUserIndex(index)),
        (r matches Ok(p) ==> p.0@ == config@.users[index as int] && p.1@ == switch_transition(
            config@,
            index,
        )),
{
    match crate::config::get_user(index, config) {
        Err(e) => Err(e),
        Ok(user) => {
            let users = clone_users(&config.users);
            let updated = if index != config.current_user {
                Config { users, previous_user: config.current_user, current_user: index }
            } else {
                Config {
                    users,
                    previous_user: config.previous_user,
                    current_user: config.current_user,
                }
            };
            assert(updated@ =~= switch_transition(config@, index));
            Ok((user, updated))
        },
    }
}

/// The mutation a successful switch applies to the freshest on-disk
/// record: the target index becomes current and the in-memory current
/// index at decision time becomes previous; the identity list stays.
pub fn apply_switch(config: &mut Config, index: usize, prior_current: usize)
    ensures
        final(config)@.users == old(config)@.users,
        final(config)@.current_user == index,
        final(config)@.previous_user == prior_current,
{
    config.current_user = index;
    config.previous_user = prior_current;
}

/// Switching to the already-active index moves neither the current nor
/// the previous index.
pub proof fn lemma_switch_noop(c: ConfigV)
    ensures
        switch_transition(c, c.current_user) == c,
{
}

/// Index symmetry: after a switch to a fresh valid index, switching to
/// the previous index of the new record makes the identity that was
/// active before the first switch active again.
pub proof fn lemma_switch_symmetry(c: ConfigV, i: usize)
    requires
        c.current_user < c.users.len(),
        i < c.users.len(),
        i != c.current_user,
    ensures
        ({
            let c1 = switch_transition(c, i);
            let c2 = switch_transition(c1, c1.previous_user);
            &&& c2.current_user == c.current_user
            &&& c2.users == c.users
            &&& c2.users[c2.current_user as int] == c.users[c.current_user as int]
        }),
{
}

} // verus!
