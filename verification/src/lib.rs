//! Identity resolution and privilege switching over a POSIX-style host.
//!
//! The library models the host's user and group database and the process's
//! credential state as two narrow oracle interfaces ([`IdentityDb`] and
//! [`CredOracle`]). On top of them it provides an immutable entity model
//! ([`User`], [`Group`]), a read-through cache keyed both by numeric id and
//! by name ([`Cache`]), and ordered, all-or-nothing credential switches with
//! a scoped restoration guard ([`SwitchUserGuard`]).
//!
//! Names are raw byte strings: a name holding an embedded null byte cannot
//! belong to any real account, so lookups by such a name report "not found"
//! without consulting the oracle.
//!
//! A process has exactly one set of real and effective credentials, shared by
//! all of its threads. The cache takes `&mut self` for every lookup, so no
//! reader can observe a half-written entry; the switch controller provides no
//! cross-thread mutual exclusion of its own, and callers that drop privilege
//! on a multi-threaded process must serialize their switch/restore sequences
//! themselves, releasing nested guards in reverse order of acquisition.

mod cache;
mod creds;
mod ident;
mod oracle;
mod sim;
mod table;
pub mod switch;

pub use cache::{
    all_users, dedup_gids, get_current_groupname, get_current_username, get_effective_groupname,
    get_effective_username, get_group_by_gid, get_group_by_name, get_user_by_name, get_user_by_uid,
    get_user_groups, group_access_list, groups_opt_view, resolve_gids, spec_groupname_of,
    spec_user_groups, spec_username_of, Cache,
};
pub use creds::{
    get_current_gid, get_current_uid, get_effective_gid, get_effective_uid, with_both_gid,
    with_both_uid, with_eff_gid, with_eff_uid, with_real_gid, with_real_uid, CredEvent, CredOracle,
    CredState, SystemError,
};
pub use ident::{null_free, Group, GroupView, User, UserView};
pub use oracle::{
    bytes_opt_view, db_coherent, gids_opt_view, group_opt_view, lemma_lookup_idempotent,
    lemma_round_trip, spec_group_by_id, spec_group_by_name, spec_supp_groups, spec_user_by_id,
    spec_user_by_name, user_opt_view, DbView, IdentityDb,
};
pub use sim::SimCreds;
pub use table::{
    find_first, gid_pred, gname_pred, group_id_map, group_name_map, lemma_find_first_at,
    lemma_find_first_none, lemma_find_first_push, lemma_find_first_some, lemma_table_coherent,
    sname_pred, supp_gid_map, uid_pred, uname_pred, user_id_map, user_name_map, SuppView,
    TableOracle,
};
pub use switch::{
    lemma_switch_failure_atomic, lemma_switch_restore, set_both_gid, set_both_uid, set_current_gid,
    set_current_uid, set_effective_gid, set_effective_uid, switch_user_group, SwitchUserGuard,
};
