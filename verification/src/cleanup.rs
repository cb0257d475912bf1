//! What setup leaves behind and removes: the temporary account's files, its
//! login sessions, and how they are ended.

use vstd::prelude::*;
use crate::account::TEMPORARY_USER;
use crate::text::{chars_of, lines, lines_of, str_eq, string_from, views, words, words_of};

verus! {

/// The login manager configuration that holds the automatic login.
pub const PLM_CONFIG: &'static str = "/etc/plasmalogin.conf.d/flufflinux.conf";

/// The recovery record.
pub const SETUP_STATE_FILE: &'static str = "/home/fluffsetup/.local/state/fluffsetup/progress";

/// The replacement recovery record, written in full before it takes the
/// record's place.
pub const SETUP_STATE_TEMP_FILE: &'static str =
    "/home/fluffsetup/.local/state/fluffsetup/progress.tmp";

/// The temporary setup account's home directory.
pub const TEMPORARY_HOME: &'static str = "/home/fluffsetup";

/// The directory of the setup session's launcher.
pub const SESSION_DIR: &'static str = "/usr/lib/fluffsetup";

/// The installed setup program.
pub const SETUP_BINARY: &'static str = "/usr/bin/fluffsetup";

/// Every temporary file that cleanup removes: the recovery records, the
/// Wayland session, its launcher, the passwordless sudo rule, the
/// AccountsService record and the lingering flag of the setup account.
pub const CLEANUP_FILES: [&'static str; 7] = [
    SETUP_STATE_FILE,
    SETUP_STATE_TEMP_FILE,
    "/usr/share/wayland-sessions/fluffsetup.desktop",
    "/usr/lib/fluffsetup/fluffsetup-session",
    "/etc/sudoers.d/90-fluffsetup-temporary",
    "/var/lib/AccountsService/users/fluffsetup",
    "/var/lib/systemd/linger/fluffsetup",
];

/// The session that a line of `loginctl list-sessions --no-legend` names
/// where its user (the third column) is the setup account.
pub open spec fn temporary_session_of(line: Seq<char>) -> Option<Seq<char>> {
    let columns = words(line);
    if columns.len() >= 3 && columns[2] == TEMPORARY_USER@ {
        Some(columns[0])
    } else {
        None
    }
}

/// The sessions of the setup account among the lines `ls`, in order.
pub open spec fn temporary_sessions(ls: Seq<Seq<char>>) -> Seq<Seq<char>>
    decreases ls.len(),
{
    if ls.len() == 0 {
        seq![]
    } else {
        match temporary_session_of(ls.last()) {
            Some(s) => temporary_sessions(ls.drop_last()).push(s),
            None => temporary_sessions(ls.drop_last()),
        }
    }
}

/// The login sessions of the setup account in a session listing.
pub fn temporary_sessions_in(listing: &str) -> (r: Vec<String>)
    ensures
        views(r@) == temporary_sessions(lines(listing@)),
{
    let ls = lines_of(&chars_of(listing));
    let ghost lv = views(ls@);
    let mut out: Vec<String> = Vec::new();
    let mut i: usize = 0;
    assert(lv.take(0) =~= Seq::<Seq<char>>::empty());
    assert(views(out@) =~= Seq::<Seq<char>>::empty());
    while i < ls.len()
        invariant
            i <= ls@.len(),
            lv == views(ls@),
            views(out@) == temporary_sessions(lv.take(i as int)),
        decreases ls.len() - i,
    {
        assert(lv.take(i + 1).drop_last() =~= lv.take(i as int));
        assert(lv.take(i + 1).last() == ls@[i as int]@);
        let columns = words_of(&chars_of(ls[i].as_str()));
        let ghost cv = views(columns@);
        if columns.len() >= 3 {
            assert(columns@[2]@ == cv[2]);
            assert(columns@[0]@ == cv[0]);
            if str_eq(columns[2].as_str(), TEMPORARY_USER) {
                let ghost before = views(out@);
                out.push(string_from(columns[0].as_str()));
                assert(views(out@) =~= before.push(cv[0]));
            }
        }
        i = i + 1;
    }
    assert(lv.take(ls@.len() as int) =~= lv);
    out
}

/// The `loginctl` arguments that end the setup account's sessions: each
/// listed session, or all of the account's sessions where none was listed.
pub open spec fn termination_args(sessions: Seq<Seq<char>>) -> Seq<Seq<Seq<char>>> {
    if sessions.len() == 0 {
        seq![seq!["terminate-user"@, TEMPORARY_USER@]]
    } else {
        sessions.map_values(|s: Seq<char>| seq!["terminate-session"@, s])
    }
}

/// The `loginctl` calls that end the setup account's login, last of all
/// cleanup steps.
pub fn session_termination_args(sessions: &Vec<String>) -> (r: Vec<Vec<String>>)
    ensures
        r@.map_values(|a: Vec<String>| views(a@)) == termination_args(views(sessions@)),
{
    let mut r: Vec<Vec<String>> = Vec::new();
    if sessions.len() == 0 {
        let mut a: Vec<String> = Vec::new();
        a.push(string_from("terminate-user"));
        a.push(string_from(TEMPORARY_USER));
        assert(views(a@) =~= seq!["terminate-user"@, TEMPORARY_USER@]);
        r.push(a);
        assert(r@.map_values(|a: Vec<String>| views(a@)) =~= termination_args(views(sessions@)));
        return r;
    }
    let ghost target = termination_args(views(sessions@));
    let mut i: usize = 0;
    while i < sessions.len()
        invariant
            i <= sessions@.len(),
            sessions@.len() > 0,
            target == termination_args(views(sessions@)),
            r@.map_values(|a: Vec<String>| views(a@)) == target.take(i as int),
        decreases sessions.len() - i,
    {
        let mut a: Vec<String> = Vec::new();
        a.push(string_from("terminate-session"));
        a.push(string_from(sessions[i].as_str()));
        assert(views(a@) =~= seq!["terminate-session"@, sessions@[i as int]@]);
        let ghost before = r@.map_values(|a: Vec<String>| views(a@));
        r.push(a);
        assert(r@.map_values(|a: Vec<String>| views(a@)) =~= before.push(target[i as int]));
        i = i + 1;
        assert(r@.map_values(|a: Vec<String>| views(a@)) =~= target.take(i as int));
    }
    assert(target.take(sessions@.len() as int) =~= target);
    r
}

} // verus!
