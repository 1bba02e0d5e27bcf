//! Maildir unread/total counts: where the maildir is, and the snapshot made
//! from the counts of its `new/` and `cur/` directories.

use vstd::prelude::*;
use crate::text::{string_from, to_chars, trim, trim_spec};

verus! {

/// Unread and total message counts of a maildir.
#[derive(Clone)]
pub struct MailCount {
    /// Unread messages (in `new/`).
    pub new: usize,
    /// All messages (in `new/` and `cur/`).
    pub total: usize,
    /// Whether there is a maildir on this host; the panel hides when not.
    pub present: bool,
}

impl Default for MailCount {
    fn default() -> (r: Self)
        ensures
            r.new == 0 && r.total == 0 && !r.present,
    {
        MailCount { new: 0, total: 0, present: false }
    }
}

/// `PathBuf::join` on Unix: an absolute `p` replaces `base`; otherwise `p`
/// follows `base`, with a `/` between them unless `base` is empty or
/// already ends in one.
pub open spec fn join_spec(base: Seq<char>, p: Seq<char>) -> Seq<char> {
    if p.len() > 0 && p[0] == '/' {
        p
    } else if base.len() > 0 && base.last() != '/' {
        base + "/"@ + p
    } else {
        base + p
    }
}

/// The maildir root for a configured directory, `home` being `$HOME` (empty
/// when unset): a blank setting means `~/.maildir`, a leading `~/` means the
/// home directory, anything else is taken as it stands.
pub open spec fn maildir_spec(dir: Seq<char>, home: Seq<char>) -> Seq<char> {
    if trim_spec(dir).len() == 0 {
        join_spec(home, ".maildir"@)
    } else if dir.len() >= 2 && dir[0] == '~' && dir[1] == '/' {
        join_spec(home, dir.subrange(2, dir.len() as int))
    } else {
        dir
    }
}

/// Join path `p` onto `base`.
pub fn join_path(base: &str, p: &str) -> (r: String)
    ensures
        r@ == join_spec(base@, p@),
{
    let pv = to_chars(p);
    let bv = to_chars(base);
    if pv.len() > 0 && pv[0] == '/' {
        return String::from_str(p);
    }
    let mut r = String::from_str(base);
    if bv.len() > 0 && bv[bv.len() - 1] != '/' {
        r.append("/");
    }
    r.append(p);
    r
}

/// The maildir root for a configured directory and `$HOME`.
pub fn maildir(dir: &str, home: &str) -> (r: String)
    ensures
        r@ == maildir_spec(dir@, home@),
{
    let t = trim(dir);
    if t.as_str().is_empty() {
        return join_path(home, ".maildir");
    }
    let v = to_chars(dir);
    if v.len() >= 2 && v[0] == '~' && v[1] == '/' {
        let rest = string_from(&v, 2, v.len());
        return join_path(home, rest.as_str());
    }
    String::from_str(dir)
}

/// The snapshot for a maildir: nothing when it has no `new/` directory,
/// otherwise the unread count and the total of both directories.
pub fn sample(new_dir_present: bool, new_files: usize, cur_files: usize) -> (r: MailCount)
    requires
        new_dir_present ==> new_files + cur_files <= usize::MAX,
    ensures
        !new_dir_present ==> r.new == 0 && r.total == 0 && !r.present,
        new_dir_present ==> r.new == new_files && r.total == new_files + cur_files && r.present,
{
    if !new_dir_present {
        return MailCount::default();
    }
    MailCount { new: new_files, total: new_files + cur_files, present: true }
}

/// A blank maildir setting means the same as `~/.maildir`.
pub proof fn law_blank_means_home_maildir(dir: Seq<char>, home: Seq<char>)
    requires
        trim_spec(dir).len() == 0,
    ensures
        maildir_spec(dir, home) == maildir_spec("~/.maildir"@, home),
{
    reveal_strlit("~/.maildir");
    reveal_strlit(".maildir");
    reveal_strlit("/");
    let t = "~/.maildir"@;
    assert(t.subrange(2, t.len() as int) =~= ".maildir"@);
    assert(trim_spec(t).len() > 0) by {
        assert(!crate::text::is_ws(t[0]));
        assert(crate::text::trim_start_spec(t) == t);
        assert(!crate::text::is_ws(t.last()));
        assert(crate::text::trim_end_spec(t) == t);
    }
}

} // verus!
