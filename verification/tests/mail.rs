use xerotop::mail::{join_path, maildir, sample, MailCount};

#[test]
fn blank_dir_means_home_maildir() {
    assert_eq!(maildir("", "/home/u"), "/home/u/.maildir");
    assert_eq!(maildir("  ", "/home/u"), "/home/u/.maildir");
    assert_eq!(maildir("", "/home/u"), maildir("~/.maildir", "/home/u"));
}

#[test]
fn tilde_means_home() {
    assert_eq!(maildir("~/Mail", "/home/u"), "/home/u/Mail");
    assert_eq!(maildir("~/Mail", "/home/u/"), "/home/u/Mail");
    assert_eq!(maildir("~/", "/home/u"), "/home/u/");
    assert_eq!(maildir("~//srv/mail", "/home/u"), "/srv/mail");
}

#[test]
fn other_dirs_stand() {
    assert_eq!(maildir("/var/mail/u", "/home/u"), "/var/mail/u");
    assert_eq!(maildir("~user/mail", "/home/u"), "~user/mail");
    assert_eq!(maildir(" ~/Mail", "/home/u"), " ~/Mail");
}

#[test]
fn no_home() {
    assert_eq!(maildir("", ""), ".maildir");
    assert_eq!(join_path("", "new"), "new");
}

#[test]
fn sample_counts() {
    let c = sample(true, 3, 40);
    assert_eq!((c.new, c.total, c.present), (3, 43, true));
    assert!(c.total >= c.new);
    let d = sample(false, 7, 7);
    assert_eq!((d.new, d.total, d.present), (0, 0, false));
    let e = MailCount::default();
    assert!(!e.present);
}
