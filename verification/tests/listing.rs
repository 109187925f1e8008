use inquire::entry::{EntryKind, FiletypeFilter, RawEntry};
use inquire::listing::build_listing;
use inquire::order::{name_le, sort_listing};
use inquire::path::FsPath;
use inquire::validator::{
    CountingValidator, PathValidator, SuffixValidator, run_chain,
};

fn raw(name: &str, kind: EntryKind) -> RawEntry {
    RawEntry { name: name.to_string(), kind }
}

fn names(listing: &Vec<inquire::entry::DirectoryEntry>) -> Vec<String> {
    let mut out: Vec<String> = Vec::new();
    let mut i = 0;
    while i < listing.len() {
        out.push(listing[i].name.clone());
        i += 1;
    }
    out
}

#[test]
fn path_text_of_root_and_children() {
    let root = FsPath::root();
    assert!(root.is_root());
    assert_eq!(root.to_text(), "/");
    let home = root.join(&"home".to_string());
    assert!(!home.is_root());
    assert_eq!(home.to_text(), "/home");
    let user = home.join(&"user".to_string());
    assert_eq!(user.to_text(), "/home/user");
    assert_eq!(user.depth(), 2);
    let back = user.parent();
    assert_eq!(back.to_text(), "/home");
    assert!(back.equals(&home));
    assert!(!back.equals(&user));
}

#[test]
fn parent_of_root_is_root() {
    let root = FsPath::root();
    let up = root.parent();
    assert!(up.is_root());
    assert_eq!(up.to_text(), "/");
}

#[test]
fn listing_sorts_directories_first_then_names() {
    let parent = FsPath::root();
    let children = vec![
        raw("b.txt", EntryKind::File),
        raw("A.txt", EntryKind::File),
        raw("sub", EntryKind::Directory),
    ];
    let listed = build_listing(&parent, &FiletypeFilter::empty(), &children);
    assert_eq!(names(&listed), vec!["sub", "A.txt", "b.txt"]);
    assert_eq!(listed[0].path.to_text(), "/sub");
    assert_eq!(listed[1].path.to_text(), "/A.txt");
    assert_eq!(listed[2].path.to_text(), "/b.txt");
}

#[test]
fn listing_sort_is_case_insensitive() {
    let parent = FsPath::root();
    let children = vec![
        raw("delta", EntryKind::File),
        raw("Charlie", EntryKind::File),
        raw("alpha", EntryKind::File),
        raw("Bravo", EntryKind::File),
    ];
    let listed = build_listing(&parent, &FiletypeFilter::empty(), &children);
    assert_eq!(names(&listed), vec!["alpha", "Bravo", "Charlie", "delta"]);
}

#[test]
fn listing_keeps_equal_names_in_enumeration_order() {
    let parent = FsPath::root();
    let first = build_listing(
        &parent,
        &FiletypeFilter::empty(),
        &vec![raw("b", EntryKind::File), raw("B", EntryKind::File)],
    );
    assert_eq!(names(&first), vec!["b", "B"]);
    let second = build_listing(
        &parent,
        &FiletypeFilter::empty(),
        &vec![raw("B", EntryKind::File), raw("b", EntryKind::File)],
    );
    assert_eq!(names(&second), vec!["B", "b"]);
}

#[test]
fn listing_with_empty_filter_keeps_every_child_once() {
    let parent = FsPath::root();
    let children = vec![
        raw("one", EntryKind::File),
        raw("two", EntryKind::Symlink),
        raw("three", EntryKind::Other),
        raw("four", EntryKind::Directory),
    ];
    let listed = build_listing(&parent, &FiletypeFilter::empty(), &children);
    assert_eq!(listed.len(), 4);
    let got = names(&listed);
    for name in ["one", "two", "three", "four"] {
        assert_eq!(got.iter().filter(|n| n.as_str() == name).count(), 1);
    }
}

#[test]
fn listing_with_filter_never_shows_other_kinds() {
    let parent = FsPath::root();
    let children = vec![
        raw("a.txt", EntryKind::File),
        raw("sub", EntryKind::Directory),
        raw("link", EntryKind::Symlink),
        raw("sock", EntryKind::Other),
    ];
    let only_files = FiletypeFilter::empty().with(EntryKind::File);
    let listed = build_listing(&parent, &only_files, &children);
    assert_eq!(names(&listed), vec!["a.txt"]);
    assert_eq!(listed[0].kind, EntryKind::File);

    let dirs_and_links = FiletypeFilter::empty()
        .with(EntryKind::Directory)
        .with(EntryKind::Symlink);
    let listed = build_listing(&parent, &dirs_and_links, &children);
    assert_eq!(names(&listed), vec!["sub", "link"]);
    for e in listed.iter() {
        assert!(dirs_and_links.contains(e.kind));
    }
}

#[test]
fn only_directories_form_their_own_group() {
    let parent = FsPath::root();
    let children = vec![
        raw("z", EntryKind::File),
        raw("s", EntryKind::Symlink),
        raw("d", EntryKind::Directory),
        raw("o", EntryKind::Other),
    ];
    let listed = build_listing(&parent, &FiletypeFilter::empty(), &children);
    // directories first; symlinks and others sort with files by name
    assert_eq!(names(&listed), vec!["d", "o", "s", "z"]);
}

#[test]
fn default_filter_shows_everything() {
    let f = FiletypeFilter::default();
    assert!(f.allows(EntryKind::File));
    assert!(f.allows(EntryKind::Directory));
    assert!(f.allows(EntryKind::Symlink));
    assert!(f.allows(EntryKind::Other));
    assert!(!f.contains(EntryKind::File));
    let c = inquire::render::RenderConfig::default();
    assert_eq!(c.prompt_prefix, "? ");
    assert_eq!(c.help_text, "");
}

#[test]
fn filetype_filter_membership() {
    let f = FiletypeFilter::empty();
    assert!(!f.contains(EntryKind::File));
    assert!(f.allows(EntryKind::File));
    assert!(f.allows(EntryKind::Other));
    let f = f.with(EntryKind::Directory);
    assert!(f.contains(EntryKind::Directory));
    assert!(f.allows(EntryKind::Directory));
    assert!(!f.allows(EntryKind::File));
}

#[test]
fn name_order_is_case_insensitive_lexicographic() {
    assert!(name_le(&"Alpha".to_string(), &"beta".to_string()));
    assert!(!name_le(&"beta".to_string(), &"Alpha".to_string()));
    assert!(name_le(&"same".to_string(), &"SAME".to_string()));
    assert!(name_le(&"SAME".to_string(), &"same".to_string()));
    assert!(name_le(&"ab".to_string(), &"abc".to_string()));
    assert!(!name_le(&"abc".to_string(), &"ab".to_string()));
}

#[test]
fn sort_listing_alone_orders_entries() {
    let parent = FsPath::root();
    let entries = build_listing(
        &parent,
        &FiletypeFilter::empty(),
        &vec![
            raw("zeta", EntryKind::File),
            raw("Yard", EntryKind::Directory),
            raw("apple", EntryKind::File),
        ],
    );
    let sorted = sort_listing(&entries);
    assert_eq!(names(&sorted), vec!["Yard", "apple", "zeta"]);
}

#[test]
fn suffix_validator_accepts_and_rejects() {
    let mut v = SuffixValidator::new(".txt".to_string(), "must end with .txt".to_string());
    assert!(v.validate(&"/notes/a.txt".to_string()).is_ok());
    let e = v.validate(&"/notes/a.md".to_string());
    assert_eq!(e.unwrap_err(), "must end with .txt");
    let e = v.validate(&"xt".to_string());
    assert_eq!(e.unwrap_err(), "must end with .txt");
}

#[test]
fn empty_chain_always_succeeds() {
    let mut chain: Vec<SuffixValidator> = Vec::new();
    assert!(run_chain(&mut chain, &"/anything".to_string()).is_ok());
}

#[test]
fn chain_stops_at_first_failure() {
    let mut chain = vec![
        CountingValidator::new(false, "first says no".to_string()),
        CountingValidator::new(true, String::new()),
    ];
    let r = run_chain(&mut chain, &"/candidate".to_string());
    assert_eq!(r.unwrap_err(), "first says no");
    assert_eq!(chain[0].calls, 1);
    assert_eq!(chain[1].calls, 0);
}

#[test]
fn chain_runs_every_approving_validator() {
    let mut chain = vec![
        CountingValidator::new(true, String::new()),
        CountingValidator::new(true, String::new()),
    ];
    assert!(run_chain(&mut chain, &"/candidate".to_string()).is_ok());
    assert_eq!(chain[0].calls, 1);
    assert_eq!(chain[1].calls, 1);
}
