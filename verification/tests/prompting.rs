use inquire::backend::{Event, Key, ScriptedBackend};
use inquire::entry::{EntryKind, FiletypeFilter, RawEntry};
use inquire::explorer::{Explorer, FileSelectPrompt, PromptError, Step};
use inquire::filesystem::MemoryFileSystem;
use inquire::path::FsPath;
use inquire::validator::SuffixValidator;
use inquire::validator::CountingValidator;

fn raw(name: &str, kind: EntryKind) -> RawEntry {
    RawEntry { name: name.to_string(), kind }
}

/// A root with `a.txt` (file) and `sub` (directory); `sub` holds
/// `inner.txt` (file) and `deeper` (directory).
fn sample_fs() -> MemoryFileSystem {
    let mut fs = MemoryFileSystem::new();
    let root = FsPath::root();
    fs.add_dir(
        root.duplicate(),
        vec![raw("a.txt", EntryKind::File), raw("sub", EntryKind::Directory)],
    );
    fs.add_dir(
        root.join(&"sub".to_string()),
        vec![
            raw("inner.txt", EntryKind::File),
            raw("deeper", EntryKind::Directory),
        ],
    );
    fs
}

fn engine(explorer: Explorer<SuffixValidator>, fs: &mut MemoryFileSystem) -> FileSelectPrompt<SuffixValidator> {
    FileSelectPrompt::new(explorer, FsPath::root(), fs).ok().unwrap()
}

fn entry_names(e: &FileSelectPrompt<SuffixValidator>) -> Vec<String> {
    let mut out: Vec<String> = Vec::new();
    for d in e.entries.iter() {
        out.push(d.name.clone());
    }
    out
}

#[test]
fn new_lists_the_starting_directory() {
    let mut fs = sample_fs();
    let e = engine(Explorer::new("pick".to_string()), &mut fs);
    assert_eq!(e.current_path.to_text(), "/");
    assert_eq!(entry_names(&e), vec!["sub", "a.txt"]);
    assert_eq!(e.cursor, 0);
    assert!(e.error_banner.is_none());
}

#[test]
fn new_fails_on_unlistable_start() {
    let mut fs = MemoryFileSystem::new();
    let r = FileSelectPrompt::<SuffixValidator>::new(
        Explorer::new("pick".to_string()),
        FsPath::root(),
        &mut fs,
    );
    match r {
        Ok(_) => panic!("listing an empty filesystem must fail"),
        Err(e) => {
            assert!(!e.is_cancellation());
            assert_eq!(e.message_text(), "cannot list directory");
        },
    }
}

#[test]
fn cursor_moves_clamp_at_both_ends() {
    let mut fs = sample_fs();
    let mut e = engine(Explorer::new("pick".to_string()), &mut fs);
    assert_eq!(e.cursor, 0);
    // moving up at the top is a no-op
    assert!(matches!(e.handle_event(Event::Key(Key::Up), &mut fs), Step::Continue));
    assert_eq!(e.cursor, 0);
    // two entries: down once moves, down again clamps at the last index
    e.handle_event(Event::Key(Key::Down), &mut fs);
    assert_eq!(e.cursor, 1);
    e.handle_event(Event::Key(Key::Down), &mut fs);
    assert_eq!(e.cursor, 1);
    e.handle_event(Event::Key(Key::Up), &mut fs);
    assert_eq!(e.cursor, 0);
}

#[test]
fn vim_keys_mirror_arrows_and_clamp() {
    let mut fs = sample_fs();
    let root = FsPath::root();
    let mut one = MemoryFileSystem::new();
    one.add_dir(root.duplicate(), vec![raw("only.txt", EntryKind::File)]);
    let mut e = engine(
        Explorer::new("pick".to_string()).with_vim_mode(true),
        &mut one,
    );
    // one entry: `j` then `k` from cursor 0 leaves cursor at 0, clamped
    e.handle_event(Event::Key(Key::Char('j')), &mut one);
    assert_eq!(e.cursor, 0);
    e.handle_event(Event::Key(Key::Char('k')), &mut one);
    assert_eq!(e.cursor, 0);

    // without vim mode the same characters are typed, not navigation
    let mut e = engine(Explorer::new("pick".to_string()), &mut fs);
    e.handle_event(Event::Key(Key::Char('j')), &mut fs);
    assert_eq!(e.input_buffer, vec!['j']);
}

#[test]
fn ascend_at_root_is_a_no_op_without_error() {
    let mut fs = sample_fs();
    let mut e = engine(Explorer::new("pick".to_string()), &mut fs);
    let before = entry_names(&e);
    assert!(matches!(e.handle_event(Event::Key(Key::Left), &mut fs), Step::Continue));
    assert_eq!(e.current_path.to_text(), "/");
    assert_eq!(entry_names(&e), before);
    assert!(e.error_banner.is_none());
}

#[test]
fn filtered_listing_descends_and_relists() {
    let mut fs = sample_fs();
    let only_dirs = FiletypeFilter::empty().with(EntryKind::Directory);
    let mut e = engine(
        Explorer::new("pick".to_string()).with_filter(only_dirs),
        &mut fs,
    );
    // filter = {directory}: only `sub` is listed
    assert_eq!(entry_names(&e), vec!["sub"]);
    // Enter on it descends into `sub` and re-lists its children
    assert!(matches!(e.handle_event(Event::Key(Key::Enter), &mut fs), Step::Continue));
    assert_eq!(e.current_path.to_text(), "/sub");
    assert_eq!(entry_names(&e), vec!["deeper"]);
    assert_eq!(e.cursor, 0);
    // and ascending brings the previous listing back
    e.handle_event(Event::Key(Key::Left), &mut fs);
    assert_eq!(e.current_path.to_text(), "/");
    assert_eq!(entry_names(&e), vec!["sub"]);
}

#[test]
fn selecting_a_matching_file_is_accepted() {
    let mut fs = sample_fs();
    let only_files = FiletypeFilter::empty().with(EntryKind::File);
    let v = SuffixValidator::new(".txt".to_string(), "must end with .txt".to_string());
    let mut e = engine(
        Explorer::new("pick".to_string())
            .with_filter(only_files)
            .with_validators(vec![v]),
        &mut fs,
    );
    assert_eq!(entry_names(&e), vec!["a.txt"]);
    match e.handle_event(Event::Key(Key::Enter), &mut fs) {
        Step::Done(p) => assert_eq!(p.to_text(), "/a.txt"),
        _ => panic!("selection of a matching file must be accepted"),
    }
}

#[test]
fn selecting_a_rejected_file_keeps_browsing_with_a_banner() {
    let root = FsPath::root();
    let mut fs = MemoryFileSystem::new();
    fs.add_dir(
        root.duplicate(),
        vec![raw("a.txt", EntryKind::File), raw("notes.md", EntryKind::File)],
    );
    let only_files = FiletypeFilter::empty().with(EntryKind::File);
    let v = SuffixValidator::new(".txt".to_string(), "must end with .txt".to_string());
    let mut e = engine(
        Explorer::new("pick".to_string())
            .with_filter(only_files)
            .with_validators(vec![v]),
        &mut fs,
    );
    assert_eq!(entry_names(&e), vec!["a.txt", "notes.md"]);
    e.handle_event(Event::Key(Key::Down), &mut fs);
    match e.handle_event(Event::Key(Key::Enter), &mut fs) {
        Step::Continue => {},
        _ => panic!("a rejected selection must stay in browsing"),
    }
    assert_eq!(e.error_banner.as_deref(), Some("must end with .txt"));
    assert_eq!(e.current_path.to_text(), "/");
    assert_eq!(entry_names(&e), vec!["a.txt", "notes.md"]);
}

#[test]
fn failed_listing_keeps_previous_state_and_sets_banner() {
    let root = FsPath::root();
    let mut fs = MemoryFileSystem::new();
    // `ghost` is listed in the root but has no recorded directory of its
    // own, so descending into it fails
    fs.add_dir(root.duplicate(), vec![raw("ghost", EntryKind::Directory)]);
    let mut e = engine(Explorer::new("pick".to_string()), &mut fs);
    assert!(matches!(e.handle_event(Event::Key(Key::Enter), &mut fs), Step::Continue));
    assert_eq!(e.current_path.to_text(), "/");
    assert_eq!(entry_names(&e), vec!["ghost"]);
    assert_eq!(e.error_banner.as_deref(), Some("cannot list directory"));
}

#[test]
fn typed_prefix_narrows_and_backspace_restores() {
    let root = FsPath::root();
    let mut fs = MemoryFileSystem::new();
    fs.add_dir(
        root.duplicate(),
        vec![
            raw("Sierra", EntryKind::File),
            raw("sand", EntryKind::File),
            raw("tango", EntryKind::File),
        ],
    );
    let mut e = engine(Explorer::new("pick".to_string()), &mut fs);
    e.handle_event(Event::Key(Key::Char('s')), &mut fs);
    let vis = e.visible_entries();
    let got: Vec<&str> = vis.iter().map(|d| d.name.as_str()).collect();
    assert_eq!(got, vec!["sand", "Sierra"]);
    e.handle_event(Event::Key(Key::Backspace), &mut fs);
    assert_eq!(e.visible_entries().len(), 3);
}

#[test]
fn cancel_returns_the_cancellation_error() {
    let mut fs = sample_fs();
    let e = engine(Explorer::new("pick".to_string()), &mut fs);
    let mut backend = ScriptedBackend::new(vec![
        Event::Key(Key::Down),
        Event::Key(Key::Escape),
    ]);
    match e.prompt(&mut backend, &mut fs) {
        Err(e) => assert!(e.is_cancellation()),
        Ok(_) => panic!("escape must cancel, never accept"),
    }
}

#[test]
fn interrupt_mid_navigation_cancels() {
    let mut fs = sample_fs();
    let e = engine(Explorer::new("pick".to_string()), &mut fs);
    let mut backend = ScriptedBackend::new(vec![
        Event::Key(Key::Enter),
        Event::Resize,
        Event::Interrupt,
    ]);
    match e.prompt(&mut backend, &mut fs) {
        Err(e) => assert!(e.is_cancellation()),
        Ok(_) => panic!("interrupt must cancel, never accept"),
    }
}

#[test]
fn exhausted_script_cancels_instead_of_accepting() {
    let mut fs = sample_fs();
    let e = engine(Explorer::new("pick".to_string()), &mut fs);
    let mut backend = ScriptedBackend::new(vec![Event::Key(Key::Down)]);
    match e.prompt(&mut backend, &mut fs) {
        Err(e) => assert!(e.is_cancellation()),
        Ok(_) => panic!("an exhausted script reads as interrupts"),
    }
}

#[test]
fn full_prompt_accepts_a_validated_path() {
    let mut fs = sample_fs();
    let only_files = FiletypeFilter::empty().with(EntryKind::File);
    let v = SuffixValidator::new(".txt".to_string(), "must end with .txt".to_string());
    let explorer = Explorer::new("pick a text file".to_string())
        .with_filter(only_files)
        .with_validators(vec![v]);
    let mut backend = ScriptedBackend::new(vec![Event::Key(Key::Enter)]);
    match explorer.prompt(&mut backend, &mut fs, FsPath::root()) {
        Ok(p) => assert_eq!(p.to_text(), "/a.txt"),
        Err(_) => panic!("the only listed file passes the validator"),
    }
    assert!(backend.renders > 0);
    assert_eq!(backend.last_path_text.as_deref(), Some("/"));
}

#[test]
fn prompt_descends_then_accepts_inner_file() {
    let mut fs = sample_fs();
    let explorer: Explorer<SuffixValidator> = Explorer::new("pick".to_string());
    // root lists [sub, a.txt]; Enter descends into sub; Down moves to
    // inner.txt (after deeper); Enter selects it
    let mut backend = ScriptedBackend::new(vec![
        Event::Key(Key::Enter),
        Event::Key(Key::Down),
        Event::Key(Key::Enter),
    ]);
    match explorer.prompt(&mut backend, &mut fs, FsPath::root()) {
        Ok(p) => assert_eq!(p.to_text(), "/sub/inner.txt"),
        Err(_) => panic!("navigation then selection must be accepted"),
    }
}

#[test]
fn engine_chain_is_fail_fast_for_selection() {
    let root = FsPath::root();
    let mut fs = MemoryFileSystem::new();
    fs.add_dir(root.duplicate(), vec![raw("a.txt", EntryKind::File)]);
    let chain = vec![
        CountingValidator::new(false, "rejected".to_string()),
        CountingValidator::new(true, String::new()),
    ];
    let mut e = FileSelectPrompt::new(
        Explorer::new("pick".to_string()).with_validators(chain),
        root,
        &mut fs,
    )
    .ok()
    .unwrap();
    assert!(matches!(e.handle_event(Event::Key(Key::Enter), &mut fs), Step::Continue));
    assert_eq!(e.error_banner.as_deref(), Some("rejected"));
    assert_eq!(e.validators[0].calls, 1);
    assert_eq!(e.validators[1].calls, 0);
}

#[test]
fn frame_reflects_state_and_configuration() {
    let mut fs = sample_fs();
    let e = engine(Explorer::new("pick".to_string()), &mut fs);
    let f = e.build_frame();
    assert_eq!(f.message, "? pick");
    assert_eq!(f.path_text, "/");
    assert_eq!(f.cursor, 0);
    assert_eq!(f.lines.len(), 2);
    assert_eq!(f.lines[0], "> sub");
    assert_eq!(f.lines[1], "  a.txt");
    assert!(f.error_banner.is_none());
}

#[test]
fn frame_shows_the_error_banner_with_its_prefix() {
    let root = FsPath::root();
    let mut fs = MemoryFileSystem::new();
    fs.add_dir(root.duplicate(), vec![raw("ghost", EntryKind::Directory)]);
    let mut e = engine(Explorer::new("pick".to_string()), &mut fs);
    e.handle_event(Event::Key(Key::Enter), &mut fs);
    let f = e.build_frame();
    assert_eq!(f.error_banner.as_deref(), Some("! cannot list directory"));
}

#[test]
fn empty_directory_keeps_cursor_and_ignores_enter() {
    let root = FsPath::root();
    let mut fs = MemoryFileSystem::new();
    fs.add_dir(root.duplicate(), Vec::new());
    let mut e = engine(Explorer::new("pick".to_string()), &mut fs);
    assert_eq!(e.entries.len(), 0);
    e.handle_event(Event::Key(Key::Down), &mut fs);
    assert_eq!(e.cursor, 0);
    assert!(matches!(e.handle_event(Event::Key(Key::Enter), &mut fs), Step::Continue));
    assert_eq!(e.current_path.to_text(), "/");
}

#[test]
fn builder_keeps_its_settings() {
    let ex: Explorer<SuffixValidator> = Explorer::new("msg".to_string());
    assert_eq!(ex.message, "msg");
    assert!(!ex.vim_mode);
    assert!(ex.validators.is_empty());
    // a fresh prompt carries the plain render configuration
    assert_eq!(ex.render_config.prompt_prefix, "? ");
    assert_eq!(ex.render_config.highlight_prefix, "> ");
    assert_eq!(ex.render_config.plain_prefix, "  ");
    assert_eq!(ex.render_config.error_prefix, "! ");
    assert_eq!(ex.render_config.help_text, "");
    let ex = ex.with_vim_mode(true);
    assert!(ex.vim_mode);
    let only_dirs = FiletypeFilter::empty().with(EntryKind::Directory);
    let ex = ex.with_filter(only_dirs);
    assert!(ex.filetype_filter.directories);
    assert!(!ex.filetype_filter.files);
}
