//! The interactive filesystem-path prompt: configuration and engine.
//!
//! An [`Explorer`] is the caller-facing configuration: message, filetype
//! filter, validator chain, vim-mode flag and render configuration,
//! immutable once built and consumed by `prompt`.  A [`FileSelectPrompt`]
//! is the navigation engine built from it: it owns the browsed path, the
//! listed entries, the cursor, the type-to-filter buffer and the pending
//! error banner, and drives one event at a time to completion.
//!
//! Key policy: arrows move the cursor and, on the left/right keys, ascend
//! and descend; Enter descends into a directory and selects any other
//! entry; with vim mode on, `h`/`j`/`k`/`l` mirror the arrows.  Ordinary
//! characters collect in a buffer that narrows the visible entries by
//! case-insensitive prefix; ascending, descending or activating clears the
//! buffer and returns the cursor to the top.

use vstd::prelude::*;
use crate::backend::{Backend, Event, Key};
use crate::entry::{DirectoryEntry, EntryKind, EntryV, FiletypeFilter, RawEntryV, entry_views, raw_views};
use crate::filesystem::FileSystem;
use crate::listing::{
    build_listing, lemma_listing_shape, lemma_listing_sorted, listed_entries,
};
use crate::order::{lower_code, lower_code_exec, sorted_by_entry_le};
use crate::path::{FsPath, path_text};
use crate::render::{Frame, RenderConfig};
use crate::validator::{
    PathValidator, chain_verdict, lemma_chain_verdict_congruence, lemma_verdicts_unchanged_trans,
    run_chain, verdicts_unchanged,
};

verus! {

/// Why a prompt ended without an accepted path.
pub enum PromptError {
    /// The user cancelled the prompt (Escape or interrupt).
    Cancelled,
    /// The starting directory could not be listed; the prompt never ran.
    StartDirectory(String),
}

impl PromptError {
    /// Whether this is the distinguished cancellation error.
    pub fn is_cancellation(&self) -> (r: bool)
        ensures
            r == (self matches PromptError::Cancelled),
    {
        matches!(self, PromptError::Cancelled)
    }

    /// The error's message text.
    pub fn message_text(&self) -> (r: String)
        ensures
            self matches PromptError::StartDirectory(m) ==> r@ == m@,
            self matches PromptError::Cancelled ==> r@ == "prompt cancelled"@,
    {
        match self {
            PromptError::Cancelled => "prompt cancelled".to_owned(),
            PromptError::StartDirectory(m) => m.clone(),
        }
    }
}

/// What one input event asks of the engine.
#[derive(Clone, Copy, PartialEq, Eq, Structural, Debug)]
pub enum NavAction {
    /// Move the cursor one entry up.
    MoveUp,
    /// Move the cursor one entry down.
    MoveDown,
    /// Go to the parent directory.
    Ascend,
    /// Enter the directory under the cursor.
    Descend,
    /// Enter the directory under the cursor, or select any other entry.
    Activate,
    /// Append a character to the type-to-filter buffer.
    Type(char),
    /// Remove the last character of the type-to-filter buffer.
    Erase,
    /// Abort the prompt.
    Cancel,
    /// Repaint only; the state does not change.
    Redraw,
}

/// The action an event maps to under the given vim-mode flag.
pub open spec fn classify(ev: Event, vim: bool) -> NavAction {
    match ev {
        Event::Interrupt => NavAction::Cancel,
        Event::Resize => NavAction::Redraw,
        Event::Key(k) => match k {
            Key::Up => NavAction::MoveUp,
            Key::Down => NavAction::MoveDown,
            Key::Left => NavAction::Ascend,
            Key::Right => NavAction::Descend,
            Key::Enter => NavAction::Activate,
            Key::Escape => NavAction::Cancel,
            Key::Backspace => NavAction::Erase,
            Key::Char(c) => {
                if vim && c == 'k' {
                    NavAction::MoveUp
                } else if vim && c == 'j' {
                    NavAction::MoveDown
                } else if vim && c == 'h' {
                    NavAction::Ascend
                } else if vim && c == 'l' {
                    NavAction::Descend
                } else {
                    NavAction::Type(c)
                }
            },
        },
    }
}

/// Maps one event to its action; vim keys count only with vim mode on.
pub fn classify_event(ev: Event, vim: bool) -> (r: NavAction)
    ensures
        r == classify(ev, vim),
{
    match ev {
        Event::Interrupt => NavAction::Cancel,
        Event::Resize => NavAction::Redraw,
        Event::Key(k) => match k {
            Key::Up => NavAction::MoveUp,
            Key::Down => NavAction::MoveDown,
            Key::Left => NavAction::Ascend,
            Key::Right => NavAction::Descend,
            Key::Enter => NavAction::Activate,
            Key::Escape => NavAction::Cancel,
            Key::Backspace => NavAction::Erase,
            Key::Char(c) => {
                if vim && c == 'k' {
                    NavAction::MoveUp
                } else if vim && c == 'j' {
                    NavAction::MoveDown
                } else if vim && c == 'h' {
                    NavAction::Ascend
                } else if vim && c == 'l' {
                    NavAction::Descend
                } else {
                    NavAction::Type(c)
                }
            },
        },
    }
}

/// How one step of the engine ended.
pub enum Step {
    /// Keep prompting.
    Continue,
    /// The entry with this path was selected and passed every validator.
    Done(FsPath),
    /// The user cancelled.
    Cancelled,
}

/// Whether the type-to-filter buffer is a case-insensitive prefix of a name.
pub open spec fn buffer_matches(buf: Seq<char>, name: Seq<char>) -> bool {
    buf.len() <= name.len() && forall|i: int|
        0 <= i < buf.len() ==> lower_code(buf[i]) == lower_code(#[trigger] name[i])
}

/// Whether the buffer is a case-insensitive prefix of the name.
pub fn buffer_matches_name(buf: &Vec<char>, name: &String) -> (r: bool)
    ensures
        r == buffer_matches(buf@, name@),
{
    let n_len = name.as_str().unicode_len();
    if buf.len() > n_len {
        return false;
    }
    let mut i: usize = 0;
    while i < buf.len()
        invariant
            i <= buf@.len(),
            buf@.len() <= name@.len(),
            n_len == name@.len(),
            forall|j: int| 0 <= j < i ==> lower_code(buf@[j]) == lower_code(#[trigger] name@[j]),
        decreases buf@.len() - i,
    {
        let bc = lower_code_exec(buf[i]);
        let nc = lower_code_exec(name.as_str().get_char(i));
        if bc != nc {
            return false;
        }
        i = i + 1;
    }
    true
}

/// The user-facing configuration of a filesystem-path prompt.
pub struct Explorer<V: PathValidator> {
    /// Message shown to the user.
    pub message: String,
    /// Entry kinds to display and allow for selection; empty = no filter.
    pub filetype_filter: FiletypeFilter,
    /// Checks a candidate path must pass, run in order, stopping at the
    /// first failure.
    pub validators: Vec<V>,
    /// Whether `h`/`j`/`k`/`l` also navigate.
    pub vim_mode: bool,
    /// Style choices for rendering; never affects navigation.
    pub render_config: RenderConfig,
}

impl<V: PathValidator> Explorer<V> {
    /// A prompt with the given message, no filter, no validators, vim mode
    /// off and the plain render configuration.
    pub fn new(message: String) -> (r: Self)
        ensures
            r.message@ == message@,
            r.filetype_filter.spec_is_empty(),
            r.validators@.len() == 0,
            r.vim_mode == false,
            r.render_config.prompt_prefix@ == "? "@,
            r.render_config.highlight_prefix@ == "> "@,
            r.render_config.plain_prefix@ == "  "@,
            r.render_config.error_prefix@ == "! "@,
            r.render_config.help_text@ == ""@,
    {
        Explorer {
            message,
            filetype_filter: FiletypeFilter::empty(),
            validators: Vec::new(),
            vim_mode: false,
            render_config: RenderConfig::plain(),
        }
    }

    /// This configuration with the given filetype filter.
    pub fn with_filter(self, filetype_filter: FiletypeFilter) -> (r: Self)
        ensures
            r == (Explorer { filetype_filter, ..self }),
    {
        Explorer { filetype_filter, ..self }
    }

    /// This configuration with the given validator chain.
    pub fn with_validators(self, validators: Vec<V>) -> (r: Self)
        ensures
            r == (Explorer { validators, ..self }),
    {
        Explorer { validators, ..self }
    }

    /// This configuration with vim mode switched as given.
    pub fn with_vim_mode(self, vim_mode: bool) -> (r: Self)
        ensures
            r == (Explorer { vim_mode, ..self }),
    {
        Explorer { vim_mode, ..self }
    }

    /// This configuration with the given render configuration.
    pub fn with_render_config(self, render_config: RenderConfig) -> (r: Self)
        ensures
            r == (Explorer { render_config, ..self }),
    {
        Explorer { render_config, ..self }
    }

    /// Prompts for a path, browsing from `start`, against the given
    /// backend and filesystem.
    ///
    /// Returns the selected path — accepted only with the whole validator
    /// chain's approval — the distinguished cancellation error, or the
    /// fatal error of a starting directory that could not be listed.
    pub fn prompt<B: Backend, F: FileSystem>(
        self,
        backend: &mut B,
        fs: &mut F,
        start: FsPath,
    ) -> (r: Result<FsPath, PromptError>)
        ensures
            r matches Ok(p) ==> chain_verdict(self.validators@, path_text(p@)) is None,
            r matches Err(e) ==> (e matches PromptError::Cancelled || e
                matches PromptError::StartDirectory(_)),
    {
        match FileSelectPrompt::new(self, start, fs) {
            Ok(engine) => engine.prompt(backend, fs),
            Err(e) => Err(e),
        }
    }
}

/// The navigation engine of one prompt call.
pub struct FileSelectPrompt<V: PathValidator> {
    /// Message shown to the user.
    pub message: String,
    /// Entry kinds to display and allow for selection; empty = no filter.
    pub filetype_filter: FiletypeFilter,
    /// The validator chain.
    pub validators: Vec<V>,
    /// Whether `h`/`j`/`k`/`l` also navigate.
    pub vim_mode: bool,
    /// Style choices for rendering.
    pub render_config: RenderConfig,
    /// The directory being browsed.
    pub current_path: FsPath,
    /// The listing of `current_path`: filtered, sorted, paths attached.
    pub entries: Vec<DirectoryEntry>,
    /// Index into the visible entries; `0` when none are visible.
    pub cursor: usize,
    /// The type-to-filter buffer.
    pub input_buffer: Vec<char>,
    /// The last navigation or validation error, if still pending.
    pub error_banner: Option<String>,
}

impl<V: PathValidator> FileSelectPrompt<V> {
    /// The entries the prompt shows: the listing narrowed to names the
    /// type-to-filter buffer is a prefix of.
    pub open spec fn visible(&self) -> Seq<EntryV> {
        entry_views(self.entries@).filter(|e: EntryV| buffer_matches(self.input_buffer@, e.name))
    }

    /// The engine's invariant: the cursor is in bounds, the listing is
    /// sorted, and every entry is an admitted child of the browsed path.
    pub open spec fn wf(&self) -> bool {
        &&& (self.visible().len() == 0 ==> self.cursor == 0)
        &&& (self.visible().len() > 0 ==> self.cursor < self.visible().len())
        &&& sorted_by_entry_le(entry_views(self.entries@))
        &&& forall|i: int|
            0 <= i < self.entries@.len() ==> {
                let e = #[trigger] self.entries@[i]@;
                e.path == self.current_path@.push(e.name) && self.filetype_filter.admits(e.kind)
            }
    }

    /// Whether `o` keeps this engine's configuration.
    pub open spec fn same_config(&self, o: &Self) -> bool {
        &&& o.message == self.message
        &&& o.filetype_filter == self.filetype_filter
        &&& o.vim_mode == self.vim_mode
        &&& o.render_config == self.render_config
    }

    /// Whether `o` keeps this engine's browsed path and listing.
    pub open spec fn same_listing(&self, o: &Self) -> bool {
        &&& o.current_path == self.current_path
        &&& o.entries == self.entries
    }

    /// The visible entries, in listing order.
    pub fn visible_entries(&self) -> (out: Vec<DirectoryEntry>)
        ensures
            entry_views(out@) == self.visible(),
    {
        let ghost pred = |e: EntryV| buffer_matches(self.input_buffer@, e.name);
        let mut out: Vec<DirectoryEntry> = Vec::new();
        let mut i: usize = 0;
        proof {
            reveal(Seq::filter);
            assert(entry_views(self.entries@.subrange(0, 0)) =~= Seq::<EntryV>::empty());
            assert(entry_views(out@) =~= entry_views(self.entries@.subrange(0, 0)).filter(pred));
        }
        while i < self.entries.len()
            invariant
                i <= self.entries@.len(),
                entry_views(out@) == entry_views(self.entries@.subrange(0, i as int)).filter(
                    pred,
                ),
                pred == (|e: EntryV| buffer_matches(self.input_buffer@, e.name)),
            decreases self.entries@.len() - i,
        {
            let ghost pre = entry_views(self.entries@.subrange(0, i as int));
            let ghost cur = entry_views(self.entries@.subrange(0, i + 1));
            let ghost old_out = out@;
            proof {
                reveal(Seq::filter);
                assert(cur.drop_last() =~= pre);
                assert(cur.last() == self.entries@[i as int]@);
            }
            let e = &self.entries[i];
            if buffer_matches_name(&self.input_buffer, &e.name) {
                let copy = e.duplicate();
                let ghost copyv = copy@;
                out.push(copy);
                proof {
                    reveal(Seq::filter);
                    assert(pred(cur.last()));
                    assert(cur.filter(pred) =~= pre.filter(pred).push(cur.last()));
                    assert(copyv == cur.last());
                    assert(entry_views(out@) =~= entry_views(old_out).push(copyv));
                    assert(entry_views(old_out) == pre.filter(pred));
                    assert(entry_views(out@) =~= cur.filter(pred));
                }
            } else {
                proof {
                    reveal(Seq::filter);
                    assert(!pred(cur.last()));
                    assert(cur.filter(pred) =~= pre.filter(pred));
                    assert(entry_views(out@) =~= cur.filter(pred));
                }
            }
            i = i + 1;
        }
        proof {
            assert(self.entries@.subrange(0, self.entries@.len() as int) =~= self.entries@);
        }
        out
    }

    /// Replaces the browsed directory by `target` if the filesystem can
    /// list it: on success the listing, cursor and banner are reset; on
    /// failure only the banner changes, and the previous directory and
    /// listing stay.
    ///
    /// The raised banner carries the message `read_dir` returned.  The
    /// [`FileSystem`] trait is deliberately contract-free — the real
    /// filesystem promises nothing — so its result has no spec-level name
    /// here and the contract can only state that a banner is raised.
    /// [`crate::filesystem::MemoryFileSystem`] pins its failure message in
    /// its own contract, where it is statable.
    fn reload<F: FileSystem>(&mut self, target: FsPath, fs: &mut F) -> (ok: bool)
        requires
            old(self).wf(),
            old(self).input_buffer@.len() == 0,
            old(self).cursor == 0,
        ensures
            old(self).same_config(final(self)),
            final(self).validators == old(self).validators,
            final(self).input_buffer@.len() == 0,
            final(self).cursor == 0,
            ok ==> final(self).current_path@ == target@ && final(self).error_banner is None
                && (exists|raw: Seq<RawEntryV>|
                entry_views(final(self).entries@) == listed_entries(
                    target@,
                    final(self).filetype_filter,
                    raw,
                )),
            !ok ==> old(self).same_listing(final(self)) && final(self).error_banner is Some,
            final(self).wf(),
    {
        match fs.read_dir(&target) {
            Ok(raw) => {
                let ghost rv = raw_views(raw@);
                let listed = build_listing(&target, &self.filetype_filter, &raw);
                proof {
                    lemma_listing_sorted(target@, self.filetype_filter, rv);
                    lemma_listing_shape(target@, self.filetype_filter, rv);
                }
                self.entries = listed;
                self.current_path = target;
                self.error_banner = None;
                proof {
                    let shown = listed_entries(self.current_path@, self.filetype_filter, rv);
                    assert(entry_views(self.entries@) == shown);
                    assert(forall|i: int|
                        0 <= i < self.entries@.len() ==> #[trigger] self.entries@[i]@ == shown[i]);
                }
                true
            },
            Err(m) => {
                self.error_banner = Some(m);
                false
            },
        }
    }

    /// What holds after a navigation into the directory `target`: either
    /// the move succeeded — the path changed, the listing was rebuilt from
    /// what the filesystem reported, no banner — or the listing failed, a
    /// banner with the filesystem's message was raised, and the previous
    /// path and listing stay (the contract names only the banner's
    /// presence; see `reload` for why its text cannot be stated here).
    /// Either way the type-to-filter buffer is cleared and the cursor
    /// returns to the top — a design choice beyond the kept path and
    /// entries: the navigation key has already cleared the buffer, which
    /// changes the visible list, so the cursor starts it afresh.
    pub open spec fn after_navigation(old_state: Self, new_state: Self, target: Seq<Seq<char>>) -> bool {
        &&& new_state.validators == old_state.validators
        &&& new_state.input_buffer@.len() == 0
        &&& new_state.cursor == 0
        &&& {
            (new_state.current_path@ == target && new_state.error_banner is None && (exists|
                raw: Seq<RawEntryV>,
            |
                entry_views(new_state.entries@) == listed_entries(
                    target,
                    new_state.filetype_filter,
                    raw,
                ))) || (old_state.same_listing(&new_state) && new_state.error_banner is Some)
        }
    }

    /// What holds after an action that moves only the cursor or the
    /// banner: path, listing, buffer and validators all stay.
    pub open spec fn only_cursor_moved(old_state: Self, new_state: Self) -> bool {
        &&& old_state.same_listing(&new_state)
        &&& new_state.validators == old_state.validators
        &&& new_state.input_buffer == old_state.input_buffer
        &&& new_state.error_banner is None
    }

    /// Applies one input event to the engine.
    ///
    /// Cursor moves clamp at the listing's ends and never leave it; ascend
    /// at the root is a no-op; a failed listing keeps the previous
    /// directory and listing and only raises the banner; cancel always
    /// ends the prompt cancelled; a selection is accepted exactly when the
    /// whole validator chain approves its path.
    pub fn handle_event<F: FileSystem>(&mut self, ev: Event, fs: &mut F) -> (r: Step)
        requires
            old(self).wf(),
        ensures
            final(self).wf(),
            old(self).same_config(final(self)),
            verdicts_unchanged(old(self).validators@, final(self).validators@),
            r matches Step::Done(p) ==> chain_verdict(old(self).validators@, path_text(p@))
                is None,
            classify(ev, old(self).vim_mode) == NavAction::Cancel ==> r is Cancelled && *final(self) == *old(self),
            classify(ev, old(self).vim_mode) == NavAction::Redraw ==> r is Continue && *final(self) == *old(self),
            classify(ev, old(self).vim_mode) == NavAction::MoveUp ==> r is Continue
                && Self::only_cursor_moved(*old(self), *final(self)) && final(self).cursor == (
            if old(self).cursor > 0 {
                (old(self).cursor - 1) as usize
            } else {
                0usize
            }),
            classify(ev, old(self).vim_mode) == NavAction::MoveDown ==> r is Continue
                && Self::only_cursor_moved(*old(self), *final(self)) && final(self).cursor == (
            if old(self).visible().len() > 0 && old(self).cursor + 1 < old(self).visible().len() {
                (old(self).cursor + 1) as usize
            } else {
                old(self).cursor
            }),
            classify(ev, old(self).vim_mode) matches NavAction::Type(c) ==> r is Continue
                && old(self).same_listing(final(self)) && final(self).validators == old(self).validators && final(self).error_banner is None && final(self).cursor == 0 && final(self).input_buffer@ == old(self).input_buffer@.push(c),
            classify(ev, old(self).vim_mode) == NavAction::Erase ==> r is Continue && old(self).same_listing(final(self)) && final(self).validators == old(self).validators && final(self).error_banner is None && final(self).cursor == 0 && final(self).input_buffer@ == (
            if old(self).input_buffer@.len() > 0 {
                old(self).input_buffer@.drop_last()
            } else {
                old(self).input_buffer@
            }),
            classify(ev, old(self).vim_mode) == NavAction::Ascend && old(self).current_path.spec_is_root() ==> r is Continue && old(self).same_listing(final(self))
                && final(self).validators == old(self).validators && final(self).input_buffer@.len() == 0 && final(self).cursor == 0 && final(self).error_banner
                is None,
            classify(ev, old(self).vim_mode) == NavAction::Ascend && !old(self).current_path.spec_is_root() ==> r is Continue && Self::after_navigation(
                *old(self),
                *final(self),
                old(self).current_path@.drop_last(),
            ),
            classify(ev, old(self).vim_mode) == NavAction::Descend ==> r is Continue,
            classify(ev, old(self).vim_mode) == NavAction::Descend && !(old(self).visible().len()
                > 0 && old(self).visible()[old(self).cursor as int].kind
                == EntryKind::Directory) ==> *final(self) == *old(self),
            classify(ev, old(self).vim_mode) == NavAction::Descend && old(self).visible().len() > 0
                && old(self).visible()[old(self).cursor as int].kind == EntryKind::Directory
                ==> Self::after_navigation(
                *old(self),
                *final(self),
                old(self).visible()[old(self).cursor as int].path,
            ),
            classify(ev, old(self).vim_mode) == NavAction::Activate && old(self).visible().len()
                == 0 ==> r is Continue && *final(self) == *old(self),
            classify(ev, old(self).vim_mode) == NavAction::Activate && old(self).visible().len()
                > 0 && old(self).visible()[old(self).cursor as int].kind == EntryKind::Directory
                ==> r is Continue && Self::after_navigation(
                *old(self),
                *final(self),
                old(self).visible()[old(self).cursor as int].path,
            ),
            classify(ev, old(self).vim_mode) == NavAction::Activate && old(self).visible().len()
                > 0 && old(self).visible()[old(self).cursor as int].kind != EntryKind::Directory
                ==> {
                let candidate = old(self).visible()[old(self).cursor as int].path;
                &&& (chain_verdict(old(self).validators@, path_text(candidate)) is None ==> (
                r matches Step::Done(p) && p@ == candidate))
                &&& (chain_verdict(old(self).validators@, path_text(candidate)) matches Some(m)
                    ==> r is Continue && old(self).same_listing(final(self)) && final(self).input_buffer == old(self).input_buffer && final(self).cursor == old(self).cursor
                    && (final(self).error_banner matches Some(s) && s@ == m))
            },
    {
        let action = classify_event(ev, self.vim_mode);
        match action {
            NavAction::Cancel => Step::Cancelled,
            NavAction::Redraw => Step::Continue,
            NavAction::MoveUp => {
                self.error_banner = None;
                if self.cursor > 0 {
                    self.cursor = self.cursor - 1;
                }
                Step::Continue
            },
            NavAction::MoveDown => {
                self.error_banner = None;
                let vis = self.visible_entries();
                let n = vis.len();
                if n > 0 && self.cursor + 1 < n {
                    self.cursor = self.cursor + 1;
                }
                Step::Continue
            },
            NavAction::Type(c) => {
                self.error_banner = None;
                self.input_buffer.push(c);
                self.cursor = 0;
                Step::Continue
            },
            NavAction::Erase => {
                self.error_banner = None;
                if self.input_buffer.len() > 0 {
                    self.input_buffer.pop();
                }
                self.cursor = 0;
                Step::Continue
            },
            NavAction::Ascend => {
                self.input_buffer.clear();
                self.cursor = 0;
                if self.current_path.is_root() {
                    self.error_banner = None;
                    Step::Continue
                } else {
                    let target = self.current_path.parent();
                    let _ = self.reload(target, fs);
                    Step::Continue
                }
            },
            NavAction::Descend => {
                let vis = self.visible_entries();
                if vis.len() == 0 {
                    return Step::Continue;
                }
                let target = vis[self.cursor].duplicate();
                if matches!(target.kind, EntryKind::Directory) {
                    self.input_buffer.clear();
                    self.cursor = 0;
                    let _ = self.reload(target.path, fs);
                }
                Step::Continue
            },
            NavAction::Activate => {
                let vis = self.visible_entries();
                if vis.len() == 0 {
                    return Step::Continue;
                }
                let target = vis[self.cursor].duplicate();
                if matches!(target.kind, EntryKind::Directory) {
                    self.input_buffer.clear();
                    self.cursor = 0;
                    let _ = self.reload(target.path, fs);
                    Step::Continue
                } else {
                    let text = target.path.to_text();
                    match run_chain(&mut self.validators, &text) {
                        Ok(()) => Step::Done(target.path),
                        Err(m) => {
                            self.error_banner = Some(m);
                            Step::Continue
                        },
                    }
                }
            },
        }
    }

    /// One full repaint of the current state, honoring the render
    /// configuration: message with its prefix, the browsed path, one line
    /// per visible entry with the cursor's line marked, the banner with
    /// its prefix, and the help line.
    pub fn build_frame(&self) -> (f: Frame)
        requires
            self.wf(),
        ensures
            f.message@ == self.render_config.prompt_prefix@ + self.message@,
            f.path_text@ == path_text(self.current_path@),
            f.cursor == self.cursor,
            f.lines@.len() == self.visible().len(),
            forall|i: int|
                0 <= i < f.lines@.len() ==> #[trigger] f.lines@[i]@ == (if i == self.cursor {
                    self.render_config.highlight_prefix@
                } else {
                    self.render_config.plain_prefix@
                }) + self.visible()[i].name,
            f.help_text@ == self.render_config.help_text@,
            f.error_banner is Some <==> self.error_banner is Some,
            self.error_banner matches Some(m) ==> (f.error_banner matches Some(s) && s@
                == self.render_config.error_prefix@ + m@),
    {
        let mut message = self.render_config.prompt_prefix.clone();
        message.append(self.message.as_str());
        let path_str = self.current_path.to_text();
        let vis = self.visible_entries();
        let mut lines: Vec<String> = Vec::new();
        let mut i: usize = 0;
        while i < vis.len()
            invariant
                i <= vis@.len(),
                lines@.len() == i,
                entry_views(vis@) == self.visible(),
                forall|j: int|
                    0 <= j < i ==> #[trigger] lines@[j]@ == (if j == self.cursor {
                        self.render_config.highlight_prefix@
                    } else {
                        self.render_config.plain_prefix@
                    }) + self.visible()[j].name,
            decreases vis@.len() - i,
        {
            let mut line = if i == self.cursor {
                self.render_config.highlight_prefix.clone()
            } else {
                self.render_config.plain_prefix.clone()
            };
            line.append(vis[i].name.as_str());
            proof {
                assert(vis@[i as int]@ == entry_views(vis@)[i as int]);
            }
            lines.push(line);
            i = i + 1;
        }
        let banner = match &self.error_banner {
            Some(m) => {
                let mut b = self.render_config.error_prefix.clone();
                b.append(m.as_str());
                Some(b)
            },
            None => None,
        };
        Frame {
            message,
            path_text: path_str,
            lines,
            cursor: self.cursor,
            error_banner: banner,
            help_text: self.render_config.help_text.clone(),
        }
    }

    /// Builds the engine for one prompt call: takes the configuration and
    /// the starting directory, and lists it.  A starting directory that
    /// cannot be listed is fatal: the prompt never runs.
    pub fn new<F: FileSystem>(explorer: Explorer<V>, start: FsPath, fs: &mut F) -> (r: Result<
        Self,
        PromptError,
    >)
        ensures
            r matches Ok(p) ==> {
                &&& p.wf()
                &&& p.message@ == explorer.message@
                &&& p.filetype_filter == explorer.filetype_filter
                &&& p.validators == explorer.validators
                &&& p.vim_mode == explorer.vim_mode
                &&& p.render_config == explorer.render_config
                &&& p.current_path@ == start@
                &&& p.cursor == 0
                &&& p.input_buffer@.len() == 0
                &&& p.error_banner is None
                &&& exists|raw: Seq<RawEntryV>|
                    entry_views(p.entries@) == listed_entries(
                        start@,
                        explorer.filetype_filter,
                        raw,
                    )
            },
            r matches Err(e) ==> e matches PromptError::StartDirectory(_),
    {
        match fs.read_dir(&start) {
            Ok(raw) => {
                let ghost rv = raw_views(raw@);
                let listed = build_listing(&start, &explorer.filetype_filter, &raw);
                proof {
                    lemma_listing_sorted(start@, explorer.filetype_filter, rv);
                    lemma_listing_shape(start@, explorer.filetype_filter, rv);
                }
                let engine = FileSelectPrompt {
                    message: explorer.message,
                    filetype_filter: explorer.filetype_filter,
                    validators: explorer.validators,
                    vim_mode: explorer.vim_mode,
                    render_config: explorer.render_config,
                    current_path: start,
                    entries: listed,
                    cursor: 0,
                    input_buffer: Vec::new(),
                    error_banner: None,
                };
                proof {
                    let shown = listed_entries(
                        engine.current_path@,
                        engine.filetype_filter,
                        rv,
                    );
                    assert(entry_views(engine.entries@) == shown);
                    assert(forall|i: int|
                        0 <= i < engine.entries@.len() ==> #[trigger] engine.entries@[i]@
                            == shown[i]);
                }
                Ok(engine)
            },
            Err(m) => Err(PromptError::StartDirectory(m)),
        }
    }

    /// The blocking read-render loop: one frame, one event, one step, until
    /// a selection is accepted or the user cancels.  The loop carries a
    /// step budget so that it provably ends; the budget outlasts any
    /// session a person could drive, and exhausting it counts as
    /// cancellation.
    fn run_loop<B: Backend, F: FileSystem>(&mut self, backend: &mut B, fs: &mut F) -> (r: Result<
        FsPath,
        PromptError,
    >)
        requires
            old(self).wf(),
        ensures
            r matches Ok(p) ==> chain_verdict(old(self).validators@, path_text(p@)) is None,
            r matches Err(e) ==> e matches PromptError::Cancelled,
    {
        let mut budget: u64 = u64::MAX;
        loop
            invariant
                self.wf(),
                verdicts_unchanged(old(self).validators@, self.validators@),
            decreases budget,
        {
            if budget == 0 {
                return Err(PromptError::Cancelled);
            }
            budget = budget - 1;
            let frame = self.build_frame();
            backend.render(&frame);
            let ev = backend.read_event();
            let ghost pre = self.validators@;
            match self.handle_event(ev, fs) {
                Step::Continue => {},
                Step::Done(p) => {
                    proof {
                        lemma_chain_verdict_congruence(
                            old(self).validators@,
                            pre,
                            path_text(p@),
                        );
                    }
                    return Ok(p);
                },
                Step::Cancelled => {
                    return Err(PromptError::Cancelled);
                },
            }
            proof {
                lemma_verdicts_unchanged_trans(old(self).validators@, pre, self.validators@);
            }
        }
    }

    /// Runs the prompt to completion against a backend and a filesystem.
    ///
    /// Returns the selected path — accepted only with the whole validator
    /// chain's approval — or the distinguished cancellation error.
    pub fn prompt<B: Backend, F: FileSystem>(self, backend: &mut B, fs: &mut F) -> (r: Result<
        FsPath,
        PromptError,
    >)
        requires
            self.wf(),
        ensures
            r matches Ok(p) ==> chain_verdict(self.validators@, path_text(p@)) is None,
            r matches Err(e) ==> e matches PromptError::Cancelled,
    {
        let mut engine = self;
        engine.run_loop(backend, fs)
    }
}

} // verus!
