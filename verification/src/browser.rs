//! The file browser: where it stands, what it lists, and what it asks the sandbox for.

use vstd::prelude::*;

use crate::entries;
use crate::entries::sort_entries;
use crate::ipc::{self, DirEntry};
use crate::text;
use crate::text::{chars_of, concat, path_parent, same};
use crate::wire;
use crate::wire::EntryView;

verus! {

/// Sandbox filesystem browser.
///
/// It lists one directory at a time. Moving to another asks the sandbox to change its
/// directory, and then for a listing.
#[derive(Debug)]
pub struct SandboxFileBrowser {
    pub cwd: String,
    pub entries: Vec<DirEntry>,
    pub cursor: usize,
    pub scroll: usize,
    pub viewport_entries: usize,
    pub error: Option<String>,
}

/// The model of a browser.
#[verifier::ext_equal]
pub struct BrowserView {
    pub cwd: Seq<char>,
    pub entries: Seq<EntryView>,
    pub cursor: int,
    pub scroll: int,
    pub viewport_entries: int,
    pub error: Option<Seq<char>>,
}

impl View for SandboxFileBrowser {
    type V = BrowserView;

    open spec fn view(&self) -> BrowserView {
        BrowserView {
            cwd: self.cwd@,
            entries: ipc::entry_views(self.entries@),
            cursor: self.cursor as int,
            scroll: self.scroll as int,
            viewport_entries: self.viewport_entries as int,
            error: wire::opt_view(self.error),
        }
    }
}

/// The directory above, given what a path is without its final component.
pub open spec fn above(path: Seq<char>, parent: Option<Seq<char>>) -> Option<Seq<char>> {
    if path == "/"@ {
        None
    } else {
        match parent {
            None => None,
            Some(p) => Some(
                if p.len() == 0 {
                    "/"@
                } else {
                    p
                },
            ),
        }
    }
}

/// The directory above a path. The root has none.
pub open spec fn dir_above(path: Seq<char>) -> Option<Seq<char>> {
    above(path, text::parent_path(path))
}

/// The root has no directory above it. Above any other path is what is left without its
/// final component, or the root where nothing is left.
pub proof fn law_directory_above(path: Seq<char>, parent: Seq<char>)
    ensures
        above("/"@, Some(parent)) is None,
        above("/"@, None) is None,
        above(path, None) is None,
        path != "/"@ && parent.len() > 0 ==> above(path, Some(parent)) == Some(parent),
        path != "/"@ && parent.len() == 0 ==> above(path, Some(parent)) == Some("/"@),
        path != "/"@ ==> (dir_above(path) is Some <==> text::parent_path(path) is Some),
        dir_above("/"@) is None,
{
}

/// The directory above, given what a path is without its final component.
pub fn parent_or_root(path: &str, parent: Option<String>) -> (r: Option<String>)
    ensures
        wire::opt_view(r) == above(path@, wire::opt_view(parent)),
{
    if same(path, "/") {
        return None;
    }
    match parent {
        None => None,
        Some(p) => if chars_of(p.as_str()).len() == 0 {
            Some("/".to_owned())
        } else {
            Some(p)
        },
    }
}

/// The directory above a path. The root has none. From a path that starts at the root it
/// leads up, towards the root.
pub fn parent_dir(path: &str) -> (r: Option<String>)
    ensures
        wire::opt_view(r) == dir_above(path@),
        r matches Some(p) ==> p@.len() > 0,
        text::from_root(path@) ==> (r matches Some(p) ==> text::leads_up(path@, p@)
            && text::from_root(p@)),
{
    proof {
        reveal_strlit("/");
    }
    parent_or_root(path, path_parent(path))
}

/// Going up ends: from a path that starts at the root, one goes up fewer times than the path
/// has characters, and every path on the way starts at the root.
pub proof fn law_going_up_ends(paths: Seq<Seq<char>>)
    requires
        paths.len() > 0,
        text::from_root(paths[0]),
        forall|i: int, j: int|
            0 <= i && j == i + 1 && j < paths.len() ==> text::leads_up(
                #[trigger] paths[i],
                #[trigger] paths[j],
            ),
    ensures
        paths.len() <= paths[0].len(),
        forall|i: int| 0 <= i < paths.len() ==> text::from_root(#[trigger] paths[i]),
    decreases paths.len(),
{
    if paths.len() > 1 {
        let rest = paths.skip(1);
        assert(text::leads_up(paths[0], paths[1]));
        assert(rest[0] == paths[1]);
        assert forall|i: int, j: int| 0 <= i && j == i + 1 && j < rest.len() implies text::leads_up(
            #[trigger] rest[i],
            #[trigger] rest[j],
        ) by {
            assert(text::leads_up(paths[i + 1], paths[j + 1]));
        }
        law_going_up_ends(rest);
        assert forall|i: int| 0 <= i < paths.len() implies text::from_root(#[trigger] paths[i]) by {
            if i > 0 {
                assert(paths[i] == rest[i - 1]);
            }
        }
    }
}

/// The entry that leads to the directory above.
pub open spec fn up_entry() -> EntryView {
    EntryView { name: ".."@, is_dir: true }
}

/// How many entries stand before the listing: one that leads up, except at the root.
pub open spec fn lead(cwd: Seq<char>) -> int {
    if cwd == "/"@ {
        0
    } else {
        1
    }
}

/// Whether the browser shows a listing of its directory: the entry that leads up where
/// there is a directory above, then what was found there, in order.
pub open spec fn shows(entries: Seq<EntryView>, cwd: Seq<char>, found: Seq<EntryView>) -> bool {
    &&& entries.len() == lead(cwd) + found.len()
    &&& cwd != "/"@ ==> entries[0] == up_entry()
    &&& entries::in_order(entries.skip(lead(cwd)))
    &&& entries.skip(lead(cwd)).to_multiset() == found.to_multiset()
}

/// The last place of the cursor in a list.
pub open spec fn last_place(len: nat) -> int {
    if len == 0 {
        0
    } else {
        len - 1
    }
}

/// The smaller of two numbers.
pub open spec fn least(a: int, b: int) -> int {
    if a <= b {
        a
    } else {
        b
    }
}

impl BrowserView {
    /// The browser with its cursor moved into the list, and scrolled so far that the cursor
    /// is seen.
    pub open spec fn clamped(self) -> BrowserView {
        let c = least(self.cursor, last_place(self.entries.len()));
        let s = if c < self.scroll {
            c
        } else if self.entries.len() > self.viewport_entries && c >= self.scroll
            + self.viewport_entries {
            c + 1 - self.viewport_entries
        } else {
            self.scroll
        };
        BrowserView { cursor: c, scroll: s, ..self }
    }

    /// The entries that fit on the screen.
    pub open spec fn visible(self) -> Seq<EntryView> {
        self.entries.subrange(
            least(self.scroll, self.entries.len() as int),
            least(self.scroll + self.viewport_entries, self.entries.len() as int),
        )
    }

    /// The directory that opening the entry at the cursor leads to.
    pub open spec fn entry_target(self) -> Option<Seq<char>> {
        if self.cursor >= self.entries.len() {
            None
        } else {
            let e = self.entries[self.cursor];
            if e.name == ".."@ {
                match dir_above(self.cwd) {
                    Some(p) => Some(p),
                    None => Some("/"@),
                }
            } else if e.is_dir {
                Some(
                    self.cwd + if text::ends_with_slash(self.cwd) {
                        ""@
                    } else {
                        "/"@
                    } + e.name,
                )
            } else {
                None
            }
        }
    }

    /// The browser after the sandbox answered the change to a directory.
    pub open spec fn moved(self, target: Seq<char>, error: Option<Seq<char>>) -> BrowserView {
        match error {
            Some(e) => BrowserView { error: Some(e), ..self },
            None => BrowserView { cwd: target, cursor: 0, scroll: 0, ..self },
        }
    }
}

/// Once clamped, the cursor is on an entry, and on the screen if anything is.
pub proof fn law_cursor_is_seen(b: BrowserView)
    requires
        b.cursor >= 0,
        b.scroll >= 0,
        b.viewport_entries >= 0,
    ensures
        ({
            let c = b.clamped();
            &&& b.entries.len() > 0 ==> c.cursor < b.entries.len()
            &&& c.scroll <= c.cursor || b.viewport_entries == 0
            &&& b.viewport_entries > 0 && b.entries.len() > b.viewport_entries ==> c.scroll
                <= c.cursor < c.scroll + b.viewport_entries
            &&& b.viewport_entries > 0 && b.entries.len() > b.viewport_entries
                ==> c.visible().contains(b.entries[c.cursor])
        }),
{
    let c = b.clamped();
    if b.viewport_entries > 0 && b.entries.len() > b.viewport_entries {
        assert(c.visible()[c.cursor - c.scroll] == b.entries[c.cursor]);
    }
}

/// Clamping moves no more than it must: a cursor in the list stays, one behind it goes to
/// the last entry, and a screen that shows the cursor is not scrolled. Nothing else changes.
pub proof fn law_clamping_moves_little(b: BrowserView)
    requires
        b.cursor >= 0,
        b.scroll >= 0,
        b.viewport_entries >= 0,
    ensures
        ({
            let c = b.clamped();
            &&& b.cursor < b.entries.len() ==> c.cursor == b.cursor
            &&& b.cursor >= b.entries.len() && b.entries.len() > 0 ==> c.cursor == b.entries.len()
                - 1
            &&& b.entries.len() == 0 ==> c.cursor == 0
            &&& b.scroll <= c.cursor && (c.cursor < b.scroll + b.viewport_entries
                || b.entries.len() <= b.viewport_entries) ==> c.scroll == b.scroll
            &&& c.cursor < b.scroll ==> c.scroll == c.cursor
            &&& b.scroll <= c.cursor && b.scroll + b.viewport_entries <= c.cursor && b.entries.len()
                > b.viewport_entries ==> c.scroll + b.viewport_entries == c.cursor + 1
            &&& c.cwd == b.cwd && c.entries == b.entries && c.error == b.error
            &&& c.viewport_entries == b.viewport_entries
        }),
{
}

/// The screen shows the entries from the scroll position on, in order, as many as fit and
/// as there are.
pub proof fn law_screen_shows_a_run(b: BrowserView)
    requires
        b.scroll >= 0,
        b.viewport_entries >= 0,
    ensures
        forall|i: int|
            0 <= i < b.visible().len() ==> #[trigger] b.visible()[i] == b.entries[b.scroll + i],
        b.visible().len() <= b.viewport_entries,
        b.scroll + b.viewport_entries <= b.entries.len() ==> b.visible().len()
            == b.viewport_entries,
        b.scroll <= b.entries.len() < b.scroll + b.viewport_entries ==> b.scroll
            + b.visible().len() == b.entries.len(),
        b.scroll > b.entries.len() ==> b.visible().len() == 0,
{
}

/// Opening an entry leads to the directory of that name below the browser's own, behind one
/// slash; the entry that leads up leads to the directory above, and stays at the root where
/// there is none. A file leads nowhere, and neither does a place behind the list.
pub proof fn law_entry_leads_below(b: BrowserView)
    requires
        b.cursor >= 0,
    ensures
        b.cursor >= b.entries.len() ==> b.entry_target() is None,
        b.cursor < b.entries.len() ==> {
            let e = b.entries[b.cursor];
            &&& e.name == ".."@ ==> (b.entry_target() matches Some(t) && match dir_above(b.cwd) {
                Some(p) => t == p,
                None => t == "/"@,
            })
            &&& e.name != ".."@ ==> (b.entry_target() is Some <==> e.is_dir)
            &&& e.name != ".."@ && e.is_dir && b.cwd.len() > 0 && b.cwd.last() == '/' ==> (
            b.entry_target() matches Some(t) && t == b.cwd + e.name)
            &&& e.name != ".."@ && e.is_dir && (b.cwd.len() == 0 || b.cwd.last() != '/') ==> (
            b.entry_target() matches Some(t) && t == b.cwd.push('/') + e.name)
        },
{
    reveal_strlit("");
    reveal_strlit("/");
    if b.cursor < b.entries.len() {
        let e = b.entries[b.cursor];
        assert(b.cwd + ""@ + e.name =~= b.cwd + e.name);
        assert(b.cwd + "/"@ + e.name =~= b.cwd.push('/') + e.name);
    }
}

/// A browser that could change its directory stands in the other one, at the top; one that
/// could not stays where it is, and shows the reason.
pub proof fn law_browser_moves_only_on_success(b: BrowserView, target: Seq<char>, e: Seq<char>)
    ensures
        ({
            let m = b.moved(target, None);
            &&& m.cwd == target && m.cursor == 0 && m.scroll == 0
            &&& m.entries == b.entries && m.error == b.error
            &&& m.viewport_entries == b.viewport_entries
        }),
        ({
            let m = b.moved(target, Some(e));
            &&& m.error == Some(e)
            &&& m.cwd == b.cwd && m.cursor == b.cursor && m.scroll == b.scroll
            &&& m.entries == b.entries && m.viewport_entries == b.viewport_entries
        }),
{
}

/// A directory that is shown has what was found in it, each entry as often, directories
/// before files, and before all of these the entry that leads up, except at the root.
pub proof fn law_listing_is_shown(
    entries: Seq<EntryView>,
    cwd: Seq<char>,
    found: Seq<EntryView>,
)
    requires
        shows(entries, cwd, found),
    ensures
        cwd == "/"@ ==> entries.to_multiset() == found.to_multiset(),
        cwd != "/"@ ==> entries.len() == found.len() + 1 && entries[0].name == ".."@
            && entries[0].is_dir && entries.skip(1).to_multiset() == found.to_multiset(),
        forall|i: int, j: int|
            0 <= i < j < entries.len() && (#[trigger] entries[j]).is_dir ==> (
            #[trigger] entries[i]).is_dir,
{
    let k = lead(cwd);
    let rest = entries.skip(k);
    if cwd == "/"@ {
        assert(entries.skip(0) =~= entries);
    }
    assert forall|i: int, j: int| 0 <= i < j < entries.len() && (
    #[trigger] entries[j]).is_dir implies (#[trigger] entries[i]).is_dir by {
        if i >= k {
            assert(rest[i - k] == entries[i] && rest[j - k] == entries[j]);
            assert(entries::entry_le(rest[i - k], rest[j - k]));
        }
    }
}

/// Clamping twice is clamping once, where anything fits on the screen.
pub proof fn law_clamping_settles(b: BrowserView)
    requires
        b.cursor >= 0,
        b.scroll >= 0,
        b.viewport_entries > 0,
    ensures
        b.clamped().clamped() == b.clamped(),
{
}

/// An optional text, from the outcome of a request.
pub open spec fn failure(r: Result<(), String>) -> Option<Seq<char>> {
    match r {
        Ok(_) => None,
        Err(e) => Some(e@),
    }
}

/// The entries that a listing brought; none when it failed.
pub open spec fn found_in(r: Result<Vec<DirEntry>, String>) -> Seq<EntryView> {
    match r {
        Ok(v) => ipc::entry_views(v@),
        Err(_) => seq![],
    }
}

/// The reason why a listing failed.
pub open spec fn listing_failure(r: Result<Vec<DirEntry>, String>) -> Option<Seq<char>> {
    match r {
        Ok(_) => None,
        Err(e) => Some(e@),
    }
}

/// A listing that came has all its entries and no failure; one that failed has its reason
/// and no entries.
pub proof fn law_listing_came_or_failed(list: Vec<DirEntry>, reason: String)
    ensures
        listing_failure(Ok(list)) is None,
        found_in(Ok(list)).len() == list@.len(),
        forall|i: int|
            0 <= i < list@.len() ==> (#[trigger] found_in(Ok(list))[i]).name == list@[i].name@
                && found_in(Ok(list))[i].is_dir == list@[i].is_dir,
        listing_failure(Err(reason)) == Some(reason@),
        found_in(Err(reason)).len() == 0,
        failure(Ok(())) is None,
        failure(Err(reason)) == Some(reason@),
{
}

impl SandboxFileBrowser {
    /// A browser in a directory that it has not listed yet.
    pub fn new(cwd: String) -> (b: SandboxFileBrowser)
        ensures
            b@ == (BrowserView {
                cwd: cwd@,
                entries: seq![],
                cursor: 0,
                scroll: 0,
                viewport_entries: 0,
                error: None,
            }),
    {
        let b = SandboxFileBrowser {
            cwd,
            entries: Vec::new(),
            cursor: 0,
            scroll: 0,
            viewport_entries: 0,
            error: None,
        };
        assert(ipc::entry_views(b.entries@) =~= seq![]);
        b
    }

    /// Shows what a listing of the directory brought, or why it failed.
    pub fn refresh(&mut self, result: Result<Vec<DirEntry>, String>)
        ensures
            shows(final(self)@.entries, old(self)@.cwd, found_in(result)),
            final(self)@ == (BrowserView {
                entries: final(self)@.entries,
                error: listing_failure(result),
                cursor: least(old(self)@.cursor, last_place(final(self)@.entries.len())),
                ..old(self)@
            }),
    {
        let found = match result {
            Ok(list) => {
                self.error = None;
                list
            },
            Err(e) => {
                self.error = Some(e);
                Vec::new()
            },
        };
        proof {
            assert(ipc::entry_views(found@) =~= found_in(result));
        }
        let mut list = sort_entries(found);
        let ghost sorted = ipc::entry_views(list@);
        proof {
            lemma_same_len(sorted, ipc::entry_views(found@));
        }
        if !same(self.cwd.as_str(), "/") {
            list.insert(0, DirEntry { name: "..".to_owned(), is_dir: true });
            assert(ipc::entry_views(list@).skip(1) =~= sorted);
        } else {
            assert(ipc::entry_views(list@).skip(0) =~= sorted);
        }
        self.entries = list;
        let len: usize = self.entries.len();
        let max: usize = if len == 0 {
            0
        } else {
            len - 1
        };
        if self.cursor > max {
            self.cursor = max;
        }
    }

    /// Moves the cursor into the list, and scrolls so far that it is seen.
    pub fn clamp_cursor(&mut self)
        ensures
            final(self)@ == old(self)@.clamped(),
    {
        let len: usize = self.entries.len();
        let max: usize = if len == 0 {
            0
        } else {
            len - 1
        };
        if self.cursor > max {
            self.cursor = max;
        }
        if self.cursor < self.scroll {
            self.scroll = self.cursor;
        } else if len > self.viewport_entries && self.cursor - self.scroll
            >= self.viewport_entries {
            self.scroll = self.cursor + 1 - self.viewport_entries;
        }
    }

    /// The entries that fit on the screen.
    pub fn visible_entries(&self) -> (list: &[DirEntry])
        ensures
            ipc::entry_views(list@) == self@.visible(),
    {
        let len: usize = self.entries.len();
        let start: usize = if self.scroll < len {
            self.scroll
        } else {
            len
        };
        let end: usize = if len - start <= self.viewport_entries {
            len
        } else {
            start + self.viewport_entries
        };
        let list = vstd::slice::slice_subrange(self.entries.as_slice(), start, end);
        assert(ipc::entry_views(list@) =~= self@.visible());
        list
    }

    /// How far the list is scrolled.
    pub fn scroll_offset(&self) -> (n: usize)
        ensures
            n == self@.scroll,
    {
        self.scroll
    }

    /// How many entries the list has.
    pub fn total_entries(&self) -> (n: usize)
        ensures
            n == self@.entries.len(),
    {
        self.entries.len()
    }

    /// The directory to change to when the entry at the cursor is opened. A file leads
    /// nowhere.
    pub fn enter(&self) -> (r: Option<String>)
        ensures
            wire::opt_view(r) == self@.entry_target(),
    {
        if self.cursor >= self.entries.len() {
            return None;
        }
        let entry = &self.entries[self.cursor];
        if same(entry.name.as_str(), "..") {
            match parent_dir(self.cwd.as_str()) {
                Some(p) => Some(p),
                None => Some("/".to_owned()),
            }
        } else if entry.is_dir {
            let dir = chars_of(self.cwd.as_str());
            let sep = if dir.len() > 0 && dir[dir.len() - 1] == '/' {
                ""
            } else {
                "/"
            };
            let mut target = concat(self.cwd.as_str(), sep);
            target.append(entry.name.as_str());
            Some(target)
        } else {
            None
        }
    }

    /// The directory to change to when going up.
    pub fn go_up(&self) -> (r: Option<String>)
        ensures
            wire::opt_view(r) == dir_above(self@.cwd),
            text::from_root(self@.cwd) ==> (r matches Some(p) ==> text::leads_up(self@.cwd, p@)),
    {
        parent_dir(self.cwd.as_str())
    }

    /// Takes the sandbox's answer to a change of directory. Says whether the browser is
    /// now in the other directory, and needs its listing.
    pub fn arrive(&mut self, target: String, result: Result<(), String>) -> (listed: bool)
        ensures
            final(self)@ == old(self)@.moved(target@, failure(result)),
            listed == (result is Ok),
    {
        match result {
            Err(e) => {
                self.error = Some(e);
                false
            },
            Ok(_) => {
                self.cwd = target;
                self.cursor = 0;
                self.scroll = 0;
                true
            },
        }
    }
}

/// Sequences with the same elements have the same length.
proof fn lemma_same_len(a: Seq<EntryView>, b: Seq<EntryView>)
    requires
        a.to_multiset() == b.to_multiset(),
    ensures
        a.len() == b.len(),
{
    broadcast use vstd::seq_lib::group_to_multiset_ensures;

    assert(a.to_multiset().len() == a.len());
    assert(b.to_multiset().len() == b.len());
}

} // verus!
