//! File name patterns, and the directory walk that collects matching files.

use vstd::prelude::*;

use crate::text;
use crate::text::{chars_of, join_path, same, split};

verus! {

/// Whether no character is a slash.
pub open spec fn no_slash(t: Seq<char>) -> bool {
    forall|i: int| 0 <= i < t.len() ==> t[i] != '/'
}

/// Whether a pattern matches a text: `*` stands for any characters except `/`, `?` for any
/// one character, and every other character for itself.
pub open spec fn glob_matches(p: Seq<char>, t: Seq<char>) -> bool
    decreases p.len(), t.len(),
{
    if p.len() == 0 {
        t.len() == 0
    } else if p[0] == '*' {
        glob_matches(p.drop_first(), t) || (t.len() > 0 && t[0] != '/' && glob_matches(
            p,
            t.drop_first(),
        ))
    } else {
        t.len() > 0 && (p[0] == '?' || p[0] == t[0]) && glob_matches(
            p.drop_first(),
            t.drop_first(),
        )
    }
}

/// Whether a text starts with `k` characters that are no slashes, and the pattern matches
/// the rest.
pub open spec fn matches_after(p: Seq<char>, t: Seq<char>, k: int) -> bool {
    0 <= k <= t.len() && no_slash(t.take(k)) && glob_matches(p, t.skip(k))
}

/// A pattern without stars matches exactly the texts of its own length that agree with it
/// in every character but those at a question mark.
pub proof fn law_plain_characters_stand_for_themselves(p: Seq<char>, t: Seq<char>)
    requires
        !p.contains('*'),
    ensures
        glob_matches(p, t) <==> p.len() == t.len() && forall|i: int|
            0 <= i < p.len() ==> p[i] == '?' || p[i] == #[trigger] t[i],
    decreases p.len(),
{
    if p.len() > 0 {
        assert(p.contains(p[0]));
        let (q, u) = (p.drop_first(), t.drop_first());
        assert forall|i: int| 0 <= i < q.len() implies #[trigger] q[i] != '*' by {
            assert(q[i] == p[i + 1]);
            assert(p.contains(p[i + 1]));
        }
        if t.len() > 0 {
            law_plain_characters_stand_for_themselves(q, u);
            if q.len() == u.len() && forall|i: int|
                0 <= i < q.len() ==> q[i] == '?' || q[i] == #[trigger] u[i] {
                if p[0] == '?' || p[0] == t[0] {
                    assert forall|i: int| 0 <= i < p.len() implies p[i] == '?' || p[i]
                        == #[trigger] t[i] by {
                        if i > 0 {
                            assert(q[i - 1] == p[i] && u[i - 1] == t[i]);
                        }
                    }
                }
            }
            if p.len() == t.len() && forall|i: int|
                0 <= i < p.len() ==> p[i] == '?' || p[i] == #[trigger] t[i] {
                assert(p[0] == '?' || p[0] == t[0]);
                assert forall|i: int| 0 <= i < q.len() implies q[i] == '?' || q[i]
                    == #[trigger] u[i] by {
                    assert(u[i] == t[i + 1]);
                }
            }
        }
    }
}

/// A pattern that starts without stars matches exactly the texts whose start it matches up
/// to there and whose rest the rest of the pattern matches.
pub proof fn law_pattern_is_read_from_the_left(p: Seq<char>, q: Seq<char>, t: Seq<char>)
    requires
        !p.contains('*'),
    ensures
        glob_matches(p + q, t) <==> p.len() <= t.len() && glob_matches(
            p,
            t.take(p.len() as int),
        ) && glob_matches(q, t.skip(p.len() as int)),
    decreases p.len(),
{
    if p.len() == 0 {
        assert(p + q =~= q);
        assert(t.skip(0) =~= t);
    } else {
        assert(p.contains(p[0]));
        let rest = p.drop_first();
        assert forall|i: int| 0 <= i < rest.len() implies #[trigger] rest[i] != '*' by {
            assert(rest[i] == p[i + 1]);
            assert(p.contains(p[i + 1]));
        }
        assert((p + q).drop_first() =~= rest + q);
        if t.len() > 0 {
            let u = t.drop_first();
            law_pattern_is_read_from_the_left(rest, q, u);
            if p.len() <= t.len() {
                assert(t.take(p.len() as int).drop_first() =~= u.take(rest.len() as int));
                assert(t.skip(p.len() as int) =~= u.skip(rest.len() as int));
                assert(t.take(p.len() as int)[0] == t[0]);
            }
        }
    }
}

/// A star alone matches exactly the texts that hold no slash.
pub proof fn law_star_stops_at_slashes(t: Seq<char>)
    ensures
        glob_matches(seq!['*'], t) <==> !t.contains('/'),
    decreases t.len(),
{
    let star = seq!['*'];
    assert(star.drop_first() =~= Seq::<char>::empty());
    assert(glob_matches(star.drop_first(), t) == (t.len() == 0));
    if t.len() > 0 {
        assert(t[0] == '/' ==> t.contains('/'));
        let u = t.drop_first();
        law_star_stops_at_slashes(u);
        if t.contains('/') && t[0] != '/' {
            let i = choose|i: int| 0 <= i < t.len() && t[i] == '/';
            assert(u[i - 1] == '/');
        }
        if u.contains('/') {
            let i = choose|i: int| 0 <= i < u.len() && u[i] == '/';
            assert(t[i + 1] == '/');
        }
    }
}

/// A pattern that starts with a star matches exactly the texts whose rest, after some
/// characters that are no slashes, the remaining pattern matches.
pub proof fn law_star_stands_for_any_run(p: Seq<char>, t: Seq<char>)
    requires
        p.len() > 0,
        p[0] == '*',
    ensures
        glob_matches(p, t) <==> exists|k: int| matches_after(p.drop_first(), t, k),
    decreases t.len(),
{
    let rest = p.drop_first();
    assert(t.skip(0) =~= t);
    if glob_matches(rest, t) {
        assert(matches_after(rest, t, 0));
    } else if t.len() > 0 {
        let u = t.drop_first();
        law_star_stands_for_any_run(p, u);
        if t[0] != '/' && glob_matches(p, u) {
            let k = choose|k: int| matches_after(rest, u, k);
            assert(t.skip(k + 1) =~= u.skip(k));
            let run = t.take(k + 1);
            assert forall|i: int| 0 <= i < run.len() implies run[i] != '/' by {
                if i > 0 {
                    assert(run[i] == u.take(k)[i - 1]);
                }
            }
            assert(matches_after(rest, t, k + 1));
        }
    }
    if exists|k: int| matches_after(rest, t, k) {
        let k = choose|k: int| matches_after(rest, t, k);
        if k > 0 {
            let u = t.drop_first();
            assert(t.take(k)[0] == t[0]);
            assert(u.skip(k - 1) =~= t.skip(k));
            let run = u.take(k - 1);
            assert forall|i: int| 0 <= i < run.len() implies run[i] != '/' by {
                assert(run[i] == t.take(k)[i + 1]);
            }
            assert(matches_after(rest, u, k - 1));
        }
    }
}

/// Matches a file name against a pattern.
pub fn glob_match(pattern: &str, text: &str) -> (r: bool)
    ensures
        r == glob_matches(pattern@, text@),
{
    let p = chars_of(pattern);
    let t = chars_of(text);
    glob_match_inner(p.as_slice(), t.as_slice())
}

/// Matches characters against a pattern.
///
/// Works from the end of the pattern: `row[j]` tells whether the part of the pattern that
/// was looked at matches the text from position `j` on.
pub fn glob_match_inner(pattern: &[char], text: &[char]) -> (r: bool)
    ensures
        r == glob_matches(pattern@, text@),
{
    let n: usize = text.len();
    let mut row: Vec<bool> = Vec::new();
    for j in 0..n
        invariant
            n == text@.len(),
            row@.len() == j,
            forall|k: int| 0 <= k < j ==> !(#[trigger] row@[k]),
    {
        row.push(false);
    }
    row.push(true);
    let mut i: usize = pattern.len();
    proof {
        assert(pattern@.skip(i as int).len() == 0);
        assert forall|k: int| 0 <= k <= n implies #[trigger] row@[k] == glob_matches(
            pattern@.skip(i as int),
            text@.skip(k),
        ) by {
            assert(text@.skip(k).len() == n - k);
        }
    }
    while i > 0
        invariant
            n == text@.len(),
            i <= pattern@.len(),
            row@.len() == n + 1,
            forall|k: int|
                0 <= k <= n ==> #[trigger] row@[k] == glob_matches(
                    pattern@.skip(i as int),
                    text@.skip(k),
                ),
        decreases i,
    {
        let c: char = pattern[i - 1];
        let ghost p = pattern@.skip(i - 1);
        proof {
            assert(p.drop_first() =~= pattern@.skip(i as int));
            assert(p[0] == c);
            assert(text@.skip(n as int).len() == 0);
        }
        let mut next: Vec<bool> = row.clone();
        // The last entry belongs to the empty rest of the text.
        if c != '*' {
            next.set(n, false);
        }
        let mut j: usize = n;
        while j > 0
            invariant
                n == text@.len(),
                0 < i <= pattern@.len(),
                j <= n,
                row@.len() == n + 1,
                next@.len() == n + 1,
                p == pattern@.skip(i - 1),
                p.len() > 0,
                p[0] == c,
                p.drop_first() == pattern@.skip(i as int),
                forall|k: int|
                    0 <= k <= n ==> #[trigger] row@[k] == glob_matches(
                        p.drop_first(),
                        text@.skip(k),
                    ),
                forall|k: int|
                    j <= k <= n ==> #[trigger] next@[k] == glob_matches(p, text@.skip(k)),
            decreases j,
        {
            j = j - 1;
            let ch: char = text[j];
            proof {
                assert(text@.skip(j as int).drop_first() =~= text@.skip(j + 1));
                assert(text@.skip(j as int)[0] == ch);
                assert(next@[j + 1] == glob_matches(p, text@.skip(j + 1)));
                assert(row@[j + 1] == glob_matches(p.drop_first(), text@.skip(j + 1)));
            }
            let hit: bool = if c == '*' {
                row[j] || (ch != '/' && next[j + 1])
            } else {
                (c == '?' || c == ch) && row[j + 1]
            };
            next.set(j, hit);
        }
        row = next;
        i = i - 1;
    }
    proof {
        assert(pattern@.skip(0) =~= pattern@);
        assert(text@.skip(0) =~= text@);
    }
    row[0]
}

/// One entry of a directory listing. The name is absent where it is not valid text.
pub struct WalkEntry {
    pub path: String,
    pub name: Option<String>,
    pub is_dir: bool,
}

/// The model of a listing entry.
pub struct WalkEntryView {
    pub path: Seq<char>,
    pub name: Option<Seq<char>>,
    pub is_dir: bool,
}

impl View for WalkEntry {
    type V = WalkEntryView;

    open spec fn view(&self) -> WalkEntryView {
        WalkEntryView {
            path: self.path@,
            name: match self.name {
                Some(n) => Some(n@),
                None => None,
            },
            is_dir: self.is_dir,
        }
    }
}

/// The models of the entries of a listing.
pub open spec fn entry_views(entries: Seq<WalkEntry>) -> Seq<WalkEntryView> {
    Seq::new(entries.len(), |i: int| entries[i]@)
}

/// A walk over a directory tree: the directories still to list, the last on top, and the
/// files found so far.
pub struct GlobWalk {
    pub stack: Vec<String>,
    pub found: Vec<String>,
    /// The pattern that file names are matched against.
    pub suffix: String,
    /// The most files to find.
    pub limit: usize,
}

/// What changes during a walk.
pub struct WalkState {
    pub stack: Seq<Seq<char>>,
    pub found: Seq<Seq<char>>,
}

/// Whether the walk stays out of a directory of this name.
pub open spec fn skipped_dir(name: Option<Seq<char>>) -> bool {
    name == Some(".git"@) || name == Some("node_modules"@)
}

/// Whether an entry is a file whose name matches the pattern.
pub open spec fn wanted_file(e: WalkEntryView, suffix: Seq<char>) -> bool {
    !e.is_dir && (e.name matches Some(n) && glob_matches(suffix, n))
}

/// Whether an entry is a directory that the walk lists.
pub open spec fn wanted_dir(e: WalkEntryView) -> bool {
    e.is_dir && !skipped_dir(e.name)
}

/// What one listing entry does to a walk.
pub open spec fn walk_entry(
    st: WalkState,
    suffix: Seq<char>,
    limit: int,
    e: WalkEntryView,
) -> WalkState {
    if st.found.len() >= limit {
        st
    } else if wanted_dir(e) {
        WalkState { stack: st.stack.push(e.path), ..st }
    } else if wanted_file(e, suffix) {
        WalkState { found: st.found.push(e.path), ..st }
    } else {
        st
    }
}

/// What a listing does to a walk.
pub open spec fn walk_entries(
    st: WalkState,
    suffix: Seq<char>,
    limit: int,
    entries: Seq<WalkEntryView>,
) -> WalkState
    decreases entries.len(),
{
    if entries.len() == 0 {
        st
    } else {
        walk_entry(
            walk_entries(st, suffix, limit, entries.drop_last()),
            suffix,
            limit,
            entries.last(),
        )
    }
}

/// The directory where the walk for a pattern starts, and the pattern for file names. The
/// pattern is split on `**/`: the first segment leads to the directory, the last one is
/// matched against file names, and those between them do not count.
pub open spec fn walk_start(dir: Seq<char>, pattern: Seq<char>) -> (Seq<char>, Seq<char>) {
    let segments = text::split_at_sep(pattern, "**/"@);
    if segments.len() > 1 {
        (text::joined(dir, segments[0]), segments.last())
    } else {
        (dir, pattern)
    }
}

/// File names are matched against what follows the last `**/` of a pattern, and the walk
/// starts at what stands before the first.
pub proof fn law_last_segment_is_matched(dir: Seq<char>, before: Seq<char>, last: Seq<char>)
    requires
        text::find_from(last, "**/"@, 0) is None,
    ensures
        walk_start(dir, before + "**/"@ + last).1 == last,
        text::find_from(before + "**/"@ + last, "**/"@, 0) matches Some(k) && walk_start(
            dir,
            before + "**/"@ + last,
        ).0 == text::joined(dir, (before + "**/"@ + last).take(k)),
{
    lemma_last_segment(before, last);
}

proof fn lemma_last_segment(before: Seq<char>, last: Seq<char>)
    requires
        text::find_from(last, "**/"@, 0) is None,
    ensures
        text::split_at_sep(before + "**/"@ + last, "**/"@).len() > 1,
        text::split_at_sep(before + "**/"@ + last, "**/"@).last() == last,
        text::find_from(before + "**/"@ + last, "**/"@, 0) matches Some(k)
            && text::split_at_sep(before + "**/"@ + last, "**/"@)[0] == (before + "**/"@
            + last).take(k),
    decreases before.len(),
{
    reveal_strlit("**/");
    let mark = "**/"@;
    let n = before.len() as int;
    let whole = before + mark + last;
    text::lemma_find_from(whole, mark, 0);
    assert(whole.subrange(n, n + 3) =~= mark);
    assert(text::occurs_at(whole, mark, n));
    let k = text::find_from(whole, mark, 0)->Some_0;
    assert(0 <= k <= n);
    assert(whole[n] == '*' && whole[n + 1] == '*' && whole[n + 2] == '/');
    assert(whole.subrange(k, k + 3)[2] == whole[k + 2]);
    assert(k == n || k + 3 <= n);
    let rest = whole.skip(k + 3);
    if k == n {
        assert(rest =~= last);
        assert(text::split_at_sep(last, mark) =~= seq![last]);
    } else {
        let shorter = before.skip(k + 3);
        assert(rest =~= shorter + mark + last);
        lemma_last_segment(shorter, last);
    }
}

/// A pattern without `**/` is matched as a whole, below the directory itself.
pub proof fn law_plain_pattern_is_matched(dir: Seq<char>, pattern: Seq<char>)
    requires
        forall|at: int| !text::occurs_at(pattern, "**/"@, at),
    ensures
        walk_start(dir, pattern) == (dir, pattern),
{
    text::lemma_find_from(pattern, "**/"@, 0);
    if text::find_from(pattern, "**/"@, 0) is Some {
        assert(!text::occurs_at(pattern, "**/"@, text::find_from(pattern, "**/"@, 0)->Some_0));
    }
    assert(text::split_at_sep(pattern, "**/"@) =~= seq![pattern]);
}

impl GlobWalk {
    /// The changing part of the walk.
    pub open spec fn state(self) -> WalkState {
        WalkState { stack: text::views(self.stack@), found: text::views(self.found@) }
    }

    /// Starts a walk below `dir`.
    pub fn start(dir: &str, pattern: &str, limit: usize) -> (w: GlobWalk)
        ensures
            w.state() == (WalkState {
                stack: seq![walk_start(dir@, pattern@).0],
                found: seq![],
            }),
            w.suffix@ == walk_start(dir@, pattern@).1,
            w.limit == limit,
    {
        proof {
            reveal_strlit("**/");
        }
        let segments = split(pattern, "**/");
        let n: usize = segments.len();
        let ghost parts = text::views(segments@);
        assert(parts == text::split_at_sep(pattern@, "**/"@));
        let mut stack: Vec<String> = Vec::new();
        let suffix: String;
        if n > 1 {
            assert(parts[0] == segments@[0]@ && parts.last() == segments@[n - 1]@);
            stack.push(join_path(dir, segments[0].as_str()));
            suffix = segments[n - 1].clone();
        } else {
            stack.push(dir.to_owned());
            suffix = pattern.to_owned();
        }
        let w = GlobWalk { stack, found: Vec::new(), suffix, limit };
        assert(w.state().stack =~= seq![walk_start(dir@, pattern@).0]);
        assert(w.state().found =~= seq![]);
        w
    }

    /// The next directory to list. There is none when enough files were found or nothing is
    /// left to list.
    pub fn next_dir(&mut self) -> (r: Option<String>)
        ensures
            final(self).suffix == old(self).suffix,
            final(self).limit == old(self).limit,
            final(self).state().found == old(self).state().found,
            match r {
                Some(dir) => old(self).state().found.len() < old(self).limit && old(
                    self,
                ).state().stack == final(self).state().stack.push(dir@),
                None => old(self).state().found.len() >= old(self).limit || old(
                    self,
                ).state().stack.len() == 0,
            },
    {
        if self.found.len() >= self.limit {
            return None;
        }
        let top = self.stack.pop();
        proof {
            if top is Some {
                assert(old(self).state().stack =~= self.state().stack.push(top->Some_0@));
            }
        }
        top
    }

    /// Takes in the listing of a directory.
    pub fn visit(&mut self, entries: &[WalkEntry])
        ensures
            final(self).suffix == old(self).suffix,
            final(self).limit == old(self).limit,
            final(self).state() == walk_entries(
                old(self).state(),
                old(self).suffix@,
                old(self).limit as int,
                entry_views(entries@),
            ),
    {
        let ghost all = entry_views(entries@);
        let ghost start = self.state();
        assert(all.take(0) =~= seq![]);
        for i in 0..entries.len()
            invariant
                all == entry_views(entries@),
                self.suffix == old(self).suffix,
                self.limit == old(self).limit,
                self.state() == walk_entries(
                    start,
                    self.suffix@,
                    self.limit as int,
                    all.take(i as int),
                ),
        {
            let ghost before = self.state();
            let e = &entries[i];
            proof {
                assert(all.take(i + 1).drop_last() =~= all.take(i as int));
                assert(all.take(i + 1).last() == e@);
                reveal_strlit(".git");
                reveal_strlit("node_modules");
            }
            if self.found.len() < self.limit {
                if e.is_dir {
                    let skip: bool = match &e.name {
                        Some(n) => same(n.as_str(), ".git") || same(n.as_str(), "node_modules"),
                        None => false,
                    };
                    if !skip {
                        self.stack.push(e.path.clone());
                        assert(self.state().stack =~= before.stack.push(e@.path));
                        assert(self.state().found =~= before.found);
                    }
                } else if let Some(n) = &e.name {
                    if glob_match(self.suffix.as_str(), n.as_str()) {
                        self.found.push(e.path.clone());
                        assert(self.state().found =~= before.found.push(e@.path));
                        assert(self.state().stack =~= before.stack);
                    }
                }
            }
        }
        assert(all.take(entries@.len() as int) =~= all);
    }
}

/// Completeness of a listing: while fewer files than the limit were found after it, every
/// entry that is no directory and whose name matches the pattern is among the files found,
/// and every directory that is not named `.git` or `node_modules` is among those still to
/// be listed.
pub proof fn law_listing_is_complete(
    st: WalkState,
    suffix: Seq<char>,
    limit: int,
    entries: Seq<WalkEntryView>,
    j: int,
)
    requires
        walk_entries(st, suffix, limit, entries).found.len() < limit,
        0 <= j < entries.len(),
    ensures
        !entries[j].is_dir && (entries[j].name matches Some(n) && glob_matches(suffix, n))
            ==> walk_entries(st, suffix, limit, entries).found.contains(entries[j].path),
        entries[j].is_dir && entries[j].name != Some(".git"@) && entries[j].name != Some(
            "node_modules"@,
        ) ==> walk_entries(st, suffix, limit, entries).stack.contains(entries[j].path),
    decreases entries.len(),
{
    let init = entries.drop_last();
    let before = walk_entries(st, suffix, limit, init);
    let after = walk_entries(st, suffix, limit, entries);
    assert(before.found.len() <= after.found.len());
    if j == entries.len() - 1 {
        if entries[j].is_dir {
            assert(after.stack.len() > 0 ==> after.stack[after.stack.len() - 1]
                == after.stack.last());
        } else {
            assert(after.found.len() > 0 ==> after.found[after.found.len() - 1]
                == after.found.last());
        }
    } else {
        law_listing_is_complete(st, suffix, limit, init, j);
        assert(init[j] == entries[j]);
        if before.found.contains(entries[j].path) {
            let k = choose|k: int| 0 <= k < before.found.len() && before.found[k]
                == entries[j].path;
            assert(after.found[k] == before.found[k]);
        }
        if before.stack.contains(entries[j].path) {
            let k = choose|k: int| 0 <= k < before.stack.len() && before.stack[k]
                == entries[j].path;
            assert(after.stack[k] == before.stack[k]);
        }
    }
}

/// A listing is taken in from its start, up to its end or to the entry with which the limit
/// is reached: the paths of the matching files among these entries are added to the files
/// found, and those of the directories that are not named `.git` or `node_modules` to the
/// directories still to be listed, in the order of the listing and nothing else.
pub proof fn law_listing_is_taken_in_order(
    st: WalkState,
    suffix: Seq<char>,
    limit: int,
    entries: Seq<WalkEntryView>,
) -> (n: int)
    ensures
        ({
            let after = walk_entries(st, suffix, limit, entries);
            let file = |e: WalkEntryView|
                !e.is_dir && (e.name matches Some(n) && glob_matches(suffix, n));
            let dir = |e: WalkEntryView|
                e.is_dir && e.name != Some(".git"@) && e.name != Some("node_modules"@);
            let path = |e: WalkEntryView| e.path;
            &&& 0 <= n <= entries.len()
            &&& after.found == st.found + entries.take(n).filter(file).map_values(path)
            &&& after.stack == st.stack + entries.take(n).filter(dir).map_values(path)
            &&& n < entries.len() ==> after.found.len() >= limit
            &&& n > 0 ==> st.found.len() + entries.take(n - 1).filter(file).len() < limit
        }),
    decreases entries.len(),
{
    reveal(Seq::filter);
    let file = |e: WalkEntryView| !e.is_dir && (e.name matches Some(n) && glob_matches(suffix, n));
    let dir = |e: WalkEntryView|
        e.is_dir && e.name != Some(".git"@) && e.name != Some("node_modules"@);
    let path = |e: WalkEntryView| e.path;
    if entries.len() == 0 {
        assert(entries.take(0) =~= entries);
        assert(entries.filter(file).map_values(path) =~= seq![]);
        assert(entries.filter(dir).map_values(path) =~= seq![]);
        assert(st.found + Seq::<Seq<char>>::empty() =~= st.found);
        assert(st.stack + Seq::<Seq<char>>::empty() =~= st.stack);
        0
    } else {
        let init = entries.drop_last();
        let e = entries.last();
        let m = law_listing_is_taken_in_order(st, suffix, limit, init);
        let before = walk_entries(st, suffix, limit, init);
        let after = walk_entries(st, suffix, limit, entries);
        assert(init.take(m) =~= entries.take(m));
        if m > 0 {
            assert(init.take(m - 1) =~= entries.take(m - 1));
        }
        if before.found.len() >= limit {
            assert(after == before);
            m
        } else {
            let n = entries.len() as int;
            assert(m == init.len());
            assert(init.take(m) =~= init);
            assert(entries.take(n) =~= entries);
            assert(entries.take(n - 1) =~= init);
            assert(entries.filter(file).map_values(path) =~= if file(e) {
                init.filter(file).map_values(path).push(e.path)
            } else {
                init.filter(file).map_values(path)
            });
            assert(entries.filter(dir).map_values(path) =~= if dir(e) {
                init.filter(dir).map_values(path).push(e.path)
            } else {
                init.filter(dir).map_values(path)
            });
            assert(after.found =~= st.found + entries.filter(file).map_values(path));
            assert(after.stack =~= st.stack + entries.filter(dir).map_values(path));
            n
        }
    }
}

/// A walk never finds more files than its limit.
pub proof fn law_walk_within_limit(
    st: WalkState,
    suffix: Seq<char>,
    limit: int,
    entries: Seq<WalkEntryView>,
)
    requires
        st.found.len() <= limit,
    ensures
        walk_entries(st, suffix, limit, entries).found.len() <= limit,
    decreases entries.len(),
{
    if entries.len() > 0 {
        law_walk_within_limit(st, suffix, limit, entries.drop_last());
    }
}

/// Whether a listing holds a matching file with this path.
pub open spec fn lists_file(
    entries: Seq<WalkEntryView>,
    suffix: Seq<char>,
    path: Seq<char>,
) -> bool {
    exists|j: int|
        0 <= j < entries.len() && wanted_file(#[trigger] entries[j], suffix) && entries[j].path
            == path
}

/// Whether a listing holds a directory to list with this path.
pub open spec fn lists_dir(entries: Seq<WalkEntryView>, path: Seq<char>) -> bool {
    exists|j: int|
        0 <= j < entries.len() && wanted_dir(#[trigger] entries[j]) && entries[j].path == path
}

/// A listing leaves what was found, and adds only listed files whose names match.
pub proof fn law_walk_finds_matches(
    st: WalkState,
    suffix: Seq<char>,
    limit: int,
    entries: Seq<WalkEntryView>,
)
    ensures
        st.found.is_prefix_of(walk_entries(st, suffix, limit, entries).found),
        forall|i: int|
            st.found.len() <= i < walk_entries(st, suffix, limit, entries).found.len()
                ==> lists_file(
                entries,
                suffix,
                #[trigger] walk_entries(st, suffix, limit, entries).found[i],
            ),
    decreases entries.len(),
{
    if entries.len() > 0 {
        let init = entries.drop_last();
        law_walk_finds_matches(st, suffix, limit, init);
        let before = walk_entries(st, suffix, limit, init).found;
        let after = walk_entries(st, suffix, limit, entries).found;
        assert forall|i: int| st.found.len() <= i < after.len() implies lists_file(
            entries,
            suffix,
            #[trigger] after[i],
        ) by {
            if i < before.len() {
                assert(after[i] == before[i]);
                assert(lists_file(init, suffix, before[i]));
                let j = choose|j: int|
                    0 <= j < init.len() && wanted_file(#[trigger] init[j], suffix) && init[j].path
                        == before[i];
                assert(entries[j] == init[j]);
            } else {
                assert(entries[entries.len() - 1] == entries.last());
            }
        }
    }
}

/// A listing leaves the directories still to list, and adds only listed directories that
/// the walk does not stay out of.
pub proof fn law_walk_skips_directories(
    st: WalkState,
    suffix: Seq<char>,
    limit: int,
    entries: Seq<WalkEntryView>,
)
    ensures
        st.stack.is_prefix_of(walk_entries(st, suffix, limit, entries).stack),
        forall|i: int|
            st.stack.len() <= i < walk_entries(st, suffix, limit, entries).stack.len()
                ==> lists_dir(entries, #[trigger] walk_entries(st, suffix, limit, entries).stack[i]),
    decreases entries.len(),
{
    if entries.len() > 0 {
        let init = entries.drop_last();
        law_walk_skips_directories(st, suffix, limit, init);
        let before = walk_entries(st, suffix, limit, init).stack;
        let after = walk_entries(st, suffix, limit, entries).stack;
        assert forall|i: int| st.stack.len() <= i < after.len() implies lists_dir(
            entries,
            #[trigger] after[i],
        ) by {
            if i < before.len() {
                assert(after[i] == before[i]);
                assert(lists_dir(init, before[i]));
                let j = choose|j: int|
                    0 <= j < init.len() && wanted_dir(#[trigger] init[j]) && init[j].path
                        == before[i];
                assert(entries[j] == init[j]);
            } else {
                assert(entries[entries.len() - 1] == entries.last());
            }
        }
    }
}

/// The directory that was put on the stack last is listed next, and the others stay. There is
/// none exactly where enough files were found or no directory is left.
pub proof fn law_last_directory_is_listed_first(w: &mut GlobWalk, r: Option<String>)
    requires
        call_ensures(GlobWalk::next_dir, (w,), r),
    ensures
        r is None <==> old(w).found@.len() >= old(w).limit || old(w).stack@.len() == 0,
        r matches Some(dir) ==> {
            let (before, after) = (text::views(old(w).stack@), text::views(final(w).stack@));
            before.len() == after.len() + 1 && before.last() == dir@ && before.drop_last() == after
        },
        text::views(final(w).found@) == text::views(old(w).found@),
        final(w).suffix@ == old(w).suffix@ && final(w).limit == old(w).limit,
{
    if r is Some {
        let after = text::views(final(w).stack@);
        assert(after.push(r->Some_0@).drop_last() =~= after);
        assert(text::views(old(w).stack@).len() == old(w).stack@.len());
    }
    assert(text::views(old(w).found@).len() == old(w).found@.len());
}

/// A listing that the walk takes in leaves out nothing: while fewer files than the limit were
/// found after it, every entry that is no directory and whose name matches is among them, and
/// every directory that is not named `.git` or `node_modules` is still to be listed. What was
/// there before stays at the start of both.
pub proof fn law_visit_leaves_out_nothing(w: &mut GlobWalk, entries: &[WalkEntry], j: int)
    requires
        call_ensures(GlobWalk::visit, (w, entries), ()),
        0 <= j < entries@.len(),
    ensures
        ({
            let found = text::views(final(w).found@);
            let stack = text::views(final(w).stack@);
            let e = entries@[j];
            &&& final(w).found@.len() < old(w).limit && !e.is_dir && (e.name matches Some(n)
                && glob_matches(old(w).suffix@, n@)) ==> found.contains(e.path@)
            &&& final(w).found@.len() < old(w).limit && e.is_dir && !(e.name matches Some(n) && (n@
                == ".git"@ || n@ == "node_modules"@)) ==> stack.contains(e.path@)
            &&& text::views(old(w).found@).is_prefix_of(found)
            &&& text::views(old(w).stack@).is_prefix_of(stack)
        }),
{
    let all = entry_views(entries@);
    let (st, suffix, limit) = (old(w).state(), old(w).suffix@, old(w).limit as int);
    assert(all[j] == entries@[j]@);
    assert(text::views(final(w).found@).len() == final(w).found@.len());
    if final(w).found@.len() < old(w).limit {
        law_listing_is_complete(st, suffix, limit, all, j);
    }
    law_walk_finds_matches(st, suffix, limit, all);
    law_walk_skips_directories(st, suffix, limit, all);
}

} // verus!
