//! The recently-used OpenRouter model slugs: most recent first, without
//! repeats, capped at `MAX_RECENT_OPENROUTER_MODELS`.

use vstd::prelude::*;
use crate::text::strings_view;
use std::path::Path;
use std::path::PathBuf;

verus! {

/// Name of the state file under the Codex home directory.
pub const RECENT_OPENROUTER_MODELS_FILE: &'static str = "recent-openrouter-models.json";

/// How many slugs the recents list keeps.
pub const MAX_RECENT_OPENROUTER_MODELS: usize = 8;

/// `list` with every occurrence of `slug` taken out, the rest in order.
pub open spec fn without(list: Seq<Seq<char>>, slug: Seq<char>) -> Seq<Seq<char>>
    decreases list.len(),
{
    if list.len() == 0 {
        list
    } else {
        let rest = without(list.drop_last(), slug);
        if list.last() == slug {
            rest
        } else {
            rest.push(list.last())
        }
    }
}

/// The first `n` items of `list` (all of them when it is shorter).
pub open spec fn capped(list: Seq<Seq<char>>, n: nat) -> Seq<Seq<char>> {
    if list.len() <= n {
        list
    } else {
        list.take(n as int)
    }
}

/// The list after `slug` was used: `slug` first, then the older slugs other
/// than it in their order, cut to the cap.
pub open spec fn recorded(list: Seq<Seq<char>>, slug: Seq<char>) -> Seq<Seq<char>> {
    capped(seq![slug] + without(list, slug), MAX_RECENT_OPENROUTER_MODELS as nat)
}

#[verifier::external_type_specification]
#[verifier::external_body]
pub struct ExPath(std::path::Path);

#[verifier::external_type_specification]
#[verifier::external_body]
pub struct ExPathBuf(std::path::PathBuf);

/// What `Path::join` returns for `base` and `name`: `base` with the relative
/// path `name` appended as a further component, by the separator rules of the
/// platform the crate is built for.
pub uninterp spec fn joined_path(base: &Path, name: Seq<char>) -> PathBuf;

/// `Path::join`; its result is `joined_path` of its arguments.
#[verifier::external_body]
fn path_join(base: &Path, name: &str) -> (r: PathBuf)
    ensures
        r == joined_path(base, name@),
{
    base.join(name)
}

#[verifier::external_type_specification]
#[verifier::external_body]
pub struct ExIoErrorKind(std::io::ErrorKind);

/// What reading the state file gave, after the file's JSON was parsed.
pub enum PersistedRecents {
    /// There is no state file.
    Missing,
    /// The file could not be read: the I/O error's kind and message.
    Unreadable { kind: std::io::ErrorKind, message: String },
    /// The file holds no valid recents document; the parser's message.
    Corrupt(String),
    /// The recents that the file holds.
    Parsed(RecentOpenRouterModels),
}

/// Why the persisted recents could not be loaded.
pub enum LoadRecentsError {
    /// An I/O error other than a missing file, with its kind and message.
    Io { kind: std::io::ErrorKind, message: String },
    /// The file's contents are not a recents document.
    InvalidData(String),
}

/// The persisted recents of OpenRouter model slugs.
#[derive(Debug, Clone, PartialEq, Eq)]
pub struct RecentOpenRouterModels {
    pub recents: Vec<String>,
}

impl View for RecentOpenRouterModels {
    type V = Seq<Seq<char>>;

    open spec fn view(&self) -> Seq<Seq<char>> {
        strings_view(self.recents@)
    }
}

impl Default for RecentOpenRouterModels {
    fn default() -> (r: Self)
        ensures
            r@ == Seq::<Seq<char>>::empty(),
    {
        let r = RecentOpenRouterModels { recents: Vec::new() };
        assert(r@ =~= Seq::<Seq<char>>::empty());
        r
    }
}

proof fn lemma_strings_view_push(v: Seq<String>, s: String)
    ensures
        strings_view(v.push(s)) == strings_view(v).push(s@),
{
    assert(strings_view(v.push(s)) =~= strings_view(v).push(s@));
}

proof fn lemma_strings_view_take(v: Seq<String>, i: int)
    requires
        0 <= i <= v.len(),
    ensures
        strings_view(v.take(i)) == strings_view(v).take(i),
{
    assert(strings_view(v.take(i)) =~= strings_view(v).take(i));
}

impl RecentOpenRouterModels {
    /// Record `slug` as the most recently used: drop its earlier occurrences,
    /// put it first, keep at most `MAX_RECENT_OPENROUTER_MODELS` slugs.
    pub fn record(&mut self, slug: String)
        ensures
            final(self)@ == recorded(old(self)@, slug@),
    {
        let n = self.recents.len();
        let mut kept: Vec<String> = Vec::new();
        let mut i: usize = 0;
        while i < n
            invariant
                n == self.recents.len(),
                i <= n,
                strings_view(kept@) == without(strings_view(self.recents@.take(i as int)), slug@),
            decreases n - i,
        {
            let ghost all = self.recents@;
            proof {
                lemma_strings_view_take(all, i as int);
                lemma_strings_view_take(all, i + 1);
                assert(strings_view(all).take(i + 1).drop_last() =~= strings_view(all).take(i as int));
            }
            if !(self.recents[i] == slug) {
                let item = self.recents[i].clone();
                proof {
                    lemma_strings_view_push(kept@, item);
                }
                kept.push(item);
            }
            i = i + 1;
        }
        proof {
            lemma_strings_view_take(self.recents@, n as int);
            assert(self.recents@.take(n as int) =~= self.recents@);
        }
        let ghost before = kept@;
        kept.insert(0, slug);
        assert(strings_view(kept@) =~= seq![slug@] + strings_view(before));
        let ghost inserted = kept@;
        kept.truncate(MAX_RECENT_OPENROUTER_MODELS);
        proof {
            if inserted.len() > MAX_RECENT_OPENROUTER_MODELS {
                lemma_strings_view_take(inserted, MAX_RECENT_OPENROUTER_MODELS as int);
            }
        }
        self.recents = kept;
    }

    /// Drop every occurrence of `slug`, keeping the others in order.
    pub fn remove(&mut self, slug: &str)
        ensures
            final(self)@ == without(old(self)@, slug@),
    {
        let target = String::from_str(slug);
        let n = self.recents.len();
        let mut kept: Vec<String> = Vec::new();
        let mut i: usize = 0;
        while i < n
            invariant
                n == self.recents.len(),
                i <= n,
                target@ == slug@,
                strings_view(kept@) == without(strings_view(self.recents@.take(i as int)), slug@),
            decreases n - i,
        {
            let ghost all = self.recents@;
            proof {
                lemma_strings_view_take(all, i as int);
                lemma_strings_view_take(all, i + 1);
                assert(strings_view(all).take(i + 1).drop_last() =~= strings_view(all).take(i as int));
            }
            if !(self.recents[i] == target) {
                let item = self.recents[i].clone();
                proof {
                    lemma_strings_view_push(kept@, item);
                }
                kept.push(item);
            }
            i = i + 1;
        }
        proof {
            lemma_strings_view_take(self.recents@, n as int);
            assert(self.recents@.take(n as int) =~= self.recents@);
        }
        self.recents = kept;
    }

    /// The recents that a state-file read yields: a missing file yields an
    /// empty list, a read error is passed on, an unparseable file becomes an
    /// invalid-data error.
    pub fn load_persisted(state: PersistedRecents) -> (r: Result<Self, LoadRecentsError>)
        ensures
            match state {
                PersistedRecents::Missing => r matches Ok(m) && m@.len() == 0,
                PersistedRecents::Unreadable { kind, message } => r matches Err(
                    LoadRecentsError::Io { kind: k, message: m },
                ) && k == kind && m@ == message@,
                PersistedRecents::Corrupt(msg) => r matches Err(LoadRecentsError::InvalidData(e))
                    && e@ == "failed to parse recent OpenRouter models: "@ + msg@,
                PersistedRecents::Parsed(m) => r matches Ok(l) && l@ == m@,
            },
    {
        match state {
            PersistedRecents::Missing => Ok(Self::default()),
            PersistedRecents::Unreadable { kind, message } => Err(
                LoadRecentsError::Io { kind, message },
            ),
            PersistedRecents::Corrupt(msg) => {
                let prefix = String::from_str("failed to parse recent OpenRouter models: ");
                Err(LoadRecentsError::InvalidData(prefix.concat(msg.as_str())))
            },
            PersistedRecents::Parsed(m) => Ok(m),
        }
    }

    /// The recents to start with: those of the state file, or an empty list
    /// when it is missing, unreadable or unparseable, so that startup never
    /// fails on a bad state file.
    pub fn load(state: PersistedRecents) -> (r: Self)
        ensures
            match state {
                PersistedRecents::Parsed(m) => r@ == m@,
                _ => r@.len() == 0,
            },
    {
        match Self::load_persisted(state) {
            Ok(m) => m,
            Err(_) => Self::default(),
        }
    }

    /// Where the recents are stored under the Codex home directory: the
    /// state file's name joined onto it.
    pub fn state_file_path(codex_home: &Path) -> (r: PathBuf)
        ensures
            r == joined_path(codex_home, RECENT_OPENROUTER_MODELS_FILE@),
    {
        path_join(codex_home, RECENT_OPENROUTER_MODELS_FILE)
    }

    pub fn is_empty(&self) -> (r: bool)
        ensures
            r == (self@.len() == 0),
    {
        self.recents.len() == 0
    }

    /// The slugs, most recent first.
    pub fn iter(&self) -> (r: &[String])
        ensures
            strings_view(r@) == self@,
    {
        self.recents.as_slice()
    }
}

proof fn lemma_without_contains(list: Seq<Seq<char>>, slug: Seq<char>, x: Seq<char>)
    ensures
        without(list, slug).contains(x) <==> (list.contains(x) && x != slug),
    decreases list.len(),
{
    if list.len() > 0 {
        let init = list.drop_last();
        lemma_without_contains(init, slug, x);
        assert(list =~= init.push(list.last()));
        if list.contains(x) && x != slug && !init.contains(x) {
            let k = choose|k: int| 0 <= k < list.len() && list[k] == x;
            if k < init.len() {
                assert(init[k] == x);
            }
            assert(list.last() == x);
        }
        if init.contains(x) {
            let k = choose|k: int| 0 <= k < init.len() && init[k] == x;
            assert(list[k] == x);
        }
        let rest = without(init, slug);
        if list.last() != slug {
            if rest.contains(x) {
                let k = choose|k: int| 0 <= k < rest.len() && rest[k] == x;
                assert(rest.push(list.last())[k] == x);
            }
            if x == list.last() {
                assert(rest.push(list.last())[rest.len() as int] == x);
            }
            if rest.push(list.last()).contains(x) && x != list.last() {
                let k = choose|k: int| 0 <= k < rest.len() + 1 && rest.push(list.last())[k] == x;
                assert(rest[k] == x);
            }
        }
    }
}

proof fn lemma_without_len(list: Seq<Seq<char>>, slug: Seq<char>)
    ensures
        without(list, slug).len() <= list.len(),
        list.contains(slug) ==> without(list, slug).len() < list.len(),
    decreases list.len(),
{
    if list.len() > 0 {
        let init = list.drop_last();
        lemma_without_len(init, slug);
        if list.contains(slug) && list.last() != slug {
            let k = choose|k: int| 0 <= k < list.len() && list[k] == slug;
            assert(init[k] == slug);
        }
    }
}

proof fn lemma_without_absent(list: Seq<Seq<char>>, slug: Seq<char>)
    requires
        !list.contains(slug),
    ensures
        without(list, slug) == list,
    decreases list.len(),
{
    if list.len() > 0 {
        let init = list.drop_last();
        if init.contains(slug) {
            let k = choose|k: int| 0 <= k < init.len() && init[k] == slug;
            assert(list[k] == slug);
        }
        assert(list[list.len() - 1] == list.last());
        lemma_without_absent(init, slug);
        assert(init.push(list.last()) =~= list);
    }
}

proof fn lemma_without_no_duplicates(list: Seq<Seq<char>>, slug: Seq<char>)
    requires
        list.no_duplicates(),
    ensures
        without(list, slug).no_duplicates(),
    decreases list.len(),
{
    if list.len() > 0 {
        let init = list.drop_last();
        assert(init.no_duplicates());
        lemma_without_no_duplicates(init, slug);
        let rest = without(init, slug);
        if list.last() != slug {
            lemma_without_contains(init, slug, list.last());
            if init.contains(list.last()) {
                let k = choose|k: int| 0 <= k < init.len() && init[k] == list.last();
                assert(list[k] == list[list.len() - 1]);
            }
            assert(!rest.contains(list.last()));
            let p = rest.push(list.last());
            assert forall|i: int, j: int| 0 <= i < p.len() && 0 <= j < p.len() && i != j implies p[i] != p[j] by {
                if i == rest.len() {
                    assert(rest[j] == p[j]);
                } else if j == rest.len() {
                    assert(rest[i] == p[i]);
                }
            }
        }
    }
}

proof fn lemma_without_append(a: Seq<Seq<char>>, b: Seq<Seq<char>>, slug: Seq<char>)
    ensures
        without(a + b, slug) == without(a, slug) + without(b, slug),
    decreases b.len(),
{
    if b.len() == 0 {
        assert(a + b =~= a);
        assert(without(a, slug) + without(b, slug) =~= without(a, slug));
    } else {
        let binit = b.drop_last();
        lemma_without_append(a, binit, slug);
        assert((a + b).drop_last() =~= a + binit);
        assert((a + b).last() == b.last());
        if b.last() != slug {
            assert(without(a, slug) + without(binit, slug).push(b.last()) =~= (without(a, slug)
                + without(binit, slug)).push(b.last()));
        }
    }
}

proof fn lemma_without_single(slug: Seq<char>)
    ensures
        without(seq![slug], slug) == Seq::<Seq<char>>::empty(),
{
    let one = seq![slug];
    let init = one.drop_last();
    assert(init =~= Seq::<Seq<char>>::empty());
    assert(without(init, slug) == init);
    assert(one.last() == slug);
}

/// Recording a slug puts it first, keeps it there exactly once, keeps at
/// most `MAX_RECENT_OPENROUTER_MODELS` slugs, and brings in no slug that was
/// neither recorded nor in the list before.
pub proof fn law_record_puts_slug_first(list: Seq<Seq<char>>, slug: Seq<char>)
    ensures
        recorded(list, slug).len() >= 1,
        recorded(list, slug)[0] == slug,
        recorded(list, slug).len() <= MAX_RECENT_OPENROUTER_MODELS,
        forall|i: int| 1 <= i < recorded(list, slug).len() ==> #[trigger] recorded(list, slug)[i] != slug,
        forall|x: Seq<char>| #[trigger] recorded(list, slug).contains(x) ==> x == slug || list.contains(x),
{
    let full = seq![slug] + without(list, slug);
    let r = recorded(list, slug);
    assert forall|i: int| 1 <= i < r.len() implies #[trigger] r[i] != slug by {
        assert(r[i] == full[i]);
        assert(full[i] == without(list, slug)[i - 1]);
        lemma_without_contains(list, slug, slug);
        assert(without(list, slug).contains(without(list, slug)[i - 1]));
    }
    assert forall|x: Seq<char>| #[trigger] r.contains(x) implies x == slug || list.contains(x) by {
        let k = choose|k: int| 0 <= k < r.len() && r[k] == x;
        if k > 0 {
            assert(full[k] == without(list, slug)[k - 1]);
            assert(without(list, slug).contains(x));
            lemma_without_contains(list, slug, x);
        }
    }
}

/// Recording the same slug twice in a row leaves the list as the first
/// recording left it.
pub proof fn law_record_is_idempotent(list: Seq<Seq<char>>, slug: Seq<char>)
    ensures
        recorded(recorded(list, slug), slug) == recorded(list, slug),
{
    let w = without(list, slug);
    let r = recorded(list, slug);
    lemma_without_contains(list, slug, slug);
    lemma_without_absent(w, slug);
    lemma_without_single(slug);
    lemma_without_append(seq![slug], w, slug);
    assert(without(seq![slug] + w, slug) =~= w);
    if (seq![slug] + w).len() <= MAX_RECENT_OPENROUTER_MODELS {
        assert(r == seq![slug] + w);
        assert(recorded(r, slug) =~= seq![slug] + w);
    } else {
        let t = (seq![slug] + w).take(MAX_RECENT_OPENROUTER_MODELS as int);
        assert(r == t);
        let wt = w.take(MAX_RECENT_OPENROUTER_MODELS - 1);
        assert(t =~= seq![slug] + wt);
        lemma_without_append(seq![slug], wt, slug);
        if wt.contains(slug) {
            let k = choose|k: int| 0 <= k < wt.len() && wt[k] == slug;
            assert(w[k] == slug);
            assert(w.contains(slug));
        }
        lemma_without_absent(wt, slug);
        assert(without(t, slug) =~= wt);
        assert(recorded(r, slug) =~= t);
    }
}

/// A list without repeats stays without repeats when a slug is recorded.
pub proof fn law_record_keeps_slugs_distinct(list: Seq<Seq<char>>, slug: Seq<char>)
    requires
        list.no_duplicates(),
    ensures
        recorded(list, slug).no_duplicates(),
{
    let w = without(list, slug);
    lemma_without_no_duplicates(list, slug);
    lemma_without_contains(list, slug, slug);
    let full = seq![slug] + w;
    assert forall|i: int, j: int| 0 <= i < full.len() && 0 <= j < full.len() && i != j implies full[i]
        != full[j] by {
        if i == 0 {
            assert(full[j] == w[j - 1]);
            assert(w.contains(w[j - 1]));
        } else if j == 0 {
            assert(full[i] == w[i - 1]);
            assert(w.contains(w[i - 1]));
        } else {
            assert(full[i] == w[i - 1]);
            assert(full[j] == w[j - 1]);
        }
    }
    let r = recorded(list, slug);
    assert forall|i: int, j: int| 0 <= i < r.len() && 0 <= j < r.len() && i != j implies r[i] != r[j] by {
        assert(r[i] == full[i]);
        assert(r[j] == full[j]);
    }
}

/// Recording a slug that is already in a list of at most
/// `MAX_RECENT_OPENROUTER_MODELS` slugs only moves it to the front: no slug is
/// lost and none is repeated.
pub proof fn law_record_known_slug_loses_nothing(list: Seq<Seq<char>>, slug: Seq<char>)
    requires
        list.contains(slug),
        list.len() <= MAX_RECENT_OPENROUTER_MODELS,
    ensures
        forall|x: Seq<char>| #[trigger] recorded(list, slug).contains(x) <==> list.contains(x),
        list.no_duplicates() ==> recorded(list, slug).len() == list.len(),
{
    let w = without(list, slug);
    lemma_without_len(list, slug);
    let r = recorded(list, slug);
    assert(r == seq![slug] + w);
    assert forall|x: Seq<char>| #[trigger] r.contains(x) <==> list.contains(x) by {
        lemma_without_contains(list, slug, x);
        if r.contains(x) && x != slug {
            let k = choose|k: int| 0 <= k < r.len() && r[k] == x;
            assert(w[k - 1] == x);
        }
        if list.contains(x) {
            if x == slug {
                assert(r[0] == x);
            } else {
                let k = choose|k: int| 0 <= k < w.len() && w[k] == x;
                assert(r[k + 1] == x);
            }
        }
    }
    if list.no_duplicates() {
        lemma_without_count(list, slug);
    }
}

proof fn lemma_without_count(list: Seq<Seq<char>>, slug: Seq<char>)
    requires
        list.no_duplicates(),
        list.contains(slug),
    ensures
        without(list, slug).len() == list.len() - 1,
    decreases list.len(),
{
    let init = list.drop_last();
    assert(init.no_duplicates());
    if list.last() == slug {
        if init.contains(slug) {
            let k = choose|k: int| 0 <= k < init.len() && init[k] == slug;
            assert(list[k] == list[list.len() - 1]);
        }
        lemma_without_absent(init, slug);
    } else {
        let k = choose|k: int| 0 <= k < list.len() && list[k] == slug;
        assert(init[k] == slug);
        lemma_without_count(init, slug);
    }
}

/// Removing a slug right after recording it leaves the older slugs other than
/// it, in their order, cut to one less than the cap.
pub proof fn law_remove_undoes_record(list: Seq<Seq<char>>, slug: Seq<char>)
    ensures
        without(recorded(list, slug), slug) == capped(
            without(list, slug),
            (MAX_RECENT_OPENROUTER_MODELS - 1) as nat,
        ),
{
    let w = without(list, slug);
    lemma_without_contains(list, slug, slug);
    lemma_without_absent(w, slug);
    lemma_without_single(slug);
    if w.len() + 1 <= MAX_RECENT_OPENROUTER_MODELS {
        lemma_without_append(seq![slug], w, slug);
        assert(without(seq![slug] + w, slug) =~= w);
    } else {
        let wt = w.take(MAX_RECENT_OPENROUTER_MODELS - 1);
        assert((seq![slug] + w).take(MAX_RECENT_OPENROUTER_MODELS as int) =~= seq![slug] + wt);
        lemma_without_append(seq![slug], wt, slug);
        if wt.contains(slug) {
            let k = choose|k: int| 0 <= k < wt.len() && wt[k] == slug;
            assert(w[k] == slug);
            assert(w.contains(slug));
        }
        lemma_without_absent(wt, slug);
        assert(without(seq![slug] + wt, slug) =~= wt);
    }
}

/// Removing a slug takes out exactly that slug: every other slug stays, the
/// list never grows, and removing it again changes nothing.
pub proof fn law_remove_drops_only_slug(list: Seq<Seq<char>>, slug: Seq<char>)
    ensures
        forall|x: Seq<char>| #[trigger] without(list, slug).contains(x) <==> (list.contains(x) && x != slug),
        without(list, slug).len() <= list.len(),
        !list.contains(slug) ==> without(list, slug) == list,
        without(without(list, slug), slug) == without(list, slug),
{
    assert forall|x: Seq<char>| #[trigger] without(list, slug).contains(x) <==> (list.contains(x) && x
        != slug) by {
        lemma_without_contains(list, slug, x);
    }
    lemma_without_len(list, slug);
    if !list.contains(slug) {
        lemma_without_absent(list, slug);
    }
    lemma_without_contains(list, slug, slug);
    lemma_without_absent(without(list, slug), slug);
}

} // verus!
