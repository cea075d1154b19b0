use vstd::prelude::*;
use crate::text::{same_text, texts};
use crate::upstream::{Track, opt_view};

verus! {

/// Where a track was announced: the message id, its channel and the account it came from.
pub struct DiscordMessage {
    pub id: String,
    pub channel_id: Option<String>,
    pub user_id: Option<String>,
}

pub type LinkView = (Seq<char>, Option<Seq<char>>, Option<Seq<char>>);

pub open spec fn link_view(m: DiscordMessage) -> LinkView {
    (m.id@, opt_view(m.channel_id), opt_view(m.user_id))
}

pub open spec fn opt_link_view(o: Option<DiscordMessage>) -> Option<LinkView> {
    match o {
        Some(m) => Some(link_view(m)),
        None => None,
    }
}

pub type Entry = (String, Option<DiscordMessage>);

/// `k` is known and was announced as message `d`.
pub open spec fn announced_as(m: Map<Seq<char>, Option<LinkView>>, k: Seq<char>, d: Seq<char>) -> bool {
    m.contains_key(k) && m[k] is Some && (m[k]->0).0 == d
}

pub open spec fn entry_announced(e: Entry, d: Seq<char>) -> bool {
    e.1 is Some && e.1->0.id@ == d
}

/// The mapping that a list of entries stands for; a later entry for a key wins.
pub open spec fn entries_map(s: Seq<Entry>) -> Map<Seq<char>, Option<LinkView>>
    decreases s.len(),
{
    if s.len() == 0 {
        Map::empty()
    } else {
        entries_map(s.drop_last()).insert(s.last().0@, opt_link_view(s.last().1))
    }
}

pub open spec fn entry_keys(s: Seq<Entry>) -> Seq<Seq<char>> {
    s.map_values(|e: Entry| e.0@)
}

/// The known track ids, persisted, each with its announcement when there was one.
///
/// The entries are kept in a `Vec` with unique keys rather than a `HashMap<String, _>`: vstd
/// models hashed lookups only for keys with a known hashing model (integers, `bool`), so with
/// `String` keys no lookup result could be proved.
pub struct TrackDatabase {
    entries: Vec<Entry>,
    pub db_path: String,
}

impl View for TrackDatabase {
    type V = Map<Seq<char>, Option<LinkView>>;

    closed spec fn view(&self) -> Map<Seq<char>, Option<LinkView>> {
        entries_map(self.entries@)
    }
}

proof fn lemma_entries_dom(s: Seq<Entry>, k: Seq<char>)
    ensures
        entries_map(s).contains_key(k) <==> entry_keys(s).contains(k),
    decreases s.len(),
{
    if s.len() > 0 {
        let t = s.drop_last();
        lemma_entries_dom(t, k);
        let ks = entry_keys(s);
        let kt = entry_keys(t);
        assert(kt =~= ks.drop_last());
        assert(ks[s.len() - 1] == s.last().0@);
        if kt.contains(k) {
            let i = choose|i: int| 0 <= i < kt.len() && kt[i] == k;
            assert(ks[i] == k);
        }
        if ks.contains(k) {
            let i = choose|i: int| 0 <= i < ks.len() && ks[i] == k;
            if i < s.len() - 1 {
                assert(kt[i] == k);
            }
        }
        if k == s.last().0@ {
            assert(ks[s.len() - 1] == k);
        }
    }
}

proof fn lemma_entries_val(s: Seq<Entry>, i: int)
    requires
        0 <= i < s.len(),
        entry_keys(s).no_duplicates(),
    ensures
        entries_map(s).contains_key(s[i].0@),
        entries_map(s)[s[i].0@] == opt_link_view(s[i].1),
    decreases s.len(),
{
    if i < s.len() - 1 {
        let t = s.drop_last();
        assert(entry_keys(t) =~= entry_keys(s).drop_last());
        lemma_entries_val(t, i);
        assert(entry_keys(s)[i] != entry_keys(s)[s.len() - 1]);
    }
}

proof fn lemma_entries_update(s: Seq<Entry>, i: int, e: Entry)
    requires
        0 <= i < s.len(),
        entry_keys(s).no_duplicates(),
        e.0@ == s[i].0@,
    ensures
        entries_map(s.update(i, e)) == entries_map(s).insert(e.0@, opt_link_view(e.1)),
        entry_keys(s.update(i, e)) == entry_keys(s),
{
    let u = s.update(i, e);
    assert(entry_keys(u) =~= entry_keys(s));
    assert forall|k: Seq<char>| #[trigger] entries_map(u).contains_key(k) == entries_map(s).insert(
        e.0@,
        opt_link_view(e.1),
    ).contains_key(k) by {
        lemma_entries_dom(u, k);
        lemma_entries_dom(s, k);
        lemma_entries_dom(s, e.0@);
        assert(entry_keys(s)[i] == e.0@);
    }
    assert forall|k: Seq<char>| #[trigger] entries_map(u).contains_key(k) implies entries_map(u)[k]
        == entries_map(s).insert(e.0@, opt_link_view(e.1))[k] by {
        lemma_entries_dom(u, k);
        let j = choose|j: int| 0 <= j < entry_keys(u).len() && entry_keys(u)[j] == k;
        lemma_entries_val(u, j);
        if j != i {
            assert(entry_keys(s)[j] != entry_keys(s)[i]);
            assert(u[j] == s[j]);
            lemma_entries_val(s, j);
        } else {
            assert(u[j] == e);
        }
    }
    assert(entries_map(u) =~= entries_map(s).insert(e.0@, opt_link_view(e.1)));
}

impl TrackDatabase {
    /// The file the store persists to.
    pub closed spec fn path_of(&self) -> String {
        self.db_path
    }

    /// Keys are unique.
    pub closed spec fn wf(&self) -> bool {
        entry_keys(self.entries@).no_duplicates()
    }

    /// Position of `id` among the entries.
    fn position(&self, id: &str) -> (r: Option<usize>)
        ensures
            r matches Some(i) ==> i < self.entries@.len() && self.entries@[i as int].0@ == id@,
            r is None ==> !entry_keys(self.entries@).contains(id@),
    {
        let mut i: usize = 0;
        while i < self.entries.len()
            invariant
                i <= self.entries@.len(),
                forall|k: int| 0 <= k < i ==> self.entries@[k].0@ != id@,
            decreases self.entries@.len() - i,
        {
            if same_text(self.entries[i].0.as_str(), id) {
                return Some(i);
            }
            i = i + 1;
        }
        assert forall|k: int| 0 <= k < entry_keys(self.entries@).len() implies entry_keys(
            self.entries@,
        )[k] != id@ by {
            assert(self.entries@[k].0@ != id@);
        }
        None
    }

    /// Sets `id` to `link`, adding it when absent.
    fn put(&mut self, id: String, link: Option<DiscordMessage>)
        requires
            old(self).wf(),
        ensures
            final(self).wf(),
            final(self)@ == old(self)@.insert(id@, opt_link_view(link)),
            final(self).path_of() == old(self).path_of(),
    {
        let ghost s = self.entries@;
        let ghost lv = opt_link_view(link);
        let ghost key = id@;
        match self.position(id.as_str()) {
            Some(i) => {
                proof {
                    lemma_entries_update(s, i as int, (id, link));
                }
                self.entries.set(i, (id, link));
                assert(self.entries@ == s.update(i as int, (id, link)));
            },
            None => {
                self.entries.push((id, link));
                assert(self.entries@.drop_last() =~= s);
                assert(entry_keys(self.entries@) =~= entry_keys(s).push(key));
            },
        }
    }

    /// An empty store that persists to `db_path`.
    pub fn new(db_path: String) -> (r: Self)
        ensures
            r.wf(),
            r@ == Map::<Seq<char>, Option<LinkView>>::empty(),
            r.path_of() == db_path,
    {
        let r = TrackDatabase { entries: Vec::new(), db_path };
        assert(entry_keys(r.entries@) =~= Seq::<Seq<char>>::empty());
        r
    }

    /// A store holding the given entries; of two entries for one id the later wins.
    pub fn from_entries(db_path: String, entries: Vec<Entry>) -> (r: Self)
        ensures
            r.wf(),
            r@ == entries_map(entries@),
            r.path_of() == db_path,
    {
        let mut db = TrackDatabase::new(db_path);
        let ghost orig = entries@;
        let n = entries.len();
        let mut rest = entries;
        let mut i: usize = 0;
        while i < n
            invariant
                n == orig.len(),
                i <= n,
                rest@ == orig.subrange(i as int, n as int),
                db.wf(),
                db@ == entries_map(orig.subrange(0, i as int)),
                db.path_of() == db_path,
            decreases n - i,
        {
            let e = rest.remove(0);
            assert(e == orig[i as int]);
            assert(rest@ =~= orig.subrange(i + 1, n as int));
            assert(orig.subrange(0, i + 1).drop_last() =~= orig.subrange(0, i as int));
            db.put(e.0, e.1);
            i = i + 1;
        }
        assert(orig.subrange(0, n as int) =~= orig);
        db
    }

    /// Every known track id, each once.
    pub fn get_all_tracks(&self) -> (r: Vec<String>)
        requires
            self.wf(),
        ensures
            texts(r@).no_duplicates(),
            forall|k: Seq<char>| self@.contains_key(k) <==> texts(r@).contains(k),
    {
        let mut out: Vec<String> = Vec::new();
        let mut i: usize = 0;
        while i < self.entries.len()
            invariant
                i <= self.entries@.len(),
                texts(out@) == entry_keys(self.entries@).subrange(0, i as int),
            decreases self.entries@.len() - i,
        {
            let ghost o0 = out@;
            let c = self.entries[i].0.clone();
            assert(c == self.entries@[i as int].0);
            out.push(c);
            assert(texts(out@) =~= texts(o0).push(self.entries@[i as int].0@));
            assert(entry_keys(self.entries@).subrange(0, i + 1) =~= entry_keys(self.entries@).subrange(
                0,
                i as int,
            ).push(self.entries@[i as int].0@));
            i = i + 1;
        }
        assert(entry_keys(self.entries@).subrange(0, i as int) =~= entry_keys(self.entries@));
        assert forall|k: Seq<char>| self@.contains_key(k) <==> texts(out@).contains(
            k,
        ) by {
            lemma_entries_dom(self.entries@, k);
        }
        out
    }

    /// Whether `track_id` is known.
    pub fn has_track(&self, track_id: &str) -> (r: bool)
        ensures
            r == self@.contains_key(track_id@),
    {
        proof {
            lemma_entries_dom(self.entries@, track_id@);
        }
        match self.position(track_id) {
            Some(i) => {
                assert(entry_keys(self.entries@)[i as int] == track_id@);
                true
            },
            None => false,
        }
    }

    /// Adds the ids not yet known, unlinked, and returns them each once, in order of first
    /// appearance. Nothing is written to disk.
    pub fn add_tracks(&mut self, track_ids: &Vec<String>) -> (r: Vec<String>)
        requires
            old(self).wf(),
        ensures
            final(self).wf(),
            final(self).path_of() == old(self).path_of(),
            old(self)@.dom().subset_of(final(self)@.dom()),
            forall|k: Seq<char>| #[trigger]
                old(self)@.contains_key(k) ==> final(self)@[k] == old(self)@[k],
            forall|k: Seq<char>|
                #![trigger final(self)@.contains_key(k)]
                !old(self)@.contains_key(k) ==> (final(self)@.contains_key(k) <==> texts(track_ids@).contains(k)),
            forall|k: Seq<char>| #[trigger]
                final(self)@.contains_key(k) && !old(self)@.contains_key(k) ==> final(self)@[k] is None,
            texts(r@) == fresh_ids(old(self)@, texts(track_ids@)),
            final(self)@ == fresh_map(old(self)@, texts(track_ids@)),
    {
        let ghost ids = texts(track_ids@);
        let ghost m0 = self@;
        let mut added: Vec<String> = Vec::new();
        let mut i: usize = 0;
        while i < track_ids.len()
            invariant
                self.wf(),
                self.db_path == old(self).db_path,
                m0 == old(self)@,
                ids == texts(track_ids@),
                i <= track_ids@.len(),
                texts(added@) == fresh_ids(m0, ids.subrange(0, i as int)),
                self@ == fresh_map(m0, ids.subrange(0, i as int)),
            decreases track_ids@.len() - i,
        {
            let ghost pre = ids.subrange(0, i as int);
            assert(ids.subrange(0, i + 1).drop_last() =~= pre);
            assert(ids.subrange(0, i + 1).last() == track_ids@[i as int]@);
            proof {
                lemma_fresh_map(m0, pre);
            }
            if !self.has_track(track_ids[i].as_str()) {
                let id = track_ids[i].clone();
                let ghost a0 = added@;
                added.push(track_ids[i].clone());
                self.put(id, None);
                assert(texts(added@) =~= a0.map_values(|s: String| s@).push(
                    track_ids@[i as int]@,
                ));
            }
            i = i + 1;
        }
        assert(ids.subrange(0, i as int) =~= ids);
        proof {
            lemma_fresh_map(m0, ids);
        }
        added
    }

    /// Records that `track_id` was announced as message `discord_id`.
    pub fn add_track_with_discord_info(
        &mut self,
        track_id: &str,
        discord_id: String,
        channel_id: Option<String>,
        user_id: Option<String>,
    )
        requires
            old(self).wf(),
        ensures
            final(self).wf(),
            final(self).path_of() == old(self).path_of(),
            final(self)@ == old(self)@.insert(
                track_id@,
                Some((discord_id@, opt_view(channel_id), opt_view(user_id))),
            ),
    {
        let info = DiscordMessage { id: discord_id, channel_id, user_id };
        self.put(crate::text::owned(track_id), Some(info));
    }

    /// The announcement of `track_id`, if it is known and linked.
    pub fn get_discord_info(&self, track_id: &str) -> (r: Option<DiscordMessage>)
        requires
            self.wf(),
        ensures
            opt_link_view(r) == match self@.get(track_id@) {
                Some(Some(l)) => Some(l),
                _ => None,
            },
    {
        proof {
            lemma_entries_dom(self.entries@, track_id@);
        }
        match self.position(track_id) {
            Some(i) => {
                proof {
                    lemma_entries_val(self.entries@, i as int);
                }
                match &self.entries[i].1 {
                    Some(m) => Some(
                        DiscordMessage {
                            id: m.id.clone(),
                            channel_id: clone_opt(&m.channel_id),
                            user_id: clone_opt(&m.user_id),
                        },
                    ),
                    None => None,
                }
            },
            None => None,
        }
    }

    /// The track announced as message `discord_id`, if any.
    pub fn find_track_by_discord_id(&self, discord_id: &str) -> (r: Option<String>)
        requires
            self.wf(),
        ensures
            r matches Some(t) ==> announced_as(self@, t@, discord_id@),
            r is None ==> forall|k: Seq<char>| !#[trigger] announced_as(self@, k, discord_id@),
    {
        let mut i: usize = 0;
        while i < self.entries.len()
            invariant
                self.wf(),
                i <= self.entries@.len(),
                forall|k: int| 0 <= k < i ==> !#[trigger] entry_announced(self.entries@[k], discord_id@),
            decreases self.entries@.len() - i,
        {
            match &self.entries[i].1 {
                Some(m) => {
                    if same_text(m.id.as_str(), discord_id) {
                        proof {
                            lemma_entries_val(self.entries@, i as int);
                        }
                        return Some(self.entries[i].0.clone());
                    }
                },
                None => {},
            }
            i = i + 1;
        }
        assert forall|k: Seq<char>| !#[trigger] announced_as(self@, k, discord_id@) by {
            lemma_entries_dom(self.entries@, k);
            if self@.contains_key(k) {
                let j = choose|j: int|
                    0 <= j < entry_keys(self.entries@).len() && entry_keys(self.entries@)[j] == k;
                lemma_entries_val(self.entries@, j);
                assert(!entry_announced(self.entries@[j], discord_id@));
            }
        }
        None
    }

    /// Marks the ids not yet known as known and unlinked, keeping every entry already there,
    /// and returns how many were added. The caller persists the store afterwards.
    pub fn initialize_with_tracks(&mut self, track_ids: &Vec<String>) -> (r: usize)
        requires
            old(self).wf(),
        ensures
            final(self).wf(),
            final(self).path_of() == old(self).path_of(),
            final(self)@ == fresh_map(old(self)@, texts(track_ids@)),
            r == fresh_ids(old(self)@, texts(track_ids@)).len(),
    {
        let added = self.add_tracks(track_ids);
        added.len()
    }

    /// Adds the new ids as `add_tracks` does; the flag says the store must now be persisted,
    /// which is so exactly when some id was new.
    pub fn add_tracks_and_save(&mut self, track_ids: &Vec<String>) -> (r: (Vec<String>, bool))
        requires
            old(self).wf(),
        ensures
            final(self).wf(),
            final(self).path_of() == old(self).path_of(),
            old(self)@.dom().subset_of(final(self)@.dom()),
            texts(r.0@) == fresh_ids(old(self)@, texts(track_ids@)),
            r.1 == (r.0@.len() > 0),
    {
        let added = self.add_tracks(track_ids);
        let save = added.len() > 0;
        (added, save)
    }

    /// The ids of the tracks listed that the store does not know, each once, in order.
    pub fn new_track_ids(&self, tracks: &Vec<Track>) -> (r: Vec<String>)
        requires
            self.wf(),
        ensures
            texts(r@) == fresh_ids(self@, track_ids_of(tracks@)),
    {
        let ghost ids = track_ids_of(tracks@);
        let mut out: Vec<String> = Vec::new();
        let mut i: usize = 0;
        while i < tracks.len()
            invariant
                self.wf(),
                ids == track_ids_of(tracks@),
                i <= tracks@.len(),
                texts(out@) == fresh_ids(self@, ids.subrange(0, i as int)),
            decreases tracks@.len() - i,
        {
            let ghost pre = ids.subrange(0, i as int);
            assert(ids.subrange(0, i + 1).drop_last() =~= pre);
            let id = &tracks[i].id;
            if !self.has_track(id.as_str()) && !contains_text(&out, id.as_str()) {
                let ghost o0 = out@;
                out.push(id.clone());
                assert(texts(out@) =~= o0.map_values(|s: String| s@).push(id@));
            }
            i = i + 1;
        }
        assert(ids.subrange(0, i as int) =~= ids);
        out
    }
}

fn clone_opt(o: &Option<String>) -> (r: Option<String>)
    ensures
        opt_view(r) == opt_view(*o),
{
    match o {
        Some(s) => Some(s.clone()),
        None => None,
    }
}

/// Whether some string of `v` holds the text `t`.
pub fn contains_text(v: &Vec<String>, t: &str) -> (r: bool)
    ensures
        r == texts(v@).contains(t@),
{
    let mut i: usize = 0;
    while i < v.len()
        invariant
            i <= v@.len(),
            forall|k: int| 0 <= k < i ==> v@[k]@ != t@,
        decreases v@.len() - i,
    {
        if same_text(v[i].as_str(), t) {
            assert(texts(v@)[i as int] == t@);
            return true;
        }
        i = i + 1;
    }
    assert forall|k: int| 0 <= k < v@.len() implies #[trigger] texts(v@)[k]
        != t@ by {
        assert(v@[k]@ != t@);
    }
    false
}

/// The ids of a list of tracks.
pub open spec fn track_ids_of(v: Seq<Track>) -> Seq<Seq<char>> {
    v.map_values(|t: Track| t.id@)
}

/// The ids of `ids` that `m` does not hold, each once, in order of first appearance.
pub open spec fn fresh_ids(m: Map<Seq<char>, Option<LinkView>>, ids: Seq<Seq<char>>) -> Seq<Seq<char>>
    decreases ids.len(),
{
    if ids.len() == 0 {
        Seq::empty()
    } else {
        let a = fresh_ids(m, ids.drop_last());
        let x = ids.last();
        if m.contains_key(x) || a.contains(x) {
            a
        } else {
            a.push(x)
        }
    }
}

/// `m` with each id of `ids` it lacks added, unlinked.
pub open spec fn fresh_map(m: Map<Seq<char>, Option<LinkView>>, ids: Seq<Seq<char>>) -> Map<
    Seq<char>,
    Option<LinkView>,
>
    decreases ids.len(),
{
    if ids.len() == 0 {
        m
    } else {
        let a = fresh_map(m, ids.drop_last());
        if a.contains_key(ids.last()) {
            a
        } else {
            a.insert(ids.last(), None)
        }
    }
}

proof fn lemma_fresh_map(m: Map<Seq<char>, Option<LinkView>>, ids: Seq<Seq<char>>)
    ensures
        m.dom().subset_of(fresh_map(m, ids).dom()),
        forall|k: Seq<char>| #[trigger] m.contains_key(k) ==> fresh_map(m, ids)[k] == m[k],
        forall|k: Seq<char>|
            #![trigger fresh_map(m, ids).contains_key(k)]
            !m.contains_key(k) ==> (fresh_map(m, ids).contains_key(k) <==> ids.contains(k)),
        forall|k: Seq<char>| #[trigger]
            fresh_map(m, ids).contains_key(k) && !m.contains_key(k) ==> fresh_map(m, ids)[k] is None,
        forall|k: Seq<char>|
            #![trigger fresh_ids(m, ids).contains(k)]
            fresh_ids(m, ids).contains(k) <==> (!m.contains_key(k) && ids.contains(k)),
    decreases ids.len(),
{
    if ids.len() > 0 {
        let t = ids.drop_last();
        lemma_fresh_map(m, t);
        assert forall|k: Seq<char>| ids.contains(k) <==> (t.contains(k) || k == ids.last()) by {
            if ids.contains(k) {
                let i = choose|i: int| 0 <= i < ids.len() && ids[i] == k;
                if i < ids.len() - 1 {
                    assert(t[i] == k);
                }
            }
            if t.contains(k) {
                let i = choose|i: int| 0 <= i < t.len() && t[i] == k;
                assert(ids[i] == k);
            }
        }
        let a = fresh_ids(m, t);
        assert forall|k: Seq<char>| a.push(ids.last()).contains(k) <==> (a.contains(k) || k == ids.last()) by {
            if a.push(ids.last()).contains(k) {
                let i = choose|i: int| 0 <= i < a.len() + 1 && a.push(ids.last())[i] == k;
                if i < a.len() {
                    assert(a[i] == k);
                }
            }
            if a.contains(k) {
                let i = choose|i: int| 0 <= i < a.len() && a[i] == k;
                assert(a.push(ids.last())[i] == k);
            }
            assert(a.push(ids.last())[a.len() as int] == ids.last());
        }
        assert forall|k: Seq<char>| #[trigger] fresh_ids(m, ids).contains(k) <==> (!m.contains_key(k)
            && ids.contains(k)) by {
            assert(a.contains(k) <==> (!m.contains_key(k) && t.contains(k)));
        }
        let f = fresh_map(m, t);
        assert forall|k: Seq<char>| !m.contains_key(k) implies (#[trigger] fresh_map(
            m,
            ids,
        ).contains_key(k) <==> ids.contains(k)) by {
            assert(f.contains_key(k) <==> t.contains(k));
        }
    }
}

/// A track recorded as announced is never selected as new again: the selection is made
/// against the store, which keeps the id.
pub proof fn lemma_announced_never_reselected(
    m: Map<Seq<char>, Option<LinkView>>,
    id: Seq<char>,
    link: LinkView,
    later: Seq<Seq<char>>,
)
    ensures
        !fresh_ids(m.insert(id, Some(link)), later).contains(id),
{
    lemma_fresh_map(m.insert(id, Some(link)), later);
}

/// A second pass over the same listing, once the first pass's new ids are stored, finds no new
/// id.
pub proof fn lemma_second_pass_finds_nothing(m: Map<Seq<char>, Option<LinkView>>, ids: Seq<Seq<char>>)
    ensures
        fresh_ids(fresh_map(m, ids), ids).len() == 0,
{
    let m2 = fresh_map(m, ids);
    lemma_fresh_map(m, ids);
    lemma_fresh_map(m2, ids);
    let f = fresh_ids(m2, ids);
    if f.len() > 0 {
        assert(f.contains(f[0]));
        if !m.contains_key(f[0]) {
            assert(m2.contains_key(f[0]));
        }
    }
}

/// Within a run the set of known ids only grows: adding new ids and linking an announcement both
/// keep every id already known, and adding new ids changes no known entry.
pub proof fn lemma_store_never_shrinks(
    m: Map<Seq<char>, Option<LinkView>>,
    ids: Seq<Seq<char>>,
    id: Seq<char>,
    link: Option<LinkView>,
)
    ensures
        m.dom().subset_of(fresh_map(m, ids).dom()),
        m.dom().subset_of(m.insert(id, link).dom()),
        forall|k: Seq<char>| #[trigger] m.contains_key(k) ==> fresh_map(m, ids)[k] == m[k],
{
    lemma_fresh_map(m, ids);
}

} // verus!
