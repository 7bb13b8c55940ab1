use vstd::prelude::*;

verus! {

/// The set of configured profile names, in the order they were first seen,
/// without duplicates.
pub struct ProfileSet {
    names: Vec<String>,
}

/// A change in the profiles directory, reduced to the file name it concerns.
pub enum WatchEvent {
    /// A file of that name was created.
    Created(String),
    /// A file of that name was removed.
    Removed(String),
    /// Any other kind of change, which leaves the set as it is.
    Other,
}

/// An entry of the profiles directory as the initial scan sees it: whether
/// it is a regular file, and its name when that name is text.
pub struct ScanEntry {
    pub is_file: bool,
    pub name: Option<String>,
}

impl View for ProfileSet {
    type V = Seq<Seq<char>>;

    closed spec fn view(&self) -> Seq<Seq<char>> {
        strings_view(self.names@)
    }
}

/// The characters of each string.
pub open spec fn strings_view(v: Seq<String>) -> Seq<Seq<char>> {
    v.map_values(|s: String| s@)
}

/// The names after adding `n`: unchanged when `n` is already there, else
/// `n` comes last.
pub open spec fn with_name(s: Seq<Seq<char>>, n: Seq<char>) -> Seq<Seq<char>> {
    if s.contains(n) {
        s
    } else {
        s.push(n)
    }
}

/// The names after taking `n` out.
pub open spec fn without_name(s: Seq<Seq<char>>, n: Seq<char>) -> Seq<Seq<char>> {
    if s.contains(n) {
        s.remove(s.index_of(n))
    } else {
        s
    }
}

/// The names after one directory change.
pub open spec fn after_event(s: Seq<Seq<char>>, e: WatchEvent) -> Seq<Seq<char>> {
    match e {
        WatchEvent::Created(n) => with_name(s, n@),
        WatchEvent::Removed(n) => without_name(s, n@),
        WatchEvent::Other => s,
    }
}

/// The names after a series of directory changes, applied in order.
pub open spec fn after_events(s: Seq<Seq<char>>, evs: Seq<WatchEvent>) -> Seq<Seq<char>>
    decreases evs.len(),
{
    if evs.len() == 0 {
        s
    } else {
        after_event(after_events(s, evs.drop_last()), evs.last())
    }
}

/// What the last change in `evs` that concerns `n` says of it: `Some(true)`
/// for a creation, `Some(false)` for a removal, nothing when none concerns it.
pub open spec fn last_word_on(evs: Seq<WatchEvent>, n: Seq<char>) -> Option<bool>
    decreases evs.len(),
{
    if evs.len() == 0 {
        None
    } else {
        match evs.last() {
            WatchEvent::Created(m) if m@ == n => Some(true),
            WatchEvent::Removed(m) if m@ == n => Some(false),
            _ => last_word_on(evs.drop_last(), n),
        }
    }
}

/// The names after the initial scan of `entries`: each regular file whose
/// name is text is added, in order.
pub open spec fn after_scan(s: Seq<Seq<char>>, entries: Seq<ScanEntry>) -> Seq<Seq<char>>
    decreases entries.len(),
{
    if entries.len() == 0 {
        s
    } else {
        let before = after_scan(s, entries.drop_last());
        let e = entries.last();
        match e.name {
            Some(n) if e.is_file => with_name(before, n@),
            _ => before,
        }
    }
}

/// Adding a name keeps the names unique and adds exactly that name.
pub proof fn lemma_with_name(s: Seq<Seq<char>>, n: Seq<char>)
    requires
        s.no_duplicates(),
    ensures
        with_name(s, n).no_duplicates(),
        forall|m: Seq<char>| #[trigger] with_name(s, n).contains(m) <==> (s.contains(m) || m == n),
{
    if !s.contains(n) {
        let t = s.push(n);
        assert forall|m: Seq<char>| #[trigger] t.contains(m) <==> (s.contains(m) || m == n) by {
            if t.contains(m) {
                let k = choose|k: int| 0 <= k < t.len() && t[k] == m;
                if k < s.len() {
                    assert(s[k] == m);
                }
            }
            if s.contains(m) {
                let k = choose|k: int| 0 <= k < s.len() && s[k] == m;
                assert(t[k] == m);
            }
            if m == n {
                assert(t[s.len() as int] == m);
            }
        }
    }
}

/// Taking a name out keeps the names unique and removes exactly that name.
pub proof fn lemma_without_name(s: Seq<Seq<char>>, n: Seq<char>)
    requires
        s.no_duplicates(),
    ensures
        without_name(s, n).no_duplicates(),
        forall|m: Seq<char>| #[trigger] without_name(s, n).contains(m) <==> (s.contains(m) && m != n),
{
    if s.contains(n) {
        let i = s.index_of(n);
        let t = s.remove(i);
        assert forall|m: Seq<char>| #[trigger] t.contains(m) <==> (s.contains(m) && m != n) by {
            if t.contains(m) {
                let k = choose|k: int| 0 <= k < t.len() && t[k] == m;
                if k < i {
                    assert(s[k] == m);
                } else {
                    assert(s[k + 1] == m);
                }
            }
            if s.contains(m) && m != n {
                let k = choose|k: int| 0 <= k < s.len() && s[k] == m;
                if k < i {
                    assert(t[k] == m);
                } else {
                    assert(k != i);
                    assert(t[k - 1] == m);
                }
            }
        }
    }
}

/// Directory changes never leave a name twice in the set, whatever their
/// order: after a series of creations and removals, a name is in the set
/// exactly when the last change that concerns it created it, or, when none
/// concerns it, when it was there before.
pub proof fn lemma_events_keep_names_unique(s: Seq<Seq<char>>, evs: Seq<WatchEvent>)
    requires
        s.no_duplicates(),
    ensures
        after_events(s, evs).no_duplicates(),
        forall|n: Seq<char>|
            #[trigger] after_events(s, evs).contains(n) <==> match last_word_on(evs, n) {
                Some(created) => created,
                None => s.contains(n),
            },
    decreases evs.len(),
{
    if evs.len() > 0 {
        let prev = evs.drop_last();
        lemma_events_keep_names_unique(s, prev);
        let mid = after_events(s, prev);
        match evs.last() {
            WatchEvent::Created(m) => {
                lemma_with_name(mid, m@);
            },
            WatchEvent::Removed(m) => {
                lemma_without_name(mid, m@);
            },
            WatchEvent::Other => {},
        }
        assert forall|n: Seq<char>|
            #[trigger] after_events(s, evs).contains(n) <==> match last_word_on(evs, n) {
                Some(created) => created,
                None => s.contains(n),
            } by {
            assert(mid.contains(n) <==> match last_word_on(prev, n) {
                Some(created) => created,
                None => s.contains(n),
            });
        }
    }
}

impl ProfileSet {
    /// No name is held twice.
    pub open spec fn wf(&self) -> bool {
        self@.no_duplicates()
    }

    /// An empty set.
    pub fn new() -> (r: ProfileSet)
        ensures
            r.wf(),
            r@ == Seq::<Seq<char>>::empty(),
    {
        let r = ProfileSet { names: Vec::new() };
        assert(r@ =~= Seq::<Seq<char>>::empty());
        r
    }

    /// Number of names.
    pub fn len(&self) -> (r: usize)
        ensures
            r == self@.len(),
    {
        self.names.len()
    }

    /// Finds the position of a name.
    fn position(&self, name: &String) -> (r: Option<usize>)
        ensures
            match r {
                Some(i) => i < self@.len() && self@[i as int] == name@,
                None => !self@.contains(name@),
            },
    {
        let mut i: usize = 0;
        while i < self.names.len()
            invariant
                i <= self.names@.len(),
                self@ == strings_view(self.names@),
                forall|k: int| 0 <= k < i ==> self@[k] != name@,
            decreases self.names@.len() - i,
        {
            if self.names[i] == *name {
                return Some(i);
            }
            i = i + 1;
        }
        None
    }

    /// Tells whether a name is in the set.
    pub fn contains(&self, name: &String) -> (r: bool)
        ensures
            r == self@.contains(name@),
    {
        match self.position(name) {
            Some(_) => true,
            None => false,
        }
    }

    /// Adds a name unless it is there already; tells whether it was added.
    pub fn insert(&mut self, name: String) -> (added: bool)
        requires
            old(self).wf(),
        ensures
            final(self).wf(),
            final(self)@ == with_name(old(self)@, name@),
            added == !old(self)@.contains(name@),
    {
        match self.position(&name) {
            Some(_) => false,
            None => {
                let ghost n = name@;
                self.names.push(name);
                assert(self@ =~= old(self)@.push(n));
                proof {
                    lemma_with_name(old(self)@, n);
                }
                true
            },
        }
    }

    /// Takes a name out; tells whether it was there.
    pub fn remove(&mut self, name: &String) -> (removed: bool)
        requires
            old(self).wf(),
        ensures
            final(self).wf(),
            final(self)@ == without_name(old(self)@, name@),
            removed == old(self)@.contains(name@),
    {
        match self.position(name) {
            Some(i) => {
                proof {
                    let j = old(self)@.index_of(name@);
                    assert(old(self)@[j] == name@);
                    assert(i == j);
                    lemma_without_name(old(self)@, name@);
                }
                self.names.remove(i);
                assert(self@ =~= old(self)@.remove(i as int));
                true
            },
            None => false,
        }
    }

    /// A copy of the names, in order.
    pub fn names(&self) -> (r: Vec<String>)
        ensures
            strings_view(r@) == self@,
    {
        let mut out: Vec<String> = Vec::new();
        let mut i: usize = 0;
        while i < self.names.len()
            invariant
                i <= self.names@.len(),
                self@ == strings_view(self.names@),
                strings_view(out@) == self@.take(i as int),
            decreases self.names@.len() - i,
        {
            let ghost prev = out@;
            out.push(self.names[i].clone());
            assert(strings_view(out@) =~= strings_view(prev).push(self@[i as int]));
            assert(strings_view(out@) =~= self@.take(i + 1));
            i = i + 1;
        }
        assert(self@.take(i as int) =~= self@);
        out
    }

    /// Applies one change of the profiles directory: a created file adds its
    /// name, a removed one takes its name out, anything else is ignored.
    pub fn apply_event(&mut self, event: &WatchEvent)
        requires
            old(self).wf(),
        ensures
            final(self).wf(),
            final(self)@ == after_event(old(self)@, *event),
    {
        match event {
            WatchEvent::Created(n) => {
                self.insert(n.clone());
            },
            WatchEvent::Removed(n) => {
                self.remove(n);
            },
            WatchEvent::Other => {},
        }
    }
}

/// Adds to the set the profiles that the initial scan of the profiles
/// directory found: each regular file whose name is text, in order.
pub fn scan_profiles(all_profiles: &mut ProfileSet, entries: &Vec<ScanEntry>)
    requires
        old(all_profiles).wf(),
    ensures
        final(all_profiles).wf(),
        final(all_profiles)@ == after_scan(old(all_profiles)@, entries@),
{
    let mut i: usize = 0;
    while i < entries.len()
        invariant
            i <= entries@.len(),
            all_profiles.wf(),
            all_profiles@ == after_scan(old(all_profiles)@, entries@.take(i as int)),
        decreases entries@.len() - i,
    {
        let e = &entries[i];
        assert(entries@.take(i + 1).drop_last() =~= entries@.take(i as int));
        if e.is_file {
            match &e.name {
                Some(n) => {
                    all_profiles.insert(n.clone());
                },
                None => {},
            }
        }
        i = i + 1;
    }
    assert(entries@.take(i as int) =~= entries@);
}

} // verus!
