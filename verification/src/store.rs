//! The sequential notification store: an append-only ordered sequence of
//! [`Notification`] values whose only mutable aspect is each entry's
//! `is_read` flag, together with the backward-stepping unread cursor.
//!
//! Every operation is specified against the store's view, a
//! `Seq<Notification>` in insertion order.

use crate::notification::Notification;
use vstd::pervasive::unreached;
use vstd::prelude::*;

verus! {

/// `n` with its `is_read` flag set, all other fields unchanged.
pub open spec fn read_of(n: Notification) -> Notification {
    Notification { is_read: true, ..n }
}

/// `n` with its `is_read` flag cleared, all other fields unchanged.
pub open spec fn unread_of(n: Notification) -> Notification {
    Notification { is_read: false, ..n }
}

/// Every entry of `s` is read; vacuously true of the empty sequence.
pub open spec fn all_read(s: Seq<Notification>) -> bool {
    forall|i: int| 0 <= i < s.len() ==> s[i].is_read
}

/// The number of unread entries of `s`.
pub open spec fn unread_count_of(s: Seq<Notification>) -> nat
    decreases s.len(),
{
    if s.len() == 0 {
        0
    } else {
        unread_count_of(s.drop_last()) + if s.last().is_read {
            0nat
        } else {
            1nat
        }
    }
}

/// `i` is the lowest index of an unread entry of `s`.
pub open spec fn is_first_unread(s: Seq<Notification>, i: int) -> bool {
    &&& 0 <= i < s.len()
    &&& !s[i].is_read
    &&& forall|j: int| 0 <= j < i ==> s[j].is_read
}

/// `i` is the highest index of an unread entry of `s`.
pub open spec fn is_last_unread(s: Seq<Notification>, i: int) -> bool {
    &&& 0 <= i < s.len()
    &&& !s[i].is_read
    &&& forall|j: int| i < j < s.len() ==> s[j].is_read
}

/// `i` is the lowest index of an entry of `s` whose id is `id`.
pub open spec fn is_first_match(s: Seq<Notification>, id: u32, i: int) -> bool {
    &&& 0 <= i < s.len()
    &&& s[i].id == id
    &&& forall|j: int| 0 <= j < i ==> s[j].id != id
}

/// The first entry with id `id` exists and is unread.
pub open spec fn spec_is_unread(s: Seq<Notification>, id: u32) -> bool {
    exists|i: int| is_first_match(s, id, i) && !s[i].is_read
}

/// The store after marking the last unread entry read: unchanged when every
/// entry is already read.
pub open spec fn mark_last_spec(s: Seq<Notification>) -> Seq<Notification> {
    if exists|i: int| is_last_unread(s, i) {
        let i = choose|i: int| is_last_unread(s, i);
        s.update(i, read_of(s[i]))
    } else {
        s
    }
}

/// The store after one cursor step, for a non-empty store.
///
/// When every entry is read, the step wraps around and marks the last entry
/// unread.  Otherwise it marks the lowest unread entry read and, unless that
/// entry was the first one, marks its predecessor unread.
pub open spec fn cursor_step_state(s: Seq<Notification>) -> Seq<Notification> {
    if all_read(s) {
        s.update(s.len() - 1, unread_of(s.last()))
    } else {
        let i = choose|i: int| is_first_unread(s, i);
        if i > 0 {
            s.update(i, read_of(s[i])).update(i - 1, unread_of(s[i - 1]))
        } else {
            s.update(0, read_of(s[0]))
        }
    }
}

/// Whether one cursor step on a non-empty store reports a further step:
/// false exactly when the lowest unread entry sits at index 0.
pub open spec fn cursor_step_continues(s: Seq<Notification>) -> bool {
    all_read(s) || (choose|i: int| is_first_unread(s, i)) > 0
}

/// The lowest unread index is unique.
pub proof fn lemma_first_unread_unique(s: Seq<Notification>, i: int, j: int)
    requires
        is_first_unread(s, i),
        is_first_unread(s, j),
    ensures
        i == j,
{
    if i < j {
        assert(s[i].is_read);
    }
    if j < i {
        assert(s[j].is_read);
    }
}

/// The highest unread index is unique.
pub proof fn lemma_last_unread_unique(s: Seq<Notification>, i: int, j: int)
    requires
        is_last_unread(s, i),
        is_last_unread(s, j),
    ensures
        i == j,
{
    if i < j {
        assert(s[j].is_read);
    }
    if j < i {
        assert(s[i].is_read);
    }
}

/// The lowest index matching an id is unique.
pub proof fn lemma_first_match_unique(s: Seq<Notification>, id: u32, i: int, j: int)
    requires
        is_first_match(s, id, i),
        is_first_match(s, id, j),
    ensures
        i == j,
{
    if i < j {
        assert(s[i].id != id);
    }
    if j < i {
        assert(s[j].id != id);
    }
}

proof fn lemma_last_unread_exists_above(s: Seq<Notification>, k: int)
    requires
        0 <= k < s.len(),
        !s[k].is_read,
    ensures
        exists|i: int| is_last_unread(s, i),
    decreases s.len() - k,
{
    if forall|j: int| k < j < s.len() ==> s[j].is_read {
        assert(is_last_unread(s, k));
    } else {
        let j = choose|j: int| k < j < s.len() && !s[j].is_read;
        lemma_last_unread_exists_above(s, j);
    }
}

/// A store with an unread entry has a highest unread index.
pub proof fn lemma_last_unread_exists(s: Seq<Notification>)
    requires
        !all_read(s),
    ensures
        exists|i: int| is_last_unread(s, i),
{
    let k = choose|k: int| 0 <= k < s.len() && !s[k].is_read;
    lemma_last_unread_exists_above(s, k);
}

/// The ordered store of notifications.
///
/// Entries are only ever appended and keep their insertion position for the
/// lifetime of the store; no operation removes one.
#[derive(Debug)]
pub struct Store {
    items: Vec<Notification>,
}

impl View for Store {
    type V = Seq<Notification>;

    closed spec fn view(&self) -> Seq<Notification> {
        self.items@
    }
}

impl Store {
    /// Creates an empty store.
    pub fn new() -> (store: Store)
        ensures
            store@ == Seq::<Notification>::empty(),
    {
        Store { items: Vec::new() }
    }

    /// The number of notifications held, read or not.
    pub fn len(&self) -> (n: usize)
        ensures
            n == self@.len(),
    {
        self.items.len()
    }

    /// A copy of the entry at `index`.
    pub fn get(&self, index: usize) -> (n: Notification)
        requires
            index < self@.len(),
        ensures
            n == self@[index as int],
    {
        self.items[index].clone()
    }

    /// Appends a notification at the end of the store.
    pub fn add(&mut self, notification: Notification)
        ensures
            final(self)@ == old(self)@.push(notification),
    {
        self.items.push(notification);
    }

    /// The number of unread notifications.
    pub fn get_unread_count(&self) -> (count: usize)
        ensures
            count == unread_count_of(self@),
    {
        let ghost s = self@;
        let mut count: usize = 0;
        let mut i: usize = 0;
        while i < self.items.len()
            invariant
                i <= s.len(),
                count <= i,
                self@ == s,
                count == unread_count_of(s.take(i as int)),
            decreases s.len() - i,
        {
            if !self.items[i].is_read {
                count = count + 1;
            }
            i = i + 1;
            proof {
                assert(s.take(i as int).drop_last() =~= s.take(i - 1));
            }
        }
        proof {
            assert(s.take(s.len() as int) =~= s);
        }
        count
    }

    /// Sets the `is_read` flag of the entry at `index`, leaving every other
    /// field and entry unchanged.
    fn set_read(&mut self, index: usize, read: bool)
        requires
            index < old(self)@.len(),
        ensures
            final(self)@ == old(self)@.update(
                index as int,
                if read {
                    read_of(old(self)@[index as int])
                } else {
                    unread_of(old(self)@[index as int])
                },
            ),
    {
        self.items[index].is_read = read;
    }

    /// The lowest unread index, or `None` when every entry is read.
    fn find_first_unread(&self) -> (r: Option<usize>)
        ensures
            match r {
                Some(i) => is_first_unread(self@, i as int),
                None => all_read(self@),
            },
    {
        let n = self.items.len();
        let mut idx: usize = 0;
        while idx < n
            invariant
                idx <= n,
                n == self@.len(),
                forall|j: int| 0 <= j < idx ==> self@[j].is_read,
            decreases n - idx,
        {
            if !self.items[idx].is_read {
                return Some(idx);
            }
            idx = idx + 1;
        }
        None
    }

    /// The highest unread index, or `None` when every entry is read.
    fn find_last_unread(&self) -> (r: Option<usize>)
        ensures
            match r {
                Some(i) => is_last_unread(self@, i as int),
                None => all_read(self@),
            },
    {
        let mut idx: usize = self.items.len();
        while idx > 0
            invariant
                idx <= self@.len(),
                forall|j: int| idx <= j < self@.len() ==> self@[j].is_read,
            decreases idx,
        {
            idx = idx - 1;
            if !self.items[idx].is_read {
                return Some(idx);
            }
        }
        None
    }

    /// The lowest index whose entry has id `id`, or `None` when no entry
    /// matches.
    fn find_first_match(&self, id: u32) -> (r: Option<usize>)
        ensures
            match r {
                Some(i) => is_first_match(self@, id, i as int),
                None => forall|j: int| 0 <= j < self@.len() ==> self@[j].id != id,
            },
    {
        let n = self.items.len();
        let mut idx: usize = 0;
        while idx < n
            invariant
                idx <= n,
                n == self@.len(),
                forall|j: int| 0 <= j < idx ==> self@[j].id != id,
            decreases n - idx,
        {
            if self.items[idx].id == id {
                return Some(idx);
            }
            idx = idx + 1;
        }
        None
    }

    /// A copy of the highest-index unread notification.
    ///
    /// The store must hold at least one unread entry; callers are expected
    /// to check `get_unread_count() > 0` first.
    pub fn get_last_unread(&self) -> (n: Notification)
        requires
            !all_read(self@),
        ensures
            !n.is_read,
            forall|i: int| is_last_unread(self@, i) ==> n == self@[i],
    {
        match self.find_last_unread() {
            Some(index) => {
                proof {
                    assert forall|i: int| is_last_unread(self@, i) implies self@[i]
                        == self@[index as int] by {
                        lemma_last_unread_unique(self@, i, index as int);
                    }
                }
                self.items[index].clone()
            },
            None => unreached(),
        }
    }

    /// Marks the highest-index unread notification read; does nothing when
    /// every entry is already read.
    pub fn mark_last_as_read(&mut self)
        ensures
            final(self)@ == mark_last_spec(old(self)@),
            all_read(old(self)@) ==> final(self)@ == old(self)@,
            forall|i: int| is_last_unread(old(self)@, i) ==> final(self)@ == old(self)@.update(
                i,
                read_of(old(self)@[i]),
            ),
    {
        let ghost s = self@;
        match self.find_last_unread() {
            Some(index) => {
                self.set_read(index, true);
                proof {
                    let i = choose|i: int| is_last_unread(s, i);
                    lemma_last_unread_unique(s, i, index as int);
                    assert forall|j: int| is_last_unread(s, j) implies self@ == s.update(
                        j,
                        read_of(s[j]),
                    ) by {
                        lemma_last_unread_unique(s, j, index as int);
                    }
                }
            },
            None => {
                proof {
                    if exists|i: int| is_last_unread(s, i) {
                        let i = choose|i: int| is_last_unread(s, i);
                        assert(s[i].is_read);
                    }
                }
            },
        }
    }

    /// One backward step of the unread cursor over a non-empty store.
    ///
    /// Wraps around when every entry is read (marking the last entry
    /// unread); otherwise marks the lowest unread entry read and exposes its
    /// predecessor as unread.  Returns false exactly when the lowest unread
    /// entry sat at index 0, so that no further step was possible.
    pub fn mark_next_as_unread(&mut self) -> (stepped: bool)
        requires
            old(self)@.len() > 0,
        ensures
            final(self)@ == cursor_step_state(old(self)@),
            stepped == cursor_step_continues(old(self)@),
            all_read(old(self)@) ==> stepped && final(self)@ == old(self)@.update(
                old(self)@.len() - 1,
                unread_of(old(self)@.last()),
            ),
            forall|i: int| #[trigger] is_first_unread(old(self)@, i) && i > 0 ==> stepped
                && final(self)@ == old(self)@.update(i, read_of(old(self)@[i])).update(
                i - 1,
                unread_of(old(self)@[i - 1]),
            ),
            is_first_unread(old(self)@, 0) ==> !stepped && final(self)@ == old(self)@.update(
                0,
                read_of(old(self)@[0]),
            ),
    {
        let ghost s = self@;
        match self.find_first_unread() {
            None => {
                let len = self.items.len();
                self.set_read(len - 1, false);
                proof {
                    assert forall|i: int| #[trigger]
                        is_first_unread(s, i) && i > 0 implies false by {
                        assert(s[i].is_read);
                    }
                }
                true
            },
            Some(index) => {
                self.set_read(index, true);
                proof {
                    let i = choose|i: int| is_first_unread(s, i);
                    lemma_first_unread_unique(s, i, index as int);
                }
                if index > 0 {
                    self.set_read(index - 1, false);
                    proof {
                        assert forall|i: int| #[trigger]
                            is_first_unread(s, i) && i > 0 implies self@ == s.update(
                            i,
                            read_of(s[i]),
                        ).update(i - 1, unread_of(s[i - 1])) by {
                            lemma_first_unread_unique(s, i, index as int);
                        }
                    }
                    true
                } else {
                    false
                }
            },
        }
    }

    /// Marks the first entry whose id is `id` read; does nothing when no
    /// entry matches.
    pub fn mark_as_read(&mut self, id: u32)
        ensures
            (forall|j: int| 0 <= j < old(self)@.len() ==> old(self)@[j].id != id) ==> final(self)@
                == old(self)@,
            forall|i: int| is_first_match(old(self)@, id, i) ==> final(self)@
                == old(self)@.update(i, read_of(old(self)@[i])),
    {
        let ghost s = self@;
        match self.find_first_match(id) {
            Some(index) => {
                self.set_read(index, true);
                proof {
                    assert forall|i: int| is_first_match(s, id, i) implies self@ == s.update(
                        i,
                        read_of(s[i]),
                    ) by {
                        lemma_first_match_unique(s, id, i, index as int);
                    }
                }
            },
            None => {},
        }
    }

    /// Marks every notification read.
    pub fn mark_all_as_read(&mut self)
        ensures
            final(self)@.len() == old(self)@.len(),
            forall|i: int| 0 <= i < old(self)@.len() ==> final(self)@[i] == read_of(
                old(self)@[i],
            ),
            all_read(final(self)@),
    {
        let ghost s = self@;
        let n = self.items.len();
        let mut idx: usize = 0;
        while idx < n
            invariant
                idx <= n,
                n == self@.len(),
                self@.len() == s.len(),
                forall|i: int| 0 <= i < idx ==> self@[i] == read_of(s[i]),
                forall|i: int| idx <= i < s.len() ==> self@[i] == s[i],
            decreases n - idx,
        {
            self.set_read(idx, true);
            idx = idx + 1;
        }
    }

    /// Whether the first entry with id `id` exists and is unread; false when
    /// the id is absent or its first match is read.
    pub fn is_unread(&self, id: u32) -> (unread: bool)
        ensures
            unread == spec_is_unread(self@, id),
    {
        match self.find_first_match(id) {
            Some(index) => {
                let r = !self.items[index].is_read;
                proof {
                    if !r {
                        if exists|i: int| is_first_match(self@, id, i) && !self@[i].is_read {
                            let i = choose|i: int| is_first_match(self@, id, i) && !self@[i].is_read;
                            lemma_first_match_unique(self@, id, i, index as int);
                        }
                    }
                }
                r
            },
            None => {
                proof {
                    if exists|i: int| is_first_match(self@, id, i) && !self@[i].is_read {
                        let i = choose|i: int| is_first_match(self@, id, i) && !self@[i].is_read;
                        assert(self@[i].id != id);
                    }
                }
                false
            },
        }
    }
}

/// A store never holds more unread entries than entries: however adds and
/// read-flag mutations from any number of handles interleave, the unread
/// count cannot exceed the number of notifications added so far.
pub proof fn lemma_unread_count_le_len(s: Seq<Notification>)
    ensures
        unread_count_of(s) <= s.len(),
    decreases s.len(),
{
    if s.len() > 0 {
        lemma_unread_count_le_len(s.drop_last());
    }
}

/// The unread count is zero exactly when every entry is read.
pub proof fn lemma_unread_count_zero_iff_all_read(s: Seq<Notification>)
    ensures
        unread_count_of(s) == 0 <==> all_read(s),
    decreases s.len(),
{
    if s.len() > 0 {
        lemma_unread_count_zero_iff_all_read(s.drop_last());
        assert(forall|i: int| 0 <= i < s.len() - 1 ==> s.drop_last()[i] == s[i]);
        if all_read(s) {
            assert(all_read(s.drop_last()));
        }
        if unread_count_of(s) == 0 {
            assert(all_read(s.drop_last()));
            assert(forall|i: int| 0 <= i < s.len() - 1 ==> s[i].is_read);
            assert(s.last().is_read);
        }
    }
}

/// Appending a notification raises the unread count by one exactly when the
/// appended notification is unread: a sequence of `add` calls of unread
/// notifications raises the count once per call.
pub proof fn lemma_unread_count_push(s: Seq<Notification>, n: Notification)
    ensures
        unread_count_of(s.push(n)) == unread_count_of(s) + if n.is_read {
            0nat
        } else {
            1nat
        },
{
    assert(s.push(n).drop_last() =~= s);
}

/// While no entry has been marked read, the unread count equals the number
/// of notifications added so far.
pub proof fn lemma_unread_count_all_unread(s: Seq<Notification>)
    requires
        forall|i: int| 0 <= i < s.len() ==> !s[i].is_read,
    ensures
        unread_count_of(s) == s.len(),
    decreases s.len(),
{
    if s.len() > 0 {
        assert(forall|i: int| 0 <= i < s.len() - 1 ==> s.drop_last()[i] == s[i]);
        lemma_unread_count_all_unread(s.drop_last());
    }
}

/// Once every entry is read, the unread count is zero and no id reports
/// unread.
pub proof fn lemma_all_read_nothing_unread(s: Seq<Notification>)
    requires
        all_read(s),
    ensures
        unread_count_of(s) == 0,
        forall|id: u32| !spec_is_unread(s, id),
{
    lemma_unread_count_zero_iff_all_read(s);
    assert forall|id: u32| !spec_is_unread(s, id) by {
        if exists|i: int| is_first_match(s, id, i) && !s[i].is_read {
            let i = choose|i: int| is_first_match(s, id, i) && !s[i].is_read;
            assert(s[i].is_read);
        }
    }
}

/// Marking an unread entry read lowers the unread count by exactly one.
pub proof fn lemma_unread_count_set_read(s: Seq<Notification>, i: int)
    requires
        0 <= i < s.len(),
        !s[i].is_read,
    ensures
        unread_count_of(s.update(i, read_of(s[i]))) + 1 == unread_count_of(s),
    decreases s.len(),
{
    let t = s.update(i, read_of(s[i]));
    if i == s.len() - 1 {
        assert(t.drop_last() =~= s.drop_last());
    } else {
        assert(s.drop_last()[i] == s[i]);
        assert(t.drop_last() =~= s.drop_last().update(i, read_of(s.drop_last()[i])));
        assert(t.last() == s.last());
        lemma_unread_count_set_read(s.drop_last(), i);
    }
}

/// The store after `steps` cursor steps.
pub open spec fn cursor_walk(s: Seq<Notification>, steps: nat) -> Seq<Notification>
    decreases steps,
{
    if steps == 0 {
        s
    } else {
        cursor_step_state(cursor_walk(s, (steps - 1) as nat))
    }
}

proof fn lemma_cursor_walk_shape(s: Seq<Notification>, j: int, k: int)
    requires
        is_first_unread(s, j),
        0 <= k <= j,
    ensures
        cursor_walk(s, k as nat) =~= s.update(j, read_of(s[j])).update(
            j - k,
            unread_of(s[j - k]),
        ),
        is_first_unread(cursor_walk(s, k as nat), j - k),
    decreases k,
{
    if k == 0 {
        assert(unread_of(s[j]) =~= s[j]);
        assert(s.update(j, read_of(s[j])).update(j, unread_of(s[j])) =~= s);
    } else {
        lemma_cursor_walk_shape(s, j, k - 1);
        let prev = cursor_walk(s, (k - 1) as nat);
        let cur = j - k + 1;
        assert(is_first_unread(prev, cur));
        assert(!all_read(prev));
        let i = choose|i: int| is_first_unread(prev, i);
        lemma_first_unread_unique(prev, i, cur);
        assert(cursor_walk(s, k as nat) == prev.update(cur, read_of(prev[cur])).update(
            cur - 1,
            unread_of(prev[cur - 1]),
        ));
        assert(prev[cur - 1] == s[j - k]);
        if cur < j {
            assert(s[cur].is_read);
            assert(read_of(prev[cur]) =~= s[cur]);
        } else {
            assert(read_of(prev[cur]) =~= read_of(s[j]));
        }
        assert(cursor_walk(s, k as nat) =~= s.update(j, read_of(s[j])).update(
            j - k,
            unread_of(s[j - k]),
        ));
    }
}

/// Cursor termination: when the lowest unread entry of a store sits at
/// index `j`, repeated cursor steps report a further step exactly `j`
/// times, the following step reports none, and the store is then the
/// original with entry `j` read — every slot the walk visited in between
/// has been flipped back.
pub proof fn lemma_cursor_termination(s: Seq<Notification>, j: int)
    requires
        is_first_unread(s, j),
    ensures
        forall|k: int| 0 <= k < j ==> cursor_step_continues(#[trigger] cursor_walk(s, k as nat)),
        !cursor_step_continues(cursor_walk(s, j as nat)),
        cursor_walk(s, (j + 1) as nat) == s.update(j, read_of(s[j])),
{
    assert forall|k: int| 0 <= k < j implies cursor_step_continues(
        #[trigger] cursor_walk(s, k as nat),
    ) by {
        lemma_cursor_walk_shape(s, j, k);
        let w = cursor_walk(s, k as nat);
        assert(!all_read(w));
        let i = choose|i: int| is_first_unread(w, i);
        lemma_first_unread_unique(w, i, j - k);
    }
    lemma_cursor_walk_shape(s, j, j);
    let w = cursor_walk(s, j as nat);
    assert(is_first_unread(w, 0));
    assert(!all_read(w));
    let i = choose|i: int| is_first_unread(w, i);
    lemma_first_unread_unique(w, i, 0);
    assert(cursor_walk(s, (j + 1) as nat) == w.update(0, read_of(w[0])));
    if j > 0 {
        assert(s[0].is_read);
        assert(read_of(w[0]) =~= s[0]);
        assert(cursor_walk(s, (j + 1) as nat) =~= s.update(j, read_of(s[j])));
    } else {
        assert(w =~= s);
        assert(cursor_walk(s, (j + 1) as nat) =~= s.update(0, read_of(s[0])));
    }
}

/// Marking the last unread entry read is idempotent when the store holds
/// exactly one unread entry: the second pass finds nothing unread and leaves
/// the store unchanged.
pub proof fn lemma_mark_last_idempotent(s: Seq<Notification>)
    requires
        unread_count_of(s) == 1,
    ensures
        mark_last_spec(mark_last_spec(s)) == mark_last_spec(s),
{
    lemma_unread_count_zero_iff_all_read(s);
    lemma_last_unread_exists(s);
    let i = choose|i: int| is_last_unread(s, i);
    let t = s.update(i, read_of(s[i]));
    assert(mark_last_spec(s) == t);
    lemma_unread_count_set_read(s, i);
    lemma_unread_count_zero_iff_all_read(t);
    if exists|j: int| is_last_unread(t, j) {
        let j = choose|j: int| is_last_unread(t, j);
        assert(t[j].is_read);
    }
}

} // verus!
