//! The download queue.
use crate::config::QueueLimits;
use crate::hash::InfoHash;
use vstd::prelude::*;

verus! {

/// Waiting torrents in order, and those that start ahead of the order and of the limits on
/// starting by themselves.
#[derive(Debug)]
pub struct QueueState {
    pub limits: QueueLimits,
    pub order: Vec<InfoHash>,
    pub bypass: Vec<InfoHash>,
}

/// A queue as a value.
pub struct QueueView {
    pub limits: QueueLimits,
    pub order: Seq<InfoHash>,
    pub bypass: Seq<InfoHash>,
}

/// Where a torrent stood in the queue.
#[derive(Clone, Copy, PartialEq, Eq, Structural, Debug)]
pub struct QueueMembership {
    pub order: Option<usize>,
    pub bypass: Option<usize>,
}

impl View for QueueState {
    type V = QueueView;

    open spec fn view(&self) -> QueueView {
        QueueView { limits: self.limits, order: self.order@, bypass: self.bypass@ }
    }
}

impl QueueView {
    /// No torrent stands in a list twice.
    pub open spec fn wf(self) -> bool {
        self.order.no_duplicates() && self.bypass.no_duplicates()
    }
}

/// Every torrent but one.
pub open spec fn other_than(hash: InfoHash) -> spec_fn(InfoHash) -> bool {
    |other: InfoHash| other != hash
}

/// Every torrent that is not listed.
pub open spec fn none_of(hashes: Seq<InfoHash>) -> spec_fn(InfoHash) -> bool {
    |other: InfoHash| !hashes.contains(other)
}

/// A list without one torrent.
pub open spec fn without(list: Seq<InfoHash>, hash: InfoHash) -> Seq<InfoHash> {
    list.filter(other_than(hash))
}

/// A list without some torrents.
pub open spec fn without_all(list: Seq<InfoHash>, hashes: Seq<InfoHash>) -> Seq<InfoHash> {
    list.filter(none_of(hashes))
}

/// A list with a torrent at its end, where it was not in it.
pub open spec fn appended(list: Seq<InfoHash>, hash: InfoHash) -> Seq<InfoHash> {
    if list.contains(hash) {
        list
    } else {
        list.push(hash)
    }
}

/// A list with some torrents at its end, each where it was not in it.
pub open spec fn appended_all(list: Seq<InfoHash>, hashes: Seq<InfoHash>) -> Seq<InfoHash>
    decreases hashes.len(),
{
    if hashes.len() == 0 {
        list
    } else {
        appended(appended_all(list, hashes.drop_last()), hashes.last())
    }
}

/// A list with a torrent of it moved to its end.
pub open spec fn sunk(list: Seq<InfoHash>, hash: InfoHash) -> Seq<InfoHash> {
    if list.contains(hash) {
        without(list, hash).push(hash)
    } else {
        list
    }
}

/// A list with torrents of it moved to its end, one after the other.
pub open spec fn sunk_all(list: Seq<InfoHash>, hashes: Seq<InfoHash>) -> Seq<InfoHash>
    decreases hashes.len(),
{
    if hashes.len() == 0 {
        list
    } else {
        sunk(sunk_all(list, hashes.drop_last()), hashes.last())
    }
}

/// A list with a torrent of it moved to its front.
pub open spec fn raised(list: Seq<InfoHash>, hash: InfoHash) -> Seq<InfoHash> {
    if list.contains(hash) {
        seq![hash] + without(list, hash)
    } else {
        list
    }
}

/// A list with two neighbours exchanged.
pub open spec fn exchanged(list: Seq<InfoHash>, first: int) -> Seq<InfoHash> {
    list.update(first, list[first + 1]).update(first + 1, list[first])
}

/// A list with a torrent put back to where it stood.
pub open spec fn put_back(
    list: Seq<InfoHash>,
    hash: InfoHash,
    place: Option<usize>,
) -> Seq<InfoHash> {
    let others = without(list, hash);
    match place {
        None => others,
        Some(at) => others.insert(
            if at <= others.len() {
                at as int
            } else {
                others.len() as int
            },
            hash,
        ),
    }
}

/// Where a torrent stands in a list.
pub open spec fn place_of(list: Seq<InfoHash>, hash: InfoHash) -> Option<usize> {
    if list.contains(hash) {
        Some(list.index_of(hash) as usize)
    } else {
        None
    }
}

/// The place of a torrent in a list.
pub fn find_hash(list: &Vec<InfoHash>, hash: &InfoHash) -> (place: Option<usize>)
    requires
        list@.no_duplicates(),
    ensures
        place.is_some() == list@.contains(*hash),
        place == place_of(list@, *hash),
        place matches Some(at) ==> at < list@.len() && list@[at as int] == *hash,
{
    let mut i: usize = 0;
    while i < list.len()
        invariant
            i <= list.len(),
            list@.no_duplicates(),
            forall|k: int| 0 <= k < i ==> #[trigger] list@[k] != *hash,
        decreases list.len() - i,
    {
        if list[i] == *hash {
            assert(list@.contains(*hash));
            assert(list@.index_of(*hash) == i);
            return Some(i);
        }
        i = i + 1;
    }
    None
}

/// Whether a list holds a torrent.
pub fn contains_hash(list: &Vec<InfoHash>, hash: &InfoHash) -> (present: bool)
    ensures
        present == list@.contains(*hash),
{
    let mut i: usize = 0;
    while i < list.len()
        invariant
            i <= list.len(),
            forall|k: int| 0 <= k < i ==> #[trigger] list@[k] != *hash,
        decreases list.len() - i,
    {
        if list[i] == *hash {
            assert(list@[i as int] == *hash);
            return true;
        }
        i = i + 1;
    }
    false
}

/// A list without some torrents.
pub fn drop_hashes(list: &Vec<InfoHash>, hashes: &Vec<InfoHash>) -> (kept: Vec<InfoHash>)
    ensures
        kept@ == without_all(list@, hashes@),
{
    let mut kept: Vec<InfoHash> = Vec::new();
    let ghost keep = none_of(hashes@);
    let mut i: usize = 0;
    assert(list@.take(0).filter(keep) =~= kept@) by {
        reveal(Seq::filter);
    }
    while i < list.len()
        invariant
            i <= list.len(),
            keep == none_of(hashes@),
            kept@ == list@.take(i as int).filter(keep),
        decreases list.len() - i,
    {
        proof {
            reveal(Seq::filter);
            assert(list@.take(i + 1).drop_last() =~= list@.take(i as int));
            assert(list@.take(i + 1).last() == list@[i as int]);
        }
        let hash: InfoHash = list[i];
        if !contains_hash(hashes, &hash) {
            kept.push(hash);
        }
        i = i + 1;
    }
    assert(list@.take(i as int) =~= list@);
    kept
}

/// A list without one torrent.
pub fn drop_hash(list: &Vec<InfoHash>, hash: &InfoHash) -> (kept: Vec<InfoHash>)
    ensures
        kept@ == without(list@, *hash),
{
    let mut kept: Vec<InfoHash> = Vec::new();
    let ghost keep = other_than(*hash);
    let mut i: usize = 0;
    assert(list@.take(0).filter(keep) =~= kept@) by {
        reveal(Seq::filter);
    }
    while i < list.len()
        invariant
            i <= list.len(),
            keep == other_than(*hash),
            kept@ == list@.take(i as int).filter(keep),
        decreases list.len() - i,
    {
        proof {
            reveal(Seq::filter);
            assert(list@.take(i + 1).drop_last() =~= list@.take(i as int));
            assert(list@.take(i + 1).last() == list@[i as int]);
        }
        let other: InfoHash = list[i];
        if other != *hash {
            kept.push(other);
        }
        i = i + 1;
    }
    assert(list@.take(i as int) =~= list@);
    kept
}

/// What a filter keeps of a list without repetitions.
pub proof fn lemma_filter(list: Seq<InfoHash>, keep: spec_fn(InfoHash) -> bool)
    requires
        list.no_duplicates(),
    ensures
        list.filter(keep).no_duplicates(),
        forall|hash: InfoHash| #[trigger]
            list.filter(keep).contains(hash) == (list.contains(hash) && keep(hash)),
        list.filter(keep).len() <= list.len(),
    decreases list.len(),
{
    reveal(Seq::filter);
    if list.len() > 0 {
        let rest = list.drop_last();
        let last = list.last();
        assert(rest.no_duplicates());
        lemma_filter(rest, keep);
        assert forall|hash: InfoHash| #[trigger] list.filter(keep).contains(hash) == (
        list.contains(hash) && keep(hash)) by {
            if list.contains(hash) {
                let at = list.index_of(hash);
                if at < rest.len() {
                    assert(rest[at] == hash);
                    assert(rest.contains(hash));
                }
            }
            if rest.contains(hash) {
                let at = rest.index_of(hash);
                assert(list[at] == hash);
            }
            assert(list[list.len() - 1] == last);
            if keep(last) {
                let grown = rest.filter(keep).push(last);
                assert(list.filter(keep) == grown);
                if grown.contains(hash) {
                    let at = grown.index_of(hash);
                    if at < grown.len() - 1 {
                        assert(rest.filter(keep)[at] == hash);
                        assert(rest.filter(keep).contains(hash));
                    }
                }
                if rest.filter(keep).contains(hash) {
                    let at = rest.filter(keep).index_of(hash);
                    assert(grown[at] == hash);
                }
                if hash == last {
                    assert(grown[grown.len() - 1] == hash);
                }
            }
        }
        if rest.filter(keep).contains(last) {
            assert(rest.contains(last));
            let at = rest.index_of(last);
            assert(list[at] == list[list.len() - 1]);
        }
    }
}

proof fn lemma_push_distinct(list: Seq<InfoHash>, hash: InfoHash)
    requires
        list.no_duplicates(),
        !list.contains(hash),
    ensures
        list.push(hash).no_duplicates(),
        forall|other: InfoHash| #[trigger]
            list.push(hash).contains(other) == (other == hash || list.contains(other)),
{
    let grown = list.push(hash);
    assert forall|i: int, j: int|
        0 <= i < grown.len() && 0 <= j < grown.len() && i != j implies grown[i] != grown[j] by {
        if i < list.len() {
            assert(list.contains(list[i]));
        }
        if j < list.len() {
            assert(list.contains(list[j]));
        }
    }
    assert forall|other: InfoHash| #[trigger] grown.contains(other) == (other == hash
        || list.contains(other)) by {
        if list.contains(other) {
            assert(grown[list.index_of(other)] == other);
        }
        assert(grown[list.len() as int] == hash);
        if grown.contains(other) && other != hash {
            let i = grown.index_of(other);
            assert(list[i] == other);
        }
    }
}

/// Appending keeps a list free of repetitions.
pub proof fn lemma_appended(list: Seq<InfoHash>, hash: InfoHash)
    requires
        list.no_duplicates(),
    ensures
        appended(list, hash).no_duplicates(),
        forall|other: InfoHash| #[trigger]
            appended(list, hash).contains(other) == (other == hash || list.contains(other)),
{
    if !list.contains(hash) {
        lemma_push_distinct(list, hash);
    }
}

/// Moving to the end keeps the members of a list.
pub proof fn lemma_sunk(list: Seq<InfoHash>, hash: InfoHash)
    requires
        list.no_duplicates(),
    ensures
        sunk(list, hash).no_duplicates(),
        forall|other: InfoHash| #[trigger]
            sunk(list, hash).contains(other) == list.contains(other),
        list.contains(hash) ==> sunk(list, hash).last() == hash,
{
    if list.contains(hash) {
        lemma_filter(list, other_than(hash));
        lemma_push_distinct(without(list, hash), hash);
    }
}

proof fn lemma_raised(list: Seq<InfoHash>, hash: InfoHash)
    requires
        list.no_duplicates(),
    ensures
        raised(list, hash).no_duplicates(),
        forall|other: InfoHash| #[trigger]
            raised(list, hash).contains(other) == list.contains(other),
{
    if list.contains(hash) {
        let rest = without(list, hash);
        lemma_filter(list, other_than(hash));
        let moved = raised(list, hash);
        assert forall|i: int, j: int|
            0 <= i < moved.len() && 0 <= j < moved.len() && i != j implies moved[i] != moved[j] by {
            if i > 0 {
                assert(rest.contains(rest[i - 1]));
            }
            if j > 0 {
                assert(rest.contains(rest[j - 1]));
            }
        }
        assert forall|other: InfoHash| #[trigger] moved.contains(other) == list.contains(other) by {
            if rest.contains(other) {
                assert(moved[rest.index_of(other) + 1] == other);
            }
            assert(moved[0] == hash);
            if moved.contains(other) && other != hash {
                let i = moved.index_of(other);
                assert(rest[i - 1] == other);
                assert(rest.contains(other));
            }
        }
    }
}

proof fn lemma_exchanged(list: Seq<InfoHash>, first: int)
    requires
        list.no_duplicates(),
        0 <= first < list.len() - 1,
    ensures
        exchanged(list, first).no_duplicates(),
{
    let moved = exchanged(list, first);
    assert forall|i: int, j: int|
        0 <= i < moved.len() && 0 <= j < moved.len() && i != j implies moved[i] != moved[j] by {
        let a = if i == first { first + 1 } else if i == first + 1 { first } else { i };
        let b = if j == first { first + 1 } else if j == first + 1 { first } else { j };
        assert(moved[i] == list[a] && moved[j] == list[b] && a != b);
    }
}

proof fn lemma_put_back(list: Seq<InfoHash>, hash: InfoHash, place: Option<usize>)
    requires
        list.no_duplicates(),
    ensures
        put_back(list, hash, place).no_duplicates(),
{
    let others = without(list, hash);
    lemma_filter(list, other_than(hash));
    if let Some(at) = place {
        let place: int = if at <= others.len() { at as int } else { others.len() as int };
        let grown = others.insert(place, hash);
        assert forall|i: int, j: int|
            0 <= i < grown.len() && 0 <= j < grown.len() && i != j implies grown[i] != grown[j] by {
            let a = if i < place { i } else { i - 1 };
            let b = if j < place { j } else { j - 1 };
            if i != place {
                assert(grown[i] == others[a]);
                assert(others.contains(others[a]));
            }
            if j != place {
                assert(grown[j] == others[b]);
                assert(others.contains(others[b]));
            }
        }
    }
}

proof fn lemma_without_absent(list: Seq<InfoHash>, hash: InfoHash)
    requires
        !list.contains(hash),
    ensures
        without(list, hash) == list,
    decreases list.len(),
{
    reveal(Seq::filter);
    if list.len() > 0 {
        let rest = list.drop_last();
        assert(list.contains(list.last()));
        if rest.contains(hash) {
            assert(list[rest.index_of(hash)] == hash);
        }
        lemma_without_absent(rest, hash);
        assert(rest.push(list.last()) =~= list);
    } else {
        assert(without(list, hash) =~= list);
    }
}

proof fn lemma_without_present(list: Seq<InfoHash>, hash: InfoHash)
    requires
        list.no_duplicates(),
        list.contains(hash),
    ensures
        without(list, hash) == list.remove(list.index_of(hash)),
    decreases list.len(),
{
    reveal(Seq::filter);
    let at = list.index_of(hash);
    let rest = list.drop_last();
    if at == list.len() - 1 {
        assert(!rest.contains(hash)) by {
            if rest.contains(hash) {
                let i = rest.index_of(hash);
                assert(list[i] == list[at]);
            }
        }
        lemma_without_absent(rest, hash);
        assert(list.remove(at) =~= rest);
    } else {
        assert(rest[at] == hash);
        assert(rest.contains(hash));
        assert(rest.index_of(hash) == at);
        lemma_without_present(rest, hash);
        assert(list.last() != hash);
        assert(list.remove(at) =~= rest.remove(at).push(list.last()));
    }
}

/// Putting a torrent back to where it stood undoes any adding or removing of it in between.
pub proof fn putting_back_restores(list: Seq<InfoHash>, changed: Seq<InfoHash>, hash: InfoHash)
    requires
        list.no_duplicates(),
        list.len() <= usize::MAX,
        without(changed, hash) == without(list, hash),
    ensures
        put_back(changed, hash, place_of(list, hash)) == list,
{
    if list.contains(hash) {
        let at = list.index_of(hash);
        lemma_without_present(list, hash);
        assert(list.remove(at).insert(at, hash) =~= list);
    } else {
        lemma_without_absent(list, hash);
    }
}

/// Adding a torrent does not move the others.
pub proof fn adding_keeps_the_others(list: Seq<InfoHash>, hash: InfoHash)
    ensures
        without(appended(list, hash), hash) == without(list, hash),
{
    reveal(Seq::filter);
    if !list.contains(hash) {
        assert(list.push(hash).drop_last() =~= list);
    }
}

impl QueueState {
    pub fn new(limits: QueueLimits) -> (queue: QueueState)
        ensures
            queue@.wf(),
            queue@ == (QueueView {
                limits,
                order: Seq::<InfoHash>::empty(),
                bypass: Seq::<InfoHash>::empty(),
            }),
    {
        QueueState { limits, order: Vec::new(), bypass: Vec::new() }
    }

    /// Puts a torrent at the end of the order, unless it is in it.
    pub fn add(&mut self, hash: InfoHash)
        requires
            old(self)@.wf(),
        ensures
            final(self)@.wf(),
            final(self)@ == (QueueView { order: appended(old(self)@.order, hash), ..old(self)@ }),
    {
        proof {
            lemma_appended(self.order@, hash);
        }
        if !contains_hash(&self.order, &hash) {
            self.order.push(hash);
        }
    }

    /// Puts torrents at the end of the order, each unless it is in it.
    pub fn add_many(&mut self, hashes: &Vec<InfoHash>)
        requires
            old(self)@.wf(),
        ensures
            final(self)@.wf(),
            final(self)@ == (QueueView {
                order: appended_all(old(self)@.order, hashes@),
                ..old(self)@
            }),
    {
        let ghost before = self@;
        let mut i: usize = 0;
        while i < hashes.len()
            invariant
                i <= hashes.len(),
                self@.wf(),
                self@ == (QueueView {
                    order: appended_all(before.order, hashes@.take(i as int)),
                    ..before
                }),
            decreases hashes.len() - i,
        {
            assert(hashes@.take(i + 1).drop_last() =~= hashes@.take(i as int));
            self.add(hashes[i]);
            i = i + 1;
        }
        assert(hashes@.take(i as int) =~= hashes@);
    }

    /// Takes torrents out of the queue.
    pub fn remove_many(&mut self, hashes: &Vec<InfoHash>)
        requires
            old(self)@.wf(),
        ensures
            final(self)@.wf(),
            final(self)@ == (QueueView {
                order: without_all(old(self)@.order, hashes@),
                bypass: without_all(old(self)@.bypass, hashes@),
                ..old(self)@
            }),
    {
        proof {
            lemma_filter(self.order@, none_of(hashes@));
            lemma_filter(self.bypass@, none_of(hashes@));
        }
        let order: Vec<InfoHash> = drop_hashes(&self.order, hashes);
        let bypass: Vec<InfoHash> = drop_hashes(&self.bypass, hashes);
        self.order = order;
        self.bypass = bypass;
    }

    /// Lets a torrent start ahead of the order.
    pub fn start_now(&mut self, hash: &InfoHash)
        requires
            old(self)@.wf(),
        ensures
            final(self)@.wf(),
            final(self)@ == (QueueView { bypass: appended(old(self)@.bypass, *hash), ..old(self)@ }),
    {
        proof {
            lemma_appended(self.bypass@, *hash);
        }
        if !contains_hash(&self.bypass, hash) {
            self.bypass.push(*hash);
        }
    }

    /// Lets a torrent wait its turn again.
    pub fn clear_bypass(&mut self, hash: &InfoHash)
        requires
            old(self)@.wf(),
        ensures
            final(self)@.wf(),
            final(self)@ == (QueueView { bypass: without(old(self)@.bypass, *hash), ..old(self)@ }),
    {
        proof {
            lemma_filter(self.bypass@, other_than(*hash));
        }
        let bypass: Vec<InfoHash> = drop_hash(&self.bypass, hash);
        self.bypass = bypass;
    }

    /// Lets torrents wait their turn again.
    pub fn clear_bypass_many(&mut self, hashes: &Vec<InfoHash>)
        requires
            old(self)@.wf(),
        ensures
            final(self)@.wf(),
            final(self)@ == (QueueView {
                bypass: without_all(old(self)@.bypass, hashes@),
                ..old(self)@
            }),
    {
        proof {
            lemma_filter(self.bypass@, none_of(hashes@));
        }
        let bypass: Vec<InfoHash> = drop_hashes(&self.bypass, hashes);
        self.bypass = bypass;
    }

    /// Moves a torrent to the end of the order.
    pub fn move_to_bottom(&mut self, hash: &InfoHash)
        requires
            old(self)@.wf(),
        ensures
            final(self)@.wf(),
            final(self)@ == (QueueView { order: sunk(old(self)@.order, *hash), ..old(self)@ }),
    {
        proof {
            lemma_sunk(self.order@, *hash);
        }
        if contains_hash(&self.order, hash) {
            let mut order: Vec<InfoHash> = drop_hash(&self.order, hash);
            order.push(*hash);
            self.order = order;
        }
    }

    /// Moves torrents to the end of the order, one after the other.
    pub fn move_many_to_bottom(&mut self, hashes: &Vec<InfoHash>)
        requires
            old(self)@.wf(),
        ensures
            final(self)@.wf(),
            final(self)@ == (QueueView { order: sunk_all(old(self)@.order, hashes@), ..old(self)@ }),
    {
        let ghost before = self@;
        let mut i: usize = 0;
        while i < hashes.len()
            invariant
                i <= hashes.len(),
                self@.wf(),
                self@ == (QueueView {
                    order: sunk_all(before.order, hashes@.take(i as int)),
                    ..before
                }),
            decreases hashes.len() - i,
        {
            assert(hashes@.take(i + 1).drop_last() =~= hashes@.take(i as int));
            self.move_to_bottom(&hashes[i]);
            i = i + 1;
        }
        assert(hashes@.take(i as int) =~= hashes@);
    }

    /// Moves a torrent to the front of the order.
    pub fn move_to_top(&mut self, hash: &InfoHash)
        requires
            old(self)@.wf(),
        ensures
            final(self)@.wf(),
            final(self)@ == (QueueView { order: raised(old(self)@.order, *hash), ..old(self)@ }),
    {
        proof {
            lemma_raised(self.order@, *hash);
        }
        if contains_hash(&self.order, hash) {
            let mut order: Vec<InfoHash> = drop_hash(&self.order, hash);
            order.insert(0, *hash);
            assert(order@ =~= raised(self.order@, *hash));
            self.order = order;
        }
    }

    /// Moves a torrent one place towards the front of the order.
    pub fn move_up(&mut self, hash: &InfoHash)
        requires
            old(self)@.wf(),
        ensures
            final(self)@.wf(),
            final(self)@ == (QueueView {
                order: match place_of(old(self)@.order, *hash) {
                    Some(at) => if at > 0 {
                        exchanged(old(self)@.order, at - 1)
                    } else {
                        old(self)@.order
                    },
                    None => old(self)@.order,
                },
                ..old(self)@
            }),
    {
        if let Some(at) = find_hash(&self.order, hash) {
            if at > 0 {
                proof {
                    lemma_exchanged(self.order@, at - 1);
                }
                let above: InfoHash = self.order[at - 1];
                self.order.set(at - 1, *hash);
                self.order.set(at, above);
            }
        }
    }

    /// Moves a torrent one place towards the end of the order.
    pub fn move_down(&mut self, hash: &InfoHash)
        requires
            old(self)@.wf(),
        ensures
            final(self)@.wf(),
            final(self)@ == (QueueView {
                order: match place_of(old(self)@.order, *hash) {
                    Some(at) => if at + 1 < old(self)@.order.len() {
                        exchanged(old(self)@.order, at as int)
                    } else {
                        old(self)@.order
                    },
                    None => old(self)@.order,
                },
                ..old(self)@
            }),
    {
        if let Some(at) = find_hash(&self.order, hash) {
            if at < self.order.len() - 1 {
                proof {
                    lemma_exchanged(self.order@, at as int);
                }
                let below: InfoHash = self.order[at + 1];
                self.order.set(at, below);
                self.order.set(at + 1, *hash);
            }
        }
    }

    /// The place of a torrent in the order, counted from one.
    pub fn position(&self, hash: &InfoHash) -> (position: Option<usize>)
        requires
            self@.wf(),
        ensures
            position == match place_of(self@.order, *hash) {
                Some(at) => Some((at + 1) as usize),
                None => None,
            },
    {
        match find_hash(&self.order, hash) {
            Some(at) => {
                assert(at < self.order.len());
                Some(at + 1)
            },
            None => None,
        }
    }

    /// Empties the queue.
    pub fn clear(&mut self)
        ensures
            final(self)@.wf(),
            final(self)@ == (QueueView {
                order: Seq::<InfoHash>::empty(),
                bypass: Seq::<InfoHash>::empty(),
                ..old(self)@
            }),
    {
        self.order.clear();
        self.bypass.clear();
    }

    /// Where a torrent stands in the queue.
    pub fn membership_snapshot(&self, hash: &InfoHash) -> (membership: QueueMembership)
        requires
            self@.wf(),
        ensures
            membership == (QueueMembership {
                order: place_of(self@.order, *hash),
                bypass: place_of(self@.bypass, *hash),
            }),
    {
        QueueMembership {
            order: find_hash(&self.order, hash),
            bypass: find_hash(&self.bypass, hash),
        }
    }

    /// Puts a torrent back to where it stood in the queue.
    pub fn restore_membership(&mut self, hash: InfoHash, membership: QueueMembership)
        requires
            old(self)@.wf(),
        ensures
            final(self)@.wf(),
            final(self)@ == (QueueView {
                order: put_back(old(self)@.order, hash, membership.order),
                bypass: put_back(old(self)@.bypass, hash, membership.bypass),
                ..old(self)@
            }),
    {
        proof {
            lemma_put_back(self.order@, hash, membership.order);
            lemma_put_back(self.bypass@, hash, membership.bypass);
        }
        let order: Vec<InfoHash> = put_hash_back(&self.order, hash, membership.order);
        let bypass: Vec<InfoHash> = put_hash_back(&self.bypass, hash, membership.bypass);
        self.order = order;
        self.bypass = bypass;
    }
}

fn put_hash_back(
    list: &Vec<InfoHash>,
    hash: InfoHash,
    place: Option<usize>,
) -> (restored: Vec<InfoHash>)
    ensures
        restored@ == put_back(list@, hash, place),
{
    let mut restored: Vec<InfoHash> = drop_hash(list, &hash);
    if let Some(at) = place {
        let bounded: usize = if at <= restored.len() {
            at
        } else {
            restored.len()
        };
        restored.insert(bounded, hash);
    }
    restored
}

/// Appending a list adds its torrents and no other, and moves none that is there.
pub proof fn lemma_all_appended(list: Seq<InfoHash>, hashes: Seq<InfoHash>)
    requires
        list.no_duplicates(),
    ensures
        appended_all(list, hashes).no_duplicates(),
        appended_all(list, hashes).len() >= list.len(),
        appended_all(list, hashes).take(list.len() as int) == list,
        forall|hash: InfoHash| #[trigger]
            appended_all(list, hashes).contains(hash) == (list.contains(hash)
                || hashes.contains(hash)),
    decreases hashes.len(),
{
    if hashes.len() > 0 {
        let rest = hashes.drop_last();
        let before = appended_all(list, rest);
        let after = appended_all(list, hashes);
        lemma_all_appended(list, rest);
        lemma_appended(before, hashes.last());
        assert(after.take(list.len() as int) =~= before.take(list.len() as int));
        assert forall|hash: InfoHash| #[trigger] after.contains(hash) == (list.contains(hash)
            || hashes.contains(hash)) by {
            assert(after.contains(hash) == (hash == hashes.last() || before.contains(hash)));
            if rest.contains(hash) {
                assert(hashes[rest.index_of(hash)] == hash);
            }
            if hash == hashes.last() {
                assert(hashes[hashes.len() - 1] == hash);
            }
            if hashes.contains(hash) && hash != hashes.last() {
                let k = hashes.index_of(hash);
                assert(rest[k] == hash);
            }
        }
    } else {
        assert(list.take(list.len() as int) =~= list);
    }
}

/// Taking one torrent out of a list leaves the others in their order.
pub proof fn lemma_others_in_order(list: Seq<InfoHash>, hash: InfoHash, a: InfoHash, b: InfoHash)
    requires
        list.no_duplicates(),
        list.contains(a),
        list.contains(b),
        a != hash,
        b != hash,
        list.index_of(a) < list.index_of(b),
    ensures
        without(list, hash).contains(a),
        without(list, hash).contains(b),
        without(list, hash).index_of(a) < without(list, hash).index_of(b),
{
    let rest = without(list, hash);
    lemma_filter(list, other_than(hash));
    crate::scheduler::lemma_kept_in_order(list, other_than(hash));
    assert(rest.contains(a) && rest.contains(b));
    let i = rest.index_of(a);
    let j = rest.index_of(b);
    if j < i {
        assert(rest[j] == b && rest[i] == a);
        assert(list.index_of(list.filter(other_than(hash))[j]) < list.index_of(
            list.filter(other_than(hash))[i],
        ));
    }
}

/// A torrent that is moved to the end stands behind all others, and these keep their order.
pub proof fn sinking_passes_all_others(
    list: Seq<InfoHash>,
    hash: InfoHash,
    a: InfoHash,
    b: InfoHash,
)
    requires
        list.no_duplicates(),
        list.contains(a),
        a != hash,
    ensures
        sunk(list, hash).contains(a),
        list.contains(hash) ==> sunk(list, hash).index_of(a) < sunk(list, hash).index_of(hash),
        list.contains(b) && b != hash && list.index_of(a) < list.index_of(b) ==> sunk(
            list,
            hash,
        ).index_of(a) < sunk(list, hash).index_of(b),
        sunk(list, hash).len() == list.len(),
        !list.contains(hash) ==> sunk(list, hash) == list,
{
    lemma_sunk(list, hash);
    let moved = sunk(list, hash);
    if list.contains(hash) {
        let rest = without(list, hash);
        lemma_filter(list, other_than(hash));
        lemma_without_present(list, hash);
        assert(rest.contains(a));
        let i = rest.index_of(a);
        assert(moved[i] == a);
        assert(moved.index_of(a) == i);
        assert(moved[rest.len() as int] == hash);
        assert(moved.index_of(hash) == rest.len());
        if list.contains(b) && b != hash && list.index_of(a) < list.index_of(b) {
            lemma_others_in_order(list, hash, a, b);
            let j = rest.index_of(b);
            assert(moved[j] == b);
            assert(moved.index_of(b) == j);
        }
    }
}

/// A torrent that is moved to the front stands before all others, and these keep their order.
pub proof fn raising_passes_all_others(
    list: Seq<InfoHash>,
    hash: InfoHash,
    a: InfoHash,
    b: InfoHash,
)
    requires
        list.no_duplicates(),
        list.contains(a),
        a != hash,
    ensures
        raised(list, hash).contains(a),
        list.contains(hash) ==> raised(list, hash).index_of(hash) < raised(list, hash).index_of(a),
        list.contains(b) && b != hash && list.index_of(a) < list.index_of(b) ==> raised(
            list,
            hash,
        ).index_of(a) < raised(list, hash).index_of(b),
        raised(list, hash).len() == list.len(),
        !list.contains(hash) ==> raised(list, hash) == list,
{
    lemma_raised(list, hash);
    let moved = raised(list, hash);
    if list.contains(hash) {
        let rest = without(list, hash);
        lemma_filter(list, other_than(hash));
        lemma_without_present(list, hash);
        assert(rest.contains(a));
        let i = rest.index_of(a);
        assert(moved[i + 1] == a);
        assert(moved.index_of(a) == i + 1);
        assert(moved[0] == hash);
        assert(moved.index_of(hash) == 0);
        if list.contains(b) && b != hash && list.index_of(a) < list.index_of(b) {
            lemma_others_in_order(list, hash, a, b);
            let j = rest.index_of(b);
            assert(moved[j + 1] == b);
            assert(moved.index_of(b) == j + 1);
        }
    }
}

/// Exchanging two neighbours moves these two past each other and nothing else.
pub proof fn neighbours_change_places(list: Seq<InfoHash>, first: int, place: int)
    requires
        list.no_duplicates(),
        0 <= first < list.len() - 1,
        0 <= place < list.len(),
    ensures
        exchanged(list, first).len() == list.len(),
        exchanged(list, first).index_of(list[place]) == if place == first {
            first + 1
        } else if place == first + 1 {
            first
        } else {
            place
        },
        exchanged(exchanged(list, first), first) == list,
{
    lemma_exchanged(list, first);
    let moved = exchanged(list, first);
    let to = if place == first {
        first + 1
    } else if place == first + 1 {
        first
    } else {
        place
    };
    assert(moved[to] == list[place]);
    assert(moved.index_of(list[place]) == to);
    assert(exchanged(moved, first) =~= list);
}

/// Torrents that are moved to the end stand behind all that are not, and these keep their order.
pub proof fn lemma_all_sunk(list: Seq<InfoHash>, hashes: Seq<InfoHash>)
    requires
        list.no_duplicates(),
    ensures
        sunk_all(list, hashes).no_duplicates(),
        sunk_all(list, hashes).len() == list.len(),
        forall|hash: InfoHash| #[trigger]
            sunk_all(list, hashes).contains(hash) == list.contains(hash),
        forall|a: InfoHash, b: InfoHash|
            list.contains(a) && list.contains(b) && !hashes.contains(a) && hashes.contains(b)
                ==> #[trigger] sunk_all(list, hashes).index_of(a) < #[trigger] sunk_all(
                list,
                hashes,
            ).index_of(b),
        forall|a: InfoHash, b: InfoHash|
            list.contains(a) && list.contains(b) && !hashes.contains(a) && !hashes.contains(b)
                && list.index_of(a) < list.index_of(b) ==> #[trigger] sunk_all(
                list,
                hashes,
            ).index_of(a) < #[trigger] sunk_all(list, hashes).index_of(b),
    decreases hashes.len(),
{
    if hashes.len() > 0 {
        let rest = hashes.drop_last();
        let last = hashes.last();
        let before = sunk_all(list, rest);
        let after = sunk_all(list, hashes);
        lemma_all_sunk(list, rest);
        lemma_sunk(before, last);
        if before.contains(last) {
            lemma_without_present(before, last);
        }
        assert(after.len() == list.len());
        assert forall|hash: InfoHash| #[trigger] hashes.contains(hash) == (rest.contains(hash)
            || hash == last) by {
            assert(hashes.take(rest.len() as int) =~= rest);
            assert(hashes.take(rest.len() as int + 1) =~= hashes);
            crate::reconcile::lemma_take_contains(hashes, rest.len() as int, hash);
        }
        assert forall|a: InfoHash, b: InfoHash|
            list.contains(a) && list.contains(b) && !hashes.contains(a) && hashes.contains(
                b,
            ) implies #[trigger] after.index_of(a) < #[trigger] after.index_of(b) by {
            assert(before.contains(a) && before.contains(b));
            if b != last {
                assert(before.index_of(a) < before.index_of(b));
            }
            sinking_passes_all_others(before, last, a, b);
        }
        assert forall|a: InfoHash, b: InfoHash|
            list.contains(a) && list.contains(b) && !hashes.contains(a) && !hashes.contains(b)
                && list.index_of(a) < list.index_of(b) implies #[trigger] after.index_of(a)
            < #[trigger] after.index_of(b) by {
            assert(before.contains(a) && before.contains(b));
            assert(before.index_of(a) < before.index_of(b));
            sinking_passes_all_others(before, last, a, b);
        }
    }
}

} // verus!
