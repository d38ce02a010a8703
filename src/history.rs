use vstd::prelude::*;
use std::collections::VecDeque;

verus! {

/// The history that results from entering `entry` on top of `h`
/// (most recent first).
pub open spec fn written(h: Seq<Seq<char>>, entry: Seq<char>) -> Seq<Seq<char>> {
    seq![entry] + h
}

/// What recall at `pos` yields on history `h`.
pub open spec fn recalled(h: Seq<Seq<char>>, pos: int) -> Option<Seq<char>> {
    if 0 <= pos < h.len() {
        Some(h[pos])
    } else {
        None
    }
}

/// The history built by entering each of `entries` in turn, from an empty one.
pub open spec fn written_all(entries: Seq<Seq<char>>) -> Seq<Seq<char>>
    decreases entries.len(),
{
    if entries.len() == 0 {
        Seq::empty()
    } else {
        written(written_all(entries.drop_last()), entries.last())
    }
}

/// The lines entered at the prompt, most recent first.
pub struct MyHistory {
    history: VecDeque<String>,
}

impl View for MyHistory {
    type V = Seq<Seq<char>>;

    closed spec fn view(&self) -> Seq<Seq<char>> {
        self.history@.map_values(|s: String| s@)
    }
}

impl MyHistory {
    /// An empty history.
    pub fn new() -> (h: Self)
        ensures
            h@ == Seq::<Seq<char>>::empty(),
    {
        let h = MyHistory { history: VecDeque::new() };
        assert(h@ =~= Seq::<Seq<char>>::empty());
        h
    }

    /// The entry `pos` places back from the most recent one, if there is one.
    pub fn read(&self, pos: usize) -> (r: Option<String>)
        ensures
            match r {
                Some(s) => recalled(self@, pos as int) == Some(s@),
                None => recalled(self@, pos as int) is None,
            },
    {
        if pos < self.history.len() {
            Some(self.history[pos].clone())
        } else {
            None
        }
    }

    /// Puts `val` in front of every earlier entry.
    pub fn write(&mut self, val: &str)
        ensures
            final(self)@ == written(old(self)@, val@),
    {
        let entry = val.to_owned();
        self.history.push_front(entry);
        assert(self@ =~= written(old(self)@, val@));
    }
}

impl Default for MyHistory {
    fn default() -> (h: Self)
        ensures
            h@ == Seq::<Seq<char>>::empty(),
    {
        MyHistory::new()
    }
}

/// After entries are written one by one into an empty history, recall at
/// position `i` yields the entry written `i` steps before the last one, and
/// recall past the oldest entry yields nothing.
pub proof fn lemma_recall_most_recent_first(entries: Seq<Seq<char>>, pos: int)
    requires
        0 <= pos,
    ensures
        written_all(entries).len() == entries.len(),
        pos < entries.len() ==> recalled(written_all(entries), pos) == Some(
            entries[entries.len() - 1 - pos],
        ),
        pos >= entries.len() ==> recalled(written_all(entries), pos) is None,
    decreases entries.len(),
{
    if entries.len() > 0 {
        let rest = entries.drop_last();
        lemma_recall_most_recent_first(rest, 0);
        if pos > 0 {
            lemma_recall_most_recent_first(rest, pos - 1);
        }
        if 0 < pos < entries.len() {
            assert(written_all(entries)[pos] == written_all(rest)[pos - 1]);
            assert(entries[entries.len() - 1 - pos] == rest[rest.len() - 1 - (pos - 1)]);
        }
    }
}

/// Writing `a`, then `b`, then `c` into an empty history: recall yields `c`,
/// `b`, `a` at positions 0, 1, 2 and nothing at position 3.
pub proof fn lemma_three_writes_recall(a: Seq<char>, b: Seq<char>, c: Seq<char>)
    ensures
        ({
            let h = written(written(written(Seq::empty(), a), b), c);
            &&& recalled(h, 0) == Some(c)
            &&& recalled(h, 1) == Some(b)
            &&& recalled(h, 2) == Some(a)
            &&& recalled(h, 3) is None
        }),
{
    let h = written(written(written(Seq::empty(), a), b), c);
    assert(h =~= seq![c, b, a]);
}

} // verus!
