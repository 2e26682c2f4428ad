use vstd::prelude::*;

verus! {

/// The texts one after another, with nothing between them.
pub open spec fn joined(texts: Seq<Seq<char>>) -> Seq<char>
    decreases texts.len(),
{
    if texts.len() == 0 {
        Seq::empty()
    } else {
        joined(texts.drop_last()) + texts.last()
    }
}

/// The character sequences of `strings`.
pub open spec fn views(strings: Seq<String>) -> Seq<Seq<char>> {
    strings.map_values(|s: String| s@)
}

/// The texts of the segments after segment `id` took the text `text`.
pub open spec fn with_text(texts: Seq<Seq<char>>, id: int, text: Seq<char>) -> Seq<Seq<char>> {
    texts.update(id, text)
}

/// Whether the status text changes when segment `id` takes the text `text`.
pub open spec fn changes(texts: Seq<Seq<char>>, id: int, text: Seq<char>) -> bool {
    joined(with_text(texts, id, text)) != joined(texts)
}

/// The status texts published, in order, when the segment texts start as
/// `texts` and the updates `(id, text)` arrive one after another.
pub open spec fn published(texts: Seq<Seq<char>>, updates: Seq<(int, Seq<char>)>) -> Seq<
    Seq<char>,
>
    decreases updates.len(),
{
    if updates.len() == 0 {
        Seq::empty()
    } else {
        let (id, text) = updates[0];
        let next = with_text(texts, id, text);
        let rest = published(next, updates.drop_first());
        if changes(texts, id, text) {
            seq![joined(next)] + rest
        } else {
            rest
        }
    }
}

/// The composed status text: the latest text of each segment, in order.
pub struct StatusBar {
    segment_texts: Vec<String>,
    current_text: String,
}

impl StatusBar {
    /// The latest text of each segment.
    pub closed spec fn spec_texts(&self) -> Seq<Seq<char>> {
        views(self.segment_texts@)
    }

    /// The status text last published.
    pub closed spec fn spec_current(&self) -> Seq<char> {
        self.current_text@
    }

    /// The published text is the segment texts joined.
    pub closed spec fn wf(&self) -> bool {
        self.current_text@ == joined(views(self.segment_texts@))
    }

    /// A bar that shows the first text of every segment.
    pub fn new(segment_texts: Vec<String>) -> (r: StatusBar)
        ensures
            r.wf(),
            r.spec_texts() == views(segment_texts@),
            r.spec_current() == joined(views(segment_texts@)),
    {
        let current_text = join(&segment_texts);
        StatusBar { segment_texts, current_text }
    }

    /// The status text to publish first.
    pub fn current_text(&self) -> (r: &str)
        ensures
            r@ == self.spec_current(),
    {
        self.current_text.as_str()
    }

    /// Records the new text of segment `id`. Returns the new status text when
    /// it differs from the one published last, which then counts as
    /// published; `None` when nothing changed.
    pub fn update_segment(&mut self, id: usize, text: String) -> (r: Option<String>)
        requires
            old(self).wf(),
            id < old(self).spec_texts().len(),
        ensures
            final(self).wf(),
            final(self).spec_texts() == with_text(old(self).spec_texts(), id as int, text@),
            final(self).spec_current() == joined(final(self).spec_texts()),
            r is Some <==> changes(old(self).spec_texts(), id as int, text@),
            r matches Some(t) ==> t@ == final(self).spec_current(),
    {
        let ghost old_texts = self.spec_texts();
        self.segment_texts.set(id, text);
        assert(views(self.segment_texts@) == with_text(old_texts, id as int, text@));
        let new_text = join(&self.segment_texts);
        if self.current_text != new_text {
            self.current_text = new_text.clone();
            Some(new_text)
        } else {
            None
        }
    }
}

/// The strings one after another.
fn join(strings: &Vec<String>) -> (r: String)
    ensures
        r@ == joined(views(strings@)),
{
    let mut r = String::new();
    let mut i: usize = 0;
    while i < strings.len()
        invariant
            i <= strings@.len(),
            r@ == joined(views(strings@.subrange(0, i as int))),
        decreases strings@.len() - i,
    {
        proof {
            let next = views(strings@.subrange(0, i + 1));
            assert(next.drop_last() == views(strings@.subrange(0, i as int)));
        }
        r.append(strings[i].as_str());
        i = i + 1;
    }
    assert(strings@.subrange(0, i as int) == strings@);
    r
}

/// No two texts published one after the other are equal, and the first
/// differs from the text shown before.
pub proof fn lemma_no_repeated_publish(texts: Seq<Seq<char>>, updates: Seq<(int, Seq<char>)>)
    ensures
        published(texts, updates).len() > 0 ==> published(texts, updates)[0] != joined(texts),
        forall|i: int|
            0 <= i < published(texts, updates).len() - 1 ==> #[trigger] published(
                texts,
                updates,
            )[i] != published(texts, updates)[i + 1],
    decreases updates.len(),
{
    if updates.len() > 0 {
        let (id, text) = updates[0];
        let next = with_text(texts, id, text);
        lemma_no_repeated_publish(next, updates.drop_first());
        let rest = published(next, updates.drop_first());
        if changes(texts, id, text) {
            let all = seq![joined(next)] + rest;
            assert forall|i: int| 0 <= i < all.len() - 1 implies #[trigger] all[i] != all[i + 1] by {
                if i > 0 {
                    assert(all[i] == rest[i - 1]);
                    assert(all[i + 1] == rest[i]);
                }
            }
        }
    }
}

/// Repeating one segment text that the bar already shows publishes nothing.
proof fn lemma_repeat_is_silent(
    texts: Seq<Seq<char>>,
    updates: Seq<(int, Seq<char>)>,
    id: int,
    text: Seq<char>,
)
    requires
        0 <= id < texts.len(),
        texts[id] == text,
        forall|k: int| 0 <= k < updates.len() ==> #[trigger] updates[k] == (id, text),
    ensures
        published(texts, updates).len() == 0,
    decreases updates.len(),
{
    if updates.len() > 0 {
        assert(updates[0] == (id, text));
        assert(with_text(texts, id, text) == texts);
        lemma_repeat_is_silent(texts, updates.drop_first(), id, text);
    }
}

/// The same segment text arriving any number of times in a row is published
/// at most once.
pub proof fn lemma_identical_updates_publish_once(
    texts: Seq<Seq<char>>,
    updates: Seq<(int, Seq<char>)>,
    id: int,
    text: Seq<char>,
)
    requires
        0 <= id < texts.len(),
        forall|k: int| 0 <= k < updates.len() ==> #[trigger] updates[k] == (id, text),
    ensures
        published(texts, updates).len() <= 1,
{
    if updates.len() > 0 {
        let next = with_text(texts, id, text);
        assert(updates[0] == (id, text));
        assert forall|k: int| 0 <= k < updates.drop_first().len() implies #[trigger] updates.drop_first()[k]
            == (id, text) by {
            assert(updates.drop_first()[k] == updates[k + 1]);
        }
        lemma_repeat_is_silent(next, updates.drop_first(), id, text);
    }
}

} // verus!
