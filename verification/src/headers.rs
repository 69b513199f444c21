//! The headers captured from an inbound request: an ordered mapping from
//! header name to value, in which no name occurs twice.

use vstd::prelude::*;

verus! {

/// The model of one header: its name and its value.
pub type HeaderModel = (Seq<char>, Seq<char>);

/// The models of a list of name-value pairs, in order.
pub open spec fn pair_models(list: Seq<(String, String)>) -> Seq<HeaderModel> {
    list.map_values(|e: (String, String)| (e.0@, e.1@))
}

/// Whether some entry carries `name`.
pub open spec fn has_name(entries: Seq<HeaderModel>, name: Seq<char>) -> bool {
    exists|i: int| 0 <= i < entries.len() && (#[trigger] entries[i]).0 == name
}

/// No name occurs twice.
pub open spec fn names_distinct(entries: Seq<HeaderModel>) -> bool {
    forall|i: int, j: int|
        0 <= i < j < entries.len() ==> (#[trigger] entries[i]).0 != (#[trigger] entries[j]).0
}

/// `entries` after `name` has been given `value`: an entry of that name
/// takes the value and keeps its place; where there is none, the pair is
/// added at the end.
pub open spec fn put(entries: Seq<HeaderModel>, name: Seq<char>, value: Seq<char>) -> Seq<
    HeaderModel,
> {
    if has_name(entries, name) {
        entries.map_values(
            |e: HeaderModel|
                if e.0 == name {
                    (name, value)
                } else {
                    e
                },
        )
    } else {
        entries.push((name, value))
    }
}

/// The value that `entries` gives `name`, if any.
pub open spec fn lookup(entries: Seq<HeaderModel>, name: Seq<char>) -> Option<Seq<char>> {
    if has_name(entries, name) {
        Some(entries[choose|i: int| 0 <= i < entries.len() && (#[trigger] entries[i]).0 == name].1)
    } else {
        None
    }
}

/// The model of one header as it arrives: its name, and its value where the
/// value is text.
pub type RawHeaderModel = (Seq<char>, Option<Seq<char>>);

/// The models of a list of headers as they arrive, in order.
pub open spec fn raw_models(list: Seq<(String, Option<String>)>) -> Seq<RawHeaderModel> {
    list.map_values(
        |e: (String, Option<String>)|
            (
                e.0@,
                match e.1 {
                    Some(v) => Some(v@),
                    None => None,
                },
            ),
    )
}

/// The mapping captured from the headers of a request, taken in order: a
/// header whose value is text is [`put`], one whose value is not is passed
/// over. Of several values for one name the last one stays.
pub open spec fn captured(raw: Seq<RawHeaderModel>) -> Seq<HeaderModel>
    decreases raw.len(),
{
    if raw.len() == 0 {
        Seq::empty()
    } else {
        let earlier = captured(raw.drop_last());
        match raw.last().1 {
            Some(value) => put(earlier, raw.last().0, value),
            None => earlier,
        }
    }
}

/// [`put`] keeps names distinct, and afterwards the name has the value.
pub proof fn lemma_put(entries: Seq<HeaderModel>, name: Seq<char>, value: Seq<char>)
    requires
        names_distinct(entries),
    ensures
        names_distinct(put(entries, name, value)),
        lookup(put(entries, name, value), name) == Some(value),
        forall|other: Seq<char>|
            other != name ==> lookup(put(entries, name, value), other) == lookup(entries, other),
{
    let after = put(entries, name, value);
    assert forall|j: int, k: int| 0 <= j < k < after.len() implies (#[trigger] after[j]).0 != (
    #[trigger] after[k]).0 by {
        if has_name(entries, name) {
            assert(entries[j].0 != entries[k].0);
        } else if k < entries.len() {
            assert(entries[j].0 != entries[k].0);
        } else {
            assert(entries[j].0 != name);
        }
    }
    if has_name(entries, name) {
        let i = choose|i: int| 0 <= i < entries.len() && (#[trigger] entries[i]).0 == name;
        assert(after[i].0 == name);
    } else {
        assert(after[entries.len() as int].0 == name);
    }
    assert(has_name(after, name));
    let at = choose|i: int| 0 <= i < after.len() && (#[trigger] after[i]).0 == name;
    assert(after[at].1 == value);
    assert forall|other: Seq<char>| other != name implies lookup(after, other) == lookup(
        entries,
        other,
    ) by {
        if has_name(entries, other) {
            let i = choose|i: int| 0 <= i < entries.len() && (#[trigger] entries[i]).0 == other;
            assert(after[i].0 == other);
            assert(has_name(after, other));
            let k = choose|k: int| 0 <= k < after.len() && (#[trigger] after[k]).0 == other;
            if k != i {
                if k < i {
                    assert(after[k].0 != after[i].0);
                } else {
                    assert(after[i].0 != after[k].0);
                }
            }
            assert(after[k].1 == entries[i].1);
        } else {
            if has_name(after, other) {
                let k = choose|k: int| 0 <= k < after.len() && (#[trigger] after[k]).0 == other;
                if k < entries.len() {
                    assert(entries[k].0 == other);
                }
            }
        }
    }
}

/// The last value in `raw` that is text and stands under `name`, if any.
pub open spec fn last_text(raw: Seq<RawHeaderModel>, name: Seq<char>) -> Option<Seq<char>>
    decreases raw.len(),
{
    if raw.len() == 0 {
        None
    } else if raw.last().0 == name && raw.last().1 is Some {
        raw.last().1
    } else {
        last_text(raw.drop_last(), name)
    }
}

/// In what is captured no name occurs twice, and each name has the last
/// value that arrived under it as text.
pub proof fn lemma_captured(raw: Seq<RawHeaderModel>)
    ensures
        names_distinct(captured(raw)),
        forall|name: Seq<char>| lookup(captured(raw), name) == last_text(raw, name),
    decreases raw.len(),
{
    if raw.len() == 0 {
        assert forall|name: Seq<char>| lookup(captured(raw), name) == last_text(raw, name) by {
            assert(!has_name(captured(raw), name));
        }
    } else {
        let earlier = captured(raw.drop_last());
        lemma_captured(raw.drop_last());
        match raw.last().1 {
            Some(value) => {
                lemma_put(earlier, raw.last().0, value);
            },
            None => {},
        }
        assert forall|name: Seq<char>| lookup(captured(raw), name) == last_text(raw, name) by {
            assert(lookup(earlier, name) == last_text(raw.drop_last(), name));
        }
    }
}

/// An ordered mapping from header name to value.
#[derive(Debug)]
pub struct Headers {
    entries: Vec<(String, String)>,
}

impl View for Headers {
    type V = Seq<HeaderModel>;

    closed spec fn view(&self) -> Seq<HeaderModel> {
        pair_models(self.entries@)
    }
}

impl Headers {
    /// The invariant of the type: no name occurs twice.
    pub open spec fn wf(&self) -> bool {
        names_distinct(self@)
    }

    /// The empty mapping.
    pub fn new() -> (h: Headers)
        ensures
            h.wf(),
            h@ == Seq::<HeaderModel>::empty(),
    {
        let h = Headers { entries: Vec::new() };
        assert(pair_models(h.entries@) =~= Seq::<HeaderModel>::empty());
        h
    }

    /// The number of entries.
    pub fn len(&self) -> (n: usize)
        ensures
            n == self@.len(),
    {
        self.entries.len()
    }

    /// The name of the entry at `i`.
    pub fn name(&self, i: usize) -> (name: &String)
        requires
            i < self@.len(),
        ensures
            name@ == self@[i as int].0,
    {
        &self.entries[i].0
    }

    /// The value of the entry at `i`.
    pub fn value(&self, i: usize) -> (value: &String)
        requires
            i < self@.len(),
        ensures
            value@ == self@[i as int].1,
    {
        &self.entries[i].1
    }

    /// The value that stands under `name`, if any.
    pub fn get(&self, name: &str) -> (value: Option<&String>)
        requires
            self.wf(),
        ensures
            match value {
                Some(v) => lookup(self@, name@) == Some(v@),
                None => lookup(self@, name@) is None,
            },
    {
        let wanted = String::from_str(name);
        let ghost all = pair_models(self.entries@);
        let mut i: usize = 0;
        while i < self.entries.len()
            invariant
                i <= self.entries.len(),
                all == pair_models(self.entries@),
                names_distinct(all),
                wanted@ == name@,
                forall|j: int| 0 <= j < i ==> (#[trigger] all[j]).0 != name@,
            decreases self.entries.len() - i,
        {
            if self.entries[i].0 == wanted {
                proof {
                    assert(all[i as int].0 == name@);
                    let k = choose|k: int| 0 <= k < all.len() && (#[trigger] all[k]).0 == name@;
                    if k < i {
                        assert(all[k].0 != all[i as int].0);
                    } else if i < k {
                        assert(all[i as int].0 != all[k].0);
                    }
                }
                return Some(&self.entries[i].1);
            }
            i += 1;
        }
        None
    }

    /// The entries as pairs of name and value, in order.
    pub fn to_pairs(&self) -> (pairs: Vec<(String, String)>)
        ensures
            pair_models(pairs@) == self@,
    {
        let mut pairs: Vec<(String, String)> = Vec::new();
        let mut i: usize = 0;
        while i < self.entries.len()
            invariant
                i <= self.entries.len(),
                pairs.len() == i,
                forall|j: int|
                    0 <= j < i ==> (#[trigger] pairs@[j]).0@ == self.entries@[j].0@ && pairs@[j].1@
                        == self.entries@[j].1@,
            decreases self.entries.len() - i,
        {
            pairs.push((self.entries[i].0.clone(), self.entries[i].1.clone()));
            i += 1;
        }
        assert(pair_models(pairs@) =~= pair_models(self.entries@));
        pairs
    }

    /// Captures the headers of a request; see [`captured`].
    pub fn capture(raw: &Vec<(String, Option<String>)>) -> (h: Headers)
        ensures
            h.wf(),
            h@ == captured(raw_models(raw@)),
    {
        let mut h = Headers::new();
        let mut i: usize = 0;
        while i < raw.len()
            invariant
                i <= raw.len(),
                h.wf(),
                h@ == captured(raw_models(raw@).take(i as int)),
            decreases raw.len() - i,
        {
            let ghost upto = raw_models(raw@).take(i + 1);
            assert(upto.drop_last() =~= raw_models(raw@).take(i as int));
            assert(upto.last() == raw_models(raw@)[i as int]);
            match &raw[i].1 {
                Some(value) => {
                    h.insert(raw[i].0.clone(), value.clone());
                },
                None => {},
            }
            i += 1;
        }
        assert(raw_models(raw@).take(i as int) =~= raw_models(raw@));
        h
    }

    /// Gives `name` the value `value`.
    pub fn insert(&mut self, name: String, value: String)
        requires
            old(self).wf(),
        ensures
            final(self).wf(),
            final(self)@ == put(old(self)@, name@, value@),
    {
        let mut i: usize = 0;
        while i < self.entries.len()
            invariant
                i <= self.entries.len(),
                self.entries == old(self).entries,
                names_distinct(pair_models(self.entries@)),
                forall|j: int| 0 <= j < i ==> (#[trigger] self.entries@[j]).0@ != name@,
            decreases self.entries.len() - i,
        {
            if self.entries[i].0 == name {
                let ghost before = pair_models(self.entries@);
                assert(before[i as int].0 == name@);
                assert forall|j: int| 0 <= j < before.len() && j != i implies (
                #[trigger] before[j]).0 != name@ by {
                    if j < i {
                        assert(before[j].0 != before[i as int].0);
                    } else {
                        assert(before[i as int].0 != before[j].0);
                    }
                }
                self.entries.set(i, (name, value));
                let ghost after = pair_models(self.entries@);
                assert(after =~= put(before, name@, value@));
                assert forall|j: int, k: int| 0 <= j < k < after.len() implies (
                #[trigger] after[j]).0 != (#[trigger] after[k]).0 by {
                    assert(before[j].0 != before[k].0);
                }
                return ;
            }
            i += 1;
        }
        let ghost before = pair_models(self.entries@);
        assert(!has_name(before, name@));
        self.entries.push((name, value));
        let ghost after = pair_models(self.entries@);
        assert(after =~= put(before, name@, value@));
        assert forall|j: int, k: int| 0 <= j < k < after.len() implies (#[trigger] after[j]).0 != (
        #[trigger] after[k]).0 by {
            if k < before.len() {
                assert(before[j].0 != before[k].0);
            } else {
                assert(before[j].0 != name@);
            }
        }
    }
}

impl Clone for Headers {
    fn clone(&self) -> (h: Headers)
        ensures
            h@ == self@,
    {
        Headers { entries: self.to_pairs() }
    }
}

} // verus!
