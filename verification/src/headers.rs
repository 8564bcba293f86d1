//! The headers of a request as an ordered list of names and values.
//!
//! Names are compared without regard to the case of ASCII letters, as HTTP
//! asks.

use vstd::prelude::*;
use vstd::string::*;
use crate::text::{eq_ignore_ascii_case, eq_ignoring_ascii_case};

verus! {

/// One header.
#[derive(Debug)]
pub struct Header {
    pub name: String,
    pub value: String,
}

/// The view of a `Header`.
pub struct HeaderModel {
    pub name: Seq<char>,
    pub value: Seq<char>,
}

impl View for Header {
    type V = HeaderModel;

    open spec fn view(&self) -> HeaderModel {
        HeaderModel { name: self.name@, value: self.value@ }
    }
}

impl DeepView for Header {
    type V = HeaderModel;

    open spec fn deep_view(&self) -> HeaderModel {
        self@
    }
}

impl Clone for Header {
    fn clone(&self) -> (r: Self)
        ensures
            r@ == self@,
    {
        Header { name: self.name.clone(), value: self.value.clone() }
    }
}

/// The headers among `entries` under another name than `name`, in their order.
pub open spec fn without_name(entries: Seq<HeaderModel>, name: Seq<char>) -> Seq<HeaderModel>
    decreases entries.len(),
{
    if entries.len() == 0 {
        Seq::empty()
    } else {
        let rest = without_name(entries.drop_last(), name);
        if eq_ignoring_ascii_case(entries.last().name, name) {
            rest
        } else {
            rest.push(entries.last())
        }
    }
}

/// `entries` with `value` as the only header under `name`, at the end.
pub open spec fn with_header(entries: Seq<HeaderModel>, name: Seq<char>, value: Seq<char>) -> Seq<
    HeaderModel,
> {
    without_name(entries, name).push(HeaderModel { name, value })
}

/// The value of the first header under `name`.
pub open spec fn header_value(entries: Seq<HeaderModel>, name: Seq<char>) -> Option<Seq<char>>
    decreases entries.len(),
{
    if entries.len() == 0 {
        None
    } else if eq_ignoring_ascii_case(entries.first().name, name) {
        Some(entries.first().value)
    } else {
        header_value(entries.drop_first(), name)
    }
}

/// No header that `without_name` leaves is under `name`.
pub proof fn lemma_without_name(entries: Seq<HeaderModel>, name: Seq<char>)
    ensures
        forall|k: int|
            0 <= k < without_name(entries, name).len() ==> !eq_ignoring_ascii_case(
                (#[trigger] without_name(entries, name)[k]).name,
                name,
            ),
    decreases entries.len(),
{
    if entries.len() > 0 {
        lemma_without_name(entries.drop_last(), name);
        let rest = without_name(entries.drop_last(), name);
        let all = without_name(entries, name);
        assert forall|k: int| 0 <= k < all.len() implies !eq_ignoring_ascii_case(
            (#[trigger] all[k]).name,
            name,
        ) by {
            if k < rest.len() {
                assert(all[k] == rest[k]);
            }
        }
    }
}

/// After a header was set, its name gives the value it was set to.
pub proof fn lemma_with_header_value(entries: Seq<HeaderModel>, name: Seq<char>, value: Seq<char>)
    ensures
        header_value(with_header(entries, name, value), name) == Some(value),
{
    lemma_without_name(entries, name);
    lemma_first_match_at_end(without_name(entries, name), name, value);
}

proof fn lemma_first_match_at_end(others: Seq<HeaderModel>, name: Seq<char>, value: Seq<char>)
    requires
        forall|k: int|
            0 <= k < others.len() ==> !eq_ignoring_ascii_case((#[trigger] others[k]).name, name),
    ensures
        header_value(others.push(HeaderModel { name, value }), name) == Some(value),
    decreases others.len(),
{
    let all = others.push(HeaderModel { name, value });
    if others.len() == 0 {
        assert(all.first() == (HeaderModel { name, value }));
    } else {
        assert(all.first() == others[0]);
        assert(all.drop_first() =~= others.drop_first().push(HeaderModel { name, value }));
        assert forall|k: int| 0 <= k < others.drop_first().len() implies !eq_ignoring_ascii_case(
            (#[trigger] others.drop_first()[k]).name,
            name,
        ) by {
            assert(others.drop_first()[k] == others[k + 1]);
        }
        lemma_first_match_at_end(others.drop_first(), name, value);
    }
}

/// A list of headers.
#[derive(Debug)]
pub struct HeaderSet {
    entries: Vec<Header>,
}

impl View for HeaderSet {
    type V = Seq<HeaderModel>;

    closed spec fn view(&self) -> Seq<HeaderModel> {
        self.entries.deep_view()
    }
}

impl DeepView for HeaderSet {
    type V = Seq<HeaderModel>;

    open spec fn deep_view(&self) -> Seq<HeaderModel> {
        self@
    }
}

impl Clone for HeaderSet {
    fn clone(&self) -> (r: Self)
        ensures
            r@ == self@,
    {
        let mut entries: Vec<Header> = Vec::new();
        let mut i: usize = 0;
        while i < self.entries.len()
            invariant
                i <= self.entries.len(),
                entries.len() == i,
                forall|k: int| 0 <= k < i ==> (#[trigger] entries@[k])@ == self.entries@[k]@,
            decreases self.entries.len() - i,
        {
            entries.push(self.entries[i].clone());
            i += 1;
        }
        assert(entries.deep_view() =~= self.entries.deep_view());
        HeaderSet { entries }
    }
}

impl HeaderSet {
    /// No headers.
    pub fn new() -> (r: HeaderSet)
        ensures
            r@ == Seq::<HeaderModel>::empty(),
    {
        let entries: Vec<Header> = Vec::new();
        assert(entries.deep_view() =~= Seq::<HeaderModel>::empty());
        HeaderSet { entries }
    }

    /// How many headers the list holds.
    pub fn len(&self) -> (n: usize)
        ensures
            n == self@.len(),
    {
        self.entries.len()
    }

    /// The header at position `i`.
    pub fn entry(&self, i: usize) -> (h: &Header)
        requires
            i < self@.len(),
        ensures
            h@ == self@[i as int],
    {
        &self.entries[i]
    }

    /// Adds a header at the end and keeps what is there.
    pub fn append(&mut self, name: &str, value: &str)
        ensures
            final(self)@ == old(self)@.push(HeaderModel { name: name@, value: value@ }),
    {
        let ghost before = self@;
        let header = Header { name: String::from_str(name), value: String::from_str(value) };
        self.entries.push(header);
        assert(self@ =~= before.push(header@));
    }

    /// Sets the header `name` to `value`: headers already under that name
    /// leave the list, and the new one goes to the end.
    pub fn insert(&mut self, name: &str, value: &str)
        ensures
            final(self)@ == with_header(old(self)@, name@, value@),
    {
        let ghost before = self@;
        let mut kept: Vec<Header> = Vec::new();
        let mut i: usize = 0;
        assert(kept.deep_view() =~= without_name(before.take(0), name@));
        while i < self.entries.len()
            invariant
                i <= self.entries.len(),
                before == self.entries.deep_view(),
                kept.deep_view() == without_name(before.take(i as int), name@),
            decreases self.entries.len() - i,
        {
            proof {
                let prefix = before.take(i + 1);
                assert(prefix.last() == self.entries@[i as int]@);
                assert(prefix.drop_last() =~= before.take(i as int));
            }
            if !eq_ignore_ascii_case(self.entries[i].name.as_str(), name) {
                let ghost so_far = kept.deep_view();
                let h = self.entries[i].clone();
                kept.push(h);
                assert(kept.deep_view() =~= so_far.push(h@));
            }
            i += 1;
        }
        assert(before.take(i as int) =~= before);
        let ghost so_far = kept.deep_view();
        let header = Header { name: String::from_str(name), value: String::from_str(value) };
        kept.push(header);
        assert(kept.deep_view() =~= so_far.push(header@));
        self.entries = kept;
    }

    /// The value of the first header under `name`.
    pub fn get(&self, name: &str) -> (r: Option<&str>)
        ensures
            r.deep_view() == header_value(self@, name@),
    {
        let ghost all = self@;
        let mut i: usize = 0;
        assert(all.skip(0) =~= all);
        while i < self.entries.len()
            invariant
                i <= self.entries.len(),
                all == self.entries.deep_view(),
                header_value(all, name@) == header_value(all.skip(i as int), name@),
            decreases self.entries.len() - i,
        {
            proof {
                let rest = all.skip(i as int);
                assert(rest.first() == self.entries@[i as int]@);
                assert(rest.drop_first() =~= all.skip(i + 1));
            }
            if eq_ignore_ascii_case(self.entries[i].name.as_str(), name) {
                return Some(self.entries[i].value.as_str());
            }
            i += 1;
        }
        None
    }

    /// Whether the list holds a header under `name`.
    pub fn contains_key(&self, name: &str) -> (r: bool)
        ensures
            r == header_value(self@, name@) is Some,
    {
        self.get(name).is_some()
    }
}

} // verus!
