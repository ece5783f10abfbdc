//! The component gallery: a searchable list of components and the selected one.

use vstd::prelude::*;

use crate::text;

pub mod demos;

verus! {

/// One component: its name and a line about it.
#[derive(Clone, Copy, Debug)]
pub struct ComponentEntry {
    pub name: &'static str,
    pub description: &'static str,
}

/// The components that the gallery lists.
pub fn registry() -> (entries: Vec<ComponentEntry>)
    ensures
        entries@.len() == 1,
        entries@[0].name@ == "Placeholder"@,
        entries@[0].description@
            == "Skeleton entry. Component demos land in follow-up gallery issues."@,
{
    vec![
        ComponentEntry {
            name: "Placeholder",
            description: "Skeleton entry. Component demos land in follow-up gallery issues.",
        },
    ]
}

/// A component is listed for a search: the needle stands in its name or its
/// description, all in lower case.
pub open spec fn listed_for(
    needle: Seq<char>,
    name: Seq<char>,
    description: Seq<char>,
) -> bool {
    text::occurs_in(name, needle) || text::occurs_in(description, needle)
}

/// Whether a component is listed for a search, given the needle, the name and
/// the description in lower case.
pub fn is_listed(needle: &str, name: &str, description: &str) -> (listed: bool)
    ensures
        listed == listed_for(needle@, name@, description@),
{
    text::has_part(name, needle) || text::has_part(description, needle)
}

/// An entry is listed for a query: case and outer white space play no part.
pub open spec fn entry_listed(query: Seq<char>, entry: ComponentEntry) -> bool {
    listed_for(
        text::lowercase(text::trimmed(query)),
        text::lowercase(entry.name@),
        text::lowercase(entry.description@),
    )
}

/// `shown` lists the places of the entries that `query` finds, in order.
pub open spec fn is_search(
    query: Seq<char>,
    entries: Seq<ComponentEntry>,
    shown: Seq<usize>,
) -> bool {
    &&& forall|i: int, j: int| 0 <= i < j < shown.len() ==> shown[i] < shown[j]
    &&& forall|i: int|
        0 <= i < shown.len() ==> #[trigger] shown[i] < entries.len() && entry_listed(
            query,
            entries[shown[i] as int],
        )
    &&& forall|k: int|
        0 <= k < entries.len() && entry_listed(query, #[trigger] entries[k]) ==> exists|i: int|
            0 <= i < shown.len() && shown[i] == k
}

/// The gallery: its components and the selected one.
pub struct Gallery {
    entries: Vec<ComponentEntry>,
    active_index: Option<usize>,
}

/// What a [`Gallery`] holds.
pub struct GalleryView {
    pub entries: Seq<ComponentEntry>,
    /// The place of the selected component among all of them, whatever the
    /// search shows.
    pub active: Option<usize>,
}

impl View for Gallery {
    type V = GalleryView;

    closed spec fn view(&self) -> GalleryView {
        GalleryView { entries: self.entries@, active: self.active_index }
    }
}

impl Gallery {
    /// The gallery of the registered components.
    pub fn new() -> (gallery: Self)
        ensures
            gallery@.entries.len() == 1,
            gallery@.entries[0].name@ == "Placeholder"@,
            gallery@.entries[0].description@
                == "Skeleton entry. Component demos land in follow-up gallery issues."@,
            gallery@.active == Some(0usize),
    {
        Gallery::with_entries(registry())
    }

    /// A gallery of `entries`; the first one is selected.
    pub fn with_entries(entries: Vec<ComponentEntry>) -> (gallery: Self)
        ensures
            gallery@.entries == entries@,
            gallery@.active == if entries@.len() > 0 {
                Some(0usize)
            } else {
                None
            },
    {
        let active_index: Option<usize> = if entries.len() > 0 {
            Some(0)
        } else {
            None
        };
        Gallery { entries, active_index }
    }

    /// The components.
    pub fn entries(&self) -> (entries: &Vec<ComponentEntry>)
        ensures
            entries@ == self@.entries,
    {
        &self.entries
    }

    /// The place of the selected component.
    pub fn active_index(&self) -> (at: Option<usize>)
        ensures
            at == self@.active,
    {
        self.active_index
    }

    /// A component was clicked, given by its place among all of them.
    pub fn select(&mut self, at: usize)
        ensures
            final(self)@ == (GalleryView { active: Some(at), ..old(self)@ }),
    {
        self.active_index = Some(at);
    }

    /// Whether the component at `at` is the selected one.
    pub fn is_active(&self, at: usize) -> (active: bool)
        ensures
            active == (self@.active == Some(at)),
    {
        match self.active_index {
            Some(active) => active == at,
            None => false,
        }
    }

    /// The places of the components that the sidebar shows for a query. A blank
    /// query shows all.
    pub fn sidebar(&self, query: &str) -> (shown: Vec<usize>)
        ensures
            is_search(query@, self@.entries, shown@),
            text::trimmed(query@).len() == 0 ==> shown@.len() == self@.entries.len(),
    {
        let inner = text::trim(query);
        let needle = text::to_lower(inner);
        let ghost all = self@.entries;
        let mut shown: Vec<usize> = Vec::new();
        let mut n: usize = 0;
        while n < self.entries.len()
            invariant
                n <= all.len(),
                all == self.entries@,
                inner@ == text::trimmed(query@),
                needle@ == text::lowercase(inner@),
                inner@.len() == 0 ==> needle@.len() == 0,
                inner@.len() == 0 ==> shown@.len() == n,
                forall|i: int, j: int| 0 <= i < j < shown@.len() ==> shown@[i] < shown@[j],
                forall|i: int|
                    0 <= i < shown@.len() ==> #[trigger] shown@[i] < n && entry_listed(
                        query@,
                        all[shown@[i] as int],
                    ),
                forall|k: int|
                    0 <= k < n && entry_listed(query@, #[trigger] all[k]) ==> exists|i: int|
                        0 <= i < shown@.len() && shown@[i] == k,
            decreases all.len() - n,
        {
            let ghost earlier = shown@;
            let entry = &self.entries[n];
            let name = text::to_lower(entry.name);
            let description = text::to_lower(entry.description);
            let listed = is_listed(needle.as_str(), name.as_str(), description.as_str());
            if listed {
                shown.push(n);
            }
            proof {
                if needle@.len() == 0 {
                    assert(name@.subrange(0, 0) =~= needle@);
                    assert(text::occurs_at(name@, needle@, 0));
                }
                assert(listed == entry_listed(query@, all[n as int]));
                assert forall|k: int|
                    0 <= k < n + 1 && entry_listed(query@, #[trigger] all[k]) implies exists|
                    i: int,
                |
                    0 <= i < shown@.len() && shown@[i] == k by {
                    if k < n {
                        let i = choose|i: int| 0 <= i < earlier.len() && earlier[i] == k;
                        assert(shown@[i] == k);
                    } else {
                        assert(shown@[earlier.len() as int] == k);
                    }
                }
            }
            n = n + 1;
        }
        shown
    }

    /// The heading of the content: the selected component's name and line, both
    /// empty where none is selected.
    pub fn heading(&self) -> (heading: (&'static str, &'static str))
        ensures
            match self@.active {
                Some(at) if at < self@.entries.len() => heading.0@
                    == self@.entries[at as int].name@ && heading.1@
                    == self@.entries[at as int].description@,
                _ => heading.0@ == ""@ && heading.1@ == ""@,
            },
    {
        match self.active_index {
            Some(at) => if at < self.entries.len() {
                (self.entries[at].name, self.entries[at].description)
            } else {
                ("", "")
            },
            None => ("", ""),
        }
    }
}

// ---------------------------------------------------------------------------
// Laws
// ---------------------------------------------------------------------------

/// A component is listed where the needle stands in its name or in its
/// description.
pub proof fn law_needle_is_looked_for_in_both(
    needle: &str,
    name: &str,
    description: &str,
    listed: bool,
    in_name: bool,
    in_description: bool,
)
    requires
        call_ensures(is_listed, (needle, name, description), listed),
        call_ensures(text::has_part, (name, needle), in_name),
        call_ensures(text::has_part, (description, needle), in_description),
    ensures
        listed <==> in_name || in_description,
{
}

/// The sidebar shows the places of the components that a search finds, in their
/// order: those whose lowered name or description holds the lowered query.
pub proof fn law_sidebar_shows_what_is_found(
    gallery: Gallery,
    query: &str,
    inner: &str,
    shown: Vec<usize>,
    k: usize,
    needle: &str,
    name: &str,
    description: &str,
    listed: bool,
)
    requires
        call_ensures(Gallery::sidebar, (&gallery, query), shown),
        call_ensures(text::trim, (query,), inner),
        k < gallery@.entries.len(),
        needle@ == text::lowercase(inner@),
        name@ == text::lowercase(gallery@.entries[k as int].name@),
        description@ == text::lowercase(gallery@.entries[k as int].description@),
        call_ensures(is_listed, (needle, name, description), listed),
    ensures
        forall|i: int, j: int| 0 <= i < j < shown@.len() ==> shown@[i] < shown@[j],
        forall|i: int| 0 <= i < shown@.len() ==> #[trigger] shown@[i] < gallery@.entries.len(),
        shown@.contains(k) <==> listed,
        inner@.len() == 0 ==> shown@.contains(k),
{
    let all = gallery@.entries;
    if shown@.contains(k) {
        let i = choose|i: int| 0 <= i < shown@.len() && shown@[i] == k;
        assert(entry_listed(query@, all[shown@[i] as int]));
    }
    if entry_listed(query@, all[k as int]) {
        let i = choose|i: int| 0 <= i < shown@.len() && shown@[i] == k as int;
        assert(shown@[i] == k);
    }
    if inner@.len() == 0 {
        lemma_full_listing(shown@, all.len());
        assert(shown@[k as int] == k);
    }
}

/// As many ascending places as there are components are all of them.
proof fn lemma_full_listing(shown: Seq<usize>, n: nat)
    requires
        shown.len() == n,
        forall|i: int, j: int| 0 <= i < j < shown.len() ==> shown[i] < shown[j],
        forall|i: int| 0 <= i < shown.len() ==> #[trigger] shown[i] < n,
    ensures
        forall|i: int| 0 <= i < n ==> #[trigger] shown[i] == i,
    decreases n,
{
    if n > 0 {
        let rest = shown.drop_last();
        assert forall|i: int| 0 <= i < rest.len() implies #[trigger] rest[i] < n - 1 by {
            assert(shown[i] < shown[n - 1]);
            assert(shown[n - 1] < n);
        }
        lemma_full_listing(rest, (n - 1) as nat);
        assert forall|i: int| 0 <= i < n implies #[trigger] shown[i] == i by {
            if i < n - 1 {
                assert(rest[i] == i);
            } else if n > 1 {
                assert(rest[n - 2] == n - 2);
                assert(shown[n - 2] < shown[n - 1]);
            }
        }
    }
}

/// The first component is selected at the start, a click selects the one that
/// was clicked, and the heading tells of the selected one.
pub proof fn law_heading_tells_of_the_selected_component(
    entries: Vec<ComponentEntry>,
    fresh: Gallery,
    gallery: &mut Gallery,
    at: usize,
    other: usize,
    active: bool,
    heading: (&'static str, &'static str),
    told: Option<usize>,
)
    requires
        call_ensures(Gallery::with_entries, (entries,), fresh),
        call_ensures(Gallery::select, (gallery, at), ()),
        call_ensures(Gallery::is_active, (final(gallery), other), active),
        call_ensures(Gallery::heading, (final(gallery),), heading),
        call_ensures(Gallery::active_index, (final(gallery),), told),
    ensures
        fresh@.entries == entries@,
        entries@.len() > 0 ==> fresh@.active == Some(0usize),
        entries@.len() == 0 ==> fresh@.active is None,
        final(gallery)@.entries == old(gallery)@.entries,
        told == Some(at),
        active <==> other == at,
        at < old(gallery)@.entries.len() ==> heading.0@ == old(gallery)@.entries[at as int].name@
            && heading.1@ == old(gallery)@.entries[at as int].description@,
        at >= old(gallery)@.entries.len() ==> heading.0@.len() == 0 && heading.1@.len() == 0,
{
    reveal_strlit("");
}

/// The gallery starts as one of the registered components.
pub proof fn law_gallery_shows_the_registry(
    entries: Vec<ComponentEntry>,
    gallery: Gallery,
    at: Option<usize>,
    list: &Vec<ComponentEntry>,
    k: int,
)
    requires
        call_ensures(registry, (), entries),
        call_ensures(Gallery::new, (), gallery),
        call_ensures(Gallery::active_index, (&gallery,), at),
        call_ensures(Gallery::entries, (&gallery,), list),
        0 <= k < entries@.len(),
    ensures
        list@.len() == entries@.len(),
        list@[k].name@ == entries@[k].name@,
        list@[k].description@ == entries@[k].description@,
        at == Some(0usize),
{
}

} // verus!
