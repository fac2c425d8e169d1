//! The customers service's characters: a fixed cast kept in a `slab::Slab`,
//! with the humans among them looked up by their id text.
use vstd::prelude::*;
use vstd::string::StringSliceAdditionalSpecFns;
use slab::Slab;
use crate::storage::next_slot;

verus! {

/// A gender a character is listed with.
#[derive(Clone, Copy, PartialEq, Eq, Structural, Debug)]
pub enum Gender {
    Male,
    Female,
}

/// What a character reads as: the bytes of its id, its name, the keys of its
/// friends, the genders it is listed with, its home planet and its primary
/// function.
pub type CharView = (
    Seq<u8>,
    Seq<char>,
    Seq<usize>,
    Seq<Gender>,
    Option<Seq<char>>,
    Option<Seq<char>>,
);

/// The characters of an optional text.
pub open spec fn opt_text(t: Option<&str>) -> Option<Seq<char>> {
    match t {
        Some(x) => Some(x@),
        None => None,
    }
}

/// A character of the cast.
pub struct CustomersChar {
    id: &'static str,
    name: &'static str,
    friends: Vec<usize>,
    appears_in: Vec<Gender>,
    home_planet: Option<&'static str>,
    primary_function: Option<&'static str>,
}

impl View for CustomersChar {
    type V = CharView;

    closed spec fn view(&self) -> CharView {
        (
            self.id.spec_bytes(),
            self.name@,
            self.friends@,
            self.appears_in@,
            opt_text(self.home_planet),
            opt_text(self.primary_function),
        )
    }
}

impl CustomersChar {
    fn create(
        id: &'static str,
        name: &'static str,
        appears_in: Vec<Gender>,
        home_planet: Option<&'static str>,
        primary_function: Option<&'static str>,
    ) -> (r: CustomersChar)
        ensures
            r@ == (
                id.spec_bytes(),
                name@,
                Seq::<usize>::empty(),
                appears_in@,
                opt_text(home_planet),
                opt_text(primary_function),
            ),
    {
        CustomersChar { id, name, friends: Vec::new(), appears_in, home_planet, primary_function }
    }

    /// The character's id text.
    pub fn id(&self) -> (r: &'static str)
        ensures
            r.spec_bytes() == self@.0,
    {
        self.id
    }

    /// The character's name.
    pub fn name(&self) -> (r: &'static str)
        ensures
            r@ == self@.1,
    {
        self.name
    }

    /// The keys of the character's friends.
    pub fn friends(&self) -> (r: &Vec<usize>)
        ensures
            r@ == self@.2,
    {
        &self.friends
    }

    /// The genders the character is listed with.
    pub fn appears_in(&self) -> (r: &Vec<Gender>)
        ensures
            r@ == self@.3,
    {
        &self.appears_in
    }

    /// The character's home planet, if known.
    pub fn home_planet(&self) -> (r: Option<&'static str>)
        ensures
            opt_text(r) == self@.4,
    {
        self.home_planet
    }

    /// The character's primary function, for droids.
    pub fn primary_function(&self) -> (r: Option<&'static str>)
        ensures
            opt_text(r) == self@.5,
    {
        self.primary_function
    }
}

/// The characters a slab holds, by key.
pub uninterp spec fn slab_chars(s: Slab<CustomersChar>) -> Map<usize, CharView>;

/// The chain of vacant keys of a slab of characters; the one the next
/// insertion takes is last.
pub uninterp spec fn slab_chars_free(s: Slab<CustomersChar>) -> Seq<usize>;

/// The number of entries, vacant or not, a slab of characters has laid out.
pub uninterp spec fn slab_chars_slots(s: Slab<CustomersChar>) -> nat;

/// Relies on slab::Slab::new: a slab that holds nothing, with no entries and
/// no vacant key.
#[verifier::external_body]
fn chars_new() -> (r: Slab<CustomersChar>)
    ensures
        slab_chars(r).dom() == Set::<usize>::empty(),
        slab_chars_free(r).len() == 0,
        slab_chars_slots(r) == 0,
{
    Slab::new()
}

/// Relies on slab::Slab::insert (and `insert_at`): the value is stored under
/// the `next` key, which is returned; at the end a new entry is pushed, else
/// the vacant chain loses that key. No other entry changes.
#[verifier::external_body]
fn chars_insert(s: &mut Slab<CustomersChar>, c: CustomersChar) -> (r: usize)
    ensures
        !slab_chars(*old(s)).dom().contains(r),
        r == next_slot(slab_chars_free(*old(s)), slab_chars_slots(*old(s))),
        slab_chars(*final(s)) == slab_chars(*old(s)).insert(r, c@),
        slab_chars_free(*final(s)) == (if slab_chars_free(*old(s)).len() == 0 {
            slab_chars_free(*old(s))
        } else {
            slab_chars_free(*old(s)).drop_last()
        }),
        slab_chars_slots(*final(s)) == (if slab_chars_free(*old(s)).len() == 0 {
            slab_chars_slots(*old(s)) + 1
        } else {
            slab_chars_slots(*old(s))
        }),
{
    s.insert(c)
}

/// Relies on slab's `IndexMut`: the value stored under the key, to change in
/// place; it panics when there is none.
#[verifier::external_body]
fn chars_get_mut(s: &mut Slab<CustomersChar>, key: usize) -> (r: &mut CustomersChar)
    requires
        slab_chars(*old(s)).dom().contains(key),
    ensures
        r@ == slab_chars(*old(s))[key],
        slab_chars(*final(s)) == slab_chars(*old(s)).insert(key, final(r)@),
        slab_chars_free(*final(s)) == slab_chars_free(*old(s)),
        slab_chars_slots(*final(s)) == slab_chars_slots(*old(s)),
{
    &mut s[key]
}

/// Relies on slab::Slab::get: the value stored under the key, if any.
#[verifier::external_body]
fn chars_get(s: &Slab<CustomersChar>, key: usize) -> (r: Option<&CustomersChar>)
    ensures
        r is Some == slab_chars(*s).dom().contains(key),
        r is Some ==> r->Some_0@ == slab_chars(*s)[key],
{
    s.get(key)
}

/// The key of the first entry of `t` whose text is `b`.
pub open spec fn lookup(t: Seq<(Seq<u8>, usize)>, b: Seq<u8>) -> Option<usize>
    decreases t.len(),
{
    if t.len() == 0 {
        None
    } else if t[0].0 == b {
        Some(t[0].1)
    } else {
        lookup(t.drop_first(), b)
    }
}

/// With texts that differ pairwise, the entry whose text is `b` is the one
/// found; with no such entry, none is.
proof fn lookup_finds(t: Seq<(Seq<u8>, usize)>, b: Seq<u8>)
    requires
        forall|i: int, j: int|
            0 <= i < t.len() && 0 <= j < t.len() && i != j ==> #[trigger] t[i].0 != #[trigger] t[j].0,
    ensures
        forall|i: int| 0 <= i < t.len() && #[trigger] t[i].0 == b ==> lookup(t, b) == Some(t[i].1),
        (forall|i: int| 0 <= i < t.len() ==> #[trigger] t[i].0 != b) ==> lookup(t, b) is None,
    decreases t.len(),
{
    if t.len() > 0 {
        let rest = t.drop_first();
        assert forall|i: int, j: int|
            0 <= i < rest.len() && 0 <= j < rest.len() && i != j implies #[trigger] rest[i].0
            != #[trigger] rest[j].0 by {
            assert(t[i + 1].0 != t[j + 1].0);
        }
        lookup_finds(rest, b);
        assert forall|i: int| 0 <= i < t.len() && #[trigger] t[i].0 == b implies lookup(t, b) == Some(
            t[i].1,
        ) by {
            if i > 0 {
                assert(t[0].0 != t[i].0);
                assert(rest[i - 1] == t[i]);
            }
        }
        if forall|i: int| 0 <= i < t.len() ==> #[trigger] t[i].0 != b {
            assert(t[0].0 != b);
            assert forall|i: int| 0 <= i < rest.len() implies #[trigger] rest[i].0 != b by {
                assert(rest[i] == t[i + 1]);
            }
        }
    }
}

/// Whether two texts have the same bytes.
fn same_text(a: &str, b: &str) -> (r: bool)
    ensures
        r == (a.spec_bytes() == b.spec_bytes()),
{
    let x = a.as_bytes();
    let y = b.as_bytes();
    if x.len() != y.len() {
        return false;
    }
    let mut i: usize = 0;
    while i < x.len()
        invariant
            x@ == a.spec_bytes(),
            y@ == b.spec_bytes(),
            x@.len() == y@.len(),
            0 <= i <= x@.len(),
            forall|j: int| 0 <= j < i ==> x@[j] == y@[j],
        decreases x.len() - i,
    {
        if x[i] != y[i] {
            assert(x@[i as int] != y@[i as int]);
            return false;
        }
        i = i + 1;
    }
    assert(x@ =~= y@);
    true
}

/// The humans' id texts are four bytes long and differ in the last.
proof fn human_id_digits()
    ensures
        "1000".spec_bytes().len() == 4 && "1000".spec_bytes()[3] == 48u8,
        "1001".spec_bytes().len() == 4 && "1001".spec_bytes()[3] == 49u8,
        "1002".spec_bytes().len() == 4 && "1002".spec_bytes()[3] == 50u8,
        "1003".spec_bytes().len() == 4 && "1003".spec_bytes()[3] == 51u8,
        "1004".spec_bytes().len() == 4 && "1004".spec_bytes()[3] == 52u8,
{
    reveal_strlit("1000");
    reveal_strlit("1001");
    reveal_strlit("1002");
    reveal_strlit("1003");
    reveal_strlit("1004");
    vstd::string::is_ascii_spec_bytes("1000");
    vstd::string::is_ascii_spec_bytes("1001");
    vstd::string::is_ascii_spec_bytes("1002");
    vstd::string::is_ascii_spec_bytes("1003");
    vstd::string::is_ascii_spec_bytes("1004");
}

/// The cast, with the humans indexed by id text.
pub struct Customers {
    luke: usize,
    artoo: usize,
    chars: Slab<CustomersChar>,
    human_data: Vec<(&'static str, usize)>,
}

impl Customers {
    /// Luke Skywalker's key.
    pub closed spec fn luke_key(&self) -> usize {
        self.luke
    }

    /// R2-D2's key.
    pub closed spec fn artoo_key(&self) -> usize {
        self.artoo
    }

    /// The characters by key.
    pub closed spec fn chars_view(&self) -> Map<usize, CharView> {
        slab_chars(self.chars)
    }

    /// The human index: id text and key, in the order the humans were added.
    pub closed spec fn humans_view(&self) -> Seq<(Seq<u8>, usize)> {
        self.human_data@.map_values(|e: (&'static str, usize)| (e.0.spec_bytes(), e.1))
    }

    /// Every indexed human is a stored character with that id, and every
    /// friend is a stored character.
    pub open spec fn wf(&self) -> bool {
        &&& forall|i: int| 0 <= i < self.humans_view().len() ==> {
            let (text, key) = #[trigger] self.humans_view()[i];
            &&& self.chars_view().dom().contains(key)
            &&& self.chars_view()[key].0 == text
        }
        &&& forall|i: int, j: int|
            0 <= i < self.humans_view().len() && 0 <= j < self.humans_view().len() && i != j
                ==> #[trigger] self.humans_view()[i].0 != #[trigger] self.humans_view()[j].0
        &&& forall|k: usize, j: int| #[trigger] self.chars_view().dom().contains(k)
            && 0 <= j < self.chars_view()[k].2.len() ==> self.chars_view().dom().contains(
            #[trigger] self.chars_view()[k].2[j],
        )
    }

    /// The cast: five humans (Luke Skywalker, Anakin Skywalker, Han Solo,
    /// Leia Organa, Wilhuff Tarkin) under the keys 0 to 4 and two droids
    /// (C-3PO, R2-D2) under 5 and 6, with their friendships; the humans are
    /// indexed by the ids "1000" to "1004".
    pub fn new() -> (r: Customers)
        ensures
            r.wf(),
            r.luke_key() == 0,
            r.artoo_key() == 6,
            r.chars_view().dom() == set![0usize, 1, 2, 3, 4, 5, 6],
            r.chars_view()[0] == (
                "1000".spec_bytes(),
                "Luke Skywalker"@,
                seq![2usize, 3, 5, 6],
                Seq::<Gender>::empty(),
                Some("Tatooine"@),
                None::<Seq<char>>,
            ),
            r.chars_view()[1] == (
                "1001".spec_bytes(),
                "Anakin Skywalker"@,
                seq![4usize],
                Seq::<Gender>::empty(),
                Some("Tatooine"@),
                None::<Seq<char>>,
            ),
            r.chars_view()[2] == (
                "1002".spec_bytes(),
                "Han Solo"@,
                seq![0usize, 3, 6],
                seq![Gender::Male],
                None::<Seq<char>>,
                None::<Seq<char>>,
            ),
            r.chars_view()[3] == (
                "1003".spec_bytes(),
                "Leia Organa"@,
                seq![0usize, 2, 5, 6],
                seq![Gender::Male],
                Some("Alderaa"@),
                None::<Seq<char>>,
            ),
            r.chars_view()[4] == (
                "1004".spec_bytes(),
                "Wilhuff Tarkin"@,
                seq![1usize],
                seq![Gender::Female, Gender::Male],
                None::<Seq<char>>,
                None::<Seq<char>>,
            ),
            r.chars_view()[5] == (
                "2000".spec_bytes(),
                "C-3PO"@,
                seq![0usize, 2, 3, 6],
                seq![Gender::Female],
                None::<Seq<char>>,
                Some("Protocol"@),
            ),
            r.chars_view()[6] == (
                "2001".spec_bytes(),
                "R2-D2"@,
                seq![0usize, 2, 3],
                seq![Gender::Female],
                None::<Seq<char>>,
                Some("Astromech"@),
            ),
            r.humans_view() == seq![
                ("1000".spec_bytes(), 0usize),
                ("1001".spec_bytes(), 1usize),
                ("1002".spec_bytes(), 2usize),
                ("1003".spec_bytes(), 3usize),
                ("1004".spec_bytes(), 4usize),
            ],
            forall|k: usize, j: int| #[trigger] r.chars_view().dom().contains(k) && 0 <= j
                < r.chars_view()[k].2.len() ==> #[trigger] r.chars_view()[k].2[j] != k,
            forall|k: usize| #[trigger] r.chars_view().dom().contains(k)
                ==> r.chars_view()[k].2.no_duplicates(),
    {
        let mut chars = chars_new();
        let luke = chars_insert(
            &mut chars,
            CustomersChar::create("1000", "Luke Skywalker", vec![], Some("Tatooine"), None),
        );
        let vader = chars_insert(
            &mut chars,
            CustomersChar::create("1001", "Anakin Skywalker", vec![], Some("Tatooine"), None),
        );
        let han = chars_insert(
            &mut chars,
            CustomersChar::create("1002", "Han Solo", vec![Gender::Male], None, None),
        );
        let leia = chars_insert(
            &mut chars,
            CustomersChar::create("1003", "Leia Organa", vec![Gender::Male], Some("Alderaa"), None),
        );
        let tarkin = chars_insert(
            &mut chars,
            CustomersChar::create(
                "1004",
                "Wilhuff Tarkin",
                vec![Gender::Female, Gender::Male],
                None,
                None,
            ),
        );
        let threepio = chars_insert(
            &mut chars,
            CustomersChar::create("2000", "C-3PO", vec![Gender::Female], None, Some("Protocol")),
        );
        let artoo = chars_insert(
            &mut chars,
            CustomersChar::create("2001", "R2-D2", vec![Gender::Female], None, Some("Astromech")),
        );
        let ghost keys = set![luke, vader, han, leia, tarkin, threepio, artoo];
        assert(slab_chars(chars).dom() =~= keys);
        chars_get_mut(&mut chars, luke).friends = vec![han, leia, threepio, artoo];
        chars_get_mut(&mut chars, vader).friends = vec![tarkin];
        chars_get_mut(&mut chars, han).friends = vec![luke, leia, artoo];
        chars_get_mut(&mut chars, leia).friends = vec![luke, han, threepio, artoo];
        chars_get_mut(&mut chars, tarkin).friends = vec![vader];
        chars_get_mut(&mut chars, threepio).friends = vec![luke, han, leia, artoo];
        chars_get_mut(&mut chars, artoo).friends = vec![luke, han, leia];
        assert(slab_chars(chars).dom() =~= keys);

        let mut human_data: Vec<(&'static str, usize)> = Vec::new();
        human_data.push(("1000", luke));
        human_data.push(("1001", vader));
        human_data.push(("1002", han));
        human_data.push(("1003", leia));
        human_data.push(("1004", tarkin));

        let r = Customers { luke, artoo, chars, human_data };
        proof {
            human_id_digits();
            assert(r.humans_view() =~= seq![
                ("1000".spec_bytes(), 0usize),
                ("1001".spec_bytes(), 1usize),
                ("1002".spec_bytes(), 2usize),
                ("1003".spec_bytes(), 3usize),
                ("1004".spec_bytes(), 4usize),
            ]);
            assert(r.chars_view().dom() =~= set![0usize, 1, 2, 3, 4, 5, 6]);
            let hv = r.humans_view();
            assert forall|i: int, j: int|
                0 <= i < hv.len() && 0 <= j < hv.len() && i != j implies #[trigger] hv[i].0
                != #[trigger] hv[j].0 by {
                assert(hv[i].0[3] != hv[j].0[3]);
            }
        }
        r
    }

    /// The key of the human whose id text is `id`, if there is one.
    pub fn human(&self, id: &str) -> (r: Option<usize>)
        requires
            self.wf(),
        ensures
            r == lookup(self.humans_view(), id.spec_bytes()),
            forall|i: int| 0 <= i < self.humans_view().len() && #[trigger] self.humans_view()[i].0
                == id.spec_bytes() ==> r == Some(self.humans_view()[i].1),
            (forall|i: int| 0 <= i < self.humans_view().len() ==> #[trigger] self.humans_view()[i].0
                != id.spec_bytes()) ==> r is None,
    {
        let mut i: usize = 0;
        assert(self.humans_view().subrange(0, self.humans_view().len() as int)
            =~= self.humans_view());
        while i < self.human_data.len()
            invariant
                self.wf(),
                0 <= i <= self.humans_view().len(),
                self.humans_view().len() == self.human_data@.len(),
                lookup(self.humans_view(), id.spec_bytes()) == lookup(
                    self.humans_view().subrange(i as int, self.humans_view().len() as int),
                    id.spec_bytes(),
                ),
            decreases self.human_data.len() - i,
        {
            let ghost t = self.humans_view().subrange(i as int, self.humans_view().len() as int);
            assert(t.drop_first() =~= self.humans_view().subrange(
                i + 1,
                self.humans_view().len() as int,
            ));
            let (text, key) = self.human_data[i];
            if same_text(text, id) {
                proof {
                    lookup_finds(self.humans_view(), id.spec_bytes());
                }
                return Some(key);
            }
            i = i + 1;
        }
        proof {
            lookup_finds(self.humans_view(), id.spec_bytes());
        }
        None
    }

    /// The keys of all humans, in the order they were added.
    pub fn humans(&self) -> (r: Vec<usize>)
        ensures
            r@ == self.humans_view().map_values(|e: (Seq<u8>, usize)| e.1),
    {
        let mut out: Vec<usize> = Vec::new();
        let mut i: usize = 0;
        while i < self.human_data.len()
            invariant
                0 <= i <= self.human_data@.len(),
                self.humans_view().len() == self.human_data@.len(),
                out@ == self.humans_view().subrange(0, i as int).map_values(
                    |e: (Seq<u8>, usize)| e.1,
                ),
            decreases self.human_data.len() - i,
        {
            out.push(self.human_data[i].1);
            assert(self.humans_view().subrange(0, i + 1).map_values(|e: (Seq<u8>, usize)| e.1)
                =~= out@);
            i = i + 1;
        }
        assert(self.humans_view().subrange(0, i as int) =~= self.humans_view());
        out
    }

    /// The character stored under `key`, if any.
    pub fn character(&self, key: usize) -> (r: Option<&CustomersChar>)
        ensures
            r is Some == self.chars_view().dom().contains(key),
            r is Some ==> r->Some_0@ == self.chars_view()[key],
    {
        chars_get(&self.chars, key)
    }
}

} // verus!
