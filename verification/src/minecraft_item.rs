//! Item identifiers that were checked against the catalog.

use vstd::prelude::*;
use crate::catalog::Catalog;

verus! {

/// An identifier known to the catalog it was checked against. The only way
/// to make one is [`MinecraftItem::new`], so holding one means the lookup
/// succeeded.
#[derive(Debug)]
pub struct MinecraftItem<'i> {
    id: &'i str,
}

/// An identifier that the catalog does not hold.
#[derive(Debug)]
pub struct ItemValidationError<'i> {
    id: &'i str,
}

impl<'i> View for MinecraftItem<'i> {
    type V = Seq<char>;

    /// The identifier's text.
    closed spec fn view(&self) -> Seq<char> {
        self.id@
    }
}

impl<'i> View for ItemValidationError<'i> {
    type V = Seq<char>;

    /// The text of the identifier that was turned down.
    closed spec fn view(&self) -> Seq<char> {
        self.id@
    }
}

/// The texts of a list of string slices.
pub open spec fn texts(raw: Seq<&str>) -> Seq<Seq<char>> {
    raw.map_values(|id: &str| id@)
}

/// The identifiers of a list of items.
pub open spec fn ids_of(items: Seq<MinecraftItem>) -> Seq<Seq<char>> {
    items.map_values(|item: MinecraftItem| item@)
}

/// The identifiers of a list of lookup errors.
pub open spec fn rejected_ids(errors: Seq<ItemValidationError>) -> Seq<Seq<char>> {
    errors.map_values(|error: ItemValidationError| error@)
}

/// Those of `raw` that the catalog holds, in the order in which they stand there.
pub open spec fn known_among(raw: Seq<Seq<char>>, catalog: Set<Seq<char>>) -> Seq<Seq<char>> {
    raw.filter(|id: Seq<char>| catalog.contains(id))
}

/// Those of `raw` that the catalog does not hold, in the order in which they stand
/// there.
pub open spec fn unknown_among(raw: Seq<Seq<char>>, catalog: Set<Seq<char>>) -> Seq<Seq<char>> {
    raw.filter(|id: Seq<char>| !catalog.contains(id))
}

impl<'i> ItemValidationError<'i> {
    /// The identifier that was turned down.
    pub fn id(&self) -> (id: &'i str)
        ensures
            id@ == self@,
    {
        self.id
    }

    /// What to tell the user.
    pub fn message(&self) -> (text: String)
        ensures
            text@ == "No item with such id"@,
    {
        "No item with such id".to_owned()
    }
}

impl<'i> MinecraftItem<'i> {
    /// Looks `id` up in the catalog and wraps it if it is there.
    pub fn new(id: &'i str, catalog: &Catalog) -> (outcome: Result<
        MinecraftItem<'i>,
        ItemValidationError<'i>,
    >)
        ensures
            match outcome {
                Ok(item) => catalog@.contains(id@) && item@ == id@,
                Err(error) => !catalog@.contains(id@) && error@ == id@,
            },
    {
        if !catalog.contains(id) {
            return Err(ItemValidationError { id });
        }
        Ok(MinecraftItem { id })
    }

    /// The identifier's text.
    pub fn id(&self) -> (id: &'i str)
        ensures
            id@ == self@,
    {
        self.id
    }

    /// Looks every identifier of `raw_ids` up and sorts them into the known
    /// ones, wrapped, and the unknown ones, each as an error. Both lists keep
    /// the order of `raw_ids`.
    pub fn sift(raw_ids: &[&'i str], catalog: &Catalog) -> (sifted: (
        Vec<MinecraftItem<'i>>,
        Vec<ItemValidationError<'i>>,
    ))
        ensures
            ids_of(sifted.0@) == known_among(texts(raw_ids@), catalog@),
            rejected_ids(sifted.1@) == unknown_among(texts(raw_ids@), catalog@),
    {
        let mut known: Vec<MinecraftItem<'i>> = Vec::new();
        let mut unknown: Vec<ItemValidationError<'i>> = Vec::new();
        let ghost raw = texts(raw_ids@);
        let mut i: usize = 0;
        proof {
            reveal(Seq::filter);
            assert(raw.take(0) =~= Seq::<Seq<char>>::empty());
            assert(ids_of(known@) =~= Seq::<Seq<char>>::empty());
            assert(rejected_ids(unknown@) =~= Seq::<Seq<char>>::empty());
        }
        while i < raw_ids.len()
            invariant
                i <= raw_ids.len(),
                raw == texts(raw_ids@),
                ids_of(known@) == known_among(raw.take(i as int), catalog@),
                rejected_ids(unknown@) == unknown_among(raw.take(i as int), catalog@),
            decreases raw_ids.len() - i,
        {
            let ghost known_before = known@;
            let ghost unknown_before = unknown@;
            proof {
                let id = raw[i as int];
                assert(raw.take(i + 1) =~= raw.take(i as int).push(id));
                raw.take(i as int).lemma_filter_push(id, |id: Seq<char>| catalog@.contains(id));
                raw.take(i as int).lemma_filter_push(id, |id: Seq<char>| !catalog@.contains(id));
            }
            match MinecraftItem::new(raw_ids[i], catalog) {
                Ok(item) => {
                    known.push(item);
                    assert(ids_of(known@) =~= ids_of(known_before).push(item@));
                },
                Err(error) => {
                    unknown.push(error);
                    assert(rejected_ids(unknown@) =~= rejected_ids(unknown_before).push(error@));
                },
            }
            i += 1;
        }
        proof {
            assert(raw.take(raw_ids.len() as int) =~= raw);
        }
        (known, unknown)
    }
}

} // verus!
