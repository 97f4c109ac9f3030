//! The item view itself: where its picture comes from, the draft that
//! gathers its parts, and the properties text that a finished item renders to.

use std::marker::PhantomData;
use vstd::prelude::*;
use crate::minecraft_item::{ids_of, known_among, rejected_ids, texts, unknown_among};
use crate::minecraft_item::{ItemValidationError, MinecraftItem};
use crate::catalog::Catalog;
use crate::path::{extension, extension_of, file_name, file_name_of, file_stem, file_stem_of};
use crate::path::{is_plain_name, lemma_extension_in_dotless_name, lemma_file_name_of_plain_name};
use crate::path::lemma_parts_of_dotted_path;
use crate::text::{joined, same_text};

verus! {

/// Why a path was not accepted as the source of an item view.
#[derive(Debug)]
pub enum ClassificationError {
    /// The path has no extension to go by.
    MissingExtension,
    /// The path has the given extension, which is neither a texture's nor a
    /// model's.
    UnsupportedExtension(String),
}

/// Where an item view's picture comes from. A texture's path ends in `.png`,
/// a model's in `.bbmodel`; [`ViewSource::new`] hands out nothing else.
#[derive(Debug)]
pub enum ViewSource<'a> {
    Texture(&'a str),
    Model(&'a str),
}

/// A source as a plain value: its kind and the text of its path.
pub enum SourceView {
    Texture(Seq<char>),
    Model(Seq<char>),
}

/// A source as the command line names it, by kind and path.
#[derive(Debug)]
pub enum ItemSource {
    Texture { texture: String },
    Model { model: String },
}

impl SourceView {
    /// The path, whatever the kind.
    pub open spec fn path(self) -> Seq<char> {
        match self {
            SourceView::Texture(path) => path,
            SourceView::Model(path) => path,
        }
    }

    /// The extension that a source of this kind carries.
    pub open spec fn extension(self) -> Seq<char> {
        match self {
            SourceView::Texture(_) => "png"@,
            SourceView::Model(_) => "bbmodel"@,
        }
    }

    /// The path's extension is the one of the kind.
    pub open spec fn wf(self) -> bool {
        extension_of(self.path()) == Some(self.extension())
    }
}

impl<'a> View for ViewSource<'a> {
    type V = SourceView;

    open spec fn view(&self) -> SourceView {
        match self {
            ViewSource::Texture(path) => SourceView::Texture(path@),
            ViewSource::Model(path) => SourceView::Model(path@),
        }
    }
}

/// What classifying a file at `path` has to give: a source of the kind that
/// the path's extension stands for, around that very path, or the reason why
/// there is none.
pub open spec fn classified(
    path: Seq<char>,
    outcome: Result<ViewSource, ClassificationError>,
) -> bool {
    match extension_of(path) {
        None => outcome matches Err(ClassificationError::MissingExtension),
        Some(ext) => if ext == "png"@ {
            outcome matches Ok(source) && source@ == SourceView::Texture(path)
        } else if ext == "bbmodel"@ {
            outcome matches Ok(source) && source@ == SourceView::Model(path)
        } else {
            outcome matches Err(ClassificationError::UnsupportedExtension(found)) && found@ == ext
        },
    }
}

impl ClassificationError {
    /// What to tell the user.
    pub fn message(&self) -> (text: String)
        ensures
            text@ == match self {
                ClassificationError::MissingExtension => "File extension is incorrect"@,
                ClassificationError::UnsupportedExtension(ext) => ext@
                    + " extension is not texture or model"@,
            },
    {
        match self {
            ClassificationError::MissingExtension => "File extension is incorrect".to_owned(),
            ClassificationError::UnsupportedExtension(ext) => ext.clone().concat(
                " extension is not texture or model",
            ),
        }
    }
}

impl<'a> ViewSource<'a> {
    /// Classifies `file` by its extension.
    pub fn new(file: &'a str) -> (outcome: Result<ViewSource<'a>, ClassificationError>)
        ensures
            classified(file@, outcome),
    {
        match extension(file) {
            Some(ext) => {
                if same_text(ext, "png") {
                    Ok(ViewSource::Texture(file))
                } else if same_text(ext, "bbmodel") {
                    Ok(ViewSource::Model(file))
                } else {
                    Err(ClassificationError::UnsupportedExtension(ext.to_owned()))
                }
            },
            None => Err(ClassificationError::MissingExtension),
        }
    }

    /// Classifies the path that `item_source` holds. The extension decides,
    /// not the kind under which the path was handed in.
    pub fn from_item_source(item_source: &'a ItemSource) -> (outcome: Result<
        ViewSource<'a>,
        ClassificationError,
    >)
        ensures
            classified(
                match item_source {
                    ItemSource::Texture { texture } => texture@,
                    ItemSource::Model { model } => model@,
                },
                outcome,
            ),
    {
        match item_source {
            ItemSource::Texture { texture } => ViewSource::new(texture.as_str()),
            ItemSource::Model { model } => ViewSource::new(model.as_str()),
        }
    }

    /// The path of the source file.
    pub fn path(&self) -> (path: &'a str)
        ensures
            path@ == self@.path(),
    {
        match self {
            ViewSource::Texture(t) => t,
            ViewSource::Model(m) => m,
        }
    }
}

/// Tells, as a type, whether a part of a draft has been supplied.
pub trait Slot {
    /// Whether the part is there.
    spec fn filled() -> bool;
}

/// The draft has a name.
#[derive(Default, Clone)]
pub struct Name;

/// The draft has no name yet.
#[derive(Default, Clone)]
pub struct NoName;

/// The draft has a source.
#[derive(Default, Clone)]
pub struct Source;

/// The draft has no source yet.
#[derive(Default, Clone)]
pub struct NoSource;

/// The draft has its items.
#[derive(Default, Clone)]
pub struct Items;

/// The draft has no items yet.
#[derive(Default, Clone)]
pub struct NoItems;

impl Slot for Name {
    open spec fn filled() -> bool {
        true
    }
}

impl Slot for NoName {
    open spec fn filled() -> bool {
        false
    }
}

impl Slot for Source {
    open spec fn filled() -> bool {
        true
    }
}

impl Slot for NoSource {
    open spec fn filled() -> bool {
        false
    }
}

impl Slot for Items {
    open spec fn filled() -> bool {
        true
    }
}

impl Slot for NoItems {
    open spec fn filled() -> bool {
        false
    }
}

/// Why a draft did not advance.
#[derive(Debug)]
pub enum BuildError {
    /// Not one item was supplied.
    EmptyItemList,
}

impl BuildError {
    /// What to tell the user.
    pub fn message(&self) -> (text: String)
        ensures
            text@ == "No items were provided"@,
    {
        "No items were provided".to_owned()
    }
}

/// A draft as a plain value: what has been supplied so far.
pub struct DraftView {
    pub name: Option<Seq<char>>,
    pub source: Option<SourceView>,
    pub ids: Option<Seq<Seq<char>>>,
}

/// A finished item as a plain value.
pub struct ItemView {
    pub name: Seq<char>,
    pub source: SourceView,
    pub ids: Seq<Seq<char>>,
}

impl DraftView {
    /// The parts that are there are exactly those that the three flags
    /// announce, the source is of the kind that its path says, and the items
    /// are at least one.
    pub open spec fn agrees_with(self, name: bool, source: bool, items: bool) -> bool {
        &&& self.name is Some == name
        &&& self.source is Some == source
        &&& self.ids is Some == items
        &&& self.source matches Some(s) ==> s.wf()
        &&& self.ids matches Some(ids) ==> ids.len() > 0
    }

    /// Nothing is missing: there is a name, a source and at least one item.
    pub open spec fn complete(self) -> bool {
        &&& self.name is Some
        &&& self.source matches Some(s) && s.wf()
        &&& self.ids matches Some(ids) && ids.len() > 0
    }

    /// The item that a complete draft stands for.
    pub open spec fn finished(self) -> ItemView
        recommends
            self.complete(),
    {
        ItemView { name: self.name->0, source: self.source->0, ids: self.ids->0 }
    }
}

impl ItemView {
    /// The source is of the kind that its path says, and there is at least
    /// one item.
    pub open spec fn wf(self) -> bool {
        self.source.wf() && self.ids.len() > 0
    }
}

/// A draft of an item view. The three type parameters record which parts
/// have been supplied, so that only a draft with all of them can be built.
pub struct ItemBuilder<'n, 's, 'i, N: Slot, S: Slot, I: Slot> {
    custom_name: Option<&'n str>,
    source: Option<ViewSource<'s>>,
    items: Option<Vec<MinecraftItem<'i>>>,
    marker_name: PhantomData<N>,
    marker_source: PhantomData<S>,
    marker_items: PhantomData<I>,
}

/// A finished item view: a name, a source and at least one target item.
#[derive(Debug)]
pub struct Item<'n, 's, 'i> {
    custom_name: &'n str,
    source: ViewSource<'s>,
    items: Vec<MinecraftItem<'i>>,
}

impl<'n, 's, 'i, N: Slot, S: Slot, I: Slot> View for ItemBuilder<'n, 's, 'i, N, S, I> {
    type V = DraftView;

    closed spec fn view(&self) -> DraftView {
        DraftView {
            name: match self.custom_name {
                Some(name) => Some(name@),
                None => None,
            },
            source: match self.source {
                Some(source) => Some(source@),
                None => None,
            },
            ids: match self.items {
                Some(items) => Some(ids_of(items@)),
                None => None,
            },
        }
    }
}

impl<'n, 's, 'i> View for Item<'n, 's, 'i> {
    type V = ItemView;

    closed spec fn view(&self) -> ItemView {
        ItemView { name: self.custom_name@, source: self.source@, ids: ids_of(self.items@) }
    }
}

impl<'n, 's, 'i, N: Slot, S: Slot, I: Slot> ItemBuilder<'n, 's, 'i, N, S, I> {
    /// What holds of every draft: its parts are those that its type announces.
    #[verifier::type_invariant]
    pub open spec fn inv(&self) -> bool {
        self@.agrees_with(N::filled(), S::filled(), I::filled())
    }
}

impl<'n, 's, 'i> Item<'n, 's, 'i> {
    /// What holds of every finished item.
    #[verifier::type_invariant]
    pub open spec fn inv(&self) -> bool {
        self@.wf()
    }
}

impl<'n, 's, 'i> Item<'n, 's, 'i> {
    /// Starts an empty draft.
    #[allow(clippy::new_ret_no_self)]
    pub fn new() -> (draft: ItemBuilder<'n, 's, 'i, NoName, NoSource, NoItems>)
        ensures
            draft@ == (DraftView { name: None, source: None, ids: None }),
    {
        ItemBuilder {
            custom_name: None,
            source: None,
            items: None,
            marker_name: PhantomData,
            marker_source: PhantomData,
            marker_items: PhantomData,
        }
    }

    /// The display name.
    pub fn name(&self) -> (name: &'n str)
        ensures
            name@ == self@.name,
    {
        self.custom_name
    }

    /// The source of the picture.
    pub fn source(&self) -> (source: &ViewSource<'s>)
        ensures
            source@ == self@.source,
            source@.wf(),
    {
        proof {
            use_type_invariant(self);
        }
        &self.source
    }
}

impl<'n, 's, 'i, S: Slot, I: Slot> ItemBuilder<'n, 's, 'i, NoName, S, I> {
    /// Gives the draft its display name. Any text is taken, the empty one too.
    pub fn name(self, name: &'n str) -> (draft: ItemBuilder<'n, 's, 'i, Name, S, I>)
        ensures
            draft@ == (DraftView { name: Some(name@), ..self@ }),
    {
        proof {
            use_type_invariant(&self);
        }
        ItemBuilder {
            custom_name: Some(name),
            source: self.source,
            items: self.items,
            marker_name: PhantomData,
            marker_source: PhantomData,
            marker_items: PhantomData,
        }
    }
}

impl<'n, 's, 'i, I: Slot> ItemBuilder<'n, 's, 'i, NoName, Source, I> {
    /// Names the draft after its source file: the file's name without
    /// directory and extension.
    pub fn name_from_source(self) -> (draft: ItemBuilder<'n, 's, 'i, Name, Source, I>) where 's: 'n
        ensures
            self@.source is Some,
            file_stem_of(self@.source->0.path()) is Some,
            draft@ == (DraftView { name: file_stem_of(self@.source->0.path()), ..self@ }),
    {
        proof {
            use_type_invariant(&self);
        }
        let source = self.source.unwrap();
        let name = match file_stem(source.path()) {
            Some(stem) => stem,
            None => vstd::pervasive::unreached(),
        };
        ItemBuilder {
            custom_name: Some(name),
            source: Some(source),
            items: self.items,
            marker_name: PhantomData,
            marker_source: PhantomData,
            marker_items: PhantomData,
        }
    }
}

impl<'n, 's, 'i, N: Slot, I: Slot> ItemBuilder<'n, 's, 'i, N, NoSource, I> {
    /// Gives the draft its source.
    pub fn source(self, source: ViewSource<'s>) -> (draft: ItemBuilder<'n, 's, 'i, N, Source, I>)
        requires
            source@.wf(),
        ensures
            draft@ == (DraftView { source: Some(source@), ..self@ }),
    {
        proof {
            use_type_invariant(&self);
        }
        ItemBuilder {
            custom_name: self.custom_name,
            source: Some(source),
            items: self.items,
            marker_name: PhantomData,
            marker_source: PhantomData,
            marker_items: PhantomData,
        }
    }
}

impl<'n, 's, 'i, N: Slot, S: Slot> ItemBuilder<'n, 's, 'i, N, S, NoItems> {
    /// Gives the draft its target items. An empty list is turned down, and
    /// the draft comes back as it was.
    pub fn items(self, items: Vec<MinecraftItem<'i>>) -> (outcome: Result<
        ItemBuilder<'n, 's, 'i, N, S, Items>,
        (BuildError, ItemBuilder<'n, 's, 'i, N, S, NoItems>),
    >)
        ensures
            match outcome {
                Ok(draft) => items@.len() > 0 && draft@ == (DraftView {
                    ids: Some(ids_of(items@)),
                    ..self@
                }),
                Err((error, draft)) => items@.len() == 0 && error is EmptyItemList && draft
                    == self,
            },
    {
        proof {
            use_type_invariant(&self);
        }
        if items.len() == 0 {
            return Err((BuildError::EmptyItemList, self));
        }
        Ok(
            ItemBuilder {
                custom_name: self.custom_name,
                source: self.source,
                items: Some(items),
                marker_name: PhantomData,
                marker_source: PhantomData,
                marker_items: PhantomData,
            },
        )
    }

    /// Looks the raw identifiers up in the catalog and gives the draft those
    /// that are known, in the order in which they came. The unknown ones are
    /// handed back, each as an error of its own; the caller decides what to
    /// make of them. If none is known the draft is turned down and comes back
    /// as it was.
    pub fn with_items(self, raw_ids: &[&'i str], catalog: &Catalog) -> (outcome: (
        Result<
            ItemBuilder<'n, 's, 'i, N, S, Items>,
            (BuildError, ItemBuilder<'n, 's, 'i, N, S, NoItems>),
        >,
        Vec<ItemValidationError<'i>>,
    ))
        ensures
            rejected_ids(outcome.1@) == unknown_among(texts(raw_ids@), catalog@),
            match outcome.0 {
                Ok(draft) => {
                    &&& known_among(texts(raw_ids@), catalog@).len() > 0
                    &&& draft@ == (DraftView {
                        ids: Some(known_among(texts(raw_ids@), catalog@)),
                        ..self@
                    })
                },
                Err((error, draft)) => {
                    &&& known_among(texts(raw_ids@), catalog@).len() == 0
                    &&& error is EmptyItemList
                    &&& draft == self
                },
            },
    {
        let (known, unknown) = MinecraftItem::sift(raw_ids, catalog);
        (self.items(known), unknown)
    }
}

impl<'n, 's, 'i> ItemBuilder<'n, 's, 'i, Name, Source, Items> {
    /// Finishes the draft. Nothing can be missing: a draft of this type has
    /// its name, its source and at least one item.
    pub fn build(self) -> (item: Item<'n, 's, 'i>)
        ensures
            self@.complete(),
            item@ == self@.finished(),
            item@.wf(),
    {
        proof {
            use_type_invariant(&self);
        }
        Item {
            custom_name: self.custom_name.unwrap(),
            source: self.source.unwrap(),
            items: self.items.unwrap(),
        }
    }
}

/// Each identifier behind the namespace tag under which the game knows it.
pub open spec fn tagged(ids: Seq<Seq<char>>) -> Seq<Seq<char>> {
    ids.map_values(|id: Seq<char>| "minecraft:"@ + id)
}

/// The line that names the source: its kind, then the file's name without
/// the directories before it.
pub open spec fn source_line(source: SourceView) -> Seq<char>
    recommends
        source.wf(),
{
    let key = match source {
        SourceView::Texture(_) => "texture="@,
        SourceView::Model(_) => "model="@,
    };
    key + file_name_of(source.path())->0 + "\n"@
}

/// The properties text of an item: the type line, the target items, the
/// source, and the display name, which ends the text without a line feed.
pub open spec fn properties_text(item: ItemView) -> Seq<char>
    recommends
        item.wf(),
{
    "type=item\n"@ + "items="@ + joined(tagged(item.ids), " "@) + "\n"@ + source_line(item.source)
        + "components.minecraft\\:custom_name="@ + item.name
}

/// Where the item views of a resource pack are kept, seen from the pack's
/// root directory.
pub const CIT_DIRECTORY: &'static str = "minecraft/optifine/cit";

impl<'n, 's, 'i> Item<'n, 's, 'i> {
    /// The name of the file that holds the item's properties text: the
    /// display name with `.properties` behind it. The file belongs in a
    /// directory of the item's own, named by the display name alone.
    pub fn properties_file_name(&self) -> (file: String)
        ensures
            file@ == self@.name + ".properties"@,
    {
        self.custom_name.to_owned().concat(".properties")
    }

    /// Renders the item as its properties text.
    pub fn properties(&self) -> (contents: String)
        ensures
            contents@ == properties_text(self@),
    {
        proof {
            use_type_invariant(self);
        }
        let mut contents = "type=item\n".to_owned();
        contents.append("items=");
        let ghost head = contents@;
        let ghost ids = ids_of(self.items@);
        let mut i: usize = 0;
        proof {
            assert(tagged(ids.take(0)) =~= Seq::<Seq<char>>::empty());
            assert(contents@ =~= head + joined(tagged(ids.take(0)), " "@));
        }
        while i < self.items.len()
            invariant
                i <= self.items.len(),
                ids == ids_of(self.items@),
                contents@ == head + joined(tagged(ids.take(i as int)), " "@),
            decreases self.items.len() - i,
        {
            let ghost before = tagged(ids.take(i as int));
            let ghost after = tagged(ids.take(i + 1));
            proof {
                assert(after.drop_last() =~= before);
                assert(after.last() == "minecraft:"@ + ids[i as int]);
            }
            if i > 0 {
                contents.append(" ");
            }
            contents.append("minecraft:");
            contents.append(self.items[i].id());
            assert(contents@ =~= head + joined(after, " "@));
            i += 1;
        }
        proof {
            assert(ids.take(self.items.len() as int) =~= ids);
        }
        contents.append("\n");
        let file = match file_name(self.source.path()) {
            Some(name) => name,
            None => vstd::pervasive::unreached(),
        };
        match &self.source {
            ViewSource::Texture(_) => contents.append("texture="),
            ViewSource::Model(_) => contents.append("model="),
        }
        contents.append(file);
        contents.append("\n");
        contents.append("components.minecraft\\:custom_name=");
        contents.append(self.custom_name);
        assert(contents@ =~= properties_text(self@));
        contents
    }
}

/// A path that ends in `stem.ext` is classified by `ext` alone: `png` makes
/// it a texture, `bbmodel` a model, and anything else is turned down under
/// its own name. The directories before the name do not matter.
pub proof fn lemma_classified_by_extension(
    dir: Seq<char>,
    stem: Seq<char>,
    ext: Seq<char>,
    outcome: Result<ViewSource, ClassificationError>,
)
    requires
        stem.len() > 0,
        !stem.contains('/'),
        !ext.contains('/'),
        !ext.contains('.'),
        stem + seq!['.'] + ext != seq!['.', '.'],
        classified(dir + seq!['/'] + (stem + seq!['.'] + ext), outcome) || classified(
            stem + seq!['.'] + ext,
            outcome,
        ),
    ensures
        ext == "png"@ ==> (outcome matches Ok(source) && source@ is Texture && source@.wf()),
        ext == "bbmodel"@ ==> (outcome matches Ok(source) && source@ is Model && source@.wf()),
        ext != "png"@ && ext != "bbmodel"@ ==> (outcome matches Err(
            ClassificationError::UnsupportedExtension(found),
        ) && found@ == ext),
{
    lemma_parts_of_dotted_path(dir, stem, ext);
    reveal_strlit("png");
    reveal_strlit("bbmodel");
    assert("png"@.len() != "bbmodel"@.len());
}

/// A path that ends in a name without a dot has no extension to go by, and
/// is turned down for that.
pub proof fn lemma_classified_without_extension(
    dir: Seq<char>,
    name: Seq<char>,
    outcome: Result<ViewSource, ClassificationError>,
)
    requires
        is_plain_name(name),
        !name.contains('.'),
        classified(dir + seq!['/'] + name, outcome) || classified(name, outcome),
    ensures
        outcome matches Err(ClassificationError::MissingExtension),
{
    lemma_file_name_of_plain_name(dir, name);
    lemma_extension_in_dotless_name(name);
}

/// The properties text depends on nothing but the item: items that are the
/// same as plain values render to the same text, and so does one item asked
/// twice.
pub proof fn lemma_same_item_same_text(first: Item, second: Item, once: String, again: String)
    requires
        first@ == second@,
        once@ == properties_text(first@),
        again@ == properties_text(second@),
    ensures
        once@ == again@,
{
}

/// A draft whose type announces all three parts lacks none of them: it has a
/// name, a source of the kind that its path says, and at least one item.
pub proof fn lemma_announced_parts_are_there<N: Slot, S: Slot, I: Slot>(
    draft: ItemBuilder<N, S, I>,
)
    requires
        draft.inv(),
    ensures
        N::filled() && S::filled() && I::filled() <==> draft@.complete(),
        N::filled() <==> draft@.name is Some,
        S::filled() <==> draft@.source is Some,
        I::filled() <==> draft@.ids is Some,
{
}

} // verus!
