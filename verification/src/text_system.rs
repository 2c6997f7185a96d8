//! The font store and the family resolver.
//!
//! The store owns every loaded face and gives each a stable identifier: its
//! position in the store. Faces reach it when their family is first asked
//! for: from the faces added from memory, or else from those found
//! installed. The identifiers found for a family are cached under its name
//! and never change afterwards.

use crate::font::family_alias;
use crate::font::font_into_properties;
use crate::font::normalized_family;
use crate::font::Face;
use crate::font::Font;
use crate::font::FontError;
use crate::font::FontId;
use crate::font::FontMetrics;
use crate::font::FontRun;
use crate::font::GlyphId;
use crate::font::Properties;
use crate::font::Rejection;
use crate::font_ids::FontIdList;
use crate::geometry::Bounds;
use crate::geometry::Pixels;
use crate::geometry::Size;
use crate::line_layout::LineLayout;
use crate::matching::best_match;
use crate::matching::find_best_match;
use crate::shaping::faces_wf;
use crate::shaping::is_engine_outcome;
use crate::shaping::line_ascent;
use crate::shaping::line_descent;
use crate::shaping::line_layout_spec;
use crate::shaping::runs_registered;
use crate::shaping::EngineGlyph;
use vstd::prelude::*;
use vstd::string::StringSliceAdditionalSpecFns;

verus! {

/// One entry of the family cache.
struct FamilyEntry {
    name: String,
    font_ids: FontIdList,
}

/// One entry of the family cache as a value.
pub struct FamilyView {
    pub name: Seq<char>,
    pub font_ids: Seq<FontId>,
}

/// The text system as a value.
pub struct TextSystemView {
    /// The faces added from memory that no family has taken up yet.
    pub memory: Seq<Face>,
    /// The families of all faces ever added from memory, each once, in the
    /// order in which they first came.
    pub memory_families: Seq<Seq<char>>,
    /// The loaded faces; a face's identifier is its position.
    pub faces: Seq<Face>,
    /// The family cache, in the order in which the families were asked for.
    pub families: Seq<FamilyView>,
}

/// The text system: the faces added from memory, the loaded faces, and the
/// cache of the identifiers found for each family.
pub struct LinuxTextSystemState {
    memory_source: Vec<Face>,
    memory_family_names: Vec<String>,
    loaded_fonts_store: Vec<Face>,
    font_ids_by_family_cache: Vec<FamilyEntry>,
}

/// The position of the first cache entry for `name` at or after `from`.
pub open spec fn family_position(families: Seq<FamilyView>, name: Seq<char>, from: int) -> Option<
    int,
>
    decreases families.len() - from,
{
    if from < 0 || from >= families.len() {
        None
    } else if families[from].name == name {
        Some(from)
    } else {
        family_position(families, name, from + 1)
    }
}

/// The faces of `faces` that belong to the family `name`, in order.
pub open spec fn family_faces(faces: Seq<Face>, name: Seq<char>) -> Seq<Face>
    decreases faces.len(),
{
    if faces.len() == 0 {
        Seq::<Face>::empty()
    } else {
        let before = family_faces(faces.drop_last(), name);
        if faces.last().family_name@ == name {
            before.push(faces.last())
        } else {
            before
        }
    }
}

/// The faces of `faces` that do not belong to the family `name`, in order.
pub open spec fn other_faces(faces: Seq<Face>, name: Seq<char>) -> Seq<Face>
    decreases faces.len(),
{
    if faces.len() == 0 {
        Seq::<Face>::empty()
    } else {
        let before = other_faces(faces.drop_last(), name);
        if faces.last().family_name@ == name {
            before
        } else {
            before.push(faces.last())
        }
    }
}

/// The faces of `faces` that pass the validity filter, in order.
pub open spec fn usable_faces(faces: Seq<Face>) -> Seq<Face>
    decreases faces.len(),
{
    if faces.len() == 0 {
        Seq::<Face>::empty()
    } else {
        let before = usable_faces(faces.drop_last());
        if faces.last().usable() {
            before.push(faces.last())
        } else {
            before
        }
    }
}

/// The faces found for a family: those added from memory if there are any,
/// and those found installed otherwise.
pub open spec fn enumerated_faces(memory: Seq<Face>, name: Seq<char>, system: Seq<Face>) -> Seq<
    Face,
> {
    if family_faces(memory, name).len() > 0 {
        family_faces(memory, name)
    } else {
        system
    }
}

/// `count` identifiers in a row, the first of them `first`.
pub open spec fn id_range(first: int, count: int) -> Seq<FontId> {
    Seq::new(count as nat, |j: int| FontId((first + j) as usize))
}

/// The style of each of the faces named by `ids`.
pub open spec fn candidate_properties(faces: Seq<Face>, ids: Seq<FontId>) -> Seq<Properties> {
    Seq::new(ids.len(), |i: int| faces[ids[i].0 as int].properties)
}

/// The style that a font request asks for.
pub open spec fn requested_properties(font: Font) -> Properties {
    Properties { style: font.style, weight: font.weight, stretch: font.stretch }
}

/// The longest prefix of parsed fonts that can be added: it ends before the
/// first font that could not be parsed.
pub open spec fn loadable_prefix(fonts: Seq<Option<Face>>, from: int) -> int
    decreases fonts.len() - from,
{
    if from < 0 || from >= fonts.len() {
        fonts.len() as int
    } else if fonts[from].is_some() {
        loadable_prefix(fonts, from + 1)
    } else {
        from
    }
}

/// A face that was turned away, and why.
#[derive(Clone, Debug, PartialEq, Eq)]
pub struct RejectedFace {
    pub full_name: String,
    pub reason: Rejection,
}

/// A face that was turned away, as a value.
pub struct RejectedFaceView {
    pub full_name: Seq<char>,
    pub reason: Rejection,
}

impl View for RejectedFace {
    type V = RejectedFaceView;

    open spec fn view(&self) -> RejectedFaceView {
        RejectedFaceView { full_name: self.full_name@, reason: self.reason }
    }
}

/// Turned-away faces as values.
pub open spec fn rejections_view(rejected: Seq<RejectedFace>) -> Seq<RejectedFaceView> {
    Seq::new(rejected.len(), |i: int| rejected[i]@)
}

/// The faces of `faces` that fail the validity filter, in order, each with
/// its name and the reason.
pub open spec fn rejections(faces: Seq<Face>) -> Seq<RejectedFaceView>
    decreases faces.len(),
{
    if faces.len() == 0 {
        Seq::<RejectedFaceView>::empty()
    } else {
        let before = rejections(faces.drop_last());
        match faces.last().rejection() {
            Some(reason) => before.push(
                RejectedFaceView { full_name: faces.last().full_name@, reason },
            ),
            None => before,
        }
    }
}

/// The family names `names`, and behind them the family of each of `faces`
/// that is not among the names before it.
pub open spec fn with_family_names(names: Seq<Seq<char>>, faces: Seq<Face>) -> Seq<Seq<char>>
    decreases faces.len(),
{
    if faces.len() == 0 {
        names
    } else {
        let before = with_family_names(names, faces.drop_last());
        if before.contains(faces.last().family_name@) {
            before
        } else {
            before.push(faces.last().family_name@)
        }
    }
}

/// No name occurs twice.
pub open spec fn names_are_distinct(names: Seq<Seq<char>>) -> bool {
    forall|i: int, j: int| 0 <= i < j < names.len() ==> names[i] != names[j]
}

/// Strings as values.
pub open spec fn names_view(names: Seq<String>) -> Seq<Seq<char>> {
    Seq::new(names.len(), |i: int| names[i]@)
}

/// The faces of the first `count` parsed fonts.
pub open spec fn parsed_faces(fonts: Seq<Option<Face>>, count: int) -> Seq<Face> {
    Seq::new(count as nat, |i: int| fonts[i].unwrap())
}

impl TextSystemView {
    /// The identifiers cached for a family, if it has been asked for.
    pub open spec fn cached(self, name: Seq<char>) -> Option<Seq<FontId>> {
        match family_position(self.families, name, 0) {
            Some(at) => Some(self.families[at].font_ids),
            None => None,
        }
    }

    /// What holds of every text system: each loaded face passes the
    /// validity filter, the faces are no more than identifiers can count, no
    /// family is cached twice or listed twice among those from memory, and
    /// every cached identifier names a loaded face.
    pub open spec fn wf(self) -> bool {
        &&& forall|i: int| 0 <= i < self.faces.len() ==> (#[trigger] self.faces[i]).usable()
        &&& self.faces.len() <= usize::MAX
        &&& names_are_distinct(self.memory_families)
        &&& forall|i: int, j: int|
            0 <= i < j < self.families.len() ==> (#[trigger] self.families[i]).name != (
            #[trigger] self.families[j]).name
        &&& forall|i: int, k: int|
            0 <= i < self.families.len() && 0 <= k < self.families[i].font_ids.len() ==> (
            #[trigger] self.families[i].font_ids[k]).0 < self.faces.len()
    }

    /// The system after the family `name` has been asked for. A family that
    /// is cached changes nothing, and neither does one of which no face is
    /// found at all: such a family is not cached, and may be found later.
    /// Otherwise the faces found for it leave the memory source, those of
    /// them that pass the validity filter are loaded behind the faces already
    /// there, and their identifiers are cached under the family's name, even
    /// if none of the faces passed.
    pub open spec fn with_family(self, name: Seq<char>, system: Seq<Face>) -> TextSystemView {
        if self.cached(name).is_some() {
            self
        } else if enumerated_faces(self.memory, name, system).len() == 0 {
            self
        } else {
            let added = usable_faces(enumerated_faces(self.memory, name, system));
            TextSystemView {
                memory: other_faces(self.memory, name),
                memory_families: self.memory_families,
                faces: self.faces + added,
                families: self.families.push(
                    FamilyView {
                        name,
                        font_ids: id_range(self.faces.len() as int, added.len() as int),
                    },
                ),
            }
        }
    }

    /// The face that a request resolves to: the best match among the faces
    /// cached for its family. There is none while the family has not been
    /// asked for, and none in a family without faces.
    pub open spec fn resolution(self, font: Font) -> Result<FontId, FontError> {
        match self.cached(family_alias(font.family@)) {
            None => Err(FontError::NoMatch),
            Some(ids) => match best_match(
                candidate_properties(self.faces, ids),
                requested_properties(font),
            ) {
                None => Err(FontError::NoMatch),
                Some(ix) => Ok(ids[ix as int]),
            },
        }
    }
}

/// The cache entries as values.
spec fn families_view(entries: Seq<FamilyEntry>) -> Seq<FamilyView> {
    Seq::new(entries.len(), |i: int| FamilyView { name: entries[i].name@, font_ids: entries[i].font_ids@ })
}

impl View for LinuxTextSystemState {
    type V = TextSystemView;

    closed spec fn view(&self) -> TextSystemView {
        TextSystemView {
            memory: self.memory_source@,
            memory_families: names_view(self.memory_family_names@),
            faces: self.loaded_fonts_store@,
            families: families_view(self.font_ids_by_family_cache@),
        }
    }
}

/// A family that is not cached is found at the end of the cache once it has
/// been added there, and every family cached before is found where it was.
pub proof fn lemma_family_position_after_push(
    families: Seq<FamilyView>,
    added: FamilyView,
    name: Seq<char>,
    from: int,
)
    requires
        0 <= from <= families.len(),
    ensures
        family_position(families.push(added), name, from) == match family_position(
            families,
            name,
            from,
        ) {
            Some(at) => Some(at),
            None => if added.name == name {
                Some(families.len() as int)
            } else {
                None
            },
        },
    decreases families.len() - from,
{
    let longer = families.push(added);
    if from < families.len() {
        assert(longer[from] == families[from]);
        if families[from].name != name {
            lemma_family_position_after_push(families, added, name, from + 1);
        }
    } else {
        assert(longer[from] == added);
        assert(family_position(longer, name, from + 1).is_none());
    }
}

/// A family that is found is found within the cache, under its name.
pub proof fn lemma_family_position_in_range(families: Seq<FamilyView>, name: Seq<char>, from: int)
    ensures
        family_position(families, name, from) matches Some(at) ==> from <= at < families.len()
            && families[at].name == name,
    decreases families.len() - from,
{
    if 0 <= from < families.len() && families[from].name != name {
        lemma_family_position_in_range(families, name, from + 1);
    }
}

/// Filtering keeps no more faces than there are.
pub proof fn lemma_usable_faces_are_usable(faces: Seq<Face>)
    ensures
        usable_faces(faces).len() <= faces.len(),
        forall|i: int| 0 <= i < usable_faces(faces).len() ==> (#[trigger] usable_faces(faces)[i]).usable(),
    decreases faces.len(),
{
    if faces.len() > 0 {
        lemma_usable_faces_are_usable(faces.drop_last());
    }
}

/// Asking for a family keeps what holds of every text system.
pub proof fn lemma_with_family_keeps_wf(state: TextSystemView, name: Seq<char>, system: Seq<Face>)
    requires
        state.wf(),
        state.faces.len() + usable_faces(enumerated_faces(state.memory, name, system)).len()
            <= usize::MAX,
    ensures
        state.with_family(name, system).wf(),
{
    if state.cached(name).is_none() {
        let after = state.with_family(name, system);
        let added = usable_faces(enumerated_faces(state.memory, name, system));
        lemma_usable_faces_are_usable(enumerated_faces(state.memory, name, system));
        assert forall|i: int| 0 <= i < after.faces.len() implies (#[trigger] after.faces[i]).usable() by {
            if i >= state.faces.len() {
                assert(after.faces[i] == added[i - state.faces.len()]);
            }
        }
        assert forall|i: int, j: int| 0 <= i < j < after.families.len() implies (
        #[trigger] after.families[i]).name != (#[trigger] after.families[j]).name by {
            if j == state.families.len() {
                lemma_family_absent_everywhere(state.families, name, 0, i);
            }
        }
        assert forall|i: int, k: int|
            0 <= i < after.families.len() && 0 <= k < after.families[i].font_ids.len() implies (
        #[trigger] after.families[i].font_ids[k]).0 < after.faces.len() by {
            if i < state.families.len() {
                assert(after.families[i] == state.families[i]);
                assert(state.families[i].font_ids[k].0 < state.faces.len());
            }
        }
    }
}

/// A family that is not found from `from` on is the name of no entry from
/// there on.
pub proof fn lemma_family_absent_everywhere(
    families: Seq<FamilyView>,
    name: Seq<char>,
    from: int,
    at: int,
)
    requires
        0 <= from <= at < families.len(),
        family_position(families, name, from).is_none(),
    ensures
        families[at].name != name,
    decreases families.len() - from,
{
    if from < at {
        lemma_family_absent_everywhere(families, name, from + 1, at);
    }
}

/// Resolving is idempotent: asking for a family a second time with the same
/// faces found installed changes nothing, so the same request resolves to
/// the same face. Once the family is cached, what is found installed does
/// not matter any more.
pub proof fn lemma_font_id_is_idempotent(
    state: TextSystemView,
    font: Font,
    found: Seq<Face>,
    later: Seq<Face>,
)
    ensures
        ({
            let name = family_alias(font.family@);
            let once = state.with_family(name, found);
            &&& once.with_family(name, found) == once
            &&& once.with_family(name, found).resolution(font) == once.resolution(font)
            &&& once.cached(name).is_some() ==> once.with_family(name, later) == once
            &&& enumerated_faces(state.memory, name, found).len() > 0 ==> once.cached(
                name,
            ).is_some()
        }),
{
    let name = family_alias(font.family@);
    if state.cached(name).is_none() && enumerated_faces(state.memory, name, found).len() > 0 {
        let added = usable_faces(enumerated_faces(state.memory, name, found));
        let entry = FamilyView {
            name,
            font_ids: id_range(state.faces.len() as int, added.len() as int),
        };
        lemma_family_position_after_push(state.families, entry, name, 0);
    }
}

/// Identifiers are stable: asking for another family changes neither the
/// faces already loaded nor what a request for a cached family resolves to.
pub proof fn lemma_resolution_is_stable(
    state: TextSystemView,
    font: Font,
    other: Seq<char>,
    system: Seq<Face>,
)
    requires
        state.wf(),
        state.cached(family_alias(font.family@)).is_some(),
    ensures
        ({
            let after = state.with_family(other, system);
            &&& after.faces.len() >= state.faces.len()
            &&& forall|i: int| 0 <= i < state.faces.len() ==> after.faces[i] == state.faces[i]
            &&& after.resolution(font) == state.resolution(font)
        }),
{
    let name = family_alias(font.family@);
    let after = state.with_family(other, system);
    if state.cached(other).is_none() {
        let added = usable_faces(enumerated_faces(state.memory, other, system));
        let entry = FamilyView {
            name: other,
            font_ids: id_range(state.faces.len() as int, added.len() as int),
        };
        lemma_family_position_after_push(state.families, entry, name, 0);
        lemma_family_position_in_range(state.families, name, 0);
        let at = family_position(state.families, name, 0).unwrap();
        assert(after.families[at] == state.families[at]);
        let ids = state.families[at].font_ids;
        assert forall|i: int| 0 <= i < ids.len() implies after.faces[ids[i].0 as int]
            == state.faces[ids[i].0 as int] by {
            assert(state.families[at].font_ids[i].0 < state.faces.len());
        }
        assert(candidate_properties(after.faces, ids) =~= candidate_properties(state.faces, ids));
    }
}

/// No face that fails the validity filter is ever resolved to: every face
/// cached for any family passes it.
pub proof fn lemma_cached_faces_are_usable(state: TextSystemView, name: Seq<char>, k: int)
    requires
        state.wf(),
        state.cached(name).is_some(),
        0 <= k < state.cached(name).unwrap().len(),
    ensures
        state.cached(name).unwrap()[k].0 < state.faces.len(),
        state.faces[state.cached(name).unwrap()[k].0 as int].usable(),
{
    lemma_family_position_in_range(state.families, name, 0);
    let at = family_position(state.families, name, 0).unwrap();
    assert(state.families[at].font_ids[k].0 < state.faces.len());
}

impl LinuxTextSystemState {
    /// What holds of every text system.
    pub open spec fn wf(&self) -> bool {
        self@.wf()
    }

    /// A text system without fonts.
    pub fn new() -> (state: LinuxTextSystemState)
        ensures
            state@.memory.len() == 0,
            state@.memory_families.len() == 0,
            state@.faces.len() == 0,
            state@.families.len() == 0,
            state.wf(),
    {
        LinuxTextSystemState {
            memory_source: Vec::new(),
            memory_family_names: Vec::new(),
            loaded_fonts_store: Vec::new(),
            font_ids_by_family_cache: Vec::new(),
        }
    }

    /// Whether a face of the family `name` was ever added from memory.
    fn knows_memory_family(&self, name: &String) -> (known: bool)
        ensures
            known == self@.memory_families.contains(name@),
    {
        let mut i: usize = 0;
        while i < self.memory_family_names.len()
            invariant
                i <= self.memory_family_names@.len(),
                forall|j: int| 0 <= j < i ==> (#[trigger] self@.memory_families[j]) != name@,
            decreases self.memory_family_names@.len() - i,
        {
            if self.memory_family_names[i] == *name {
                assert(self@.memory_families[i as int] == name@);
                return true;
            }
            i = i + 1;
        }
        false
    }

    /// Adds fonts to the memory source. Each entry is what parsing one font
    /// file gave: its face, or nothing where the bytes are no font.
    ///
    /// The faces are added in order up to the first entry that holds no face.
    /// Such an entry is a load error, and neither it nor any entry after it
    /// is added. Whether a face can be used is not asked here but when its
    /// family is loaded. The family of each face
    /// added is listed among the families from memory, if it is not yet. No
    /// face is loaded and no identifier is given out here: that happens when
    /// a family is asked for.
    pub fn add_fonts(&mut self, fonts: Vec<Option<Face>>) -> (result: Result<(), FontError>)
        ensures
            final(self)@.faces == old(self)@.faces,
            final(self)@.families == old(self)@.families,
            final(self)@.memory == old(self)@.memory + parsed_faces(
                fonts@,
                loadable_prefix(fonts@, 0),
            ),
            final(self)@.memory_families == with_family_names(
                old(self)@.memory_families,
                parsed_faces(fonts@, loadable_prefix(fonts@, 0)),
            ),
            loadable_prefix(fonts@, 0) == fonts@.len() ==> result == Ok::<(), FontError>(()),
            loadable_prefix(fonts@, 0) != fonts@.len() ==> result == Err::<(), FontError>(
                FontError::LoadError,
            ),
            old(self).wf() ==> final(self).wf(),
    {
        let ghost before = self@;
        let ghost all = fonts@;
        let ghost mut rejected: int = 0;
        let mut failed = false;
        for entry in it: fonts.into_iter()
            invariant
                it.seq() == all,
                self@.faces == before.faces,
                self@.families == before.families,
                !failed ==> loadable_prefix(all, 0) == loadable_prefix(all, it.index() as int)
                    && self@.memory == before.memory + parsed_faces(all, it.index() as int)
                    && self@.memory_families == with_family_names(
                    before.memory_families,
                    parsed_faces(all, it.index() as int),
                ),
                failed ==> loadable_prefix(all, 0) == rejected && rejected < all.len()
                    && self@.memory == before.memory + parsed_faces(all, rejected)
                    && self@.memory_families == with_family_names(
                    before.memory_families,
                    parsed_faces(all, rejected),
                ),
                names_are_distinct(before.memory_families) ==> names_are_distinct(
                    self@.memory_families,
                ),
        {
            if !failed {
                let ghost at = it.index() as int;
                match entry {
                    Some(face) => {
                        let ghost listed = self@.memory_families;
                        proof {
                            assert(parsed_faces(all, at + 1).drop_last() =~= parsed_faces(all, at));
                            assert(parsed_faces(all, at + 1).last() == face);
                        }
                        if !self.knows_memory_family(&face.family_name) {
                            self.memory_family_names.push(face.family_name.clone());
                            proof {
                                assert(self@.memory_families =~= listed.push(face.family_name@));
                                assert forall|i: int| 0 <= i < listed.len() implies listed[i]
                                    != face.family_name@ by {
                                    if listed[i] == face.family_name@ {
                                        assert(listed.contains(face.family_name@));
                                    }
                                }
                            }
                        }
                        self.memory_source.push(face);
                        assert(self@.memory =~= before.memory + parsed_faces(all, at + 1));
                    },
                    None => {
                        failed = true;
                        proof {
                            rejected = at;
                        }
                    },
                }
            }
        }
        if failed {
            Err(FontError::LoadError)
        } else {
            Ok(())
        }
    }

    /// The families of which a face was ever added from memory, each once,
    /// in the order in which they first came. A family stays listed when its
    /// faces have been loaded.
    pub fn memory_families(&self) -> (names: Vec<String>)
        ensures
            names_view(names@) == self@.memory_families,
    {
        let mut names: Vec<String> = Vec::with_capacity(self.memory_family_names.len());
        let mut i: usize = 0;
        while i < self.memory_family_names.len()
            invariant
                i <= self.memory_family_names@.len(),
                names@.len() == i,
                forall|j: int| 0 <= j < i ==> (#[trigger] names@[j])@
                    == self.memory_family_names@[j]@,
            decreases self.memory_family_names@.len() - i,
        {
            names.push(self.memory_family_names[i].clone());
            i = i + 1;
        }
        assert(names_view(names@) =~= self@.memory_families);
        names
    }

    /// The faces that resolving a font of `family` turns away, given the
    /// faces found installed for it: those of the faces found for the family
    /// that fail the validity filter, in order, each with its full name and
    /// the reason. There are none for a family that is cached, since nothing
    /// is loaded for it.
    pub fn rejected_faces(&self, family: &String, system_faces: &Vec<Face>) -> (rejected: Vec<
        RejectedFace,
    >)
        ensures
            rejections_view(rejected@) == if self@.cached(family_alias(family@)).is_some() {
                Seq::<RejectedFaceView>::empty()
            } else {
                rejections(enumerated_faces(self@.memory, family_alias(family@), system_faces@))
            },
    {
        let name = normalized_family(family);
        if self.find_family(&name).is_some() {
            let rejected: Vec<RejectedFace> = Vec::new();
            assert(rejections_view(rejected@) =~= Seq::<RejectedFaceView>::empty());
            return rejected;
        }
        let from_memory = self.memory_has_family(&name);
        let mut rejected: Vec<RejectedFace> = Vec::new();
        if from_memory {
            let mut i: usize = 0;
            while i < self.memory_source.len()
                invariant
                    i <= self.memory_source@.len(),
                    rejections_view(rejected@) == rejections(
                        family_faces(self.memory_source@.take(i as int), name@),
                    ),
                decreases self.memory_source@.len() - i,
            {
                let face = &self.memory_source[i];
                proof {
                    let shorter = family_faces(self.memory_source@.take(i as int), name@);
                    assert(self.memory_source@.take(i + 1).drop_last() =~= self.memory_source@.take(
                        i as int,
                    ));
                    assert(shorter.push(*face).drop_last() =~= shorter);
                }
                if face.family_name == name {
                    match face.rejection_reason() {
                        Some(reason) => {
                            let ghost listed = rejections_view(rejected@);
                            let entry = RejectedFace { full_name: face.full_name.clone(), reason };
                            rejected.push(entry);
                            assert(rejections_view(rejected@) =~= listed.push(entry@));
                        },
                        None => {},
                    }
                }
                i = i + 1;
            }
            assert(self.memory_source@.take(i as int) =~= self.memory_source@);
        } else {
            let mut i: usize = 0;
            while i < system_faces.len()
                invariant
                    i <= system_faces@.len(),
                    rejections_view(rejected@) == rejections(system_faces@.take(i as int)),
                decreases system_faces@.len() - i,
            {
                let face = &system_faces[i];
                proof {
                    assert(system_faces@.take(i + 1).drop_last() =~= system_faces@.take(i as int));
                }
                match face.rejection_reason() {
                    Some(reason) => {
                        let ghost listed = rejections_view(rejected@);
                        let entry = RejectedFace { full_name: face.full_name.clone(), reason };
                        rejected.push(entry);
                        assert(rejections_view(rejected@) =~= listed.push(entry@));
                    },
                    None => {},
                }
                i = i + 1;
            }
            assert(system_faces@.take(i as int) =~= system_faces@);
        }
        rejected
    }

    /// Where the cache holds the family `name`.
    fn find_family(&self, name: &String) -> (found: Option<usize>)
        ensures
            match found {
                Some(at) => family_position(self@.families, name@, 0) == Some(at as int) && at
                    < self.font_ids_by_family_cache@.len(),
                None => family_position(self@.families, name@, 0).is_none(),
            },
    {
        let mut i: usize = 0;
        while i < self.font_ids_by_family_cache.len()
            invariant
                i <= self.font_ids_by_family_cache@.len(),
                family_position(self@.families, name@, 0) == family_position(
                    self@.families,
                    name@,
                    i as int,
                ),
            decreases self.font_ids_by_family_cache@.len() - i,
        {
            if self.font_ids_by_family_cache[i].name == *name {
                return Some(i);
            }
            i = i + 1;
        }
        None
    }

    /// Whether the memory source holds a face of the family `name`.
    fn memory_has_family(&self, name: &String) -> (found: bool)
        ensures
            found == (family_faces(self@.memory, name@).len() > 0),
    {
        let mut i: usize = 0;
        while i < self.memory_source.len()
            invariant
                i <= self.memory_source@.len(),
                family_faces(self.memory_source@.take(i as int), name@).len() == 0,
            decreases self.memory_source@.len() - i,
        {
            proof {
                assert(self.memory_source@.take(i + 1).drop_last() =~= self.memory_source@.take(
                    i as int,
                ));
            }
            if self.memory_source[i].family_name == *name {
                proof {
                    lemma_family_faces_grow(self.memory_source@, name@, i + 1);
                }
                return true;
            }
            i = i + 1;
        }
        assert(self.memory_source@.take(i as int) =~= self.memory_source@);
        false
    }

    /// Whether the faces installed for a family have to be looked up before
    /// a font of that family is resolved: the family is neither cached nor
    /// present in the memory source.
    pub fn needs_system_faces(&self, family: &String) -> (needed: bool)
        ensures
            needed == (self@.cached(family_alias(family@)).is_none() && family_faces(
                self@.memory,
                family_alias(family@),
            ).len() == 0),
    {
        let name = normalized_family(family);
        if self.find_family(&name).is_some() {
            return false;
        }
        !self.memory_has_family(&name)
    }

    /// Takes the faces of the family `name` out of the memory source.
    fn take_memory_family(&mut self, name: &String) -> (taken: Vec<Face>)
        ensures
            taken@ == family_faces(old(self)@.memory, name@),
            final(self)@.memory == other_faces(old(self)@.memory, name@),
            final(self)@.memory_families == old(self)@.memory_families,
            final(self)@.faces == old(self)@.faces,
            final(self)@.families == old(self)@.families,
    {
        let ghost before = self@;
        let mut all: Vec<Face> = Vec::new();
        std::mem::swap(&mut self.memory_source, &mut all);
        let ghost memory = all@;
        let mut taken: Vec<Face> = Vec::new();
        for face in it: all.into_iter()
            invariant
                it.seq() == memory,
                self@.faces == before.faces,
                self@.families == before.families,
                self@.memory_families == before.memory_families,
                taken@ == family_faces(memory.take(it.index() as int), name@),
                self@.memory == other_faces(memory.take(it.index() as int), name@),
        {
            proof {
                assert(memory.take(it.index() + 1).drop_last() =~= memory.take(it.index() as int));
            }
            if face.family_name == *name {
                taken.push(face);
            } else {
                self.memory_source.push(face);
            }
        }
        assert(memory.take(memory.len() as int) =~= memory);
        taken
    }

    /// Loads the faces of the family `name`: those added from memory if
    /// there are any, and else the installed ones handed in.
    ///
    /// Where no face at all is found the family is unknown: that is an
    /// error, and nothing changes. Otherwise each face that passes the
    /// validity filter is stored behind the faces already loaded and gets
    /// the next identifier; the others are dropped. The identifiers given
    /// out are returned in the order of the faces: each names a loaded face
    /// that has a glyph for the lowercase `m` or is the emoji exception.
    pub(crate) fn load_family(&mut self, name: &String, system_faces: Vec<Face>) -> (result:
        Result<FontIdList, FontError>)
        requires
            old(self).wf(),
        ensures
            match result {
                Err(error) => {
                    &&& enumerated_faces(old(self)@.memory, name@, system_faces@).len() == 0
                    &&& error == FontError::NoMatch
                    &&& final(self)@ == old(self)@
                },
                Ok(font_ids) => {
                    &&& enumerated_faces(old(self)@.memory, name@, system_faces@).len() > 0
                    &&& final(self)@.memory == other_faces(old(self)@.memory, name@)
                    &&& final(self)@.faces == old(self)@.faces + usable_faces(
                        enumerated_faces(old(self)@.memory, name@, system_faces@),
                    )
                    &&& final(self)@.memory_families == old(self)@.memory_families
                    &&& final(self)@.families == old(self)@.families
                    &&& font_ids@ == id_range(
                        old(self)@.faces.len() as int,
                        usable_faces(
                            enumerated_faces(old(self)@.memory, name@, system_faces@),
                        ).len() as int,
                    )
                    &&& forall|k: int|
                        0 <= k < font_ids@.len() ==> (#[trigger] font_ids@[k]).0
                            < final(self)@.faces.len()
                            && final(self)@.faces[font_ids@[k].0 as int].usable()
                },
            },
            final(self).wf(),
    {
        let ghost before = self@;
        if !self.memory_has_family(name) && system_faces.len() == 0 {
            return Err(FontError::NoMatch);
        }
        let taken = self.take_memory_family(name);
        let candidates = if taken.len() > 0 {
            taken
        } else {
            system_faces
        };
        let ghost found = candidates@;
        assert(found == enumerated_faces(before.memory, name@, system_faces@));
        let ghost after_take = self@;
        let mut font_ids = FontIdList::new();
        for face in it: candidates.into_iter()
            invariant
                it.seq() == found,
                before.wf(),
                self@.memory == after_take.memory,
                self@.memory_families == before.memory_families,
                self@.families == before.families,
                self@.faces == before.faces + usable_faces(found.take(it.index() as int)),
                font_ids@ == id_range(
                    before.faces.len() as int,
                    usable_faces(found.take(it.index() as int)).len() as int,
                ),
        {
            proof {
                assert(found.take(it.index() + 1).drop_last() =~= found.take(it.index() as int));
            }
            if face.is_usable() {
                let font_id = FontId(self.loaded_fonts_store.len());
                self.loaded_fonts_store.push(face);
                font_ids.push(font_id);
                proof {
                    let done = usable_faces(found.take(it.index() as int));
                    assert(self@.faces =~= before.faces + done.push(face));
                    assert(font_ids@ =~= id_range(before.faces.len() as int, done.len() as int + 1));
                }
            }
        }
        let loaded_count = self.loaded_fonts_store.len();
        proof {
            assert(self@.faces.len() == loaded_count);
            assert(found.take(found.len() as int) =~= found);
            lemma_usable_faces_are_usable(found);
            let added = usable_faces(found);
            assert forall|i: int| 0 <= i < self@.faces.len() implies (#[trigger] self@.faces[i]).usable() by {
                if i >= before.faces.len() {
                    assert(self@.faces[i] == added[i - before.faces.len()]);
                }
            }
            assert forall|i: int, k: int|
                0 <= i < self@.families.len() && 0 <= k < self@.families[i].font_ids.len() implies (
            #[trigger] self@.families[i].font_ids[k]).0 < self@.faces.len() by {
                assert(before.families[i].font_ids[k].0 < before.faces.len());
            }
            assert forall|k: int| 0 <= k < font_ids@.len() implies (#[trigger] font_ids@[k]).0
                < self@.faces.len() && self@.faces[font_ids@[k].0 as int].usable() by {
                assert(font_ids@[k].0 == before.faces.len() + k);
            }
        }
        Ok(font_ids)
    }

    /// Resolves a font request to the identifier of a loaded face.
    ///
    /// The family is looked up under its alias. A family that is asked for
    /// the first time is loaded and cached, from the memory source or else
    /// from `system_faces`, the faces found installed for it; for a cached
    /// family `system_faces` does not matter. Among the faces cached for the
    /// family the one closest to the requested style is chosen, and the
    /// first of several that are as close. A family none of whose faces can
    /// be used matches nothing, and neither does a family of which no face
    /// is found at all; the latter is not cached, and nothing changes.
    pub fn font_id(&mut self, font: &Font, system_faces: Vec<Face>) -> (result: Result<
        FontId,
        FontError,
    >)
        requires
            old(self).wf(),
        ensures
            final(self)@ == old(self)@.with_family(family_alias(font.family@), system_faces@),
            result == final(self)@.resolution(*font),
            result matches Ok(id) ==> id.0 < final(self)@.faces.len() && final(self)@.faces[id.0 as int].usable(),
            final(self).wf(),
    {
        let ghost before = self@;
        let name = normalized_family(&font.family);
        let position = match self.find_family(&name) {
            Some(position) => position,
            None => {
                let font_ids = match self.load_family(&name, system_faces) {
                    Ok(font_ids) => font_ids,
                    Err(error) => {
                        return Err(error);
                    },
                };
                let loaded_count = self.loaded_fonts_store.len();
                let ghost loaded = self@;
                let ghost entry = FamilyView { name: name@, font_ids: font_ids@ };
                self.font_ids_by_family_cache.push(FamilyEntry { name, font_ids });
                proof {
                    assert(self@.families =~= loaded.families.push(entry));
                    lemma_family_position_after_push(before.families, entry, entry.name, 0);
                    assert(self@.memory == before.with_family(entry.name, system_faces@).memory);
                    assert(self@.memory_families == before.memory_families);
                    assert(self@.faces == before.with_family(entry.name, system_faces@).faces);
                    assert(self@ == before.with_family(entry.name, system_faces@));
                    assert(self@.faces.len() == loaded_count);
                    lemma_with_family_keeps_wf(before, entry.name, system_faces@);
                }
                self.font_ids_by_family_cache.len() - 1
            },
        };
        proof {
            lemma_family_position_in_range(self@.families, family_alias(font.family@), 0);
        }
        let candidates = self.font_ids_by_family_cache[position].font_ids.as_slice();
        let ghost ids = candidates@;
        assert(self@.cached(family_alias(font.family@)) == Some(ids));
        assert(ids == self@.families[position as int].font_ids);
        let mut candidate_styles: Vec<Properties> = Vec::with_capacity(candidates.len());
        let mut i: usize = 0;
        while i < candidates.len()
            invariant
                i <= ids.len(),
                ids == candidates@,
                ids == self@.families[position as int].font_ids,
                0 <= position < self@.families.len(),
                self.wf(),
                candidate_styles@ == candidate_properties(self@.faces, ids.take(i as int)),
            decreases ids.len() - i,
        {
            let font_id = candidates[i];
            assert(self@.families[position as int].font_ids[i as int].0 < self@.faces.len());
            candidate_styles.push(self.loaded_fonts_store[font_id.0].properties);
            assert(candidate_styles@ =~= candidate_properties(self@.faces, ids.take(i + 1)));
            i = i + 1;
        }
        assert(ids.take(i as int) =~= ids);
        let requested = font_into_properties(font);
        assert(requested == requested_properties(*font));
        match find_best_match(&candidate_styles, &requested) {
            Some(ix) => {
                assert(self@.families[position as int].font_ids[ix as int].0 < self@.faces.len());
                Ok(candidates[ix])
            },
            None => Err(FontError::NoMatch),
        }
    }

    /// The identifiers cached for a family, if it has been asked for.
    pub fn family_font_ids(&self, family: &String) -> (font_ids: Option<&FontIdList>)
        ensures
            match font_ids {
                Some(list) => self@.cached(family_alias(family@)) == Some(list@),
                None => self@.cached(family_alias(family@)).is_none(),
            },
    {
        let name = normalized_family(family);
        match self.find_family(&name) {
            Some(position) => Some(&self.font_ids_by_family_cache[position].font_ids),
            None => None,
        }
    }

    /// Whether `font_id` names a loaded face.
    pub fn is_registered(&self, font_id: FontId) -> (registered: bool)
        ensures
            registered == (font_id.0 < self@.faces.len()),
    {
        font_id.0 < self.loaded_fonts_store.len()
    }

    /// The loaded face with the identifier `font_id`.
    pub fn face(&self, font_id: FontId) -> (face: &Face)
        requires
            font_id.0 < self@.faces.len(),
        ensures
            *face == self@.faces[font_id.0 as int],
    {
        &self.loaded_fonts_store[font_id.0]
    }

    /// The design metrics of a loaded face, in font design units, as the
    /// face has them. They keep the unit convention.
    pub fn font_metrics(&self, font_id: FontId) -> (metrics: FontMetrics)
        requires
            self.wf(),
            font_id.0 < self@.faces.len(),
        ensures
            metrics == self@.faces[font_id.0 as int].metrics,
            metrics.units_per_em > 0,
            metrics.ascent >= 0,
            metrics.descent <= 0,
    {
        assert(self@.faces[font_id.0 as int].usable());
        self.loaded_fonts_store[font_id.0].metrics
    }

    /// The typographic box of a glyph of a loaded face, in design units.
    pub fn typographic_bounds(&self, font_id: FontId, glyph_id: GlyphId) -> (result: Result<
        Bounds<i32>,
        FontError,
    >)
        requires
            font_id.0 < self@.faces.len(),
        ensures
            result == match self@.faces[font_id.0 as int].bounds_of(glyph_id) {
                Some(bounds) => Ok::<Bounds<i32>, FontError>(bounds),
                None => Err::<Bounds<i32>, FontError>(FontError::GlyphNotFound),
            },
    {
        match self.loaded_fonts_store[font_id.0].typographic_bounds(glyph_id) {
            Some(bounds) => Ok(bounds),
            None => Err(FontError::GlyphNotFound),
        }
    }

    /// The advance of a glyph of a loaded face, in design units.
    pub fn advance(&self, font_id: FontId, glyph_id: GlyphId) -> (result: Result<
        Size<i32>,
        FontError,
    >)
        requires
            font_id.0 < self@.faces.len(),
        ensures
            result == match self@.faces[font_id.0 as int].advance_of(glyph_id) {
                Some(advance) => Ok::<Size<i32>, FontError>(advance),
                None => Err::<Size<i32>, FontError>(FontError::GlyphNotFound),
            },
    {
        match self.loaded_fonts_store[font_id.0].advance(glyph_id) {
            Some(advance) => Ok(advance),
            None => Err(FontError::GlyphNotFound),
        }
    }

    /// The glyph that a loaded face maps a character to.
    pub fn glyph_for_char(&self, font_id: FontId, ch: char) -> (glyph: Option<GlyphId>)
        requires
            font_id.0 < self@.faces.len(),
        ensures
            glyph == self@.faces[font_id.0 as int].glyph_of(ch),
    {
        self.loaded_fonts_store[font_id.0].glyph_for_char(ch)
    }

    /// Whether every run names a loaded face.
    pub fn runs_are_registered(&self, runs: &[FontRun]) -> (registered: bool)
        ensures
            registered == runs_registered(self@.faces, runs@),
    {
        let mut i: usize = 0;
        while i < runs.len()
            invariant
                i <= runs@.len(),
                forall|j: int| 0 <= j < i ==> (#[trigger] runs@[j]).font_id.0 < self@.faces.len(),
            decreases runs@.len() - i,
        {
            if runs[i].font_id.0 >= self.loaded_fonts_store.len() {
                return false;
            }
            i = i + 1;
        }
        true
    }

    /// Shapes one line of text in the loaded faces that its runs name.
    ///
    /// The length of the layout is that of the text, and the ascent and the
    /// descent are the largest among the faces of the runs. What the
    /// glyphs and the width are follows from what the shaping engine reports
    /// for each run's slice; nothing is reported for a run that is not
    /// handed to the engine, and so an empty text gives no run and no width.
    pub fn layout_line(&self, text: &str, font_size: Pixels, runs: &[FontRun]) -> (layout: LineLayout)
        requires
            self.wf(),
            runs_registered(self@.faces, runs@),
        ensures
            layout.len == text.spec_bytes().len(),
            layout.font_size == font_size,
            layout.ascent.0 == line_ascent(self@.faces, font_size, runs@, runs@.len() as int),
            layout.descent.0 == line_descent(self@.faces, font_size, runs@, runs@.len() as int),
            exists|shaped: Seq<Seq<EngineGlyph>>| #[trigger]
                is_engine_outcome(text.spec_bytes(), runs@, shaped) && layout@ == line_layout_spec(
                    self@.faces,
                    layout.len,
                    font_size,
                    runs@,
                    shaped,
                ),
            text.spec_bytes().len() == 0 ==> layout.runs@.len() == 0 && layout.width.0 == 0,
    {
        assert(faces_wf(self@.faces)) by {
            assert forall|i: int| 0 <= i < self@.faces.len() implies (#[trigger] self@.faces[i]).wf() by {
                assert(self@.faces[i].usable());
            }
        }
        crate::shaping::layout_line(&self.loaded_fonts_store, text, font_size, runs)
    }
}

/// The faces of a family among the first `upto` faces are among those of
/// the family among all, so a family with a face among the first is not empty.
pub proof fn lemma_family_faces_grow(faces: Seq<Face>, name: Seq<char>, upto: int)
    requires
        0 <= upto <= faces.len(),
    ensures
        family_faces(faces.take(upto), name).len() <= family_faces(faces, name).len(),
    decreases faces.len() - upto,
{
    if upto < faces.len() {
        assert(faces.take(upto + 1).drop_last() =~= faces.take(upto));
        lemma_family_faces_grow(faces, name, upto + 1);
    } else {
        assert(faces.take(upto) =~= faces);
    }
}

} // verus!
