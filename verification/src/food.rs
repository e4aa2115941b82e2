use vstd::prelude::*;

use crate::mdast::{forest, mdast_of, to_mdast, MdNode, MdTree};
use crate::name_map::NameMap;
use crate::util::{
    md_parse_paragraph, paragraph_text, remove_meta, split_meta, MetaSplit, SlotShedule, Week,
    WeekDay,
};
use crate::{Failure, WorldError, WorldResult};

verus! {

/// An ingredient as a mathematical value.
pub struct IngredientModel {
    pub name: Seq<char>,
    pub amount: nat,
}

/// A dish as a mathematical value.
pub struct DishModel {
    pub name: Seq<char>,
    pub resepy: Seq<char>,
    pub ingredients: Seq<IngredientModel>,
}

/// A dish of the catalogue: its name, by which schedules refer to it, its
/// recipe and what it is made of.
#[derive(Debug, PartialEq, Eq)]
pub struct Dich {
    pub name: String,
    pub resepy: String,
    pub ingredients: Vec<Ingredient>,
}

/// One ingredient of a dish and how much of it the dish takes.
#[derive(Debug, PartialEq, Eq)]
pub struct Ingredient {
    pub name: String,
    pub amount: usize,
}

/// The place of a dish in the catalogue that it was looked up in.
#[derive(Clone, Copy, PartialEq, Eq, Hash, Debug, Structural)]
pub struct DichId(pub usize);

impl View for Ingredient {
    type V = IngredientModel;

    open spec fn view(&self) -> IngredientModel {
        IngredientModel { name: self.name@, amount: self.amount as nat }
    }
}

/// The ingredients of `ingredients` as mathematical values, in order.
pub open spec fn ingredients_view(ingredients: Seq<Ingredient>) -> Seq<IngredientModel> {
    Seq::new(ingredients.len(), |i: int| ingredients[i]@)
}

impl View for Dich {
    type V = DishModel;

    open spec fn view(&self) -> DishModel {
        DishModel {
            name: self.name@,
            resepy: self.resepy@,
            ingredients: ingredients_view(self.ingredients@),
        }
    }
}

/// The dishes of `diches` as mathematical values, in order.
pub open spec fn catalogue_view(diches: Seq<Dich>) -> Seq<DishModel> {
    Seq::new(diches.len(), |i: int| diches[i]@)
}

/// The names of the dishes of `catalogue`, in order.
pub open spec fn dish_names(catalogue: Seq<DishModel>) -> Seq<Seq<char>> {
    Seq::new(catalogue.len(), |i: int| catalogue[i].name)
}

/// The items of the list that a document starts with: the children of the
/// first child of the root.
pub open spec fn list_items(root: MdTree) -> Option<Seq<MdTree>> {
    match root.children() {
        Some(children) => if children.len() > 0 {
            children[0].children()
        } else {
            None
        },
        None => None,
    }
}

/// The name of a list item: the text that its first child starts with.
pub open spec fn item_name(item: MdTree) -> Option<Seq<char>> {
    match item.children() {
        Some(children) => if children.len() > 0 {
            paragraph_text(children[0])
        } else {
            None
        },
        None => None,
    }
}

/// The items of the list nested in a list item: the children of its second
/// child. An item that has a first child only nests no items.
pub open spec fn item_entries(item: MdTree) -> Option<Seq<MdTree>> {
    match item.children() {
        Some(children) => if children.len() == 0 {
            None
        } else if children.len() < 2 {
            Some(Seq::empty())
        } else {
            children[1].children()
        },
        None => None,
    }
}

/// All of `items`, if each of them is there.
pub open spec fn collected<A>(items: Seq<Option<A>>) -> Option<Seq<A>> {
    if forall|i: int| 0 <= i < items.len() ==> (#[trigger] items[i]) is Some {
        Some(Seq::new(items.len(), |i: int| items[i]->0))
    } else {
        None
    }
}

/// The ingredient that a list item names. The amount is always one.
pub open spec fn ingredient_of(item: MdTree) -> Option<IngredientModel> {
    match item_name(item) {
        Some(name) => Some(IngredientModel { name, amount: 1 }),
        None => None,
    }
}

/// The ingredients that `items` name, if each names one.
pub open spec fn ingredients_of(items: Seq<MdTree>) -> Option<Seq<IngredientModel>> {
    collected(Seq::new(items.len(), |i: int| ingredient_of(items[i])))
}

/// The dish that a list item describes: its name, and the ingredients that
/// the items of its nested list name. The recipe is empty.
pub open spec fn dish_of(item: MdTree) -> Option<DishModel> {
    match (item_name(item), item_entries(item)) {
        (Some(name), Some(entries)) => match ingredients_of(entries) {
            Some(ingredients) => Some(DishModel { name, resepy: Seq::empty(), ingredients }),
            None => None,
        },
        _ => None,
    }
}

/// The catalogue that a document describes: one dish for each item of its
/// list, in the order of the document. Nothing if any part of the document
/// has not the shape that a catalogue has.
pub open spec fn dishes_of(root: MdTree) -> Option<Seq<DishModel>> {
    match list_items(root) {
        Some(items) => collected(Seq::new(items.len(), |i: int| dish_of(items[i]))),
        None => None,
    }
}

/// The items of the list that `root` starts with.
pub fn md_list_items(root: &MdNode) -> (items: Option<&Vec<MdNode>>)
    ensures
        match items {
            Some(nodes) => list_items(root@) == Some(forest(*nodes)),
            None => list_items(root@) is None,
        },
{
    match root.children() {
        Some(children) => if children.len() > 0 {
            children[0].children()
        } else {
            None
        },
        None => None,
    }
}

/// The name of a list item and the items of the list nested in it.
pub fn md_item_parts(item: &MdNode) -> (parts: Option<(String, Option<&Vec<MdNode>>)>)
    ensures
        match parts {
            Some((name, Some(entries))) => item_name(item@) == Some(name@) && item_entries(item@)
                == Some(forest(*entries)),
            Some((name, None)) => item_name(item@) == Some(name@) && item_entries(item@) == Some(
                Seq::<MdTree>::empty(),
            ),
            None => item_name(item@) is None || item_entries(item@) is None,
        },
{
    let children = match item.children() {
        Some(children) => children,
        None => {
            return None;
        },
    };
    if children.len() == 0 {
        return None;
    }
    let name = match md_parse_paragraph(&children[0]) {
        Some(name) => name,
        None => {
            return None;
        },
    };
    if children.len() < 2 {
        return Some((name, None));
    }
    match children[1].children() {
        Some(entries) => Some((name, Some(entries))),
        None => None,
    }
}

/// The ingredients that the items of a nested list name.
fn md_parse_ingredients(items: &Vec<MdNode>) -> (ingredients: Option<Vec<Ingredient>>)
    ensures
        match ingredients {
            Some(found) => ingredients_of(forest(*items)) == Some(ingredients_view(found@)),
            None => ingredients_of(forest(*items)) is None,
        },
{
    let ghost wanted = Seq::new(forest(*items).len(), |i: int| ingredient_of(forest(*items)[i]));
    let mut ingredients: Vec<Ingredient> = Vec::new();
    let mut i: usize = 0;
    while i < items.len()
        invariant
            i <= items.len(),
            ingredients@.len() == i,
            wanted == Seq::new(forest(*items).len(), |i: int| ingredient_of(forest(*items)[i])),
            forall|j: int| 0 <= j < i ==> wanted[j] == Some(#[trigger] ingredients@[j]@),
        decreases items.len() - i,
    {
        let children = match items[i].children() {
            Some(children) => children,
            None => {
                assert(wanted[i as int] is None);
                return None;
            },
        };
        if children.len() == 0 {
            assert(wanted[i as int] is None);
            return None;
        }
        let name = match md_parse_paragraph(&children[0]) {
            Some(name) => name,
            None => {
                assert(wanted[i as int] is None);
                return None;
            },
        };
        let amout: usize = 1;
        ingredients.push(Ingredient { name, amount: amout });
        assert(wanted[i as int] == Some(ingredients@[i as int]@));
        i += 1;
    }
    proof {
        assert forall|j: int| 0 <= j < wanted.len() implies (#[trigger] wanted[j]) is Some by {
            assert(wanted[j] == Some(ingredients@[j]@));
        }
        assert(collected(wanted)->0 =~= ingredients_view(ingredients@));
    }
    Some(ingredients)
}

/// Reads the dish catalogue off the syntax tree of its document.
pub fn md_parse_diches(ast: MdNode) -> (diches: Option<Vec<Dich>>)
    ensures
        match diches {
            Some(found) => dishes_of(ast@) == Some(catalogue_view(found@)),
            None => dishes_of(ast@) is None,
        },
{
    let list = match md_list_items(&ast) {
        Some(list) => list,
        None => {
            return None;
        },
    };
    let ghost wanted = Seq::new(forest(*list).len(), |i: int| dish_of(forest(*list)[i]));
    let mut diches: Vec<Dich> = Vec::new();
    let mut i: usize = 0;
    while i < list.len()
        invariant
            i <= list.len(),
            diches@.len() == i,
            list_items(ast@) == Some(forest(*list)),
            wanted == Seq::new(forest(*list).len(), |i: int| dish_of(forest(*list)[i])),
            forall|j: int| 0 <= j < i ==> wanted[j] == Some(#[trigger] diches@[j]@),
        decreases list.len() - i,
    {
        let (name, entries) = match md_item_parts(&list[i]) {
            Some(parts) => parts,
            None => {
                assert(wanted[i as int] is None);
                return None;
            },
        };
        let ingredients = match entries {
            Some(entries) => match md_parse_ingredients(entries) {
                Some(ingredients) => ingredients,
                None => {
                    assert(wanted[i as int] is None);
                    return None;
                },
            },
            None => {
                proof {
                    let none = Seq::<MdTree>::empty();
                    assert(Seq::new(none.len(), |i: int| ingredient_of(none[i])) =~= Seq::<
                        Option<IngredientModel>,
                    >::empty());
                    assert(ingredients_of(none)->0 =~= Seq::<IngredientModel>::empty());
                }
                Vec::new()
            },
        };
        let dich = Dich { name, resepy: String::new(), ingredients };
        proof {
            assert(dish_of(forest(*list)[i as int]) is Some);
            assert(dish_of(forest(*list)[i as int])->0.ingredients =~= dich@.ingredients);
            assert(dish_of(forest(*list)[i as int])->0.resepy =~= dich@.resepy);
        }
        diches.push(dich);
        assert(wanted[i as int] == Some(diches@[i as int]@));
        i += 1;
    }
    proof {
        assert forall|j: int| 0 <= j < wanted.len() implies (#[trigger] wanted[j]) is Some by {
            assert(wanted[j] == Some(diches@[j]@));
        }
        assert(collected(wanted)->0 =~= catalogue_view(diches@));
    }
    Some(diches)
}

/// What a document parses to as markdown once its front-matter is taken
/// off, or why it does not parse.
pub open spec fn body_tree(text: Seq<char>) -> Result<MdTree, Failure> {
    match split_meta(text) {
        MetaSplit::NoEnding => Err(Failure::NoMetadataEnding),
        MetaSplit::BadYaml(error) => Err(Failure::YamlParsingError(error)),
        MetaSplit::Split { body, .. } => match mdast_of(body) {
            Ok(root) => Ok(root),
            Err(message) => Err(Failure::MarkdownParse(message)),
        },
    }
}

/// The catalogue that the document `text` describes, or why it describes
/// none.
pub open spec fn parsed_catalogue(text: Seq<char>) -> Result<Seq<DishModel>, Failure> {
    match body_tree(text) {
        Ok(root) => match dishes_of(root) {
            Some(catalogue) => Ok(catalogue),
            None => Err(Failure::ErrorWhileParsingDiches),
        },
        Err(failure) => Err(failure),
    }
}

/// Takes the front-matter off a document and parses the rest as markdown.
pub fn parse_body(markdown: &str) -> (root: WorldResult<MdNode>)
    ensures
        match root {
            Ok(node) => body_tree(markdown@) == Ok::<MdTree, Failure>(node@),
            Err(error) => body_tree(markdown@) == Err::<MdTree, Failure>(error@),
        },
{
    let (body, _meta) = match remove_meta(markdown) {
        Ok(parts) => parts,
        Err(error) => {
            return Err(error);
        },
    };
    match to_mdast(body) {
        Ok(root) => Ok(root),
        Err(message) => Err(WorldError::MarkdownParse(message)),
    }
}

/// Whether `diches` is what reading the document `text` as a catalogue
/// gives.
pub open spec fn is_parsed_catalogue(text: Seq<char>, diches: WorldResult<Vec<Dich>>) -> bool {
    match diches {
        Ok(found) => parsed_catalogue(text) == Ok::<Seq<DishModel>, Failure>(
            catalogue_view(found@),
        ),
        Err(error) => parsed_catalogue(text) == Err::<Seq<DishModel>, Failure>(error@),
    }
}

/// Reads the dish catalogue from the text of its document.
pub fn parse_diches(markdown: &str) -> (diches: WorldResult<Vec<Dich>>)
    ensures
        is_parsed_catalogue(markdown@, diches),
{
    let ast = match parse_body(markdown) {
        Ok(ast) => ast,
        Err(error) => {
            return Err(error);
        },
    };
    match md_parse_diches(ast) {
        Some(diches) => Ok(diches),
        None => Err(WorldError::ErrorWhileParsingDiches),
    }
}

/// The slots of a day as a mathematical value: each slot's name with the
/// places of its dishes in the catalogue, in order.
pub type SlotsModel = Seq<(Seq<char>, Seq<nat>)>;

/// The place in `menu` of the first dish called `name`.
pub open spec fn dish_id(menu: Seq<Seq<char>>, name: Seq<char>) -> Option<nat> {
    match menu.index_of_first(name) {
        Some(i) => Some(i as nat),
        None => None,
    }
}

/// The dish that a list item refers to by name.
pub open spec fn reference_of(item: MdTree, menu: Seq<Seq<char>>) -> Option<nat> {
    match item_name(item) {
        Some(name) => dish_id(menu, name),
        None => None,
    }
}

/// The dishes that `items` refer to, if each refers to a dish of `menu`.
pub open spec fn references_of(items: Seq<MdTree>, menu: Seq<Seq<char>>) -> Option<Seq<nat>> {
    collected(Seq::new(items.len(), |i: int| reference_of(items[i], menu)))
}

/// The slot that a list item describes: its name and the dishes that the
/// items of its nested list refer to.
pub open spec fn slot_of(item: MdTree, menu: Seq<Seq<char>>) -> Option<(Seq<char>, Seq<nat>)> {
    match (item_name(item), item_entries(item)) {
        (Some(name), Some(entries)) => match references_of(entries, menu) {
            Some(ids) => Some((name, ids)),
            None => None,
        },
        _ => None,
    }
}

/// The slots that `items` describe, if each describes one.
pub open spec fn slots_of(items: Seq<MdTree>, menu: Seq<Seq<char>>) -> Option<SlotsModel> {
    collected(Seq::new(items.len(), |i: int| slot_of(items[i], menu)))
}

/// The day that a list item describes: its name and its slots.
pub open spec fn day_of(item: MdTree, menu: Seq<Seq<char>>) -> Option<(Seq<char>, SlotsModel)> {
    match (item_name(item), item_entries(item)) {
        (Some(name), Some(entries)) => match slots_of(entries, menu) {
            Some(slots) => Some((name, slots)),
            None => None,
        },
        _ => None,
    }
}

/// The days that a document describes, in the order of the document.
pub open spec fn days_of(root: MdTree, menu: Seq<Seq<char>>) -> Option<
    Seq<(Seq<char>, SlotsModel)>,
> {
    match list_items(root) {
        Some(items) => collected(Seq::new(items.len(), |i: int| day_of(items[i], menu))),
        None => None,
    }
}

/// The slots of each day by the day's name. Where a name occurs more than
/// once, its last occurrence counts.
pub open spec fn days_map(days: Seq<(Seq<char>, SlotsModel)>) -> Map<Seq<char>, SlotsModel>
    decreases days.len(),
{
    if days.len() == 0 {
        Map::empty()
    } else {
        days_map(days.drop_last()).insert(days.last().0, days.last().1)
    }
}

/// The day that stands at place `slot` of a week.
pub open spec fn day_at(slot: int) -> WeekDay {
    if slot == 0 {
        WeekDay::Sunday
    } else if slot == 1 {
        WeekDay::Monday
    } else if slot == 2 {
        WeekDay::Tuesday
    } else if slot == 3 {
        WeekDay::Wednesday
    } else if slot == 4 {
        WeekDay::Thursday
    } else if slot == 5 {
        WeekDay::Friday
    } else {
        WeekDay::Saturday
    }
}

/// The week that `days` make: the slots of each of the seven days, Sunday
/// first. Nothing if a day of the week is missing; days of other names are
/// left out.
pub open spec fn week_of(days: Map<Seq<char>, SlotsModel>) -> Option<Seq<SlotsModel>> {
    if forall|day: WeekDay| days.contains_key(#[trigger] day.name()) {
        Some(Seq::new(7, |slot: int| days[day_at(slot).name()]))
    } else {
        None
    }
}

/// The weekly schedule that a document describes, its dishes looked up by
/// name in `menu`. Nothing if any part of the document has not the shape
/// that a schedule has, if it names a dish that `menu` lacks, or if it
/// leaves out a day of the week.
pub open spec fn shedule_of(root: MdTree, menu: Seq<Seq<char>>) -> Option<Seq<SlotsModel>> {
    match days_of(root, menu) {
        Some(days) => week_of(days_map(days)),
        None => None,
    }
}

/// The places of `ids` as numbers, in order.
pub open spec fn ids_view(ids: Seq<DichId>) -> Seq<nat> {
    Seq::new(ids.len(), |i: int| ids[i].0 as nat)
}

/// The slots of `shedule` as a mathematical value.
pub open spec fn slots_view(shedule: SlotShedule<Vec<DichId>>) -> SlotsModel {
    Seq::new(shedule.0@.len(), |i: int| (shedule.0@[i].0@, ids_view(shedule.0@[i].1@)))
}

/// The schedule of `week` as a mathematical value: the slots of each day,
/// Sunday first.
pub open spec fn week_view(week: Week<SlotShedule<Vec<DichId>>>) -> Seq<SlotsModel> {
    Seq::new(7, |slot: int| slots_view(week.0@[slot]))
}

/// The place in `menu` of the first dish called `name`.
pub fn find_dich(menu: &Vec<Dich>, name: &String) -> (id: Option<DichId>)
    ensures
        match id {
            Some(found) => dish_id(dish_names(catalogue_view(menu@)), name@) == Some(
                found.0 as nat,
            ) && found.0 < menu@.len(),
            None => dish_id(dish_names(catalogue_view(menu@)), name@) is None,
        },
{
    let ghost names = dish_names(catalogue_view(menu@));
    let mut i: usize = 0;
    while i < menu.len()
        invariant
            i <= menu.len(),
            names == dish_names(catalogue_view(menu@)),
            forall|j: int| 0 <= j < i ==> names[j] != name@,
        decreases menu.len() - i,
    {
        if menu[i].name == *name {
            proof {
                names.index_of_first_ensures(name@);
                assert(names[i as int] == name@);
            }
            return Some(DichId(i));
        }
        i += 1;
    }
    proof {
        names.index_of_first_ensures(name@);
    }
    None
}

/// The dishes that the items of a nested list refer to.
fn md_parse_references(items: &Vec<MdNode>, menu: &Vec<Dich>) -> (ids: Option<Vec<DichId>>)
    ensures
        match ids {
            Some(found) => references_of(forest(*items), dish_names(catalogue_view(menu@)))
                == Some(ids_view(found@)) && forall|k: int|
                0 <= k < found@.len() ==> (#[trigger] found@[k]).0 < menu@.len(),
            None => references_of(forest(*items), dish_names(catalogue_view(menu@))) is None,
        },
{
    let ghost names = dish_names(catalogue_view(menu@));
    let ghost wanted = Seq::new(
        forest(*items).len(),
        |i: int| reference_of(forest(*items)[i], names),
    );
    let mut ids: Vec<DichId> = Vec::new();
    let mut i: usize = 0;
    while i < items.len()
        invariant
            i <= items.len(),
            ids@.len() == i,
            names == dish_names(catalogue_view(menu@)),
            wanted == Seq::new(
                forest(*items).len(),
                |i: int| reference_of(forest(*items)[i], names),
            ),
            forall|j: int| 0 <= j < i ==> wanted[j] == Some((#[trigger] ids@[j]).0 as nat),
            forall|j: int| 0 <= j < i ==> (#[trigger] ids@[j]).0 < menu@.len(),
        decreases items.len() - i,
    {
        let children = match items[i].children() {
            Some(children) => children,
            None => {
                assert(wanted[i as int] is None);
                return None;
            },
        };
        if children.len() == 0 {
            assert(wanted[i as int] is None);
            return None;
        }
        let name = match md_parse_paragraph(&children[0]) {
            Some(name) => name,
            None => {
                assert(wanted[i as int] is None);
                return None;
            },
        };
        let id = match find_dich(menu, &name) {
            Some(id) => id,
            None => {
                assert(wanted[i as int] is None);
                return None;
            },
        };
        ids.push(id);
        assert(wanted[i as int] == Some(ids@[i as int].0 as nat));
        i += 1;
    }
    proof {
        assert forall|j: int| 0 <= j < wanted.len() implies (#[trigger] wanted[j]) is Some by {
            assert(wanted[j] == Some(ids@[j].0 as nat));
        }
        assert(collected(wanted)->0 =~= ids_view(ids@));
    }
    Some(ids)
}

/// Whether every dish that `shedule` refers to has a place below `limit`.
pub open spec fn slots_in_range(shedule: SlotShedule<Vec<DichId>>, limit: nat) -> bool {
    forall|s: int, k: int|
        0 <= s < shedule.0@.len() && 0 <= k < shedule.0@[s].1@.len() ==> (
        #[trigger] shedule.0@[s].1@[k]).0 < limit
}

/// The slots that the items of a day's nested list describe.
fn md_parse_slots(items: &Vec<MdNode>, menu: &Vec<Dich>) -> (slots: Option<
    SlotShedule<Vec<DichId>>,
>)
    ensures
        match slots {
            Some(found) => slots_of(forest(*items), dish_names(catalogue_view(menu@))) == Some(
                slots_view(found),
            ) && slots_in_range(found, menu@.len()),
            None => slots_of(forest(*items), dish_names(catalogue_view(menu@))) is None,
        },
{
    let ghost names = dish_names(catalogue_view(menu@));
    let ghost wanted = Seq::new(forest(*items).len(), |i: int| slot_of(forest(*items)[i], names));
    let mut slot_shedule: SlotShedule<Vec<DichId>> = SlotShedule::new();
    let mut i: usize = 0;
    while i < items.len()
        invariant
            i <= items.len(),
            slot_shedule.0@.len() == i,
            names == dish_names(catalogue_view(menu@)),
            wanted == Seq::new(forest(*items).len(), |i: int| slot_of(forest(*items)[i], names)),
            forall|j: int| 0 <= j < i ==> wanted[j] == Some(#[trigger] slots_view(slot_shedule)[j]),
            slots_in_range(slot_shedule, menu@.len()),
        decreases items.len() - i,
    {
        let (name, entries) = match md_item_parts(&items[i]) {
            Some(parts) => parts,
            None => {
                assert(wanted[i as int] is None);
                return None;
            },
        };
        let diches_ids = match entries {
            Some(entries) => match md_parse_references(entries, menu) {
                Some(ids) => ids,
                None => {
                    assert(wanted[i as int] is None);
                    return None;
                },
            },
            None => {
                proof {
                    let none = Seq::<MdTree>::empty();
                    assert(Seq::new(none.len(), |i: int| reference_of(none[i], names)) =~= Seq::<
                        Option<nat>,
                    >::empty());
                    assert(references_of(none, names)->0 =~= Seq::<nat>::empty());
                }
                Vec::new()
            },
        };
        let ghost before = slot_shedule;
        proof {
            assert(slot_of(forest(*items)[i as int], names) is Some);
            assert(slot_of(forest(*items)[i as int], names).unwrap().1 =~= ids_view(diches_ids@));
        }
        slot_shedule.0.push((name, diches_ids));
        proof {
            assert forall|j: int| 0 <= j < i implies wanted[j] == Some(
                #[trigger] slots_view(slot_shedule)[j],
            ) by {
                assert(slots_view(slot_shedule)[j] == slots_view(before)[j]);
            }
            assert(wanted[i as int] == Some(slots_view(slot_shedule)[i as int]));
            assert forall|s: int, k: int|
                0 <= s < slot_shedule.0@.len() && 0 <= k < slot_shedule.0@[s].1@.len() implies (
            #[trigger] slot_shedule.0@[s].1@[k]).0 < menu@.len() by {
                if s < i {
                    assert(slot_shedule.0@[s] == before.0@[s]);
                }
            }
        }
        i += 1;
    }
    proof {
        assert forall|j: int| 0 <= j < wanted.len() implies (#[trigger] wanted[j]) is Some by {
            assert(wanted[j] == Some(slots_view(slot_shedule)[j]));
        }
        assert(collected(wanted)->0 =~= slots_view(slot_shedule));
    }
    Some(slot_shedule)
}

/// Whether every dish that `week` refers to has a place below `limit`.
pub open spec fn week_in_range(week: Week<SlotShedule<Vec<DichId>>>, limit: nat) -> bool {
    forall|slot: int| 0 <= slot < 7 ==> slots_in_range(#[trigger] week.0@[slot], limit)
}

/// Reads the weekly schedule off the syntax tree of its document and looks
/// its dishes up in `diches_menu`.
pub fn md_parse_week_dich_shedule(ast: MdNode, diches_menu: &Vec<Dich>) -> (week: Option<
    Week<SlotShedule<Vec<DichId>>>,
>)
    ensures
        match week {
            Some(found) => shedule_of(ast@, dish_names(catalogue_view(diches_menu@))) == Some(
                week_view(found),
            ) && week_in_range(found, diches_menu@.len()),
            None => shedule_of(ast@, dish_names(catalogue_view(diches_menu@))) is None,
        },
{
    let list = match md_list_items(&ast) {
        Some(list) => list,
        None => {
            return None;
        },
    };
    let ghost names = dish_names(catalogue_view(diches_menu@));
    let ghost wanted = Seq::new(forest(*list).len(), |i: int| day_of(forest(*list)[i], names));
    let ghost mut done: Seq<(Seq<char>, SlotsModel)> = Seq::empty();
    let mut week: NameMap<SlotShedule<Vec<DichId>>> = NameMap::new();
    let mut i: usize = 0;
    while i < list.len()
        invariant
            i <= list.len(),
            done.len() == i,
            names == dish_names(catalogue_view(diches_menu@)),
            list_items(ast@) == Some(forest(*list)),
            wanted == Seq::new(forest(*list).len(), |i: int| day_of(forest(*list)[i], names)),
            forall|j: int| 0 <= j < i ==> wanted[j] == Some(#[trigger] done[j]),
            forall|name: Seq<char>| week@.contains_key(name) <==> days_map(done).contains_key(name),
            forall|name: Seq<char>| #[trigger]
                week@.contains_key(name) ==> slots_view(week@[name]) == days_map(done)[name]
                    && slots_in_range(week@[name], diches_menu@.len()),
        decreases list.len() - i,
    {
        let (name, entries) = match md_item_parts(&list[i]) {
            Some(parts) => parts,
            None => {
                assert(wanted[i as int] is None);
                return None;
            },
        };
        let slot_shedule = match entries {
            Some(entries) => match md_parse_slots(entries, diches_menu) {
                Some(slots) => slots,
                None => {
                    assert(wanted[i as int] is None);
                    return None;
                },
            },
            None => {
                proof {
                    let none = Seq::<MdTree>::empty();
                    assert(Seq::new(none.len(), |i: int| slot_of(none[i], names)) =~= Seq::<
                        Option<(Seq<char>, Seq<nat>)>,
                    >::empty());
                    assert(slots_of(none, names)->0 =~= Seq::<(Seq<char>, Seq<nat>)>::empty());
                }
                SlotShedule::new()
            },
        };
        proof {
            assert(day_of(forest(*list)[i as int], names) is Some);
            assert(day_of(forest(*list)[i as int], names).unwrap().1 =~= slots_view(slot_shedule));
            let day = (name@, slots_view(slot_shedule));
            assert(wanted[i as int] == Some(day));
            assert(done.push(day).drop_last() =~= done);
            done = done.push(day);
        }
        week.insert(name, slot_shedule);
        i += 1;
    }
    proof {
        assert forall|j: int| 0 <= j < wanted.len() implies (#[trigger] wanted[j]) is Some by {
            assert(wanted[j] == Some(done[j]));
        }
        assert(collected(wanted)->0 =~= done);
        assert(days_of(ast@, names) == Some(done));
    }
    let ghost days = week@;
    match Week::new(week) {
        Some(found) => {
            proof {
                assert forall|day: WeekDay| days_map(done).contains_key(#[trigger] day.name()) by {
                    assert(days.contains_key(day.name()));
                }
                assert forall|slot: int| 0 <= slot < 7 implies #[trigger] week_view(found)[slot]
                    == days_map(done)[day_at(slot).name()] && slots_in_range(
                    found.0@[slot],
                    diches_menu@.len(),
                ) by {
                    let day = day_at(slot);
                    assert(day.slot() == slot);
                    assert(found.spec_index(day) == days[day.name()]);
                    assert(days.contains_key(day.name()));
                }
                assert(week_of(days_map(done))->0 =~= week_view(found));
                assert forall|slot: int| 0 <= slot < 7 implies slots_in_range(
                    #[trigger] found.0@[slot],
                    diches_menu@.len(),
                ) by {
                    assert(week_view(found)[slot] == days_map(done)[day_at(slot).name()]);
                }
            }
            Some(found)
        },
        None => {
            proof {
                let day = choose|day: WeekDay| !days.contains_key(#[trigger] day.name());
                assert(!days_map(done).contains_key(day.name()));
            }
            None
        },
    }
}

/// The schedule that the document `text` describes, its dishes looked up
/// in `menu`, or why it describes none.
pub open spec fn parsed_shedule(text: Seq<char>, menu: Seq<Seq<char>>) -> Result<
    Seq<SlotsModel>,
    Failure,
> {
    match body_tree(text) {
        Ok(root) => match shedule_of(root, menu) {
            Some(week) => Ok(week),
            None => Err(Failure::ErrorWhileParsingWeekDichShedule),
        },
        Err(failure) => Err(failure),
    }
}

/// Reads the weekly schedule from the text of its document and looks its
/// dishes up in `diches_menu`.
pub fn parse_week_dich_shedule(markdown: &str, diches_menu: &Vec<Dich>) -> (week: WorldResult<
    Week<SlotShedule<Vec<DichId>>>,
>)
    ensures
        match week {
            Ok(found) => parsed_shedule(markdown@, dish_names(catalogue_view(diches_menu@)))
                == Ok::<Seq<SlotsModel>, Failure>(week_view(found)) && week_in_range(
                found,
                diches_menu@.len(),
            ),
            Err(error) => parsed_shedule(markdown@, dish_names(catalogue_view(diches_menu@)))
                == Err::<Seq<SlotsModel>, Failure>(error@),
        },
{
    let ast = match parse_body(markdown) {
        Ok(ast) => ast,
        Err(error) => {
            return Err(error);
        },
    };
    match md_parse_week_dich_shedule(ast, diches_menu) {
        Some(week) => Ok(week),
        None => Err(WorldError::ErrorWhileParsingWeekDichShedule),
    }
}

/// The dish catalogue and the weekly schedule that refers to it.
pub struct Food {
    pub week_dich_shedule: Week<SlotShedule<Vec<DichId>>>,
    pub diches: Vec<Dich>,
}

/// What the two food documents describe together: the catalogue, and the
/// schedule with its dishes looked up in that catalogue. The catalogue is
/// read first, so its failure comes first.
pub open spec fn parsed_food(diches: Seq<char>, shedule: Seq<char>) -> Result<
    (Seq<DishModel>, Seq<SlotsModel>),
    Failure,
> {
    match parsed_catalogue(diches) {
        Ok(catalogue) => match parsed_shedule(shedule, dish_names(catalogue)) {
            Ok(week) => Ok((catalogue, week)),
            Err(failure) => Err(failure),
        },
        Err(failure) => Err(failure),
    }
}

/// Whether `food` is what reading the food documents `files` gives.
pub open spec fn is_parsed_food(files: Map<Seq<char>, String>, food: WorldResult<Food>) -> bool {
    match food {
        Ok(found) => parsed_food(files["diches.md"@]@, files["week_dich_shedule.md"@]@) == Ok::<
            (Seq<DishModel>, Seq<SlotsModel>),
            Failure,
        >((catalogue_view(found.diches@), week_view(found.week_dich_shedule))) && found.wf(),
        Err(error) => parsed_food(files["diches.md"@]@, files["week_dich_shedule.md"@]@) == Err::<
            (Seq<DishModel>, Seq<SlotsModel>),
            Failure,
        >(error@),
    }
}

impl Food {
    /// Whether every dish that the schedule refers to is in the catalogue.
    pub open spec fn wf(self) -> bool {
        week_in_range(self.week_dich_shedule, self.diches@.len())
    }

    /// Reads the catalogue from the document `diches.md` and the schedule
    /// from the document `week_dich_shedule.md`, which both must be among
    /// `files`.
    pub fn new(files: NameMap<String>) -> (food: WorldResult<Food>)
        requires
            files@.contains_key("diches.md"@),
            files@.contains_key("week_dich_shedule.md"@),
        ensures
            is_parsed_food(files@, food),
    {
        let diches_text = files.get("diches.md").unwrap();
        let diches = match parse_diches(diches_text.as_str()) {
            Ok(diches) => diches,
            Err(error) => {
                return Err(error);
            },
        };
        let shedule_text = files.get("week_dich_shedule.md").unwrap();
        let week_dich_shedule = match parse_week_dich_shedule(shedule_text.as_str(), &diches) {
            Ok(week) => week,
            Err(error) => {
                return Err(error);
            },
        };
        Ok(Food { week_dich_shedule, diches })
    }

    /// The food documents are read and never written: there is nothing to
    /// render.
    pub fn render(&self) -> (done: WorldResult<()>)
        ensures
            done is Ok,
    {
        Ok(())
    }
}

/// Reading a catalogue is a function of its document: two readings of one
/// text both succeed or both fail, with the same failure or with the same
/// dishes in the same order, so that every name gets the same `DichId`.
pub proof fn lemma_catalogue_is_determined(
    text: Seq<char>,
    first: WorldResult<Vec<Dich>>,
    second: WorldResult<Vec<Dich>>,
)
    requires
        is_parsed_catalogue(text, first),
        is_parsed_catalogue(text, second),
    ensures
        match (first, second) {
            (Ok(a), Ok(b)) => catalogue_view(a@) == catalogue_view(b@) && forall|name: Seq<char>|
                dish_id(dish_names(catalogue_view(a@)), name) == dish_id(
                    dish_names(catalogue_view(b@)),
                    name,
                ),
            (Err(a), Err(b)) => a@ == b@,
            _ => false,
        },
{
}

/// A catalogue holds one dish for each item of the document's list, in the
/// order of the document.
pub proof fn lemma_catalogue_keeps_document_order(root: MdTree, i: int)
    requires
        dishes_of(root) is Some,
        0 <= i < list_items(root).unwrap().len(),
    ensures
        dishes_of(root).unwrap().len() == list_items(root).unwrap().len(),
        Some(dishes_of(root).unwrap()[i].name) == item_name(list_items(root).unwrap()[i]),
{
    let items = list_items(root).unwrap();
    let wanted = Seq::new(items.len(), |i: int| dish_of(items[i]));
    assert(wanted[i] is Some);
}

/// A schedule that refers to a dish by a name that the catalogue lacks is
/// no schedule: the whole document is refused.
pub proof fn lemma_unknown_dish_fails(
    root: MdTree,
    menu: Seq<Seq<char>>,
    day: int,
    slot: int,
    reference: int,
)
    requires
        list_items(root) is Some,
        0 <= day < list_items(root).unwrap().len(),
        item_entries(list_items(root).unwrap()[day]) is Some,
        0 <= slot < item_entries(list_items(root).unwrap()[day]).unwrap().len(),
        item_entries(item_entries(list_items(root).unwrap()[day]).unwrap()[slot]) is Some,
        0 <= reference < item_entries(
            item_entries(list_items(root).unwrap()[day]).unwrap()[slot],
        ).unwrap().len(),
        item_name(
            item_entries(
                item_entries(list_items(root).unwrap()[day]).unwrap()[slot],
            ).unwrap()[reference],
        ) matches Some(name) && !menu.contains(name),
    ensures
        shedule_of(root, menu) is None,
        forall|text: Seq<char>| #[trigger]
            body_tree(text) == Ok::<MdTree, Failure>(root) ==> parsed_shedule(text, menu) == Err::<
                Seq<SlotsModel>,
                Failure,
            >(Failure::ErrorWhileParsingWeekDichShedule),
{
    let days = list_items(root).unwrap();
    let slots = item_entries(days[day]).unwrap();
    let references = item_entries(slots[slot]).unwrap();
    let name = item_name(references[reference]).unwrap();
    menu.index_of_first_ensures(name);
    let wanted_ids = Seq::new(references.len(), |i: int| reference_of(references[i], menu));
    assert(wanted_ids[reference] is None);
    assert(references_of(references, menu) is None);
    let wanted_slots = Seq::new(slots.len(), |i: int| slot_of(slots[i], menu));
    assert(wanted_slots[slot] is None);
    assert(slots_of(slots, menu) is None);
    let wanted_days = Seq::new(days.len(), |i: int| day_of(days[i], menu));
    assert(wanted_days[day] is None);
    assert(days_of(root, menu) is None);
}

/// A schedule needs all seven days: where the document leaves one out,
/// whatever else it holds, no week comes of it.
pub proof fn lemma_missing_day_fails(days: Map<Seq<char>, SlotsModel>, day: WeekDay)
    requires
        !days.contains_key(day.name()),
    ensures
        week_of(days) is None,
{
}

/// Where all seven days are there, the week holds for each day the slots
/// that stand under the day's name; other names do not matter.
pub proof fn lemma_full_week_keeps_days(days: Map<Seq<char>, SlotsModel>, day: WeekDay)
    requires
        forall|each: WeekDay| days.contains_key(#[trigger] each.name()),
    ensures
        week_of(days) is Some,
        week_of(days).unwrap().len() == 7,
        week_of(days).unwrap()[day.slot()] == days[day.name()],
{
    assert(day_at(day.slot()) == day);
}

} // verus!
