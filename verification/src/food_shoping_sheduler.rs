use vstd::prelude::*;
use vstd::string::StringExecFns;

use crate::dates::{
    add_days, date_plus_days, duration_from_hours, duration_of_hours, format_date, text_of_date,
    time_from_hms, time_of_hms, today, weekday, weekday_of,
};
use crate::food::{
    catalogue_view, ids_view, slots_in_range, slots_view, week_view, Dich,
    DichId, DishModel, Food, Ingredient, IngredientModel, SlotsModel,
};
use crate::kanban::with_name;
use crate::mdast::{MdNode, MdTree};
use crate::name_map::NameMap;
use crate::task::{KanbanInfo, KanbanModel, Task, TaskModel};
use crate::text::{decimal, decimal_text};
use crate::util::{SlotShedule, WeekDay};
use crate::world::World;

verus! {

/// The dishes that `slots` refer to, slot after slot.
pub open spec fn slot_refs(slots: SlotsModel) -> Seq<nat>
    decreases slots.len(),
{
    if slots.len() == 0 {
        Seq::empty()
    } else {
        slot_refs(slots.drop_last()) + slots.last().1
    }
}

/// The dishes that `week` refers to, day after day.
pub open spec fn week_refs(week: Seq<SlotsModel>) -> Seq<nat>
    decreases week.len(),
{
    if week.len() == 0 {
        Seq::empty()
    } else {
        week_refs(week.drop_last()) + slot_refs(week.last())
    }
}

/// The ingredients of the dishes `refs` of `catalogue`, dish after dish.
/// A dish that is referred to twice gives its ingredients twice.
pub open spec fn refs_ingredients(catalogue: Seq<DishModel>, refs: Seq<nat>) -> Seq<
    IngredientModel,
>
    decreases refs.len(),
{
    if refs.len() == 0 {
        Seq::empty()
    } else {
        refs_ingredients(catalogue, refs.drop_last()) + catalogue[refs.last() as int].ingredients
    }
}

/// All that the week's dishes take.
pub open spec fn needed(catalogue: Seq<DishModel>, week: Seq<SlotsModel>) -> Seq<IngredientModel> {
    refs_ingredients(catalogue, week_refs(week))
}

/// How much of the ingredient `name` there is in `ingredients`: the sum of
/// the amounts under that name.
pub open spec fn total(ingredients: Seq<IngredientModel>, name: Seq<char>) -> nat
    decreases ingredients.len(),
{
    if ingredients.len() == 0 {
        0
    } else {
        total(ingredients.drop_last(), name) + if ingredients.last().name == name {
            ingredients.last().amount
        } else {
            0
        }
    }
}

/// The names of `ingredients`, each once, in the order of their first
/// occurrence.
pub open spec fn first_names(ingredients: Seq<IngredientModel>) -> Seq<Seq<char>>
    decreases ingredients.len(),
{
    if ingredients.len() == 0 {
        Seq::empty()
    } else {
        with_name(first_names(ingredients.drop_last()), ingredients.last().name)
    }
}

/// Whether some total of `ingredients` is beyond what a machine word
/// holds.
pub open spec fn overflows(ingredients: Seq<IngredientModel>) -> bool {
    exists|name: Seq<char>| total(ingredients, name) > usize::MAX
}

/// Whether `totals` holds the totals of `ingredients`: one entry for each
/// name, in the order of first occurrence, with the sum of its amounts.
pub open spec fn is_tally(totals: NameMap<usize>, ingredients: Seq<IngredientModel>) -> bool {
    &&& totals.keys() == first_names(ingredients)
    &&& forall|name: Seq<char>| #[trigger]
        totals@.contains_key(name) ==> totals@[name] == total(ingredients, name)
}

/// The total over two sequences is the sum of their totals.
pub proof fn lemma_total_concat(a: Seq<IngredientModel>, b: Seq<IngredientModel>, name: Seq<char>)
    ensures
        total(a + b, name) == total(a, name) + total(b, name),
    decreases b.len(),
{
    if b.len() == 0 {
        assert(a + b =~= a);
    } else {
        assert((a + b).drop_last() =~= a + b.drop_last());
        assert((a + b).last() == b.last());
        lemma_total_concat(a, b.drop_last(), name);
    }
}

/// What overflows keeps overflowing when more is added.
pub proof fn lemma_overflow_stays(a: Seq<IngredientModel>, b: Seq<IngredientModel>)
    requires
        overflows(a),
    ensures
        overflows(a + b),
{
    let name = choose|name: Seq<char>| total(a, name) > usize::MAX;
    lemma_total_concat(a, b, name);
}

/// A name that does not occur has total zero.
pub proof fn lemma_total_of_absent(ingredients: Seq<IngredientModel>, name: Seq<char>)
    requires
        !first_names(ingredients).contains(name),
    ensures
        total(ingredients, name) == 0,
    decreases ingredients.len(),
{
    if ingredients.len() > 0 {
        let rest = first_names(ingredients.drop_last());
        let last = ingredients.last().name;
        if rest.contains(name) {
            let i = rest.index_of(name);
            assert(with_name(rest, last)[i] == name);
        }
        if last == name {
            if !rest.contains(last) {
                assert(rest.push(last)[rest.len() as int] == name);
            }
        }
        lemma_total_of_absent(ingredients.drop_last(), name);
    }
}

/// The ingredients of dishes over two sequences of references.
pub proof fn lemma_refs_concat(catalogue: Seq<DishModel>, a: Seq<nat>, b: Seq<nat>)
    ensures
        refs_ingredients(catalogue, a + b) == refs_ingredients(catalogue, a) + refs_ingredients(
            catalogue,
            b,
        ),
    decreases b.len(),
{
    if b.len() == 0 {
        assert(a + b =~= a);
        assert(refs_ingredients(catalogue, a) + refs_ingredients(catalogue, b)
            =~= refs_ingredients(catalogue, a));
    } else {
        assert((a + b).drop_last() =~= a + b.drop_last());
        assert((a + b).last() == b.last());
        lemma_refs_concat(catalogue, a, b.drop_last());
        assert(refs_ingredients(catalogue, a + b) =~= refs_ingredients(catalogue, a)
            + refs_ingredients(catalogue, b));
    }
}

/// Counts one ingredient in. Gives `false`, and changes nothing that
/// matters, where the total would not fit a machine word.
fn add_ingredient(
    totals: &mut NameMap<usize>,
    ingredient: &Ingredient,
    Ghost(seen): Ghost<Seq<IngredientModel>>,
) -> (fits: bool)
    requires
        is_tally(*old(totals), seen),
    ensures
        fits ==> is_tally(*final(totals), seen.push(ingredient@)),
        !fits ==> overflows(seen.push(ingredient@)),
{
    let ghost now = seen.push(ingredient@);
    let ghost before = *totals;
    proof {
        assert(now.drop_last() =~= seen);
        assert(now.last() == ingredient@);
    }
    match totals.position(ingredient.name.as_str()) {
        Some(i) => {
            let amount = *totals.value_at(i);
            match amount.checked_add(ingredient.amount) {
                Some(sum) => {
                    totals.replace_at(i, sum);
                    proof {
                        assert(before.keys().contains(ingredient.name@));
                    }
                    true
                },
                None => {
                    proof {
                        assert(total(now, ingredient.name@) > usize::MAX);
                    }
                    false
                },
            }
        },
        None => {
            proof {
                assert(!before.keys().contains(ingredient.name@));
                lemma_total_of_absent(seen, ingredient.name@);
            }
            totals.insert(ingredient.name.clone(), ingredient.amount);
            true
        },
    }
}

/// Counts the ingredients of one dish in.
fn add_dich(
    totals: &mut NameMap<usize>,
    dich: &Dich,
    Ghost(seen): Ghost<Seq<IngredientModel>>,
) -> (fits: bool)
    requires
        is_tally(*old(totals), seen),
    ensures
        fits ==> is_tally(*final(totals), seen + dich@.ingredients),
        !fits ==> overflows(seen + dich@.ingredients),
{
    let ghost all = dich@.ingredients;
    let mut i: usize = 0;
    proof {
        assert(seen + all.take(0) =~= seen);
    }
    while i < dich.ingredients.len()
        invariant
            i <= dich.ingredients.len(),
            all == dich@.ingredients,
            all.len() == dich.ingredients@.len(),
            is_tally(*totals, seen + all.take(i as int)),
        decreases dich.ingredients.len() - i,
    {
        let ghost so_far = seen + all.take(i as int);
        let fits = add_ingredient(totals, &dich.ingredients[i], Ghost(so_far));
        proof {
            assert(so_far.push(dich.ingredients[i as int]@) =~= seen + all.take(i + 1));
        }
        if !fits {
            proof {
                lemma_overflow_stays(seen + all.take(i + 1), all.skip(i + 1));
                assert((seen + all.take(i + 1)) + all.skip(i + 1) =~= seen + all);
            }
            return false;
        }
        i += 1;
    }
    proof {
        assert(all.take(i as int) =~= all);
    }
    true
}

/// Counts the ingredients of the dishes `ids` in. Gives `false` where a
/// dish is not in the catalogue or a total would not fit a machine word.
fn add_diches(
    totals: &mut NameMap<usize>,
    diches: &Vec<Dich>,
    ids: &Vec<DichId>,
    Ghost(seen): Ghost<Seq<IngredientModel>>,
) -> (fits: bool)
    requires
        is_tally(*old(totals), seen),
    ensures
        fits ==> is_tally(
            *final(totals),
            seen + refs_ingredients(catalogue_view(diches@), ids_view(ids@)),
        ) && forall|k: int| 0 <= k < ids@.len() ==> (#[trigger] ids@[k]).0 < diches@.len(),
        !fits ==> (exists|k: int| 0 <= k < ids@.len() && (#[trigger] ids@[k]).0 >= diches@.len())
            || overflows(seen + refs_ingredients(catalogue_view(diches@), ids_view(ids@))),
{
    let ghost catalogue = catalogue_view(diches@);
    let ghost refs = ids_view(ids@);
    let mut k: usize = 0;
    proof {
        assert(seen + refs_ingredients(catalogue, refs.take(0)) =~= seen);
    }
    while k < ids.len()
        invariant
            k <= ids.len(),
            catalogue == catalogue_view(diches@),
            refs == ids_view(ids@),
            is_tally(*totals, seen + refs_ingredients(catalogue, refs.take(k as int))),
            forall|j: int| 0 <= j < k ==> (#[trigger] ids@[j]).0 < diches@.len(),
        decreases ids.len() - k,
    {
        let id = ids[k].0;
        if id >= diches.len() {
            return false;
        }
        let ghost so_far = seen + refs_ingredients(catalogue, refs.take(k as int));
        let fits = add_dich(totals, &diches[id], Ghost(so_far));
        proof {
            assert(refs.take(k + 1).drop_last() =~= refs.take(k as int));
            assert(refs.take(k + 1).last() == id as nat);
            assert(so_far + diches[id as int]@.ingredients =~= seen + refs_ingredients(
                catalogue,
                refs.take(k + 1),
            ));
        }
        if !fits {
            proof {
                let done = refs.take(k + 1);
                let rest = refs.skip(k + 1);
                assert(done + rest =~= refs);
                lemma_refs_concat(catalogue, done, rest);
                lemma_overflow_stays(
                    seen + refs_ingredients(catalogue, done),
                    refs_ingredients(catalogue, rest),
                );
                assert((seen + refs_ingredients(catalogue, done)) + refs_ingredients(
                    catalogue,
                    rest,
                ) =~= seen + refs_ingredients(catalogue, refs));
            }
            return false;
        }
        k += 1;
    }
    proof {
        assert(refs.take(k as int) =~= refs);
    }
    true
}

/// Counts the ingredients of a day's dishes in.
fn add_day(
    totals: &mut NameMap<usize>,
    diches: &Vec<Dich>,
    day: &SlotShedule<Vec<DichId>>,
    Ghost(seen): Ghost<Seq<IngredientModel>>,
) -> (fits: bool)
    requires
        is_tally(*old(totals), seen),
    ensures
        fits ==> is_tally(
            *final(totals),
            seen + refs_ingredients(catalogue_view(diches@), slot_refs(slots_view(*day))),
        ) && slots_in_range(*day, diches@.len()),
        !fits ==> !slots_in_range(*day, diches@.len()) || overflows(
            seen + refs_ingredients(catalogue_view(diches@), slot_refs(slots_view(*day))),
        ),
{
    let ghost catalogue = catalogue_view(diches@);
    let ghost slots = slots_view(*day);
    let mut s: usize = 0;
    proof {
        assert(seen + refs_ingredients(catalogue, slot_refs(slots.take(0))) =~= seen);
    }
    while s < day.0.len()
        invariant
            s <= day.0.len(),
            catalogue == catalogue_view(diches@),
            slots == slots_view(*day),
            is_tally(*totals, seen + refs_ingredients(catalogue, slot_refs(slots.take(s as int)))),
            forall|i: int, k: int|
                0 <= i < s && 0 <= k < day.0@[i].1@.len() ==> (#[trigger] day.0@[i].1@[k]).0
                    < diches@.len(),
        decreases day.0.len() - s,
    {
        let ghost done = slot_refs(slots.take(s as int));
        let ghost so_far = seen + refs_ingredients(catalogue, done);
        let ghost refs = ids_view(day.0@[s as int].1@);
        let fits = add_diches(totals, diches, &day.0[s].1, Ghost(so_far));
        proof {
            assert(slots.take(s + 1).drop_last() =~= slots.take(s as int));
            assert(slots.take(s + 1).last() == slots[s as int]);
            assert(slot_refs(slots.take(s + 1)) == done + refs);
            lemma_refs_concat(catalogue, done, refs);
            assert(so_far + refs_ingredients(catalogue, refs) =~= seen + refs_ingredients(
                catalogue,
                slot_refs(slots.take(s + 1)),
            ));
        }
        if !fits {
            proof {
                if forall|k: int|
                    0 <= k < day.0@[s as int].1@.len() ==> (#[trigger] day.0@[s as int].1@[k]).0
                        < diches@.len() {
                    let head = slot_refs(slots.take(s + 1));
                    lemma_slot_refs_split(slots, s + 1);
                    let rest = slot_refs(slots.skip(s + 1));
                    lemma_refs_concat(catalogue, head, rest);
                    lemma_overflow_stays(
                        seen + refs_ingredients(catalogue, head),
                        refs_ingredients(catalogue, rest),
                    );
                    assert((seen + refs_ingredients(catalogue, head)) + refs_ingredients(
                        catalogue,
                        rest,
                    ) =~= seen + refs_ingredients(catalogue, slot_refs(slots)));
                } else {
                    let k = choose|k: int|
                        0 <= k < day.0@[s as int].1@.len() && (#[trigger] day.0@[s as int].1@[k]).0
                            >= diches@.len();
                    assert(day.0@[s as int].1@[k].0 >= diches@.len());
                }
            }
            return false;
        }
        s += 1;
    }
    proof {
        assert(slots.take(s as int) =~= slots);
    }
    true
}

/// The references of slots, parted at `at`.
pub proof fn lemma_slot_refs_split(slots: SlotsModel, at: int)
    requires
        0 <= at <= slots.len(),
    ensures
        slot_refs(slots) == slot_refs(slots.take(at)) + slot_refs(slots.skip(at)),
    decreases slots.len() - at,
{
    if at == slots.len() {
        assert(slots.take(at) =~= slots);
        assert(slots.skip(at) =~= Seq::<(Seq<char>, Seq<nat>)>::empty());
        assert(slot_refs(slots) + slot_refs(slots.skip(at)) =~= slot_refs(slots));
    } else {
        let tail = slots.skip(at);
        assert(slots.drop_last().take(at) =~= slots.take(at));
        assert(slots.drop_last().skip(at) =~= tail.drop_last());
        assert(tail.last() == slots.last());
        lemma_slot_refs_split(slots.drop_last(), at);
        assert(slot_refs(slots) =~= slot_refs(slots.take(at)) + slot_refs(tail));
    }
}

/// The references of a week, parted at `at`.
pub proof fn lemma_week_refs_split(week: Seq<SlotsModel>, at: int)
    requires
        0 <= at <= week.len(),
    ensures
        week_refs(week) == week_refs(week.take(at)) + week_refs(week.skip(at)),
    decreases week.len() - at,
{
    if at == week.len() {
        assert(week.take(at) =~= week);
        assert(week.skip(at) =~= Seq::<SlotsModel>::empty());
        assert(week_refs(week) + week_refs(week.skip(at)) =~= week_refs(week));
    } else {
        let tail = week.skip(at);
        assert(week.drop_last().take(at) =~= week.take(at));
        assert(week.drop_last().skip(at) =~= tail.drop_last());
        assert(tail.last() == week.last());
        lemma_week_refs_split(week.drop_last(), at);
        assert(week_refs(week) =~= week_refs(week.take(at)) + week_refs(tail));
    }
}

/// All that the week's dishes of `food` take.
pub open spec fn food_needs(food: Food) -> Seq<IngredientModel> {
    needed(catalogue_view(food.diches@), week_view(food.week_dich_shedule))
}

/// Sums up, for each ingredient, how much of it the week's dishes take.
/// Gives nothing where the schedule refers to a dish that the catalogue
/// lacks, or where a total does not fit a machine word.
pub fn shoping_list(food: &Food) -> (list: Option<NameMap<usize>>)
    ensures
        match list {
            Some(totals) => food.wf() && !overflows(food_needs(*food)) && is_tally(
                totals,
                food_needs(*food),
            ),
            None => !food.wf() || overflows(food_needs(*food)),
        },
{
    let ghost catalogue = catalogue_view(food.diches@);
    let ghost week = week_view(food.week_dich_shedule);
    let mut ingredients: NameMap<usize> = NameMap::new();
    let mut d: usize = 0;
    proof {
        assert(refs_ingredients(catalogue, week_refs(week.take(0))) =~= Seq::<
            IngredientModel,
        >::empty());
    }
    while d < 7
        invariant
            d <= 7,
            catalogue == catalogue_view(food.diches@),
            week == week_view(food.week_dich_shedule),
            is_tally(ingredients, refs_ingredients(catalogue, week_refs(week.take(d as int)))),
            forall|slot: int|
                0 <= slot < d ==> slots_in_range(
                    #[trigger] food.week_dich_shedule.0@[slot],
                    food.diches@.len(),
                ),
        decreases 7 - d,
    {
        let ghost done = week_refs(week.take(d as int));
        let ghost so_far = refs_ingredients(catalogue, done);
        let ghost refs = slot_refs(week[d as int]);
        let fits = add_day(
            &mut ingredients,
            &food.diches,
            &food.week_dich_shedule.0[d],
            Ghost(so_far),
        );
        proof {
            assert(week.take(d + 1).drop_last() =~= week.take(d as int));
            assert(week.take(d + 1).last() == week[d as int]);
            assert(week_refs(week.take(d + 1)) == done + refs);
            lemma_refs_concat(catalogue, done, refs);
        }
        if !fits {
            proof {
                if slots_in_range(food.week_dich_shedule.0@[d as int], food.diches@.len()) {
                    let head = week_refs(week.take(d + 1));
                    lemma_week_refs_split(week, d + 1);
                    let rest = week_refs(week.skip(d + 1));
                    lemma_refs_concat(catalogue, head, rest);
                    lemma_overflow_stays(
                        refs_ingredients(catalogue, head),
                        refs_ingredients(catalogue, rest),
                    );
                }
            }
            return None;
        }
        d += 1;
    }
    proof {
        assert(week.take(7) =~= week);
        let all = food_needs(*food);
        assert forall|name: Seq<char>| total(all, name) <= usize::MAX by {
            if ingredients@.contains_key(name) {
                assert(ingredients@[name] == total(all, name));
            } else {
                lemma_total_of_absent(all, name);
            }
        }
    }
    Some(ingredients)
}

/// The place of a day in a week that starts on Monday.
pub open spec fn ordinal(day: WeekDay) -> int {
    match day {
        WeekDay::Monday => 0,
        WeekDay::Tuesday => 1,
        WeekDay::Wednesday => 2,
        WeekDay::Thursday => 3,
        WeekDay::Friday => 4,
        WeekDay::Saturday => 5,
        WeekDay::Sunday => 6,
    }
}

/// How many days after a `day` the next Thursday comes; none on a
/// Thursday.
pub open spec fn days_to_thursday(day: WeekDay) -> int {
    (10 - ordinal(day)) % 7
}

/// The day after `day`.
fn next_day(day: WeekDay) -> (next: WeekDay)
    ensures
        ordinal(next) == (ordinal(day) + 1) % 7,
{
    match day {
        WeekDay::Monday => WeekDay::Tuesday,
        WeekDay::Tuesday => WeekDay::Wednesday,
        WeekDay::Wednesday => WeekDay::Thursday,
        WeekDay::Thursday => WeekDay::Friday,
        WeekDay::Friday => WeekDay::Saturday,
        WeekDay::Saturday => WeekDay::Sunday,
        WeekDay::Sunday => WeekDay::Monday,
    }
}

/// The place, in a week that starts on Monday, of the day that comes
/// `later` days after `day`.
pub open spec fn ordinal_after(day: WeekDay, later: int) -> int {
    (ordinal(day) + later) % 7
}

/// Counts the days from `day` to the next Thursday.
pub fn count_days_to_thursday(day: WeekDay) -> (days: u64)
    ensures
        days == days_to_thursday(day),
{
    let mut weekday = day;
    let mut days: u64 = 0;
    proof {
        assert(ordinal_after(day, days_to_thursday(day)) == 3);
    }
    while weekday != WeekDay::Thursday
        invariant
            days <= 6,
            ordinal(weekday) == ordinal_after(day, days as int),
            ordinal_after(day, days_to_thursday(day)) == 3,
            forall|earlier: int|
                0 <= earlier < days ==> #[trigger] ordinal_after(day, earlier) != 3,
        decreases 6 - days,
    {
        weekday = next_day(weekday);
        days += 1;
    }
    days
}

/// The day for shopping as seen from `today`: the next Thursday, today if
/// today is one. Nothing where the calendar ends before it.
pub open spec fn shoping_date(today: ::chrono::NaiveDate) -> Option<::chrono::NaiveDate> {
    date_plus_days(today, days_to_thursday(weekday_of(today)) as u64)
}

/// The day and the hour for shopping as seen from `today`: two in the
/// afternoon of the next Thursday, which is today on a Thursday.
pub fn get_shoping_datetime(today: ::chrono::NaiveDate) -> (moment: Option<
    (::chrono::NaiveDate, ::chrono::NaiveTime),
>)
    ensures
        match moment {
            Some((date, time)) => shoping_date(today) == Some(date) && time_of_hms(14, 0, 0)
                == Some(time),
            None => shoping_date(today) is None,
        },
        weekday_of(today) == WeekDay::Thursday ==> (moment matches Some((date, _)) && date
            == today),
{
    let days = count_days_to_thursday(weekday(&today));
    let date = match add_days(&today, days) {
        Some(date) => date,
        None => {
            return None;
        },
    };
    let time = time_from_hms(14, 0, 0).unwrap();
    Some((date, time))
}

/// The line of the shopping list for an ingredient: its name and how much
/// of it to buy.
pub open spec fn shoping_line(name: Seq<char>, amount: nat) -> Seq<char> {
    name + ": "@ + decimal_text(amount)
}

/// One item of the shopping list: an unchecked box with the ingredient's
/// line.
pub open spec fn shoping_item(name: Seq<char>, amount: nat) -> MdTree {
    MdTree::ListItem {
        checked: Some(false),
        children: seq![MdTree::Text(shoping_line(name, amount))],
    }
}

/// The shopping list for `ingredients`: an ordered list with one item for
/// each ingredient, in the order of first occurrence, with its total.
pub open spec fn shoping_tree(ingredients: Seq<IngredientModel>) -> MdTree {
    MdTree::List {
        ordered: true,
        children: Seq::new(
            first_names(ingredients).len(),
            |i: int|
                shoping_item(
                    first_names(ingredients)[i],
                    total(ingredients, first_names(ingredients)[i]),
                ),
        ),
    }
}

/// The list that writes the amounts `amounts` of the ingredients `names`:
/// an ordered list with one item for each name, in order.
pub open spec fn checklist(names: Seq<Seq<char>>, amounts: Map<Seq<char>, usize>) -> MdTree {
    MdTree::List {
        ordered: true,
        children: Seq::new(names.len(), |i: int| shoping_item(names[i], amounts[names[i]] as nat)),
    }
}

/// Writes the totals as a list of unchecked boxes, one for each
/// ingredient in the order of `totals`, with its name and its amount.
pub fn shoping_description(totals: &NameMap<usize>) -> (list: MdNode)
    ensures
        list@ == checklist(totals.keys(), totals@),
{
    let mut items: Vec<MdNode> = Vec::new();
    let n = totals.len();
    let ghost names = totals.keys();
    let mut i: usize = 0;
    while i < n
        invariant
            i <= n,
            n == names.len(),
            names == totals.keys(),
            items@.len() == i,
            forall|j: int|
                0 <= j < i ==> (#[trigger] items@[j])@ == shoping_item(
                    names[j],
                    totals@[names[j]] as nat,
                ),
        decreases n - i,
    {
        let name = totals.key_at(i);
        let amount = *totals.value_at(i);
        let mut line = name.clone();
        line.append(": ");
        line.append(decimal(amount).as_str());
        let mut children: Vec<MdNode> = Vec::new();
        children.push(MdNode::Text(line));
        let item = MdNode::ListItem { checked: Some(false), children };
        proof {
            assert(line@ =~= shoping_line(names[i as int], amount as nat));
            assert(children@.len() == 1);
            assert(children@[0]@ == MdTree::Text(line@));
            assert(item@->ListItem_children =~= seq![
                MdTree::Text(shoping_line(names[i as int], amount as nat)),
            ]);
        }
        items.push(item);
        i += 1;
    }
    let list = MdNode::List { ordered: true, children: items };
    proof {
        assert(list@->List_children =~= checklist(names, totals@)->List_children);
    }
    list
}

/// The name of the shopping task for a day that is written `written`.
pub open spec fn shoping_name_of(written: Seq<char>) -> Seq<char> {
    "Weekly shoping "@ + written + ".md"@
}

/// The name of the shopping task for `date`.
pub open spec fn shoping_name(date: ::chrono::NaiveDate) -> Seq<char> {
    shoping_name_of(text_of_date(date))
}

/// The shopping task for `date`: what to buy for the week's dishes, at
/// two in the afternoon, for two hours, to do on the board for shopping.
pub open spec fn shoping_task(
    ingredients: Seq<IngredientModel>,
    date: ::chrono::NaiveDate,
) -> TaskModel {
    TaskModel {
        priority: 0,
        name: shoping_name(date),
        description: shoping_tree(ingredients),
        date: Some(date),
        time: time_of_hms(14, 0, 0),
        duration: duration_of_hours(2),
        kanban: Some(KanbanModel { stage: "ToDo"@, board: "Shoping"@ }),
    }
}

/// Makes the shopping task of the totals `totals` for the day `date`,
/// which is written `written`, with the given time and duration: a task
/// of priority zero, named after the day, to do on the board for
/// shopping.
pub fn make_shoping_task(
    totals: &NameMap<usize>,
    date: ::chrono::NaiveDate,
    written: &str,
    time: Option<::chrono::NaiveTime>,
    duration: Option<::chrono::Duration>,
) -> (named: (String, Task))
    ensures
        named.0@ == shoping_name_of(written@),
        named.1@ == (TaskModel {
            priority: 0,
            name: shoping_name_of(written@),
            description: checklist(totals.keys(), totals@),
            date: Some(date),
            time,
            duration,
            kanban: Some(KanbanModel { stage: "ToDo"@, board: "Shoping"@ }),
        }),
{
    let list = shoping_description(totals);
    let mut name = "Weekly shoping ".to_owned();
    name.append(written);
    name.append(".md");
    let task = Task {
        priority: 0,
        name: name.clone(),
        description: list,
        date: Some(date),
        time,
        duration,
        kanban: Some(KanbanInfo { board: "Shoping".to_owned(), stage: "ToDo".to_owned() }),
    };
    (name, task)
}

/// The tasks that the food of a vault asks for as seen from `today`: the
/// shopping task, or none where the calendar ends before the day for
/// shopping.
pub open spec fn produced(food: Food, today: ::chrono::NaiveDate) -> Seq<(Seq<char>, TaskModel)> {
    match shoping_date(today) {
        Some(date) => seq![(shoping_name(date), shoping_task(food_needs(food), date))],
        None => Seq::empty(),
    }
}

/// The tasks `tasks` under their names, as mathematical values.
pub open spec fn named_tasks(tasks: Seq<(String, Task)>) -> Seq<(Seq<char>, TaskModel)> {
    Seq::new(tasks.len(), |i: int| (tasks[i].0@, tasks[i].1@))
}

/// Totals that are written as a list give the shopping list of what they
/// are the totals of.
pub proof fn lemma_checklist_of_tally(totals: NameMap<usize>, ingredients: Seq<IngredientModel>)
    requires
        is_tally(totals, ingredients),
    ensures
        checklist(totals.keys(), totals@) == shoping_tree(ingredients),
{
    let names = first_names(ingredients);
    assert forall|i: int| 0 <= i < names.len() implies totals@[names[i]] as nat == total(
        ingredients,
        names[i],
    ) by {
        assert(totals.keys()[i] == names[i]);
        assert(totals@.contains_key(names[i]));
    }
    assert(checklist(totals.keys(), totals@)->List_children =~= shoping_tree(
        ingredients,
    )->List_children);
}

/// Makes the shopping task for the week's dishes as seen from `today`.
pub fn inner_produce_tasks_from_diches(diches: &Food, today: ::chrono::NaiveDate) -> (tasks: Vec<
    (String, Task),
>)
    requires
        diches.wf(),
        !overflows(food_needs(*diches)),
    ensures
        named_tasks(tasks@) == produced(*diches, today),
        forall|i: int|
            0 <= i < tasks@.len() ==> (#[trigger] tasks@[i]).1.date is Some && tasks@[i].1.time
                is Some && tasks@[i].1.duration is Some,
        weekday_of(today) == WeekDay::Thursday ==> tasks@.len() == 1 && tasks@[0].1.date == Some(
            today,
        ),
{
    let mut tasks: Vec<(String, Task)> = Vec::new();
    let ingredients = shoping_list(diches).unwrap();
    let (date, time) = match get_shoping_datetime(today) {
        Some(moment) => moment,
        None => {
            assert(named_tasks(tasks@) =~= produced(*diches, today));
            return tasks;
        },
    };
    let written = format_date(&date);
    let named = make_shoping_task(
        &ingredients,
        date,
        written.as_str(),
        Some(time),
        duration_from_hours(2),
    );
    tasks.push(named);
    proof {
        lemma_checklist_of_tally(ingredients, food_needs(*diches));
        assert(tasks@[0].1@ == shoping_task(food_needs(*diches), date));
        assert(named_tasks(tasks@) =~= produced(*diches, today));
    }
    tasks
}

/// The tasks `tasks` with the tasks `more` put in under their names, in
/// order; a task that is put in under a name that is taken replaces the
/// one that was there.
pub open spec fn with_tasks(
    tasks: Map<Seq<char>, TaskModel>,
    more: Seq<(Seq<char>, TaskModel)>,
) -> Map<Seq<char>, TaskModel>
    decreases more.len(),
{
    if more.len() == 0 {
        tasks
    } else {
        with_tasks(tasks, more.drop_last()).insert(more.last().0, more.last().1)
    }
}

/// The tasks of `tasks` by name, as mathematical values.
pub open spec fn tasks_view(tasks: Map<Seq<char>, Task>) -> Map<Seq<char>, TaskModel> {
    Map::new(|name: Seq<char>| tasks.contains_key(name), |name: Seq<char>| tasks[name]@)
}

/// Adds to the tasks of `world` the tasks that its food asks for as seen
/// from `today`. Nothing else changes.
pub fn produce_tasks_on(world: &mut World, today: ::chrono::NaiveDate)
    requires
        old(world).food.wf(),
        !overflows(food_needs(old(world).food)),
    ensures
        tasks_view(final(world).tasks.tasks@) == with_tasks(
            tasks_view(old(world).tasks.tasks@),
            produced(old(world).food, today),
        ),
        final(world).food == old(world).food,
        final(world).kanbans == old(world).kanbans,
        final(world).jobs == old(world).jobs,
{
    let ghost former = tasks_view(world.tasks.tasks@);
    let ghost food = world.food;
    let mut tasks = inner_produce_tasks_from_diches(&world.food, today);
    let ghost more = named_tasks(tasks@);
    proof {
        assert(more.len() <= 1);
    }
    match tasks.pop() {
        Some((name, task)) => {
            proof {
                assert(more.len() == 1);
                assert(more[0] == (name@, task@));
                assert(more.drop_last() =~= Seq::<(Seq<char>, TaskModel)>::empty());
                assert(with_tasks(former, more.drop_last()) == former);
                assert(more.last() == more[0]);
            }
            world.tasks.tasks.insert(name, task);
            proof {
                assert(tasks_view(world.tasks.tasks@) =~= former.insert(more[0].0, more[0].1));
            }
        },
        None => {
            proof {
                assert(more.len() == 0);
            }
        },
    }
}

/// Adds to the tasks of `world` the tasks that its food asks for as seen
/// from the day on which it is called.
pub fn produce_tasks_from_diches(world: &mut World)
    requires
        old(world).food.wf(),
        !overflows(food_needs(old(world).food)),
    ensures
        exists|today: ::chrono::NaiveDate|
            tasks_view(final(world).tasks.tasks@) == with_tasks(
                tasks_view(old(world).tasks.tasks@),
                #[trigger] produced(old(world).food, today),
            ),
        final(world).food == old(world).food,
        final(world).kanbans == old(world).kanbans,
        final(world).jobs == old(world).jobs,
{
    let now = today();
    produce_tasks_on(world, now);
}

} // verus!
