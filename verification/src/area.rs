//! The areas (prefectures) the service locates a listener in, in their
//! fixed order.
use vstd::prelude::*;
use crate::record::same_text;
use crate::decimal::{all_digits, digits_value, is_digit};

verus! {

/// The area ids, in order: the index of an id is that of its coordinates.
pub open spec fn area_names() -> Seq<Seq<char>> {
    seq![
        "JP1"@,
        "JP2"@,
        "JP3"@,
        "JP4"@,
        "JP5"@,
        "JP6"@,
        "JP7"@,
        "JP8"@,
        "JP9"@,
        "JP10"@,
        "JP11"@,
        "JP12"@,
        "JP13"@,
        "JP14"@,
        "JP15"@,
        "JP16"@,
        "JP17"@,
        "JP18"@,
        "JP19"@,
        "JP20"@,
        "JP21"@,
        "JP22"@,
        "JP23"@,
        "JP24"@,
        "JP25"@,
        "JP26"@,
        "JP27"@,
        "JP28"@,
        "JP29"@,
        "JP30"@,
        "JP31"@,
        "JP32"@,
        "JP33"@,
        "JP34"@,
        "JP35"@,
        "JP36"@,
        "JP37"@,
        "JP38"@,
        "JP39"@,
        "JP40"@,
        "JP41"@,
        "JP42"@,
        "JP43"@,
        "JP44"@,
        "JP45"@,
        "JP46"@,
        "JP47"@
    ]
}

/// Whether `name` is `JP` followed by the decimal digits of `number`.
pub open spec fn names_area_number(name: Seq<char>, number: int) -> bool {
    &&& name.len() > 2
    &&& name.take(2) == "JP"@
    &&& all_digits(name.skip(2))
    &&& name[2] != '0'
    &&& digits_value(name.skip(2)) == number
}

proof fn lemma_jp_one(name: Seq<char>, d: char)
    requires
        name =~= seq!['J', 'P', d],
        is_digit(d),
        d != '0',
    ensures
        names_area_number(name, d as int - '0' as int),
{
    reveal_strlit("JP");
    assert(name.take(2) =~= "JP"@);
    let digits = name.skip(2);
    assert(digits =~= seq![d]);
    assert(digits.drop_last() =~= Seq::<char>::empty());
    assert(all_digits(digits));
    assert(digits_value(digits) == d as int - '0' as int) by {
        reveal_with_fuel(digits_value, 2);
    }
}

proof fn lemma_jp_two(name: Seq<char>, d1: char, d0: char)
    requires
        name =~= seq!['J', 'P', d1, d0],
        is_digit(d1),
        is_digit(d0),
        d1 != '0',
    ensures
        names_area_number(name, (d1 as int - '0' as int) * 10 + (d0 as int - '0' as int)),
{
    reveal_strlit("JP");
    assert(name.take(2) =~= "JP"@);
    let digits = name.skip(2);
    assert(digits =~= seq![d1, d0]);
    assert(digits.drop_last() =~= seq![d1]);
    assert(digits.drop_last().drop_last() =~= Seq::<char>::empty());
    assert(all_digits(digits));
    assert(digits_value(digits.drop_last()) == d1 as int - '0' as int) by {
        reveal_with_fuel(digits_value, 2);
    }
    assert(digits_value(digits) == (d1 as int - '0' as int) * 10 + (d0 as int - '0' as int));
}

/// The areas are numbered in order: the area at index `i` is `JP` followed
/// by the decimal number `i + 1`, for all 47 areas; so the area `JP<k>` is
/// found at index `k - 1`.
pub proof fn lemma_areas_in_number_order()
    ensures
        area_names().len() == 47,
        forall|i: int| 0 <= i < 47 ==> names_area_number(#[trigger] area_names()[i], i + 1),
        forall|i: int, j: int| 0 <= i < 47 && 0 <= j < 47 && #[trigger] area_names()[i] == #[trigger] area_names()[j] ==> i == j,
{
    reveal_strlit("JP1");
    lemma_jp_one(area_names()[0], '1');
    reveal_strlit("JP2");
    lemma_jp_one(area_names()[1], '2');
    reveal_strlit("JP3");
    lemma_jp_one(area_names()[2], '3');
    reveal_strlit("JP4");
    lemma_jp_one(area_names()[3], '4');
    reveal_strlit("JP5");
    lemma_jp_one(area_names()[4], '5');
    reveal_strlit("JP6");
    lemma_jp_one(area_names()[5], '6');
    reveal_strlit("JP7");
    lemma_jp_one(area_names()[6], '7');
    reveal_strlit("JP8");
    lemma_jp_one(area_names()[7], '8');
    reveal_strlit("JP9");
    lemma_jp_one(area_names()[8], '9');
    reveal_strlit("JP10");
    lemma_jp_two(area_names()[9], '1', '0');
    reveal_strlit("JP11");
    lemma_jp_two(area_names()[10], '1', '1');
    reveal_strlit("JP12");
    lemma_jp_two(area_names()[11], '1', '2');
    reveal_strlit("JP13");
    lemma_jp_two(area_names()[12], '1', '3');
    reveal_strlit("JP14");
    lemma_jp_two(area_names()[13], '1', '4');
    reveal_strlit("JP15");
    lemma_jp_two(area_names()[14], '1', '5');
    reveal_strlit("JP16");
    lemma_jp_two(area_names()[15], '1', '6');
    reveal_strlit("JP17");
    lemma_jp_two(area_names()[16], '1', '7');
    reveal_strlit("JP18");
    lemma_jp_two(area_names()[17], '1', '8');
    reveal_strlit("JP19");
    lemma_jp_two(area_names()[18], '1', '9');
    reveal_strlit("JP20");
    lemma_jp_two(area_names()[19], '2', '0');
    reveal_strlit("JP21");
    lemma_jp_two(area_names()[20], '2', '1');
    reveal_strlit("JP22");
    lemma_jp_two(area_names()[21], '2', '2');
    reveal_strlit("JP23");
    lemma_jp_two(area_names()[22], '2', '3');
    reveal_strlit("JP24");
    lemma_jp_two(area_names()[23], '2', '4');
    reveal_strlit("JP25");
    lemma_jp_two(area_names()[24], '2', '5');
    reveal_strlit("JP26");
    lemma_jp_two(area_names()[25], '2', '6');
    reveal_strlit("JP27");
    lemma_jp_two(area_names()[26], '2', '7');
    reveal_strlit("JP28");
    lemma_jp_two(area_names()[27], '2', '8');
    reveal_strlit("JP29");
    lemma_jp_two(area_names()[28], '2', '9');
    reveal_strlit("JP30");
    lemma_jp_two(area_names()[29], '3', '0');
    reveal_strlit("JP31");
    lemma_jp_two(area_names()[30], '3', '1');
    reveal_strlit("JP32");
    lemma_jp_two(area_names()[31], '3', '2');
    reveal_strlit("JP33");
    lemma_jp_two(area_names()[32], '3', '3');
    reveal_strlit("JP34");
    lemma_jp_two(area_names()[33], '3', '4');
    reveal_strlit("JP35");
    lemma_jp_two(area_names()[34], '3', '5');
    reveal_strlit("JP36");
    lemma_jp_two(area_names()[35], '3', '6');
    reveal_strlit("JP37");
    lemma_jp_two(area_names()[36], '3', '7');
    reveal_strlit("JP38");
    lemma_jp_two(area_names()[37], '3', '8');
    reveal_strlit("JP39");
    lemma_jp_two(area_names()[38], '3', '9');
    reveal_strlit("JP40");
    lemma_jp_two(area_names()[39], '4', '0');
    reveal_strlit("JP41");
    lemma_jp_two(area_names()[40], '4', '1');
    reveal_strlit("JP42");
    lemma_jp_two(area_names()[41], '4', '2');
    reveal_strlit("JP43");
    lemma_jp_two(area_names()[42], '4', '3');
    reveal_strlit("JP44");
    lemma_jp_two(area_names()[43], '4', '4');
    reveal_strlit("JP45");
    lemma_jp_two(area_names()[44], '4', '5');
    reveal_strlit("JP46");
    lemma_jp_two(area_names()[45], '4', '6');
    reveal_strlit("JP47");
    lemma_jp_two(area_names()[46], '4', '7');
    assert forall|i: int| 0 <= i < 47 implies names_area_number(#[trigger] area_names()[i], i + 1) by {
        assert(i == 0 || i == 1 || i == 2 || i == 3 || i == 4 || i == 5 || i == 6 || i == 7 || i == 8 || i == 9 || i == 10 || i == 11 || i == 12 || i == 13 || i == 14 || i == 15 || i == 16 || i == 17 || i == 18 || i == 19 || i == 20 || i == 21 || i == 22 || i == 23 || i == 24 || i == 25 || i == 26 || i == 27 || i == 28 || i == 29 || i == 30 || i == 31 || i == 32 || i == 33 || i == 34 || i == 35 || i == 36 || i == 37 || i == 38 || i == 39 || i == 40 || i == 41 || i == 42 || i == 43 || i == 44 || i == 45 || i == 46);
    }
    assert forall|i: int, j: int| 0 <= i < 47 && 0 <= j < 47 && #[trigger] area_names()[i] == #[trigger] area_names()[j] implies i == j by {
        assert(names_area_number(area_names()[i], i + 1));
        assert(names_area_number(area_names()[j], j + 1));
    }
}

/// The place of `area_id` among the area ids, or `None` where it is not one.
pub fn area_index(area_id: &str) -> (index: Option<usize>)
    ensures
        match index {
            Some(i) => i < area_names().len() && area_names()[i as int] == area_id@
                && forall|j: int| 0 <= j < i ==> area_names()[j] != area_id@,
            None => !area_names().contains(area_id@),
        },
{
    let names: Vec<&str> = vec!["JP1", "JP2", "JP3", "JP4", "JP5", "JP6", "JP7", "JP8", "JP9", "JP10", "JP11", "JP12", "JP13", "JP14", "JP15", "JP16", "JP17", "JP18", "JP19", "JP20", "JP21", "JP22", "JP23", "JP24", "JP25", "JP26", "JP27", "JP28", "JP29", "JP30", "JP31", "JP32", "JP33", "JP34", "JP35", "JP36", "JP37", "JP38", "JP39", "JP40", "JP41", "JP42", "JP43", "JP44", "JP45", "JP46", "JP47"];
    assert(names@.map_values(|n: &str| n@) =~= area_names());
    let mut i: usize = 0;
    while i < names.len()
        invariant
            i <= names@.len(),
            names@.map_values(|n: &str| n@) == area_names(),
            forall|j: int| 0 <= j < i ==> area_names()[j] != area_id@,
        decreases names@.len() - i,
    {
        assert(names@.map_values(|n: &str| n@)[i as int] == names@[i as int]@);
        if same_text(names[i], area_id) {
            return Some(i);
        }
        i = i + 1;
    }
    assert(!area_names().contains(area_id@)) by {
        if area_names().contains(area_id@) {
            let k = choose|k: int| 0 <= k < area_names().len() && area_names()[k] == area_id@;
            assert(area_names()[k] != area_id@);
        }
    }
    None
}

} // verus!
