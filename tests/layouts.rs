use cube_draft::layout::{get_layout, rare, s, unfurl_layout, ConfigurationError, RawLayout, Slot, SlotValue};
use cube_draft::rarity::Rarity;

fn sv(rarity: Rarity, count: i32) -> SlotValue {
    SlotValue { rarity, count }
}

fn slot_list(layout: &cube_draft::layout::Layout) -> Vec<(Rarity, i32)> {
    layout.slots.iter().map(|v| (v.rarity, v.count)).collect()
}

#[test]
fn one_variable_slot_gives_one_layout_per_value() {
    let layouts = unfurl_layout(get_layout("somecube")).unwrap();
    assert_eq!(layouts.len(), 2);
    let r = layouts.get(Rarity::Rare).unwrap();
    assert_eq!(r.weight, 7);
    assert_eq!(slot_list(r), vec![(Rarity::Rare, 1), (Rarity::Common, 11), (Rarity::Uncommon, 3)]);
    let m = layouts.get(Rarity::Mythic).unwrap();
    assert_eq!(m.weight, 1);
    assert_eq!(slot_list(m), vec![(Rarity::Mythic, 1), (Rarity::Common, 11), (Rarity::Uncommon, 3)]);
    assert!(layouts.get(Rarity::Common).is_none());
}

#[test]
fn three_alternatives_give_three_layouts() {
    let mut raw = RawLayout::new();
    raw.insert(s(Rarity::Common), 10);
    raw.insert(
        Slot { values: vec![sv(Rarity::Uncommon, 5), sv(Rarity::Rare, 3), sv(Rarity::Mythic, 1)] },
        2,
    );
    let layouts = unfurl_layout(raw).unwrap();
    assert_eq!(layouts.len(), 3);
    for (rarity, weight) in [(Rarity::Uncommon, 5), (Rarity::Rare, 3), (Rarity::Mythic, 1)] {
        let l = layouts.get(rarity).unwrap();
        assert_eq!(l.weight, weight);
        assert_eq!(slot_list(l), vec![(rarity, 2), (Rarity::Common, 10)]);
    }
}

#[test]
fn garbagemasters_layout_has_specials() {
    let raw = get_layout("garbagemasters");
    assert_eq!(raw.len(), 4);
    let layouts = unfurl_layout(raw).unwrap();
    assert_eq!(layouts.len(), 2);
    let r = layouts.get(Rarity::Rare).unwrap();
    assert_eq!(
        slot_list(r),
        vec![(Rarity::Rare, 1), (Rarity::Common, 11), (Rarity::Uncommon, 4), (Rarity::Special, 2)]
    );
}

#[test]
fn two_variable_slots_fail() {
    let mut raw = RawLayout::new();
    raw.insert(s(Rarity::Common), 10);
    raw.insert(rare(), 1);
    raw.insert(Slot { values: vec![sv(Rarity::Uncommon, 2), sv(Rarity::Special, 1)] }, 1);
    assert!(matches!(unfurl_layout(raw), Err(ConfigurationError::MultipleVariableSlots)));
}

#[test]
fn no_variable_slot_gives_no_layouts() {
    let mut raw = RawLayout::new();
    raw.insert(s(Rarity::Common), 10);
    raw.insert(s(Rarity::Uncommon), 3);
    let layouts = unfurl_layout(raw).unwrap();
    assert_eq!(layouts.len(), 0);
}

#[test]
fn empty_raw_layout_gives_no_layouts() {
    assert_eq!(unfurl_layout(RawLayout::new()).unwrap().len(), 0);
}

#[test]
fn expanding_twice_gives_equal_layouts() {
    let a = unfurl_layout(get_layout("garbagemasters")).unwrap();
    let b = unfurl_layout(get_layout("garbagemasters")).unwrap();
    assert_eq!(a.len(), b.len());
    for i in 0..a.len() {
        let (na, la) = a.entry(i);
        let (nb, lb) = b.entry(i);
        assert_eq!(na, nb);
        assert_eq!(la.weight, lb.weight);
        assert_eq!(slot_list(la), slot_list(lb));
    }
    assert_eq!(a.to_text(), b.to_text());
}

#[test]
fn inserting_same_slot_shape_replaces_count() {
    let mut raw = RawLayout::new();
    raw.insert(s(Rarity::Common), 10);
    raw.insert(rare(), 1);
    raw.insert(s(Rarity::Common), 9);
    assert_eq!(raw.len(), 2);
    let layouts = unfurl_layout(raw).unwrap();
    let r = layouts.get(Rarity::Rare).unwrap();
    assert_eq!(slot_list(r), vec![(Rarity::Rare, 1), (Rarity::Common, 9)]);
}

#[test]
fn repeated_rarity_in_variable_slot_keeps_last() {
    let mut raw = RawLayout::new();
    raw.insert(Slot { values: vec![sv(Rarity::Rare, 7), sv(Rarity::Rare, 2)] }, 1);
    let layouts = unfurl_layout(raw).unwrap();
    assert_eq!(layouts.len(), 1);
    assert_eq!(layouts.get(Rarity::Rare).unwrap().weight, 2);
}

#[test]
fn layouts_text_is_exact() {
    let layouts = unfurl_layout(get_layout("somecube")).unwrap();
    let expected = "{\n  \"layouts\": {\n    \"Rare\": {\n      \"weight\": 7,\n      \"slots\": {\n        \"Rare\": 1,\n        \"Common\": 11,\n        \"Uncommon\": 3,\n      }\n    }\n    \"Mythic\": {\n      \"weight\": 1,\n      \"slots\": {\n        \"Mythic\": 1,\n        \"Common\": 11,\n        \"Uncommon\": 3,\n      }\n    }\n  }\n}";
    assert_eq!(layouts.to_text(), expected);
}

#[test]
fn negative_counts_print_with_sign() {
    let mut raw = RawLayout::new();
    raw.insert(s(Rarity::Common), -12);
    raw.insert(Slot { values: vec![sv(Rarity::Rare, -3), sv(Rarity::Mythic, 250)] }, 1);
    let text = unfurl_layout(raw).unwrap().to_text();
    assert!(text.contains("\"weight\": -3,\n"));
    assert!(text.contains("\"weight\": 250,\n"));
    assert!(text.contains("\"Common\": -12,\n"));
}

#[test]
fn singleton_slot_helper_counts_one() {
    let slot = s(Rarity::Special);
    assert_eq!(slot.values, vec![sv(Rarity::Special, 1)]);
    assert_eq!(rare().values, vec![sv(Rarity::Rare, 7), sv(Rarity::Mythic, 1)]);
}

#[test]
fn rarity_names_and_tokens() {
    assert_eq!(Rarity::Mythic.name(), "Mythic");
    assert_eq!(Rarity::Uncommon.name(), "Uncommon");
    assert_eq!(Rarity::from_token(&"special".to_string()), Some(Rarity::Special));
    assert_eq!(Rarity::from_token(&"Mythic".to_string()), None);
    assert_eq!(Rarity::at(3), Rarity::Mythic);
    assert_eq!(Rarity::Rare.rank(), 2);
}
