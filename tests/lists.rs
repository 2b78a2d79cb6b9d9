use cube_draft::csv::{parse_csv_card_list, ParseError};
use cube_draft::layout::{get_layout, unfurl_layout};
use cube_draft::plain::parse_card_list;
use cube_draft::rarity::Rarity;
use cube_draft::render::{csv_card_list_to_draftmancer, generate_draftmancer_list, settings_and_data_to_draftmancer};
use cube_draft::text::{chars_of, split_lines};

const HEADER: &str = "name,CMC,Type,Color,Set,Collector Number,Rarity,Color Category,status,Finish,maybeboard,image URL,image Back URL,tags,Notes,MTGO ID";

fn strings(v: &[&str]) -> Vec<String> {
    v.iter().map(|s| s.to_string()).collect()
}

#[test]
fn csv_single_row_round_trip() {
    let data = format!(
        "{}\n\"Humility\",4,\"Enchantment\",W,\"tpr\",\"16\",mythic,w,Owned,Non-foil,false,,,\"\",\"\",56658",
        HEADER
    );
    let catalog = parse_csv_card_list(&data).unwrap();
    assert_eq!(catalog.cards(Rarity::Mythic), &strings(&["Humility"]));
    for r in [Rarity::Common, Rarity::Uncommon, Rarity::Rare, Rarity::Special] {
        assert!(catalog.cards(r).is_empty());
    }
}

#[test]
fn csv_unknown_rarity_names_card() {
    let data = format!(
        "{}\n\"Humility\",4,\"Enchantment\",W,\"tpr\",\"16\",legendary,w,Owned,Non-foil,false,,,\"\",\"\",56658\n",
        HEADER
    );
    match parse_csv_card_list(&data) {
        Err(ParseError::UnknownRarity { card, token }) => {
            assert_eq!(card, "Humility");
            assert_eq!(token, "legendary");
        }
        other => panic!("unexpected result: {:?}", other.is_ok()),
    }
}

#[test]
fn csv_short_row_is_malformed() {
    let data = format!("{}\n\"Humility\",4,\"Enchantment\"\n", HEADER);
    match parse_csv_card_list(&data) {
        Err(ParseError::MalformedRow { line }) => assert_eq!(line, "\"Humility\",4,\"Enchantment\""),
        other => panic!("unexpected result: {:?}", other.is_ok()),
    }
}

#[test]
fn csv_keeps_order_within_rarity_and_quoted_commas() {
    let data = format!(
        "{}\r\n\"Archangel's Light\",8,\"Sorcery\",W,\"dka\",\"1\",mythic,w\r\n\"Amrou Kithkin\",2,\"Creature - Kithkin\",W,\"me3\",\"3\",special,w\r\n\"Fire, Ice\",2,\"Instant\",R,\"apc\",\"128\",mythic,r\r\n",
        HEADER
    );
    let catalog = parse_csv_card_list(&data).unwrap();
    assert_eq!(catalog.cards(Rarity::Mythic), &strings(&["Archangel's Light", "Fire, Ice"]));
    assert_eq!(catalog.cards(Rarity::Special), &strings(&["Amrou Kithkin"]));
}

#[test]
fn csv_header_only_or_empty_gives_empty_catalog() {
    for data in ["", HEADER] {
        let catalog = parse_csv_card_list(data).unwrap();
        assert_eq!(csv_card_list_to_draftmancer(catalog), "");
    }
}

#[test]
fn csv_sections_follow_rarity_order() {
    let data = format!(
        "{}\n\"B\",1,T,W,s,1,rare,w\n\"A\",1,T,W,s,1,common,w\n\"C\",1,T,W,s,1,common,w\n",
        HEADER
    );
    let catalog = parse_csv_card_list(&data).unwrap();
    assert_eq!(csv_card_list_to_draftmancer(catalog), "[Common]\nA\nC\n[Rare]\nB\n");
}

#[test]
fn settings_text_is_exact() {
    let layouts = unfurl_layout(get_layout("somecube")).unwrap();
    let data = format!("{}\n\"Humility\",4,\"Enchantment\",W,\"tpr\",\"16\",mythic,w\n", HEADER);
    let out = settings_and_data_to_draftmancer(&layouts, &data).unwrap();
    let expected = format!("[Settings]\n{}\n[Mythic]\nHumility\n", layouts.to_text());
    assert_eq!(out, expected);
    assert!(out.starts_with("[Settings]\n{\n  \"layouts\": {\n    \"Rare\": {\n      \"weight\": 7,"));
}

#[test]
fn settings_fail_on_unknown_rarity() {
    let layouts = unfurl_layout(get_layout("somecube")).unwrap();
    let data = format!("{}\n\"X\",1,T,W,s,1,epic,w\n", HEADER);
    assert!(matches!(
        settings_and_data_to_draftmancer(&layouts, &data),
        Err(ParseError::UnknownRarity { .. })
    ));
}

#[test]
fn plaintext_list_main_section_only() {
    let data = "# mainboard\nForest\nForest\nIsland\n# maybeboard\nMountain\n";
    let (unique, duplicates) = parse_card_list(data);
    let mut sorted = unique.clone();
    sorted.sort();
    assert_eq!(sorted, strings(&["Forest", "Island"]));
    assert_eq!(duplicates, strings(&["Forest"]));
    assert!(!unique.contains(&"Mountain".to_string()));
}

#[test]
fn plaintext_list_trims_and_counts_every_repeat() {
    let data = "  Plains \t\r\n\nPlains\n# sideboard\nSwamp\n# mainboard extra\n\u{a0}Plains\nSwamp\n";
    let (unique, duplicates) = parse_card_list(data);
    assert_eq!(unique, strings(&["Plains", "Swamp"]));
    assert_eq!(duplicates, strings(&["Plains", "Plains"]));
}

#[test]
fn dedup_render_sections() {
    let out = generate_draftmancer_list(&strings(&["A", "B"]), &strings(&["A"]));
    assert_eq!(
        out,
        "[Layouts]\n- Archive (1)\n\t14 Cubed\n\t1 Archived\n[Cubed]\nA\nB\n[Archived]\nA\n"
    );
    let cubed = out.split("[Cubed]\n").nth(1).unwrap().split("[Archived]\n").next().unwrap();
    assert_eq!(cubed.lines().collect::<Vec<_>>(), vec!["A", "B"]);
    let archived = out.split("[Archived]\n").nth(1).unwrap();
    assert_eq!(archived.lines().collect::<Vec<_>>(), vec!["A"]);
}

#[test]
fn dedup_render_empty_lists() {
    assert_eq!(
        generate_draftmancer_list(&[], &[]),
        "[Layouts]\n- Archive (1)\n\t14 Cubed\n\t1 Archived\n[Cubed]\n[Archived]\n"
    );
}

#[test]
fn line_splitting_matches_std_lines() {
    for text in ["", "a", "a\n", "a\r\nb", "a\n\nb\n", "\n", "x\r", "x\ry\r\n", "\r\n\r\n"] {
        let mine: Vec<String> = split_lines(&chars_of(text))
            .into_iter()
            .map(|l| l.into_iter().collect())
            .collect();
        let std_lines: Vec<String> = text.lines().map(|l| l.to_string()).collect();
        assert_eq!(mine, std_lines, "text {:?}", text);
    }
}
