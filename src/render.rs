use vstd::prelude::*;
use crate::csv::{bucket, data_rows, parse_csv_card_list, records_of, string_views, CardCatalog, ParseError};
use crate::layout::{Layout, Layouts, SlotValue};
use crate::rarity::{rarity_at, rarity_name, Rarity};
use crate::text::{append_str, push_char};

verus! {

/// The decimal digit character for `d` in 0..10.
pub open spec fn digit_char(d: int) -> char {
    if d == 0 {
        '0'
    } else if d == 1 {
        '1'
    } else if d == 2 {
        '2'
    } else if d == 3 {
        '3'
    } else if d == 4 {
        '4'
    } else if d == 5 {
        '5'
    } else if d == 6 {
        '6'
    } else if d == 7 {
        '7'
    } else if d == 8 {
        '8'
    } else {
        '9'
    }
}

/// The decimal digits of `n`, without leading zeros.
pub open spec fn nat_digits(n: nat) -> Seq<char>
    decreases n,
{
    if n < 10 {
        seq![digit_char(n as int)]
    } else {
        nat_digits(n / 10).push(digit_char((n % 10) as int))
    }
}

/// `n` in decimal, with a leading minus sign where negative.
pub open spec fn decimal(n: int) -> Seq<char> {
    if n < 0 {
        seq!['-'] + nat_digits((-n) as nat)
    } else {
        nat_digits(n as nat)
    }
}

/// Relies on `ToString` for `i32`, through its `Display`: decimal digits
/// without leading zeros, preceded by `-` where negative.
#[verifier::external_body]
fn decimal_text(n: i32) -> (r: String)
    ensures
        r@ == decimal(n as int),
{
    n.to_string()
}

/// The line of one slot entry inside a layout.
pub open spec fn slot_text(s: SlotValue) -> Seq<char> {
    "        \""@ + rarity_name(s.rarity) + "\": "@ + decimal(s.count as int) + ",\n"@
}

/// The lines of the slot entries of a layout, in order.
pub open spec fn slots_text(ss: Seq<SlotValue>) -> Seq<char>
    decreases ss.len(),
{
    if ss.len() == 0 {
        Seq::empty()
    } else {
        slots_text(ss.drop_last()) + slot_text(ss.last())
    }
}

/// The block of one named layout.
pub open spec fn entry_text(e: (Rarity, (i32, Seq<SlotValue>))) -> Seq<char> {
    "    \""@ + rarity_name(e.0) + "\": {\n      \"weight\": "@ + decimal(e.1.0 as int)
        + ",\n      \"slots\": {\n"@ + slots_text(e.1.1) + "      }\n    }\n"@
}

/// The blocks of the layouts, in order.
pub open spec fn entries_text(ls: Seq<(Rarity, (i32, Seq<SlotValue>))>) -> Seq<char>
    decreases ls.len(),
{
    if ls.len() == 0 {
        Seq::empty()
    } else {
        entries_text(ls.drop_last()) + entry_text(ls.last())
    }
}

/// The JSON-like description of a set of layouts.
pub open spec fn layouts_text(ls: Seq<(Rarity, (i32, Seq<SlotValue>))>) -> Seq<char> {
    "{\n  \"layouts\": {\n"@ + entries_text(ls) + "  }\n}"@
}

/// Each item followed by a line break.
pub open spec fn items_text(items: Seq<Seq<char>>) -> Seq<char>
    decreases items.len(),
{
    if items.len() == 0 {
        Seq::empty()
    } else {
        items_text(items.drop_last()) + items.last() + seq!['\n']
    }
}

/// A section: its title in brackets on a line, then one item per line.
pub open spec fn section_text(title: Seq<char>, items: Seq<Seq<char>>) -> Seq<char> {
    seq!['['] + title + seq![']', '\n'] + items_text(items)
}

/// One section per non-empty bucket, titled by the rarity at the bucket's
/// position in the order Common, Uncommon, Rare, Mythic, Special.
pub open spec fn rarity_sections(buckets: Seq<Seq<Seq<char>>>) -> Seq<char>
    decreases buckets.len(),
{
    if buckets.len() == 0 {
        Seq::empty()
    } else {
        let k = buckets.len() - 1;
        rarity_sections(buckets.drop_last()) + if buckets.last().len() > 0 {
            section_text(rarity_name(rarity_at(k)), buckets.last())
        } else {
            Seq::empty()
        }
    }
}

/// The buckets of a catalog in the order Common, Uncommon, Rare, Mythic, Special.
pub open spec fn catalog_buckets(c: CardCatalog) -> Seq<Seq<Seq<char>>> {
    Seq::new(5, |i: int| c.names(rarity_at(i)))
}

/// The buckets of a list of cards in the order Common, Uncommon, Rare, Mythic, Special.
pub open spec fn record_buckets(recs: Seq<(Seq<char>, Rarity)>) -> Seq<Seq<Seq<char>>> {
    Seq::new(5, |i: int| bucket(recs, rarity_at(i)))
}

/// The full configuration text: settings with the layouts, then the card sections.
pub open spec fn settings_text(
    ls: Seq<(Rarity, (i32, Seq<SlotValue>))>,
    buckets: Seq<Seq<Seq<char>>>,
) -> Seq<char> {
    "[Settings]\n"@ + layouts_text(ls) + seq!['\n'] + rarity_sections(buckets)
}

/// The fixed head of a deduplicated list: one layout of fourteen cards from
/// the main pool and one from the pool of repeats.
pub open spec fn list_head() -> Seq<char> {
    "[Layouts]\n- Archive (1)\n\t14 Cubed\n\t1 Archived\n[Cubed]\n"@
}

/// A deduplicated list: the head, the distinct cards, then the repeats.
pub open spec fn list_text(cards: Seq<Seq<char>>, duplicates: Seq<Seq<char>>) -> Seq<char> {
    list_head() + items_text(cards) + "[Archived]\n"@ + items_text(duplicates)
}

fn append_string(s: &mut String, t: &String)
    ensures
        final(s)@ == old(s)@ + t@,
{
    append_str(s, t.as_str());
}

fn write_items(s: &mut String, items: &[String])
    ensures
        final(s)@ == old(s)@ + items_text(string_views(items@)),
{
    let ghost start = s@;
    let mut i: usize = 0;
    while i < items.len()
        invariant
            i <= items@.len(),
            s@ == start + items_text(string_views(items@).take(i as int)),
        decreases items@.len() - i,
    {
        append_string(s, &items[i]);
        push_char(s, '\n');
        i = i + 1;
        let ghost v = string_views(items@);
        assert(v.take(i as int).drop_last() =~= v.take(i - 1));
        assert(s@ =~= start + items_text(v.take(i as int)));
    }
    assert(string_views(items@).take(i as int) =~= string_views(items@));
}

fn write_slots(s: &mut String, ss: &Vec<SlotValue>)
    ensures
        final(s)@ == old(s)@ + slots_text(ss@),
{
    let ghost start = s@;
    let mut i: usize = 0;
    while i < ss.len()
        invariant
            i <= ss@.len(),
            s@ == start + slots_text(ss@.take(i as int)),
        decreases ss@.len() - i,
    {
        let v = ss[i];
        append_str(s, "        \"");
        append_string(s, &v.rarity.name());
        append_str(s, "\": ");
        append_string(s, &decimal_text(v.count));
        append_str(s, ",\n");
        i = i + 1;
        assert(ss@.take(i as int).drop_last() =~= ss@.take(i - 1));
        assert(s@ =~= start + slots_text(ss@.take(i as int)));
    }
    assert(ss@.take(i as int) =~= ss@);
}

fn write_entry(s: &mut String, name: Rarity, layout: &Layout)
    ensures
        final(s)@ == old(s)@ + entry_text((name, layout@)),
{
    let ghost start = s@;
    append_str(s, "    \"");
    append_string(s, &name.name());
    append_str(s, "\": {\n      \"weight\": ");
    append_string(s, &decimal_text(layout.weight));
    append_str(s, ",\n      \"slots\": {\n");
    write_slots(s, &layout.slots);
    append_str(s, "      }\n    }\n");
    assert(s@ =~= start + entry_text((name, layout@)));
}

impl Layouts {
    /// The JSON-like description of these layouts.
    pub fn to_text(&self) -> (r: String)
        ensures
            r@ == layouts_text(self@),
    {
        let mut s = String::new();
        append_str(&mut s, "{\n  \"layouts\": {\n");
        let ghost start = s@;
        let mut i: usize = 0;
        while i < self.len()
            invariant
                i <= self@.len(),
                s@ == start + entries_text(self@.take(i as int)),
            decreases self@.len() - i,
        {
            let (name, layout) = self.entry(i);
            write_entry(&mut s, name, layout);
            i = i + 1;
            assert(self@.take(i as int).drop_last() =~= self@.take(i - 1));
            assert(s@ =~= start + entries_text(self@.take(i as int)));
        }
        assert(self@.take(i as int) =~= self@);
        append_str(&mut s, "  }\n}");
        assert(s@ =~= layouts_text(self@));
        s
    }
}

/// One section per rarity that has cards, in the order Common, Uncommon,
/// Rare, Mythic, Special, each listing its cards one per line.
pub fn csv_card_list_to_draftmancer(xkv: CardCatalog) -> (r: String)
    ensures
        r@ == rarity_sections(catalog_buckets(xkv)),
{
    let mut s = String::new();
    let ghost b = catalog_buckets(xkv);
    let mut k: usize = 0;
    while k < 5
        invariant
            k <= 5,
            b == catalog_buckets(xkv),
            s@ == rarity_sections(b.take(k as int)),
        decreases 5 - k,
    {
        let r = Rarity::at(k);
        let cards = xkv.cards(r);
        assert(b.take(k + 1).drop_last() =~= b.take(k as int));
        assert(b.take(k + 1).last() == string_views(cards@));
        if cards.len() > 0 {
            push_char(&mut s, '[');
            append_string(&mut s, &r.name());
            push_char(&mut s, ']');
            push_char(&mut s, '\n');
            write_items(&mut s, cards.as_slice());
            assert(s@ =~= rarity_sections(b.take(k + 1)));
        } else {
            assert(s@ =~= rarity_sections(b.take(k + 1)));
        }
        k = k + 1;
    }
    assert(b.take(5) =~= b);
    s
}

/// The configuration text for a catalog read from delimited records: a
/// settings section with the layouts, then one section per rarity that has
/// cards; fails as reading the records does.
pub fn settings_and_data_to_draftmancer(layouts: &Layouts, data: &str) -> (r: Result<
    String,
    ParseError,
>)
    ensures
        match records_of(data_rows(data@)) {
            Ok(recs) => r matches Ok(s) && s@ == settings_text(layouts@, record_buckets(recs)),
            Err(e) => r matches Err(x) && x@ == e,
        },
{
    let catalog = match parse_csv_card_list(data) {
        Ok(c) => c,
        Err(e) => return Err(e),
    };
    let ghost b = catalog_buckets(catalog);
    proof {
        let recs = records_of(data_rows(data@))->Ok_0;
        assert(b =~= record_buckets(recs));
    }
    let mut s = String::new();
    append_str(&mut s, "[Settings]\n");
    append_string(&mut s, &layouts.to_text());
    push_char(&mut s, '\n');
    append_string(&mut s, &csv_card_list_to_draftmancer(catalog));
    Ok(s)
}

/// A deduplicated list: a fixed layout section, a `[Cubed]` section with
/// every distinct card, then an `[Archived]` section with every repeat.
pub fn generate_draftmancer_list(cards: &[String], duplicates: &[String]) -> (r: String)
    ensures
        r@ == list_text(string_views(cards@), string_views(duplicates@)),
{
    let mut s = String::new();
    append_str(&mut s, "[Layouts]\n- Archive (1)\n\t14 Cubed\n\t1 Archived\n[Cubed]\n");
    write_items(&mut s, cards);
    append_str(&mut s, "[Archived]\n");
    write_items(&mut s, duplicates);
    s
}

} // verus!
