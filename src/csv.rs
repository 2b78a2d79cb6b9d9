use vstd::prelude::*;
use crate::rarity::{rarity_of_token, Rarity};
use crate::text::{chars_of, lines_of, split_lines, string_of, views};

verus! {

/// Fields finished so far, the field being read, and whether a quote is open,
/// after reading `l` left to right.
pub open spec fn field_state(l: Seq<char>) -> (Seq<Seq<char>>, Seq<char>, bool)
    decreases l.len(),
{
    if l.len() == 0 {
        (Seq::empty(), Seq::empty(), false)
    } else {
        let (f, cur, q) = field_state(l.drop_last());
        let c = l.last();
        if c == '"' {
            (f, cur, !q)
        } else if c == ',' && !q {
            (f.push(cur), Seq::empty(), q)
        } else {
            (f, cur.push(c), q)
        }
    }
}

/// The fields of a record line: split at commas outside quotes, with every
/// quote character dropped.
pub open spec fn fields_of(l: Seq<char>) -> Seq<Seq<char>> {
    let (f, cur, _q) = field_state(l);
    f.push(cur)
}

/// Splits a record line into its fields.
pub fn split_fields(l: &Vec<char>) -> (r: Vec<Vec<char>>)
    ensures
        views(r@) == fields_of(l@),
{
    let mut parts: Vec<Vec<char>> = Vec::new();
    let mut cur: Vec<char> = Vec::new();
    let mut in_quotes = false;
    let mut i: usize = 0;
    while i < l.len()
        invariant
            i <= l@.len(),
            field_state(l@.take(i as int)) == (views(parts@), cur@, in_quotes),
        decreases l@.len() - i,
    {
        let c = l[i];
        assert(l@.take(i + 1).drop_last() =~= l@.take(i as int));
        if c == '"' {
            in_quotes = !in_quotes;
        } else if c == ',' && !in_quotes {
            let ghost pv = views(parts@);
            parts.push(cur);
            cur = Vec::new();
            assert(views(parts@) =~= pv.push(parts@.last()@));
        } else {
            cur.push(c);
        }
        i = i + 1;
    }
    assert(l@.take(i as int) =~= l@);
    let ghost pv = views(parts@);
    parts.push(cur);
    assert(views(parts@) =~= pv.push(parts@.last()@));
    parts
}

/// Why a record cannot be read.
pub enum RecordFault {
    /// A line with fewer than seven fields.
    Malformed { line: Seq<char> },
    /// A rarity token outside the known set, with the card it belongs to.
    UnknownRarity { card: Seq<char>, token: Seq<char> },
}

/// A failure to read delimited records.
#[derive(Clone, Debug)]
pub enum ParseError {
    /// A data line with fewer than seven fields; holds the line.
    MalformedRow { line: String },
    /// A rarity token outside `common`, `uncommon`, `rare`, `mythic`, `special`.
    UnknownRarity { card: String, token: String },
}

impl View for ParseError {
    type V = RecordFault;

    open spec fn view(&self) -> RecordFault {
        match self {
            ParseError::MalformedRow { line } => RecordFault::Malformed { line: line@ },
            ParseError::UnknownRarity { card, token } => RecordFault::UnknownRarity {
                card: card@,
                token: token@,
            },
        }
    }
}

/// The card of one data line: field 0 names it, field 6 gives its rarity.
pub open spec fn record_of(l: Seq<char>) -> Result<(Seq<char>, Rarity), RecordFault> {
    let f = fields_of(l);
    if f.len() < 7 {
        Err(RecordFault::Malformed { line: l })
    } else {
        match rarity_of_token(f[6]) {
            Some(r) => Ok((f[0], r)),
            None => Err(RecordFault::UnknownRarity { card: f[0], token: f[6] }),
        }
    }
}

/// The cards of the data lines in order, or the fault of the first line that fails.
pub open spec fn records_of(rows: Seq<Seq<char>>) -> Result<Seq<(Seq<char>, Rarity)>, RecordFault>
    decreases rows.len(),
{
    if rows.len() == 0 {
        Ok(Seq::empty())
    } else {
        match records_of(rows.drop_last()) {
            Err(e) => Err(e),
            Ok(recs) => match record_of(rows.last()) {
                Err(e) => Err(e),
                Ok(rec) => Ok(recs.push(rec)),
            },
        }
    }
}

/// The data lines of a text: every line after the header.
pub open spec fn data_rows(text: Seq<char>) -> Seq<Seq<char>> {
    let ls = lines_of(text);
    if ls.len() == 0 {
        ls
    } else {
        ls.drop_first()
    }
}

/// The names of the cards of rarity `r`, in order.
pub open spec fn bucket(recs: Seq<(Seq<char>, Rarity)>, r: Rarity) -> Seq<Seq<char>>
    decreases recs.len(),
{
    if recs.len() == 0 {
        Seq::empty()
    } else {
        let b = bucket(recs.drop_last(), r);
        if recs.last().1 == r {
            b.push(recs.last().0)
        } else {
            b
        }
    }
}

/// Card names grouped by rarity, each group in the order read.
pub struct CardCatalog {
    common: Vec<String>,
    uncommon: Vec<String>,
    rare: Vec<String>,
    mythic: Vec<String>,
    special: Vec<String>,
}

/// The character sequences held by a sequence of strings.
pub open spec fn string_views(v: Seq<String>) -> Seq<Seq<char>> {
    v.map_values(|x: String| x@)
}

impl CardCatalog {
    /// The names of the cards of rarity `r`.
    pub closed spec fn names(&self, r: Rarity) -> Seq<Seq<char>> {
        match r {
            Rarity::Common => string_views(self.common@),
            Rarity::Uncommon => string_views(self.uncommon@),
            Rarity::Rare => string_views(self.rare@),
            Rarity::Mythic => string_views(self.mythic@),
            Rarity::Special => string_views(self.special@),
        }
    }

    /// A catalog with no cards.
    pub fn new() -> (c: CardCatalog)
        ensures
            forall|r: Rarity| #[trigger] c.names(r) == Seq::<Seq<char>>::empty(),
    {
        let c = CardCatalog {
            common: Vec::new(),
            uncommon: Vec::new(),
            rare: Vec::new(),
            mythic: Vec::new(),
            special: Vec::new(),
        };
        assert forall|r: Rarity| #[trigger] c.names(r) == Seq::<Seq<char>>::empty() by {
            assert(c.names(r) =~= Seq::<Seq<char>>::empty());
        }
        c
    }

    /// Appends a card of rarity `r`.
    pub fn add(&mut self, r: Rarity, name: String)
        ensures
            final(self).names(r) == old(self).names(r).push(name@),
            forall|q: Rarity| q != r ==> #[trigger] final(self).names(q) == old(self).names(q),
    {
        let ghost nv = name@;
        match r {
            Rarity::Common => self.common.push(name),
            Rarity::Uncommon => self.uncommon.push(name),
            Rarity::Rare => self.rare.push(name),
            Rarity::Mythic => self.mythic.push(name),
            Rarity::Special => self.special.push(name),
        }
        assert(final(self).names(r) =~= old(self).names(r).push(nv));
    }

    /// The names of the cards of rarity `r`, in order.
    pub fn cards(&self, r: Rarity) -> (v: &Vec<String>)
        ensures
            string_views(v@) == self.names(r),
    {
        match r {
            Rarity::Common => &self.common,
            Rarity::Uncommon => &self.uncommon,
            Rarity::Rare => &self.rare,
            Rarity::Mythic => &self.mythic,
            Rarity::Special => &self.special,
        }
    }
}

/// Reads one data line into a card and its rarity.
fn parse_record(l: &Vec<char>) -> (r: Result<(String, Rarity), ParseError>)
    ensures
        match record_of(l@) {
            Ok(rec) => r matches Ok(x) && x.0@ == rec.0 && x.1 == rec.1,
            Err(e) => r matches Err(x) && x@ == e,
        },
{
    let fields = split_fields(l);
    assert(views(fields@).len() == fields@.len());
    if fields.len() < 7 {
        return Err(ParseError::MalformedRow { line: string_of(l) });
    }
    assert(views(fields@)[0] == fields@[0]@);
    assert(views(fields@)[6] == fields@[6]@);
    let name = string_of(&fields[0]);
    let token = string_of(&fields[6]);
    match Rarity::from_token(&token) {
        Some(r) => Ok((name, r)),
        None => Err(ParseError::UnknownRarity { card: name, token }),
    }
}

/// Reads a header line and data lines into a catalog of card names by
/// rarity, keeping the order of the lines within each rarity; fails on the
/// first data line that is short of fields or names an unknown rarity.
pub fn parse_csv_card_list(data: &str) -> (r: Result<CardCatalog, ParseError>)
    ensures
        match records_of(data_rows(data@)) {
            Ok(recs) => r matches Ok(c) && forall|q: Rarity| #[trigger] c.names(q) == bucket(recs, q),
            Err(e) => r matches Err(x) && x@ == e,
        },
{
    let chars = chars_of(data);
    let lines = split_lines(&chars);
    let ghost rows = data_rows(data@);
    let mut catalog = CardCatalog::new();
    if lines.len() == 0 {
        return Ok(catalog);
    }
    let mut i: usize = 1;
    while i < lines.len()
        invariant
            1 <= i <= lines@.len(),
            views(lines@) == lines_of(data@),
            rows == views(lines@).drop_first(),
            records_of(rows.take(i - 1)) matches Ok(recs) && forall|q: Rarity|
                #[trigger] catalog.names(q) == bucket(recs, q),
        decreases lines@.len() - i,
    {
        let ghost prev = rows.take(i - 1);
        let ghost recs = records_of(prev)->Ok_0;
        assert(rows.take(i as int).drop_last() =~= prev);
        assert(rows[i - 1] == lines@[i as int]@);
        match parse_record(&lines[i]) {
            Ok((name, rar)) => {
                catalog.add(rar, name);
                let ghost recs2 = recs.push((name@, rar));
                assert(recs2.drop_last() =~= recs);
            },
            Err(e) => {
                proof {
                    lemma_records_stop(rows, i as int);
                }
                return Err(e);
            },
        }
        i = i + 1;
    }
    assert(rows.take(i - 1) =~= rows);
    Ok(catalog)
}

proof fn lemma_records_stop(rows: Seq<Seq<char>>, i: int)
    requires
        1 <= i <= rows.len(),
        records_of(rows.take(i)) is Err,
    ensures
        records_of(rows) == records_of(rows.take(i)),
    decreases rows.len() - i,
{
    if i < rows.len() {
        assert(rows.take(i + 1).drop_last() =~= rows.take(i));
        lemma_records_stop(rows, i + 1);
    } else {
        assert(rows.take(i) =~= rows);
    }
}

} // verus!
