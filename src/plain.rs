use vstd::prelude::*;
use crate::text::{chars_of, lines_of, split_lines, string_of, views};
use crate::csv::string_views;

verus! {

/// Whether `c` has the Unicode White_Space property.
pub open spec fn is_space(c: char) -> bool {
    let u = c as u32;
    (0x9 <= u <= 0xD) || u == 0x20 || u == 0x85 || u == 0xA0 || u == 0x1680 || (0x2000 <= u
        <= 0x200A) || u == 0x2028 || u == 0x2029 || u == 0x202F || u == 0x205F || u == 0x3000
}

/// `l` without leading white space.
pub open spec fn trim_start(l: Seq<char>) -> Seq<char>
    decreases l.len(),
{
    if l.len() > 0 && is_space(l[0]) {
        trim_start(l.drop_first())
    } else {
        l
    }
}

/// `l` without trailing white space.
pub open spec fn trim_end(l: Seq<char>) -> Seq<char>
    decreases l.len(),
{
    if l.len() > 0 && is_space(l.last()) {
        trim_end(l.drop_last())
    } else {
        l
    }
}

/// `l` without leading and trailing white space.
pub open spec fn trim(l: Seq<char>) -> Seq<char> {
    trim_end(trim_start(l))
}

fn space(c: char) -> (r: bool)
    ensures
        r == is_space(c),
{
    let u = c as u32;
    (0x9 <= u && u <= 0xD) || u == 0x20 || u == 0x85 || u == 0xA0 || u == 0x1680 || (0x2000 <= u
        && u <= 0x200A) || u == 0x2028 || u == 0x2029 || u == 0x202F || u == 0x205F || u == 0x3000
}

/// `l` without leading and trailing white space.
pub fn trim_chars(l: &Vec<char>) -> (r: Vec<char>)
    ensures
        r@ == trim(l@),
{
    let n = l.len();
    let mut a: usize = 0;
    assert(l@.subrange(0, n as int) =~= l@);
    while a < n && space(l[a])
        invariant
            n == l@.len(),
            a <= n,
            trim_start(l@) == trim_start(l@.subrange(a as int, n as int)),
        decreases n - a,
    {
        assert(l@.subrange(a as int, n as int).drop_first() =~= l@.subrange(a + 1, n as int));
        a = a + 1;
    }
    assert(l@.subrange(0, n as int) =~= l@);
    let mut b: usize = n;
    while b > a && space(l[b - 1])
        invariant
            n == l@.len(),
            a <= b <= n,
            trim_end(l@.subrange(a as int, n as int)) == trim_end(l@.subrange(a as int, b as int)),
        decreases b - a,
    {
        assert(l@.subrange(a as int, b as int).drop_last() =~= l@.subrange(a as int, b - 1));
        b = b - 1;
    }
    let mut r: Vec<char> = Vec::new();
    let mut i: usize = a;
    while i < b
        invariant
            a <= i <= b <= n,
            n == l@.len(),
            r@ == l@.subrange(a as int, i as int),
        decreases b - i,
    {
        r.push(l[i]);
        i = i + 1;
        assert(r@ =~= l@.subrange(a as int, i as int));
    }
    r
}

/// Whether `p` is a prefix of `l`.
pub open spec fn is_prefix(p: Seq<char>, l: Seq<char>) -> bool {
    p.len() <= l.len() && l.subrange(0, p.len() as int) == p
}

fn starts_with(l: &Vec<char>, p: &Vec<char>) -> (r: bool)
    ensures
        r == is_prefix(p@, l@),
{
    if p.len() > l.len() {
        return false;
    }
    let mut i: usize = 0;
    while i < p.len()
        invariant
            p@.len() <= l@.len(),
            i <= p@.len(),
            forall|j: int| 0 <= j < i ==> l@[j] == p@[j],
        decreases p@.len() - i,
    {
        if l[i] != p[i] {
            assert(l@.subrange(0, p@.len() as int)[i as int] != p@[i as int]);
            return false;
        }
        i = i + 1;
    }
    assert(l@.subrange(0, p@.len() as int) =~= p@);
    true
}

fn same_chars(a: &Vec<char>, b: &Vec<char>) -> (r: bool)
    ensures
        r == (a@ == b@),
{
    if a.len() != b.len() {
        return false;
    }
    let mut i: usize = 0;
    while i < a.len()
        invariant
            a@.len() == b@.len(),
            i <= a@.len(),
            forall|j: int| 0 <= j < i ==> a@[j] == b@[j],
        decreases a@.len() - i,
    {
        if a[i] != b[i] {
            return false;
        }
        i = i + 1;
    }
    assert(a@ =~= b@);
    true
}

/// Whether inside the main section, the distinct card lines so far in order
/// of first appearance, and every repeated occurrence, after reading `lines`.
/// Reading starts inside the main section; a line starting with
/// `# mainboard` enters it, any other line starting with `#` leaves it, and
/// inside it every other non-blank line, trimmed, is a card.
pub open spec fn list_state(lines: Seq<Seq<char>>) -> (bool, Seq<Seq<char>>, Seq<Seq<char>>)
    decreases lines.len(),
{
    if lines.len() == 0 {
        (true, Seq::empty(), Seq::empty())
    } else {
        let (m, u, d) = list_state(lines.drop_last());
        let t = trim(lines.last());
        if is_prefix("# mainboard"@, t) {
            (true, u, d)
        } else if t.len() > 0 && t[0] == '#' {
            (false, u, d)
        } else if m && t.len() > 0 {
            if u.contains(t) {
                (m, u, d.push(t))
            } else {
                (m, u.push(t), d)
            }
        } else {
            (m, u, d)
        }
    }
}

/// Reads a sectioned plain-text card list into its distinct main-section
/// cards, in order of first appearance, and every repeated occurrence.
pub fn parse_card_list(data: &str) -> (r: (Vec<String>, Vec<String>))
    ensures
        string_views(r.0@) == list_state(lines_of(data@)).1,
        string_views(r.1@) == list_state(lines_of(data@)).2,
{
    let chars = chars_of(data);
    let lines = split_lines(&chars);
    let ghost ls = views(lines@);
    let marker = chars_of("# mainboard");
    let mut in_mainboard = true;
    let mut unique: Vec<Vec<char>> = Vec::new();
    let mut duplicates: Vec<Vec<char>> = Vec::new();
    let mut i: usize = 0;
    while i < lines.len()
        invariant
            i <= lines@.len(),
            ls == views(lines@),
            marker@ == "# mainboard"@,
            list_state(ls.take(i as int)) == (in_mainboard, views(unique@), views(duplicates@)),
        decreases lines@.len() - i,
    {
        assert(ls.take(i + 1).drop_last() =~= ls.take(i as int));
        assert(ls[i as int] == lines@[i as int]@);
        let t = trim_chars(&lines[i]);
        if starts_with(&t, &marker) {
            in_mainboard = true;
        } else if t.len() > 0 && t[0] == '#' {
            in_mainboard = false;
        } else if in_mainboard && t.len() > 0 {
            let mut j: usize = 0;
            let mut seen = false;
            while j < unique.len() && !seen
                invariant
                    j <= unique@.len(),
                    seen ==> j < unique@.len() && unique@[j as int]@ == t@,
                    forall|k: int| 0 <= k < j ==> unique@[k]@ != t@,
                decreases unique@.len() - j + (if seen { 0int } else { 1int }),
            {
                if same_chars(&unique[j], &t) {
                    seen = true;
                } else {
                    j = j + 1;
                }
            }
            let ghost u = views(unique@);
            let ghost d = views(duplicates@);
            if seen {
                assert(u[j as int] == t@);
                duplicates.push(t);
                assert(views(duplicates@) =~= d.push(t@));
            } else {
                assert(!u.contains(t@)) by {
                    if u.contains(t@) {
                        let k = choose|k: int| 0 <= k < u.len() && u[k] == t@;
                        assert(unique@[k]@ == t@);
                    }
                }
                unique.push(t);
                assert(views(unique@) =~= u.push(t@));
            }
        }
        i = i + 1;
    }
    assert(ls.take(i as int) =~= ls);
    let mut u_out: Vec<String> = Vec::new();
    let mut k: usize = 0;
    while k < unique.len()
        invariant
            k <= unique@.len(),
            string_views(u_out@) == views(unique@).take(k as int),
        decreases unique@.len() - k,
    {
        assert(views(unique@)[k as int] == unique@[k as int]@);
        let sv = string_of(&unique[k]);
        let ghost prev = u_out@;
        u_out.push(sv);
        assert(string_views(u_out@) =~= string_views(prev).push(sv@));
        assert(views(unique@).take(k + 1) =~= views(unique@).take(k as int).push(sv@));
        k = k + 1;
        assert(string_views(u_out@) =~= views(unique@).take(k as int));
    }
    assert(views(unique@).take(k as int) =~= views(unique@));
    let mut d_out: Vec<String> = Vec::new();
    k = 0;
    while k < duplicates.len()
        invariant
            k <= duplicates@.len(),
            string_views(d_out@) == views(duplicates@).take(k as int),
        decreases duplicates@.len() - k,
    {
        assert(views(duplicates@)[k as int] == duplicates@[k as int]@);
        let sv = string_of(&duplicates[k]);
        let ghost prev = d_out@;
        d_out.push(sv);
        assert(string_views(d_out@) =~= string_views(prev).push(sv@));
        assert(views(duplicates@).take(k + 1) =~= views(duplicates@).take(k as int).push(sv@));
        k = k + 1;
        assert(string_views(d_out@) =~= views(duplicates@).take(k as int));
    }
    assert(views(duplicates@).take(k as int) =~= views(duplicates@));
    (u_out, d_out)
}

} // verus!
