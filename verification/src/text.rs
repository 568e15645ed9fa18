//! Plain text helpers: Unicode whitespace, trimming, splitting a
//! comma-separated list, and decimal rendering of integers.

use vstd::prelude::*;

verus! {

/// The Unicode `White_Space` property, which `char::is_whitespace` tests.
pub open spec fn is_white_space_spec(c: char) -> bool {
    let u = c as u32;
    ||| 0x09 <= u <= 0x0d
    ||| u == 0x20
    ||| u == 0x85
    ||| u == 0xa0
    ||| u == 0x1680
    ||| 0x2000 <= u <= 0x200a
    ||| u == 0x2028
    ||| u == 0x2029
    ||| u == 0x202f
    ||| u == 0x205f
    ||| u == 0x3000
}

/// Whether `c` is Unicode whitespace.
pub fn is_white_space(c: char) -> (r: bool)
    ensures
        r == is_white_space_spec(c),
{
    let u = c as u32;
    (0x09 <= u && u <= 0x0d) || u == 0x20 || u == 0x85 || u == 0xa0 || u == 0x1680 || (0x2000
        <= u && u <= 0x200a) || u == 0x2028 || u == 0x2029 || u == 0x202f || u == 0x205f || u
        == 0x3000
}

/// `s` without its leading whitespace.
pub open spec fn trim_start_spec(s: Seq<char>) -> Seq<char>
    decreases s.len(),
{
    if s.len() > 0 && is_white_space_spec(s[0]) {
        trim_start_spec(s.drop_first())
    } else {
        s
    }
}

/// `s` without its trailing whitespace.
pub open spec fn trim_end_spec(s: Seq<char>) -> Seq<char>
    decreases s.len(),
{
    if s.len() > 0 && is_white_space_spec(s.last()) {
        trim_end_spec(s.drop_last())
    } else {
        s
    }
}

/// `s` without leading and trailing whitespace, as `str::trim` gives it.
pub open spec fn trim_spec(s: Seq<char>) -> Seq<char> {
    trim_end_spec(trim_start_spec(s))
}

/// The pieces of `s` between the occurrences of `sep`, as `str::split` gives
/// them: `n` separators give `n + 1` pieces, some of them possibly empty.
pub open spec fn split_spec(s: Seq<char>, sep: char) -> Seq<Seq<char>>
    decreases s.len(),
{
    if s.len() == 0 {
        seq![Seq::empty()]
    } else {
        let prev = split_spec(s.drop_last(), sep);
        if s.last() == sep {
            prev.push(Seq::empty())
        } else {
            prev.update(prev.len() - 1, prev.last().push(s.last()))
        }
    }
}

/// The trimmed, non-empty items of a comma-separated list.
pub open spec fn parse_list_spec(s: Seq<char>) -> Seq<Seq<char>> {
    split_spec(s, ',').map_values(|p: Seq<char>| trim_spec(p)).filter(
        |p: Seq<char>| p.len() > 0,
    )
}

proof fn lemma_split_nonempty(s: Seq<char>, sep: char)
    ensures
        split_spec(s, sep).len() >= 1,
    decreases s.len(),
{
    if s.len() > 0 {
        lemma_split_nonempty(s.drop_last(), sep);
    }
}

/// The characters of `s`, in order.
pub fn chars_of(s: &str) -> (v: Vec<char>)
    ensures
        v@ == s@,
{
    let n = s.unicode_len();
    let mut v: Vec<char> = Vec::new();
    let mut i: usize = 0;
    while i < n
        invariant
            n == s@.len(),
            i <= n,
            v@ == s@.take(i as int),
        decreases n - i,
    {
        let c = s.get_char(i);
        v.push(c);
        i = i + 1;
        assert(v@ =~= s@.take(i as int));
    }
    assert(v@ =~= s@);
    v
}

/// The bounds `[lo, hi)` of `s[from..to]` without its leading and trailing
/// whitespace.
pub(crate) fn trim_bounds(s: &Vec<char>, from: usize, to: usize) -> (r: (usize, usize))
    requires
        from <= to <= s@.len(),
    ensures
        from <= r.0 <= r.1 <= to,
        s@.subrange(r.0 as int, r.1 as int) == trim_spec(s@.subrange(from as int, to as int)),
{
    let mut lo = from;
    while lo < to && is_white_space(s[lo])
        invariant
            from <= lo <= to <= s@.len(),
            trim_start_spec(s@.subrange(from as int, to as int)) == trim_start_spec(
                s@.subrange(lo as int, to as int),
            ),
        decreases to - lo,
    {
        assert(s@.subrange(lo as int, to as int).drop_first() =~= s@.subrange(
            lo + 1,
            to as int,
        ));
        lo = lo + 1;
    }
    assert(trim_start_spec(s@.subrange(lo as int, to as int)) == s@.subrange(lo as int, to as int));
    let mut hi = to;
    while hi > lo && is_white_space(s[hi - 1])
        invariant
            from <= lo <= hi <= to <= s@.len(),
            trim_spec(s@.subrange(from as int, to as int)) == trim_end_spec(
                s@.subrange(lo as int, hi as int),
            ),
        decreases hi - lo,
    {
        assert(s@.subrange(lo as int, hi as int).drop_last() =~= s@.subrange(
            lo as int,
            hi - 1,
        ));
        hi = hi - 1;
    }
    (lo, hi)
}

/// Splits `s` at commas, trims whitespace from each item and drops the
/// items that are empty after trimming.
pub fn parse_list(s: &str) -> (items: Vec<String>)
    ensures
        items@.map_values(|t: String| t@) == parse_list_spec(s@),
{
    let cs = chars_of(s);
    let n = cs.len();
    let mut items: Vec<String> = Vec::new();
    let mut start: usize = 0;
    let mut i: usize = 0;
    let ghost pieces: Seq<Seq<char>> = seq![Seq::empty()];
    while i < n
        invariant
            n == cs@.len(),
            cs@ == s@,
            start <= i <= n,
            pieces == split_spec(cs@.take(i as int), ','),
            pieces.len() >= 1,
            pieces.last() == cs@.subrange(start as int, i as int),
            items@.map_values(|t: String| t@) == pieces.drop_last().map_values(
                |p: Seq<char>| trim_spec(p),
            ).filter(|p: Seq<char>| p.len() > 0),
        decreases n - i,
    {
        let c = cs[i];
        let ghost prev = pieces;
        assert(cs@.take(i + 1).drop_last() =~= cs@.take(i as int));
        if c == ',' {
            let (lo, hi) = trim_bounds(&cs, start, i);
            proof {
                pieces = prev.push(Seq::empty());
                assert(pieces.drop_last() =~= prev);
                assert(prev =~= prev.drop_last().push(prev.last()));
                let f = |p: Seq<char>| trim_spec(p);
                assert(prev.map_values(f) =~= prev.drop_last().map_values(f).push(f(prev.last())));
                prev.drop_last().map_values(f).lemma_filter_push(f(prev.last()), |p: Seq<char>| p.len() > 0);
            }
            if lo < hi {
                let piece = s.substring_char(lo, hi);
                let t = String::from_str(piece);
                let ghost before = items@;
                items.push(t);
                proof {
                    let g = |t: String| t@;
                    assert(items@.map_values(g) =~= before.map_values(g).push(t@));
                }
            }
            start = i + 1;
        } else {
            proof {
                pieces = prev.update(prev.len() - 1, prev.last().push(c));
                assert(pieces.drop_last() =~= prev.drop_last());
            }
        }
        i = i + 1;
        assert(pieces.last() =~= cs@.subrange(start as int, i as int));
    }
    assert(cs@.take(n as int) =~= cs@);
    let (lo, hi) = trim_bounds(&cs, start, n);
    proof {
        let f = |p: Seq<char>| trim_spec(p);
        assert(pieces =~= pieces.drop_last().push(pieces.last()));
        assert(pieces.map_values(f) =~= pieces.drop_last().map_values(f).push(f(pieces.last())));
        pieces.drop_last().map_values(f).lemma_filter_push(f(pieces.last()), |p: Seq<char>| p.len() > 0);
    }
    if lo < hi {
        let piece = s.substring_char(lo, hi);
        let t = String::from_str(piece);
        let ghost before = items@;
        items.push(t);
        proof {
            let g = |t: String| t@;
            assert(items@.map_values(g) =~= before.map_values(g).push(t@));
        }
    }
    items
}


/// The decimal digit `d` as a character.
pub open spec fn digit_char(d: nat) -> char {
    (48 + d) as char
}

/// The decimal representation of `n`, without sign or leading zeros.
pub open spec fn decimal_spec(n: nat) -> Seq<char>
    decreases n,
{
    if n < 10 {
        seq![digit_char(n)]
    } else {
        decimal_spec(n / 10).push(digit_char(n % 10))
    }
}

fn digit_str(d: u64) -> (s: &'static str)
    requires
        d < 10,
    ensures
        s@ == seq![digit_char(d as nat)],
{
    proof {
        reveal_strlit("0");
        reveal_strlit("1");
        reveal_strlit("2");
        reveal_strlit("3");
        reveal_strlit("4");
        reveal_strlit("5");
        reveal_strlit("6");
        reveal_strlit("7");
        reveal_strlit("8");
        reveal_strlit("9");
    }
    match d {
        0 => "0",
        1 => "1",
        2 => "2",
        3 => "3",
        4 => "4",
        5 => "5",
        6 => "6",
        7 => "7",
        8 => "8",
        _ => "9",
    }
}

/// Appends the decimal representation of `n` to `out`.
pub fn push_decimal(out: &mut String, n: u64)
    ensures
        final(out)@ == old(out)@ + decimal_spec(n as nat),
    decreases n,
{
    if n >= 10 {
        push_decimal(out, n / 10);
    }
    out.append(digit_str(n % 10));
    proof {
        if n >= 10 {
            assert(decimal_spec(n as nat) == decimal_spec((n / 10) as nat).push(
                digit_char((n % 10) as nat),
            ));
        }
    }
    assert(out@ =~= old(out)@ + decimal_spec(n as nat));
}

proof fn lemma_split_no_sep(s: Seq<char>, sep: char)
    ensures
        forall|i: int, j: int|
            0 <= i < split_spec(s, sep).len() && 0 <= j < split_spec(s, sep)[i].len() ==> #[trigger] split_spec(s, sep)[i][j] != sep,
    decreases s.len(),
{
    if s.len() > 0 {
        lemma_split_no_sep(s.drop_last(), sep);
        lemma_split_nonempty(s.drop_last(), sep);
    }
}

proof fn lemma_trim_start(p: Seq<char>)
    ensures
        trim_start_spec(p) == p.subrange(p.len() - trim_start_spec(p).len(), p.len() as int),
        trim_start_spec(p).len() <= p.len(),
        trim_start_spec(p).len() > 0 ==> !is_white_space_spec(trim_start_spec(p)[0]),
    decreases p.len(),
{
    if p.len() > 0 && is_white_space_spec(p[0]) {
        lemma_trim_start(p.drop_first());
        assert(p.drop_first().subrange(
            p.drop_first().len() - trim_start_spec(p).len(),
            p.drop_first().len() as int,
        ) =~= p.subrange(p.len() - trim_start_spec(p).len(), p.len() as int));
    } else {
        assert(p =~= p.subrange(0, p.len() as int));
    }
}

proof fn lemma_trim_end(p: Seq<char>)
    ensures
        trim_end_spec(p) == p.subrange(0, trim_end_spec(p).len() as int),
        trim_end_spec(p).len() <= p.len(),
        trim_end_spec(p).len() > 0 ==> !is_white_space_spec(trim_end_spec(p).last()),
    decreases p.len(),
{
    if p.len() > 0 && is_white_space_spec(p.last()) {
        lemma_trim_end(p.drop_last());
        assert(p.drop_last().subrange(0, trim_end_spec(p).len() as int) =~= p.subrange(
            0,
            trim_end_spec(p).len() as int,
        ));
    } else {
        assert(p =~= p.subrange(0, p.len() as int));
    }
}

/// Every item that `parse_list` gives is non-empty, holds no comma, and
/// neither starts nor ends with whitespace.
pub proof fn law_parse_list_items(s: Seq<char>, k: int)
    requires
        0 <= k < parse_list_spec(s).len(),
    ensures
        parse_list_spec(s)[k].len() > 0,
        forall|j: int|
            0 <= j < parse_list_spec(s)[k].len() ==> #[trigger] parse_list_spec(s)[k][j] != ',',
        !is_white_space_spec(parse_list_spec(s)[k][0]),
        !is_white_space_spec(parse_list_spec(s)[k].last()),
{
    let f = |p: Seq<char>| trim_spec(p);
    let nonempty = |p: Seq<char>| p.len() > 0;
    let pieces = split_spec(s, ',');
    let mapped = pieces.map_values(f);
    let item = parse_list_spec(s)[k];
    mapped.lemma_filter_pred(nonempty, k);
    assert(mapped.filter(nonempty).contains(item));
    mapped.lemma_filter_contains_rev(nonempty, item);
    let i = choose|i: int| 0 <= i < mapped.len() && mapped[i] == item;
    let piece = pieces[i];
    assert(item == trim_spec(piece));
    lemma_split_no_sep(s, ',');
    lemma_trim_start(piece);
    let q = trim_start_spec(piece);
    lemma_trim_end(q);
    assert forall|j: int| 0 <= j < item.len() implies #[trigger] item[j] != ',' by {
        assert(item[j] == q[j]);
        assert(q[j] == piece[piece.len() - q.len() + j]);
    }
    assert(item[0] == q[0]);
}

/// The items joined into one text, with `sep` between neighbours.
pub open spec fn join_spec(items: Seq<Seq<char>>, sep: char) -> Seq<char>
    decreases items.len(),
{
    if items.len() == 0 {
        Seq::empty()
    } else if items.len() == 1 {
        items[0]
    } else {
        join_spec(items.drop_last(), sep).push(sep) + items.last()
    }
}

/// Whether `item` can stand in a list that `parse_list` reads back as it
/// is: non-empty, without commas, and equal to its own trim.
pub open spec fn is_list_item(item: Seq<char>) -> bool {
    &&& item.len() > 0
    &&& forall|j: int| 0 <= j < item.len() ==> #[trigger] item[j] != ','
    &&& trim_spec(item) == item
}

pub(crate) proof fn lemma_split_concat(a: Seq<char>, b: Seq<char>, sep: char)
    ensures
        split_spec(a.push(sep) + b, sep) == split_spec(a, sep) + split_spec(b, sep),
    decreases b.len(),
{
    let x = a.push(sep) + b;
    if b.len() == 0 {
        assert(x =~= a.push(sep));
        assert(a.push(sep).drop_last() =~= a);
        assert(split_spec(a, sep).push(Seq::empty()) =~= split_spec(a, sep) + seq![Seq::<char>::empty()]);
    } else {
        assert(x.drop_last() =~= a.push(sep) + b.drop_last());
        lemma_split_concat(a, b.drop_last(), sep);
        lemma_split_nonempty(b.drop_last(), sep);
        let pa = split_spec(a, sep);
        let pb = split_spec(b.drop_last(), sep);
        if b.last() == sep {
            assert((pa + pb).push(Seq::empty()) =~= pa + pb.push(Seq::empty()));
        } else {
            let c = b.last();
            assert((pa + pb).update((pa + pb).len() - 1, (pa + pb).last().push(c)) =~= pa
                + pb.update(pb.len() - 1, pb.last().push(c)));
        }
    }
}

proof fn lemma_split_no_sep_single(s: Seq<char>, sep: char)
    requires
        forall|j: int| 0 <= j < s.len() ==> s[j] != sep,
    ensures
        split_spec(s, sep) == seq![s],
    decreases s.len(),
{
    if s.len() > 0 {
        lemma_split_no_sep_single(s.drop_last(), sep);
        assert(s.drop_last().push(s.last()) =~= s);
        assert(seq![s.drop_last()].update(0, s.drop_last().push(s.last())) =~= seq![s]);
    } else {
        assert(s =~= Seq::<char>::empty());
    }
}

proof fn lemma_split_join(items: Seq<Seq<char>>, sep: char)
    requires
        items.len() > 0,
        forall|i: int, j: int|
            0 <= i < items.len() && 0 <= j < items[i].len() ==> #[trigger] items[i][j] != sep,
    ensures
        split_spec(join_spec(items, sep), sep) == items,
    decreases items.len(),
{
    if items.len() == 1 {
        let it = items[0];
        assert forall|j: int| 0 <= j < it.len() implies it[j] != sep by {
            assert(items[0][j] != sep);
        }
        lemma_split_no_sep_single(it, sep);
        assert(seq![it] =~= items);
    } else {
        let front = items.drop_last();
        assert forall|i: int, j: int|
            0 <= i < front.len() && 0 <= j < front[i].len() implies #[trigger] front[i][j] != sep by {
            assert(items[i][j] != sep);
        }
        lemma_split_join(front, sep);
        let it = items.last();
        assert forall|j: int| 0 <= j < it.len() implies it[j] != sep by {
            assert(items[items.len() - 1][j] != sep);
        }
        lemma_split_no_sep_single(it, sep);
        lemma_split_concat(join_spec(front, sep), it, sep);
        assert(front + seq![it] =~= items);
    }
}

proof fn lemma_filter_keeps_all(s: Seq<Seq<char>>, p: spec_fn(Seq<char>) -> bool)
    requires
        forall|i: int| 0 <= i < s.len() ==> p(#[trigger] s[i]),
    ensures
        s.filter(p) == s,
    decreases s.len(),
{
    if s.len() == 0 {
        s.lemma_filter_len(p);
        assert(s.filter(p) =~= s);
    } else {
        lemma_filter_keeps_all(s.drop_last(), p);
        s.drop_last().lemma_filter_push(s.last(), p);
        assert(s.drop_last().push(s.last()) =~= s);
    }
}

proof fn lemma_trim_of_trimmed(s: Seq<char>)
    requires
        s.len() > 0,
        !is_white_space_spec(s[0]),
        !is_white_space_spec(s.last()),
    ensures
        trim_spec(s) == s,
{
}

/// Joining items that `parse_list` can read back, with commas between
/// them, and parsing the result gives back the items; no items give the
/// empty text, which parses to no items.
pub proof fn law_parse_list_join(items: Seq<Seq<char>>)
    requires
        forall|i: int| 0 <= i < items.len() ==> is_list_item(#[trigger] items[i]),
    ensures
        parse_list_spec(join_spec(items, ',')) == items,
{
    let f = |p: Seq<char>| trim_spec(p);
    let nonempty = |p: Seq<char>| p.len() > 0;
    if items.len() == 0 {
        let e = Seq::<char>::empty();
        assert(split_spec(e, ',') == seq![e]);
        assert(seq![e].map_values(f) =~= Seq::<Seq<char>>::empty().push(trim_spec(e)));
        assert(trim_spec(e) == e);
        Seq::<Seq<char>>::empty().lemma_filter_push(e, nonempty);
        Seq::<Seq<char>>::empty().lemma_filter_len(nonempty);
        assert(parse_list_spec(join_spec(items, ',')) =~= items);
    } else {
        assert forall|i: int, j: int|
            0 <= i < items.len() && 0 <= j < items[i].len() implies #[trigger] items[i][j] != ',' by {
            assert(is_list_item(items[i]));
        }
        lemma_split_join(items, ',');
        assert(items.map_values(f) =~= items) by {
            assert forall|i: int| 0 <= i < items.len() implies items.map_values(f)[i] == items[i] by {
                assert(is_list_item(items[i]));
            }
        }
        assert forall|i: int| 0 <= i < items.len() implies nonempty(#[trigger] items[i]) by {
            assert(is_list_item(items[i]));
        }
        lemma_filter_keeps_all(items, nonempty);
    }
}

/// A text that is two texts joined at a comma parses to the items of the
/// first followed by the items of the second.
pub proof fn law_parse_list_concat(a: Seq<char>, b: Seq<char>)
    ensures
        parse_list_spec(a.push(',') + b) == parse_list_spec(a) + parse_list_spec(b),
{
    let f = |p: Seq<char>| trim_spec(p);
    let nonempty = |p: Seq<char>| p.len() > 0;
    lemma_split_concat(a, b, ',');
    let sa = split_spec(a, ',');
    let sb = split_spec(b, ',');
    assert((sa + sb).map_values(f) =~= sa.map_values(f) + sb.map_values(f));
    Seq::filter_distributes_over_add(sa.map_values(f), sb.map_values(f), nonempty);
}

/// Parsing the comma-joined items of a parsed list gives the same items.
pub proof fn law_parse_list_idempotent(s: Seq<char>)
    ensures
        parse_list_spec(join_spec(parse_list_spec(s), ',')) == parse_list_spec(s),
{
    let items = parse_list_spec(s);
    assert forall|i: int| 0 <= i < items.len() implies is_list_item(#[trigger] items[i]) by {
        law_parse_list_items(s, i);
        lemma_trim_of_trimmed(items[i]);
    }
    law_parse_list_join(items);
}

/// The bounds of the pieces of `cs[from..to]` between occurrences of `sep`,
/// as [`split_spec`] gives them.
pub(crate) fn split_bounds(cs: &Vec<char>, from: usize, to: usize, sep: char) -> (b: Vec<
    (usize, usize),
>)
    requires
        from <= to <= cs@.len(),
    ensures
        b@.len() == split_spec(cs@.subrange(from as int, to as int), sep).len(),
        forall|i: int|
            0 <= i < b@.len() ==> from <= (#[trigger] b@[i]).0 <= b@[i].1 <= to && cs@.subrange(
                b@[i].0 as int,
                b@[i].1 as int,
            ) == split_spec(cs@.subrange(from as int, to as int), sep)[i],
{
    let mut b: Vec<(usize, usize)> = Vec::new();
    let mut start = from;
    let mut i = from;
    let ghost pieces: Seq<Seq<char>> = seq![Seq::empty()];
    assert(cs@.subrange(from as int, from as int) =~= Seq::<char>::empty());
    while i < to
        invariant
            from <= start <= i <= to <= cs@.len(),
            pieces == split_spec(cs@.subrange(from as int, i as int), sep),
            pieces.len() >= 1,
            pieces.last() == cs@.subrange(start as int, i as int),
            b@.len() == pieces.len() - 1,
            forall|k: int|
                0 <= k < b@.len() ==> from <= (#[trigger] b@[k]).0 <= b@[k].1 <= start
                    && cs@.subrange(b@[k].0 as int, b@[k].1 as int) == pieces[k],
        decreases to - i,
    {
        let c = cs[i];
        let ghost prev = pieces;
        assert(cs@.subrange(from as int, i + 1).drop_last() =~= cs@.subrange(from as int, i as int));
        if c == sep {
            b.push((start, i));
            proof {
                pieces = prev.push(Seq::empty());
            }
            start = i + 1;
        } else {
            proof {
                pieces = prev.update(prev.len() - 1, prev.last().push(c));
            }
        }
        i = i + 1;
        assert(pieces.last() =~= cs@.subrange(start as int, i as int));
    }
    b.push((start, to));
    b
}

/// The number that a sequence of decimal digits denotes, most significant
/// digit first.
pub open spec fn digits_value(s: Seq<char>) -> int
    decreases s.len(),
{
    if s.len() == 0 {
        0
    } else {
        digits_value(s.drop_last()) * 10 + (s.last() as int - 48)
    }
}

/// The decimal rendering of `n` is a non-empty run of the digits `0` to
/// `9`, without a leading zero unless `n` is zero, and it reads back as
/// `n`.
pub proof fn law_decimal_reads_back(n: nat)
    ensures
        decimal_spec(n).len() >= 1,
        forall|i: int|
            0 <= i < decimal_spec(n).len() ==> 48 <= (#[trigger] decimal_spec(n)[i]) as int <= 57,
        n != 0 ==> decimal_spec(n)[0] != '0',
        digits_value(decimal_spec(n)) == n,
    decreases n,
{
    if n < 10 {
        assert(((48 + n) as char) as int == 48 + n);
        assert(seq![digit_char(n)].drop_last() =~= Seq::<char>::empty());
        assert(digits_value(Seq::<char>::empty()) == 0);
        assert(digits_value(seq![digit_char(n)]) == digits_value(Seq::<char>::empty()) * 10 + (
        digit_char(n) as int - 48));
    } else {
        law_decimal_reads_back(n / 10);
        let d = decimal_spec(n / 10);
        let c = digit_char(n % 10);
        assert(((48 + n % 10) as char) as int == 48 + n % 10);
        assert(d.push(c).drop_last() =~= d);
        assert(d.push(c).last() == c);
        assert(d.push(c)[0] == d[0]);
        assert(digits_value(d.push(c)) == digits_value(d) * 10 + (c as int - 48));
        assert(n == (n / 10) * 10 + n % 10) by {
            vstd::arithmetic::div_mod::lemma_fundamental_div_mod(n as int, 10);
        }
        assert forall|i: int| 0 <= i < d.push(c).len() implies 48 <= (#[trigger] d.push(c)[i]) as int <= 57 by {
            if i < d.len() {
                assert(d.push(c)[i] == d[i]);
            }
        }
    }
}

/// Distinct numbers render to distinct texts.
pub proof fn law_decimal_injective(a: nat, b: nat)
    ensures
        decimal_spec(a) == decimal_spec(b) ==> a == b,
{
    law_decimal_reads_back(a);
    law_decimal_reads_back(b);
}

} // verus!
