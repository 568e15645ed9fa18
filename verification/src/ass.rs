//! The ASS events behind a subtitle, as mpv's `sub-text/ass-full`
//! property gives them: one `Dialogue:` line per event on screen, whose
//! comma-separated fields are `Layer, Start, End, Style, Name, MarginL,
//! MarginR, MarginV, Effect, Text`.

use vstd::prelude::*;
use crate::filter::StyleFilter;
use crate::text::{chars_of, split_bounds, split_spec, trim_bounds, trim_spec, lemma_split_concat};

verus! {

/// The prefix of an event line.
pub open spec fn dialogue_prefix() -> Seq<char> {
    "Dialogue:"@
}

/// The Style and Name fields of an event line, trimmed; `None` where the
/// line is not a `Dialogue:` line with all ten fields.
pub open spec fn event_style_name(line: Seq<char>) -> Option<(Seq<char>, Seq<char>)> {
    if line.len() >= dialogue_prefix().len() && line.take(dialogue_prefix().len() as int)
        == dialogue_prefix() {
        let fields = split_spec(line.skip(dialogue_prefix().len() as int), ',');
        if fields.len() >= 10 {
            Some((trim_spec(fields[3]), trim_spec(fields[4])))
        } else {
            None
        }
    } else {
        None
    }
}

/// Whether a subtitle whose events are described by `text` is kept by
/// `filter`: where `text` holds no event, the filter has nothing to judge
/// and the subtitle is kept; otherwise it is kept where the filter keeps at
/// least one of its events.
pub open spec fn ass_kept(filter: StyleFilter, text: Seq<char>) -> bool {
    let lines = split_spec(text, '\n');
    ||| forall|i: int| 0 <= i < lines.len() ==> #[trigger] event_style_name(lines[i]) is None
    ||| exists|i: int| 0 <= i < lines.len() && #[trigger] event_kept(filter, lines[i])
}

/// Whether `line` is an event that `filter` keeps.
pub open spec fn event_kept(filter: StyleFilter, line: Seq<char>) -> bool {
    match event_style_name(line) {
        Some(sn) => filter.allows_spec(sn.0, sn.1),
        None => false,
    }
}

/// Whether `cs[lo..hi]` starts with `Dialogue:`.
fn starts_with_dialogue(cs: &Vec<char>, prefix: &Vec<char>, lo: usize, hi: usize) -> (r: bool)
    requires
        lo <= hi <= cs@.len(),
        prefix@ == dialogue_prefix(),
    ensures
        r == (cs@.subrange(lo as int, hi as int).len() >= dialogue_prefix().len() && cs@.subrange(
            lo as int,
            hi as int,
        ).take(dialogue_prefix().len() as int) == dialogue_prefix()),
{
    let line = Ghost(cs@.subrange(lo as int, hi as int));
    let n = prefix.len();
    if hi - lo < n {
        return false;
    }
    let mut j: usize = 0;
    while j < n
        invariant
            n == prefix@.len(),
            prefix@ == dialogue_prefix(),
            lo + n <= hi <= cs@.len(),
            j <= n,
            line@ == cs@.subrange(lo as int, hi as int),
            forall|k: int| 0 <= k < j ==> line@[k] == prefix@[k],
        decreases n - j,
    {
        if cs[lo + j] != prefix[j] {
            assert(line@[j as int] == cs@[lo + j]);
            assert(line@.take(n as int)[j as int] != prefix@[j as int]);
            return false;
        }
        j = j + 1;
    }
    assert(line@.take(n as int) =~= prefix@);
    true
}

/// The Style and Name fields of the event line `cs[lo..hi]`, as bounds in
/// `cs`.
fn event_bounds(cs: &Vec<char>, prefix: &Vec<char>, lo: usize, hi: usize) -> (r: Option<
    ((usize, usize), (usize, usize)),
>)
    requires
        lo <= hi <= cs@.len(),
        prefix@ == dialogue_prefix(),
    ensures
        match r {
            Some((st, nm)) => {
                &&& st.0 <= st.1 <= cs@.len()
                &&& nm.0 <= nm.1 <= cs@.len()
                &&& event_style_name(cs@.subrange(lo as int, hi as int)) == Some(
                    (
                        cs@.subrange(st.0 as int, st.1 as int),
                        cs@.subrange(nm.0 as int, nm.1 as int),
                    ),
                )
            },
            None => event_style_name(cs@.subrange(lo as int, hi as int)) is None,
        },
{
    if !starts_with_dialogue(cs, prefix, lo, hi) {
        return None;
    }
    let body = lo + prefix.len();
    assert(cs@.subrange(lo as int, hi as int).skip(dialogue_prefix().len() as int) =~= cs@.subrange(
        body as int,
        hi as int,
    ));
    let fields = split_bounds(cs, body, hi, ',');
    if fields.len() < 10 {
        return None;
    }
    let (s0, s1) = fields[3];
    let (n0, n1) = fields[4];
    let st = trim_bounds(cs, s0, s1);
    let nm = trim_bounds(cs, n0, n1);
    Some((st, nm))
}

/// Whether `filter` keeps a subtitle whose events are described by `text`,
/// as [`ass_kept`] says.
pub fn ass_allows(filter: &StyleFilter, text: &str) -> (r: bool)
    ensures
        r == ass_kept(*filter, text@),
{
    let cs = chars_of(text);
    let prefix = chars_of("Dialogue:");
    let n = cs.len();
    let lines = split_bounds(&cs, 0, n, '\n');
    assert(cs@.subrange(0, n as int) =~= text@);
    let ghost ls = split_spec(text@, '\n');
    let mut any_event = false;
    let mut any_kept = false;
    let mut i: usize = 0;
    while i < lines.len()
        invariant
            n == cs@.len(),
            cs@ == text@,
            prefix@ == dialogue_prefix(),
            ls == split_spec(text@, '\n'),
            lines@.len() == ls.len(),
            forall|k: int|
                0 <= k < lines@.len() ==> (#[trigger] lines@[k]).0 <= lines@[k].1 <= n
                    && cs@.subrange(lines@[k].0 as int, lines@[k].1 as int) == ls[k],
            i <= lines@.len(),
            any_event == exists|k: int| 0 <= k < i && #[trigger] event_style_name(ls[k]) is Some,
            any_kept == exists|k: int| 0 <= k < i && #[trigger] event_kept(*filter, ls[k]),
        decreases lines@.len() - i,
    {
        let (lo, hi) = lines[i];
        assert(cs@.subrange(lo as int, hi as int) == ls[i as int]);
        let ghost old_event = any_event;
        let ghost old_kept = any_kept;
        let ghost line = ls[i as int];
        match event_bounds(&cs, &prefix, lo, hi) {
            Some((st, nm)) => {
                any_event = true;
                let style = text.substring_char(st.0, st.1);
                let name = text.substring_char(nm.0, nm.1);
                let keep = filter.allows(style, name);
                assert(event_kept(*filter, line) == keep);
                if keep {
                    any_kept = true;
                }
            },
            None => {
                assert(!event_kept(*filter, line));
            },
        }
        proof {
            assert(any_event == (old_event || event_style_name(line) is Some));
            assert(any_kept == (old_kept || event_kept(*filter, line)));
            if any_event && !old_event {
                assert(event_style_name(ls[i as int]) is Some);
            }
            if any_kept && !old_kept {
                assert(event_kept(*filter, ls[i as int]));
            }
            assert forall|k: int| 0 <= k < i + 1 && #[trigger] event_kept(*filter, ls[k]) implies (
            old_kept || event_kept(*filter, line)) by {
                if k < i {
                    assert(old_kept);
                }
            }
            assert forall|k: int| 0 <= k < i + 1 && #[trigger] event_style_name(ls[k]) is Some implies (
            old_event || event_style_name(line) is Some) by {
                if k < i {
                    assert(old_event);
                }
            }
        }
        i = i + 1;
    }
    !any_event || any_kept
}

/// A subtitle is kept as soon as one of its event lines is kept, wherever
/// that line stands and whatever the other lines are; a kept subtitle has
/// no event at all or a kept event.
pub proof fn law_any_kept_event_keeps(filter: StyleFilter, text: Seq<char>, i: int)
    ensures
        0 <= i < split_spec(text, '\n').len() && event_kept(filter, split_spec(text, '\n')[i])
            ==> ass_kept(filter, text),
        ass_kept(filter, text) ==> (forall|k: int|
            0 <= k < split_spec(text, '\n').len() ==> #[trigger] event_style_name(
                split_spec(text, '\n')[k],
            ) is None) || (exists|k: int|
            0 <= k < split_spec(text, '\n').len() && #[trigger] event_style_name(
                split_spec(text, '\n')[k],
            ) is Some && filter.allows_spec(
                (event_style_name(split_spec(text, '\n')[k])->0).0,
                (event_style_name(split_spec(text, '\n')[k])->0).1,
            )),
{
    let lines = split_spec(text, '\n');
    if ass_kept(filter, text) && !(forall|k: int|
        0 <= k < lines.len() ==> #[trigger] event_style_name(lines[k]) is None) {
        let k = choose|k: int| 0 <= k < lines.len() && #[trigger] event_kept(filter, lines[k]);
        assert(event_style_name(lines[k]) is Some);
    }
}

/// The order of the event lines does not matter: two blocks of lines
/// joined one way round are kept exactly when they are kept joined the
/// other way round, and exactly when one block holds a kept event or
/// neither holds any event.
pub proof fn law_event_order_does_not_matter(filter: StyleFilter, a: Seq<char>, b: Seq<char>)
    ensures
        ass_kept(filter, a.push('\n') + b) == ass_kept(filter, b.push('\n') + a),
        ass_kept(filter, a.push('\n') + b) == ((ass_kept(filter, a) && ass_kept(filter, b)) || (
        exists|i: int|
            0 <= i < split_spec(a, '\n').len() && #[trigger] event_kept(
                filter,
                split_spec(a, '\n')[i],
            )) || (exists|i: int|
            0 <= i < split_spec(b, '\n').len() && #[trigger] event_kept(
                filter,
                split_spec(b, '\n')[i],
            ))),
{
    lemma_split_concat(a, b, '\n');
    lemma_split_concat(b, a, '\n');
    let la = split_spec(a, '\n');
    let lb = split_spec(b, '\n');
    lemma_kept_concat(filter, la, lb);
    lemma_kept_concat(filter, lb, la);
}

/// The lines of `la + lb` hold a kept event exactly when one of the two
/// parts does, and no event exactly when neither does.
proof fn lemma_kept_concat(filter: StyleFilter, la: Seq<Seq<char>>, lb: Seq<Seq<char>>)
    ensures
        (exists|i: int| 0 <= i < (la + lb).len() && #[trigger] event_kept(filter, (la + lb)[i]))
            == ((exists|i: int| 0 <= i < la.len() && #[trigger] event_kept(filter, la[i])) || (
        exists|i: int| 0 <= i < lb.len() && #[trigger] event_kept(filter, lb[i]))),
        (forall|i: int| 0 <= i < (la + lb).len() ==> #[trigger] event_style_name((la + lb)[i]) is None)
            == ((forall|i: int| 0 <= i < la.len() ==> #[trigger] event_style_name(la[i]) is None)
            && (forall|i: int| 0 <= i < lb.len() ==> #[trigger] event_style_name(lb[i]) is None)),
{
    let l = la + lb;
    if exists|i: int| 0 <= i < l.len() && #[trigger] event_kept(filter, l[i]) {
        let i = choose|i: int| 0 <= i < l.len() && #[trigger] event_kept(filter, l[i]);
        if i < la.len() {
            assert(l[i] == la[i]);
        } else {
            assert(l[i] == lb[i - la.len()]);
        }
    }
    if exists|i: int| 0 <= i < la.len() && #[trigger] event_kept(filter, la[i]) {
        let i = choose|i: int| 0 <= i < la.len() && #[trigger] event_kept(filter, la[i]);
        assert(l[i] == la[i]);
    }
    if exists|i: int| 0 <= i < lb.len() && #[trigger] event_kept(filter, lb[i]) {
        let i = choose|i: int| 0 <= i < lb.len() && #[trigger] event_kept(filter, lb[i]);
        assert(l[la.len() + i] == lb[i]);
    }
    if forall|i: int| 0 <= i < l.len() ==> #[trigger] event_style_name(l[i]) is None {
        assert forall|i: int| 0 <= i < la.len() implies #[trigger] event_style_name(la[i]) is None by {
            assert(l[i] == la[i]);
        }
        assert forall|i: int| 0 <= i < lb.len() implies #[trigger] event_style_name(lb[i]) is None by {
            assert(l[la.len() + i] == lb[i]);
        }
    }
    if (forall|i: int| 0 <= i < la.len() ==> #[trigger] event_style_name(la[i]) is None) && (forall|
        i: int,
    | 0 <= i < lb.len() ==> #[trigger] event_style_name(lb[i]) is None) {
        assert forall|i: int| 0 <= i < l.len() implies #[trigger] event_style_name(l[i]) is None by {
            if i < la.len() {
                assert(l[i] == la[i]);
            } else {
                assert(l[i] == lb[i - la.len()]);
            }
        }
    }
}

} // verus!
